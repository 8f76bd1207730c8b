//! When the user last touched keyboard or mouse, and how often to ask.

use crate::bits::{low_32_bits, unsigned_bits};
use crate::common_struct::HgConfig;
use vstd::prelude::*;

verus! {

/// Why the last input is not known.
#[derive(Debug, Clone, Copy, PartialEq, Eq, Structural)]
pub enum IdleError {
    GetLastInputInfo,
}

/// A count of milliseconds as the 32-bit counter of the system shows it.
pub open spec fn counter_32(ms: int) -> int {
    ms % 0x1_0000_0000
}

/// Milliseconds since the last input: how far the 32-bit counter has come
/// since it showed `last_input_tick`.
pub open spec fn idle_ms(tick_ms: u64, last_input_tick: u32) -> int {
    counter_32(tick_ms - last_input_tick)
}

/// The idle time is right also where the 32-bit counter has wrapped around
/// since the last input, as long as it has not come full circle.
pub proof fn law_idle_time_survives_wraparound(last_input_ms: u64, tick_ms: u64)
    requires
        last_input_ms <= tick_ms,
        tick_ms - last_input_ms < 0x1_0000_0000,
    ensures
        idle_ms(tick_ms, counter_32(last_input_ms as int) as u32) == tick_ms - last_input_ms,
        idle_ms(tick_ms, (last_input_ms % 0x1_0000_0000) as u32) == tick_ms - last_input_ms,
{
}

/// The idle time is the least number of milliseconds after which the 32-bit
/// counter shows what it shows now, whatever it showed at the last input.
pub proof fn law_idle_time_is_what_the_counter_advanced(tick_ms: u64, last_input_tick: u32)
    ensures
        0 <= idle_ms(tick_ms, last_input_tick) < 0x1_0000_0000,
        (last_input_tick + idle_ms(tick_ms, last_input_tick)) % 0x1_0000_0000 == tick_ms
            % 0x1_0000_0000,
{
}

/// What the ticker does next.
#[derive(Debug, Clone, Copy, PartialEq, Eq, Structural)]
pub enum IdleAction {
    /// Wait for the next tick, then send it.
    Tick,
    Stop,
}

/// What the ticker does, given how sending the tick before went, if there was
/// one.
pub open spec fn after_tick(opt_sent: Option<bool>) -> IdleAction {
    if opt_sent == Some(false) {
        IdleAction::Stop
    } else {
        IdleAction::Tick
    }
}

/// The ticker begins with a tick, and stops exactly after one that could not be
/// sent.
pub proof fn law_ticker_stops_with_its_receiver(is_ok: bool)
    ensures
        after_tick(None) is Tick,
        after_tick(Some(is_ok)) is Stop <==> !is_ok,
{
}

/// Periodic idle re-evaluation.
#[derive(Debug, Clone, Copy, PartialEq, Eq, Structural)]
pub struct IdleEvent {
    pub interval_ms: u64,
}

impl IdleEvent {
    /// A ticker with the configured interval; a negative one is read as its
    /// unsigned bit pattern.
    pub fn new(config: &HgConfig) -> (res: IdleEvent)
        ensures
            res.interval_ms == config.idle_check_interval_ms as int % 0x1_0000_0000_0000_0000,
            config.idle_check_interval_ms >= 0 ==> res.interval_ms == config.idle_check_interval_ms,
    {
        IdleEvent { interval_ms: unsigned_bits(config.idle_check_interval_ms) }
    }

    /// Ticks until a tick could not be sent. `opt_sent` tells how sending the
    /// tick before went, if there was one.
    pub fn run(&self, opt_sent: Option<bool>) -> (res: IdleAction)
        ensures
            res == after_tick(opt_sent),
            res == (if opt_sent == Some(false) {
                IdleAction::Stop
            } else {
                IdleAction::Tick
            }),
    {
        match opt_sent {
            Some(false) => IdleAction::Stop,
            _ => IdleAction::Tick,
        }
    }

    /// The time of the last input, from the tick of that input, which the
    /// system may fail to tell, and the present count of milliseconds.
    pub fn get_last_input_ms(now_ms: i64, opt_last_input_tick: Option<u32>, tick_ms: u64) -> (res:
        Result<i64, IdleError>)
        requires
            opt_last_input_tick matches Some(tick) ==> now_ms - idle_ms(tick_ms, tick) >= i64::MIN,
        ensures
            match opt_last_input_tick {
                Some(tick) => res == Ok::<i64, IdleError>((now_ms - idle_ms(tick_ms, tick)) as i64),
                None => res == Err::<i64, IdleError>(IdleError::GetLastInputInfo),
            },
            opt_last_input_tick matches Some(tick) ==> {
                &&& res matches Ok(last)
                &&& 0 <= now_ms - last < 0x1_0000_0000
                &&& (tick + (now_ms - last)) % 0x1_0000_0000 == tick_ms % 0x1_0000_0000
            },
    {
        match opt_last_input_tick {
            Some(tick) => {
                let tick_ms_32: u32 = low_32_bits(tick_ms);
                let idle: u32 = tick_ms_32.wrapping_sub(tick);
                assert(idle == idle_ms(tick_ms, tick));
                Ok(now_ms - idle as i64)
            },
            None => Err(IdleError::GetLastInputInfo),
        }
    }
}

} // verus!
