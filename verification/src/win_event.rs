//! Which window events are foreground switches.

use crate::common_struct::TrackerEvent;
use vstd::prelude::*;

verus! {

/// The event that the system raises when the foreground window changes.
pub const EVENT_SYSTEM_FOREGROUND: u32 = 3;

/// The object that is a window itself.
pub const OBJID_WINDOW: i32 = 0;

/// The child that is the object itself.
pub const CHILDID_SELF: i32 = 0;

/// Whether a window event reports that a window came to the foreground.
pub open spec fn is_foreground_switch(
    event: u32,
    hwnd_addr: isize,
    id_object: i32,
    id_child: i32,
) -> bool {
    event == EVENT_SYSTEM_FOREGROUND && hwnd_addr != 0 && id_object == OBJID_WINDOW && id_child
        == CHILDID_SELF
}

/// Exactly the foreground event of a window that is there, about the window
/// itself and none of its children, is a switch.
pub proof fn law_foreground_events(event: u32, hwnd_addr: isize, id_object: i32, id_child: i32)
    ensures
        is_foreground_switch(event, hwnd_addr, id_object, id_child) <==> event == 3 && id_object
            == 0 && id_child == 0 && hwnd_addr != 0,
{
}

/// The tracker event for a window event; only real foreground switches have
/// one.
pub fn process_win_event(
    event: u32,
    hwnd_addr: isize,
    id_object: i32,
    id_child: i32,
    at_ms: i64,
) -> (res: Option<TrackerEvent>)
    ensures
        res == (if is_foreground_switch(event, hwnd_addr, id_object, id_child) {
            Some(TrackerEvent::ForegroundChanged { hwnd_addr, at_ms })
        } else {
            None
        }),
        event == 3 && id_object == 0 && id_child == 0 && hwnd_addr != 0 <==> res is Some,
        res matches Some(switch) ==> switch == (TrackerEvent::ForegroundChanged {
            hwnd_addr,
            at_ms,
        }),
{
    if event != EVENT_SYSTEM_FOREGROUND {
        return None;
    }
    if hwnd_addr == 0 {
        return None;
    }
    if id_object != OBJID_WINDOW || id_child != CHILDID_SELF {
        return None;
    }
    Some(TrackerEvent::ForegroundChanged { hwnd_addr, at_ms })
}

} // verus!
