//! Reports of the browser bridge on their way to the tracker.

use crate::common_struct::{HgConfig, TrackerEvent, WebReportInfo};
use vstd::prelude::*;

verus! {

/// Room for one datagram.
pub const NUM_RECV_BUF_BYTES: usize = 16384;

/// There is room for the datagrams of frames up to sixteen kibibytes.
pub proof fn law_room_for_a_datagram()
    ensures
        NUM_RECV_BUF_BYTES == 16 * 1024,
{
}

/// A datagram of the browser bridge.
#[derive(Debug, Clone)]
pub struct WebReceiverMessage {
    pub event: String,
    pub focused: bool,
    pub browser_pid: u32,
    pub url: Option<String>,
    pub title: Option<String>,
}

/// What happened at the socket.
#[derive(Debug, Clone, Copy, PartialEq, Eq, Structural)]
pub enum ListenerEvent {
    /// Binding the socket has been tried.
    Bound { is_ok: bool },
    /// Receiving failed.
    RecvFailed,
    /// A datagram came; it may not have been understood or forwarded.
    Handled { is_ok: bool },
}

/// What the listener does next.
#[derive(Debug, Clone, Copy, PartialEq, Eq, Structural)]
pub enum ListenerAction {
    Receive,
    FailBind,
    FailRecv,
}

/// Receives the reports of the browser bridge.
#[derive(Debug, Clone)]
pub struct WebListener {
    pub str_bind: String,
}

/// The report that a datagram stands for.
pub open spec fn report_of(msg: WebReceiverMessage, at_ms: i64) -> WebReportInfo {
    WebReportInfo {
        str_event: msg.event,
        is_focused: msg.focused,
        browser_pid: msg.browser_pid,
        opt_url: msg.url,
        opt_title: msg.title,
        at_ms,
    }
}

/// A report holds each member of its datagram and the time of arrival; two
/// datagrams that arrived at one time and differ make reports that differ.
pub proof fn law_report_holds_the_whole_datagram(
    a: WebReceiverMessage,
    b: WebReceiverMessage,
    at_ms: i64,
)
    ensures
        report_of(a, at_ms).str_event == a.event && report_of(a, at_ms).at_ms == at_ms,
        report_of(a, at_ms).is_focused == a.focused,
        report_of(a, at_ms).browser_pid == a.browser_pid,
        report_of(a, at_ms).opt_url == a.url && report_of(a, at_ms).opt_title == a.title,
        report_of(a, at_ms) == report_of(b, at_ms) ==> a == b,
{
}

/// What the listener does after an event.
pub open spec fn after_listener_event(event: ListenerEvent) -> ListenerAction {
    match event {
        ListenerEvent::Bound { is_ok } => if is_ok {
            ListenerAction::Receive
        } else {
            ListenerAction::FailBind
        },
        ListenerEvent::RecvFailed => ListenerAction::FailRecv,
        ListenerEvent::Handled { .. } => ListenerAction::Receive,
    }
}

/// Only the socket ends the listener: it fails where it cannot be bound and
/// where receiving fails, and no datagram, handled or not, ends it.
pub proof fn law_only_the_socket_ends_the_listener(event: ListenerEvent)
    ensures
        after_listener_event(event) is FailBind <==> event == (ListenerEvent::Bound {
            is_ok: false,
        }),
        after_listener_event(event) is FailRecv <==> event is RecvFailed,
{
}

impl WebListener {
    /// A listener on the configured address.
    pub fn new(config: &HgConfig) -> (res: WebListener)
        ensures
            res.str_bind@ == config.web_receiver_udp_addr@,
    {
        WebListener { str_bind: config.web_receiver_udp_addr.clone() }
    }

    /// Receives until the socket fails; a datagram that could not be handled
    /// does not end the loop.
    pub fn run(&self, event: ListenerEvent) -> (res: ListenerAction)
        ensures
            res == after_listener_event(event),
            res == match event {
                ListenerEvent::Bound { is_ok } => if is_ok {
                    ListenerAction::Receive
                } else {
                    ListenerAction::FailBind
                },
                ListenerEvent::RecvFailed => ListenerAction::FailRecv,
                ListenerEvent::Handled { .. } => ListenerAction::Receive,
            },
    {
        match event {
            ListenerEvent::Bound { is_ok } => if is_ok {
                ListenerAction::Receive
            } else {
                ListenerAction::FailBind
            },
            ListenerEvent::RecvFailed => ListenerAction::FailRecv,
            ListenerEvent::Handled { .. } => ListenerAction::Receive,
        }
    }

    /// The tracker event for a datagram that arrived at `at_ms`. The datagram
    /// is passed on as it is.
    pub fn handle_packet(&self, msg: WebReceiverMessage, at_ms: i64) -> (res: TrackerEvent)
        ensures
            res == TrackerEvent::WebUpdate(report_of(msg, at_ms)),
            res == TrackerEvent::WebUpdate(
                (WebReportInfo {
                    str_event: msg.event,
                    is_focused: msg.focused,
                    browser_pid: msg.browser_pid,
                    opt_url: msg.url,
                    opt_title: msg.title,
                    at_ms,
                }),
            ),
    {
        TrackerEvent::WebUpdate(
            WebReportInfo {
                str_event: msg.event,
                is_focused: msg.focused,
                browser_pid: msg.browser_pid,
                opt_url: msg.url,
                opt_title: msg.title,
                at_ms,
            },
        )
    }
}

} // verus!
