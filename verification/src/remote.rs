//! The app's session with the remote: which events reach the user interface, and
//! what is said of them.
use crate::controls;
use crate::measure;
use crate::protocol;
use crate::text;
use crate::watch::{self, read_top_state};
use vstd::prelude::*;

verus! {

/// What the worker that reads the remote tells the user interface.
pub enum Event {
    Connected(&'static str),
    Hold(bool),
    Stopped(Result<(), String>),
}

/// The name of a transport in messages.
pub open spec fn spec_transport_name(bluetooth: bool) -> Seq<char> {
    if bluetooth {
        "蓝牙"@
    } else {
        "USB"@
    }
}

pub fn transport_name(bluetooth: bool) -> (name: &'static str)
    ensures
        name@ == spec_transport_name(bluetooth),
{
    if bluetooth {
        "蓝牙"
    } else {
        "USB"
    }
}

/// Turns notifications into changes of the hold.
#[derive(Debug, Clone, Copy, PartialEq, Eq, Structural)]
pub struct HoldTracker {
    pub address: u8,
    pub feature: u8,
    pub held: bool,
}

impl HoldTracker {
    /// The change that the bytes of a read bring.
    pub open spec fn change(self, data: Seq<u8>) -> Option<bool> {
        match watch::top_state(data, self.address, self.feature) {
            Some(down) => if down != self.held {
                Some(down)
            } else {
                None
            },
            None => None,
        }
    }

    pub fn new(address: u8, feature: u8) -> (tracker: Self)
        ensures
            tracker == (HoldTracker { address, feature, held: false }),
    {
        HoldTracker { address, feature, held: false }
    }

    /// Takes the bytes of a read; the answer is a change of the hold to tell.
    pub fn observe(&mut self, data: &[u8]) -> (change: Option<bool>)
        ensures
            change == old(self).change(data@),
            *final(self) == (HoldTracker {
                held: match change {
                    Some(down) => down,
                    None => old(self).held,
                },
                ..*old(self)
            }),
    {
        if let Some(down) = read_top_state(data, self.address, self.feature) {
            if down != self.held {
                self.held = down;
                return Some(down);
            }
        }
        None
    }
}

/// Every change that is told is one: what is told differs from what was told last,
/// and is what the notification shows.
pub proof fn only_changes_are_told(tracker: HoldTracker, data: Seq<u8>)
    ensures
        tracker.change(data) matches Some(down) ==> down != tracker.held && watch::top_state(
            data,
            tracker.address,
            tracker.feature,
        ) == Some(down),
        tracker.change(data) is None && watch::top_state(data, tracker.address, tracker.feature)
            is Some ==> watch::top_state(data, tracker.address, tracker.feature) == Some(
            tracker.held,
        ),
{
}

/// A release is never inferred: it is told only when a notification from the remote
/// lists the held controls without the top button.
pub proof fn only_notifications_release(tracker: HoldTracker, data: Seq<u8>)
    requires
        tracker.change(data) == Some(false),
    ensures
        protocol::is_report(data),
        controls::is_button_event(data, tracker.address, tracker.feature),
        !controls::held_controls(protocol::payload_of(data)).contains(controls::TOP_HOLD),
{
}

/// Which session's events reach the user interface.
#[derive(Debug, Clone, Copy, PartialEq, Eq, Structural)]
pub struct Gate {
    /// The number of the present session.
    pub epoch: u64,
    /// A session is running.
    pub running: bool,
    /// The app is quitting.
    pub closing: bool,
}

impl Gate {
    pub open spec fn passes(self, epoch: u64) -> bool {
        !self.closing && epoch == self.epoch
    }

    pub fn new() -> (gate: Self)
        ensures
            gate == (Gate { epoch: 0, running: false, closing: false }),
    {
        Gate { epoch: 0, running: false, closing: false }
    }

    /// Begins a session: its number, unless one is running or the app is quitting.
    pub fn begin(&mut self) -> (epoch: Option<u64>)
        ensures
            if old(self).running || old(self).closing {
                epoch is None && *final(self) == *old(self)
            } else {
                epoch == Some(measure::following(old(self).epoch)) && *final(self) == (Gate {
                    epoch: measure::following(old(self).epoch),
                    ..*old(self)
                })
            },
    {
        if self.running || self.closing {
            return None;
        }
        self.epoch = measure::next_number(self.epoch);
        Some(self.epoch)
    }

    /// The session that was begun is running.
    pub fn started(&mut self)
        ensures
            *final(self) == (Gate { running: true, ..*old(self) }),
    {
        self.running = true;
    }

    /// Ends the session; its events no longer count.
    pub fn end(&mut self)
        ensures
            *final(self) == (Gate {
                epoch: measure::following(old(self).epoch),
                running: false,
                ..*old(self)
            }),
    {
        self.epoch = measure::next_number(self.epoch);
        self.running = false;
    }

    /// The app is quitting; no event counts any more.
    pub fn close(&mut self)
        ensures
            *final(self) == (Gate { closing: true, ..*old(self) }),
    {
        self.closing = true;
    }

    /// Whether an event of a session counts.
    pub fn admits(&self, epoch: u64) -> (admits: bool)
        ensures
            admits == self.passes(epoch),
    {
        !self.closing && epoch == self.epoch
    }
}

/// The events of a session stop counting when it ends or another begins, and all do
/// when the app quits.
pub proof fn ended_sessions_are_silent(gate: Gate, epoch: u64)
    requires
        gate.passes(epoch),
    ensures
        !(Gate { epoch: measure::following(gate.epoch), ..gate }).passes(epoch),
        !(Gate { closing: true, ..gate }).passes(epoch),
{
}

/// Prefix and text as one message.
fn prefixed(prefix: &str, text: &str) -> (message: String)
    ensures
        message@ == prefix@ + text@,
{
    let mut message = prefix.to_owned();
    message.append(text);
    message
}

pub fn connected_message(transport: &str) -> (message: String)
    ensures
        message@ == "Spotlight 已通过"@ + transport@ + "连接。按住顶键显示，松开隐藏。"@,
{
    let mut message = prefixed("Spotlight 已通过", transport);
    message.append("连接。按住顶键显示，松开隐藏。");
    message
}

pub fn connection_failed_message(error: &str) -> (message: String)
    ensures
        message@ == "无法连接遥控器："@ + error@,
{
    prefixed("无法连接遥控器：", error)
}

pub fn stopped_message(error: &str) -> (message: String)
    ensures
        message@ == "遥控器已停止："@ + error@,
{
    prefixed("遥控器已停止：", error)
}

/// What is logged when the lease on the remote is taken.
pub open spec fn ready(bluetooth: bool, index: u8, address: u8, feature: u8) -> Seq<char> {
    "REMOTE READY transport="@ + (if bluetooth {
        "Bluetooth"@
    } else {
        "USB"@
    }) + " query="@ + text::hex(index as nat, 2) + " notifications="@ + text::hex(address as nat, 2)
        + " feature="@ + text::hex(feature as nat, 2)
}

pub fn ready_line(bluetooth: bool, index: u8, address: u8, feature: u8) -> (line: String)
    ensures
        line@ == ready(bluetooth, index, address, feature),
{
    let mut line = "REMOTE READY transport=".to_owned();
    line.append(
        if bluetooth {
            "Bluetooth"
        } else {
            "USB"
        },
    );
    line.append(" query=");
    text::push_hex(&mut line, index as u64, 2);
    line.append(" notifications=");
    text::push_hex(&mut line, address as u64, 2);
    line.append(" feature=");
    text::push_hex(&mut line, feature as u64, 2);
    line
}

/// A change is told exactly when a notification shows the top button otherwise than it was
/// told last: one of the four words behind the header is its number, or none is.
pub proof fn changes_of_the_top_button_are_told(tracker: HoldTracker, data: Seq<u8>)
    ensures
        ({
            let notification = data.len() == 20 && data[0] == 0x11 && data[1] == tracker.address
                && data[2] == tracker.feature && data[3] == 0;
            let down = (data[4] == 0 && data[5] == 0xd8) || (data[6] == 0 && data[7] == 0xd8) || (
            data[8] == 0 && data[9] == 0xd8) || (data[10] == 0 && data[11] == 0xd8);
            &&& notification && down && !tracker.held ==> tracker.change(data) == Some(true)
            &&& notification && !down && tracker.held ==> tracker.change(data) == Some(false)
            &&& !notification || down == tracker.held ==> tracker.change(data) is None
        }),
{
    watch::a_notification_shows_the_top_button(data, tracker.address, tracker.feature);
}

/// The events of the present session count until the app quits, and no others.
pub proof fn the_present_session_is_heard(gate: Gate, epoch: u64)
    ensures
        !gate.closing ==> gate.passes(gate.epoch),
        epoch != gate.epoch ==> !gate.passes(epoch),
        gate.closing ==> !gate.passes(epoch),
        gate.epoch < u64::MAX ==> (Gate {
            epoch: measure::following(gate.epoch),
            closing: false,
            ..gate
        }).passes((gate.epoch + 1) as u64),
{
}

/// The transports have these names.
pub proof fn transports_have_these_names()
    ensures
        spec_transport_name(true) == "蓝牙"@,
        spec_transport_name(false) == "USB"@,
{
}

} // verus!
