//! Sessions with diverted controls: taking the leases, giving them back in reverse
//! order, and what is reported of both.
use crate::controls::{
    self, ControlError, Reporting, TemporaryTopButton, BACK_HOLD, NEXT_HOLD, SWITCH_HIGHLIGHT,
    TOP_HOLD,
};
use crate::conversation::{self, Exchange, Reply, Target};
use crate::link;
use crate::message::{self, push_cid};
use crate::protocol::Report;
use crate::text;
use crate::watch::{self, control_name};
use vstd::prelude::*;

verus! {

/// How many gesture controls there are.
pub const GESTURES: usize = 4;

/// The gesture controls: top hold, double click, next hold and back hold.
pub open spec fn gesture_cid(place: int) -> u16 {
    if place == 0 {
        TOP_HOLD
    } else if place == 1 {
        SWITCH_HIGHLIGHT
    } else if place == 2 {
        NEXT_HOLD
    } else {
        BACK_HOLD
    }
}

pub fn gesture(place: usize) -> (cid: u16)
    requires
        place < GESTURES,
    ensures
        cid == gesture_cid(place as int),
{
    if place == 0 {
        TOP_HOLD
    } else if place == 1 {
        SWITCH_HIGHLIGHT
    } else if place == 2 {
        NEXT_HOLD
    } else {
        BACK_HOLD
    }
}

/// What is logged of a lease that was taken.
pub open spec fn diverted_line(cid: u16, original: Reporting) -> Seq<char> {
    "DIVERTED "@ + message::cid_text(cid) + " "@ + watch::spec_control_name(cid)
        + " original_flags="@ + text::hex(original.flags as nat, 4) + " original_mapping="@
        + text::hex(original.mapped_to as nat, 4)
}

fn format_diverted(cid: u16, original: Reporting) -> (line: String)
    ensures
        line@ == diverted_line(cid, original),
{
    let mut line = "DIVERTED ".to_owned();
    push_cid(&mut line, cid);
    line.append(" ");
    line.append(control_name(cid));
    line.append(" original_flags=");
    text::push_hex(&mut line, original.flags as u64, 4);
    line.append(" original_mapping=");
    text::push_hex(&mut line, original.mapped_to as u64, 4);
    line
}

/// An error with the control that it is about.
pub open spec fn control_failure(cid: u16, error: ControlError) -> Seq<char> {
    message::cid_text(cid) + ": "@ + message::control_message(error)
}

fn format_failure(cid: u16, error: &ControlError) -> (line: String)
    ensures
        line@ == control_failure(cid, *error),
{
    let mut line = String::new();
    push_cid(&mut line, cid);
    line.append(": ");
    let message = error.message();
    line.append(message.as_str());
    assert(line@ =~= control_failure(cid, *error));
    line
}

/// The leases of a session, and how taking them ended.
pub struct Diverted<T: FnMut(&Report) -> Reply> {
    pub leases: Vec<TemporaryTopButton<T>>,
    /// What is logged of each lease.
    pub lines: Vec<String>,
    /// The error, where not every control could be taken.
    pub outcome: Result<(), String>,
    /// The transports that were not used.
    pub spare: Vec<T>,
}

/// The leases are those of the first gesture controls, in order, each taken by the
/// conversation with the device.
pub open spec fn leases_taken<T: FnMut(&Report) -> Reply>(
    transports: Seq<T>,
    index: u8,
    feature: u8,
    leases: Seq<TemporaryTopButton<T>>,
) -> bool {
    &&& leases.len() <= GESTURES
    &&& forall|i: int|
        0 <= i < leases.len() ==> {
            let target = Target { index, feature, cid: gesture_cid(i) };
            &&& (#[trigger] leases[i]).target() == target
            &&& leases[i].transport() == transports[i]
            &&& controls::start_ends(
                transports[i],
                target,
                None,
                leases[i].log(),
                Ok(leases[i].baseline()),
            )
        }
}

/// Why the control at a place was not taken, and which transports are left: the
/// session was stopped before the device was asked, or the device or the transport
/// refused it.
pub open spec fn refusal<T: FnMut(&Report) -> Reply, S: Fn() -> bool>(
    transports: Seq<T>,
    stopped: S,
    target: Target,
    place: int,
    message: Seq<char>,
    spare: Seq<T>,
) -> bool {
    ||| {
        &&& message == "Stopped before configuring every control"@
        &&& call_ensures(stopped, (), true)
        &&& spare == transports.skip(place)
    }
    ||| {
        &&& spare == transports.skip(place + 1)
        &&& exists|error: ControlError|
            #![trigger control_failure(target.cid, error)]
            TemporaryTopButton::started(transports[place], target, None, Err(error)) && message
                == control_failure(target.cid, error)
    }
}

/// Takes a lease on each gesture control, one after the other and each with a transport
/// of its own, until one is refused or `stopped` says so. The leases taken so far are
/// handed over in any case, and so are the transports that were not used: nothing was
/// asked through those.
pub fn divert_all<T: FnMut(&Report) -> Reply, S: Fn() -> bool>(
    transports: Vec<T>,
    stopped: S,
    index: u8,
    feature: u8,
) -> (diverted: Diverted<T>)
    requires
        transports@.len() == GESTURES,
        forall|i: int| 0 <= i < GESTURES ==> link::accepts_reports(#[trigger] transports@[i]),
        call_requires(stopped, ()),
    ensures
        leases_taken(transports@, index, feature, diverted.leases@),
        diverted.lines@.len() == diverted.leases@.len(),
        forall|i: int|
            0 <= i < diverted.leases@.len() ==> (#[trigger] diverted.lines@[i])@ == diverted_line(
                gesture_cid(i),
                diverted.leases@[i].baseline(),
            ),
        match diverted.outcome {
            Ok(()) => diverted.leases@.len() == GESTURES && diverted.spare@.len() == 0,
            Err(message) => diverted.leases@.len() < GESTURES && refusal(
                transports@,
                stopped,
                (Target { index, feature, cid: gesture_cid(diverted.leases@.len() as int) }),
                diverted.leases@.len() as int,
                message@,
                diverted.spare@,
            ),
        },
{
    let ghost all = transports@;
    let mut spare = transports;
    let mut leases: Vec<TemporaryTopButton<T>> = Vec::new();
    let mut lines: Vec<String> = Vec::new();
    assert(spare@ =~= all.skip(0));
    for place in 0..GESTURES
        invariant
            all == transports@,
            all.len() == GESTURES,
            forall|i: int| 0 <= i < GESTURES ==> link::accepts_reports(#[trigger] all[i]),
            spare@ == all.skip(place as int),
            call_requires(stopped, ()),
            leases@.len() == place,
            lines@.len() == place,
            leases_taken(all, index, feature, leases@),
            forall|i: int|
                0 <= i < place ==> (#[trigger] lines@[i])@ == diverted_line(
                    gesture_cid(i),
                    leases@[i].baseline(),
                ),
    {
        let cid = gesture(place);
        if stopped() {
            return Diverted {
                leases,
                lines,
                outcome: Err("Stopped before configuring every control".to_owned()),
                spare,
            };
        }
        let transport = spare.remove(0);
        assert(transport == all[place as int]);
        assert(spare@ =~= all.skip(place + 1));
        match TemporaryTopButton::start_control(transport, index, feature, cid) {
            Ok(lease) => {
                lines.push(format_diverted(cid, lease.original()));
                leases.push(lease);
            },
            Err(error) => {
                let message = format_failure(cid, &error);
                return Diverted { leases, lines, outcome: Err(message), spare };
            },
        }
    }
    Diverted { leases, lines, outcome: Ok(()), spare }
}

/// What came of giving one lease back.
pub struct Released {
    pub cid: u16,
    pub outcome: Result<(), ControlError>,
}

/// The restoration of a lease, with the exchanges that were made.
pub open spec fn gives_back<T: FnMut(&Report) -> Reply>(
    lease: TemporaryTopButton<T>,
    released: Released,
) -> bool {
    released.cid == lease.target().cid && lease.finished(released.outcome)
}

/// Restores every control, the last taken first. A failure does not keep the others
/// from being restored.
pub fn release_all<T: FnMut(&Report) -> Reply>(leases: Vec<TemporaryTopButton<T>>) -> (released:
    Vec<Released>)
    ensures
        released@.len() == leases@.len(),
        forall|i: int|
            0 <= i < released@.len() ==> gives_back(
                leases@[leases@.len() - 1 - i],
                #[trigger] released@[i],
            ),
{
    let ghost all = leases@;
    let mut left = leases;
    let mut released: Vec<Released> = Vec::new();
    while left.len() > 0
        invariant
            left@.len() + released@.len() == all.len(),
            left@ == all.take(left@.len() as int),
            forall|i: int|
                0 <= i < released@.len() ==> gives_back(
                    all[all.len() - 1 - i],
                    #[trigger] released@[i],
                ),
        decreases left.len(),
    {
        match left.pop() {
            Some(lease) => {
                assert(lease == all[all.len() - 1 - released@.len()]);
                let cid = lease.control();
                let outcome = lease.finish();
                released.push(Released { cid, outcome });
                assert(left@ =~= all.take(left@.len() as int));
            },
            None => {},
        }
    }
    released
}

/// The failures of a restoration, in order.
pub open spec fn failures_of(released: Seq<Released>) -> Seq<Seq<char>>
    decreases released.len(),
{
    if released.len() == 0 {
        Seq::empty()
    } else {
        let before = failures_of(released.drop_last());
        match released.last().outcome {
            Ok(()) => before,
            Err(error) => before.push(control_failure(released.last().cid, error)),
        }
    }
}

/// The lines of the controls that were restored.
pub open spec fn restored_lines(released: Seq<Released>) -> Seq<Seq<char>>
    decreases released.len(),
{
    if released.len() == 0 {
        Seq::empty()
    } else {
        let before = restored_lines(released.drop_last());
        match released.last().outcome {
            Ok(()) => before.push(
                "RESTORED and verified "@ + message::cid_text(released.last().cid),
            ),
            Err(_) => before,
        }
    }
}

/// Splits a restoration into what is logged and what failed.
pub fn report_released(released: &Vec<Released>) -> (report: (Vec<String>, Vec<String>))
    ensures
        text::contents(report.0@) == restored_lines(released@),
        text::contents(report.1@) == failures_of(released@),
{
    let mut restored: Vec<String> = Vec::new();
    let mut failures: Vec<String> = Vec::new();
    assert(text::contents(restored@) =~= restored_lines(released@.take(0)));
    assert(text::contents(failures@) =~= failures_of(released@.take(0)));
    for i in 0..released.len()
        invariant
            text::contents(restored@) == restored_lines(released@.take(i as int)),
            text::contents(failures@) == failures_of(released@.take(i as int)),
    {
        proof {
            assert(released@.take(i as int + 1).drop_last() =~= released@.take(i as int));
            assert(released@.take(i as int + 1).last() == released@[i as int]);
        }
        let ghost (r, f) = (restored@, failures@);
        match &released[i].outcome {
            Ok(()) => {
                let mut line = "RESTORED and verified ".to_owned();
                push_cid(&mut line, released[i].cid);
                restored.push(line);
                assert(text::contents(restored@) =~= text::contents(r).push(line@));
            },
            Err(error) => {
                let line = format_failure(released[i].cid, error);
                failures.push(line);
                assert(text::contents(failures@) =~= text::contents(f).push(line@));
            },
        }
    }
    assert(released@.take(released@.len() as int) =~= released@);
    (restored, failures)
}

/// What is said of the captured part of a session: nothing, or its error.
pub open spec fn error_text(captured: Result<(), String>) -> Option<Seq<char>> {
    match captured {
        Ok(()) => None,
        Err(error) => Some(error@),
    }
}

/// The message of a session: its own error, what could not be restored, both, or
/// none. `restored` follows an error of the session whose controls are back.
pub open spec fn session_message(
    error: Option<Seq<char>>,
    failure: Option<Seq<char>>,
    restored: Seq<char>,
) -> Option<Seq<char>> {
    match (error, failure) {
        (None, None) => None,
        (Some(error), None) => Some(error + restored),
        (None, Some(failure)) => Some("RESTORE FAILED: "@ + failure),
        (Some(error), Some(failure)) => Some(error + "; RESTORE FAILED: "@ + failure),
    }
}

fn end_session(captured: Result<(), String>, failure: Option<String>, restored: &str) -> (outcome:
    Result<(), String>)
    ensures
        error_text(outcome) == session_message(
            error_text(captured),
            match failure {
                Some(failure) => Some(failure@),
                None => None,
            },
            restored@,
        ),
{
    match (captured, failure) {
        (Ok(()), None) => Ok(()),
        (Err(error), None) => {
            let mut message = error;
            message.append(restored);
            Err(message)
        },
        (Ok(()), Some(failure)) => {
            let mut message = "RESTORE FAILED: ".to_owned();
            message.append(failure.as_str());
            Err(message)
        },
        (Err(error), Some(failure)) => {
            let mut message = error;
            message.append("; RESTORE FAILED: ");
            message.append(failure.as_str());
            Err(message)
        },
    }
}

/// The failures of several restorations as one text.
pub open spec fn failures_text(failures: Seq<Seq<char>>) -> Option<Seq<char>> {
    if failures.len() == 0 {
        None
    } else {
        Some(text::joined(failures, "; "@))
    }
}

/// Ends an observation of all gesture controls.
pub fn end_controls_session(captured: Result<(), String>, failures: &Vec<String>) -> (outcome:
    Result<(), String>)
    ensures
        error_text(outcome) == session_message(
            error_text(captured),
            failures_text(text::contents(failures@)),
            "; diverted controls restored and verified"@,
        ),
{
    let failure = if failures.len() == 0 {
        None
    } else {
        Some(text::join(failures, "; "))
    };
    end_session(captured, failure, "; diverted controls restored and verified")
}

/// What could not be restored of a single lease.
pub open spec fn restore_failure(restored: Result<(), ControlError>) -> Option<Seq<char>> {
    match restored {
        Ok(()) => None,
        Err(error) => Some(message::control_message(error)),
    }
}

fn failure_message(restored: &Result<(), ControlError>) -> (message: Option<String>)
    ensures
        match message {
            Some(message) => restore_failure(*restored) == Some(message@),
            None => restore_failure(*restored) is None,
        },
{
    match restored {
        Ok(()) => None,
        Err(error) => Some(error.message()),
    }
}

/// Ends an observation of the top button.
pub fn end_top_session(captured: Result<(), String>, restored: Result<(), ControlError>) -> (outcome:
    Result<(), String>)
    ensures
        error_text(outcome) == session_message(
            error_text(captured),
            restore_failure(restored),
            "; top setting restored and verified"@,
        ),
{
    end_session(captured, failure_message(&restored), "; top setting restored and verified")
}

/// Ends the app's session with the remote.
pub fn end_remote_session(captured: Result<(), String>, restored: Result<(), ControlError>) -> (
outcome: Result<(), String>)
    ensures
        error_text(outcome) == session_message(
            error_text(captured),
            restore_failure(restored),
            "；顶键原值已恢复并校验。请重新连接。"@,
        ),
{
    end_session(captured, failure_message(&restored), "；顶键原值已恢复并校验。请重新连接。")
}

/// A session whose controls could not be restored never passes for a good one, and
/// neither does one with an error of its own.
pub proof fn no_failure_is_passed_over(
    error: Option<Seq<char>>,
    failure: Option<Seq<char>>,
    restored: Seq<char>,
)
    ensures
        session_message(error, failure, restored) is None == (error is None && failure is None),
{
}

/// What the top observation prints when the lease is taken.
pub open spec fn top_ready(index: u8, feature: u8, original: Reporting, seconds: u64) -> Seq<char> {
    "READY top-hold notifications enabled; index="@ + text::decimal(index as nat) + " feature="@
        + text::hex(feature as nat, 2) + " original_flags="@ + text::hex(original.flags as nat, 4)
        + " original_mapping="@ + text::hex(original.mapped_to as nat, 4)
        + ". Hold/move/keep still/release the top button within "@ + text::decimal(seconds as nat)
        + "s."@
}

pub fn format_top_ready(index: u8, feature: u8, original: Reporting, seconds: u64) -> (line: String)
    ensures
        line@ == top_ready(index, feature, original, seconds),
{
    let mut line = "READY top-hold notifications enabled; index=".to_owned();
    text::push_decimal(&mut line, index as u64);
    line.append(" feature=");
    text::push_hex(&mut line, feature as u64, 2);
    line.append(" original_flags=");
    text::push_hex(&mut line, original.flags as u64, 4);
    line.append(" original_mapping=");
    text::push_hex(&mut line, original.mapped_to as u64, 4);
    line.append(". Hold/move/keep still/release the top button within ");
    text::push_decimal(&mut line, seconds);
    line.append("s.");
    line
}

/// What came of recovering one control.
pub open spec fn recovers<T: FnMut(&Report) -> Reply>(
    transport: T,
    index: u8,
    feature: u8,
    released: Released,
) -> bool {
    TemporaryTopButton::recovered(
        transport,
        (Target { index, feature, cid: released.cid }),
        released.outcome,
    )
}

/// Recovers every gesture control, in order and each with a transport of its own. A
/// refusal does not keep the others from being recovered.
pub fn recover_all<T: FnMut(&Report) -> Reply>(transports: Vec<T>, index: u8, feature: u8) -> (
recovered: Vec<Released>)
    requires
        transports@.len() == GESTURES,
        forall|i: int| 0 <= i < GESTURES ==> link::accepts_reports(#[trigger] transports@[i]),
    ensures
        recovered@.len() == GESTURES,
        forall|i: int|
            0 <= i < GESTURES ==> (#[trigger] recovered@[i]).cid == gesture_cid(i) && recovers(
                transports@[i],
                index,
                feature,
                recovered@[i],
            ),
{
    let ghost all = transports@;
    let mut spare = transports;
    let mut recovered: Vec<Released> = Vec::new();
    assert(spare@ =~= all.skip(0));
    for place in 0..GESTURES
        invariant
            all == transports@,
            all.len() == GESTURES,
            forall|i: int| 0 <= i < GESTURES ==> link::accepts_reports(#[trigger] all[i]),
            spare@ == all.skip(place as int),
            recovered@.len() == place,
            forall|i: int|
                0 <= i < place ==> (#[trigger] recovered@[i]).cid == gesture_cid(i) && recovers(
                    all[i],
                    index,
                    feature,
                    recovered@[i],
                ),
    {
        let cid = gesture(place);
        let transport = spare.remove(0);
        assert(transport == all[place as int]);
        assert(spare@ =~= all.skip(place + 1));
        let outcome = TemporaryTopButton::recover_default_control(transport, index, feature, cid);
        recovered.push(Released { cid, outcome });
    }
    recovered
}

/// What is printed of a control that was recovered.
pub open spec fn recovered_line(cid: u16) -> Seq<char> {
    "RECOVERED and verified "@ + message::cid_text(cid) + " flags=0000 mapped_to="@
        + message::cid_text(cid)
}

/// The lines of the controls that were recovered.
pub open spec fn recovered_lines(recovered: Seq<Released>) -> Seq<Seq<char>>
    decreases recovered.len(),
{
    if recovered.len() == 0 {
        Seq::empty()
    } else {
        let before = recovered_lines(recovered.drop_last());
        match recovered.last().outcome {
            Ok(()) => before.push(recovered_line(recovered.last().cid)),
            Err(_) => before,
        }
    }
}

/// Splits a recovery into the lines to print and its error, which lists every
/// control that failed.
pub fn report_recovered(recovered: &Vec<Released>) -> (report: (Vec<String>, Result<(), String>))
    ensures
        text::contents(report.0@) == recovered_lines(recovered@),
        error_text(report.1) == failures_text(failures_of(recovered@)),
{
    let mut lines: Vec<String> = Vec::new();
    let mut failures: Vec<String> = Vec::new();
    assert(text::contents(lines@) =~= recovered_lines(recovered@.take(0)));
    assert(text::contents(failures@) =~= failures_of(recovered@.take(0)));
    for i in 0..recovered.len()
        invariant
            text::contents(lines@) == recovered_lines(recovered@.take(i as int)),
            text::contents(failures@) == failures_of(recovered@.take(i as int)),
    {
        proof {
            assert(recovered@.take(i as int + 1).drop_last() =~= recovered@.take(i as int));
            assert(recovered@.take(i as int + 1).last() == recovered@[i as int]);
        }
        let ghost (l, f) = (lines@, failures@);
        let cid = recovered[i].cid;
        match &recovered[i].outcome {
            Ok(()) => {
                let mut line = "RECOVERED and verified ".to_owned();
                push_cid(&mut line, cid);
                line.append(" flags=0000 mapped_to=");
                push_cid(&mut line, cid);
                lines.push(line);
                assert(text::contents(lines@) =~= text::contents(l).push(line@));
            },
            Err(error) => {
                let line = format_failure(cid, error);
                failures.push(line);
                assert(text::contents(failures@) =~= text::contents(f).push(line@));
            },
        }
    }
    assert(recovered@.take(recovered@.len() as int) =~= recovered@);
    assert(text::contents(failures@).len() == failures@.len());
    let outcome = if failures.len() == 0 {
        Ok(())
    } else {
        Err(text::join(&failures, "; "))
    };
    (lines, outcome)
}

/// Four controls are diverted, in this order.
pub proof fn the_gestures_are_these_controls()
    ensures
        GESTURES == 4,
        gesture_cid(0) == 0x00d8,
        gesture_cid(1) == 0x00df,
        gesture_cid(2) == 0x00da,
        gesture_cid(3) == 0x00dc,
{
}

/// Every control is reported once, in order: a restored or recovered one by its line, any
/// other by its error.
pub proof fn every_control_is_reported(all: Seq<Released>, one: Released)
    ensures
        failures_of(Seq::empty()).len() == 0,
        restored_lines(Seq::empty()).len() == 0,
        recovered_lines(Seq::empty()).len() == 0,
        one.outcome is Ok ==> {
            &&& failures_of(all.push(one)) == failures_of(all)
            &&& restored_lines(all.push(one)) == restored_lines(all).push(
                "RESTORED and verified "@ + message::cid_text(one.cid),
            )
            &&& recovered_lines(all.push(one)) == recovered_lines(all).push(
                "RECOVERED and verified "@ + message::cid_text(one.cid) + " flags=0000 mapped_to="@
                    + message::cid_text(one.cid),
            )
        },
        one.outcome matches Err(error) ==> {
            &&& failures_of(all.push(one)) == failures_of(all).push(
                message::cid_text(one.cid) + ": "@ + message::control_message(error),
            )
            &&& restored_lines(all.push(one)) == restored_lines(all)
            &&& recovered_lines(all.push(one)) == recovered_lines(all)
        },
{
    assert(all.push(one).drop_last() =~= all);
}

/// The message of a session begins with its own error and ends with what could not be
/// restored, or says that all is restored.
pub proof fn errors_and_failures_are_both_told(
    error: Seq<char>,
    failure: Seq<char>,
    restored: Seq<char>,
)
    ensures
        session_message(None, None, restored) is None,
        session_message(Some(error), None, restored) == Some(error + restored),
        session_message(None, Some(failure), restored) == Some("RESTORE FAILED: "@ + failure),
        session_message(Some(error), Some(failure), restored) == Some(
            error + "; RESTORE FAILED: "@ + failure,
        ),
{
}

/// A session or a restoration without an error says nothing; one with an error tells it, and
/// several are told one after the other.
pub proof fn failures_are_told_in_turn(
    captured: Result<(), String>,
    restored: Result<(), ControlError>,
    first: Seq<char>,
    second: Seq<char>,
)
    ensures
        error_text(captured) is Some <==> captured is Err,
        captured matches Err(error) ==> error_text(captured) == Some(error@),
        restore_failure(restored) is Some <==> restored is Err,
        restored matches Err(error) ==> restore_failure(restored) == Some(
            message::control_message(error),
        ),
        failures_text(Seq::empty()) is None,
        failures_text(seq![first]) == Some(first),
        failures_text(seq![first, second]) == Some(first + "; "@ + second),
{
    reveal_with_fuel(text::joined, 2);
    assert(seq![first, second].skip(1) =~= seq![second]);
}

/// What came of giving a lease back is told of its own control.
pub proof fn a_release_is_of_its_lease<T: FnMut(&Report) -> Reply>(
    lease: TemporaryTopButton<T>,
    released: Released,
)
    ensures
        gives_back(lease, released) ==> released.cid == lease.target().cid && lease.finished(
            released.outcome,
        ),
        lease.finished(released.outcome) && released.cid == lease.target().cid ==> gives_back(
            lease,
            released,
        ),
{
}

/// A control that was not taken was refused by its device, which used up its transport, or
/// was never asked for because the session was stopped.
pub proof fn a_refusal_says_why<T: FnMut(&Report) -> Reply, S: Fn() -> bool>(
    transports: Seq<T>,
    stopped: S,
    target: Target,
    place: int,
    message: Seq<char>,
    spare: Seq<T>,
)
    requires
        0 <= place < transports.len(),
        refusal(transports, stopped, target, place, message, spare),
    ensures
        spare == transports.skip(place) || spare == transports.skip(place + 1),
        spare.len() == transports.len() - place ==> message
            == "Stopped before configuring every control"@ && call_ensures(stopped, (), true),
        spare.len() == transports.len() - place - 1 ==> exists|error: ControlError|
            #![trigger message::control_message(error)]
            TemporaryTopButton::started(transports[place], target, None, Err(error)) && message
                == message::cid_text(target.cid) + ": "@ + message::control_message(error),
{
    if spare.len() == transports.len() - place - 1 {
        let error = choose|error: ControlError|
            #![trigger control_failure(target.cid, error)]
            TemporaryTopButton::started(transports[place], target, None, Err(error)) && message
                == control_failure(target.cid, error);
        assert(control_failure(target.cid, error) == message::cid_text(target.cid) + ": "@
            + message::control_message(error));
    }
}

/// The leases are those of the first gestures, each on its own transport and taken as the
/// conversation with the device says.
pub proof fn leases_are_of_the_first_gestures<T: FnMut(&Report) -> Reply>(
    transports: Seq<T>,
    index: u8,
    feature: u8,
    leases: Seq<TemporaryTopButton<T>>,
    place: int,
)
    requires
        leases_taken(transports, index, feature, leases),
        0 <= place < leases.len(),
    ensures
        leases.len() <= 4,
        leases[place].target().index == index && leases[place].target().feature == feature,
        leases[place].target().cid == (if place == 0 {
            0x00d8u16
        } else if place == 1 {
            0x00df
        } else if place == 2 {
            0x00da
        } else {
            0x00dc
        }),
        leases[place].transport() == transports[place],
        link::carried_out(transports[place], leases[place].log()),
        conversation::start(
            leases[place].target(),
            None,
            conversation::replies(leases[place].log()),
            0,
        ).result == Ok::<Reporting, ControlError>(leases[place].baseline()),
{
}

} // verus!
