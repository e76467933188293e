//! Observation of diverted controls: what each report says, and how an observation
//! ends once the controls are restored.
use crate::controls::{
    self, active_controls, contains_control, top_button_state, BACK_HOLD, NEXT_HOLD,
    SWITCH_HIGHLIGHT, TOP_HOLD,
};
use crate::diagnostics::{self, format_raw, push_stamp};
use crate::message::{self, push_cid};
use crate::protocol::{self, Report};
use crate::text;
use vstd::prelude::*;

verus! {

/// The name of a control in the log.
pub open spec fn spec_control_name(cid: u16) -> Seq<char> {
    if cid == TOP_HOLD {
        "top-hold"@
    } else if cid == SWITCH_HIGHLIGHT {
        "double-click"@
    } else if cid == NEXT_HOLD {
        "next-hold"@
    } else if cid == BACK_HOLD {
        "back-hold"@
    } else if cid == 0x0050 {
        "top-click"@
    } else if cid == 0x00d9 {
        "next-short"@
    } else if cid == 0x00db {
        "back-short"@
    } else {
        "unknown"@
    }
}

pub fn control_name(cid: u16) -> (name: &'static str)
    ensures
        name@ == spec_control_name(cid),
{
    if cid == TOP_HOLD {
        "top-hold"
    } else if cid == SWITCH_HIGHLIGHT {
        "double-click"
    } else if cid == NEXT_HOLD {
        "next-hold"
    } else if cid == BACK_HOLD {
        "back-hold"
    } else if cid == 0x0050 {
        "top-click"
    } else if cid == 0x00d9 {
        "next-short"
    } else if cid == 0x00db {
        "back-short"
    } else {
        "unknown"
    }
}

/// One more, up to the largest number.
pub open spec fn counted(count: u64) -> u64 {
    if count < u64::MAX {
        (count + 1) as u64
    } else {
        count
    }
}

fn count_up(count: u64) -> (next: u64)
    ensures
        next == counted(count),
{
    if count < u64::MAX {
        count + 1
    } else {
        count
    }
}

/// Whether the bytes of a read show the top button held; none for anything else.
pub open spec fn top_state(data: Seq<u8>, address: u8, feature: u8) -> Option<bool> {
    if protocol::is_report(data) && controls::is_button_event(data, address, feature) {
        Some(controls::held_controls(protocol::payload_of(data)).contains(TOP_HOLD))
    } else {
        None
    }
}

/// Reads the state of the top button out of the bytes of a read.
pub fn read_top_state(data: &[u8], address: u8, feature: u8) -> (down: Option<bool>)
    ensures
        down == top_state(data@, address, feature),
{
    match Report::parse(data) {
        Ok(report) => top_button_state(&report, address, feature),
        Err(_) => None,
    }
}

/// An observation of the top button over one press and release.
#[derive(Debug, Clone, Copy, PartialEq, Eq, Structural)]
pub struct TopWatch {
    pub address: u8,
    pub feature: u8,
    pub pressed: bool,
    pub reports: u64,
}

/// What one read of the observation brings.
pub struct TopObservation {
    /// The raw report.
    pub raw: String,
    /// The change of the button that it shows.
    pub logged: Option<String>,
    /// The button was released after a press.
    pub finished: bool,
}

pub open spec fn top_line(ms: u64, down: bool) -> Seq<char> {
    diagnostics::stamp(ms) + (if down {
        " TOP pressed"@
    } else {
        " TOP released"@
    })
}

impl TopWatch {
    pub fn new(address: u8, feature: u8) -> (watch: Self)
        ensures
            watch == (TopWatch { address, feature, pressed: false, reports: 0 }),
    {
        TopWatch { address, feature, pressed: false, reports: 0 }
    }

    /// Takes the bytes of a read.
    pub fn observe(&mut self, ms: u64, data: &[u8]) -> (seen: TopObservation)
        ensures
            seen.raw@ == diagnostics::raw_line(ms, data@),
            ({
                let state = top_state(data@, old(self).address, old(self).feature);
                &&& match (state, seen.logged) {
                    (Some(down), Some(line)) => line@ == top_line(ms, down),
                    (None, None) => true,
                    _ => false,
                }
                &&& seen.finished == (old(self).pressed && state == Some(false))
                &&& *final(self) == (TopWatch {
                    pressed: old(self).pressed || state == Some(true),
                    reports: counted(old(self).reports),
                    ..*old(self)
                })
            }),
    {
        self.reports = count_up(self.reports);
        let raw = format_raw(ms, data);
        match read_top_state(data, self.address, self.feature) {
            None => TopObservation { raw, logged: None, finished: false },
            Some(down) => {
                let mut line = String::new();
                push_stamp(&mut line, ms);
                line.append(
                    if down {
                        " TOP pressed"
                    } else {
                        " TOP released"
                    },
                );
                assert(line@ =~= top_line(ms, down));
                let finished = self.pressed && !down;
                self.pressed = self.pressed || down;
                TopObservation { raw, logged: Some(line), finished }
            },
        }
    }
}

/// Controls of one snapshot that another does not hold, in order.
pub open spec fn missing_from(controls: Seq<u16>, other: Seq<u16>) -> Seq<u16> {
    controls.filter(|cid: u16| !other.contains(cid))
}

/// A line for each control: its change, identifier and name.
pub open spec fn change_lines(ms: u64, change: Seq<char>, controls: Seq<u16>) -> Seq<Seq<char>> {
    Seq::new(
        controls.len(),
        |i: int|
            diagnostics::stamp(ms) + change + message::cid_text(controls[i]) + " "@
                + spec_control_name(controls[i]),
    )
}

/// The name of a key on the keyboard interface.
pub open spec fn key_name(key: u8) -> Seq<char> {
    if key == 0x4f {
        "RightArrow"@
    } else if key == 0x50 {
        "LeftArrow"@
    } else {
        "key-"@ + text::hex(key as nat, 2)
    }
}

/// The keys that a keyboard report lists behind its modifier: up to six usage codes,
/// zero meaning none.
pub open spec fn pressed_keys(data: Seq<u8>) -> Seq<u8> {
    if data.len() <= 2 {
        Seq::empty()
    } else {
        data.skip(2).filter(|key: u8| key != 0)
    }
}

pub open spec fn keyboard_line(ms: u64, data: Seq<u8>) -> Seq<char> {
    let keys = pressed_keys(data);
    diagnostics::stamp(ms) + " KEYBOARD "@ + (if keys.len() == 0 {
        "released"@
    } else {
        text::joined(Seq::new(keys.len(), |i: int| key_name(keys[i])), "+"@)
    })
}

/// Bytes as hexadecimal digits without a space.
pub open spec fn packed_bytes(data: Seq<u8>) -> Seq<char>
    decreases data.len(),
{
    if data.len() == 0 {
        Seq::empty()
    } else {
        packed_bytes(data.drop_last()) + text::hex(data.last() as nat, 2)
    }
}

/// The button mask of a mouse report.
pub open spec fn mouse_mask(data: Seq<u8>) -> Seq<u8> {
    if data.len() >= 3 {
        data.subrange(1, 3)
    } else {
        data.skip(1)
    }
}

pub open spec fn mouse_line(ms: u64, buttons: Seq<u8>) -> Seq<char> {
    diagnostics::stamp(ms) + " MOUSE buttons="@ + packed_bytes(buttons)
}

pub open spec fn unrelated_line(ms: u64, report: Seq<u8>) -> Seq<char> {
    diagnostics::stamp(ms) + " HID++ other (device="@ + text::hex(
        protocol::device_of(report) as nat,
        2,
    ) + " feature="@ + text::hex(protocol::feature_of(report) as nat, 2) + " function="@
        + text::decimal(protocol::function_of(report) as nat) + " swid="@ + text::decimal(
        protocol::software_id_of(report) as nat,
    ) + ")"@
}

pub open spec fn unknown_line(ms: u64, data: Seq<u8>) -> Seq<char> {
    diagnostics::stamp(ms) + " REPORT id="@ + text::hex(data[0] as nat, 2) + " len="@
        + text::decimal(data.len())
}

/// An observation of all diverted controls, keyboard and mouse reports.
#[verifier::ext_equal]
pub struct Watched {
    pub address: u8,
    pub feature: u8,
    pub held: Seq<u16>,
    pub buttons: Option<Seq<u8>>,
    pub motion: u64,
    pub reports: u64,
}

impl Watched {
    /// The observation after a read.
    pub open spec fn after(self, data: Seq<u8>) -> Self {
        let seen = Watched { reports: counted(self.reports), ..self };
        if data[0] == 0x02 {
            Watched { motion: counted(self.motion), buttons: Some(mouse_mask(data)), ..seen }
        } else if (data[0] == 0x10 || data[0] == 0x11) && protocol::is_report(data)
            && controls::is_button_event(data, self.address, self.feature) {
            Watched { held: controls::held_controls(protocol::payload_of(data)), ..seen }
        } else {
            seen
        }
    }

    /// What a read adds to the log.
    pub open spec fn log_of(self, ms: u64, data: Seq<u8>) -> Seq<Seq<char>> {
        if data[0] == 0x01 {
            seq![keyboard_line(ms, data)]
        } else if data[0] == 0x02 {
            if self.buttons == Some(mouse_mask(data)) {
                Seq::empty()
            } else {
                seq![mouse_line(ms, mouse_mask(data))]
            }
        } else if data[0] == 0x10 || data[0] == 0x11 {
            if !protocol::is_report(data) {
                Seq::empty()
            } else if controls::is_button_event(data, self.address, self.feature) {
                let now = controls::held_controls(protocol::payload_of(data));
                change_lines(ms, " PRESS   "@, missing_from(now, self.held)) + change_lines(
                    ms,
                    " RELEASE "@,
                    missing_from(self.held, now),
                )
            } else {
                seq![unrelated_line(ms, data)]
            }
        } else {
            seq![unknown_line(ms, data)]
        }
    }
}

/// Presses and releases account for every change: a control is held after a
/// notification exactly when it was pressed by it, or was held and not released.
pub proof fn presses_and_releases_account_for_what_is_held(
    before: Seq<u16>,
    now: Seq<u16>,
    cid: u16,
)
    ensures
        now.contains(cid) == (missing_from(now, before).contains(cid) || (before.contains(cid)
            && !missing_from(before, now).contains(cid))),
{
    filter_keeps(now, |c: u16| !before.contains(c), cid);
    filter_keeps(before, |c: u16| !now.contains(c), cid);
}

proof fn filter_keeps(controls: Seq<u16>, keep: spec_fn(u16) -> bool, cid: u16)
    ensures
        controls.filter(keep).contains(cid) == (controls.contains(cid) && keep(cid)),
    decreases controls.len(),
{
    reveal(Seq::filter);
    let kept = controls.filter(keep);
    if controls.len() > 0 {
        let front = controls.drop_last();
        let rest = front.filter(keep);
        filter_keeps(front, keep, cid);
        assert(controls.contains(cid) == (front.contains(cid) || controls.last() == cid)) by {
            if front.contains(cid) {
                let i = choose|i: int| 0 <= i < front.len() && front[i] == cid;
                assert(controls[i] == cid);
            }
            if controls.contains(cid) && controls.last() != cid {
                let i = choose|i: int| 0 <= i < controls.len() && controls[i] == cid;
                assert(front[i] == cid);
            }
        }
        if keep(controls.last()) {
            assert(kept =~= rest.push(controls.last()));
            assert(kept.contains(cid) == (rest.contains(cid) || controls.last() == cid)) by {
                if rest.contains(cid) {
                    let i = choose|i: int| 0 <= i < rest.len() && rest[i] == cid;
                    assert(kept[i] == cid);
                }
                if controls.last() == cid {
                    assert(kept[kept.len() - 1] == cid);
                }
                if kept.contains(cid) && controls.last() != cid {
                    let i = choose|i: int| 0 <= i < kept.len() && kept[i] == cid;
                    assert(rest[i] == cid);
                }
            }
        }
    }
}

/// The observation of all diverted controls.
#[derive(Debug)]
pub struct ControlsWatch {
    pub address: u8,
    pub feature: u8,
    /// The controls held in the last notification.
    pub held: Vec<u16>,
    /// The buttons of the last mouse report.
    pub buttons: Option<Vec<u8>>,
    pub motion: u64,
    pub reports: u64,
}

impl View for ControlsWatch {
    type V = Watched;

    open spec fn view(&self) -> Watched {
        Watched {
            address: self.address,
            feature: self.feature,
            held: self.held@,
            buttons: match self.buttons {
                Some(buttons) => Some(buttons@),
                None => None,
            },
            motion: self.motion,
            reports: self.reports,
        }
    }
}

/// What one read of the observation brings.
pub struct ControlsObservation {
    /// The raw report.
    pub raw: String,
    /// What it means.
    pub logged: Vec<String>,
}

/// The controls of one snapshot that another does not hold.
fn difference(controls: &Vec<u16>, other: &Vec<u16>) -> (missing: Vec<u16>)
    ensures
        missing@ == missing_from(controls@, other@),
{
    let ghost keep = |cid: u16| !other@.contains(cid);
    let mut missing: Vec<u16> = Vec::new();
    assert(controls@.take(0).filter(keep) =~= missing@) by {
        reveal(Seq::filter);
    }
    for i in 0..controls.len()
        invariant
            keep == (|cid: u16| !other@.contains(cid)),
            missing@ == controls@.take(i as int).filter(keep),
    {
        proof {
            reveal(Seq::filter);
            assert(controls@.take(i as int + 1).drop_last() =~= controls@.take(i as int));
            assert(controls@.take(i as int + 1).last() == controls@[i as int]);
        }
        if !contains_control(other, controls[i]) {
            missing.push(controls[i]);
        }
    }
    assert(controls@.take(controls@.len() as int) =~= controls@);
    missing
}

/// Appends a line for each control.
fn push_changes(lines: &mut Vec<String>, ms: u64, change: &str, controls: &Vec<u16>)
    ensures
        text::contents(final(lines)@) == text::contents(old(lines)@) + change_lines(
            ms,
            change@,
            controls@,
        ),
{
    let ghost before = text::contents(lines@);
    let ghost all = change_lines(ms, change@, controls@);
    assert(before + all.take(0) =~= before);
    for i in 0..controls.len()
        invariant
            all == change_lines(ms, change@, controls@),
            text::contents(lines@) == before + all.take(i as int),
    {
        let mut line = String::new();
        push_stamp(&mut line, ms);
        line.append(change);
        push_cid(&mut line, controls[i]);
        line.append(" ");
        line.append(control_name(controls[i]));
        assert(line@ =~= all[i as int]);
        let ghost so_far = lines@;
        lines.push(line);
        assert(text::contents(lines@) =~= text::contents(so_far).push(line@));
        assert(before + all.take(i as int + 1) =~= (before + all.take(i as int)).push(
            all[i as int],
        ));
    }
    assert(all.take(controls@.len() as int) =~= all);
}

/// The text of a keyboard report.
fn format_keyboard(ms: u64, data: &[u8]) -> (line: String)
    ensures
        line@ == keyboard_line(ms, data@),
{
    let ghost keep = |key: u8| key != 0;
    let mut names: Vec<String> = Vec::new();
    let ghost mut keys: Seq<u8> = Seq::empty();
    let mut i: usize = if data.len() > 2 {
        2
    } else {
        data.len()
    };
    let ghost from = i as int;
    let ghost codes = data@.skip(from);
    proof {
        reveal(Seq::filter);
        assert(codes.take(0).filter(keep) =~= keys);
        assert(text::contents(names@) =~= Seq::new(keys.len(), |k: int| key_name(keys[k])));
    }
    while i < data.len()
        invariant
            0 <= from <= i <= data@.len(),
            codes == data@.skip(from),
            keep == (|key: u8| key != 0),
            keys == codes.take(i - from).filter(keep),
            text::contents(names@) == Seq::new(keys.len(), |k: int| key_name(keys[k])),
        decreases data.len() - i,
    {
        let key = data[i];
        proof {
            reveal(Seq::filter);
            assert(codes.take(i - from + 1).drop_last() =~= codes.take(i - from));
            assert(codes.take(i - from + 1).last() == key);
        }
        if key != 0 {
            let ghost so_far = names@;
            if key == 0x4f {
                names.push("RightArrow".to_owned());
            } else if key == 0x50 {
                names.push("LeftArrow".to_owned());
            } else {
                let mut name = "key-".to_owned();
                text::push_hex(&mut name, key as u64, 2);
                names.push(name);
            }
            proof {
                assert(text::contents(names@) =~= text::contents(so_far).push(key_name(key)));
                keys = keys.push(key);
                assert(text::contents(names@) =~= Seq::new(
                    keys.len(),
                    |k: int| key_name(keys[k]),
                ));
            }
        }
        i = i + 1;
    }
    proof {
        assert(codes.take(data@.len() - from) =~= codes);
        if data@.len() <= 2 {
            reveal(Seq::filter);
            assert(codes =~= Seq::empty());
        }
        assert(keys =~= pressed_keys(data@));
        assert(text::contents(names@).len() == names@.len());
    }
    let mut line = String::new();
    push_stamp(&mut line, ms);
    line.append(" KEYBOARD ");
    if names.len() == 0 {
        line.append("released");
    } else {
        let joined = text::join(&names, "+");
        line.append(joined.as_str());
    }
    assert(line@ =~= keyboard_line(ms, data@));
    line
}

/// Appends bytes as hexadecimal digits.
fn push_packed(out: &mut String, data: &Vec<u8>)
    ensures
        final(out)@ == old(out)@ + packed_bytes(data@),
{
    let ghost before = out@;
    assert(data@.take(0) =~= Seq::empty());
    assert(before + packed_bytes(data@.take(0)) =~= before);
    for i in 0..data.len()
        invariant
            out@ == before + packed_bytes(data@.take(i as int)),
    {
        proof {
            assert(data@.take(i as int + 1).drop_last() =~= data@.take(i as int));
            assert(data@.take(i as int + 1).last() == data@[i as int]);
        }
        text::push_hex(out, data[i] as u64, 2);
        assert(out@ =~= before + packed_bytes(data@.take(i as int + 1)));
    }
    assert(data@.take(data@.len() as int) =~= data@);
}

/// The button mask of a mouse report.
fn read_mask(data: &[u8]) -> (mask: Vec<u8>)
    requires
        data@.len() > 0,
    ensures
        mask@ == mouse_mask(data@),
{
    let end: usize = if data.len() >= 3 {
        3
    } else {
        data.len()
    };
    let mut mask: Vec<u8> = Vec::new();
    for i in 1..end
        invariant
            end <= data@.len(),
            mask@.len() == i - 1,
            forall|k: int| 0 <= k < i - 1 ==> mask@[k] == data@[k + 1],
    {
        mask.push(data[i]);
    }
    assert(mask@ =~= mouse_mask(data@));
    mask
}

/// Whether two masks are the same.
fn same_bytes(a: &Vec<u8>, b: &Vec<u8>) -> (same: bool)
    ensures
        same == (a@ == b@),
{
    if a.len() != b.len() {
        return false;
    }
    for i in 0..a.len()
        invariant
            a@.len() == b@.len(),
            forall|k: int| 0 <= k < i ==> a@[k] == b@[k],
    {
        if a[i] != b[i] {
            return false;
        }
    }
    assert(a@ =~= b@);
    true
}

impl ControlsWatch {
    pub fn new(address: u8, feature: u8) -> (watch: Self)
        ensures
            watch@ == (Watched {
                address,
                feature,
                held: Seq::empty(),
                buttons: None,
                motion: 0,
                reports: 0,
            }),
    {
        ControlsWatch {
            address,
            feature,
            held: Vec::new(),
            buttons: None,
            motion: 0,
            reports: 0,
        }
    }

    /// Takes a mouse report: button changes are logged, motion is only counted.
    fn observe_mouse(&mut self, ms: u64, data: &[u8]) -> (lines: Vec<String>)
        requires
            data@.len() > 0,
            data@[0] == 0x02,
        ensures
            text::contents(lines@) == old(self)@.log_of(ms, data@),
            final(self)@ == (Watched {
                motion: counted(old(self).motion),
                buttons: Some(mouse_mask(data@)),
                ..old(self)@
            }),
    {
        self.motion = count_up(self.motion);
        let mut lines: Vec<String> = Vec::new();
        let mask = read_mask(data);
        let changed = match &self.buttons {
            Some(buttons) => !same_bytes(buttons, &mask),
            None => true,
        };
        if changed {
            let mut line = String::new();
            push_stamp(&mut line, ms);
            line.append(" MOUSE buttons=");
            push_packed(&mut line, &mask);
            assert(line@ =~= mouse_line(ms, mask@));
            lines.push(line);
            assert(text::contents(lines@) =~= seq![line@]);
        } else {
            assert(text::contents(lines@) =~= Seq::empty());
        }
        self.buttons = Some(mask);
        lines
    }

    /// Takes a HID++ report: presses and releases are what changed since the last
    /// notification.
    fn observe_report(&mut self, ms: u64, data: &[u8]) -> (lines: Vec<String>)
        requires
            data@.len() > 0,
            data@[0] == 0x10 || data@[0] == 0x11,
        ensures
            text::contents(lines@) == old(self)@.log_of(ms, data@),
            final(self)@ == (Watched { reports: old(self).reports, ..old(self)@.after(data@) }),
    {
        let mut lines: Vec<String> = Vec::new();
        assert(text::contents(lines@) =~= Seq::empty());
        let report = match Report::parse(data) {
            Ok(report) => report,
            Err(_) => {
                return lines;
            },
        };
        match active_controls(&report, self.address, self.feature) {
            Some(now) => {
                push_changes(&mut lines, ms, " PRESS   ", &difference(&now, &self.held));
                push_changes(&mut lines, ms, " RELEASE ", &difference(&self.held, &now));
                assert(text::contents(lines@) =~= self@.log_of(ms, data@));
                self.held = now;
            },
            None => {
                let mut line = String::new();
                push_stamp(&mut line, ms);
                line.append(" HID++ other (device=");
                text::push_hex(&mut line, report.device() as u64, 2);
                line.append(" feature=");
                text::push_hex(&mut line, report.feature() as u64, 2);
                line.append(" function=");
                text::push_decimal(&mut line, report.function() as u64);
                line.append(" swid=");
                text::push_decimal(&mut line, report.software_id() as u64);
                line.append(")");
                assert(line@ =~= unrelated_line(ms, data@));
                lines.push(line);
                assert(text::contents(lines@) =~= seq![line@]);
            },
        }
        lines
    }

    /// Takes the bytes of a read.
    pub fn observe(&mut self, ms: u64, data: &[u8]) -> (seen: ControlsObservation)
        requires
            data@.len() > 0,
        ensures
            seen.raw@ == diagnostics::raw_line(ms, data@),
            text::contents(seen.logged@) == old(self)@.log_of(ms, data@),
            final(self)@ == old(self)@.after(data@),
    {
        let raw = format_raw(ms, data);
        let id = data[0];
        let logged = if id == 0x01 {
            let mut lines: Vec<String> = Vec::new();
            let line = format_keyboard(ms, data);
            lines.push(line);
            assert(text::contents(lines@) =~= seq![line@]);
            lines
        } else if id == 0x02 {
            self.observe_mouse(ms, data)
        } else if id == 0x10 || id == 0x11 {
            self.observe_report(ms, data)
        } else {
            let mut lines: Vec<String> = Vec::new();
            let mut line = String::new();
            push_stamp(&mut line, ms);
            line.append(" REPORT id=");
            text::push_hex(&mut line, id as u64, 2);
            line.append(" len=");
            text::push_decimal(&mut line, data.len() as u64);
            assert(line@ =~= unknown_line(ms, data@));
            lines.push(line);
            assert(text::contents(lines@) =~= seq![line@]);
            lines
        };
        self.reports = count_up(self.reports);
        ControlsObservation { raw, logged }
    }
}

/// The controls have these names in the log, and no other control has one.
pub proof fn controls_are_logged_by_name(cid: u16)
    ensures
        spec_control_name(0x00d8) == "top-hold"@,
        spec_control_name(0x00df) == "double-click"@,
        spec_control_name(0x00da) == "next-hold"@,
        spec_control_name(0x00dc) == "back-hold"@,
        spec_control_name(0x0050) == "top-click"@,
        spec_control_name(0x00d9) == "next-short"@,
        spec_control_name(0x00db) == "back-short"@,
        cid != 0x0050 && !(0x00d8 <= cid <= 0x00dc) && cid != 0x00df ==> spec_control_name(cid) == "unknown"@,
{
}

/// The top button is down exactly when one of the four words behind the header of a
/// notification is its number; any other bytes say nothing of it.
pub proof fn a_notification_shows_the_top_button(data: Seq<u8>, address: u8, feature: u8)
    ensures
        top_state(data, address, feature) is Some <==> data.len() == 20 && data[0] == 0x11
            && data[1] == address && data[2] == feature && data[3] == 0,
        top_state(data, address, feature) is Some ==> (top_state(data, address, feature) == Some(
            true,
        ) <==> (data[4] == 0 && data[5] == 0xd8) || (data[6] == 0 && data[7] == 0xd8) || (data[8]
            == 0 && data[9] == 0xd8) || (data[10] == 0 && data[11] == 0xd8)),
{
    if data.len() == 20 && data[0] == 0x11 {
        controls::notifications_stand_in_these_bytes(data, address, feature);
        controls::a_notification_lists_what_is_held(protocol::payload_of(data), TOP_HOLD);
    } else if protocol::is_report(data) {
        controls::notifications_stand_in_these_bytes(data, address, feature);
    }
}

/// Reports are counted one by one and the count never goes back.
pub proof fn counts_go_up_by_one(count: u64)
    ensures
        count < u64::MAX ==> counted(count) == count + 1,
        counted(u64::MAX) == u64::MAX,
{
}

/// The lines of a press and a release say which it is.
pub proof fn presses_and_releases_read_differently(ms: u64, down: bool)
    ensures
        top_line(ms, true) == diagnostics::stamp(ms) + " TOP pressed"@,
        top_line(ms, false) == diagnostics::stamp(ms) + " TOP released"@,
{
}

/// A control is missing exactly when the other snapshot does not hold it, and the order of
/// the snapshot is kept.
pub proof fn missing_controls_are_told_in_order(controls: Seq<u16>, other: Seq<u16>, cid: u16)
    ensures
        missing_from(Seq::empty(), other).len() == 0,
        other.contains(cid) ==> missing_from(controls.push(cid), other) == missing_from(
            controls,
            other,
        ),
        !other.contains(cid) ==> missing_from(controls.push(cid), other) == missing_from(
            controls,
            other,
        ).push(cid),
{
    reveal(Seq::filter);
    assert(controls.push(cid).drop_last() =~= controls);
}

/// The keys of a keyboard report stand behind its first two bytes, zero standing for none.
pub proof fn keys_stand_behind_two_bytes(data: Seq<u8>, key: u8)
    ensures
        data.len() <= 2 ==> pressed_keys(data).len() == 0,
        data.len() >= 2 && key != 0 ==> pressed_keys(data.push(key)) == pressed_keys(data).push(
            key,
        ),
        data.len() >= 2 ==> pressed_keys(data.push(0)) == pressed_keys(data),
        key_name(0x4f) == "RightArrow"@,
        key_name(0x50) == "LeftArrow"@,
        key != 0x4f && key != 0x50 ==> key_name(key) == "key-"@ + text::hex(key as nat, 2),
{
    reveal(Seq::filter);
    if data.len() >= 2 {
        assert(data.push(key).skip(2).drop_last() =~= data.skip(2));
        assert(data.push(0).skip(2).drop_last() =~= data.skip(2));
        if data.len() == 2 {
            assert(data.skip(2) =~= Seq::empty());
            assert(data.skip(2).filter(|key: u8| key != 0) =~= Seq::empty());
        }
    }
}

/// The buttons of a mouse stand in the two bytes behind the first, as far as there are any,
/// and are written as two digits each.
pub proof fn buttons_stand_behind_the_first_byte(data: Seq<u8>, byte: u8)
    requires
        data.len() > 0,
    ensures
        data.len() >= 3 ==> mouse_mask(data) == seq![data[1], data[2]],
        data.len() == 2 ==> mouse_mask(data) == seq![data[1]],
        data.len() == 1 ==> mouse_mask(data).len() == 0,
        packed_bytes(data.push(byte)) == packed_bytes(data) + text::hex(byte as nat, 2),
        packed_bytes(Seq::empty()).len() == 0,
{
    assert(data.push(byte).drop_last() =~= data);
}

/// Every read counts as a report. Mouse reports alone count as motion and set the buttons,
/// and notifications alone set what is held: the words that name a control.
pub proof fn reads_change_what_they_tell(watched: Watched, data: Seq<u8>, cid: u16)
    requires
        data.len() > 0,
        watched.reports < u64::MAX,
        watched.motion < u64::MAX,
    ensures
        ({
            let after = watched.after(data);
            let notification = data.len() == 20 && data[0] == 0x11 && data[1] == watched.address
                && data[2] == watched.feature && data[3] == 0;
            &&& after.address == watched.address && after.feature == watched.feature
            &&& after.reports == watched.reports + 1
            &&& data[0] == 0x02 ==> after.motion == watched.motion + 1 && after.held
                == watched.held
            &&& data[0] != 0x02 ==> after.motion == watched.motion && after.buttons
                == watched.buttons
            &&& data[0] == 0x02 && data.len() >= 3 ==> after.buttons == Some(
                seq![data[1], data[2]],
            )
            &&& !notification ==> after.held == watched.held
            &&& notification ==> (after.held.contains(cid) <==> cid != 0 && (256 * data[4] + data[5]
                == cid || 256 * data[6] + data[7] == cid || 256 * data[8] + data[9] == cid || 256
                * data[10] + data[11] == cid))
        }),
{
    if data[0] == 0x02 {
        buttons_stand_behind_the_first_byte(data, 0);
    } else if protocol::is_report(data) {
        controls::notifications_stand_in_these_bytes(data, watched.address, watched.feature);
        if data.len() == 20 {
            controls::a_notification_lists_what_is_held(protocol::payload_of(data), cid);
        }
    }
}

/// What a read adds to the log depends on its first byte: a line for a keyboard report, one
/// for a mouse report that changes the buttons, one for each control that a notification
/// presses or releases, one for any other report.
pub proof fn reads_are_logged_by_kind(watched: Watched, ms: u64, data: Seq<u8>)
    requires
        data.len() > 0,
    ensures
        ({
            let log = watched.log_of(ms, data);
            let report = (data[0] == 0x10 && data.len() == 7) || (data[0] == 0x11 && data.len()
                == 20);
            let notification = data.len() == 20 && data[0] == 0x11 && data[1] == watched.address
                && data[2] == watched.feature && data[3] == 0;
            &&& data[0] == 0x01 ==> log == seq![keyboard_line(ms, data)]
            &&& data[0] == 0x02 && watched.buttons == Some(mouse_mask(data)) ==> log.len() == 0
            &&& data[0] == 0x02 && watched.buttons != Some(mouse_mask(data)) ==> log == seq![
                mouse_line(ms, mouse_mask(data)),
            ]
            &&& (data[0] == 0x10 || data[0] == 0x11) && !report ==> log.len() == 0
            &&& report && !notification ==> log == seq![unrelated_line(ms, data)]
            &&& notification ==> log.len() == missing_from(
                watched.after(data).held,
                watched.held,
            ).len() + missing_from(watched.held, watched.after(data).held).len()
            &&& data[0] != 0x01 && data[0] != 0x02 && data[0] != 0x10 && data[0] != 0x11 ==> log
                == seq![unknown_line(ms, data)]
        }),
{
    if protocol::is_report(data) {
        controls::notifications_stand_in_these_bytes(data, watched.address, watched.feature);
    }
}

} // verus!
