//! The diagnostic commands as state machines: which request comes next, and what a
//! reply or a report says. The caller sends the requests and prints the lines.
use crate::controls;
use crate::message;
use crate::protocol::{self, feature_index, feature_request, ProtocolError, Report, SOFTWARE_ID};
use crate::text;
use vstd::prelude::*;

verus! {

/// The feature that reports and diverts controls.
pub const REPROG_CONTROLS: u16 = 0x1b04;

/// The feature that vibrates.
pub const PRESENTER_CONTROL: u16 = 0x1a00;

/// The feature that tells the battery level.
pub const BATTERY_STATUS: u16 = 0x1000;

/// A byte as two hexadecimal digits behind a space.
pub open spec fn spaced_bytes(data: Seq<u8>) -> Seq<char>
    decreases data.len(),
{
    if data.len() == 0 {
        Seq::empty()
    } else {
        spaced_bytes(data.drop_last()) + seq![' '] + text::hex(data.last() as nat, 2)
    }
}

/// A moment in milliseconds, set to the right in eight places.
pub open spec fn stamp(ms: u64) -> Seq<char> {
    text::padded_left(text::decimal(ms as nat), 8) + "ms"@
}

/// A raw report with the moment it came.
pub open spec fn raw_line(ms: u64, data: Seq<u8>) -> Seq<char> {
    stamp(ms) + spaced_bytes(data)
}

fn push_spaced_bytes(out: &mut String, data: &[u8])
    ensures
        final(out)@ == old(out)@ + spaced_bytes(data@),
{
    let ghost before = out@;
    proof {
        reveal_strlit(" ");
        assert(" "@ =~= seq![' ']);
        assert(data@.take(0) =~= Seq::empty());
        assert(before + spaced_bytes(data@.take(0)) =~= before);
    }
    for i in 0..data.len()
        invariant
            " "@ == seq![' '],
            out@ == before + spaced_bytes(data@.take(i as int)),
    {
        proof {
            assert(data@.take(i as int + 1).drop_last() =~= data@.take(i as int));
            assert(data@.take(i as int + 1).last() == data@[i as int]);
        }
        let ghost so_far = out@;
        out.append(" ");
        text::push_hex(out, data[i] as u64, 2);
        assert(out@ =~= before + spaced_bytes(data@.take(i as int + 1)));
    }
    assert(data@.take(data@.len() as int) =~= data@);
}

/// Appends a moment.
pub fn push_stamp(out: &mut String, ms: u64)
    ensures
        final(out)@ == old(out)@ + stamp(ms),
{
    let ghost before = out@;
    text::push_decimal_padded(out, ms, 8);
    out.append("ms");
    assert(out@ =~= before + stamp(ms));
}

/// A raw report as `capture` prints it.
pub fn format_raw(ms: u64, data: &[u8]) -> (line: String)
    ensures
        line@ == raw_line(ms, data@),
{
    let mut line = String::new();
    push_stamp(&mut line, ms);
    push_spaced_bytes(&mut line, data);
    assert(line@ =~= raw_line(ms, data@));
    line
}

/// Why a diagnostic command ended early.
#[derive(Debug, Clone, Copy, PartialEq, Eq, Structural)]
pub enum DiagnosticError {
    Protocol(ProtocolError),
    PresenterUnavailable,
    ControlCount,
    TruncatedInfo,
    MismatchedReporting,
}

impl DiagnosticError {
    pub open spec fn spec_message(self) -> Seq<char> {
        match self {
            DiagnosticError::Protocol(error) => message::protocol_message(error),
            DiagnosticError::PresenterUnavailable => "PRESENTER_CONTROL is unavailable"@,
            DiagnosticError::ControlCount =>
            "Unexpected control count for a first-generation Spotlight (maximum 32)"@,
            DiagnosticError::TruncatedInfo => "Truncated getControlInfo response"@,
            DiagnosticError::MismatchedReporting =>
            "Truncated or mismatched getCidReporting response"@,
        }
    }

    pub fn message(self) -> (message: String)
        ensures
            message@ == self.spec_message(),
    {
        match self {
            DiagnosticError::Protocol(error) => error.message(),
            DiagnosticError::PresenterUnavailable => "PRESENTER_CONTROL is unavailable".to_owned(),
            DiagnosticError::ControlCount =>
            "Unexpected control count for a first-generation Spotlight (maximum 32)".to_owned(),
            DiagnosticError::TruncatedInfo => "Truncated getControlInfo response".to_owned(),
            DiagnosticError::MismatchedReporting =>
            "Truncated or mismatched getCidReporting response".to_owned(),
        }
    }
}

/// The runtime index of a feature, as a reply to the query tells it.
pub open spec fn resolved(index: u8, code: u16, reply: Seq<u8>) -> Result<
    Option<u8>,
    DiagnosticError,
> {
    match protocol::feature_answer(reply, protocol::feature_request_bytes(index, code)) {
        Ok(feature) => Ok(feature),
        Err(error) => Err(DiagnosticError::Protocol(error)),
    }
}

/// Reads the reply to the query for a feature.
pub fn resolve_feature(index: u8, code: u16, reply: &Report) -> (feature: Result<
    Option<u8>,
    DiagnosticError,
>)
    ensures
        feature == resolved(index, code, reply@),
{
    match feature_index(reply, &feature_request(index, code)) {
        Ok(feature) => Ok(feature),
        Err(error) => Err(DiagnosticError::Protocol(error)),
    }
}

/// How many features `probe` asks for.
pub const PROBED: usize = 7;

/// The features that `probe` asks for.
pub open spec fn probed_code(place: int) -> u16 {
    if place == 0 {
        0x0001
    } else if place == 1 {
        0x1000
    } else if place == 2 {
        0x1004
    } else if place == 3 {
        0x1a00
    } else if place == 4 {
        0x1a01
    } else if place == 5 {
        0x1b04
    } else {
        0x2205
    }
}

pub open spec fn probed_name(place: int) -> Seq<char> {
    if place == 0 {
        "FEATURE_SET"@
    } else if place == 1 {
        "BATTERY_STATUS"@
    } else if place == 2 {
        "UNIFIED_BATTERY"@
    } else if place == 3 {
        "PRESENTER_CONTROL"@
    } else if place == 4 {
        "SENSOR_3D"@
    } else if place == 5 {
        "REPROG_CONTROLS_V4"@
    } else {
        "POINTER_SPEED"@
    }
}

/// What `probe` prints of a feature.
pub open spec fn probe_line(place: int, feature: Option<u8>) -> Seq<char> {
    text::hex(probed_code(place) as nat, 4) + " "@ + text::padded_right(probed_name(place), 22) + (
    match feature {
        Some(feature) => " index="@ + text::hex(feature as nat, 2),
        None => " unavailable"@,
    })
}

/// Asks for one feature after the other.
#[derive(Debug, Clone, Copy, PartialEq, Eq, Structural)]
pub struct Probe {
    pub index: u8,
    pub place: usize,
}

impl Probe {
    pub fn new(index: u8) -> (probe: Self)
        ensures
            probe == (Probe { index, place: 0 }),
    {
        Probe { index, place: 0 }
    }

    fn feature(&self) -> (feature: (u16, &'static str))
        requires
            self.place < PROBED,
        ensures
            feature.0 == probed_code(self.place as int),
            feature.1@ == probed_name(self.place as int),
    {
        if self.place == 0 {
            (0x0001, "FEATURE_SET")
        } else if self.place == 1 {
            (0x1000, "BATTERY_STATUS")
        } else if self.place == 2 {
            (0x1004, "UNIFIED_BATTERY")
        } else if self.place == 3 {
            (0x1a00, "PRESENTER_CONTROL")
        } else if self.place == 4 {
            (0x1a01, "SENSOR_3D")
        } else if self.place == 5 {
            (0x1b04, "REPROG_CONTROLS_V4")
        } else {
            (0x2205, "POINTER_SPEED")
        }
    }

    /// The next query; none when every feature was asked for.
    pub fn request(&self) -> (request: Option<Report>)
        ensures
            match request {
                Some(request) => self.place < PROBED && request@ == protocol::feature_request_bytes(
                    self.index,
                    probed_code(self.place as int),
                ),
                None => self.place >= PROBED,
            },
    {
        if self.place < PROBED {
            Some(feature_request(self.index, self.feature().0))
        } else {
            None
        }
    }

    /// Takes the reply to the last query: the line to print, and the next query.
    pub fn receive(&mut self, reply: &Report) -> (line: Result<String, DiagnosticError>)
        requires
            old(self).place < PROBED,
        ensures
            match (resolved(old(self).index, probed_code(old(self).place as int), reply@), line) {
                (Ok(feature), Ok(line)) => line@ == probe_line(old(self).place as int, feature)
                    && *final(self) == (Probe {
                    index: old(self).index,
                    place: (old(self).place + 1) as usize,
                }),
                (Err(error), Err(failure)) => failure == error && *final(self) == *old(self),
                _ => false,
            },
    {
        let (code, name) = self.feature();
        match resolve_feature(self.index, code, reply) {
            Err(error) => Err(error),
            Ok(feature) => {
                let mut line = String::new();
                text::push_hex(&mut line, code as u64, 4);
                line.append(" ");
                text::push_padded(&mut line, name, 22);
                match feature {
                    Some(feature) => {
                        line.append(" index=");
                        text::push_hex(&mut line, feature as u64, 2);
                    },
                    None => line.append(" unavailable"),
                }
                assert(line@ =~= probe_line(self.place as int, feature));
                self.place = self.place + 1;
                Ok(line)
            },
        }
    }
}

/// A probe only asks which features there are: every request goes to the root
/// feature, function 0.
pub proof fn a_probe_only_asks(index: u8, place: int)
    ensures
        ({
            let request = protocol::feature_request_bytes(index, probed_code(place));
            protocol::feature_of(request) == 0 && protocol::function_of(request) == 0
        }),
{
}

/// How far an inspection has come.
#[derive(Debug, Clone, Copy, PartialEq, Eq, Structural)]
pub enum Stage {
    FindBattery,
    ReadBattery { feature: u8 },
    FindControls,
    ReadCount { feature: u8 },
    ReadInfo { feature: u8, count: u8, position: u8 },
    ReadReporting {
        feature: u8,
        count: u8,
        position: u8,
        cid: u16,
        task: u16,
        capabilities: u16,
    },
    Finished,
}

/// Reads the battery and the control mappings; changes no settings.
#[derive(Debug, Clone, Copy, PartialEq, Eq, Structural)]
pub struct Inspection {
    pub index: u8,
    pub stage: Stage,
}

/// The request of a stage.
pub open spec fn stage_request(index: u8, stage: Stage) -> Option<Seq<u8>> {
    match stage {
        Stage::FindBattery => Some(protocol::feature_request_bytes(index, BATTERY_STATUS)),
        Stage::ReadBattery { feature } => Some(
            protocol::request_bytes(index, feature, 0, SOFTWARE_ID, Seq::empty()),
        ),
        Stage::FindControls => Some(protocol::feature_request_bytes(index, REPROG_CONTROLS)),
        Stage::ReadCount { feature } => Some(
            protocol::request_bytes(index, feature, 0, SOFTWARE_ID, Seq::empty()),
        ),
        Stage::ReadInfo { feature, position, .. } => Some(
            protocol::request_bytes(index, feature, 1, SOFTWARE_ID, seq![position]),
        ),
        Stage::ReadReporting { feature, cid, .. } => Some(
            protocol::request_bytes(index, feature, 2, SOFTWARE_ID, controls::cid_bytes(cid)),
        ),
        Stage::Finished => None,
    }
}

/// The stage at a position of the list of controls.
pub open spec fn at_position(feature: u8, count: u8, position: int) -> Stage {
    if position < count {
        Stage::ReadInfo { feature, count, position: position as u8 }
    } else {
        Stage::Finished
    }
}

pub open spec fn battery_line(payload: Seq<u8>) -> Seq<char> {
    "BATTERY_STATUS current="@ + text::decimal(payload[0] as nat) + " next="@ + text::decimal(
        payload[1] as nat,
    ) + " status=0x"@ + text::hex(payload[2] as nat, 2)
}

pub open spec fn count_line(count: u8) -> Seq<char> {
    "REPROG_CONTROLS_V4 controls="@ + text::decimal(count as nat)
}

pub open spec fn control_line(
    position: u8,
    cid: u16,
    task: u16,
    capabilities: u16,
    payload: Seq<u8>,
) -> Seq<char> {
    let mapped = controls::word(payload[3], payload[4]);
    "control="@ + text::decimal(position as nat) + " cid="@ + text::hex(cid as nat, 4) + " task="@
        + text::hex(task as nat, 4) + " capabilities="@ + text::hex(capabilities as nat, 4)
        + " reporting="@ + text::hex(controls::word(payload[5], payload[2]) as nat, 4)
        + " mapped_to="@ + text::hex(
        if mapped == 0 {
            cid as nat
        } else {
            mapped as nat
        },
        4,
    )
}

/// What a reply brings: the next stage and the lines to print.
pub open spec fn inspected(index: u8, stage: Stage, reply: Seq<u8>) -> Result<
    (Stage, Seq<Seq<char>>),
    DiagnosticError,
> {
    let p = protocol::payload_of(reply);
    match stage {
        Stage::FindBattery => match resolved(index, BATTERY_STATUS, reply) {
            Err(error) => Err(error),
            Ok(Some(feature)) => Ok((Stage::ReadBattery { feature }, Seq::empty())),
            Ok(None) => Ok((Stage::FindControls, seq!["BATTERY_STATUS unavailable"@])),
        },
        Stage::ReadBattery { .. } => Ok((Stage::FindControls, seq![battery_line(p)])),
        Stage::FindControls => match resolved(index, REPROG_CONTROLS, reply) {
            Err(error) => Err(error),
            Ok(Some(feature)) => Ok((Stage::ReadCount { feature }, Seq::empty())),
            Ok(None) => Ok((Stage::Finished, seq!["REPROG_CONTROLS_V4 unavailable"@])),
        },
        Stage::ReadCount { feature } => if p[0] > 32 {
            Err(DiagnosticError::ControlCount)
        } else {
            Ok((at_position(feature, p[0], 0), seq![count_line(p[0])]))
        },
        Stage::ReadInfo { feature, count, position } => if p.len() < 9 {
            Err(DiagnosticError::TruncatedInfo)
        } else {
            Ok(
                (
                    Stage::ReadReporting {
                        feature,
                        count,
                        position,
                        cid: controls::word(p[0], p[1]),
                        task: controls::word(p[2], p[3]),
                        capabilities: controls::word(p[8], p[4]),
                    },
                    Seq::empty(),
                ),
            )
        },
        Stage::ReadReporting { feature, count, position, cid, task, capabilities } => if p.len() < 6
            || p.take(2) != controls::cid_bytes(cid) {
            Err(DiagnosticError::MismatchedReporting)
        } else {
            Ok(
                (
                    at_position(feature, count, position + 1),
                    seq![control_line(position, cid, task, capabilities, p)],
                ),
            )
        },
        Stage::Finished => Ok((Stage::Finished, Seq::empty())),
    }
}

fn big_endian(high: u8, low: u8) -> (word: u16)
    ensures
        word == controls::word(high, low),
{
    high as u16 * 256 + low as u16
}

fn format_battery(payload: &[u8]) -> (line: String)
    requires
        payload@.len() >= 3,
    ensures
        line@ == battery_line(payload@),
{
    let mut line = "BATTERY_STATUS current=".to_owned();
    text::push_decimal(&mut line, payload[0] as u64);
    line.append(" next=");
    text::push_decimal(&mut line, payload[1] as u64);
    line.append(" status=0x");
    text::push_hex(&mut line, payload[2] as u64, 2);
    line
}

fn format_control(position: u8, cid: u16, task: u16, capabilities: u16, payload: &[u8]) -> (line:
    String)
    requires
        payload@.len() >= 6,
    ensures
        line@ == control_line(position, cid, task, capabilities, payload@),
{
    let mapped = big_endian(payload[3], payload[4]);
    let mut line = "control=".to_owned();
    text::push_decimal(&mut line, position as u64);
    line.append(" cid=");
    text::push_hex(&mut line, cid as u64, 4);
    line.append(" task=");
    text::push_hex(&mut line, task as u64, 4);
    line.append(" capabilities=");
    text::push_hex(&mut line, capabilities as u64, 4);
    line.append(" reporting=");
    text::push_hex(&mut line, big_endian(payload[5], payload[2]) as u64, 4);
    line.append(" mapped_to=");
    text::push_hex(
        &mut line,
        if mapped == 0 {
            cid as u64
        } else {
            mapped as u64
        },
        4,
    );
    line
}

fn one_line(line: String) -> (lines: Vec<String>)
    ensures
        text::contents(lines@) == seq![line@],
{
    let mut lines: Vec<String> = Vec::new();
    lines.push(line);
    assert(text::contents(lines@) =~= seq![line@]);
    lines
}

fn no_line() -> (lines: Vec<String>)
    ensures
        text::contents(lines@) == Seq::<Seq<char>>::empty(),
{
    let lines: Vec<String> = Vec::new();
    assert(text::contents(lines@) =~= Seq::<Seq<char>>::empty());
    lines
}

/// A request of the diagnostic software id.
fn control_request(index: u8, feature: u8, function: u8, payload: &[u8]) -> (request: Report)
    requires
        function <= 15,
        payload@.len() <= 16,
    ensures
        request@ == protocol::request_bytes(index, feature, function, SOFTWARE_ID, payload@),
{
    match Report::request(index, feature, function, SOFTWARE_ID, payload) {
        Ok(request) => request,
        Err(_) => vstd::pervasive::unreached(),
    }
}

fn stage_at(feature: u8, count: u8, position: u8) -> (stage: Stage)
    ensures
        stage == at_position(feature, count, position as int),
{
    if position < count {
        Stage::ReadInfo { feature, count, position }
    } else {
        Stage::Finished
    }
}

impl Inspection {
    /// Positions are below the count, which is at most 32.
    pub open spec fn wf(self) -> bool {
        match self.stage {
            Stage::ReadInfo { count, position, .. } => position < count <= 32,
            Stage::ReadReporting { count, position, .. } => position < count <= 32,
            _ => true,
        }
    }

    pub fn new(index: u8) -> (inspection: Self)
        ensures
            inspection == (Inspection { index, stage: Stage::FindBattery }),
            inspection.wf(),
    {
        Inspection { index, stage: Stage::FindBattery }
    }

    /// The next request; none when the inspection is finished.
    pub fn request(&self) -> (request: Option<Report>)
        ensures
            match request {
                Some(request) => stage_request(self.index, self.stage) == Some(request@),
                None => stage_request(self.index, self.stage) is None,
            },
    {
        let index = self.index;
        match self.stage {
            Stage::FindBattery => Some(feature_request(index, BATTERY_STATUS)),
            Stage::ReadBattery { feature } => {
                let payload: [u8; 0] = [];
                assert(payload@ =~= Seq::<u8>::empty());
                Some(control_request(index, feature, 0, payload.as_slice()))
            },
            Stage::FindControls => Some(feature_request(index, REPROG_CONTROLS)),
            Stage::ReadCount { feature } => {
                let payload: [u8; 0] = [];
                assert(payload@ =~= Seq::<u8>::empty());
                Some(control_request(index, feature, 0, payload.as_slice()))
            },
            Stage::ReadInfo { feature, position, .. } => {
                let payload: [u8; 1] = [position];
                assert(payload@ =~= seq![position]);
                Some(control_request(index, feature, 1, payload.as_slice()))
            },
            Stage::ReadReporting { feature, cid, .. } => {
                let payload: [u8; 2] = [(cid / 256) as u8, (cid % 256) as u8];
                assert(payload@ =~= controls::cid_bytes(cid));
                Some(control_request(index, feature, 2, payload.as_slice()))
            },
            Stage::Finished => None,
        }
    }

    /// Takes the reply to the last request: the lines to print, and the next stage.
    pub fn receive(&mut self, reply: &Report) -> (lines: Result<Vec<String>, DiagnosticError>)
        requires
            old(self).wf(),
        ensures
            final(self).wf(),
            final(self).index == old(self).index,
            match (inspected(old(self).index, old(self).stage, reply@), lines) {
                (Ok((stage, printed)), Ok(lines)) => final(self).stage == stage && text::contents(
                    lines@,
                ) == printed,
                (Err(error), Err(failure)) => failure == error && *final(self) == *old(self),
                _ => false,
            },
    {
        let p = reply.payload();
        match self.stage {
            Stage::FindBattery => match resolve_feature(self.index, BATTERY_STATUS, reply) {
                Err(error) => Err(error),
                Ok(Some(feature)) => {
                    self.stage = Stage::ReadBattery { feature };
                    Ok(no_line())
                },
                Ok(None) => {
                    self.stage = Stage::FindControls;
                    Ok(one_line("BATTERY_STATUS unavailable".to_owned()))
                },
            },
            Stage::ReadBattery { .. } => {
                self.stage = Stage::FindControls;
                Ok(one_line(format_battery(p)))
            },
            Stage::FindControls => match resolve_feature(self.index, REPROG_CONTROLS, reply) {
                Err(error) => Err(error),
                Ok(Some(feature)) => {
                    self.stage = Stage::ReadCount { feature };
                    Ok(no_line())
                },
                Ok(None) => {
                    self.stage = Stage::Finished;
                    Ok(one_line("REPROG_CONTROLS_V4 unavailable".to_owned()))
                },
            },
            Stage::ReadCount { feature } => {
                let count = p[0];
                if count > 32 {
                    return Err(DiagnosticError::ControlCount);
                }
                self.stage = stage_at(feature, count, 0);
                let mut line = "REPROG_CONTROLS_V4 controls=".to_owned();
                text::push_decimal(&mut line, count as u64);
                Ok(one_line(line))
            },
            Stage::ReadInfo { feature, count, position } => {
                if p.len() < 9 {
                    return Err(DiagnosticError::TruncatedInfo);
                }
                self.stage =
                Stage::ReadReporting {
                    feature,
                    count,
                    position,
                    cid: big_endian(p[0], p[1]),
                    task: big_endian(p[2], p[3]),
                    capabilities: big_endian(p[8], p[4]),
                };
                Ok(no_line())
            },
            Stage::ReadReporting { feature, count, position, cid, task, capabilities } => {
                if p.len() < 6 || !controls::names_control(p, cid) {
                    return Err(DiagnosticError::MismatchedReporting);
                }
                self.stage = stage_at(feature, count, position + 1);
                Ok(one_line(format_control(position, cid, task, capabilities, p)))
            },
            Stage::Finished => Ok(no_line()),
        }
    }
}

/// How many requests an inspection still makes at most.
pub open spec fn stages_left(stage: Stage) -> nat {
    match stage {
        Stage::FindBattery => 70,
        Stage::ReadBattery { .. } => 69,
        Stage::FindControls => 68,
        Stage::ReadCount { .. } => 67,
        Stage::ReadInfo { count, position, .. } => (2 * (count - position)) as nat,
        Stage::ReadReporting { count, position, .. } => (2 * (count - position) - 1) as nat,
        Stage::Finished => 0,
    }
}

/// Every reply brings an inspection nearer to its end.
pub proof fn an_inspection_ends(inspection: Inspection, reply: Seq<u8>)
    requires
        inspection.wf(),
        inspection.stage != Stage::Finished,
    ensures
        inspected(inspection.index, inspection.stage, reply) matches Ok((next, _)) ==> stages_left(
            next,
        ) < stages_left(inspection.stage),
{
}

/// An inspection only reads: its requests are feature queries and the functions 0 to
/// 2 of the feature it found, never the one that writes.
pub proof fn an_inspection_only_reads(inspection: Inspection)
    ensures
        stage_request(inspection.index, inspection.stage) matches Some(request)
            ==> protocol::function_of(request) <= 2,
{
    assert(10u8 / 16 == 0 && 26u8 / 16 == 1 && 42u8 / 16 == 2);
}

/// A vibration: first the feature is looked for, then the vibration is sent.
#[derive(Debug, Clone, Copy, PartialEq, Eq, Structural)]
pub struct Vibration {
    pub index: u8,
    pub intensity: u8,
    pub length: u8,
    /// The feature's index, once it is known.
    pub feature: Option<u8>,
    pub sent: bool,
}

pub open spec fn vibration_request(vibration: Vibration) -> Option<Seq<u8>> {
    if vibration.sent {
        None
    } else {
        match vibration.feature {
            None => Some(protocol::feature_request_bytes(vibration.index, PRESENTER_CONTROL)),
            Some(feature) => Some(
                protocol::request_bytes(
                    vibration.index,
                    feature,
                    1,
                    SOFTWARE_ID,
                    seq![vibration.length, 0xe8u8, vibration.intensity],
                ),
            ),
        }
    }
}

/// Bytes with a space between each two.
pub open spec fn joined_bytes(data: Seq<u8>) -> Seq<char> {
    spaced_bytes(data).skip(1)
}

pub open spec fn vibration_line(vibration: Vibration, feature: u8, payload: Seq<u8>) -> Seq<char> {
    "VIBRATE sent feature="@ + text::hex(feature as nat, 2) + " intensity="@ + text::decimal(
        vibration.intensity as nat,
    ) + " length="@ + text::decimal(vibration.length as nat) + "; reply payload="@ + joined_bytes(
        payload,
    )
}

impl Vibration {
    pub fn new(index: u8, intensity: u8, length: u8) -> (vibration: Self)
        ensures
            vibration == (Vibration { index, intensity, length, feature: None, sent: false }),
    {
        Vibration { index, intensity, length, feature: None, sent: false }
    }

    /// PRESENTER_CONTROL (0x1a00) function 1 {length, 0xe8, intensity}, as used
    /// by Projecteur for the first-generation Spotlight. Not a configuration write.
    pub fn request(&self) -> (request: Option<Report>)
        ensures
            match request {
                Some(request) => vibration_request(*self) == Some(request@),
                None => vibration_request(*self) is None,
            },
    {
        if self.sent {
            return None;
        }
        match self.feature {
            None => Some(feature_request(self.index, PRESENTER_CONTROL)),
            Some(feature) => {
                let payload: [u8; 3] = [self.length, 0xe8, self.intensity];
                assert(payload@ =~= seq![self.length, 0xe8u8, self.intensity]);
                Some(control_request(self.index, feature, 1, payload.as_slice()))
            },
        }
    }

    /// Takes the reply to the last request: the line to print, if it is the last one.
    pub fn receive(&mut self, reply: &Report) -> (line: Result<Option<String>, DiagnosticError>)
        requires
            !old(self).sent,
        ensures
            match old(self).feature {
                None => match resolved(old(self).index, PRESENTER_CONTROL, reply@) {
                    Err(error) => line == Err::<Option<String>, DiagnosticError>(error)
                        && *final(self) == *old(self),
                    Ok(None) => line == Err::<Option<String>, DiagnosticError>(
                        DiagnosticError::PresenterUnavailable,
                    ) && *final(self) == *old(self),
                    Ok(Some(feature)) => line == Ok::<Option<String>, DiagnosticError>(None)
                        && *final(self) == (Vibration { feature: Some(feature), ..*old(self) }),
                },
                Some(feature) => line matches Ok(Some(line)) && line@ == vibration_line(
                    *old(self),
                    feature,
                    protocol::payload_of(reply@),
                ) && *final(self) == (Vibration { sent: true, ..*old(self) }),
            },
    {
        match self.feature {
            None => match resolve_feature(self.index, PRESENTER_CONTROL, reply) {
                Err(error) => Err(error),
                Ok(None) => Err(DiagnosticError::PresenterUnavailable),
                Ok(Some(feature)) => {
                    self.feature = Some(feature);
                    Ok(None)
                },
            },
            Some(feature) => {
                let mut line = "VIBRATE sent feature=".to_owned();
                text::push_hex(&mut line, feature as u64, 2);
                line.append(" intensity=");
                text::push_decimal(&mut line, self.intensity as u64);
                line.append(" length=");
                text::push_decimal(&mut line, self.length as u64);
                line.append("; reply payload=");
                let mut bytes = String::new();
                push_spaced_bytes(&mut bytes, reply.payload());
                let ghost payload = protocol::payload_of(reply@);
                proof {
                    assert(bytes@ =~= spaced_bytes(payload));
                    spaced_bytes_are_long(payload);
                }
                let len = bytes.as_str().unicode_len();
                let joined = bytes.as_str().substring_char(1, len);
                assert(joined@ =~= joined_bytes(payload));
                line.append(joined);
                assert(line@ =~= vibration_line(*self, feature, payload));
                self.sent = true;
                Ok(Some(line))
            },
        }
    }
}

proof fn spaced_bytes_are_long(data: Seq<u8>)
    ensures
        spaced_bytes(data).len() == 3 * data.len(),
    decreases data.len(),
{
    if data.len() > 0 {
        spaced_bytes_are_long(data.drop_last());
        text::hex_has_digits(data.last() as nat, 2);
    }
}

/// The features have these codes, and a probe asks for these seven in turn.
pub proof fn features_have_these_codes()
    ensures
        REPROG_CONTROLS == 0x1b04,
        PRESENTER_CONTROL == 0x1a00,
        BATTERY_STATUS == 0x1000,
        PROBED == 7,
        probed_code(0) == 0x0001 && probed_name(0) == "FEATURE_SET"@,
        probed_code(1) == 0x1000 && probed_name(1) == "BATTERY_STATUS"@,
        probed_code(2) == 0x1004 && probed_name(2) == "UNIFIED_BATTERY"@,
        probed_code(3) == 0x1a00 && probed_name(3) == "PRESENTER_CONTROL"@,
        probed_code(4) == 0x1a01 && probed_name(4) == "SENSOR_3D"@,
        probed_code(5) == 0x1b04 && probed_name(5) == "REPROG_CONTROLS_V4"@,
        probed_code(6) == 0x2205 && probed_name(6) == "POINTER_SPEED"@,
{
}

/// A raw line gives the moment, set to the right in eight places, and every byte behind a
/// space as two digits.
pub proof fn raw_lines_give_every_byte(ms: u64, data: Seq<u8>, byte: u8)
    ensures
        raw_line(ms, Seq::empty()) == text::padded_left(text::decimal(ms as nat), 8) + "ms"@,
        raw_line(ms, data.push(byte)) == raw_line(ms, data) + seq![' '] + text::hex(
            byte as nat,
            2,
        ),
{
    assert(data.push(byte).drop_last() =~= data);
    assert(raw_line(ms, Seq::empty()) =~= stamp(ms));
    assert(raw_line(ms, data.push(byte)) =~= raw_line(ms, data) + seq![' '] + text::hex(
        byte as nat,
        2,
    ));
}

/// A feature is found under the index that the reply names; an index of zero means that there
/// is none, and an error of the device is told as such.
pub proof fn features_are_resolved_by_their_reply(index: u8, code: u16, reply: Seq<u8>)
    requires
        protocol::is_report(reply),
        reply[1] == index,
    ensures
        reply[2] == 0 && reply[3] == 0x0a && reply[4] != 0 ==> resolved(index, code, reply) == Ok::<
            Option<u8>,
            DiagnosticError,
        >(Some(reply[4])),
        reply[2] == 0 && reply[3] == 0x0a && reply[4] == 0 ==> resolved(index, code, reply) == Ok::<
            Option<u8>,
            DiagnosticError,
        >(None),
        (reply[2] == 0x8f || reply[2] == 0xfe) && reply[3] == 0 && reply[4] == 0x0a ==> resolved(
            index,
            code,
            reply,
        ) == Err::<Option<u8>, DiagnosticError>(
            DiagnosticError::Protocol(
                ProtocolError::Device { legacy: reply[2] == 0x8f, code: reply[5] },
            ),
        ),
{
    protocol::a_feature_is_found_by_its_reply(reply, index, code);
}

/// A probe tells of each feature where it is found, or that it is not there.
pub proof fn a_probe_tells_where_a_feature_is(place: int, feature: u8)
    ensures
        ({
            let head = text::hex(probed_code(place) as nat, 4) + " "@ + text::padded_right(
                probed_name(place),
                22,
            );
            &&& probe_line(place, Some(feature)) == head + (" index="@ + text::hex(
                feature as nat,
                2,
            ))
            &&& probe_line(place, None) == head + " unavailable"@
        }),
{
}

/// An inspection looks for the battery and reads it where it is found, then looks for the
/// controls and counts them, and reads each in turn; what is not there is passed over.
pub proof fn an_inspection_goes_on_to_the_next(index: u8, feature: u8, reply: Seq<u8>)
    requires
        protocol::is_report(reply),
    ensures
        ({
            let battery = resolved(index, 0x1000, reply);
            let controls = resolved(index, 0x1b04, reply);
            &&& battery matches Ok(Some(found)) ==> inspected(index, Stage::FindBattery, reply)
                == Ok::<(Stage, Seq<Seq<char>>), DiagnosticError>(
                (Stage::ReadBattery { feature: found }, Seq::empty()),
            )
            &&& battery == Ok::<Option<u8>, DiagnosticError>(None) ==> inspected(
                index,
                Stage::FindBattery,
                reply,
            ) == Ok::<(Stage, Seq<Seq<char>>), DiagnosticError>(
                (Stage::FindControls, seq!["BATTERY_STATUS unavailable"@]),
            )
            &&& battery matches Err(error) ==> inspected(index, Stage::FindBattery, reply) == Err::<
                (Stage, Seq<Seq<char>>),
                DiagnosticError,
            >(error)
            &&& controls matches Ok(Some(found)) ==> inspected(index, Stage::FindControls, reply)
                == Ok::<(Stage, Seq<Seq<char>>), DiagnosticError>(
                (Stage::ReadCount { feature: found }, Seq::empty()),
            )
            &&& controls == Ok::<Option<u8>, DiagnosticError>(None) ==> inspected(
                index,
                Stage::FindControls,
                reply,
            ) == Ok::<(Stage, Seq<Seq<char>>), DiagnosticError>(
                (Stage::Finished, seq!["REPROG_CONTROLS_V4 unavailable"@]),
            )
            &&& controls matches Err(error) ==> inspected(index, Stage::FindControls, reply)
                == Err::<(Stage, Seq<Seq<char>>), DiagnosticError>(error)
            &&& inspected(index, Stage::ReadBattery { feature }, reply) == Ok::<
                (Stage, Seq<Seq<char>>),
                DiagnosticError,
            >(
                (
                    Stage::FindControls,
                    seq![
                        "BATTERY_STATUS current="@ + text::decimal(reply[4] as nat) + " next="@
                            + text::decimal(reply[5] as nat) + " status=0x"@ + text::hex(
                            reply[6] as nat,
                            2,
                        ),
                    ],
                ),
            )
            &&& reply[4] > 32 ==> inspected(index, Stage::ReadCount { feature }, reply) == Err::<
                (Stage, Seq<Seq<char>>),
                DiagnosticError,
            >(DiagnosticError::ControlCount)
            &&& reply[4] == 0 ==> inspected(index, Stage::ReadCount { feature }, reply) == Ok::<
                (Stage, Seq<Seq<char>>),
                DiagnosticError,
            >((Stage::Finished, seq!["REPROG_CONTROLS_V4 controls="@ + text::decimal(0)]))
            &&& 1 <= reply[4] <= 32 ==> inspected(index, Stage::ReadCount { feature }, reply)
                == Ok::<(Stage, Seq<Seq<char>>), DiagnosticError>(
                (
                    Stage::ReadInfo { feature, count: reply[4], position: 0 },
                    seq!["REPROG_CONTROLS_V4 controls="@ + text::decimal(reply[4] as nat)],
                ),
            )
        }),
{
}

/// The number, task and capabilities of a control stand in these bytes of its description,
/// which a short report has no room for.
pub proof fn a_control_is_described_in_these_bytes(
    index: u8,
    feature: u8,
    count: u8,
    position: u8,
    reply: Seq<u8>,
)
    requires
        protocol::is_report(reply),
    ensures
        reply.len() == 7 ==> inspected(index, Stage::ReadInfo { feature, count, position }, reply)
            == Err::<(Stage, Seq<Seq<char>>), DiagnosticError>(DiagnosticError::TruncatedInfo),
        reply.len() == 20 ==> {
            &&& inspected(index, Stage::ReadInfo { feature, count, position }, reply) matches Ok(
                (stage, lines),
            )
            &&& lines.len() == 0
            &&& stage matches Stage::ReadReporting {
                feature: asked,
                count: total,
                position: place,
                cid,
                task,
                capabilities,
            }
            &&& asked == feature && total == count && place == position
            &&& cid == 256 * reply[4] + reply[5]
            &&& task == 256 * reply[6] + reply[7]
            &&& capabilities == 256 * reply[12] + reply[8]
        },
{
    controls::words_are_big_endian(reply[4], reply[5]);
    controls::words_are_big_endian(reply[6], reply[7]);
    controls::words_are_big_endian(reply[12], reply[8]);
}

/// The reporting of a control is taken from a long report that names it; the next control
/// follows, and after the last one the inspection is finished.
pub proof fn a_control_is_reported_once(
    index: u8,
    feature: u8,
    count: u8,
    position: u8,
    cid: u16,
    task: u16,
    capabilities: u16,
    reply: Seq<u8>,
)
    requires
        protocol::is_report(reply),
        position < count <= 32,
    ensures
        ({
            let stage = Stage::ReadReporting { feature, count, position, cid, task, capabilities };
            let named = reply.len() == 20 && 256 * reply[4] + reply[5] == cid;
            &&& !named ==> inspected(index, stage, reply) == Err::<
                (Stage, Seq<Seq<char>>),
                DiagnosticError,
            >(DiagnosticError::MismatchedReporting)
            &&& named && position + 1 == count ==> inspected(index, stage, reply) is Ok
                && inspected(index, stage, reply)->Ok_0.0 == Stage::Finished
            &&& named && position + 1 < count ==> inspected(index, stage, reply) is Ok && inspected(
                index,
                stage,
                reply,
            )->Ok_0.0 == (Stage::ReadInfo { feature, count, position: (position + 1) as u8 })
            &&& named ==> inspected(index, stage, reply)->Ok_0.1.len() == 1
        }),
{
    let p = protocol::payload_of(reply);
    let bytes = controls::cid_bytes(cid);
    if reply.len() == 20 {
        if p.take(2) == bytes {
            assert(p.take(2)[0] == bytes[0] && p.take(2)[1] == bytes[1]);
        }
        if 256 * reply[4] + reply[5] == cid {
            assert(p.take(2) =~= bytes);
        }
    }
}

/// The line of a control tells its reporting flags from the bytes behind the fifth and the
/// second of the payload, and its mapping, which is itself where the device gives none.
pub proof fn a_control_line_tells_flags_and_mapping(
    position: u8,
    cid: u16,
    task: u16,
    capabilities: u16,
    payload: Seq<u8>,
)
    requires
        payload.len() >= 6,
    ensures
        control_line(position, cid, task, capabilities, payload) == "control="@ + text::decimal(
            position as nat,
        ) + " cid="@ + text::hex(cid as nat, 4) + " task="@ + text::hex(task as nat, 4)
            + " capabilities="@ + text::hex(capabilities as nat, 4) + " reporting="@ + text::hex(
            (256 * payload[5] + payload[2]) as nat,
            4,
        ) + " mapped_to="@ + text::hex(
            if payload[3] == 0 && payload[4] == 0 {
                cid as nat
            } else {
                (256 * payload[3] + payload[4]) as nat
            },
            4,
        ),
{
    controls::words_are_big_endian(payload[5], payload[2]);
    controls::words_are_big_endian(payload[3], payload[4]);
}

/// The requests of an inspection, byte by byte.
pub proof fn inspections_ask_in_these_bytes(
    index: u8,
    feature: u8,
    count: u8,
    position: u8,
    cid: u16,
    task: u16,
    capabilities: u16,
)
    ensures
        stage_request(index, Stage::FindBattery) == Some(
            protocol::feature_request_bytes(index, 0x1000),
        ),
        stage_request(index, Stage::FindControls) == Some(
            protocol::feature_request_bytes(index, 0x1b04),
        ),
        stage_request(index, Stage::Finished) is None,
        ({
            let battery = stage_request(index, Stage::ReadBattery { feature });
            battery is Some && battery->0[1] == index && battery->0[2] == feature && battery->0[3]
                == 0x0a
        }),
        ({
            let read = stage_request(index, Stage::ReadCount { feature });
            read is Some && read->0[1] == index && read->0[2] == feature && read->0[3] == 0x0a
        }),
        ({
            let info = stage_request(index, Stage::ReadInfo { feature, count, position });
            info is Some && info->0[1] == index && info->0[2] == feature && info->0[3] == 0x1a
                && info->0[4] == position
        }),
        ({
            let read = stage_request(
                index,
                Stage::ReadReporting { feature, count, position, cid, task, capabilities },
            );
            read is Some && read->0[1] == index && read->0[2] == feature && read->0[3] == 0x2a && 256
                * read->0[4] + read->0[5] == cid
        }),
{
    protocol::a_request_has_these_bytes(index, feature, 0, 0x0a, Seq::empty(), 0);
    protocol::a_request_has_these_bytes(index, feature, 1, 0x0a, seq![position], 0);
    protocol::a_request_has_these_bytes(index, feature, 2, 0x0a, controls::cid_bytes(cid), 0);
    protocol::a_request_has_these_bytes(index, feature, 2, 0x0a, controls::cid_bytes(cid), 1);
}

/// A vibration looks for its feature first, and is then sent once: function 1 with the
/// length, the byte e8 and the intensity.
pub proof fn a_vibration_has_these_bytes(vibration: Vibration, feature: u8)
    ensures
        vibration.sent ==> vibration_request(vibration) is None,
        !vibration.sent && vibration.feature is None ==> vibration_request(vibration) == Some(
            protocol::feature_request_bytes(vibration.index, 0x1a00),
        ),
        !vibration.sent && vibration.feature == Some(feature) ==> {
            let request = vibration_request(vibration);
            request is Some && request->0.len() == 20 && request->0[0] == 0x11 && request->0[1]
                == vibration.index && request->0[2] == feature && request->0[3] == 0x1a
                && request->0[4] == vibration.length && request->0[5] == 0xe8 && request->0[6]
                == vibration.intensity && request->0[7] == 0
        },
{
    let payload = seq![vibration.length, 0xe8u8, vibration.intensity];
    protocol::a_request_has_these_bytes(vibration.index, feature, 1, 0x0a, payload, 0);
    protocol::a_request_has_these_bytes(vibration.index, feature, 1, 0x0a, payload, 1);
    protocol::a_request_has_these_bytes(vibration.index, feature, 1, 0x0a, payload, 2);
    protocol::a_request_has_these_bytes(vibration.index, feature, 1, 0x0a, payload, 3);
}

} // verus!
