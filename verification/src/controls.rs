//! REPROG_CONTROLS_V4 top-button notification and temporary configuration.
//! Hardware I/O is supplied by the caller.
use crate::conversation::{self, Exchange, Reply, Target};
use crate::link::{self, Link};
use crate::protocol::{self, Report, SOFTWARE_ID};
pub use crate::unrestored::{format_unrestored, parse_unrestored};
use vstd::prelude::*;

verus! {

pub const TOP_HOLD: u16 = 0x00d8;

/// Firmware-detected top-button double click ("Switch Highlight").
pub const SWITCH_HIGHLIGHT: u16 = 0x00df;

pub const NEXT_HOLD: u16 = 0x00da;

pub const BACK_HOLD: u16 = 0x00dc;

/// Software id of restoration requests. It differs from that of configuration,
/// so that a delayed enable reply cannot match cleanup.
pub const RESTORE_ID: u8 = 0x0b;

/// Bluetooth requests on the tested first-generation unit use slot 1, while
/// unsolicited notifications use the directly connected device address 0xff.
/// Receiver notifications stay scoped to the selected receiver slot.
pub fn notification_address(bluetooth: bool, receiver_slot: u8) -> (address: u8)
    ensures
        address == (if bluetooth {
            0xff
        } else {
            receiver_slot
        }),
{
    if bluetooth {
        0xff
    } else {
        receiver_slot
    }
}

/// A 16-bit word from its big-endian bytes.
pub open spec fn word(high: u8, low: u8) -> u16 {
    (high * 256 + low) as u16
}

/// The big-endian bytes of a control identifier.
pub open spec fn cid_bytes(cid: u16) -> Seq<u8> {
    seq![(cid / 256) as u8, (cid % 256) as u8]
}

/// Reporting flags and mapping of one control.
#[derive(Debug, Clone, Copy, PartialEq, Eq, Structural)]
pub struct Reporting {
    pub flags: u16,
    pub mapped_to: u16,
}

/// Bits of the reporting flags that mean "diverted", "persistently diverted" or
/// "raw XY"; a control that shows any of them belongs to someone else.
pub const CLAIMED: u16 = 0x15;

/// Why a lease could not be taken, restored or recovered.
#[derive(Debug)]
pub enum ControlError {
    /// The transport failed; the text is its own.
    Transport(String),
    ControlCount,
    TruncatedCapability,
    NotDivertible { cid: u16 },
    ReportingMismatch { cid: u16 },
    AlreadyDiverted { cid: u16, flags: u16 },
    Acknowledgement,
    ReadbackMismatch { cid: u16, actual: Reporting },
    /// Configuration failed with `cause`; the original setting is back and verified.
    RolledBack { cause: Box<ControlError>, cid: u16 },
    /// Configuration failed with `cause`, and so did the restoration.
    RollbackFailed { cause: Box<ControlError>, restore: Box<ControlError> },
    RestorationDiffers { cid: u16, original: Reporting, actual: Reporting },
    RecoveryRefused { cid: u16 },
}

/// What a reporting reply says about a control. A mapping of zero means the
/// control itself.
pub open spec fn reporting_of(reply: Seq<u8>, cid: u16) -> Result<Reporting, ControlError> {
    let p = protocol::payload_of(reply);
    if p.len() < 5 || p.take(2) != cid_bytes(cid) {
        Err(ControlError::ReportingMismatch { cid })
    } else {
        let mapped = word(p[3], p[4]);
        Ok(
            Reporting {
                flags: word(
                    if p.len() > 5 {
                        p[5]
                    } else {
                        0
                    },
                    p[2],
                ),
                mapped_to: if mapped == 0 {
                    cid
                } else {
                    mapped
                },
            },
        )
    }
}

/// Whether the first two bytes of a payload name a control.
pub fn names_control(payload: &[u8], cid: u16) -> (named: bool)
    requires
        payload@.len() >= 2,
    ensures
        named == (payload@.take(2) == cid_bytes(cid)),
{
    let named = payload[0] == (cid / 256) as u8 && payload[1] == (cid % 256) as u8;
    proof {
        if named {
            assert(payload@.take(2) =~= cid_bytes(cid));
        } else {
            assert(payload@.take(2)[0] == payload@[0]);
            assert(payload@.take(2)[1] == payload@[1]);
        }
    }
    named
}

impl Reporting {
    /// Reads a getCidReporting reply.
    pub fn parse(reply: &Report, cid: u16) -> (reporting: Result<Self, ControlError>)
        ensures
            reporting == reporting_of(reply@, cid),
    {
        let p = reply.payload();
        if p.len() < 5 || !names_control(p, cid) {
            return Err(ControlError::ReportingMismatch { cid });
        }
        let mapped: u16 = p[3] as u16 * 256 + p[4] as u16;
        let high: u8 = if p.len() > 5 {
            p[5]
        } else {
            0
        };
        let flags: u16 = high as u16 * 256 + p[2] as u16;
        Ok(
            Self {
                flags,
                mapped_to: if mapped == 0 {
                    cid
                } else {
                    mapped
                },
            },
        )
    }
}

/// The controls that a payload lists as held: four big-endian words, zero
/// meaning an empty place.
pub open spec fn held_controls(payload: Seq<u8>) -> Seq<u16> {
    seq![
        word(payload[0], payload[1]),
        word(payload[2], payload[3]),
        word(payload[4], payload[5]),
        word(payload[6], payload[7]),
    ].filter(|cid: u16| cid != 0)
}

/// A diverted-button notification: event 0 of the feature, from the notification
/// address, with software id zero.
pub open spec fn is_button_event(report: Seq<u8>, notification_index: u8, feature: u8) -> bool {
    &&& protocol::device_of(report) == notification_index
    &&& protocol::feature_of(report) == feature
    &&& protocol::software_id_of(report) == 0
    &&& protocol::function_of(report) == 0
    &&& protocol::payload_of(report).len() >= 8
}

/// Controls reported as currently held by a diverted-button notification
/// (REPROG_CONTROLS_V4 event 0). None means unrelated traffic; an empty list
/// is an explicit "nothing held" snapshot.
pub fn active_controls(report: &Report, notification_index: u8, feature: u8) -> (held: Option<
    Vec<u16>,
>)
    ensures
        match held {
            Some(held) => is_button_event(report@, notification_index, feature) && held@
                == held_controls(protocol::payload_of(report@)),
            None => !is_button_event(report@, notification_index, feature),
        },
{
    let payload = report.payload();
    if report.device() != notification_index || report.feature() != feature || report.software_id()
        != 0 || report.function() != 0 || payload.len() < 8 {
        return None;
    }
    let ghost words = seq![
        word(payload@[0], payload@[1]),
        word(payload@[2], payload@[3]),
        word(payload@[4], payload@[5]),
        word(payload@[6], payload@[7]),
    ];
    let ghost held_cid = |cid: u16| cid != 0;
    let mut held: Vec<u16> = Vec::new();
    assert(words.take(0).filter(held_cid) =~= held@) by {
        reveal(Seq::filter);
    }
    for place in 0..4usize
        invariant
            payload@.len() >= 8,
            words == seq![
                word(payload@[0], payload@[1]),
                word(payload@[2], payload@[3]),
                word(payload@[4], payload@[5]),
                word(payload@[6], payload@[7]),
            ],
            held_cid == (|cid: u16| cid != 0),
            held@ == words.take(place as int).filter(held_cid),
    {
        let cid: u16 = payload[2 * place] as u16 * 256 + payload[2 * place + 1] as u16;
        proof {
            reveal(Seq::filter);
            assert(cid == words[place as int]);
            assert(words.take(place + 1).drop_last() =~= words.take(place as int));
            assert(words.take(place + 1).last() == cid);
        }
        if cid != 0 {
            held.push(cid);
        }
    }
    assert(words.take(4) =~= words);
    Some(held)
}

/// None means unrelated traffic. Some(false) is an explicit state snapshot
/// without the top control, never an inference from a gap in mouse movement.
pub fn top_button_state(report: &Report, notification_index: u8, feature: u8) -> (held: Option<
    bool,
>)
    ensures
        held == (if is_button_event(report@, notification_index, feature) {
            Some(held_controls(protocol::payload_of(report@)).contains(TOP_HOLD))
        } else {
            None
        }),
{
    match active_controls(report, notification_index, feature) {
        None => None,
        Some(controls) => Some(contains_control(&controls, TOP_HOLD)),
    }
}

/// Whether a list of controls holds `cid`.
pub fn contains_control(controls: &Vec<u16>, cid: u16) -> (found: bool)
    ensures
        found == controls@.contains(cid),
{
    for i in 0..controls.len()
        invariant
            forall|j: int| 0 <= j < i ==> controls@[j] != cid,
    {
        if controls[i] == cid {
            return true;
        }
    }
    false
}

impl<T: FnMut(&Report) -> Reply> Link<T> {
    fn read_reporting(&mut self, software_id: u8) -> (reporting: Result<Reporting, ControlError>)
        requires
            old(self).wf(),
            1 <= software_id <= 15,
        ensures
            final(self).extends(*old(self)),
            ({
                let at = old(self).log().len();
                let log = final(self).log();
                let outcome = conversation::read_reporting(
                    old(self).target(),
                    software_id,
                    conversation::replies(log),
                    at,
                );
                conversation::follows(log, at, outcome) && reporting == outcome.result
            }),
    {
        let cid = self.control();
        let payload: [u8; 2] = [(cid / 256) as u8, (cid % 256) as u8];
        assert(payload@ =~= cid_bytes(cid));
        match self.ask(2, software_id, payload.as_slice()) {
            Ok(reply) => Reporting::parse(&reply, cid),
            Err(error) => Err(error),
        }
    }

    /// DVALID only. PVALID/RVALID are zero; remap zero means unchanged.
    /// The tested Spotlight (feature version 3) acknowledges with a zero payload
    /// instead of an echo. Neither form proves application, so a readback follows.
    fn set_divert(&mut self, enabled: bool, software_id: u8) -> (done: Result<(), ControlError>)
        requires
            old(self).wf(),
            1 <= software_id <= 15,
        ensures
            final(self).extends(*old(self)),
            ({
                let at = old(self).log().len();
                let log = final(self).log();
                let outcome = conversation::set_divert(
                    old(self).target(),
                    enabled,
                    software_id,
                    conversation::replies(log),
                    at,
                );
                conversation::follows(log, at, outcome) && done == outcome.result
            }),
    {
        let cid = self.control();
        let action: u8 = if enabled {
            3
        } else {
            2
        };
        let payload: [u8; 5] = [(cid / 256) as u8, (cid % 256) as u8, action, 0, 0];
        assert(payload@ =~= conversation::divert_payload(cid, enabled));
        match self.ask(3, software_id, payload.as_slice()) {
            Ok(reply) => {
                if starts_with(reply.payload(), payload.as_slice()) || all_zero(reply.payload()) {
                    Ok(())
                } else {
                    Err(ControlError::Acknowledgement)
                }
            },
            Err(error) => Err(error),
        }
    }
}

impl<T: FnMut(&Report) -> Reply> Link<T> {
    /// Looks for the target in the device's list of `count` controls.
    fn survey(&mut self, count: u8) -> (supported: Result<bool, ControlError>)
        requires
            old(self).wf(),
            count <= 32,
        ensures
            final(self).extends(*old(self)),
            ({
                let at = old(self).log().len();
                let log = final(self).log();
                let outcome = conversation::survey(
                    old(self).target(),
                    count as nat,
                    0,
                    conversation::replies(log),
                    at,
                );
                conversation::follows(log, at, outcome) && supported == outcome.result
            }),
    {
        let ghost before = *self;
        let ghost at = self.log().len();
        let ghost target = self.target();
        for position in 0..count
            invariant
                count <= 32,
                before == *old(self),
                before.wf(),
                self.extends(before),
                target == before.target(),
                at == before.log().len(),
                self.log().len() == at + position,
                forall|i: int|
                    at <= i < at + position ==> (#[trigger] self.log()[i]).request@
                        == conversation::info_request(target, (i - at) as nat) && passes_over(
                        target,
                        self.log()[i].reply,
                    ),
        {
            let payload: [u8; 1] = [position];
            assert(payload@ =~= seq![position]);
            let ghost earlier = self.log();
            let answer = self.ask(1, SOFTWARE_ID, payload.as_slice());
            proof {
                assert forall|i: int| 0 <= i < earlier.len() implies #[trigger] self.log()[i]
                    == earlier[i] by {
                    assert(self.log().subrange(0, earlier.len() as int)[i] == self.log()[i]);
                }
                assert forall|i: int| 0 <= i < before.log().len() implies before.log()[i]
                    == #[trigger] self.log()[i] by {
                    assert(earlier.subrange(0, before.log().len() as int)[i] == earlier[i]);
                }
                assert(before.log() =~= self.log().subrange(0, before.log().len() as int));
                if !passes_over(target, answer) {
                    survey_stops(target, count as nat, 0, position as nat, self.log(), at);
                }
            }
            match answer {
                Err(error) => {
                    return Err(error);
                },
                Ok(reply) => {
                    let p = reply.payload();
                    if p.len() < 9 {
                        return Err(ControlError::TruncatedCapability);
                    }
                    if names_control(p, self.control()) {
                        return Ok(p[4] & 0x20 != 0);
                    }
                },
            }
        }
        proof {
            survey_stops(target, count as nat, 0, count as nat, self.log(), at);
        }
        Ok(false)
    }

    /// Verifies the control and its capability before anything is written.
    fn examine(&mut self) -> (reporting: Result<Reporting, ControlError>)
        requires
            old(self).wf(),
        ensures
            final(self).extends(*old(self)),
            ({
                let at = old(self).log().len();
                let log = final(self).log();
                let outcome = conversation::examine(
                    old(self).target(),
                    conversation::replies(log),
                    at,
                );
                conversation::follows(log, at, outcome) && reporting == outcome.result
            }),
    {
        let ghost at = self.log().len();
        let ghost target = self.target();
        let empty: [u8; 0] = [];
        assert(empty@ =~= Seq::<u8>::empty());
        let count = match self.ask(0, SOFTWARE_ID, empty.as_slice()) {
            Err(error) => {
                return Err(error);
            },
            Ok(reply) => reply.payload()[0],
        };
        if count > 32 {
            return Err(ControlError::ControlCount);
        }
        let ghost counted = self.log();
        let supported = self.survey(count);
        let ghost surveyed = self.log();
        let ghost found = conversation::survey(
            target,
            count as nat,
            0,
            conversation::replies(surveyed),
            at + 1,
        );
        let ghost requests = seq![conversation::count_request(target)] + found.requests;
        proof {
            conversation::asked_in_turn(
                counted,
                surveyed,
                at,
                seq![conversation::count_request(target)],
                found.requests,
            );
            assert(conversation::replies(surveyed)[at as int] == conversation::replies(
                counted,
            )[at as int]);
        }
        match supported {
            Err(error) => {
                return Err(error);
            },
            Ok(false) => {
                return Err(ControlError::NotDivertible { cid: self.control() });
            },
            Ok(true) => {},
        }
        let reporting = self.read_reporting(SOFTWARE_ID);
        proof {
            let log = self.log();
            conversation::asked_in_turn(
                surveyed,
                log,
                at,
                requests,
                seq![conversation::reporting_request(target, SOFTWARE_ID)],
            );
            conversation::survey_reads_its_own_replies(
                target,
                count as nat,
                0,
                conversation::replies(surveyed),
                conversation::replies(log),
                at + 1,
            );
            assert(conversation::replies(surveyed)[at as int] == conversation::replies(log)[at as int]);
        }
        reporting
    }

    /// Enables the diversion and verifies it by readback.
    fn configure(&mut self, original: Reporting) -> (done: Result<(), ControlError>)
        requires
            old(self).wf(),
        ensures
            final(self).extends(*old(self)),
            ({
                let at = old(self).log().len();
                let log = final(self).log();
                let outcome = conversation::configure(
                    old(self).target(),
                    original,
                    conversation::replies(log),
                    at,
                );
                conversation::follows(log, at, outcome) && done == outcome.result
            }),
    {
        let ghost at = self.log().len();
        match self.set_divert(true, SOFTWARE_ID) {
            Err(error) => {
                return Err(error);
            },
            Ok(()) => {},
        }
        let ghost written = self.log();
        let readback = self.read_reporting(SOFTWARE_ID);
        proof {
            conversation::asked_in_turn(
                written,
                self.log(),
                at,
                seq![conversation::divert_request(self.target(), true, SOFTWARE_ID)],
                seq![conversation::reporting_request(self.target(), SOFTWARE_ID)],
            );
            assert(conversation::replies(written)[at as int] == conversation::replies(
                self.log(),
            )[at as int]);
        }
        match readback {
            Err(error) => Err(error),
            Ok(actual) => {
                let expected = Reporting {
                    flags: original.flags | 1,
                    mapped_to: original.mapped_to,
                };
                if actual == expected {
                    Ok(())
                } else {
                    Err(ControlError::ReadbackMismatch { cid: self.control(), actual })
                }
            },
        }
    }

    /// Writes the original divert bit back and verifies the state by readback.
    fn restore(&mut self, original: Reporting) -> (done: Result<(), ControlError>)
        requires
            old(self).wf(),
        ensures
            final(self).extends(*old(self)),
            ({
                let at = old(self).log().len();
                let log = final(self).log();
                let outcome = conversation::restore(
                    old(self).target(),
                    original,
                    conversation::replies(log),
                    at,
                );
                conversation::follows(log, at, outcome) && done == outcome.result
            }),
    {
        let ghost at = self.log().len();
        match self.set_divert(original.flags & 1 != 0, RESTORE_ID) {
            Err(error) => {
                return Err(error);
            },
            Ok(()) => {},
        }
        let ghost written = self.log();
        let readback = self.read_reporting(RESTORE_ID);
        proof {
            conversation::asked_in_turn(
                written,
                self.log(),
                at,
                seq![conversation::divert_request(self.target(), original.flags & 1 != 0, RESTORE_ID)],
                seq![conversation::reporting_request(self.target(), RESTORE_ID)],
            );
            assert(conversation::replies(written)[at as int] == conversation::replies(
                self.log(),
            )[at as int]);
        }
        match readback {
            Err(error) => Err(error),
            Ok(actual) => {
                if actual == original {
                    Ok(())
                } else {
                    Err(
                        ControlError::RestorationDiffers {
                            cid: self.control(),
                            original,
                            actual,
                        },
                    )
                }
            },
        }
    }
}

/// With these exchanges, taking a lease ends with `result`.
pub open spec fn start_ends<T: FnMut(&Report) -> Reply>(
    transport: T,
    target: Target,
    unrestored: Option<Reporting>,
    log: Seq<Exchange>,
    result: Result<Reporting, ControlError>,
) -> bool {
    let outcome = conversation::start(target, unrestored, conversation::replies(log), 0);
    link::carried_out(transport, log) && conversation::follows(log, 0, outcome) && outcome.result
        == result
}

/// With these exchanges after those of `before`, restoration ends with `result`.
pub open spec fn restore_ends<T: FnMut(&Report) -> Reply>(
    transport: T,
    target: Target,
    original: Reporting,
    before: Seq<Exchange>,
    log: Seq<Exchange>,
    result: Result<(), ControlError>,
) -> bool {
    let outcome = conversation::restore(
        target,
        original,
        conversation::replies(log),
        before.len(),
    );
    &&& link::carried_out(transport, log)
    &&& before.is_prefix_of(log)
    &&& conversation::follows(log, before.len(), outcome)
    &&& outcome.result == result
}

/// With these exchanges, an explicit recovery ends with `result`.
pub open spec fn recover_ends<T: FnMut(&Report) -> Reply>(
    transport: T,
    target: Target,
    log: Seq<Exchange>,
    result: Result<(), ControlError>,
) -> bool {
    let outcome = conversation::recover(target, conversation::replies(log), 0);
    link::carried_out(transport, log) && conversation::follows(log, 0, outcome) && outcome.result
        == result
}

/// Owns only the temporary divert bit of one previously undiverted control
/// (the top hold by default).
/// Every path must call finish, which restores the control and reports whether
/// that worked. Nothing can restore it after SIGKILL, process abort, power loss,
/// disconnection, or with an inaccessible HID interface.
pub struct TemporaryTopButton<T: FnMut(&Report) -> Reply> {
    link: Link<T>,
    original: Reporting,
}

impl<T: FnMut(&Report) -> Reply> TemporaryTopButton<T> {
    #[verifier::type_invariant]
    spec fn linked(self) -> bool {
        self.link.wf()
    }

    pub closed spec fn transport(self) -> T {
        self.link.transport()
    }

    pub closed spec fn target(self) -> Target {
        self.link.target()
    }

    /// The reporting state that finish restores.
    pub closed spec fn baseline(self) -> Reporting {
        self.original
    }

    /// The exchanges made so far.
    pub closed spec fn log(self) -> Seq<Exchange> {
        self.link.log()
    }

    /// The outcome of taking a lease, with all exchanges that were made: those of the
    /// lease, or those with which the link was closed.
    pub open spec fn started(
        transport: T,
        target: Target,
        unrestored: Option<Reporting>,
        lease: Result<Self, ControlError>,
    ) -> bool {
        match lease {
            Ok(lease) => {
                &&& lease.transport() == transport
                &&& lease.target() == target
                &&& start_ends(transport, target, unrestored, lease.log(), Ok(lease.baseline()))
            },
            Err(error) => exists|log: Seq<Exchange>| #[trigger]
                link::closed_with(transport, log) && start_ends(
                    transport,
                    target,
                    unrestored,
                    log,
                    Err(error),
                ),
        }
    }

    pub fn start(transport: T, index: u8, feature: u8) -> (lease: Result<Self, ControlError>)
        requires
            link::accepts_reports(transport),
        ensures
            Self::started(transport, (Target { index, feature, cid: TOP_HOLD }), None, lease),
    {
        Self::start_control(transport, index, feature, TOP_HOLD)
    }

    pub fn start_control(transport: T, index: u8, feature: u8, cid: u16) -> (lease: Result<
        Self,
        ControlError,
    >)
        requires
            link::accepts_reports(transport),
        ensures
            Self::started(transport, (Target { index, feature, cid }), None, lease),
    {
        Self::start_or_adopt(transport, index, feature, cid, None)
    }

    /// `unrestored` is this process's own recorded original from an earlier
    /// session whose restoration failed (typically a disconnect). If the device
    /// still shows exactly that state plus the divert bit, the diversion is
    /// adopted without writing. Any other preexisting diversion is refused.
    pub fn start_or_adopt(
        transport: T,
        index: u8,
        feature: u8,
        cid: u16,
        unrestored: Option<Reporting>,
    ) -> (lease: Result<Self, ControlError>)
        requires
            link::accepts_reports(transport),
        ensures
            Self::started(transport, (Target { index, feature, cid }), unrestored, lease),
    {
        let mut link = Link::new(transport, Target { index, feature, cid });
        match Self::take(&mut link, unrestored) {
            Ok(original) => Ok(Self { link, original }),
            Err(error) => {
                link.close();
                Err(error)
            },
        }
    }

    /// Takes the lease over a fresh link; the result is the original reporting.
    fn take(link: &mut Link<T>, unrestored: Option<Reporting>) -> (taken: Result<
        Reporting,
        ControlError,
    >)
        requires
            old(link).wf(),
            old(link).log() == Seq::<Exchange>::empty(),
        ensures
            final(link).extends(*old(link)),
            start_ends(
                old(link).transport(),
                old(link).target(),
                unrestored,
                final(link).log(),
                taken,
            ),
    {
        let cid = link.control();
        let ghost transport = link.transport();
        let ghost target = link.target();
        let current = match link.examine() {
            Err(error) => {
                return Err(error);
            },
            Ok(current) => current,
        };
        let ghost seen = link.log();
        if current.flags & CLAIMED != 0 {
            if let Some(previous) = unrestored {
                let ours = Reporting { flags: previous.flags | 1, mapped_to: previous.mapped_to };
                if previous.flags & CLAIMED == 0 && current == ours {
                    return Ok(previous);
                }
            }
            let error = ControlError::AlreadyDiverted { cid, flags: current.flags };
            return Err(error);
        }
        // Restoration follows a failed write too: a timeout does not mean that the
        // device rejected it.

        let configured = link.configure(current);
        let ghost written = link.log();
        let ghost examined = conversation::examine(target, conversation::replies(seen), 0);
        let ghost configuration = conversation::configure(
            target,
            current,
            conversation::replies(written),
            seen.len(),
        );
        proof {
            examine_reads_its_own_replies(target, seen, written);
            conversation::asked_in_turn(
                seen,
                written,
                0,
                examined.requests,
                configuration.requests,
            );
        }
        match configured {
            Ok(()) => Ok(current),
            Err(cause) => {
                let restored = link.restore(current);
                let ghost log = link.log();
                proof {
                    conversation::asked_in_turn(
                        written,
                        log,
                        0,
                        examined.requests + configuration.requests,
                        conversation::restore(
                            target,
                            current,
                            conversation::replies(log),
                            written.len(),
                        ).requests,
                    );
                    assert(seen =~= log.subrange(0, seen.len() as int)) by {
                        assert(seen =~= written.subrange(0, seen.len() as int));
                        assert(written =~= log.subrange(0, written.len() as int));
                    }
                    examine_reads_its_own_replies(target, seen, log);
                    configure_reads_its_own_replies(target, current, written, log, seen.len());
                }
                let error = match restored {
                    Ok(()) => ControlError::RolledBack { cause: Box::new(cause), cid },
                    Err(restore) => ControlError::RollbackFailed {
                        cause: Box::new(cause),
                        restore: Box::new(restore),
                    },
                };
                Err(error)
            },
        }
    }

    pub fn original(&self) -> (original: Reporting)
        ensures
            original == self.baseline(),
    {
        self.original
    }

    pub fn control(&self) -> (cid: u16)
        ensures
            cid == self.target().cid,
    {
        self.link.control()
    }

    /// The outcome of giving the lease back, with all exchanges that were made: after
    /// those of the lease only those of the restoration.
    pub open spec fn finished(self, done: Result<(), ControlError>) -> bool {
        exists|log: Seq<Exchange>| #[trigger]
            link::closed_with(self.transport(), log) && restore_ends(
                self.transport(),
                self.target(),
                self.baseline(),
                self.log(),
                log,
                done,
            )
    }

    /// Restores the control and verifies it by readback.
    pub fn finish(self) -> (done: Result<(), ControlError>)
        ensures
            self.finished(done),
    {
        proof {
            use_type_invariant(&self);
        }
        let mut link = self.link;
        let done = link.restore(self.original);
        assert(restore_ends(
            self.transport(),
            self.target(),
            self.baseline(),
            self.log(),
            link.log(),
            done,
        ));
        link.close();
        done
    }

    /// The outcome of an explicit recovery, with all exchanges that were made.
    pub open spec fn recovered(
        transport: T,
        target: Target,
        done: Result<(), ControlError>,
    ) -> bool {
        exists|log: Seq<Exchange>| #[trigger]
            link::closed_with(transport, log) && recover_ends(transport, target, log, done)
    }

    /// Explicit recovery only when a saved pre-session query proves default top
    /// settings. Never called by normal connection or automatic cleanup.
    pub fn recover_default(transport: T, index: u8, feature: u8) -> (done: Result<
        (),
        ControlError,
    >)
        requires
            link::accepts_reports(transport),
        ensures
            Self::recovered(transport, (Target { index, feature, cid: TOP_HOLD }), done),
    {
        Self::recover_default_control(transport, index, feature, TOP_HOLD)
    }

    /// Same explicit recovery for any control whose documented pre-session
    /// state was flags 0000 and a mapping to itself.
    pub fn recover_default_control(transport: T, index: u8, feature: u8, cid: u16) -> (done: Result<
        (),
        ControlError,
    >)
        requires
            link::accepts_reports(transport),
        ensures
            Self::recovered(transport, (Target { index, feature, cid }), done),
    {
        let mut link = Link::new(transport, Target { index, feature, cid });
        let done = Self::recover(&mut link);
        link.close();
        done
    }

    /// Recovers the control of a fresh link.
    fn recover(link: &mut Link<T>) -> (done: Result<(), ControlError>)
        requires
            old(link).wf(),
            old(link).log() == Seq::<Exchange>::empty(),
        ensures
            final(link).extends(*old(link)),
            recover_ends(old(link).transport(), old(link).target(), final(link).log(), done),
    {
        let cid = link.control();
        let ghost target = link.target();
        let current = match link.read_reporting(SOFTWARE_ID) {
            Err(error) => {
                return Err(error);
            },
            Ok(current) => current,
        };
        if current.flags & 0xfffe != 0 || current.mapped_to != cid {
            let error = ControlError::RecoveryRefused { cid };
            return Err(error);
        }
        if current.flags == 0 {
            return Ok(());
        }
        let ghost seen = link.log();
        let done = link.restore(Reporting { flags: 0, mapped_to: cid });
        proof {
            let log = link.log();
            conversation::asked_in_turn(
                seen,
                log,
                0,
                seq![conversation::reporting_request(target, SOFTWARE_ID)],
                conversation::restore(
                    target,
                    conversation::default_reporting(cid),
                    conversation::replies(log),
                    1,
                ).requests,
            );
            assert(conversation::replies(log)[0] == conversation::replies(seen)[0]);
        }
        done
    }
}

/// Examination reads no reply beyond those to its own requests.
proof fn examine_reads_its_own_replies(target: Target, seen: Seq<Exchange>, log: Seq<Exchange>)
    requires
        seen.is_prefix_of(log),
        conversation::follows(
            seen,
            0,
            conversation::examine(target, conversation::replies(seen), 0),
        ),
    ensures
        conversation::examine(target, conversation::replies(log), 0) == conversation::examine(
            target,
            conversation::replies(seen),
            0,
        ),
{
    let first = conversation::replies(seen);
    let second = conversation::replies(log);
    let outcome = conversation::examine(target, first, 0);
    assert forall|i: int| 0 <= i < seen.len() implies first[i] == #[trigger] second[i] by {
        assert(log.subrange(0, seen.len() as int)[i] == log[i]);
    }
    assert(outcome.requests.len() >= 1) by {
        assert(outcome.requests[0] == conversation::count_request(target));
    }
    assert(first[0] == second[0]);
    if let Ok(reply) = first[0] {
        let count = protocol::payload_of(reply@)[0];
        if !(count > 32) {
            let found = conversation::survey(target, count as nat, 0, first, 1);
            assert(outcome.requests.len() >= 1 + found.requests.len());
            conversation::survey_reads_its_own_replies(target, count as nat, 0, first, second, 1);
            if found.result == Ok::<bool, ControlError>(true) {
                let place = 1 + found.requests.len();
                assert(outcome.requests.len() == place + 1);
                assert(first[place as int] == second[place as int]);
            }
        }
    }
}

/// Configuration reads no reply beyond those to its own requests.
proof fn configure_reads_its_own_replies(
    target: Target,
    original: Reporting,
    written: Seq<Exchange>,
    log: Seq<Exchange>,
    at: nat,
)
    requires
        written.is_prefix_of(log),
        conversation::follows(
            written,
            at,
            conversation::configure(target, original, conversation::replies(written), at),
        ),
    ensures
        conversation::configure(target, original, conversation::replies(log), at)
            == conversation::configure(target, original, conversation::replies(written), at),
{
    let first = conversation::replies(written);
    let second = conversation::replies(log);
    assert forall|i: int| 0 <= i < written.len() implies first[i] == #[trigger] second[i] by {
        assert(log.subrange(0, written.len() as int)[i] == log[i]);
    }
    let outcome = conversation::configure(target, original, first, at);
    assert(outcome.requests.len() >= 1) by {
        assert(outcome.requests[0] == conversation::divert_request(target, true, SOFTWARE_ID));
    }
    assert(first[at as int] == second[at as int]);
    if conversation::set_divert(target, true, SOFTWARE_ID, first, at).result is Ok {
        assert(outcome.requests.len() == 2);
        assert(first[at + 1int] == second[at + 1int]);
    }
}

/// A capability reply about another control: the survey goes on.
spec fn passes_over(target: Target, reply: Reply) -> bool {
    match reply {
        Err(_) => false,
        Ok(reply) => protocol::payload_of(reply@).len() >= 9 && protocol::payload_of(reply@).take(2)
            != cid_bytes(target.cid),
    }
}

/// A survey whose log passes over every control before `end` asks for each of
/// them, and ends at `end` with what the reply there says.
proof fn survey_stops(
    target: Target,
    count: nat,
    position: nat,
    end: nat,
    log: Seq<Exchange>,
    at: nat,
)
    requires
        position <= end <= count <= 32,
        forall|i: int|
            at <= i < at + (end - position) ==> passes_over(target, (#[trigger] log[i]).reply),
        end < count ==> !passes_over(target, log[at + (end - position)].reply),
        log.len() == at + (end - position) + (if end < count {
            1int
        } else {
            0
        }),
    ensures
        ({
            let outcome = conversation::survey(
                target,
                count,
                position,
                conversation::replies(log),
                at,
            );
            &&& outcome.requests.len() == log.len() - at
            &&& forall|i: int|
                0 <= i < outcome.requests.len() ==> #[trigger] outcome.requests[i]
                    == conversation::info_request(target, (position + i) as nat)
            &&& outcome.result == (if end < count {
                match log[at + (end - position)].reply {
                    Err(error) => Err(error),
                    Ok(reply) => {
                        let p = protocol::payload_of(reply@);
                        if p.len() < 9 {
                            Err(ControlError::TruncatedCapability)
                        } else {
                            Ok(p[4] & 0x20 != 0)
                        }
                    },
                }
            } else {
                Ok(false)
            })
        }),
    decreases end - position,
{
    if position < end {
        assert(passes_over(target, log[at as int].reply));
        survey_stops(target, count, position + 1, end, log, at + 1);
        let rest = conversation::survey(
            target,
            count,
            position + 1,
            conversation::replies(log),
            at + 1,
        );
        let outcome = conversation::survey(target, count, position, conversation::replies(log), at);
        assert(outcome.requests =~= seq![conversation::info_request(target, position)]
            + rest.requests);
        assert forall|i: int| 0 <= i < outcome.requests.len() implies #[trigger] outcome.requests[i]
            == conversation::info_request(target, (position + i) as nat) by {
            if i > 0 {
                assert(rest.requests[i - 1] == conversation::info_request(
                    target,
                    (position + 1 + (i - 1)) as nat,
                ));
            }
        }
    }
}

fn starts_with(data: &[u8], prefix: &[u8]) -> (starts: bool)
    ensures
        starts == prefix@.is_prefix_of(data@),
{
    if data.len() < prefix.len() {
        return false;
    }
    for i in 0..prefix.len()
        invariant
            prefix@.len() <= data@.len(),
            forall|j: int| 0 <= j < i ==> data@[j] == prefix@[j],
    {
        if data[i] != prefix[i] {
            assert(data@.subrange(0, prefix@.len() as int)[i as int] == data@[i as int]);
            return false;
        }
    }
    assert(data@.subrange(0, prefix@.len() as int) =~= prefix@);
    true
}

fn all_zero(data: &[u8]) -> (zero: bool)
    ensures
        zero == (forall|i: int| 0 <= i < data@.len() ==> data@[i] == 0),
{
    for i in 0..data.len()
        invariant
            forall|j: int| 0 <= j < i ==> data@[j] == 0,
    {
        if data[i] != 0 {
            return false;
        }
    }
    true
}

/// The controls and the marks of the protocol.
pub proof fn controls_have_these_numbers(cid: u16)
    ensures
        TOP_HOLD == 0x00d8 && SWITCH_HIGHLIGHT == 0x00df && NEXT_HOLD == 0x00da && BACK_HOLD
            == 0x00dc,
        RESTORE_ID == 0x0b && SOFTWARE_ID == 0x0a,
        CLAIMED == 0x15,
        cid_bytes(cid).len() == 2,
        256 * cid_bytes(cid)[0] + cid_bytes(cid)[1] == cid,
        word(cid_bytes(cid)[0], cid_bytes(cid)[1]) == cid,
{
}

/// Words are read with the high byte first.
pub proof fn words_are_big_endian(high: u8, low: u8)
    ensures
        word(high, low) == 256 * high + low,
        word(high, low) / 256 == high,
        word(high, low) % 256 == low,
{
}

/// A long reporting reply names its control in the first two bytes of the payload, the low
/// flags in the third, the mapping in the next two, zero meaning the control itself, and
/// the high flags in the sixth. One that names another control, and every short one, is a
/// mismatch.
pub proof fn reporting_stands_in_these_bytes(reply: Seq<u8>, cid: u16)
    requires
        protocol::is_report(reply),
    ensures
        reply.len() == 20 && 256 * reply[4] + reply[5] == cid ==> (reporting_of(reply, cid) matches Ok(
            reporting,
        ) && reporting.flags == 256 * reply[9] + reply[6] && reporting.mapped_to == (if reply[7] == 0
            && reply[8] == 0 {
            cid as int
        } else {
            256 * reply[7] + reply[8]
        })),
        reply.len() == 7 || 256 * reply[4] + reply[5] != cid ==> reporting_of(reply, cid) == Err::<
            Reporting,
            ControlError,
        >(ControlError::ReportingMismatch { cid }),
{
    let p = protocol::payload_of(reply);
    if p.len() >= 5 {
        let two = p.take(2);
        assert(two.len() == 2 && two[0] == reply[4] && two[1] == reply[5]);
        if 256 * reply[4] + reply[5] == cid {
            assert(two =~= cid_bytes(cid));
        } else {
            assert(two != cid_bytes(cid)) by {
                if two == cid_bytes(cid) {
                    assert(two[0] == (cid / 256) as u8 && two[1] == (cid % 256) as u8);
                }
            }
        }
        assert(p[2] == reply[6] && p[3] == reply[7] && p[4] == reply[8]);
        if reply.len() == 20 {
            assert(p[5] == reply[9]);
        }
    }
}

/// A button notification is a long report from the notification address about the feature
/// whose fourth byte is zero, and nothing else is.
pub proof fn notifications_stand_in_these_bytes(report: Seq<u8>, address: u8, feature: u8)
    requires
        protocol::is_report(report),
    ensures
        is_button_event(report, address, feature) <==> report.len() == 20 && report[1] == address
            && report[2] == feature && report[3] == 0,
{
}

/// A control is held exactly when one of the four words of a notification names it; zero
/// names none.
pub proof fn a_notification_lists_what_is_held(payload: Seq<u8>, cid: u16)
    requires
        payload.len() >= 8,
    ensures
        held_controls(payload).contains(cid) <==> cid != 0 && (256 * payload[0] + payload[1] == cid
            || 256 * payload[2] + payload[3] == cid || 256 * payload[4] + payload[5] == cid || 256
            * payload[6] + payload[7] == cid),
        held_controls(payload).len() <= 4,
{
    let words = seq![
        word(payload[0], payload[1]),
        word(payload[2], payload[3]),
        word(payload[4], payload[5]),
        word(payload[6], payload[7]),
    ];
    let keep = |cid: u16| cid != 0;
    reveal(Seq::filter);
    let w1 = words.drop_last();
    let w2 = w1.drop_last();
    let w3 = w2.drop_last();
    let w4 = w3.drop_last();
    assert(w4 =~= Seq::empty());
    let f4 = w4.filter(keep);
    assert(f4 =~= Seq::empty());
    let f3 = w3.filter(keep);
    let f2 = w2.filter(keep);
    let f1 = w1.filter(keep);
    let f0 = words.filter(keep);
    kept_with_the_last(f4, f3, words[0], cid);
    kept_with_the_last(f3, f2, words[1], cid);
    kept_with_the_last(f2, f1, words[2], cid);
    kept_with_the_last(f1, f0, words[3], cid);
}

proof fn kept_with_the_last(front: Seq<u16>, all: Seq<u16>, last: u16, cid: u16)
    requires
        all == if last != 0 {
            front.push(last)
        } else {
            front
        },
    ensures
        all.contains(cid) <==> front.contains(cid) || (last != 0 && last == cid),
{
    if last != 0 {
        if front.contains(cid) {
            let i = choose|i: int| 0 <= i < front.len() && front[i] == cid;
            assert(all[i] == cid);
        }
        if last == cid {
            assert(all[all.len() - 1] == cid);
        }
        if all.contains(cid) && last != cid {
            let i = choose|i: int| 0 <= i < all.len() && all[i] == cid;
            assert(front[i] == cid);
        }
    }
}

} // verus!
