//! What a lease on a control says to the device, as a function of the replies.
//!
//! A conversation is a sequence of exchanges, each a request and what the
//! transport returned for it. The functions below give, for the replies that
//! came, the requests that are sent and how the operation ends.
use crate::controls::{self, ControlError, Reporting, CLAIMED, RESTORE_ID};
use crate::protocol::{self, Report, SOFTWARE_ID};
use vstd::prelude::*;

verus! {

/// What the transport returned for one request.
pub type Reply = Result<Report, ControlError>;

/// One request and what the transport returned for it.
pub struct Exchange {
    pub request: Report,
    pub reply: Reply,
}

/// The control that a conversation is about.
#[derive(Debug, Clone, Copy, PartialEq, Eq, Structural)]
pub struct Target {
    pub index: u8,
    pub feature: u8,
    pub cid: u16,
}

/// The requests of an operation and how it ends.
pub struct Outcome<A> {
    pub requests: Seq<Seq<u8>>,
    pub result: Result<A, ControlError>,
}

pub open spec fn replies(log: Seq<Exchange>) -> Seq<Reply> {
    Seq::new(log.len(), |i: int| log[i].reply)
}

/// From position `at` on, the log holds exactly these requests.
pub open spec fn asked(log: Seq<Exchange>, at: nat, requests: Seq<Seq<u8>>) -> bool {
    &&& log.len() == at + requests.len()
    &&& forall|i: int|
        at <= i < log.len() ==> (#[trigger] log[i]).request@ == requests[i - at]
}

/// From position `at` on, the log holds exactly the requests of the outcome.
pub open spec fn follows<A>(log: Seq<Exchange>, at: nat, outcome: Outcome<A>) -> bool {
    asked(log, at, outcome.requests)
}

/// Requests asked one after the other are asked together.
pub proof fn asked_in_turn(
    earlier: Seq<Exchange>,
    log: Seq<Exchange>,
    at: nat,
    first: Seq<Seq<u8>>,
    second: Seq<Seq<u8>>,
)
    requires
        earlier.is_prefix_of(log),
        asked(earlier, at, first),
        asked(log, at + first.len(), second),
    ensures
        asked(log, at, first + second),
        forall|i: int|
            0 <= i < earlier.len() ==> replies(log)[i] == #[trigger] replies(earlier)[i],
{
    assert forall|i: int| 0 <= i < earlier.len() implies log[i] == #[trigger] earlier[i] by {
        assert(log.subrange(0, earlier.len() as int)[i] == log[i]);
    }
    assert forall|i: int| 0 <= i < earlier.len() implies replies(log)[i] == #[trigger] replies(
        earlier,
    )[i] by {
        assert(log[i] == earlier[i]);
    }
    assert forall|i: int| at <= i < log.len() implies (#[trigger] log[i]).request@ == (first
        + second)[i - at] by {
        if i < earlier.len() {
            assert(earlier[i].request@ == first[i - at]);
        }
    }
}

/// An operation of one request.
pub open spec fn single<A>(request: Seq<u8>, result: Result<A, ControlError>) -> Outcome<A> {
    Outcome { requests: seq![request], result }
}

/// More requests before those of an outcome.
pub open spec fn after<A>(requests: Seq<Seq<u8>>, outcome: Outcome<A>) -> Outcome<A> {
    Outcome { requests: requests + outcome.requests, result: outcome.result }
}

pub open spec fn control_request(
    target: Target,
    function: u8,
    software_id: u8,
    payload: Seq<u8>,
) -> Seq<u8> {
    protocol::request_bytes(target.index, target.feature, function, software_id, payload)
}

/// getCount: how many controls the device lists.
pub open spec fn count_request(target: Target) -> Seq<u8> {
    control_request(target, 0, SOFTWARE_ID, Seq::empty())
}

/// getControlInfo for one position.
pub open spec fn info_request(target: Target, position: nat) -> Seq<u8> {
    control_request(target, 1, SOFTWARE_ID, seq![position as u8])
}

/// getCidReporting.
pub open spec fn reporting_request(target: Target, software_id: u8) -> Seq<u8> {
    control_request(target, 2, software_id, controls::cid_bytes(target.cid))
}

/// setCidReporting with the temporary divert bit marked valid and nothing else:
/// the other validity bits and the mapping are zero, which means unchanged.
pub open spec fn divert_payload(cid: u16, enabled: bool) -> Seq<u8> {
    controls::cid_bytes(cid) + seq![
        if enabled {
            3u8
        } else {
            2u8
        },
        0u8,
        0u8,
    ]
}

pub open spec fn divert_request(target: Target, enabled: bool, software_id: u8) -> Seq<u8> {
    control_request(target, 3, software_id, divert_payload(target.cid, enabled))
}

/// Looks for the target among the listed controls from `position` on; the result
/// says whether it was found and can be diverted.
pub open spec fn survey(
    target: Target,
    count: nat,
    position: nat,
    replies: Seq<Reply>,
    at: nat,
) -> Outcome<bool>
    decreases count - position,
{
    if position >= count {
        Outcome { requests: Seq::empty(), result: Ok(false) }
    } else {
        let request = info_request(target, position);
        match replies[at as int] {
            Err(error) => single(request, Err(error)),
            Ok(reply) => {
                let p = protocol::payload_of(reply@);
                if p.len() < 9 {
                    single(request, Err(ControlError::TruncatedCapability))
                } else if p.take(2) == controls::cid_bytes(target.cid) {
                    single(request, Ok(p[4] & 0x20 != 0))
                } else {
                    after(seq![request], survey(target, count, position + 1, replies, at + 1))
                }
            },
        }
    }
}

pub open spec fn read_reporting(
    target: Target,
    software_id: u8,
    replies: Seq<Reply>,
    at: nat,
) -> Outcome<Reporting> {
    single(
        reporting_request(target, software_id),
        match replies[at as int] {
            Err(error) => Err(error),
            Ok(reply) => controls::reporting_of(reply@, target.cid),
        },
    )
}

/// The device acknowledges a write by an echo of the payload or by zeros.
pub open spec fn acknowledges(reply: Seq<u8>, payload: Seq<u8>) -> bool {
    ||| payload.is_prefix_of(protocol::payload_of(reply))
    ||| forall|i: int| 0 <= i < protocol::payload_of(reply).len() ==> protocol::payload_of(reply)[i] == 0
}

pub open spec fn set_divert(
    target: Target,
    enabled: bool,
    software_id: u8,
    replies: Seq<Reply>,
    at: nat,
) -> Outcome<()> {
    single(
        divert_request(target, enabled, software_id),
        match replies[at as int] {
            Err(error) => Err(error),
            Ok(reply) => if acknowledges(reply@, divert_payload(target.cid, enabled)) {
                Ok(())
            } else {
                Err(ControlError::Acknowledgement)
            },
        },
    )
}

/// Verifies the control and its capability and reads its reporting; writes nothing.
pub open spec fn examine(target: Target, replies: Seq<Reply>, at: nat) -> Outcome<Reporting> {
    let request = count_request(target);
    match replies[at as int] {
        Err(error) => single(request, Err(error)),
        Ok(reply) => {
            let count = protocol::payload_of(reply@)[0];
            if count > 32 {
                single(request, Err(ControlError::ControlCount))
            } else {
                let found = survey(target, count as nat, 0, replies, at + 1);
                let requests = seq![request] + found.requests;
                match found.result {
                    Err(error) => Outcome { requests, result: Err(error) },
                    Ok(false) => Outcome {
                        requests,
                        result: Err(ControlError::NotDivertible { cid: target.cid }),
                    },
                    Ok(true) => after(
                        requests,
                        read_reporting(target, SOFTWARE_ID, replies, at + requests.len()),
                    ),
                }
            }
        },
    }
}

/// A reporting state with the temporary divert bit set.
pub open spec fn diverted(original: Reporting) -> Reporting {
    Reporting { flags: original.flags | 1, mapped_to: original.mapped_to }
}

/// Enables the temporary diversion and verifies it by readback.
pub open spec fn configure(
    target: Target,
    original: Reporting,
    replies: Seq<Reply>,
    at: nat,
) -> Outcome<()> {
    let write = set_divert(target, true, SOFTWARE_ID, replies, at);
    match write.result {
        Err(error) => write,
        Ok(()) => {
            let readback = read_reporting(target, SOFTWARE_ID, replies, at + 1);
            after(
                write.requests,
                Outcome {
                    requests: readback.requests,
                    result: match readback.result {
                        Err(error) => Err(error),
                        Ok(actual) => if actual == diverted(original) {
                            Ok(())
                        } else {
                            Err(ControlError::ReadbackMismatch { cid: target.cid, actual })
                        },
                    },
                },
            )
        },
    }
}

/// Writes the original divert bit back and verifies the whole state by readback.
pub open spec fn restore(
    target: Target,
    original: Reporting,
    replies: Seq<Reply>,
    at: nat,
) -> Outcome<()> {
    let write = set_divert(target, original.flags & 1 != 0, RESTORE_ID, replies, at);
    match write.result {
        Err(error) => write,
        Ok(()) => {
            let readback = read_reporting(target, RESTORE_ID, replies, at + 1);
            after(
                write.requests,
                Outcome {
                    requests: readback.requests,
                    result: match readback.result {
                        Err(error) => Err(error),
                        Ok(actual) => if actual == original {
                            Ok(())
                        } else {
                            Err(
                                ControlError::RestorationDiffers {
                                    cid: target.cid,
                                    original,
                                    actual,
                                },
                            )
                        },
                    },
                },
            )
        },
    }
}

/// A claimed control is this process's own leftover when an earlier session
/// recorded an unclaimed original and the device shows exactly that state with
/// the divert bit set.
pub open spec fn adoptable(current: Reporting, unrestored: Option<Reporting>) -> bool {
    match unrestored {
        Some(previous) => previous.flags & CLAIMED == 0 && current == diverted(previous),
        None => false,
    }
}

/// Takes the lease; the result is the original reporting to be restored.
pub open spec fn start(
    target: Target,
    unrestored: Option<Reporting>,
    replies: Seq<Reply>,
    at: nat,
) -> Outcome<Reporting> {
    let seen = examine(target, replies, at);
    match seen.result {
        Err(error) => seen,
        Ok(current) => if current.flags & CLAIMED != 0 {
            if adoptable(current, unrestored) {
                Outcome { requests: seen.requests, result: Ok(unrestored->0) }
            } else {
                Outcome {
                    requests: seen.requests,
                    result: Err(
                        ControlError::AlreadyDiverted { cid: target.cid, flags: current.flags },
                    ),
                }
            }
        } else {
            let configured = configure(target, current, replies, at + seen.requests.len());
            let requests = seen.requests + configured.requests;
            match configured.result {
                Ok(()) => Outcome { requests, result: Ok(current) },
                Err(cause) => {
                    let restored = restore(target, current, replies, at + requests.len());
                    Outcome {
                        requests: requests + restored.requests,
                        result: Err(
                            match restored.result {
                                Ok(()) => ControlError::RolledBack {
                                    cause: Box::new(cause),
                                    cid: target.cid,
                                },
                                Err(restore) => ControlError::RollbackFailed {
                                    cause: Box::new(cause),
                                    restore: Box::new(restore),
                                },
                            },
                        ),
                    }
                },
            }
        },
    }
}

/// The state that a control has before any session: no flags, mapped to itself.
pub open spec fn default_reporting(cid: u16) -> Reporting {
    Reporting { flags: 0, mapped_to: cid }
}

/// Explicit recovery of a control whose state before the interrupted session was
/// the default one.
pub open spec fn recover(target: Target, replies: Seq<Reply>, at: nat) -> Outcome<()> {
    let seen = read_reporting(target, SOFTWARE_ID, replies, at);
    match seen.result {
        Err(error) => Outcome { requests: seen.requests, result: Err(error) },
        Ok(current) => if current.flags & 0xfffe != 0 || current.mapped_to != target.cid {
            Outcome {
                requests: seen.requests,
                result: Err(ControlError::RecoveryRefused { cid: target.cid }),
            }
        } else if current.flags == 0 {
            Outcome { requests: seen.requests, result: Ok(()) }
        } else {
            after(
                seen.requests,
                restore(target, default_reporting(target.cid), replies, at + 1),
            )
        },
    }
}

/// A survey reads no reply beyond those to its own requests.
pub proof fn survey_reads_its_own_replies(
    target: Target,
    count: nat,
    position: nat,
    first: Seq<Reply>,
    second: Seq<Reply>,
    at: nat,
)
    requires
        forall|i: int|
            at <= i < at + survey(target, count, position, first, at).requests.len() ==> first[i]
                == #[trigger] second[i],
    ensures
        survey(target, count, position, second, at) == survey(target, count, position, first, at),
    decreases count - position,
{
    if position < count {
        let here = survey(target, count, position, first, at);
        assert(here.requests.len() >= 1) by {
            assert(here.requests[0] == info_request(target, position));
        }
        assert(first[at as int] == second[at as int]);
        if let Ok(reply) = first[at as int] {
            let p = protocol::payload_of(reply@);
            if !(p.len() < 9) && p.take(2) != controls::cid_bytes(target.cid) {
                let rest = survey(target, count, position + 1, first, at + 1);
                assert(here.requests.len() == 1 + rest.requests.len());
                survey_reads_its_own_replies(target, count, position + 1, first, second, at + 1);
            }
        }
    }
}

/// A diversion is enabled exactly when the device acknowledges the write and reads back with
/// the divert bit set, all else as it was; otherwise the first thing that went wrong is told.
/// The device is read back after an acknowledged write alone.
pub proof fn a_diversion_is_verified(
    target: Target,
    original: Reporting,
    replies: Seq<Reply>,
    at: nat,
)
    ensures
        ({
            let outcome = configure(target, original, replies, at);
            let write = divert_request(target, true, 0x0a);
            let read = reporting_request(target, 0x0a);
            match replies[at as int] {
                Err(error) => outcome.requests == seq![write] && outcome.result == Err::<
                    (),
                    ControlError,
                >(error),
                Ok(reply) => if !acknowledges(reply@, divert_payload(target.cid, true)) {
                    outcome.requests == seq![write] && outcome.result == Err::<(), ControlError>(
                        ControlError::Acknowledgement,
                    )
                } else {
                    &&& outcome.requests == seq![write, read]
                    &&& match replies[at + 1int] {
                        Err(error) => outcome.result == Err::<(), ControlError>(error),
                        Ok(reply) => match controls::reporting_of(reply@, target.cid) {
                            Err(error) => outcome.result == Err::<(), ControlError>(error),
                            Ok(actual) => {
                                &&& outcome.result is Ok <==> actual.mapped_to == original.mapped_to
                                    && actual.flags == original.flags | 1
                                &&& outcome.result is Err ==> outcome.result->Err_0
                                    == (ControlError::ReadbackMismatch { cid: target.cid, actual })
                            },
                        },
                    }
                },
            }
        }),
{
    let outcome = configure(target, original, replies, at);
    if outcome.requests.len() == 2 {
        assert(outcome.requests =~= seq![
            divert_request(target, true, 0x0a),
            reporting_request(target, 0x0a),
        ]);
    }
}

/// A control is restored exactly when the device acknowledges the write of its original bit
/// and reads back as it was before; otherwise the first thing that went wrong is told.
pub proof fn a_restoration_is_verified(
    target: Target,
    original: Reporting,
    replies: Seq<Reply>,
    at: nat,
)
    ensures
        ({
            let outcome = restore(target, original, replies, at);
            let bit = original.flags & 1 != 0;
            match replies[at as int] {
                Err(error) => outcome.result == Err::<(), ControlError>(error),
                Ok(reply) => if !acknowledges(reply@, divert_payload(target.cid, bit)) {
                    outcome.result == Err::<(), ControlError>(ControlError::Acknowledgement)
                } else {
                    match replies[at + 1int] {
                        Err(error) => outcome.result == Err::<(), ControlError>(error),
                        Ok(reply) => match controls::reporting_of(reply@, target.cid) {
                            Err(error) => outcome.result == Err::<(), ControlError>(error),
                            Ok(actual) => {
                                &&& outcome.result is Ok <==> actual.flags == original.flags
                                    && actual.mapped_to == original.mapped_to
                                &&& outcome.result is Err ==> outcome.result->Err_0
                                    == (ControlError::RestorationDiffers {
                                    cid: target.cid,
                                    original,
                                    actual,
                                })
                            },
                        },
                    }
                },
            }
        }),
{
}

/// A diversion that failed is undone at once: the requests of a restoration follow, and the
/// error tells the cause and whether the control is back as it was.
pub proof fn a_failed_diversion_is_undone(
    target: Target,
    unrestored: Option<Reporting>,
    replies: Seq<Reply>,
    at: nat,
    current: Reporting,
    cause: ControlError,
)
    requires
        examine(target, replies, at).result == Ok::<Reporting, ControlError>(current),
        current.flags & 0x15 == 0,
        configure(
            target,
            current,
            replies,
            at + examine(target, replies, at).requests.len(),
        ).result == Err::<(), ControlError>(cause),
    ensures
        ({
            let outcome = start(target, unrestored, replies, at);
            let begun = examine(target, replies, at).requests + configure(
                target,
                current,
                replies,
                at + examine(target, replies, at).requests.len(),
            ).requests;
            let undone = restore(target, current, replies, at + begun.len());
            &&& outcome.requests == begun + undone.requests
            &&& undone.result is Ok ==> outcome.result == Err::<Reporting, ControlError>(
                ControlError::RolledBack { cause: Box::new(cause), cid: target.cid },
            )
            &&& undone.result is Err ==> outcome.result == Err::<Reporting, ControlError>(
                ControlError::RollbackFailed {
                    cause: Box::new(cause),
                    restore: Box::new(undone.result->Err_0),
                },
            )
        }),
{
}

/// Recovery leaves a control alone that already has its default state, refuses one that has
/// another flag or another mapping, and clears the divert bit of any other.
pub proof fn recovery_clears_a_lone_divert_bit(
    target: Target,
    replies: Seq<Reply>,
    at: nat,
    current: Reporting,
)
    requires
        replies[at as int] matches Ok(reply) && controls::reporting_of(reply@, target.cid) == Ok::<
            Reporting,
            ControlError,
        >(current),
    ensures
        ({
            let outcome = recover(target, replies, at);
            let read = reporting_request(target, 0x0a);
            &&& current.flags > 1 || current.mapped_to != target.cid ==> outcome.requests == seq![
                read,
            ] && outcome.result == Err::<(), ControlError>(
                ControlError::RecoveryRefused { cid: target.cid },
            )
            &&& current.flags == 0 && current.mapped_to == target.cid ==> outcome.requests == seq![
                read,
            ] && outcome.result == Ok::<(), ControlError>(())
            &&& current.flags == 1 && current.mapped_to == target.cid ==> outcome.requests.len() > 1
                && outcome.requests[0] == read && outcome.requests[1] == divert_request(
                target,
                false,
                0x0b,
            )
        }),
{
    let flags = current.flags;
    assert(flags & 0xfffe == 0 <==> flags <= 1) by (bit_vector);
    assert(0u16 & 1 == 0) by (bit_vector);
}

/// What the transport fails with is told as it is, before anything else is asked.
pub proof fn failures_of_the_transport_are_told(
    target: Target,
    unrestored: Option<Reporting>,
    replies: Seq<Reply>,
    at: nat,
    error: ControlError,
)
    requires
        replies[at as int] == Err::<Report, ControlError>(error),
    ensures
        start(target, unrestored, replies, at).requests == seq![count_request(target)],
        start(target, unrestored, replies, at).result == Err::<Reporting, ControlError>(error),
        recover(target, replies, at).requests == seq![reporting_request(target, 0x0a)],
        recover(target, replies, at).result == Err::<(), ControlError>(error),
{
}

/// The divert bit is the lowest of the flags, and diverting sets no other.
pub proof fn diverting_sets_the_lowest_bit(original: Reporting)
    ensures
        original.flags % 2 == 0 ==> diverted(original).flags == original.flags + 1,
        original.flags % 2 == 1 ==> diverted(original).flags == original.flags,
        diverted(original).mapped_to == original.mapped_to,
        default_reporting(original.mapped_to) == (Reporting {
            flags: 0,
            mapped_to: original.mapped_to,
        }),
{
    let flags = original.flags;
    assert(flags % 2 == 0 ==> flags | 1 == flags + 1) by (bit_vector);
    assert(flags % 2 == 1 ==> flags | 1 == flags) by (bit_vector);
}

} // verus!
