//! What a lease does to a device: a model of the device's side of the
//! conversation, and what holds of every conversation with it.
use crate::controls::{self, ControlError, Reporting, TemporaryTopButton, CLAIMED, RESTORE_ID};
use crate::conversation::{self, Exchange, Reply, Target};
use crate::link;
use crate::protocol::{self, Report, ResponseKind, SOFTWARE_ID};
use vstd::prelude::*;

verus! {

/// A device that lists `count` controls, the target at `position`.
pub struct Device {
    pub count: nat,
    pub position: nat,
}

/// A request that reads, or that writes the temporary divert bit of the target
/// and nothing else.
pub open spec fn permitted(target: Target, request: Seq<u8>) -> bool {
    ||| request == conversation::count_request(target)
    ||| exists|position: nat|
        position < 32 && request == #[trigger] conversation::info_request(target, position)
    ||| exists|software_id: u8|
        1 <= software_id <= 15 && request == #[trigger] conversation::reporting_request(
            target,
            software_id,
        )
    ||| is_write(target, request)
}

/// A setCidReporting request for the target's temporary divert bit.
pub open spec fn is_write(target: Target, request: Seq<u8>) -> bool {
    ||| request == conversation::divert_request(target, true, SOFTWARE_ID)
    ||| request == conversation::divert_request(target, true, RESTORE_ID)
    ||| request == conversation::divert_request(target, false, SOFTWARE_ID)
    ||| request == conversation::divert_request(target, false, RESTORE_ID)
}

/// The reporting state after a request: only a write changes it, and only its
/// temporary divert bit.
pub open spec fn applied(state: Reporting, request: Seq<u8>) -> Reporting {
    if protocol::function_of(request) == 3 {
        if protocol::payload_of(request)[2] & 1 != 0 {
            conversation::diverted(state)
        } else {
            Reporting { flags: state.flags & 0xfffe, mapped_to: state.mapped_to }
        }
    } else {
        state
    }
}

/// The reporting state after some requests.
pub open spec fn state_after(state: Reporting, requests: Seq<Seq<u8>>) -> Reporting
    decreases requests.len(),
{
    if requests.len() == 0 {
        state
    } else {
        applied(state_after(state, requests.drop_last()), requests.last())
    }
}

/// A reply of a device that works: it lists the target once, as divertible, tells
/// its reporting state, and acknowledges writes.
pub open spec fn answered(
    device: Device,
    target: Target,
    state: Reporting,
    request: Seq<u8>,
    reply: Reply,
) -> bool {
    match reply {
        Err(_) => false,
        Ok(reply) => {
            let p = protocol::payload_of(reply@);
            let function = protocol::function_of(request);
            let position = protocol::payload_of(request)[0];
            &&& function == 0 ==> p[0] == device.count
            &&& function == 1 ==> {
                &&& p.len() >= 9
                &&& p.take(2) == controls::cid_bytes(target.cid) <==> position == device.position
                &&& position == device.position ==> p[4] & 0x20 != 0
            }
            &&& function == 2 ==> controls::reporting_of(reply@, target.cid)
                == Ok::<Reporting, ControlError>(state)
            &&& function == 3 ==> conversation::acknowledges(
                reply@,
                protocol::payload_of(request).take(5),
            )
        },
    }
}

/// From position `at` on, a working device in `state` gave these replies to these
/// requests.
pub open spec fn obeys(
    device: Device,
    target: Target,
    state: Reporting,
    requests: Seq<Seq<u8>>,
    replies: Seq<Reply>,
    at: nat,
) -> bool {
    forall|i: int|
        at <= i < at + requests.len() ==> answered(
            device,
            target,
            state_after(state, requests.take(i - at)),
            requests[i - at],
            #[trigger] replies[i],
        )
}

proof fn requests_are_readable(target: Target, software_id: u8, enabled: bool, position: nat)
    requires
        1 <= software_id <= 15,
        position < 32,
    ensures
        protocol::function_of(conversation::count_request(target)) == 0,
        protocol::software_id_of(conversation::count_request(target)) == SOFTWARE_ID,
        protocol::function_of(conversation::info_request(target, position)) == 1,
        protocol::software_id_of(conversation::info_request(target, position)) == SOFTWARE_ID,
        protocol::payload_of(conversation::info_request(target, position))[0] == position,
        protocol::function_of(conversation::reporting_request(target, software_id)) == 2,
        protocol::software_id_of(conversation::reporting_request(target, software_id))
            == software_id,
        protocol::function_of(conversation::divert_request(target, enabled, software_id)) == 3,
        protocol::software_id_of(conversation::divert_request(target, enabled, software_id))
            == software_id,
        protocol::payload_of(conversation::divert_request(target, enabled, software_id)).take(5)
            == conversation::divert_payload(target.cid, enabled),
        (protocol::payload_of(conversation::divert_request(target, enabled, software_id))[2] & 1
            != 0) == enabled,
{
    protocol::request_keeps_its_fields(
        target.index,
        target.feature,
        0,
        SOFTWARE_ID,
        Seq::empty(),
    );
    protocol::request_keeps_its_fields(
        target.index,
        target.feature,
        1,
        SOFTWARE_ID,
        seq![position as u8],
    );
    protocol::request_keeps_its_fields(
        target.index,
        target.feature,
        2,
        software_id,
        controls::cid_bytes(target.cid),
    );
    let payload = conversation::divert_payload(target.cid, enabled);
    protocol::request_keeps_its_fields(target.index, target.feature, 3, software_id, payload);
    let sent = protocol::payload_of(conversation::divert_request(target, enabled, software_id));
    assert(sent.take(5) =~= payload);
    assert(sent[2] == payload[2]);
    assert(3u8 & 1 != 0 && 2u8 & 1 == 0) by (bit_vector);
}

proof fn survey_is_permitted(
    target: Target,
    count: nat,
    position: nat,
    replies: Seq<Reply>,
    at: nat,
)
    requires
        count <= 32,
    ensures
        ({
            let requests = conversation::survey(target, count, position, replies, at).requests;
            forall|i: int|
                0 <= i < requests.len() ==> {
                    &&& permitted(target, #[trigger] requests[i])
                    &&& protocol::function_of(requests[i]) == 1
                    &&& protocol::software_id_of(requests[i]) == SOFTWARE_ID
                }
        }),
    decreases count - position,
{
    if position < count {
        requests_are_readable(target, SOFTWARE_ID, true, position);
        assert(permitted(target, conversation::info_request(target, position)));
        survey_is_permitted(target, count, position + 1, replies, at + 1);
    }
}

proof fn examine_is_permitted(target: Target, replies: Seq<Reply>, at: nat)
    ensures
        ({
            let requests = conversation::examine(target, replies, at).requests;
            forall|i: int|
                0 <= i < requests.len() ==> {
                    &&& permitted(target, #[trigger] requests[i])
                    &&& protocol::function_of(requests[i]) < 3
                    &&& protocol::software_id_of(requests[i]) == SOFTWARE_ID
                }
        }),
{
    requests_are_readable(target, SOFTWARE_ID, true, 0);
    assert(permitted(target, conversation::reporting_request(target, SOFTWARE_ID)));
    if let Ok(reply) = replies[at as int] {
        let count = protocol::payload_of(reply@)[0];
        if count <= 32 {
            survey_is_permitted(target, count as nat, 0, replies, at + 1);
        }
    }
}

/// Restoration sends at most one write and one read, both under the restoration
/// software id, and the write carries the original divert bit.
pub proof fn restoration_writes_the_original_bit(
    target: Target,
    original: Reporting,
    replies: Seq<Reply>,
    at: nat,
)
    ensures
        ({
            let requests = conversation::restore(target, original, replies, at).requests;
            &&& 1 <= requests.len() <= 2
            &&& requests[0] == conversation::divert_request(
                target,
                original.flags & 1 != 0,
                RESTORE_ID,
            )
            &&& requests.len() == 2 ==> requests[1] == conversation::reporting_request(
                target,
                RESTORE_ID,
            )
            &&& forall|i: int|
                0 <= i < requests.len() ==> {
                    &&& permitted(target, #[trigger] requests[i])
                    &&& protocol::software_id_of(requests[i]) == RESTORE_ID
                }
        }),
{
    requests_are_readable(target, RESTORE_ID, original.flags & 1 != 0, 0);
    assert(permitted(target, conversation::reporting_request(target, RESTORE_ID)));
}

/// Taking a lease never sends anything but reads and writes of the temporary
/// divert bit of its own control: raw XY, persistent settings, mappings and other
/// controls are not modified.
pub proof fn a_lease_modifies_only_the_divert_bit(
    target: Target,
    unrestored: Option<Reporting>,
    replies: Seq<Reply>,
    at: nat,
)
    ensures
        ({
            let requests = conversation::start(target, unrestored, replies, at).requests;
            forall|i: int| 0 <= i < requests.len() ==> permitted(target, #[trigger] requests[i])
        }),
{
    examine_is_permitted(target, replies, at);
    requests_are_readable(target, SOFTWARE_ID, true, 0);
    let seen = conversation::examine(target, replies, at);
    assert(permitted(target, conversation::reporting_request(target, SOFTWARE_ID)));
    assert(permitted(target, conversation::divert_request(target, true, SOFTWARE_ID)));
    if let Ok(current) = seen.result {
        let configured = conversation::configure(
            target,
            current,
            replies,
            at + seen.requests.len(),
        );
        let requests = seen.requests + configured.requests;
        restoration_writes_the_original_bit(target, current, replies, at + requests.len());
    }
}

/// The same of an explicit recovery.
pub proof fn a_recovery_modifies_only_the_divert_bit(
    target: Target,
    replies: Seq<Reply>,
    at: nat,
)
    ensures
        ({
            let requests = conversation::recover(target, replies, at).requests;
            forall|i: int| 0 <= i < requests.len() ==> permitted(target, #[trigger] requests[i])
        }),
{
    assert(permitted(target, conversation::reporting_request(target, SOFTWARE_ID)));
    restoration_writes_the_original_bit(
        target,
        conversation::default_reporting(target.cid),
        replies,
        at + 1,
    );
}

/// A control that is diverted, persistently diverted or using raw XY is never
/// overwritten: unless the control was read as unclaimed, a start sends no write,
/// whether it adopts a leftover or refuses.
pub proof fn claimed_controls_are_never_overwritten(
    target: Target,
    unrestored: Option<Reporting>,
    replies: Seq<Reply>,
    at: nat,
)
    ensures
        ({
            let requests = conversation::start(target, unrestored, replies, at).requests;
            let seen = conversation::examine(target, replies, at).result;
            (exists|i: int|
                0 <= i < requests.len() && protocol::function_of(#[trigger] requests[i]) >= 3) ==> (
            seen matches Ok(current) && current.flags & CLAIMED == 0)
        }),
{
    examine_is_permitted(target, replies, at);
}

/// A recovery writes only when it read the divert bit alone set and the mapping
/// untouched; a control already in its default state is left alone.
pub proof fn recovery_writes_only_after_an_interrupted_default_session(
    target: Target,
    replies: Seq<Reply>,
    at: nat,
)
    ensures
        ({
            let requests = conversation::recover(target, replies, at).requests;
            let seen = conversation::read_reporting(target, SOFTWARE_ID, replies, at).result;
            (exists|i: int|
                0 <= i < requests.len() && protocol::function_of(#[trigger] requests[i]) >= 3) ==> (
            seen matches Ok(current) && current == conversation::diverted(
                conversation::default_reporting(target.cid),
            ))
        }),
{
    requests_are_readable(target, SOFTWARE_ID, true, 0);
    if let Ok(current) = conversation::read_reporting(target, SOFTWARE_ID, replies, at).result {
        let flags = current.flags;
        assert(flags & 0xfffe == 0 && flags != 0 ==> flags == 0u16 | 1) by (bit_vector);
    }
}

/// A successful restoration was verified: the last reply reads the original state.
pub proof fn restored_means_read_back(
    target: Target,
    original: Reporting,
    replies: Seq<Reply>,
    at: nat,
)
    requires
        conversation::restore(target, original, replies, at).result == Ok::<(), ControlError>(()),
    ensures
        replies[at + 1int] matches Ok(reply) && controls::reporting_of(reply@, target.cid) == Ok::<
            Reporting,
            ControlError,
        >(original),
{
}

/// A lease that was taken without adoption was verified: the control was read as
/// unclaimed, and the last reply reads that state with the divert bit set.
pub proof fn taken_means_read_back(
    target: Target,
    unrestored: Option<Reporting>,
    replies: Seq<Reply>,
    at: nat,
    original: Reporting,
)
    requires
        conversation::start(target, unrestored, replies, at).result == Ok::<
            Reporting,
            ControlError,
        >(original),
    ensures
        original.flags & CLAIMED == 0,
        ({
            let requests = conversation::start(target, unrestored, replies, at).requests;
            replies[at + requests.len() - 1] matches Ok(reply) && controls::reporting_of(
                reply@,
                target.cid,
            ) == Ok::<Reporting, ControlError>(conversation::diverted(original))
        }),
{
    let seen = conversation::examine(target, replies, at);
    let current = seen.result->Ok_0;
    if current.flags & CLAIMED != 0 {
        let count = protocol::payload_of(replies[at as int]->Ok_0@)[0];
        let found = conversation::survey(target, count as nat, 0, replies, at + 1);
        assert(seen.requests.len() == found.requests.len() + 2);
    } else {
        let configured = conversation::configure(
            target,
            current,
            replies,
            at + seen.requests.len(),
        );
        assert(configured.requests.len() == 2);
    }
}

/// A failed start either never wrote, or tried to restore; when it reports that
/// the original setting is back, the last reply reads it.
pub proof fn rolled_back_means_read_back(
    target: Target,
    unrestored: Option<Reporting>,
    replies: Seq<Reply>,
    at: nat,
)
    requires
        conversation::start(target, unrestored, replies, at).result matches Err(error)
            && error is RolledBack,
        conversation::examine(target, replies, at).result is Ok,
    ensures
        ({
            let requests = conversation::start(target, unrestored, replies, at).requests;
            let current = conversation::examine(target, replies, at).result->Ok_0;
            replies[at + requests.len() - 1] matches Ok(reply) && controls::reporting_of(
                reply@,
                target.cid,
            ) == Ok::<Reporting, ControlError>(current)
        }),
{
    let seen = conversation::examine(target, replies, at);
    let current = seen.result->Ok_0;
    let configured = conversation::configure(target, current, replies, at + seen.requests.len());
    let requests = seen.requests + configured.requests;
    let restored = conversation::restore(target, current, replies, at + requests.len());
    assert(restored.requests.len() == 2);
}

/// Whatever became of the enabling write, restoring on a working device succeeds
/// and leaves exactly the original state: flags, mapping and all.
pub proof fn restoration_returns_the_device_to_its_original_state(
    device: Device,
    target: Target,
    original: Reporting,
    state: Reporting,
    replies: Seq<Reply>,
    at: nat,
)
    requires
        original.flags & CLAIMED == 0,
        state == original || state == conversation::diverted(original),
        obeys(
            device,
            target,
            state,
            conversation::restore(target, original, replies, at).requests,
            replies,
            at,
        ),
    ensures
        conversation::restore(target, original, replies, at).result == Ok::<(), ControlError>(()),
        state_after(state, conversation::restore(target, original, replies, at).requests)
            == original,
{
    let flags = original.flags;
    assert(flags & 0x15 == 0 ==> flags & 1 == 0 && flags & 0xfffe == flags && (flags | 1) & 0xfffe
        == flags) by (bit_vector);
    requests_are_readable(target, RESTORE_ID, false, 0);
    let outcome = conversation::restore(target, original, replies, at);
    let requests = outcome.requests;
    let write = conversation::divert_request(target, false, RESTORE_ID);
    assert(requests[0] == write);
    assert(requests.take(0) =~= Seq::empty());
    assert(answered(device, target, state, write, replies[at + 0int]));
    assert(applied(state, write) == original);
    assert(requests =~= seq![write, conversation::reporting_request(target, RESTORE_ID)]);
    assert(requests.take(1) =~= seq![write]);
    assert(seq![write].drop_last() =~= Seq::empty());
    reveal_with_fuel(state_after, 3);
    assert(state_after(state, requests.take(1)) == original);
    assert(answered(device, target, original, requests[1], replies[at + 1int]));
    assert(requests.drop_last() =~= seq![write]);
}

proof fn reads_leave_the_state(state: Reporting, requests: Seq<Seq<u8>>)
    requires
        forall|i: int| 0 <= i < requests.len() ==> protocol::function_of(#[trigger] requests[i])
            < 3,
    ensures
        state_after(state, requests) == state,
    decreases requests.len(),
{
    if requests.len() > 0 {
        assert(protocol::function_of(requests[requests.len() - 1]) < 3);
        reads_leave_the_state(state, requests.drop_last());
    }
}

proof fn state_after_more(state: Reporting, first: Seq<Seq<u8>>, second: Seq<Seq<u8>>)
    ensures
        state_after(state, first + second) == state_after(state_after(state, first), second),
    decreases second.len(),
{
    if second.len() == 0 {
        assert(first + second =~= first);
    } else {
        assert((first + second).drop_last() =~= first + second.drop_last());
        state_after_more(state, first, second.drop_last());
    }
}

proof fn survey_finds_the_target(
    device: Device,
    target: Target,
    state: Reporting,
    position: nat,
    replies: Seq<Reply>,
    at: nat,
)
    requires
        position <= device.position < device.count <= 32,
        obeys(
            device,
            target,
            state,
            conversation::survey(target, device.count, position, replies, at).requests,
            replies,
            at,
        ),
    ensures
        conversation::survey(target, device.count, position, replies, at).result == Ok::<
            bool,
            ControlError,
        >(true),
    decreases device.position - position,
{
    let outcome = conversation::survey(target, device.count, position, replies, at);
    let requests = outcome.requests;
    requests_are_readable(target, SOFTWARE_ID, true, position);
    assert(requests[0] == conversation::info_request(target, position));
    assert(answered(
        device,
        target,
        state_after(state, requests.take(0)),
        requests[0],
        replies[at + 0int],
    ));
    if position < device.position {
        let rest = conversation::survey(target, device.count, position + 1, replies, at + 1);
        assert(requests =~= seq![conversation::info_request(target, position)] + rest.requests);
        survey_is_permitted(target, device.count, position, replies, at);
        survey_is_permitted(target, device.count, position + 1, replies, at + 1);
        assert forall|i: int| at + 1 <= i < at + 1 + rest.requests.len() implies answered(
            device,
            target,
            state_after(state, rest.requests.take(i - (at + 1))),
            rest.requests[i - (at + 1)],
            #[trigger] replies[i],
        ) by {
            assert(rest.requests[i - (at + 1)] == requests[i - at]);
            reads_leave_the_state(state, requests.take(i - at));
            reads_leave_the_state(state, rest.requests.take(i - (at + 1)));
        }
        survey_finds_the_target(device, target, state, position + 1, replies, at + 1);
    }
}

proof fn obeys_in_parts(
    device: Device,
    target: Target,
    state: Reporting,
    first: Seq<Seq<u8>>,
    second: Seq<Seq<u8>>,
    replies: Seq<Reply>,
    at: nat,
)
    requires
        obeys(device, target, state, first + second, replies, at),
    ensures
        obeys(device, target, state, first, replies, at),
        obeys(
            device,
            target,
            state_after(state, first),
            second,
            replies,
            at + first.len(),
        ),
{
    let all = first + second;
    let next = at + first.len();
    assert forall|i: int| at <= i < at + first.len() implies answered(
        device,
        target,
        state_after(state, first.take(i - at)),
        first[i - at],
        #[trigger] replies[i],
    ) by {
        assert(all[i - at] == first[i - at]);
        assert(all.take(i - at) =~= first.take(i - at));
    }
    assert forall|i: int| next <= i < next + second.len() implies answered(
        device,
        target,
        state_after(state_after(state, first), second.take(i - next)),
        second[i - next],
        #[trigger] replies[i],
    ) by {
        assert(all[i - at] == second[i - next]);
        assert(all.take(i - at) =~= first + second.take(i - next));
        state_after_more(state, first, second.take(i - next));
    }
}

proof fn a_working_device_is_examined(
    device: Device,
    target: Target,
    state: Reporting,
    replies: Seq<Reply>,
    at: nat,
)
    requires
        device.position < device.count <= 32,
        obeys(
            device,
            target,
            state,
            conversation::examine(target, replies, at).requests,
            replies,
            at,
        ),
    ensures
        conversation::examine(target, replies, at).result == Ok::<Reporting, ControlError>(state),
        state_after(state, conversation::examine(target, replies, at).requests) == state,
{
    let seen = conversation::examine(target, replies, at);
    examine_is_permitted(target, replies, at);
    requests_are_readable(target, SOFTWARE_ID, true, 0);
    reads_leave_the_state(state, seen.requests);
    let count = seq![conversation::count_request(target)];
    assert(seen.requests[0] == count[0]);
    assert(seen.requests =~= count + seen.requests.skip(1));
    obeys_in_parts(device, target, state, count, seen.requests.skip(1), replies, at);
    assert(answered(device, target, state_after(state, count.take(0)), count[0], replies[at + 0int]));
    reads_leave_the_state(state, count);
    let found = conversation::survey(target, device.count, 0, replies, at + 1);
    survey_is_permitted(target, device.count, 0, replies, at + 1);
    let rest = seen.requests.skip(1);
    let n = found.requests.len() as int;
    assert(rest =~= found.requests + rest.skip(n));
    obeys_in_parts(device, target, state, found.requests, rest.skip(n), replies, at + 1);
    survey_finds_the_target(device, target, state, 0, replies, at + 1);
    reads_leave_the_state(state, found.requests);
    let last = rest.skip(n);
    assert(last =~= seq![conversation::reporting_request(target, SOFTWARE_ID)]);
    assert(last.take(0) =~= Seq::empty());
    assert(answered(
        device,
        target,
        state_after(state, last.take(0)),
        last[0],
        replies[(at + 1 + n) + 0int],
    ));
}

proof fn a_working_device_is_configured(
    device: Device,
    target: Target,
    state: Reporting,
    replies: Seq<Reply>,
    at: nat,
)
    requires
        obeys(
            device,
            target,
            state,
            conversation::configure(target, state, replies, at).requests,
            replies,
            at,
        ),
    ensures
        conversation::configure(target, state, replies, at).result == Ok::<(), ControlError>(()),
        state_after(state, conversation::configure(target, state, replies, at).requests)
            == conversation::diverted(state),
{
    requests_are_readable(target, SOFTWARE_ID, true, 0);
    let requests = conversation::configure(target, state, replies, at).requests;
    let write = conversation::divert_request(target, true, SOFTWARE_ID);
    assert(requests[0] == write);
    assert(requests.take(0) =~= Seq::empty());
    assert(answered(device, target, state, write, replies[at + 0int]));
    assert(requests =~= seq![write, conversation::reporting_request(target, SOFTWARE_ID)]);
    assert(requests.take(1) =~= seq![write]);
    assert(seq![write].drop_last() =~= Seq::empty());
    reveal_with_fuel(state_after, 3);
    assert(state_after(state, requests.take(1)) == conversation::diverted(state));
    assert(answered(
        device,
        target,
        conversation::diverted(state),
        requests[1],
        replies[at + 1int],
    ));
    assert(requests.drop_last() =~= seq![write]);
}

/// On a working device whose control is unclaimed, taking a lease succeeds,
/// remembers the state it found, and leaves that state with the divert bit set.
pub proof fn a_working_device_grants_the_lease(
    device: Device,
    target: Target,
    unrestored: Option<Reporting>,
    state: Reporting,
    replies: Seq<Reply>,
    at: nat,
)
    requires
        device.position < device.count <= 32,
        state.flags & CLAIMED == 0,
        obeys(
            device,
            target,
            state,
            conversation::start(target, unrestored, replies, at).requests,
            replies,
            at,
        ),
    ensures
        conversation::start(target, unrestored, replies, at).result == Ok::<
            Reporting,
            ControlError,
        >(state),
        state_after(state, conversation::start(target, unrestored, replies, at).requests)
            == conversation::diverted(state),
{
    let requests = conversation::start(target, unrestored, replies, at).requests;
    let seen = conversation::examine(target, replies, at);
    let n = seen.requests.len() as int;
    assert(requests =~= seen.requests + requests.skip(n));
    obeys_in_parts(device, target, state, seen.requests, requests.skip(n), replies, at);
    a_working_device_is_examined(device, target, state, replies, at);
    let configured = conversation::configure(target, state, replies, at + seen.requests.len());
    let rest = requests.skip(n);
    let m = configured.requests.len() as int;
    assert(rest =~= configured.requests + rest.skip(m));
    obeys_in_parts(
        device,
        target,
        state,
        configured.requests,
        rest.skip(m),
        replies,
        at + seen.requests.len(),
    );
    a_working_device_is_configured(device, target, state, replies, at + seen.requests.len());
    assert(requests =~= seen.requests + configured.requests);
    state_after_more(state, seen.requests, configured.requests);
}

/// On a working device whose control is claimed, nothing is written: a leftover of
/// this process is adopted, with the recorded original to restore, and anything
/// else is refused. Either way the device keeps its state.
pub proof fn a_claimed_control_is_adopted_or_refused(
    device: Device,
    target: Target,
    unrestored: Option<Reporting>,
    state: Reporting,
    replies: Seq<Reply>,
    at: nat,
)
    requires
        device.position < device.count <= 32,
        state.flags & CLAIMED != 0,
        obeys(
            device,
            target,
            state,
            conversation::start(target, unrestored, replies, at).requests,
            replies,
            at,
        ),
    ensures
        conversation::start(target, unrestored, replies, at).result == (
        if conversation::adoptable(state, unrestored) {
            Ok::<Reporting, ControlError>(unrestored->0)
        } else {
            Err(ControlError::AlreadyDiverted { cid: target.cid, flags: state.flags })
        }),
        state_after(state, conversation::start(target, unrestored, replies, at).requests) == state,
{
    let requests = conversation::start(target, unrestored, replies, at).requests;
    let seen = conversation::examine(target, replies, at);
    let n = seen.requests.len() as int;
    assert(requests =~= seen.requests + requests.skip(n));
    obeys_in_parts(device, target, state, seen.requests, requests.skip(n), replies, at);
    a_working_device_is_examined(device, target, state, replies, at);
}

/// On a working device, explicit recovery undoes an interrupted default session,
/// leaves a default control alone, and refuses any other state without a write.
pub proof fn recovery_undoes_an_interrupted_default_session(
    device: Device,
    target: Target,
    state: Reporting,
    replies: Seq<Reply>,
    at: nat,
)
    requires
        obeys(
            device,
            target,
            state,
            conversation::recover(target, replies, at).requests,
            replies,
            at,
        ),
    ensures
        ({
            let outcome = conversation::recover(target, replies, at);
            let default = conversation::default_reporting(target.cid);
            if state == default || state == conversation::diverted(default) {
                outcome.result == Ok::<(), ControlError>(()) && state_after(state, outcome.requests)
                    == default
            } else {
                outcome.result == Err::<(), ControlError>(
                    ControlError::RecoveryRefused { cid: target.cid },
                ) && state_after(state, outcome.requests) == state
            }
        }),
{
    requests_are_readable(target, SOFTWARE_ID, true, 0);
    let outcome = conversation::recover(target, replies, at);
    let default = conversation::default_reporting(target.cid);
    let read = seq![conversation::reporting_request(target, SOFTWARE_ID)];
    assert(outcome.requests[0] == read[0]);
    assert(outcome.requests =~= read + outcome.requests.skip(1));
    obeys_in_parts(device, target, state, read, outcome.requests.skip(1), replies, at);
    reads_leave_the_state(state, read);
    assert(answered(
        device,
        target,
        state_after(state, read.take(0)),
        read[0],
        replies[at + 0int],
    ));
    let flags = state.flags;
    assert(flags & 0xfffe == 0 ==> flags == 0 || flags == 0u16 | 1) by (bit_vector);
    assert((0u16 | 1) & 0xfffe == 0 && 0u16 & 0xfffe == 0 && 0u16 & 0x15 == 0 && 0u16 | 1 != 0)
        by (bit_vector);
    if state == conversation::diverted(default) {
        let restored = conversation::restore(target, default, replies, at + 1);
        assert(outcome.requests.skip(1) =~= restored.requests);
        restoration_returns_the_device_to_its_original_state(
            device,
            target,
            default,
            state,
            replies,
            at + 1,
        );
        state_after_more(state, read, restored.requests);
    } else {
        assert(outcome.requests =~= read);
    }
}

/// A reply to a configuration request that arrives late, or an error that answers
/// it, never passes for an answer to a restoration request.
pub proof fn a_delayed_configuration_reply_never_answers_cleanup(
    target: Target,
    report: Seq<u8>,
    enabled: bool,
)
    requires
        protocol::is_report(report),
        protocol::response_kind(
            report,
            conversation::divert_request(target, true, SOFTWARE_ID),
        ) != ResponseKind::Unrelated || protocol::response_kind(
            report,
            conversation::reporting_request(target, SOFTWARE_ID),
        ) != ResponseKind::Unrelated,
    ensures
        protocol::response_kind(report, conversation::divert_request(target, enabled, RESTORE_ID))
            == ResponseKind::Unrelated,
        protocol::response_kind(report, conversation::reporting_request(target, RESTORE_ID))
            == ResponseKind::Unrelated,
{
}

/// What was sent, in order.
pub open spec fn sent(log: Seq<Exchange>) -> Seq<Seq<u8>> {
    Seq::new(log.len(), |i: int| log[i].request@)
}

/// How many of some requests write.
pub open spec fn writes_in(requests: Seq<Seq<u8>>) -> nat
    decreases requests.len(),
{
    if requests.len() == 0 {
        0
    } else {
        writes_in(requests.drop_last()) + if protocol::function_of(requests.last()) >= 3 {
            1nat
        } else {
            0nat
        }
    }
}

proof fn writes_add_up(first: Seq<Seq<u8>>, second: Seq<Seq<u8>>)
    ensures
        writes_in(first + second) == writes_in(first) + writes_in(second),
    decreases second.len(),
{
    let all = first + second;
    if second.len() == 0 {
        assert(all =~= first);
    } else {
        assert(all.drop_last() =~= first + second.drop_last());
        writes_add_up(first, second.drop_last());
    }
}

proof fn reads_write_nothing(requests: Seq<Seq<u8>>)
    requires
        forall|i: int|
            0 <= i < requests.len() ==> protocol::function_of(#[trigger] requests[i]) < 3,
    ensures
        writes_in(requests) == 0,
    decreases requests.len(),
{
    if requests.len() > 0 {
        let front = requests.drop_last();
        assert forall|i: int| 0 <= i < front.len() implies protocol::function_of(
            #[trigger] front[i],
        ) < 3 by {
            assert(front[i] == requests[i]);
        }
        reads_write_nothing(front);
    }
}

/// One write, perhaps followed by a read.
proof fn one_write(requests: Seq<Seq<u8>>)
    requires
        1 <= requests.len() <= 2,
        protocol::function_of(requests[0]) == 3,
        requests.len() == 2 ==> protocol::function_of(requests[1]) < 3,
    ensures
        writes_in(requests) == 1,
{
    reveal_with_fuel(writes_in, 3);
    assert(requests.drop_last().len() == requests.len() - 1);
    if requests.len() == 2 {
        assert(requests.drop_last().last() == requests[0]);
    }
}

/// Restoration writes exactly once, whatever is replied.
pub proof fn a_restoration_writes_once(
    target: Target,
    original: Reporting,
    replies: Seq<Reply>,
    at: nat,
)
    ensures
        writes_in(conversation::restore(target, original, replies, at).requests) == 1,
{
    restoration_writes_the_original_bit(target, original, replies, at);
    requests_are_readable(target, RESTORE_ID, original.flags & 1 != 0, 0);
    one_write(conversation::restore(target, original, replies, at).requests);
}

/// Every write of a start is accounted for: none where the control could not be
/// examined or is claimed, one where it was taken, and two, the second of them the
/// restoration, where taking it failed.
pub proof fn a_start_accounts_for_its_writes(
    target: Target,
    unrestored: Option<Reporting>,
    replies: Seq<Reply>,
    at: nat,
)
    ensures
        ({
            let outcome = conversation::start(target, unrestored, replies, at);
            writes_in(outcome.requests) == match conversation::examine(target, replies, at).result {
                Err(_) => 0nat,
                Ok(current) => if current.flags & CLAIMED != 0 {
                    0nat
                } else if outcome.result is Ok {
                    1nat
                } else {
                    2nat
                },
            }
        }),
{
    let seen = conversation::examine(target, replies, at);
    examine_is_permitted(target, replies, at);
    reads_write_nothing(seen.requests);
    if let Ok(current) = seen.result {
        if current.flags & CLAIMED == 0 {
            let configured = conversation::configure(
                target,
                current,
                replies,
                at + seen.requests.len(),
            );
            let requests = seen.requests + configured.requests;
            requests_are_readable(target, SOFTWARE_ID, true, 0);
            one_write(configured.requests);
            writes_add_up(seen.requests, configured.requests);
            a_restoration_writes_once(target, current, replies, at + requests.len());
            writes_add_up(
                requests,
                conversation::restore(target, current, replies, at + requests.len()).requests,
            );
        }
    }
}

/// A recovery writes once after an interrupted default session, and else never.
pub proof fn a_recovery_accounts_for_its_writes(target: Target, replies: Seq<Reply>, at: nat)
    ensures
        writes_in(conversation::recover(target, replies, at).requests) == (if (
        conversation::read_reporting(target, SOFTWARE_ID, replies, at).result matches Ok(current)
            && current == conversation::diverted(conversation::default_reporting(target.cid))) {
            1nat
        } else {
            0nat
        }),
{
    let read = conversation::read_reporting(target, SOFTWARE_ID, replies, at);
    let default = conversation::default_reporting(target.cid);
    requests_are_readable(target, SOFTWARE_ID, true, 0);
    reads_write_nothing(read.requests);
    if let Ok(current) = read.result {
        let flags = current.flags;
        assert(flags & 0xfffe == 0 && flags != 0 <==> flags == 0u16 | 1) by (bit_vector);
        assert(0u16 | 1 == 1) by (bit_vector);
    }
    a_restoration_writes_once(target, default, replies, at + 1);
    writes_add_up(
        read.requests,
        conversation::restore(target, default, replies, at + 1).requests,
    );
}

/// All that a failed start sent is its conversation. Where it does not speak of a
/// rollback the device was not written to; else it was written to twice at most, to
/// take the control and to restore it.
pub proof fn a_failed_start_leaves_no_write_behind<T: FnMut(&Report) -> Reply>(
    transport: T,
    target: Target,
    unrestored: Option<Reporting>,
    error: ControlError,
)
    requires
        TemporaryTopButton::<T>::started(transport, target, unrestored, Err(error)),
    ensures
        exists|log: Seq<Exchange>| #[trigger]
            link::closed_with(transport, log) && {
                let outcome = conversation::start(
                    target,
                    unrestored,
                    conversation::replies(log),
                    0,
                );
                &&& sent(log) == outcome.requests
                &&& outcome.result == Err::<Reporting, ControlError>(error)
                &&& writes_in(sent(log)) == 0 || writes_in(sent(log)) == 2
                &&& error !is RolledBack && error !is RollbackFailed ==> writes_in(sent(log)) == 0
            },
{
    let log = choose|log: Seq<Exchange>| #[trigger]
        link::closed_with(transport, log) && controls::start_ends(
            transport,
            target,
            unrestored,
            log,
            Err(error),
        );
    let outcome = conversation::start(target, unrestored, conversation::replies(log), 0);
    a_start_accounts_for_its_writes(target, unrestored, conversation::replies(log), 0);
    assert(sent(log) =~= outcome.requests);
}

/// Giving a lease back sends one write and nothing but the restoration, whether it
/// succeeds or not.
pub proof fn giving_back_writes_once<T: FnMut(&Report) -> Reply>(
    lease: TemporaryTopButton<T>,
    done: Result<(), ControlError>,
)
    requires
        lease.finished(done),
    ensures
        exists|log: Seq<Exchange>| #[trigger]
            link::closed_with(lease.transport(), log) && {
                let outcome = conversation::restore(
                    lease.target(),
                    lease.baseline(),
                    conversation::replies(log),
                    lease.log().len(),
                );
                &&& sent(log) == sent(lease.log()) + outcome.requests
                &&& outcome.result == done
                &&& writes_in(sent(log)) == writes_in(sent(lease.log())) + 1
            },
{
    let log = choose|log: Seq<Exchange>| #[trigger]
        link::closed_with(lease.transport(), log) && controls::restore_ends(
            lease.transport(),
            lease.target(),
            lease.baseline(),
            lease.log(),
            log,
            done,
        );
    let at = lease.log().len();
    let replies = conversation::replies(log);
    let outcome = conversation::restore(lease.target(), lease.baseline(), replies, at);
    assert forall|i: int| 0 <= i < at implies lease.log()[i] == #[trigger] log[i] by {
        assert(log.subrange(0, at as int)[i] == log[i]);
    }
    assert(sent(log) =~= sent(lease.log()) + outcome.requests);
    a_restoration_writes_once(lease.target(), lease.baseline(), replies, at);
    writes_add_up(sent(lease.log()), outcome.requests);
}

/// All that a recovery sent is its conversation: one write after an interrupted
/// default session, and else none.
pub proof fn a_refused_recovery_writes_nothing<T: FnMut(&Report) -> Reply>(
    transport: T,
    target: Target,
    done: Result<(), ControlError>,
)
    requires
        TemporaryTopButton::<T>::recovered(transport, target, done),
    ensures
        exists|log: Seq<Exchange>| #[trigger]
            link::closed_with(transport, log) && {
                let replies = conversation::replies(log);
                let outcome = conversation::recover(target, replies, 0);
                &&& sent(log) == outcome.requests
                &&& outcome.result == done
                &&& writes_in(sent(log)) == 1 <==> (conversation::read_reporting(
                    target,
                    SOFTWARE_ID,
                    replies,
                    0,
                ).result matches Ok(current) && current == conversation::diverted(
                    conversation::default_reporting(target.cid),
                ))
                &&& writes_in(sent(log)) <= 1
            },
{
    let log = choose|log: Seq<Exchange>| #[trigger]
        link::closed_with(transport, log) && controls::recover_ends(transport, target, log, done);
    let outcome = conversation::recover(target, conversation::replies(log), 0);
    a_recovery_accounts_for_its_writes(target, conversation::replies(log), 0);
    assert(sent(log) =~= outcome.requests);
}

/// This app's own leftover is adopted, whatever the control and its mapping: where a
/// working device reads a recorded, unclaimed original with the divert bit set, the start
/// succeeds with that original and writes nothing. Every other claimed control is refused
/// and not written to.
pub proof fn every_leftover_of_this_app_is_adopted(
    device: Device,
    target: Target,
    previous: Reporting,
    state: Reporting,
    replies: Seq<Reply>,
    at: nat,
)
    requires
        device.position < device.count <= 32,
        state.flags & 0x15 != 0,
        obeys(
            device,
            target,
            state,
            conversation::start(target, Some(previous), replies, at).requests,
            replies,
            at,
        ),
    ensures
        ({
            let outcome = conversation::start(target, Some(previous), replies, at);
            let ours = previous.flags & 0x15 == 0 && state.flags == previous.flags | 1
                && state.mapped_to == previous.mapped_to;
            &&& ours ==> outcome.result == Ok::<Reporting, ControlError>(previous)
            &&& !ours ==> outcome.result == Err::<Reporting, ControlError>(
                ControlError::AlreadyDiverted { cid: target.cid, flags: state.flags },
            )
            &&& writes_in(outcome.requests) == 0
            &&& forall|i: int|
                0 <= i < outcome.requests.len() ==> #[trigger] outcome.requests[i][3] < 0x30
        }),
{
    a_claimed_control_is_adopted_or_refused(device, target, Some(previous), state, replies, at);
    start_reads_only_what_is_claimed(device, target, Some(previous), state, replies, at);
}

/// Without a record every claimed control is refused, and not written to.
pub proof fn a_foreign_diversion_is_refused(
    device: Device,
    target: Target,
    state: Reporting,
    replies: Seq<Reply>,
    at: nat,
)
    requires
        device.position < device.count <= 32,
        state.flags & 0x15 != 0,
        obeys(
            device,
            target,
            state,
            conversation::start(target, None, replies, at).requests,
            replies,
            at,
        ),
    ensures
        ({
            let outcome = conversation::start(target, None, replies, at);
            &&& outcome.result == Err::<Reporting, ControlError>(
                ControlError::AlreadyDiverted { cid: target.cid, flags: state.flags },
            )
            &&& forall|i: int|
                0 <= i < outcome.requests.len() ==> #[trigger] outcome.requests[i][3] < 0x30
        }),
{
    a_claimed_control_is_adopted_or_refused(device, target, None, state, replies, at);
    start_reads_only_what_is_claimed(device, target, None, state, replies, at);
}

proof fn start_reads_only_what_is_claimed(
    device: Device,
    target: Target,
    unrestored: Option<Reporting>,
    state: Reporting,
    replies: Seq<Reply>,
    at: nat,
)
    requires
        device.position < device.count <= 32,
        state.flags & 0x15 != 0,
        obeys(
            device,
            target,
            state,
            conversation::start(target, unrestored, replies, at).requests,
            replies,
            at,
        ),
    ensures
        ({
            let outcome = conversation::start(target, unrestored, replies, at);
            &&& writes_in(outcome.requests) == 0
            &&& forall|i: int|
                0 <= i < outcome.requests.len() ==> #[trigger] outcome.requests[i][3] < 0x30
        }),
{
    let requests = conversation::start(target, unrestored, replies, at).requests;
    let seen = conversation::examine(target, replies, at);
    let n = seen.requests.len() as int;
    assert(requests =~= seen.requests + requests.skip(n));
    obeys_in_parts(device, target, state, seen.requests, requests.skip(n), replies, at);
    a_working_device_is_examined(device, target, state, replies, at);
    examine_is_permitted(target, replies, at);
    a_start_accounts_for_its_writes(target, unrestored, replies, at);
    assert(requests =~= seen.requests);
    assert forall|i: int| 0 <= i < requests.len() implies #[trigger] requests[i][3] < 0x30 by {
        assert(protocol::function_of(seen.requests[i]) < 3);
    }
}

/// On a working device an unclaimed control is taken: the flags and the mapping that were
/// read are remembered, the divert bit is set and every other flag and the mapping stay,
/// with exactly one write.
pub proof fn an_unclaimed_control_is_taken(
    device: Device,
    target: Target,
    unrestored: Option<Reporting>,
    state: Reporting,
    replies: Seq<Reply>,
    at: nat,
)
    requires
        device.position < device.count <= 32,
        state.flags & 0x15 == 0,
        obeys(
            device,
            target,
            state,
            conversation::start(target, unrestored, replies, at).requests,
            replies,
            at,
        ),
    ensures
        ({
            let outcome = conversation::start(target, unrestored, replies, at);
            let after = state_after(state, outcome.requests);
            &&& outcome.result == Ok::<Reporting, ControlError>(state)
            &&& after.flags == state.flags | 1
            &&& after.mapped_to == state.mapped_to
            &&& writes_in(outcome.requests) == 1
        }),
{
    a_working_device_grants_the_lease(device, target, unrestored, state, replies, at);
    let seen = conversation::examine(target, replies, at);
    let requests = conversation::start(target, unrestored, replies, at).requests;
    let n = seen.requests.len() as int;
    assert(requests =~= seen.requests + requests.skip(n));
    obeys_in_parts(device, target, state, seen.requests, requests.skip(n), replies, at);
    a_working_device_is_examined(device, target, state, replies, at);
    a_start_accounts_for_its_writes(target, unrestored, replies, at);
}

/// The requests of a conversation, byte by byte: getCount is function 0, getControlInfo
/// function 1 with the position, getCidReporting function 2 with the control, and
/// setCidReporting function 3 with the control, 3 to set or 2 to clear the divert bit, and
/// zeros, so that nothing else is marked as valid.
pub proof fn requests_have_these_bytes(
    target: Target,
    software_id: u8,
    enabled: bool,
    position: nat,
    i: int,
)
    requires
        1 <= software_id <= 15,
        position < 32,
        9 <= i < 20,
    ensures
        ({
            let count = conversation::count_request(target);
            let info = conversation::info_request(target, position);
            let read = conversation::reporting_request(target, software_id);
            let write = conversation::divert_request(target, enabled, software_id);
            &&& count[1] == target.index && count[2] == target.feature && count[3] == 0x0a
            &&& info[1] == target.index && info[2] == target.feature && info[3] == 0x1a && info[4]
                == position
            &&& read[1] == target.index && read[2] == target.feature && read[3] == 0x20
                + software_id
            &&& 256 * read[4] + read[5] == target.cid
            &&& write[1] == target.index && write[2] == target.feature && write[3] == 0x30
                + software_id
            &&& 256 * write[4] + write[5] == target.cid
            &&& write[6] == if enabled {
                3u8
            } else {
                2u8
            }
            &&& write[7] == 0 && write[8] == 0 && write[i] == 0
        }),
{
}

/// A write is acknowledged by its echo or by zeros alone, and by nothing else.
pub proof fn an_echo_or_zeros_acknowledge(reply: Seq<u8>, payload: Seq<u8>)
    requires
        protocol::is_report(reply),
    ensures
        conversation::acknowledges(reply, payload) <==> {
            ||| payload.len() + 4 <= reply.len() && forall|i: int|
                0 <= i < payload.len() ==> #[trigger] reply[i + 4] == payload[i]
            ||| forall|i: int| 4 <= i < reply.len() ==> #[trigger] reply[i] == 0
        },
{
    let p = protocol::payload_of(reply);
    if payload.is_prefix_of(p) {
        assert forall|i: int| 0 <= i < payload.len() implies #[trigger] reply[i + 4]
            == payload[i] by {
            assert(p.subrange(0, payload.len() as int)[i] == p[i]);
        }
    }
    if payload.len() + 4 <= reply.len() && forall|i: int|
        0 <= i < payload.len() ==> #[trigger] reply[i + 4] == payload[i] {
        assert forall|i: int| 0 <= i < payload.len() implies p[i] == payload[i] by {
            assert(reply[i + 4] == payload[i]);
        }
        assert(payload =~= p.subrange(0, payload.len() as int));
    }
    if forall|i: int| 4 <= i < reply.len() ==> #[trigger] reply[i] == 0 {
        assert forall|i: int| 0 <= i < p.len() implies p[i] == 0 by {
            assert(reply[i + 4] == 0);
        }
    }
    if forall|i: int| 0 <= i < p.len() ==> p[i] == 0 {
        assert forall|i: int| 4 <= i < reply.len() implies #[trigger] reply[i] == 0 by {
            assert(p[i - 4] == 0);
        }
    }
}

/// More than 32 controls end a start after the first request.
pub proof fn too_many_controls_are_refused(
    target: Target,
    unrestored: Option<Reporting>,
    replies: Seq<Reply>,
    at: nat,
)
    requires
        replies[at as int] matches Ok(reply) && reply@[4] > 32 && protocol::is_report(reply@),
    ensures
        ({
            let outcome = conversation::start(target, unrestored, replies, at);
            outcome.result == Err::<Reporting, ControlError>(ControlError::ControlCount)
                && outcome.requests.len() == 1
        }),
{
}

/// A control that is not listed, or whose first entry does not allow diversion, is refused
/// before its reporting is read: each entry up to it is asked for once, in order.
pub proof fn a_control_that_cannot_be_diverted_is_refused(
    target: Target,
    unrestored: Option<Reporting>,
    replies: Seq<Reply>,
    at: nat,
    count: nat,
    place: nat,
)
    requires
        count <= 32,
        place <= count,
        replies[at as int] matches Ok(reply) && protocol::is_report(reply@) && reply@[4] == count,
        forall|i: int|
            0 <= i < place ==> (#[trigger] replies[at + 1 + i] matches Ok(reply) && reply@.len()
                == 20 && 256 * reply@[4] + reply@[5] != target.cid),
        place < count ==> (replies[(at + 1 + place) as int] matches Ok(reply) && reply@.len() == 20 && 256
            * reply@[4] + reply@[5] == target.cid && reply@[8] & 0x20 == 0),
    ensures
        ({
            let outcome = conversation::start(target, unrestored, replies, at);
            &&& outcome.result == Err::<Reporting, ControlError>(
                ControlError::NotDivertible { cid: target.cid },
            )
            &&& outcome.requests.len() == 1 + place + if place < count {
                1nat
            } else {
                0nat
            }
            &&& forall|i: int|
                0 <= i < outcome.requests.len() ==> #[trigger] outcome.requests[i][3] < 0x20
        }),
{
    requests_are_readable(target, SOFTWARE_ID, true, 0);
    survey_passes_others_over(target, count, 0, place, replies, at + 1);
    let found = conversation::survey(target, count, 0, replies, at + 1);
    survey_is_permitted(target, count, 0, replies, at + 1);
    let outcome = conversation::start(target, unrestored, replies, at);
    let requests = seq![conversation::count_request(target)] + found.requests;
    assert(outcome.requests == requests);
    assert forall|i: int| 0 <= i < requests.len() implies #[trigger] requests[i][3] < 0x20 by {
        if i > 0 {
            assert(requests[i] == found.requests[i - 1]);
            assert(protocol::function_of(found.requests[i - 1]) == 1);
        } else {
            assert(protocol::function_of(requests[0]) == 0);
        }
    }
}

proof fn survey_passes_others_over(
    target: Target,
    count: nat,
    position: nat,
    place: nat,
    replies: Seq<Reply>,
    at: nat,
)
    requires
        position <= place <= count <= 32,
        forall|i: int|
            0 <= i < place - position ==> (#[trigger] replies[at + i] matches Ok(reply)
                && reply@.len() == 20 && 256 * reply@[4] + reply@[5] != target.cid),
        place < count ==> (replies[at + place - position] matches Ok(reply) && reply@.len() == 20
            && 256 * reply@[4] + reply@[5] == target.cid && reply@[8] & 0x20 == 0),
    ensures
        ({
            let outcome = conversation::survey(target, count, position, replies, at);
            outcome.result == Ok::<bool, ControlError>(false) && outcome.requests.len() == place
                - position + if place < count {
                1int
            } else {
                0
            }
        }),
    decreases place - position,
{
    if position < count {
        let reply = replies[at + 0int]->Ok_0;
        let p = protocol::payload_of(reply@);
        assert(p.len() == 16 && p[0] == reply@[4] && p[1] == reply@[5] && p[4] == reply@[8]);
        let two = p.take(2);
        assert(two.len() == 2 && two[0] == p[0] && two[1] == p[1]);
        if position < place {
            assert(two != controls::cid_bytes(target.cid)) by {
                if two == controls::cid_bytes(target.cid) {
                    assert(two[0] == (target.cid / 256) as u8 && two[1] == (target.cid
                        % 256) as u8);
                }
            }
            assert forall|i: int| 0 <= i < place - (position + 1) implies (
            #[trigger] replies[at + 1 + i] matches Ok(reply) && reply@.len() == 20 && 256
                * reply@[4] + reply@[5] != target.cid) by {
                assert(replies[at + (i + 1)] == replies[at + 1 + i]);
            }
            survey_passes_others_over(target, count, position + 1, place, replies, at + 1);
        } else {
            assert(two =~= controls::cid_bytes(target.cid));
        }
    }
}

/// A lease is of the control that was asked for, on the transport that was handed over, and
/// keeps the reporting that the conversation ended with; without a lease the conversation
/// ended with the error.
pub proof fn a_lease_is_of_the_control_that_was_asked_for<T: FnMut(&Report) -> Reply>(
    transport: T,
    target: Target,
    unrestored: Option<Reporting>,
    lease: Result<TemporaryTopButton<T>, ControlError>,
)
    requires
        TemporaryTopButton::started(transport, target, unrestored, lease),
    ensures
        lease matches Ok(lease) ==> {
            &&& lease.target() == target
            &&& lease.transport() == transport
            &&& conversation::start(target, unrestored, conversation::replies(lease.log()), 0).result
                == Ok::<Reporting, ControlError>(lease.baseline())
        },
        lease matches Err(error) ==> exists|log: Seq<Exchange>| #[trigger]
            link::closed_with(transport, log) && conversation::start(
                target,
                unrestored,
                conversation::replies(log),
                0,
            ).result == Err::<Reporting, ControlError>(error),
{
}

} // verus!
