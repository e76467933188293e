//! One request and the wait for its reply: how long to wait, what was heard, and
//! what an error says.
use crate::protocol::{self, Report, ResponseKind};
use crate::text;
use vstd::prelude::*;

verus! {

/// Milliseconds that a request may take.
pub const TRANSACTION_MS: u64 = 1200;

/// Milliseconds to wait for the next report: the time that is left, at least one and
/// at most a hundred. None when no time is left.
pub open spec fn wait_of(remaining_ns: u64) -> Option<i32> {
    let ms = remaining_ns / 1_000_000;
    if remaining_ns == 0 {
        None
    } else if ms < 1 {
        Some(1)
    } else if ms > 100 {
        Some(100)
    } else {
        Some(ms as i32)
    }
}

pub fn next_wait(remaining_ns: u64) -> (wait: Option<i32>)
    ensures
        wait == wait_of(remaining_ns),
{
    let ms: u64 = remaining_ns / 1_000_000;
    if remaining_ns == 0 {
        None
    } else if ms < 1 {
        Some(1)
    } else if ms > 100 {
        Some(100)
    } else {
        Some(ms as i32)
    }
}

/// Why a request got no reply.
#[derive(Debug, Clone, Copy, PartialEq, Eq, Structural)]
pub enum TransactError {
    IncompleteWrite,
    TimedOut,
    Device { legacy: bool, code: u8 },
}

impl TransactError {
    pub open spec fn spec_message(self) -> Seq<char> {
        match self {
            TransactError::IncompleteWrite => "Incomplete HID write"@,
            TransactError::TimedOut =>
            "HID++ request timed out; wake the remote, check interface/slot and permissions"@,
            TransactError::Device { legacy, code } => "Device returned "@ + (if legacy {
                "HID++ 1.0"@
            } else {
                "HID++ 2.0"@
            }) + " error 0x"@ + text::hex(code as nat, 2),
        }
    }

    pub fn message(self) -> (message: String)
        ensures
            message@ == self.spec_message(),
    {
        match self {
            TransactError::IncompleteWrite => "Incomplete HID write".to_owned(),
            TransactError::TimedOut =>
            "HID++ request timed out; wake the remote, check interface/slot and permissions".to_owned(),
            TransactError::Device { legacy, code } => {
                let mut message = "Device returned ".to_owned();
                message.append(
                    if legacy {
                        "HID++ 1.0"
                    } else {
                        "HID++ 2.0"
                    },
                );
                message.append(" error 0x");
                text::push_hex(&mut message, code as u64, 2);
                message
            },
        }
    }
}

/// Whether the whole request was written.
pub fn check_written(request: &Report, written: usize) -> (checked: Result<(), TransactError>)
    ensures
        checked == (if written == request@.len() {
            Ok::<(), TransactError>(())
        } else {
            Err(TransactError::IncompleteWrite)
        }),
{
    if written == request.bytes().len() {
        Ok(())
    } else {
        Err(TransactError::IncompleteWrite)
    }
}

/// What a read gave while a request is outstanding.
pub enum Heard {
    /// No report: nothing came, or something that is no HID++ report.
    Nothing,
    Reply(Report),
    Failed(TransactError),
    /// A report that does not answer the request, such as a button notification.
    Other(Report),
}

/// What the bytes of a read mean for the outstanding request.
pub open spec fn is_heard(data: Seq<u8>, request: Seq<u8>, heard: Heard) -> bool {
    if !protocol::is_report(data) {
        heard is Nothing
    } else {
        match protocol::response_kind(data, request) {
            ResponseKind::Reply => heard matches Heard::Reply(report) && report@ == data,
            ResponseKind::Error { legacy, code } => heard == Heard::Failed(
                TransactError::Device { legacy, code },
            ),
            ResponseKind::Unrelated => heard matches Heard::Other(report) && report@ == data,
        }
    }
}

/// Judges the bytes of a read while a request is outstanding.
pub fn hear(data: &[u8], request: &Report) -> (heard: Heard)
    ensures
        is_heard(data@, request@, heard),
{
    match Report::parse(data) {
        Err(_) => Heard::Nothing,
        Ok(report) => match report.response_to(request) {
            ResponseKind::Reply => Heard::Reply(report),
            ResponseKind::Error { legacy, code } => Heard::Failed(
                TransactError::Device { legacy, code },
            ),
            ResponseKind::Unrelated => Heard::Other(report),
        },
    }
}

/// A button notification never passes for a reply, and is handed on.
pub proof fn notifications_are_handed_on(data: Seq<u8>, request: Seq<u8>, heard: Heard)
    requires
        protocol::is_report(data),
        protocol::is_report(request),
        protocol::software_id_of(request) != 0,
        protocol::software_id_of(data) == 0,
        protocol::feature_of(data) != 0xfe,
        protocol::feature_of(data) != 0x8f,
        is_heard(data, request, heard),
    ensures
        heard is Other,
{
}

/// Whether the bytes of a read end the outstanding request.
pub open spec fn decides(data: Seq<u8>, request: Seq<u8>) -> bool {
    protocol::is_report(data) && protocol::response_kind(data, request) != ResponseKind::Unrelated
}

/// Where the first read stands that ends the request; the number of reads where none
/// does.
pub open spec fn decided_at(reads: Seq<Seq<u8>>, request: Seq<u8>) -> nat
    decreases reads.len(),
{
    if reads.len() == 0 || decides(reads[0], request) {
        0
    } else {
        1 + decided_at(reads.skip(1), request)
    }
}

/// The reports among some reads, in order.
pub open spec fn reports_in(reads: Seq<Seq<u8>>) -> Seq<Seq<u8>>
    decreases reads.len(),
{
    if reads.len() == 0 {
        Seq::empty()
    } else if protocol::is_report(reads[0]) {
        seq![reads[0]] + reports_in(reads.skip(1))
    } else {
        reports_in(reads.skip(1))
    }
}

/// How a request ends when its reads are judged one after the other: with the first
/// reply or failure.
pub open spec fn ended(heard: Seq<Heard>) -> Option<Heard>
    decreases heard.len(),
{
    if heard.len() == 0 {
        None
    } else if heard[0] is Reply || heard[0] is Failed {
        Some(heard[0])
    } else {
        ended(heard.skip(1))
    }
}

/// The reports that are handed on until the request ends.
pub open spec fn handed_on(heard: Seq<Heard>) -> Seq<Seq<u8>>
    decreases heard.len(),
{
    if heard.len() == 0 {
        Seq::empty()
    } else {
        match heard[0] {
            Heard::Nothing => handed_on(heard.skip(1)),
            Heard::Other(report) => seq![report@] + handed_on(heard.skip(1)),
            _ => Seq::empty(),
        }
    }
}

/// The first reply or error decides a request, and every other report that came before
/// it is handed on once, in order.
pub proof fn the_first_answer_decides(
    reads: Seq<Seq<u8>>,
    request: Seq<u8>,
    heard: Seq<Heard>,
)
    requires
        heard.len() == reads.len(),
        forall|i: int| 0 <= i < reads.len() ==> is_heard(reads[i], request, #[trigger] heard[i]),
    ensures
        ({
            let k = decided_at(reads, request);
            &&& k <= reads.len()
            &&& forall|i: int| 0 <= i < k ==> !decides(#[trigger] reads[i], request)
            &&& k < reads.len() ==> decides(reads[k as int], request) && ended(heard) == Some(
                heard[k as int],
            )
            &&& k == reads.len() ==> ended(heard) is None
            &&& handed_on(heard) == reports_in(reads.take(k as int))
        }),
    decreases reads.len(),
{
    let k = decided_at(reads, request);
    if reads.len() > 0 {
        assert(is_heard(reads[0], request, heard[0]));
        if !decides(reads[0], request) {
            let (later, rest) = (reads.skip(1), heard.skip(1));
            assert forall|i: int| 0 <= i < later.len() implies is_heard(
                later[i],
                request,
                #[trigger] rest[i],
            ) by {
                assert(is_heard(reads[i + 1], request, heard[i + 1]));
            }
            the_first_answer_decides(later, request, rest);
            assert forall|i: int| 0 <= i < k implies !decides(#[trigger] reads[i], request) by {
                if i > 0 {
                    assert(later[i - 1] == reads[i]);
                }
            }
            assert(reads.take(k as int).skip(1) =~= later.take(k - 1));
            assert(reads.take(k as int)[0] == reads[0]);
        } else {
            assert(reads.take(0) =~= Seq::empty());
        }
    } else {
        assert(reads.take(0) =~= Seq::empty());
    }
}

/// A wait is as long as the time that is left, in whole milliseconds, but for one at least
/// and a hundred at most; without time left there is none. A request may take 1.2 seconds.
pub proof fn waits_last_the_time_that_is_left(remaining_ns: u64)
    ensures
        wait_of(0) is None,
        0 < remaining_ns < 1_000_000 ==> wait_of(remaining_ns) == Some(1i32),
        remaining_ns >= 100_000_000 ==> wait_of(remaining_ns) == Some(100i32),
        1_000_000 <= remaining_ns < 100_000_000 ==> wait_of(remaining_ns) is Some && wait_of(
            remaining_ns,
        )->0 * 1_000_000 <= remaining_ns < (wait_of(remaining_ns)->0 + 1) * 1_000_000,
        TRANSACTION_MS == 1_200,
{
}

/// An error of the device says which protocol it is of and gives its code.
pub proof fn device_errors_tell_their_code(code: u8)
    ensures
        (TransactError::Device { legacy: true, code }).spec_message()
            == "Device returned "@ + "HID++ 1.0"@ + " error 0x"@ + text::hex(code as nat, 2),
        (TransactError::Device { legacy: false, code }).spec_message()
            == "Device returned "@ + "HID++ 2.0"@ + " error 0x"@ + text::hex(code as nat, 2),
{
}

/// The reply to a request comes from the same device, feature and function with the same
/// software id; it is taken whole, an error is taken by its code, and anything else that is
/// a report is handed on.
pub proof fn replies_are_taken_whole(data: Seq<u8>, request: Seq<u8>, heard: Heard)
    requires
        is_heard(data, request, heard),
    ensures
        heard is Nothing <==> !((data[0] == 0x10 && data.len() == 7) || (data[0] == 0x11
            && data.len() == 20)) || data.len() == 0,
        heard matches Heard::Reply(report) ==> report@ == data,
        heard matches Heard::Other(report) ==> report@ == data,
        protocol::is_report(data) && protocol::response_kind(data, request) == ResponseKind::Reply
            ==> heard is Reply,
        protocol::is_report(data) && protocol::response_kind(data, request)
            == ResponseKind::Unrelated ==> heard is Other,
{
}

} // verus!
