//! HID++ report codec: framing, requests and the matching of replies.
use vstd::prelude::*;

verus! {

pub const LOGITECH_VENDOR: u16 = 0x046d;

pub const SOFTWARE_ID: u8 = 0x0a;

/// Only first-generation Spotlight IDs are eligible for device access.
/// Shared Bolt receiver IDs do not identify a Spotlight and are deliberately excluded.
pub fn is_spotlight(vendor: u16, product: u16) -> (spotlight: bool)
    ensures
        spotlight == spec_is_spotlight(vendor, product),
{
    vendor == LOGITECH_VENDOR && (product == 0xc53e || product == 0xb503)
}

/// The receiver and the Bluetooth identity of a first-generation Spotlight.
pub open spec fn spec_is_spotlight(vendor: u16, product: u16) -> bool {
    vendor == LOGITECH_VENDOR && (product == 0xc53e || product == 0xb503)
}

#[derive(Debug, Clone, Copy, PartialEq, Eq, Structural)]
pub enum ProtocolError {
    InvalidReport,
    InvalidFunction,
    InvalidSoftwareId,
    PayloadTooLong,
    UnrelatedResponse,
    Device { legacy: bool, code: u8 },
}

#[derive(Debug, Clone, Copy, PartialEq, Eq, Structural)]
pub enum ResponseKind {
    Reply,
    Error { legacy: bool, code: u8 },
    Unrelated,
}

/// A buffer is a report when it is a short report (identifier `10`, 7 bytes) or
/// a long report (identifier `11`, 20 bytes).
pub open spec fn is_report(data: Seq<u8>) -> bool {
    ||| data.len() == 7 && data[0] == 0x10
    ||| data.len() == 20 && data[0] == 0x11
}

/// Fields of a report, read from its bytes.
pub open spec fn device_of(report: Seq<u8>) -> u8 {
    report[1]
}

pub open spec fn feature_of(report: Seq<u8>) -> u8 {
    report[2]
}

pub open spec fn function_of(report: Seq<u8>) -> u8 {
    report[3] / 16
}

pub open spec fn software_id_of(report: Seq<u8>) -> u8 {
    report[3] % 16
}

pub open spec fn payload_of(report: Seq<u8>) -> Seq<u8> {
    report.skip(4)
}

/// `len` zero bytes.
pub open spec fn zeros(len: nat) -> Seq<u8> {
    Seq::new(len, |i: int| 0u8)
}

/// The long report of a request: header, payload, zero padding to 20 bytes.
pub open spec fn request_bytes(
    device: u8,
    feature: u8,
    function: u8,
    software_id: u8,
    payload: Seq<u8>,
) -> Seq<u8> {
    seq![0x11u8, device, feature, (function * 16 + software_id) as u8] + payload + zeros(
        (16 - payload.len()) as nat,
    )
}

/// How a report relates to a request, both given by their bytes. Error markers
/// `8f` (HID++ 1.0) and `fe` (HID++ 2.0) carry the original feature and address
/// in bytes 3 and 4 and the error code in byte 5.
pub open spec fn response_kind(report: Seq<u8>, request: Seq<u8>) -> ResponseKind {
    if report[1] != request[1] {
        ResponseKind::Unrelated
    } else if report[2] == 0x8f || report[2] == 0xfe {
        if report[3] == request[2] && report[4] == request[3] {
            ResponseKind::Error { legacy: report[2] == 0x8f, code: report[5] }
        } else {
            ResponseKind::Unrelated
        }
    } else if report[2] == request[2] && report[3] == request[3] {
        ResponseKind::Reply
    } else {
        ResponseKind::Unrelated
    }
}

/// The ROOT request that asks for the runtime index of a feature code.
pub open spec fn feature_request_bytes(device: u8, feature_code: u16) -> Seq<u8> {
    request_bytes(
        device,
        0,
        0,
        SOFTWARE_ID,
        seq![(feature_code / 256) as u8, (feature_code % 256) as u8, 0u8],
    )
}

/// What a report says about the feature that a ROOT request asked for.
pub open spec fn feature_answer(reply: Seq<u8>, request: Seq<u8>) -> Result<
    Option<u8>,
    ProtocolError,
> {
    if feature_of(request) != 0 || function_of(request) != 0 {
        Err(ProtocolError::UnrelatedResponse)
    } else {
        match response_kind(reply, request) {
            ResponseKind::Reply => Ok(
                if payload_of(reply)[0] == 0 {
                    None
                } else {
                    Some(payload_of(reply)[0])
                },
            ),
            ResponseKind::Error { legacy, code } => Err(ProtocolError::Device { legacy, code }),
            ResponseKind::Unrelated => Err(ProtocolError::UnrelatedResponse),
        }
    }
}

/// A framed HID++ report, including the report identifier.
#[derive(Debug, PartialEq, Eq)]
pub struct Report {
    bytes: [u8; 20],
    len: usize,
}

impl View for Report {
    type V = Seq<u8>;

    closed spec fn view(&self) -> Seq<u8> {
        self.bytes@.take(self.len as int)
    }
}

impl Clone for Report {
    fn clone(&self) -> (copy: Self)
        ensures
            copy == *self,
    {
        proof {
            use_type_invariant(self);
        }
        Report { bytes: self.bytes, len: self.len }
    }
}

impl Report {
    #[verifier::type_invariant]
    closed spec fn framed(self) -> bool {
        &&& self.len <= 20
        &&& is_report(self@)
        &&& forall|i: int| self.len <= i < 20 ==> self.bytes@[i] == 0
    }

    /// Incoming buffers include the report ID. Reject truncated and overlong reports.
    pub fn parse(data: &[u8]) -> (report: Result<Self, ProtocolError>)
        ensures
            match report {
                Ok(report) => is_report(data@) && report@ == data@,
                Err(error) => !is_report(data@) && error == ProtocolError::InvalidReport,
            },
    {
        let len = data.len();
        if !((len == 7 && data[0] == 0x10) || (len == 20 && data[0] == 0x11)) {
            return Err(ProtocolError::InvalidReport);
        }
        let mut bytes: [u8; 20] = [0;20];
        for i in 0..len
            invariant
                len == data@.len(),
                len <= 20,
                forall|j: int| 0 <= j < i ==> bytes@[j] == data@[j],
                forall|j: int| i <= j < 20 ==> bytes@[j] == 0,
        {
            bytes[i] = data[i];
        }
        assert(bytes@.take(len as int) =~= data@);
        Ok(Self { bytes, len })
    }

    /// Always send long reports: first-generation Bluetooth requires this format.
    pub fn request(
        device: u8,
        feature: u8,
        function: u8,
        software_id: u8,
        payload: &[u8],
    ) -> (report: Result<Self, ProtocolError>)
        ensures
            match report {
                Ok(report) => function <= 15 && 1 <= software_id <= 15 && payload@.len() <= 16
                    && report@ == request_bytes(device, feature, function, software_id, payload@),
                Err(ProtocolError::InvalidFunction) => function > 15,
                Err(ProtocolError::InvalidSoftwareId) => function <= 15 && !(1 <= software_id
                    <= 15),
                Err(ProtocolError::PayloadTooLong) => function <= 15 && 1 <= software_id <= 15
                    && payload@.len() > 16,
                Err(_) => false,
            },
    {
        if function > 15 {
            return Err(ProtocolError::InvalidFunction);
        }
        if software_id < 1 || software_id > 15 {
            return Err(ProtocolError::InvalidSoftwareId);
        }
        let size = payload.len();
        if size > 16 {
            return Err(ProtocolError::PayloadTooLong);
        }
        let address: u8 = function * 16 + software_id;
        let mut bytes: [u8; 20] = [0;20];
        bytes[0] = 0x11;
        bytes[1] = device;
        bytes[2] = feature;
        bytes[3] = address;
        for i in 0..size
            invariant
                size == payload@.len(),
                size <= 16,
                bytes@[0] == 0x11,
                bytes@[1] == device,
                bytes@[2] == feature,
                bytes@[3] == address,
                forall|j: int| 0 <= j < i ==> bytes@[4 + j] == payload@[j],
                forall|j: int| 4 + i <= j < 20 ==> bytes@[j] == 0,
        {
            bytes[4 + i] = payload[i];
        }
        let ghost expected = request_bytes(device, feature, function, software_id, payload@);
        assert(bytes@.take(20) =~= expected) by {
            assert forall|j: int| 0 <= j < 20 implies bytes@[j] == expected[j] by {
                if 4 <= j < 4 + size {
                    assert(bytes@[4 + (j - 4)] == payload@[j - 4]);
                }
            }
        }
        Ok(Self { bytes, len: 20 })
    }

    pub fn bytes(&self) -> (bytes: &[u8])
        ensures
            bytes@ == self@,
            is_report(bytes@),
    {
        proof {
            use_type_invariant(self);
        }
        let bytes = self.bytes.as_slice();
        vstd::slice::slice_subrange(bytes, 0, self.len)
    }

    pub fn payload(&self) -> (payload: &[u8])
        ensures
            payload@ == payload_of(self@),
            payload@.len() == 3 || payload@.len() == 16,
            is_report(self@),
    {
        proof {
            use_type_invariant(self);
        }
        let bytes = self.bytes.as_slice();
        let payload = vstd::slice::slice_subrange(bytes, 4, self.len);
        assert(payload@ =~= payload_of(self@));
        payload
    }

    pub fn device(&self) -> (device: u8)
        ensures
            device == device_of(self@),
            is_report(self@),
    {
        proof {
            use_type_invariant(self);
        }
        self.bytes[1]
    }

    pub fn feature(&self) -> (feature: u8)
        ensures
            feature == feature_of(self@),
            is_report(self@),
    {
        proof {
            use_type_invariant(self);
        }
        self.bytes[2]
    }

    pub fn function(&self) -> (function: u8)
        ensures
            function == function_of(self@),
            is_report(self@),
    {
        proof {
            use_type_invariant(self);
        }
        self.bytes[3] / 16
    }

    pub fn software_id(&self) -> (software_id: u8)
        ensures
            software_id == software_id_of(self@),
            is_report(self@),
    {
        proof {
            use_type_invariant(self);
        }
        self.bytes[3] % 16
    }

    /// Distinguish notifications, other applications' replies, and matching errors.
    pub fn response_to(&self, request: &Self) -> (kind: ResponseKind)
        ensures
            kind == response_kind(self@, request@),
            is_report(self@),
            is_report(request@),
    {
        proof {
            use_type_invariant(self);
            use_type_invariant(request);
        }
        if self.device() != request.device() {
            return ResponseKind::Unrelated;
        }
        if self.feature() == 0x8f || self.feature() == 0xfe {
            if self.bytes[3] == request.feature() && self.bytes[4] == request.bytes[3] {
                return ResponseKind::Error { legacy: self.feature() == 0x8f, code: self.bytes[5] };
            }
            return ResponseKind::Unrelated;
        }
        if self.feature() == request.feature() && self.bytes[3] == request.bytes[3] {
            ResponseKind::Reply
        } else {
            ResponseKind::Unrelated
        }
    }
}

pub fn feature_request(device: u8, feature_code: u16) -> (report: Report)
    ensures
        report@ == feature_request_bytes(device, feature_code),
{
    let payload: [u8; 3] = [(feature_code / 256) as u8, (feature_code % 256) as u8, 0];
    assert(payload@ =~= seq![(feature_code / 256) as u8, (feature_code % 256) as u8, 0u8]);
    match Report::request(device, 0, 0, SOFTWARE_ID, payload.as_slice()) {
        Ok(report) => report,
        Err(_) => vstd::pervasive::unreached(),
    }
}

/// Resolve a feature code through ROOT; index zero means unsupported.
pub fn feature_index(reply: &Report, request: &Report) -> (index: Result<
    Option<u8>,
    ProtocolError,
>)
    ensures
        index == feature_answer(reply@, request@),
{
    if request.feature() != 0 || request.function() != 0 {
        return Err(ProtocolError::UnrelatedResponse);
    }
    match reply.response_to(request) {
        ResponseKind::Reply => {
            let index = reply.payload()[0];
            Ok(
                if index == 0 {
                    None
                } else {
                    Some(index)
                },
            )
        },
        ResponseKind::Error { legacy, code } => Err(ProtocolError::Device { legacy, code }),
        ResponseKind::Unrelated => Err(ProtocolError::UnrelatedResponse),
    }
}

/// A request carries the header fields and the payload that it was made from.
pub proof fn request_keeps_its_fields(
    device: u8,
    feature: u8,
    function: u8,
    software_id: u8,
    payload: Seq<u8>,
)
    requires
        function <= 15,
        1 <= software_id <= 15,
        payload.len() <= 16,
    ensures
        ({
            let report = request_bytes(device, feature, function, software_id, payload);
            &&& is_report(report)
            &&& report.len() == 20
            &&& device_of(report) == device
            &&& feature_of(report) == feature
            &&& function_of(report) == function
            &&& software_id_of(report) == software_id
            &&& payload_of(report) == payload + zeros((16 - payload.len()) as nat)
        }),
{
    let report = request_bytes(device, feature, function, software_id, payload);
    assert(payload_of(report) =~= payload + zeros((16 - payload.len()) as nat));
}

/// A notification (software id zero), a reply to another software id, function,
/// feature or device, and an error that names another request are all unrelated.
pub proof fn only_correlated_reports_answer_a_request(report: Seq<u8>, request: Seq<u8>)
    requires
        is_report(report),
        is_report(request),
        response_kind(report, request) != ResponseKind::Unrelated,
    ensures
        device_of(report) == device_of(request),
        response_kind(report, request) is Reply ==> {
            &&& feature_of(report) == feature_of(request)
            &&& function_of(report) == function_of(request)
            &&& software_id_of(report) == software_id_of(request)
        },
        response_kind(report, request) is Error ==> {
            &&& feature_of(report) == 0x8f || feature_of(report) == 0xfe
            &&& report[3] == feature_of(request)
            &&& report[4] / 16 == function_of(request)
            &&& report[4] % 16 == software_id_of(request)
        },
{
}

/// A request stands in twenty bytes: the identifier 11, the device, the feature, the
/// function in the high and the software id in the low half of the fourth byte, then the
/// payload and zeros.
pub proof fn a_request_has_these_bytes(
    device: u8,
    feature: u8,
    function: u8,
    software_id: u8,
    payload: Seq<u8>,
    i: int,
)
    requires
        function <= 15,
        1 <= software_id <= 15,
        payload.len() <= 16,
        0 <= i < 16,
    ensures
        ({
            let report = request_bytes(device, feature, function, software_id, payload);
            &&& report.len() == 20
            &&& report[0] == 0x11
            &&& report[1] == device
            &&& report[2] == feature
            &&& report[3] == 16 * function + software_id
            &&& report[4 + i] == if i < payload.len() {
                payload[i]
            } else {
                0
            }
        }),
{
}

/// The fields of a report are its bytes: the second is the device, the third the feature,
/// the halves of the fourth the function and the software id, the rest the payload.
pub proof fn fields_stand_at_their_places(report: Seq<u8>)
    requires
        is_report(report),
    ensures
        report.len() == 7 && report[0] == 0x10 || report.len() == 20 && report[0] == 0x11,
        device_of(report) == report[1],
        feature_of(report) == report[2],
        16 * function_of(report) + software_id_of(report) == report[3],
        software_id_of(report) < 16,
        payload_of(report).len() == report.len() - 4,
        forall|i: int|
            0 <= i < report.len() - 4 ==> #[trigger] payload_of(report)[i] == report[i + 4],
{
}

/// Seven bytes that begin with 10 and twenty that begin with 11 are reports, and nothing
/// else is.
pub proof fn these_are_reports(data: Seq<u8>)
    ensures
        data.len() == 7 && data[0] == 0x10 ==> is_report(data),
        data.len() == 20 && data[0] == 0x11 ==> is_report(data),
        data.len() != 7 && data.len() != 20 ==> !is_report(data),
        data.len() == 7 && data[0] != 0x10 ==> !is_report(data),
        data.len() == 20 && data[0] != 0x11 ==> !is_report(data),
{
}

/// A report with the device, the feature, the function and the software id of a request is
/// its reply. A report of that device whose feature is 8f or fe and which repeats the
/// request's third and fourth byte is an error of it, with the code behind them. Every
/// other report is unrelated.
pub proof fn replies_and_errors_are_told_apart(report: Seq<u8>, request: Seq<u8>)
    requires
        is_report(report),
        is_report(request),
    ensures
        ({
            let marked = report[2] == 0x8f || report[2] == 0xfe;
            let kind = response_kind(report, request);
            &&& report[1] == request[1] && !marked && report[2] == request[2] && report[3]
                == request[3] ==> kind == ResponseKind::Reply
            &&& report[1] == request[1] && marked && report[3] == request[2] && report[4]
                == request[3] ==> kind == ResponseKind::Error {
                legacy: report[2] == 0x8f,
                code: report[5],
            }
            &&& report[1] != request[1] ==> kind == ResponseKind::Unrelated
            &&& !marked && (report[2] != request[2] || report[3] != request[3]) ==> kind
                == ResponseKind::Unrelated
            &&& marked && (report[3] != request[2] || report[4] != request[3]) ==> kind
                == ResponseKind::Unrelated
        }),
{
}

/// The first-generation remote is vendor 046d with product c53e or b503, and nothing else.
pub proof fn only_two_products_are_spotlights(vendor: u16, product: u16)
    ensures
        spec_is_spotlight(0x046d, 0xc53e),
        spec_is_spotlight(0x046d, 0xb503),
        spec_is_spotlight(vendor, product) ==> vendor == 0x046d && (product == 0xc53e || product
            == 0xb503),
{
}

/// A feature is asked for at the root feature, function 0, under the software id 0a, by its
/// code, the high byte first.
pub proof fn features_are_asked_for_by_their_code(device: u8, code: u16)
    ensures
        ({
            let request = feature_request_bytes(device, code);
            &&& request.len() == 20
            &&& request[1] == device
            &&& request[2] == 0
            &&& request[3] == 0x0a
            &&& 256 * request[4] + request[5] == code
            &&& forall|i: int| 6 <= i < 20 ==> #[trigger] request[i] == 0
        }),
{
}

/// A reply to the question for a feature names its index, zero meaning that there is none;
/// an error of it is the device's error, and no other report answers.
pub proof fn a_feature_is_found_by_its_reply(reply: Seq<u8>, device: u8, code: u16)
    requires
        is_report(reply),
    ensures
        ({
            let answer = feature_answer(reply, feature_request_bytes(device, code));
            let ours = reply[1] == device;
            &&& ours && reply[2] == 0 && reply[3] == 0x0a && reply[4] != 0 ==> answer == Ok::<
                Option<u8>,
                ProtocolError,
            >(Some(reply[4]))
            &&& ours && reply[2] == 0 && reply[3] == 0x0a && reply[4] == 0 ==> answer == Ok::<
                Option<u8>,
                ProtocolError,
            >(None)
            &&& ours && (reply[2] == 0x8f || reply[2] == 0xfe) && reply[3] == 0 && reply[4] == 0x0a
                ==> answer == Err::<Option<u8>, ProtocolError>(
                ProtocolError::Device { legacy: reply[2] == 0x8f, code: reply[5] },
            )
            &&& !ours ==> answer == Err::<Option<u8>, ProtocolError>(
                ProtocolError::UnrelatedResponse,
            )
            &&& reply[2] != 0 && reply[2] != 0x8f && reply[2] != 0xfe ==> answer == Err::<
                Option<u8>,
                ProtocolError,
            >(ProtocolError::UnrelatedResponse)
        }),
{
    assert(feature_request_bytes(device, code)[3] == 0x0a);
    assert(0x0au8 / 16 == 0);
}

/// A question for anything else than a feature is answered by nothing.
pub proof fn only_feature_questions_find_features(reply: Seq<u8>, request: Seq<u8>)
    requires
        is_report(reply),
        is_report(request),
        request[2] != 0 || request[3] >= 16,
    ensures
        feature_answer(reply, request) == Err::<Option<u8>, ProtocolError>(
            ProtocolError::UnrelatedResponse,
        ),
{
}

} // verus!
