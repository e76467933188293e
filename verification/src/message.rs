//! What the errors say.
use crate::controls::{ControlError, Reporting};
use crate::protocol::ProtocolError;
use crate::text;
use vstd::prelude::*;

verus! {

/// A control identifier as it is shown: four hexadecimal digits.
pub open spec fn cid_text(cid: u16) -> Seq<char> {
    text::hex(cid as nat, 4)
}

/// The fields of a reporting state.
pub open spec fn reporting_text(reporting: Reporting) -> Seq<char> {
    "Reporting { flags: "@ + text::decimal(reporting.flags as nat) + ", mapped_to: "@
        + text::decimal(reporting.mapped_to as nat) + " }"@
}

pub fn push_cid(out: &mut String, cid: u16)
    ensures
        final(out)@ == old(out)@ + cid_text(cid),
{
    text::push_hex(out, cid as u64, 4);
}

fn push_reporting(out: &mut String, reporting: Reporting)
    ensures
        final(out)@ == old(out)@ + reporting_text(reporting),
{
    let ghost before = out@;
    out.append("Reporting { flags: ");
    text::push_decimal(out, reporting.flags as u64);
    out.append(", mapped_to: ");
    text::push_decimal(out, reporting.mapped_to as u64);
    out.append(" }");
    assert(out@ =~= before + reporting_text(reporting));
}

/// The message of a lease error.
pub open spec fn control_message(error: ControlError) -> Seq<char>
    decreases error,
{
    match error {
        ControlError::Transport(message) => message@,
        ControlError::ControlCount => "Unexpected Spotlight control count"@,
        ControlError::TruncatedCapability => "Truncated control capability reply"@,
        ControlError::NotDivertible { cid } =>
        "This device does not report a divertible Spotlight control "@ + cid_text(cid),
        ControlError::ReportingMismatch { cid } =>
        "Truncated or mismatched reporting reply for control "@ + cid_text(cid),
        ControlError::AlreadyDiverted { cid, flags } => "Control "@ + cid_text(cid)
            + " is already diverted or using raw XY (flags="@ + text::hex(flags as nat, 4)
            + "); another client or an unfinished session may own it. No settings changed."@,
        ControlError::Acknowledgement => "Unexpected setCidReporting acknowledgement"@,
        ControlError::ReadbackMismatch { cid, actual } => "Control "@ + cid_text(cid)
            + " readback mismatch: "@ + reporting_text(actual),
        ControlError::RolledBack { cause, cid } => control_message(*cause)
            + "; original setting of control "@ + cid_text(cid) + " restored and verified"@,
        ControlError::RollbackFailed { cause, restore } => control_message(*cause)
            + "; RESTORE FAILED: "@ + control_message(*restore),
        ControlError::RestorationDiffers { cid, original, actual } => "Control "@ + cid_text(cid)
            + " restoration readback differs: original="@ + reporting_text(original) + ", actual="@
            + reporting_text(actual) + "; unrelated settings were not overwritten"@,
        ControlError::RecoveryRefused { cid } => "Recovery refused: control "@ + cid_text(cid)
            + " settings differ from an interrupted default session"@,
    }
}

impl ControlError {
    /// Appends the message.
    fn push(&self, out: &mut String)
        ensures
            final(out)@ == old(out)@ + control_message(*self),
        decreases self,
    {
        let ghost before = out@;
        match self {
            ControlError::Transport(message) => out.append(message.as_str()),
            ControlError::ControlCount => out.append("Unexpected Spotlight control count"),
            ControlError::TruncatedCapability => out.append("Truncated control capability reply"),
            ControlError::NotDivertible { cid } => {
                out.append("This device does not report a divertible Spotlight control ");
                push_cid(out, *cid);
            },
            ControlError::ReportingMismatch { cid } => {
                out.append("Truncated or mismatched reporting reply for control ");
                push_cid(out, *cid);
            },
            ControlError::AlreadyDiverted { cid, flags } => {
                out.append("Control ");
                push_cid(out, *cid);
                out.append(" is already diverted or using raw XY (flags=");
                text::push_hex(out, *flags as u64, 4);
                out.append(
                    "); another client or an unfinished session may own it. No settings changed.",
                );
            },
            ControlError::Acknowledgement => out.append(
                "Unexpected setCidReporting acknowledgement",
            ),
            ControlError::ReadbackMismatch { cid, actual } => {
                out.append("Control ");
                push_cid(out, *cid);
                out.append(" readback mismatch: ");
                push_reporting(out, *actual);
            },
            ControlError::RolledBack { cause, cid } => {
                cause.push(out);
                out.append("; original setting of control ");
                push_cid(out, *cid);
                out.append(" restored and verified");
            },
            ControlError::RollbackFailed { cause, restore } => {
                cause.push(out);
                out.append("; RESTORE FAILED: ");
                restore.push(out);
            },
            ControlError::RestorationDiffers { cid, original, actual } => {
                out.append("Control ");
                push_cid(out, *cid);
                out.append(" restoration readback differs: original=");
                push_reporting(out, *original);
                out.append(", actual=");
                push_reporting(out, *actual);
                out.append("; unrelated settings were not overwritten");
            },
            ControlError::RecoveryRefused { cid } => {
                out.append("Recovery refused: control ");
                push_cid(out, *cid);
                out.append(" settings differ from an interrupted default session");
            },
        }
        assert(out@ =~= before + control_message(*self));
    }

    pub fn message(&self) -> (message: String)
        ensures
            message@ == control_message(*self),
    {
        let mut message = String::new();
        self.push(&mut message);
        assert(message@ =~= control_message(*self));
        message
    }
}

/// The message of a protocol error.
pub open spec fn protocol_message(error: ProtocolError) -> Seq<char> {
    match error {
        ProtocolError::InvalidReport => "InvalidReport"@,
        ProtocolError::InvalidFunction => "InvalidFunction"@,
        ProtocolError::InvalidSoftwareId => "InvalidSoftwareId"@,
        ProtocolError::PayloadTooLong => "PayloadTooLong"@,
        ProtocolError::UnrelatedResponse => "UnrelatedResponse"@,
        ProtocolError::Device { legacy, code } => "Device { legacy: "@ + (if legacy {
            "true"@
        } else {
            "false"@
        }) + ", code: "@ + text::decimal(code as nat) + " }"@,
    }
}

impl ProtocolError {
    pub fn message(&self) -> (message: String)
        ensures
            message@ == protocol_message(*self),
    {
        match self {
            ProtocolError::InvalidReport => "InvalidReport".to_owned(),
            ProtocolError::InvalidFunction => "InvalidFunction".to_owned(),
            ProtocolError::InvalidSoftwareId => "InvalidSoftwareId".to_owned(),
            ProtocolError::PayloadTooLong => "PayloadTooLong".to_owned(),
            ProtocolError::UnrelatedResponse => "UnrelatedResponse".to_owned(),
            ProtocolError::Device { legacy, code } => {
                let mut message = "Device { legacy: ".to_owned();
                message.append(
                    if *legacy {
                        "true"
                    } else {
                        "false"
                    },
                );
                message.append(", code: ");
                text::push_decimal(&mut message, *code as u64);
                message.append(" }");
                message
            },
        }
    }
}

/// What an error is about stands in its message: the control as four hexadecimal digits, and
/// of a rollback what failed first and what came of undoing it.
pub proof fn messages_tell_what_happened(
    cid: u16,
    flags: u16,
    cause: ControlError,
    restore: ControlError,
)
    ensures
        cid_text(cid) == text::hex(cid as nat, 4),
        control_message(ControlError::NotDivertible { cid })
            == "This device does not report a divertible Spotlight control "@ + cid_text(cid),
        control_message(ControlError::ReportingMismatch { cid })
            == "Truncated or mismatched reporting reply for control "@ + cid_text(cid),
        control_message(ControlError::RecoveryRefused { cid }) == "Recovery refused: control "@
            + cid_text(cid) + " settings differ from an interrupted default session"@,
        control_message(ControlError::RolledBack { cause: Box::new(cause), cid })
            == control_message(cause) + "; original setting of control "@ + cid_text(cid)
            + " restored and verified"@,
        control_message(
            ControlError::RollbackFailed { cause: Box::new(cause), restore: Box::new(restore) },
        ) == control_message(cause) + "; RESTORE FAILED: "@ + control_message(restore),
        control_message(ControlError::AlreadyDiverted { cid, flags }) == "Control "@ + cid_text(cid)
            + " is already diverted or using raw XY (flags="@ + text::hex(flags as nat, 4)
            + "); another client or an unfinished session may own it. No settings changed."@,
{
    reveal_with_fuel(control_message, 2);
}

/// An error of the device tells whether it is of the older protocol, and its code.
pub proof fn protocol_errors_tell_their_fields(code: u8)
    ensures
        protocol_message(ProtocolError::Device { legacy: true, code }) == "Device { legacy: "@
            + "true"@ + ", code: "@ + text::decimal(code as nat) + " }"@,
        protocol_message(ProtocolError::Device { legacy: false, code }) == "Device { legacy: "@
            + "false"@ + ", code: "@ + text::decimal(code as nat) + " }"@,
        protocol_message(ProtocolError::UnrelatedResponse) == "UnrelatedResponse"@,
{
}

} // verus!
