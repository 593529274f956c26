//! The lines that the monitor writes to its log.

use crate::monitor::Notice;
use crate::status::ProviderStatus;
use crate::text::{hex4_text, push_hex4, push_signed_decimal, signed_decimal_text};
use vstd::prelude::*;
use vstd::string::StringExecFns;

verus! {

/// A provider failure in words: what was being done, the status's text, and
/// its code in brackets.
pub open spec fn failure_line(doing: Seq<char>, status: ProviderStatus) -> Seq<char> {
    "ryzenmaster-monitor: "@ + doing + ": "@ + status.text_of() + " ("@
        + signed_decimal_text(status.code_of()) + ")"@
}

/// The log line of a notice; `None` where there is nothing to log.
pub open spec fn notice_line(notice: Notice) -> Option<Seq<char>> {
    match notice {
        Notice::Nothing => None,
        Notice::ProviderReady => Some("ryzenmaster-monitor: telemetry ready"@),
        Notice::ProviderInitFailed(status) => Some(failure_line("telemetry init failed"@, status)),
        Notice::DeviceReady => Some("ryzenmaster-monitor: USB HID ready"@),
        Notice::DeviceNotFound { vendor_id, product_id } => Some(
            "ryzenmaster-monitor: USB HID device not found (vid=0x"@ + hex4_text(vendor_id)
                + " pid=0x"@ + hex4_text(product_id) + ")"@,
        ),
        Notice::DeviceInitFailed => Some(
            "ryzenmaster-monitor: USB HID init failed, running without USB output"@,
        ),
        Notice::ReadFailed(status) => Some(failure_line("telemetry read failed"@, status)),
        Notice::ReadFailedAfterRetry(status) => Some(
            failure_line("telemetry read failed after retry"@, status),
        ),
        Notice::DeviceLost => Some(
            "ryzenmaster-monitor: USB HID write failed, disabling USB output"@,
        ),
    }
}

/// Whether the line of a notice belongs on the error stream rather than on
/// the output stream: everything but the two announcements of readiness.
pub open spec fn is_error_spec(notice: Notice) -> bool {
    !(notice == Notice::Nothing || notice == Notice::ProviderReady || notice
        == Notice::DeviceReady)
}

/// Writes a provider failure in words.
fn failure_message(doing: &str, status: ProviderStatus) -> (line: String)
    ensures
        line@ == failure_line(doing@, status),
{
    let mut line = String::from_str("ryzenmaster-monitor: ");
    line.append(doing);
    line.append(": ");
    line.append(status.message());
    line.append(" (");
    push_signed_decimal(&mut line, status.code());
    line.append(")");
    line
}

/// The log line of a notice, if it has one.
pub fn notice_message(notice: Notice) -> (line: Option<String>)
    ensures
        match line {
            Some(text) => notice_line(notice) == Some(text@),
            None => notice_line(notice) is None,
        },
{
    match notice {
        Notice::Nothing => None,
        Notice::ProviderReady => Some(String::from_str("ryzenmaster-monitor: telemetry ready")),
        Notice::ProviderInitFailed(status) => Some(
            failure_message("telemetry init failed", status),
        ),
        Notice::DeviceReady => Some(String::from_str("ryzenmaster-monitor: USB HID ready")),
        Notice::DeviceNotFound { vendor_id, product_id } => {
            let mut line = String::from_str(
                "ryzenmaster-monitor: USB HID device not found (vid=0x",
            );
            push_hex4(&mut line, vendor_id);
            line.append(" pid=0x");
            push_hex4(&mut line, product_id);
            line.append(")");
            Some(line)
        },
        Notice::DeviceInitFailed => Some(
            String::from_str(
                "ryzenmaster-monitor: USB HID init failed, running without USB output",
            ),
        ),
        Notice::ReadFailed(status) => Some(failure_message("telemetry read failed", status)),
        Notice::ReadFailedAfterRetry(status) => Some(
            failure_message("telemetry read failed after retry", status),
        ),
        Notice::DeviceLost => Some(
            String::from_str("ryzenmaster-monitor: USB HID write failed, disabling USB output"),
        ),
    }
}

/// Whether the line of a notice belongs on the error stream.
pub fn is_error(notice: Notice) -> (error: bool)
    ensures
        error == is_error_spec(notice),
{
    match notice {
        Notice::Nothing => false,
        Notice::ProviderReady => false,
        Notice::DeviceReady => false,
        _ => true,
    }
}

} // verus!
