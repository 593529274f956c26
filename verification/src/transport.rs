//! Rules of the device channel: which device is the display, and when a
//! write counts.
//!
//! The channel itself is the caller's. It carries no retry of its own: a
//! failure is reported as it is and the control loop decides what follows.

use crate::report::WIRE_REPORT_SIZE;
use vstd::prelude::*;

verus! {

/// Vendor id of the display.
pub const K_FIXED_VID: u16 = 0x3633;

/// Product id of the display.
pub const K_FIXED_PID: u16 = 0x000A;

/// What was learnt of one device interface while looking for the display.
#[derive(Clone, Copy, Debug, PartialEq, Eq, Structural)]
pub enum Probe {
    /// The size of the interface's detail record could not be learnt.
    SizeUnknown,
    /// The detail record could not be read.
    DetailUnavailable,
    /// The interface could not be opened.
    OpenRefused,
    /// The interface is open. `attributes_read` tells whether its ids could
    /// be read; they count only if so.
    Opened { attributes_read: bool, vendor_id: u16, product_id: u16 },
}

/// What to do with a probed interface.
#[derive(Clone, Copy, Debug, PartialEq, Eq, Structural)]
pub enum Verdict {
    /// Nothing is open: go on to the next interface.
    Skip,
    /// Close the interface and go on to the next.
    CloseAndSkip,
    /// This is the display: keep the interface open and stop looking.
    Take,
}

/// Whether a write counts: the call succeeded and took the whole report, all
/// 65 bytes of it.
pub open spec fn write_accepted_spec(completed: bool, bytes_written: int) -> bool {
    completed && bytes_written == 65
}

/// The verdict on a probed interface when looking for the device with the
/// given ids: only an open interface whose ids were read and match both is
/// taken.
pub open spec fn judge_spec(probe: Probe, vendor_id: u16, product_id: u16) -> Verdict {
    match probe {
        Probe::Opened { attributes_read, vendor_id: found_vendor, product_id: found_product } => if
            attributes_read && found_vendor == vendor_id && found_product == product_id {
            Verdict::Take
        } else {
            Verdict::CloseAndSkip
        },
        _ => Verdict::Skip,
    }
}

/// Whether a write counts: the call succeeded and took the whole report, the
/// report id and the 64 bytes of the frame. A short write is a failure like
/// any other.
pub fn write_accepted(completed: bool, bytes_written: usize) -> (accepted: bool)
    ensures
        accepted == write_accepted_spec(completed, bytes_written as int),
{
    completed && bytes_written == WIRE_REPORT_SIZE
}

/// Decides what to do with a probed interface when looking for the device
/// with the given ids.
pub fn judge(probe: Probe, vendor_id: u16, product_id: u16) -> (verdict: Verdict)
    ensures
        verdict == judge_spec(probe, vendor_id, product_id),
{
    match probe {
        Probe::Opened { attributes_read, vendor_id: found_vendor, product_id: found_product } => {
            if attributes_read && found_vendor == vendor_id && found_product == product_id {
                Verdict::Take
            } else {
                Verdict::CloseAndSkip
            }
        },
        _ => Verdict::Skip,
    }
}

} // verus!
