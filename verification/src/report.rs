//! Output reports as they go over the wire: one report-id byte, always zero,
//! followed by a 64-byte payload.
//!
//! The monitor's frames fill the payload whole ([`frame_report`]); the
//! sender's payloads are shorter and padded with zeros ([`build_packet`]).

use crate::codec::Packet;
use crate::text::{decimal_text, push_decimal};
use vstd::prelude::*;
use vstd::string::StringExecFns;

verus! {

/// The report id that heads every output report.
pub const LD_REPORT_ID: u8 = 0x00;

/// Payload bytes in a report.
pub const LD_REPORT_SIZE: usize = 64;

/// Largest payload a caller may hand over.
pub const LD_MAX_PAYLOAD: usize = 63;

/// Bytes in a report on the wire: the report id and the payload.
pub const WIRE_REPORT_SIZE: usize = 65;

/// One report as it is handed to the device in a single write.
pub type Report = [u8; 65];

/// A payload that does not fit a report.
#[derive(Clone, Copy, Debug, PartialEq, Eq, Structural)]
pub struct PayloadTooLong {
    /// Length of the payload that was refused.
    pub length: usize,
}

impl PayloadTooLong {
    /// The error in words.
    pub open spec fn text_of(self) -> Seq<char> {
        "Payload length "@ + decimal_text(self.length as nat) + " exceeds maximum 63."@
    }

    /// The error in words, as it is shown to the user.
    pub fn message(&self) -> (message: String)
        ensures
            message@ == self.text_of(),
    {
        let mut message = String::from_str("Payload length ");
        push_decimal(&mut message, self.length as u64);
        message.append(" exceeds maximum 63.");
        message
    }
}

/// The report that carries a whole frame: the report id, then the frame
/// unchanged. For a 64-byte frame that is 65 bytes.
pub open spec fn wire_report(frame: Seq<u8>) -> Seq<u8> {
    seq![0u8] + frame
}

/// The 65-byte report that carries `payload`: the report id, the payload, and
/// zeros up to the full length.
pub open spec fn report_bytes(payload: Seq<u8>) -> Seq<u8>
    recommends
        payload.len() <= 63,
{
    seq![0u8] + payload + Seq::new((64 - payload.len()) as nat, |i: int| 0u8)
}

/// One little-endian 32-bit word.
pub open spec fn little_endian_32(word: u32) -> Seq<u8> {
    seq![
        (word % 256) as u8,
        ((word / 0x100) % 256) as u8,
        ((word / 0x1_0000) % 256) as u8,
        (word / 0x100_0000) as u8,
    ]
}

/// The metrics payload: temperature, power and utilization, each as the four
/// little-endian bytes of its single-precision bit pattern.
pub open spec fn metrics_payload(temperature: u32, power: u32, utilization: u32) -> Seq<u8> {
    little_endian_32(temperature) + little_endian_32(power) + little_endian_32(utilization)
}

/// Puts the report id in front of a frame: the 65 bytes that go to the
/// device in one write.
pub fn frame_report(frame: &Packet) -> (report: Report)
    ensures
        report@ == wire_report(frame@),
        report@.len() == 65,
        report@[0] == 0,
        forall|i: int| 0 <= i < 64 ==> report@[i + 1] == frame@[i],
{
    let mut report: Report = [0u8; 65];
    let mut i: usize = 0;
    while i < 64
        invariant
            i <= 64,
            report@[0] == 0,
            forall|j: int| 0 <= j < i ==> report@[j + 1] == frame@[j],
        decreases 64 - i,
    {
        report[i + 1] = frame[i];
        i = i + 1;
    }
    assert(report@ =~= wire_report(frame@));
    report
}

/// A whole frame fills the payload of its report: nothing is padded and
/// nothing is cut, and the frame can be read back from behind the report id.
pub proof fn law_wire_report(frame: Seq<u8>)
    ensures
        wire_report(frame).len() == frame.len() + 1,
        wire_report(frame)[0] == 0,
        wire_report(frame).subrange(1, frame.len() as int + 1) == frame,
        frame.len() <= 63 ==> report_bytes(frame).subrange(0, frame.len() as int + 1) == wire_report(
            frame,
        ),
{
    assert(wire_report(frame).subrange(1, frame.len() as int + 1) =~= frame);
    if frame.len() <= 63 {
        assert(report_bytes(frame).subrange(0, frame.len() as int + 1) =~= wire_report(frame));
    }
}

/// Frames a payload of at most 63 bytes as a 65-byte output report. A longer
/// payload is refused.
pub fn build_packet(payload: &[u8]) -> (result: Result<Vec<u8>, PayloadTooLong>)
    ensures
        payload@.len() <= 63 ==> result is Ok && result->Ok_0@ == report_bytes(payload@),
        payload@.len() > 63 ==> result == Err::<Vec<u8>, PayloadTooLong>(
            PayloadTooLong { length: payload@.len() as usize },
        ),
{
    if payload.len() > LD_MAX_PAYLOAD {
        return Err(PayloadTooLong { length: payload.len() });
    }
    let mut packet: Vec<u8> = Vec::new();
    packet.push(LD_REPORT_ID);
    let mut i: usize = 0;
    while i < payload.len()
        invariant
            i <= payload@.len() <= 63,
            packet@ == seq![0u8] + payload@.subrange(0, i as int),
        decreases payload@.len() - i,
    {
        packet.push(payload[i]);
        i = i + 1;
        assert(packet@ =~= seq![0u8] + payload@.subrange(0, i as int));
    }
    assert(payload@.subrange(0, i as int) =~= payload@);
    let ghost filled = packet@;
    while packet.len() < LD_REPORT_SIZE + 1
        invariant
            filled == seq![0u8] + payload@,
            payload@.len() <= 63,
            filled.len() <= packet@.len() <= 65,
            packet@ == filled + Seq::new((packet@.len() - filled.len()) as nat, |i: int| 0u8),
        decreases 65 - packet@.len(),
    {
        packet.push(0);
        assert(packet@ =~= filled + Seq::new(
            (packet@.len() - filled.len()) as nat,
            |i: int| 0u8,
        ));
    }
    assert(packet@ =~= report_bytes(payload@));
    Ok(packet)
}

/// Appends the four little-endian bytes of `word`.
fn push_little_endian_32(out: &mut Vec<u8>, word: u32)
    ensures
        final(out)@ == old(out)@ + little_endian_32(word),
{
    out.push((word % 256) as u8);
    out.push(((word / 0x100) % 256) as u8);
    out.push(((word / 0x1_0000) % 256) as u8);
    out.push((word / 0x100_0000) as u8);
    assert(final(out)@ =~= old(out)@ + little_endian_32(word));
}

/// The 12-byte payload of three readings given by their single-precision
/// bit patterns.
pub fn build_metrics_payload(temperature: u32, power: u32, utilization: u32) -> (payload: Vec<u8>)
    ensures
        payload@ == metrics_payload(temperature, power, utilization),
        payload@.len() == 12,
{
    let mut payload: Vec<u8> = Vec::with_capacity(12);
    push_little_endian_32(&mut payload, temperature);
    push_little_endian_32(&mut payload, power);
    push_little_endian_32(&mut payload, utilization);
    assert(payload@ =~= metrics_payload(temperature, power, utilization));
    payload
}

} // verus!
