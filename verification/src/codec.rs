//! Fixed-size device reports: the two handshake frames that prime the display
//! and the checksummed status frame sent on every tick.

use crate::single::{
    law_single_round_trip, single_bits, single_bits_of, single_representable,
    single_scaled_value,
};
use vstd::arithmetic::power2::pow2;
use vstd::prelude::*;

verus! {

/// Number of bytes in one device report payload.
pub const PACKET_SIZE: usize = 64;

/// One device report payload.
pub type Packet = [u8; 64];

/// Largest power reading the wire format can carry, in watts.
pub const POWER_MAX: i32 = 65535;

/// Largest utilization the wire format can carry, in percent.
pub const USAGE_MAX: i32 = 100;

/// Position of the checksum byte in a status frame.
pub const CHECKSUM_INDEX: usize = 16;

/// `value` limited to the closed range from `low` to `high`.
pub open spec fn clamp_int(value: int, low: int, high: int) -> int {
    if value < low {
        low
    } else if value > high {
        high
    } else {
        value
    }
}

/// Sum of the bytes of `s`.
pub open spec fn byte_sum(s: Seq<u8>) -> int
    decreases s.len(),
{
    if s.len() == 0 {
        0
    } else {
        byte_sum(s.drop_last()) + s.last()
    }
}

/// The checksum of a frame: the sum of its bytes 1 to 15, modulo 256.
pub open spec fn frame_checksum(frame: Seq<u8>) -> int
    recommends
        frame.len() >= 16,
{
    byte_sum(frame.subrange(1, 16)) % 256
}

/// The number that four bytes spell when read most significant byte first.
pub open spec fn big_endian_32(b0: u8, b1: u8, b2: u8, b3: u8) -> nat {
    (((b0 as nat * 256 + b1 as nat) * 256 + b2 as nat) * 256 + b3 as nat)
}

/// The handshake frame number `variant` (0 or 1). The two frames differ in
/// bytes 5 and 7 only.
pub open spec fn handshake_frame(variant: int) -> Seq<u8> {
    seq![
        16u8,
        104u8,
        1u8,
        1u8,
        2u8,
        if variant == 0 { 3u8 } else { 2u8 },
        1u8,
        if variant == 0 { 112u8 } else { 111u8 },
        22u8,
    ] + Seq::new(55, |i: int| 0u8)
}

/// Bytes 0 to 15 of the status frame for the given whole-number readings:
/// header, command, power clamped to `0..=65535` high byte first, a reserved
/// zero, the four bytes of the temperature as a single-precision number most
/// significant first, and usage clamped to `0..=100`.
pub open spec fn status_head(temperature_c: int, power_w: int, usage_pct: int) -> Seq<u8> {
    let power = clamp_int(power_w, 0, 65535);
    let bits = single_bits_of(temperature_c);
    let usage = clamp_int(usage_pct, 0, 100);
    seq![
        16u8,
        104u8,
        1u8,
        1u8,
        11u8,
        1u8,
        2u8,
        5u8,
        (power / 256) as u8,
        (power % 256) as u8,
        0u8,
        (bits / 0x100_0000) as u8,
        ((bits / 0x1_0000) % 256) as u8,
        ((bits / 0x100) % 256) as u8,
        (bits % 256) as u8,
        usage as u8,
    ]
}

/// The whole 64-byte status frame: the head, its checksum, the trailer byte 22
/// and zero padding.
pub open spec fn status_frame(temperature_c: int, power_w: int, usage_pct: int) -> Seq<u8> {
    let head = status_head(temperature_c, power_w, usage_pct);
    head + seq![(byte_sum(head.subrange(1, 16)) % 256) as u8, 22u8] + Seq::new(46, |i: int| 0u8)
}

/// Limits `value` to the closed range from `low` to `high`.
pub fn clamp(value: i32, low: i32, high: i32) -> (limited: i32)
    requires
        low <= high,
    ensures
        limited == clamp_int(value as int, low as int, high as int),
{
    if value < low {
        low
    } else if value > high {
        high
    } else {
        value
    }
}

/// Computes the checksum of a frame: the sum of bytes 1 to 15, modulo 256.
pub fn checksum(packet: &Packet) -> (sum: u8)
    ensures
        sum == frame_checksum(packet@),
{
    let mut total: u16 = 0;
    let mut i: usize = 1;
    assert(packet@.subrange(1, 1) =~= Seq::<u8>::empty());
    while i < 16
        invariant
            1 <= i <= 16,
            total == byte_sum(packet@.subrange(1, i as int)),
            total <= 255 * (i - 1),
        decreases 16 - i,
    {
        assert(packet@.subrange(1, i + 1).drop_last() =~= packet@.subrange(1, i as int));
        total = total + packet[i] as u16;
        i = i + 1;
    }
    (total % 256) as u8
}

/// The two handshake frames, in the order in which they are sent.
pub fn encode_handshake() -> (frames: [Packet; 2])
    ensures
        frames@[0]@ == handshake_frame(0),
        frames@[1]@ == handshake_frame(1),
        forall|i: int| 0 <= i < 64 && i != 5 && i != 7 ==> frames@[0]@[i] == frames@[1]@[i],
{
    let mut first: Packet = [0u8; 64];
    first[0] = 16;
    first[1] = 104;
    first[2] = 1;
    first[3] = 1;
    first[4] = 2;
    first[5] = 3;
    first[6] = 1;
    first[7] = 112;
    first[8] = 22;
    let mut second: Packet = first;
    second[5] = 2;
    second[7] = 111;
    assert(first@ =~= handshake_frame(0));
    assert(second@ =~= handshake_frame(1));
    [first, second]
}

/// Splitting a 32-bit number into bytes and reading them back most significant
/// first gives the number again.
pub proof fn lemma_big_endian_32(bits: nat)
    requires
        bits < 0x1_0000_0000,
    ensures
        bits / 0x100_0000 < 256,
        big_endian_32(
            (bits / 0x100_0000) as u8,
            ((bits / 0x1_0000) % 256) as u8,
            ((bits / 0x100) % 256) as u8,
            (bits % 256) as u8,
        ) == bits,
{
}

/// Builds the status frame for whole-number readings. Power is clamped to
/// `0..=65535` and usage to `0..=100`; the temperature is not clamped.
pub fn encode_status(temperature_c: i32, power_w: i32, usage_pct: i32) -> (packet: Packet)
    ensures
        packet@ == status_frame(temperature_c as int, power_w as int, usage_pct as int),
        packet@[8] as int * 256 + packet@[9] as int == clamp_int(power_w as int, 0, 65535),
        packet@[15] == clamp_int(usage_pct as int, 0, 100),
        packet@[16] == frame_checksum(packet@),
        big_endian_32(packet@[11], packet@[12], packet@[13], packet@[14]) == single_bits_of(
            temperature_c as int,
        ),
{
    let mut packet: Packet = [0u8; 64];
    packet[0] = 16;
    packet[1] = 104;
    packet[2] = 1;
    packet[3] = 1;
    packet[4] = 11;
    packet[5] = 1;
    packet[6] = 2;
    packet[7] = 5;

    let power = clamp(power_w, 0, POWER_MAX);
    packet[8] = (power / 256) as u8;
    packet[9] = (power % 256) as u8;

    packet[10] = 0;
    let bits = single_bits(temperature_c);
    packet[11] = (bits / 0x100_0000) as u8;
    packet[12] = ((bits / 0x1_0000) % 256) as u8;
    packet[13] = ((bits / 0x100) % 256) as u8;
    packet[14] = (bits % 256) as u8;

    packet[15] = clamp(usage_pct, 0, USAGE_MAX) as u8;

    let ghost head = status_head(temperature_c as int, power_w as int, usage_pct as int);
    assert(packet@.subrange(1, 16) =~= head.subrange(1, 16));
    packet[CHECKSUM_INDEX] = checksum(&packet);
    packet[17] = 22;
    proof {
        lemma_big_endian_32(bits as nat);
        assert(packet@.subrange(1, 16) =~= head.subrange(1, 16));
        assert(packet@ =~= status_frame(temperature_c as int, power_w as int, usage_pct as int));
    }
    packet
}

/// The fields of every status frame, whatever the readings: power and usage
/// within their ranges, the checksum over bytes 1 to 15, and the fixed bytes
/// around them.
pub proof fn law_status_frame_fields(temperature_c: int, power_w: int, usage_pct: int)
    ensures
        ({
            let frame = status_frame(temperature_c, power_w, usage_pct);
            &&& frame.len() == 64
            &&& frame.subrange(0, 8) == seq![16u8, 104u8, 1u8, 1u8, 11u8, 1u8, 2u8, 5u8]
            &&& frame[8] as int * 256 + frame[9] as int == clamp_int(power_w, 0, 65535)
            &&& frame[10] == 0
            &&& frame[15] == clamp_int(usage_pct, 0, 100)
            &&& frame[16] == frame_checksum(frame)
            &&& frame[17] == 22
            &&& forall|i: int| 18 <= i < 64 ==> frame[i] == 0
        }),
{
    let frame = status_frame(temperature_c, power_w, usage_pct);
    let head = status_head(temperature_c, power_w, usage_pct);
    assert(frame.subrange(1, 16) =~= head.subrange(1, 16));
    assert(frame.subrange(0, 8) =~= seq![16u8, 104u8, 1u8, 1u8, 11u8, 1u8, 2u8, 5u8]);
}

/// Reading bytes 11 to 14 of a status frame back as a single-precision number
/// gives the temperature that went in, for every temperature that is itself a
/// single-precision number: all of `-2^24..=2^24`, and beyond that every
/// integer with at most 24 significant bits.
pub proof fn law_temperature_round_trip(temperature_c: int, power_w: int, usage_pct: int)
    requires
        -0x8000_0000 <= temperature_c < 0x8000_0000,
        single_representable(temperature_c),
    ensures
        ({
            let frame = status_frame(temperature_c, power_w, usage_pct);
            single_scaled_value(big_endian_32(frame[11], frame[12], frame[13], frame[14]))
                == temperature_c * pow2(149)
        }),
{
    law_single_round_trip(temperature_c);
    lemma_big_endian_32(single_bits_of(temperature_c));
}


} // verus!
