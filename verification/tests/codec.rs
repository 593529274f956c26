use ryzenmaster_monitor::codec::{checksum, clamp, encode_handshake, encode_status};
use ryzenmaster_monitor::single::single_bits;

fn sum_1_to_15(packet: &[u8; 64]) -> u8 {
    let mut total: u32 = 0;
    for value in &packet[1..=15] {
        total += *value as u32;
    }
    (total % 256) as u8
}

#[test]
fn single_bits_match_hardware_conversion_on_edges() {
    let edges: [i32; 30] = [
        0,
        1,
        -1,
        2,
        3,
        45,
        -40,
        100,
        255,
        256,
        65535,
        8388607,
        8388608,
        16777215,
        16777216,
        16777217,
        16777218,
        16777219,
        16777221,
        -16777217,
        -16777219,
        33554430,
        33554434,
        33554438,
        2147483520,
        2147483583,
        2147483584,
        i32::MAX,
        i32::MIN,
        i32::MIN + 1,
    ];
    for value in edges {
        assert_eq!(single_bits(value), (value as f32).to_bits(), "value {value}");
    }
}

#[test]
fn single_bits_match_hardware_conversion_on_a_sweep() {
    let mut value: i64 = i32::MIN as i64;
    while value <= i32::MAX as i64 {
        let v = value as i32;
        assert_eq!(single_bits(v), (v as f32).to_bits(), "value {v}");
        value += 104_729;
    }
    for v in -70_000..70_000 {
        assert_eq!(single_bits(v), (v as f32).to_bits(), "value {v}");
    }
}

#[test]
fn single_bits_round_ties_to_even() {
    // 2^24 + 1 lies halfway between 2^24 and 2^24 + 2: the even significand wins.
    assert_eq!(single_bits(16_777_217), 0x4B80_0000);
    // 2^24 + 3 lies halfway between 2^24 + 2 and 2^24 + 4.
    assert_eq!(single_bits(16_777_219), 0x4B80_0002);
    // The largest integer rounds up into the next binade.
    assert_eq!(single_bits(i32::MAX), 0x4F00_0000);
    assert_eq!(single_bits(i32::MIN), 0xCF00_0000);
}

#[test]
fn single_bits_known_patterns() {
    assert_eq!(single_bits(0), 0);
    assert_eq!(single_bits(1), 0x3F80_0000);
    assert_eq!(single_bits(-1), 0xBF80_0000);
    assert_eq!(single_bits(45), 0x4234_0000);
    assert_eq!(single_bits(-2), 0xC000_0000);
}

#[test]
fn clamp_limits_both_ways() {
    assert_eq!(clamp(-1, 0, 65535), 0);
    assert_eq!(clamp(70000, 0, 65535), 65535);
    assert_eq!(clamp(120, 0, 65535), 120);
    assert_eq!(clamp(0, 0, 100), 0);
    assert_eq!(clamp(100, 0, 100), 100);
    assert_eq!(clamp(101, 0, 100), 100);
}

#[test]
fn handshake_frames_are_the_fixed_bytes() {
    let frames = encode_handshake();
    let mut first = [0u8; 64];
    first[..9].copy_from_slice(&[16, 104, 1, 1, 2, 3, 1, 112, 22]);
    let mut second = [0u8; 64];
    second[..9].copy_from_slice(&[16, 104, 1, 1, 2, 2, 1, 111, 22]);
    assert_eq!(frames[0], first);
    assert_eq!(frames[1], second);
}

#[test]
fn handshake_frames_differ_in_two_bytes_only() {
    let frames = encode_handshake();
    for i in 0..64 {
        if i == 5 || i == 7 {
            assert_ne!(frames[0][i], frames[1][i]);
        } else {
            assert_eq!(frames[0][i], frames[1][i]);
        }
    }
}

#[test]
fn status_example_frame() {
    let packet = encode_status(45, 120, 37);
    assert_eq!(&packet[0..8], &[16, 104, 1, 1, 11, 1, 2, 5]);
    assert_eq!(&packet[8..10], &[0x00, 0x78]);
    assert_eq!(packet[10], 0);
    assert_eq!(&packet[11..15], &[0x42, 0x34, 0x00, 0x00]);
    assert_eq!(packet[15], 0x25);
    assert_eq!(packet[16], sum_1_to_15(&packet));
    // 104+1+1+11+1+2+5 + 0x78 + 0x42+0x34 + 0x25 = 125 + 120 + 118 + 37 = 400
    assert_eq!(packet[16], (400 % 256) as u8);
    assert_eq!(packet[17], 22);
    for i in 18..64 {
        assert_eq!(packet[i], 0);
    }
}

#[test]
fn status_power_is_clamped_before_splitting() {
    let low = encode_status(45, -1, 37);
    assert_eq!(&low[8..10], &[0, 0]);
    let high = encode_status(45, 70000, 37);
    assert_eq!(&high[8..10], &[0xFF, 0xFF]);
    let exact = encode_status(45, 65535, 37);
    assert_eq!(&exact[8..10], &[0xFF, 0xFF]);
    let mid = encode_status(45, 0x1234, 37);
    assert_eq!(&mid[8..10], &[0x12, 0x34]);
}

#[test]
fn status_usage_is_clamped() {
    assert_eq!(encode_status(45, 120, -5)[15], 0);
    assert_eq!(encode_status(45, 120, 0)[15], 0);
    assert_eq!(encode_status(45, 120, 100)[15], 100);
    assert_eq!(encode_status(45, 120, 101)[15], 100);
    assert_eq!(encode_status(45, 120, i32::MAX)[15], 100);
    assert_eq!(encode_status(45, 120, i32::MIN)[15], 0);
}

#[test]
fn status_temperature_is_not_clamped() {
    let cold = encode_status(-300, 0, 0);
    assert_eq!(&cold[11..15], &(-300.0f32).to_bits().to_be_bytes());
    let hot = encode_status(1_000_000, 0, 0);
    assert_eq!(&hot[11..15], &(1_000_000.0f32).to_bits().to_be_bytes());
}

#[test]
fn status_temperature_round_trips() {
    for t in [-16_777_216, -273, -1, 0, 1, 45, 99, 100, 1000, 16_777_216] {
        let packet = encode_status(t, 0, 0);
        let bits = u32::from_be_bytes([packet[11], packet[12], packet[13], packet[14]]);
        assert_eq!(f32::from_bits(bits), t as f32);
        assert_eq!(f32::from_bits(bits) as i32, t);
    }
}

#[test]
fn status_checksum_holds_for_many_frames() {
    for t in [-50, 0, 45, 300] {
        for p in [-1, 0, 120, 255, 256, 65535, 70000] {
            for u in [-1, 0, 37, 100, 250] {
                let packet = encode_status(t, p, u);
                assert_eq!(packet[16], sum_1_to_15(&packet));
                assert_eq!(packet[16], checksum(&packet));
            }
        }
    }
}

#[test]
fn checksum_ignores_bytes_outside_its_range() {
    let mut packet = [0u8; 64];
    packet[0] = 200;
    packet[16] = 99;
    packet[63] = 7;
    assert_eq!(checksum(&packet), 0);
    for i in 1..16 {
        packet[i] = 255;
    }
    assert_eq!(checksum(&packet), ((15 * 255) % 256) as u8);
}
