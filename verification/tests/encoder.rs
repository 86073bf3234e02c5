use one_kvm_ir::encode;

/// Decode the data bytes back out of an NEC pulse train: strip the
/// 9 ms / 4.5 ms header and the trailing mark + space, turn each
/// (mark, space) pair into a bit (560 space = 0, 1690 = 1) and re-pack
/// the LSB-first bits per byte.
fn decode_bytes(frame: &[u32]) -> Vec<u8> {
    assert_eq!(frame[0], 9000);
    assert_eq!(frame[1], 4500);
    let pairs = &frame[2..frame.len() - 2];
    assert_eq!(pairs.len() % 2, 0);
    let bits: Vec<bool> = pairs
        .chunks(2)
        .map(|p| {
            assert_eq!(p[0], 560);
            p[1] == 1690
        })
        .collect();
    assert_eq!(bits.len() % 8, 0);
    bits.chunks(8)
        .map(|byte_bits| {
            byte_bits
                .iter()
                .enumerate()
                .fold(0u8, |acc, (i, &bit)| acc | ((bit as u8) << i))
        })
        .collect()
}

/// NEC 16-bit: 0x807F = addr 0x80, cmd 0x7F → wire order
/// addr, ~addr, cmd, ~cmd = 80 7F 7F 80.
#[test]
fn nec_sends_addr_inv_addr_cmd_inv_cmd() {
    let bytes = decode_bytes(&encode("nec", 0x807F).unwrap());
    assert_eq!(bytes, vec![0x80, 0x7F, 0x7F, 0x80]);
}

/// NECX: addr = bits 16-23, addr2 = bits 8-15, cmd = bits 0-7, then !cmd.
/// 0xFFEE80 → addr 0xFF, addr2 0xEE, cmd 0x80, !cmd 0x7F.
#[test]
fn necx_uses_24bit_layout_and_appends_inverted_cmd() {
    let bytes = decode_bytes(&encode("necx", 0xFFEE80).unwrap());
    assert_eq!(bytes, vec![0xFF, 0xEE, 0x80, 0x7F]);
}

/// NEC32: the learned value packs ~addr = bits 24-31, addr = bits 16-23,
/// ~cmd = bits 8-15, cmd = bits 0-7; wire order is addr, ~addr, cmd, ~cmd.
/// 0x00FF_807F → FF 00 7F 80.
#[test]
fn nec32_addr_inverted_addr_cmd_inverted_cmd() {
    let bytes = decode_bytes(&encode("nec32", 0x00FF_807F).unwrap());
    assert_eq!(bytes, vec![0xFF, 0x00, 0x7F, 0x80]);
}

/// Scancodes wider than the protocol bit width are rejected instead of
/// being silently truncated.
#[test]
fn out_of_range_scancodes_return_none() {
    assert!(encode("nec", 0x1_0000).is_none()); // > 16 bit
    assert!(encode("necx", 0x100_0000).is_none()); // > 24 bit
    assert!(encode("nec32", 0x1_0000_0000).is_none()); // > 32 bit
    assert!(encode("unknown", 0).is_none());
}

#[test]
fn encoded_frames_have_header_bits_and_trailer() {
    let f = encode("nec", 0x04FB).unwrap();
    assert_eq!(f.len(), 68);
    assert_eq!(&f[..2], &[9000, 4500]);
    assert_eq!(&f[66..], &[560, 40000]);
    for i in 0..32 {
        assert_eq!(f[2 + 2 * i], 560);
        assert!(f[3 + 2 * i] == 560 || f[3 + 2 * i] == 1690);
    }
}

#[test]
fn widest_scancodes_still_encode() {
    assert_eq!(decode_bytes(&encode("nec", 0xFFFF).unwrap()), vec![0xFF, 0x00, 0xFF, 0x00]);
    assert_eq!(decode_bytes(&encode("necx", 0xFF_FFFF).unwrap()), vec![0xFF, 0xFF, 0xFF, 0x00]);
    assert_eq!(decode_bytes(&encode("nec32", 0xFFFF_FFFF).unwrap()), vec![0xFF, 0xFF, 0xFF, 0xFF]);
    assert_eq!(decode_bytes(&encode("nec", 0).unwrap()), vec![0x00, 0xFF, 0x00, 0xFF]);
}

#[test]
fn decoded_bytes_give_back_the_scancode() {
    let b = decode_bytes(&encode("nec", 0x1234).unwrap());
    assert_eq!(((b[0] as u64) << 8) | b[2] as u64, 0x1234);
    assert_eq!(b[1], !b[0]);
    assert_eq!(b[3], !b[2]);
    let b = decode_bytes(&encode("necx", 0xABCDEF).unwrap());
    assert_eq!(((b[0] as u64) << 16) | ((b[1] as u64) << 8) | b[2] as u64, 0xABCDEF);
    let b = decode_bytes(&encode("nec32", 0x1234_5678).unwrap());
    assert_eq!(((b[1] as u64) << 24) | ((b[0] as u64) << 16) | ((b[3] as u64) << 8) | b[2] as u64, 0x1234_5678);
}

#[test]
fn protocol_names_are_exact() {
    assert!(encode("NEC", 1).is_none());
    assert!(encode("nec ", 1).is_none());
    assert!(encode("", 1).is_none());
}
