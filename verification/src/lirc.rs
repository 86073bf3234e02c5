//! The LIRC character-device interface: feature bits and the
//! `struct lirc_scancode` record exchanged with the kernel.

use vstd::prelude::*;

verus! {

/// `LIRC_MODE_SCANCODE` from `include/uapi/linux/lirc.h`.
pub const LIRC_MODE_SCANCODE: u32 = 0x0000_0008;
/// `LIRC_CAN_REC_SCANCODE` feature bit.
pub const LIRC_CAN_REC_SCANCODE: u32 = 0x0000_0800;
/// `LIRC_CAN_SEND_SCANCODE` feature bit.
pub const LIRC_CAN_SEND_SCANCODE: u32 = 0x0000_0008;
/// `LIRC_CAN_SET_SEND_CARRIER` feature bit.
pub const LIRC_CAN_SET_SEND_CARRIER: u32 = 0x0000_1000;
/// Size of `struct lirc_scancode` in bytes.
pub const LIRC_SCANCODE_SIZE: usize = 24;

/// Whether a device's LIRC feature word allows scancode reception.
pub fn can_receive_scancodes(features: u32) -> (r: bool)
    ensures
        r == (features & LIRC_CAN_REC_SCANCODE != 0),
{
    features & LIRC_CAN_REC_SCANCODE != 0
}

/// Whether a device's LIRC feature word allows scancode transmission.
pub fn can_send_scancodes(features: u32) -> (r: bool)
    ensures
        r == (features & LIRC_CAN_SEND_SCANCODE != 0),
{
    features & LIRC_CAN_SEND_SCANCODE != 0
}

/// Whether a device's LIRC feature word allows setting the send carrier.
pub fn can_set_send_carrier(features: u32) -> (r: bool)
    ensures
        r == (features & LIRC_CAN_SET_SEND_CARRIER != 0),
{
    features & LIRC_CAN_SET_SEND_CARRIER != 0
}

/// Little-endian bytes of a 16-bit value.
pub open spec fn le16_bytes(v: u16) -> Seq<u8> {
    seq![(v & 0xff) as u8, (v >> 8) as u8]
}

/// Little-endian bytes of a 64-bit value.
pub open spec fn le64_bytes(v: u64) -> Seq<u8> {
    Seq::new(8, |k: int| crate::encoder::byte_at(v, k as u64))
}

/// The 16-bit little-endian value at `at`.
pub open spec fn le16_at(b: Seq<u8>, at: int) -> int {
    b[at] as int + 256 * (b[at + 1] as int)
}

/// The 64-bit little-endian value at `at`.
pub open spec fn le64_at(b: Seq<u8>, at: int) -> int {
    b[at] as int + 0x100 * (b[at + 1] as int) + 0x1_0000 * (b[at + 2] as int) + 0x100_0000 * (b[at + 3] as int)
        + 0x1_0000_0000 * (b[at + 4] as int) + 0x100_0000_0000 * (b[at + 5] as int) + 0x1_0000_0000_0000 * (b[
        at + 6] as int) + 0x100_0000_0000_0000 * (b[at + 7] as int)
}

/// `struct lirc_scancode` (arm64, little endian) for a send request:
/// timestamp, flags and keycode zero, `rc_proto` at byte 10, `scancode` at
/// byte 16.
pub open spec fn spec_lirc_scancode_bytes(rc_proto: u16, scancode: u64) -> Seq<u8> {
    Seq::new(10, |k: int| 0u8) + le16_bytes(rc_proto) + Seq::new(4, |k: int| 0u8) + le64_bytes(scancode)
}

/// The bytes of a `struct lirc_scancode` send request.
pub fn lirc_scancode_bytes(rc_proto: u16, scancode: u64) -> (r: Vec<u8>)
    ensures
        r@ == spec_lirc_scancode_bytes(rc_proto, scancode),
{
    let mut out: Vec<u8> = Vec::with_capacity(LIRC_SCANCODE_SIZE);
    let mut i: usize = 0;
    while i < 10
        invariant
            i <= 10,
            out@ =~= Seq::new(i as nat, |k: int| 0u8),
        decreases 10 - i,
    {
        out.push(0u8);
        i = i + 1;
    }
    out.push((rc_proto & 0xff) as u8);
    out.push((rc_proto >> 8u16) as u8);
    i = 0;
    while i < 4
        invariant
            i <= 4,
            out@ =~= Seq::new(10, |k: int| 0u8) + le16_bytes(rc_proto) + Seq::new(i as nat, |k: int| 0u8),
        decreases 4 - i,
    {
        out.push(0u8);
        i = i + 1;
    }
    let mut k: u64 = 0;
    while k < 8
        invariant
            k <= 8,
            out@ =~= Seq::new(10, |k: int| 0u8) + le16_bytes(rc_proto) + Seq::new(4, |k: int| 0u8) + le64_bytes(
                scancode,
            ).take(k as int),
        decreases 8 - k,
    {
        out.push(((scancode >> (8 * k)) & 0xff) as u8);
        k = k + 1;
    }
    assert(le64_bytes(scancode).take(8) =~= le64_bytes(scancode));
    out
}

/// Read `(rc_proto, scancode, flags)` from a `struct lirc_scancode` the
/// receiver delivered; `None` for a short read.
pub fn decode_lirc_scancode(buf: &[u8]) -> (r: Option<(u16, u64, u16)>)
    ensures
        buf@.len() < LIRC_SCANCODE_SIZE ==> r is None,
        buf@.len() >= LIRC_SCANCODE_SIZE ==> (r matches Some((p, s, f)) && p as int == le16_at(buf@, 10) && s as int
            == le64_at(buf@, 16) && f as int == le16_at(buf@, 8)),
{
    if buf.len() < LIRC_SCANCODE_SIZE {
        return None;
    }
    let flags: u16 = (buf[8] as u16) + (buf[9] as u16) * 256;
    let rc_proto: u16 = (buf[10] as u16) + (buf[11] as u16) * 256;
    let scancode: u64 = (buf[16] as u64) + (buf[17] as u64) * 0x100 + (buf[18] as u64) * 0x1_0000 + (buf[19] as u64)
        * 0x100_0000 + (buf[20] as u64) * 0x1_0000_0000 + (buf[21] as u64) * 0x100_0000_0000 + (buf[22] as u64)
        * 0x1_0000_0000_0000 + (buf[23] as u64) * 0x100_0000_0000_0000;
    Some((rc_proto, scancode, flags))
}

/// A send request read back as a received scancode gives the same
/// protocol and scancode, with no flags.
pub proof fn lemma_lirc_scancode_roundtrip(rc_proto: u16, scancode: u64)
    ensures
        spec_lirc_scancode_bytes(rc_proto, scancode).len() == LIRC_SCANCODE_SIZE,
        le16_at(spec_lirc_scancode_bytes(rc_proto, scancode), 10) == rc_proto,
        le64_at(spec_lirc_scancode_bytes(rc_proto, scancode), 16) == scancode,
        le16_at(spec_lirc_scancode_bytes(rc_proto, scancode), 8) == 0,
{
    let b = spec_lirc_scancode_bytes(rc_proto, scancode);
    assert(b[10] == (rc_proto & 0xff) as u8);
    assert(b[11] == (rc_proto >> 8) as u8);
    assert(((rc_proto & 0xff) as u8) as int + 256 * (((rc_proto >> 8) as u8) as int) == rc_proto) by {
        assert(((rc_proto & 0xff) as u8) as u32 + 256 * (((rc_proto >> 8) as u8) as u32) == rc_proto as u32)
            by (bit_vector);
    }
    let (s0, s1, s2, s3, s4, s5, s6, s7) = (
        crate::encoder::byte_at(scancode, 0),
        crate::encoder::byte_at(scancode, 1),
        crate::encoder::byte_at(scancode, 2),
        crate::encoder::byte_at(scancode, 3),
        crate::encoder::byte_at(scancode, 4),
        crate::encoder::byte_at(scancode, 5),
        crate::encoder::byte_at(scancode, 6),
        crate::encoder::byte_at(scancode, 7),
    );
    assert(b[16] == s0 && b[17] == s1 && b[18] == s2 && b[19] == s3 && b[20] == s4 && b[21] == s5 && b[22] == s6
        && b[23] == s7);
    assert(s0 as int + 0x100 * (s1 as int) + 0x1_0000 * (s2 as int) + 0x100_0000 * (s3 as int) + 0x1_0000_0000 * (
    s4 as int) + 0x100_0000_0000 * (s5 as int) + 0x1_0000_0000_0000 * (s6 as int) + 0x100_0000_0000_0000 * (
    s7 as int) == scancode) by {
        assert(s0 as u128 + 0x100 * (s1 as u128) + 0x1_0000 * (s2 as u128) + 0x100_0000 * (s3 as u128) + 0x1_0000_0000
            * (s4 as u128) + 0x100_0000_0000 * (s5 as u128) + 0x1_0000_0000_0000 * (s6 as u128) + 0x100_0000_0000_0000
            * (s7 as u128) == scancode as u128) by (bit_vector)
            requires
                s0 == ((scancode >> 0u64) & 0xffu64) as u8,
                s1 == ((scancode >> 8u64) & 0xffu64) as u8,
                s2 == ((scancode >> 16u64) & 0xffu64) as u8,
                s3 == ((scancode >> 24u64) & 0xffu64) as u8,
                s4 == ((scancode >> 32u64) & 0xffu64) as u8,
                s5 == ((scancode >> 40u64) & 0xffu64) as u8,
                s6 == ((scancode >> 48u64) & 0xffu64) as u8,
                s7 == ((scancode >> 56u64) & 0xffu64) as u8,
        ;
    }
}

} // verus!
