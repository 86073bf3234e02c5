//! NEC-family encoding in userspace: a protocol name and scancode become
//! the alternating mark/space durations (µs, mark first) that the GPIO
//! transmitter modulates.

use vstd::prelude::*;

verus! {

/// Header mark of an NEC frame (µs).
pub const NEC_HEADER_MARK: u32 = 9000;
/// Header space of an NEC frame (µs).
pub const NEC_HEADER_SPACE: u32 = 4500;
/// Mark that starts every bit, and the space of a 0 bit (µs).
pub const NEC_BIT_MARK: u32 = 560;
/// Space of a 1 bit (µs).
pub const NEC_ONE_SPACE: u32 = 1690;
/// Settling space after the trailing mark (µs).
pub const NEC_TRAILING_SPACE: u32 = 40000;

/// Bit `i` (0 = least significant) of `byte`.
pub open spec fn bit_of(byte: u8, i: int) -> bool {
    (byte >> (i as u8)) & 1u8 == 1u8
}

/// The eight bits of `byte`, least significant first.
pub open spec fn byte_bits(byte: u8) -> Seq<bool> {
    Seq::new(8, |i: int| bit_of(byte, i))
}

/// The bits of a byte sequence, each byte least significant bit first.
pub open spec fn wire_bits(bytes: Seq<u8>) -> Seq<bool>
    decreases bytes.len(),
{
    if bytes.len() == 0 {
        Seq::empty()
    } else {
        byte_bits(bytes[0]) + wire_bits(bytes.drop_first())
    }
}

/// The mark/space pairs of a bit sequence, in order.
pub open spec fn bits_pulses(bits: Seq<bool>) -> Seq<u32> {
    Seq::new(2 * bits.len(), |k: int| if k % 2 == 0 { NEC_BIT_MARK } else if bits[k / 2] { NEC_ONE_SPACE } else { NEC_BIT_MARK })
}

/// An NEC frame: header mark and space, one pair per bit, trailing mark
/// and settling space.
pub open spec fn nec_frame(bits: Seq<bool>) -> Seq<u32> {
    seq![NEC_HEADER_MARK, NEC_HEADER_SPACE] + bits_pulses(bits) + seq![NEC_BIT_MARK, NEC_TRAILING_SPACE]
}

fn bits_lsb_first(byte: u8) -> (bits: Vec<bool>)
    ensures
        bits@ == byte_bits(byte),
{
    let mut bits: Vec<bool> = Vec::with_capacity(8);
    let mut i: u8 = 0;
    while i < 8
        invariant
            i <= 8,
            bits@.len() == i,
            forall|j: int| 0 <= j < i ==> bits@[j] == bit_of(byte, j),
        decreases 8 - i,
    {
        let one = byte & (1u8 << i) != 0;
        assert(one == bit_of(byte, i as int)) by {
            assert((byte & (1u8 << i) != 0) == ((byte >> i) & 1u8 == 1u8)) by (bit_vector)
                requires i < 8u8;
        }
        bits.push(one);
        i = i + 1;
    }
    assert(bits@ =~= byte_bits(byte));
    bits
}

fn frame(bits: &[bool]) -> (out: Vec<u32>)
    ensures
        out@ == nec_frame(bits@),
{
    let mut out: Vec<u32> = Vec::new();
    out.push(NEC_HEADER_MARK);
    out.push(NEC_HEADER_SPACE);
    let mut i: usize = 0;
    while i < bits.len()
        invariant
            i <= bits@.len(),
            out@ =~= seq![NEC_HEADER_MARK, NEC_HEADER_SPACE] + bits_pulses(bits@.take(i as int)),
        decreases bits@.len() - i,
    {
        out.push(NEC_BIT_MARK);
        out.push(if bits[i] { NEC_ONE_SPACE } else { NEC_BIT_MARK });
        i = i + 1;
        assert(bits_pulses(bits@.take(i as int)) =~= bits_pulses(bits@.take(i - 1)).push(NEC_BIT_MARK).push(
            if bits@[i - 1] { NEC_ONE_SPACE } else { NEC_BIT_MARK }));
    }
    assert(bits@.take(i as int) =~= bits@);
    out.push(NEC_BIT_MARK);
    out.push(NEC_TRAILING_SPACE);
    out
}

/// Byte `k` (0 = least significant) of `s`.
pub open spec fn byte_at(s: u64, k: u64) -> u8 {
    ((s >> (8 * k)) & 0xffu64) as u8
}

/// NEC 16-bit wire order: addr, !addr, cmd, !cmd, where the scancode is
/// `(addr << 8) | cmd`.
pub open spec fn nec_wire_bytes(s: u64) -> Seq<u8> {
    seq![byte_at(s, 1), !byte_at(s, 1), byte_at(s, 0), !byte_at(s, 0)]
}

/// Extended NEC wire order: addr (bits 16-23), addr2 (bits 8-15),
/// cmd (bits 0-7), !cmd.
pub open spec fn necx_wire_bytes(s: u64) -> Seq<u8> {
    seq![byte_at(s, 2), byte_at(s, 1), byte_at(s, 0), !byte_at(s, 0)]
}

/// NEC32 wire order: the scancode packs !addr (bits 24-31), addr
/// (bits 16-23), !cmd (bits 8-15), cmd (bits 0-7); the wire carries
/// addr, !addr, cmd, !cmd.
pub open spec fn nec32_wire_bytes(s: u64) -> Seq<u8> {
    seq![byte_at(s, 2), byte_at(s, 3), byte_at(s, 0), byte_at(s, 1)]
}

/// What `encode` returns: `None` for a protocol without a userspace
/// encoder or a scancode wider than the protocol, else the NEC frame of
/// the protocol's wire bytes.
pub open spec fn spec_encode(proto: Seq<char>, s: u64) -> Option<Seq<u32>> {
    if proto == "nec"@ {
        if s <= 0xffff { Some(nec_frame(wire_bits(nec_wire_bytes(s)))) } else { None }
    } else if proto == "necx"@ {
        if s <= 0xff_ffff { Some(nec_frame(wire_bits(necx_wire_bytes(s)))) } else { None }
    } else if proto == "nec32"@ {
        if s <= 0xffff_ffff { Some(nec_frame(wire_bits(nec32_wire_bytes(s)))) } else { None }
    } else {
        None
    }
}

proof fn lemma_wire_bits4(a: u8, b: u8, c: u8, d: u8)
    ensures
        wire_bits(seq![a, b, c, d]) =~= byte_bits(a) + byte_bits(b) + byte_bits(c) + byte_bits(d),
{
    let s = seq![a, b, c, d];
    assert(s.drop_first() =~= seq![b, c, d]);
    assert(s.drop_first().drop_first() =~= seq![c, d]);
    assert(s.drop_first().drop_first().drop_first() =~= seq![d]);
    assert(s.drop_first().drop_first().drop_first().drop_first() =~= Seq::<u8>::empty());
    reveal_with_fuel(wire_bits, 5);
}

fn four_byte_frame(a: u8, b: u8, c: u8, d: u8) -> (out: Vec<u32>)
    ensures
        out@ == nec_frame(wire_bits(seq![a, b, c, d])),
{
    let mut bits: Vec<bool> = Vec::with_capacity(32);
    let mut ba = bits_lsb_first(a);
    let mut bb = bits_lsb_first(b);
    let mut bc = bits_lsb_first(c);
    let mut bd = bits_lsb_first(d);
    bits.append(&mut ba);
    bits.append(&mut bb);
    bits.append(&mut bc);
    bits.append(&mut bd);
    proof {
        lemma_wire_bits4(a, b, c, d);
    }
    frame(bits.as_slice())
}

/// 16-bit NEC: address, its complement, command, its complement.
fn encode_nec(scancode: u64) -> (r: Option<Vec<u32>>)
    ensures
        r matches Some(v) ==> scancode <= 0xffff && v@ == nec_frame(wire_bits(nec_wire_bytes(scancode))),
        r is None ==> scancode > 0xffff,
{
    if scancode > 0xffff {
        return None;
    }
    let sc: u16 = scancode as u16;
    let addr: u8 = (sc >> 8u16) as u8;
    let cmd: u8 = sc as u8;
    assert(addr == byte_at(scancode, 1) && cmd == byte_at(scancode, 0)) by (bit_vector)
        requires
            scancode <= 0xffff,
            sc == scancode as u16,
            addr == (sc >> 8u16) as u8,
            cmd == sc as u8,
    ;
    Some(four_byte_frame(addr, !addr, cmd, !cmd))
}

/// Extended NEC: two address bytes, the command and its complement.
fn encode_necx(scancode: u64) -> (r: Option<Vec<u32>>)
    ensures
        r matches Some(v) ==> scancode <= 0xff_ffff && v@ == nec_frame(wire_bits(necx_wire_bytes(scancode))),
        r is None ==> scancode > 0xff_ffff,
{
    if scancode > 0x00ff_ffff {
        return None;
    }
    let addr: u8 = (scancode >> 16u64) as u8;
    let addr2: u8 = (scancode >> 8u64) as u8;
    let cmd: u8 = scancode as u8;
    assert(addr == byte_at(scancode, 2) && addr2 == byte_at(scancode, 1) && cmd == byte_at(scancode, 0))
        by (bit_vector)
        requires
            addr == (scancode >> 16u64) as u8,
            addr2 == (scancode >> 8u64) as u8,
            cmd == scancode as u8,
    ;
    Some(four_byte_frame(addr, addr2, cmd, !cmd))
}

/// NEC32: all four bytes come from the scancode, reordered for the wire.
fn encode_nec32(scancode: u64) -> (r: Option<Vec<u32>>)
    ensures
        r matches Some(v) ==> scancode <= 0xffff_ffff && v@ == nec_frame(wire_bits(nec32_wire_bytes(scancode))),
        r is None ==> scancode > 0xffff_ffff,
{
    if scancode > 0xffff_ffff {
        return None;
    }
    let sc: u32 = scancode as u32;
    let b0: u8 = ((sc >> 16u32) & 0xff) as u8;
    let b1: u8 = ((sc >> 24u32) & 0xff) as u8;
    let b2: u8 = (sc & 0xff) as u8;
    let b3: u8 = ((sc >> 8u32) & 0xff) as u8;
    assert(b0 == byte_at(scancode, 2) && b1 == byte_at(scancode, 3) && b2 == byte_at(scancode, 0)
        && b3 == byte_at(scancode, 1)) by (bit_vector)
        requires
            scancode <= 0xffff_ffff,
            sc == scancode as u32,
            b0 == ((sc >> 16u32) & 0xff) as u8,
            b1 == ((sc >> 24u32) & 0xff) as u8,
            b2 == (sc & 0xff) as u8,
            b3 == ((sc >> 8u32) & 0xff) as u8,
    ;
    Some(four_byte_frame(b0, b1, b2, b3))
}

/// The pulse train (µs) of a learned code; `None` for a protocol this
/// encoder does not know, or a scancode wider than the protocol carries
/// (a too-wide code is refused, not cut down).
pub fn encode(proto: &str, scancode: u64) -> (r: Option<Vec<u32>>)
    ensures
        r matches Some(v) ==> spec_encode(proto@, scancode) == Some(v@),
        r is None ==> spec_encode(proto@, scancode) is None,
        r is Some <==> encodable(proto@, scancode),
{
    proof {
        lemma_encode_accepts_fitting_scancodes(proto@, scancode);
    }
    if crate::text::str_eq(proto, "nec") {
        encode_nec(scancode)
    } else if crate::text::str_eq(proto, "necx") {
        encode_necx(scancode)
    } else if crate::text::str_eq(proto, "nec32") {
        encode_nec32(scancode)
    } else {
        None
    }
}

/// The bits a pulse train carries: one per (mark, space) pair after the
/// header, a 1690 µs space being a 1.
pub open spec fn frame_bits(frame: Seq<u32>) -> Seq<bool> {
    Seq::new(((frame.len() - 4) / 2) as nat, |i: int| frame[2 + 2 * i + 1] == NEC_ONE_SPACE)
}

/// Re-pack eight bits, least significant first, into a byte.
#[verifier::opaque]
pub open spec fn pack_byte(bits: Seq<bool>) -> u8 {
    ((if bits[0] { 1int } else { 0int }) + (if bits[1] { 2int } else { 0int }) + (if bits[2] { 4int } else { 0int })
        + (if bits[3] { 8int } else { 0int }) + (if bits[4] { 16int } else { 0int }) + (if bits[5] { 32int } else { 0int })
        + (if bits[6] { 64int } else { 0int }) + (if bits[7] { 128int } else { 0int })) as u8
}

/// The data bytes a pulse train carries.
pub open spec fn frame_wire_bytes(frame: Seq<u32>) -> Seq<u8> {
    Seq::new(frame_bits(frame).len() / 8, |j: int| pack_byte(frame_bits(frame).subrange(8 * j, 8 * j + 8)))
}

/// A well-formed 32-bit NEC pulse train.
pub open spec fn is_nec_frame(frame: Seq<u32>) -> bool {
    &&& frame.len() == 68
    &&& frame[0] == NEC_HEADER_MARK
    &&& frame[1] == NEC_HEADER_SPACE
    &&& frame[66] == NEC_BIT_MARK
    &&& frame[67] == NEC_TRAILING_SPACE
    &&& forall|i: int| 0 <= i < 32 ==> #[trigger] frame[2 + 2 * i] == NEC_BIT_MARK
    &&& forall|i: int| 0 <= i < 32 ==> (#[trigger] frame[3 + 2 * i] == NEC_BIT_MARK || frame[3 + 2 * i] == NEC_ONE_SPACE)
}

/// The scancode a protocol's wire bytes stand for, `None` where the
/// protocol's inverted check bytes do not match.
pub open spec fn wire_scancode(proto: Seq<char>, bytes: Seq<u8>) -> Option<int> {
    if proto == "nec"@ {
        if bytes[1] == !bytes[0] && bytes[3] == !bytes[2] {
            Some((bytes[0] as int) * 256 + bytes[2] as int)
        } else {
            None
        }
    } else if proto == "necx"@ {
        if bytes[3] == !bytes[2] {
            Some((bytes[0] as int) * 65536 + (bytes[1] as int) * 256 + bytes[2] as int)
        } else {
            None
        }
    } else if proto == "nec32"@ {
        Some((bytes[1] as int) * 16777216 + (bytes[0] as int) * 65536 + (bytes[3] as int) * 256 + bytes[2] as int)
    } else {
        None
    }
}

proof fn lemma_pack_byte_bits(b: u8)
    ensures
        pack_byte(byte_bits(b)) == b,
{
    reveal(pack_byte);
    let bits = byte_bits(b);
    assert(((if bit_of(b, 0) { 1int } else { 0int }) + (if bit_of(b, 1) { 2int } else { 0int }) + (if bit_of(b, 2) { 4int } else { 0int })
        + (if bit_of(b, 3) { 8int } else { 0int }) + (if bit_of(b, 4) { 16int } else { 0int }) + (if bit_of(b, 5) { 32int } else { 0int })
        + (if bit_of(b, 6) { 64int } else { 0int }) + (if bit_of(b, 7) { 128int } else { 0int })) == b) by {
        assert(
            (if (b >> 0u8) & 1u8 == 1u8 { 1u64 } else { 0u64 }) + (if (b >> 1u8) & 1u8 == 1u8 { 2u64 } else { 0u64 })
            + (if (b >> 2u8) & 1u8 == 1u8 { 4u64 } else { 0u64 }) + (if (b >> 3u8) & 1u8 == 1u8 { 8u64 } else { 0u64 })
            + (if (b >> 4u8) & 1u8 == 1u8 { 16u64 } else { 0u64 }) + (if (b >> 5u8) & 1u8 == 1u8 { 32u64 } else { 0u64 })
            + (if (b >> 6u8) & 1u8 == 1u8 { 64u64 } else { 0u64 }) + (if (b >> 7u8) & 1u8 == 1u8 { 128u64 } else { 0u64 })
            == b as u64) by (bit_vector);
    }
}

proof fn lemma_frame_bits(bits: Seq<bool>)
    ensures
        frame_bits(nec_frame(bits)) =~= bits,
{
    let f = nec_frame(bits);
    assert forall|i: int| 0 <= i < bits.len() implies (f[2 + 2 * i + 1] == NEC_ONE_SPACE) == bits[i] by {
        assert(f[2 + 2 * i + 1] == bits_pulses(bits)[2 * i + 1]);
        assert((2 * i + 1) / 2 == i);
    }
}

proof fn lemma_frame_shape(bits: Seq<bool>)
    requires
        bits.len() == 32,
    ensures
        is_nec_frame(nec_frame(bits)),
{
    let f = nec_frame(bits);
    assert forall|i: int| 0 <= i < 32 implies #[trigger] f[2 + 2 * i] == NEC_BIT_MARK by {
        assert(f[2 + 2 * i] == bits_pulses(bits)[2 * i]);
    }
    assert forall|i: int| 0 <= i < 32 implies (#[trigger] f[3 + 2 * i] == NEC_BIT_MARK || f[3 + 2 * i]
        == NEC_ONE_SPACE) by {
        assert(f[3 + 2 * i] == bits_pulses(bits)[2 * i + 1]);
    }
}

proof fn lemma_wire_bits4_bytes(a: u8, b: u8, c: u8, d: u8)
    ensures
        wire_bits(seq![a, b, c, d]).len() == 32,
        pack_byte(wire_bits(seq![a, b, c, d]).subrange(0, 8)) == a,
        pack_byte(wire_bits(seq![a, b, c, d]).subrange(8, 16)) == b,
        pack_byte(wire_bits(seq![a, b, c, d]).subrange(16, 24)) == c,
        pack_byte(wire_bits(seq![a, b, c, d]).subrange(24, 32)) == d,
{
    lemma_wire_bits4(a, b, c, d);
    let bits = wire_bits(seq![a, b, c, d]);
    assert(bits.subrange(0, 8) =~= byte_bits(a));
    assert(bits.subrange(8, 16) =~= byte_bits(b));
    assert(bits.subrange(16, 24) =~= byte_bits(c));
    assert(bits.subrange(24, 32) =~= byte_bits(d));
    lemma_pack_byte_bits(a);
    lemma_pack_byte_bits(b);
    lemma_pack_byte_bits(c);
    lemma_pack_byte_bits(d);
}

proof fn lemma_frame_wire_bytes_of(bits: Seq<bool>)
    requires
        bits.len() == 32,
    ensures
        frame_wire_bytes(nec_frame(bits)) =~= seq![
            pack_byte(bits.subrange(0, 8)),
            pack_byte(bits.subrange(8, 16)),
            pack_byte(bits.subrange(16, 24)),
            pack_byte(bits.subrange(24, 32)),
        ],
{
    lemma_frame_bits(bits);
}

proof fn lemma_frame_wire_bytes4(a: u8, b: u8, c: u8, d: u8)
    ensures
        frame_wire_bytes(nec_frame(wire_bits(seq![a, b, c, d]))) =~= seq![a, b, c, d],
        is_nec_frame(nec_frame(wire_bits(seq![a, b, c, d]))),
{
    lemma_wire_bits4_bytes(a, b, c, d);
    let bits = wire_bits(seq![a, b, c, d]);
    lemma_frame_shape(bits);
    lemma_frame_wire_bytes_of(bits);
}

/// A scancode that fits its protocol: 16 bits for `nec`, 24 for `necx`,
/// 32 for `nec32`.
pub open spec fn encodable(proto: Seq<char>, s: u64) -> bool {
    ||| proto == "nec"@ && s < 0x1_0000
    ||| proto == "necx"@ && s < 0x100_0000
    ||| proto == "nec32"@ && s < 0x1_0000_0000
}

/// The encoder refuses a scancode only when its protocol is not one of
/// the NEC family or the scancode is wider than the protocol carries.
pub proof fn lemma_encode_accepts_fitting_scancodes(proto: Seq<char>, s: u64)
    ensures
        spec_encode(proto, s) is Some <==> encodable(proto, s),
{
    reveal_strlit("nec");
    reveal_strlit("necx");
    reveal_strlit("nec32");
    assert("nec"@.len() != "necx"@.len() && "nec"@.len() != "nec32"@.len() && "necx"@.len() != "nec32"@.len());
}

/// Every pulse train that `encode` produces is a well-formed 32-bit NEC
/// frame, and decoding it (data bytes from the spaces, then the protocol's
/// byte layout) gives back exactly the scancode that was encoded.
pub proof fn lemma_encode_decode_roundtrip(proto: Seq<char>, s: u64)
    ensures
        spec_encode(proto, s) matches Some(f) ==> {
            &&& is_nec_frame(f)
            &&& frame_wire_bytes(f).len() == 4
            &&& wire_scancode(proto, frame_wire_bytes(f)) == Some(s as int)
        },
{
    if proto == "nec"@ {
        if s <= 0xffff {
            let (a, c) = (byte_at(s, 1), byte_at(s, 0));
            lemma_frame_wire_bytes4(a, !a, c, !c);
            assert((a as u64) * 256 + c as u64 == s) by (bit_vector)
                requires s <= 0xffff, a == ((s >> 8u64) & 0xffu64) as u8, c == ((s >> 0u64) & 0xffu64) as u8;
        }
    } else if proto == "necx"@ {
        if s <= 0xff_ffff {
            let (a, b, c) = (byte_at(s, 2), byte_at(s, 1), byte_at(s, 0));
            lemma_frame_wire_bytes4(a, b, c, !c);
            assert((a as u64) * 65536 + (b as u64) * 256 + c as u64 == s) by (bit_vector)
                requires s <= 0xff_ffff, a == ((s >> 16u64) & 0xffu64) as u8, b == ((s >> 8u64) & 0xffu64) as u8,
                    c == ((s >> 0u64) & 0xffu64) as u8;
        }
    } else if proto == "nec32"@ {
        if s <= 0xffff_ffff {
            let (a, b, c, d) = (byte_at(s, 2), byte_at(s, 3), byte_at(s, 0), byte_at(s, 1));
            lemma_frame_wire_bytes4(a, b, c, d);
            assert((b as u64) * 16777216 + (a as u64) * 65536 + (d as u64) * 256 + c as u64 == s) by (bit_vector)
                requires s <= 0xffff_ffff, a == ((s >> 16u64) & 0xffu64) as u8, b == ((s >> 24u64) & 0xffu64) as u8,
                    c == ((s >> 0u64) & 0xffu64) as u8, d == ((s >> 8u64) & 0xffu64) as u8;
        }
    }
}

/// The bytes each protocol puts on the wire, from the scancode's value:
/// `nec` sends the high byte, its complement, the low byte and its
/// complement; `necx` the three bytes from the top and the complement of
/// the lowest; `nec32` bytes 2, 3, 0 and 1 of the scancode. Every frame is a
/// well-formed NEC pulse train.
pub proof fn lemma_encode_wire_bytes(proto: Seq<char>, s: u64)
    ensures
        proto == "nec"@ && s < 0x1_0000 ==> (spec_encode(proto, s) matches Some(f) && is_nec_frame(f) && frame_wire_bytes(f)
            == seq![(s / 0x100) as u8, (0xff - s / 0x100) as u8, (s % 0x100) as u8, (0xff - s % 0x100) as u8]),
        proto == "necx"@ && s < 0x100_0000 ==> (spec_encode(proto, s) matches Some(f) && is_nec_frame(f) && frame_wire_bytes(
            f,
        ) == seq![(s / 0x1_0000) as u8, (s / 0x100 % 0x100) as u8, (s % 0x100) as u8, (0xff - s % 0x100) as u8]),
        proto == "nec32"@ && s < 0x1_0000_0000 ==> (spec_encode(proto, s) matches Some(f) && is_nec_frame(f)
            && frame_wire_bytes(f) == seq![
            (s / 0x1_0000 % 0x100) as u8,
            (s / 0x100_0000) as u8,
            (s % 0x100) as u8,
            (s / 0x100 % 0x100) as u8,
        ]),
{
    reveal_strlit("nec");
    reveal_strlit("necx");
    reveal_strlit("nec32");
    assert("nec"@.len() != "necx"@.len() && "nec"@.len() != "nec32"@.len() && "necx"@.len() != "nec32"@.len());
    let (b0, b1, b2, b3) = (byte_at(s, 0), byte_at(s, 1), byte_at(s, 2), byte_at(s, 3));
    assert(b0 == (s % 0x100) as u8 && !b0 == (0xff - s % 0x100) as u8) by (bit_vector)
        requires b0 == ((s >> 0u64) & 0xffu64) as u8;
    assert(b1 == (s / 0x100 % 0x100) as u8) by (bit_vector)
        requires b1 == ((s >> 8u64) & 0xffu64) as u8;
    assert(b2 == (s / 0x1_0000 % 0x100) as u8) by (bit_vector)
        requires b2 == ((s >> 16u64) & 0xffu64) as u8;
    assert(b3 == (s / 0x100_0000 % 0x100) as u8) by (bit_vector)
        requires b3 == ((s >> 24u64) & 0xffu64) as u8;
    if proto == "nec"@ && s < 0x1_0000 {
        lemma_frame_wire_bytes4(b1, !b1, b0, !b0);
        assert(b1 == (s / 0x100) as u8 && !b1 == (0xff - s / 0x100) as u8) by (bit_vector)
            requires b1 == ((s >> 8u64) & 0xffu64) as u8, s < 0x1_0000;
    }
    if proto == "necx"@ && s < 0x100_0000 {
        lemma_frame_wire_bytes4(b2, b1, b0, !b0);
        assert(b2 == (s / 0x1_0000) as u8) by (bit_vector)
            requires b2 == ((s >> 16u64) & 0xffu64) as u8, s < 0x100_0000;
    }
    if proto == "nec32"@ && s < 0x1_0000_0000 {
        lemma_frame_wire_bytes4(b2, b3, b0, b1);
        assert(b3 == (s / 0x100_0000) as u8) by (bit_vector)
            requires b3 == ((s >> 24u64) & 0xffu64) as u8, s < 0x1_0000_0000;
    }
}

/// The four bytes an NEC-family frame carries for scancode `s`, worked out
/// from its value (see `lemma_encode_wire_bytes`).
pub open spec fn nec_family_bytes(proto: Seq<char>, s: u64) -> Seq<u8> {
    if proto == "nec"@ {
        seq![(s / 0x100) as u8, (0xff - s / 0x100) as u8, (s % 0x100) as u8, (0xff - s % 0x100) as u8]
    } else if proto == "necx"@ {
        seq![(s / 0x1_0000) as u8, (s / 0x100 % 0x100) as u8, (s % 0x100) as u8, (0xff - s % 0x100) as u8]
    } else {
        seq![(s / 0x1_0000 % 0x100) as u8, (s / 0x100_0000) as u8, (s % 0x100) as u8, (s / 0x100 % 0x100) as u8]
    }
}

proof fn lemma_frame_pulses4(w: Seq<u8>)
    requires
        w.len() == 4,
    ensures
        nec_frame(wire_bits(w)).len() == 68,
        forall|j: int, i: int|
            0 <= j < 4 && 0 <= i < 8 ==> #[trigger] nec_frame(wire_bits(w))[3 + 16 * j + 2 * i] == if bit_of(w[j], i) {
                NEC_ONE_SPACE
            } else {
                NEC_BIT_MARK
            },
        forall|j: int, i: int| 0 <= j < 4 && 0 <= i < 8 ==> #[trigger] nec_frame(wire_bits(w))[2 + 16 * j + 2 * i] == NEC_BIT_MARK,
{
    assert(w =~= seq![w[0], w[1], w[2], w[3]]);
    lemma_wire_bits4(w[0], w[1], w[2], w[3]);
    let bits = wire_bits(w);
    let f = nec_frame(bits);
    assert(bits.len() == 32);
    assert forall|j: int, i: int| 0 <= j < 4 && 0 <= i < 8 implies #[trigger] f[3 + 16 * j + 2 * i] == if bit_of(w[j], i) {
        NEC_ONE_SPACE
    } else {
        NEC_BIT_MARK
    } && f[2 + 16 * j + 2 * i] == NEC_BIT_MARK by {
        let k = 8 * j + i;
        assert(f[3 + 2 * k] == bits_pulses(bits)[2 * k + 1]);
        assert(f[2 + 2 * k] == bits_pulses(bits)[2 * k]);
        assert((2 * k + 1) / 2 == k);
        assert(bits[k] == byte_bits(w[j])[i]);
    }
}

/// The pulse train `encode` sends for a scancode that fits its protocol:
/// a 9000 µs mark and 4500 µs space, then for each of the four bytes of
/// `nec_family_bytes`, least significant bit first, a 560 µs mark and a
/// space of 1690 µs for a 1 or 560 µs for a 0, then a 560 µs mark and a
/// 40000 µs space.
pub proof fn lemma_encode_pulses(proto: Seq<char>, s: u64)
    requires
        encodable(proto, s),
    ensures
        spec_encode(proto, s) matches Some(f) && {
            &&& f.len() == 68
            &&& f[0] == 9000 && f[1] == 4500 && f[66] == 560 && f[67] == 40000
            &&& forall|j: int, i: int|
                0 <= j < 4 && 0 <= i < 8 ==> #[trigger] f[2 + 16 * j + 2 * i] == 560 && f[3 + 16 * j + 2 * i] == if (
                nec_family_bytes(proto, s)[j] >> (i as u8)) & 1u8 == 1u8 {
                    1690u32
                } else {
                    560u32
                }
        },
{
    reveal_strlit("nec");
    reveal_strlit("necx");
    reveal_strlit("nec32");
    assert("nec"@.len() != "necx"@.len() && "nec"@.len() != "nec32"@.len() && "necx"@.len() != "nec32"@.len());
    let (b0, b1, b2, b3) = (byte_at(s, 0), byte_at(s, 1), byte_at(s, 2), byte_at(s, 3));
    assert(b0 == (s % 0x100) as u8 && !b0 == (0xff - s % 0x100) as u8) by (bit_vector)
        requires b0 == ((s >> 0u64) & 0xffu64) as u8;
    assert(b1 == (s / 0x100 % 0x100) as u8) by (bit_vector)
        requires b1 == ((s >> 8u64) & 0xffu64) as u8;
    assert(b2 == (s / 0x1_0000 % 0x100) as u8) by (bit_vector)
        requires b2 == ((s >> 16u64) & 0xffu64) as u8;
    assert(b3 == (s / 0x100_0000 % 0x100) as u8) by (bit_vector)
        requires b3 == ((s >> 24u64) & 0xffu64) as u8;
    let w = if proto == "nec"@ {
        assert(b1 == (s / 0x100) as u8 && !b1 == (0xff - s / 0x100) as u8) by (bit_vector)
            requires b1 == ((s >> 8u64) & 0xffu64) as u8, s < 0x1_0000;
        nec_wire_bytes(s)
    } else if proto == "necx"@ {
        assert(b2 == (s / 0x1_0000) as u8) by (bit_vector)
            requires b2 == ((s >> 16u64) & 0xffu64) as u8, s < 0x100_0000;
        necx_wire_bytes(s)
    } else {
        assert(b3 == (s / 0x100_0000) as u8) by (bit_vector)
            requires b3 == ((s >> 24u64) & 0xffu64) as u8, s < 0x1_0000_0000;
        nec32_wire_bytes(s)
    };
    assert(w =~= nec_family_bytes(proto, s));
    lemma_frame_pulses4(w);
    lemma_frame_shape(wire_bits(w));
}

} // verus!
