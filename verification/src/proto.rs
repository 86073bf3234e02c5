//! rc-core protocol numbers and their names.

use vstd::prelude::*;

use crate::text::{decimal, owned, str_eq};

verus! {

/// Number of rc-core protocols with a known name.
pub const PROTO_COUNT: u16 = 28;

/// The rc-core name of protocol number `p`, if it has one.
pub open spec fn known_proto_name(p: u16) -> Option<Seq<char>> {
    if p >= PROTO_COUNT { None } else if p == 27 { Some("xbox_dvd"@) } else
    if p == 26 { Some("rcmm32"@) } else
    if p == 25 { Some("rcmm24"@) } else
    if p == 24 { Some("rcmm12"@) } else
    if p == 23 { Some("imon"@) } else
    if p == 22 { Some("cec"@) } else
    if p == 21 { Some("xmp"@) } else
    if p == 20 { Some("sharp"@) } else
    if p == 19 { Some("rc6_mce"@) } else
    if p == 18 { Some("rc6_6a_32"@) } else
    if p == 17 { Some("rc6_6a_24"@) } else
    if p == 16 { Some("rc6_6a_20"@) } else
    if p == 15 { Some("rc6_0"@) } else
    if p == 14 { Some("mcir2_mse"@) } else
    if p == 13 { Some("mcir2_kbd"@) } else
    if p == 12 { Some("sanyo"@) } else
    if p == 11 { Some("nec32"@) } else
    if p == 10 { Some("necx"@) } else
    if p == 9 { Some("nec"@) } else
    if p == 8 { Some("sony20"@) } else
    if p == 7 { Some("sony15"@) } else
    if p == 6 { Some("sony12"@) } else
    if p == 5 { Some("jvc"@) } else
    if p == 4 { Some("rc5_sz"@) } else
    if p == 3 { Some("rc5x_20"@) } else
    if p == 2 { Some("rc5"@) } else
    if p == 1 { Some("other"@) } else
    if p == 0 { Some("unknown"@) } else { None }
}

/// The name `proto_name` gives protocol number `p`.
pub open spec fn spec_proto_name(p: u16) -> Seq<char> {
    match known_proto_name(p) {
        Some(n) => n,
        None => "proto_"@ + decimal(p as nat),
    }
}

fn proto_table_name(p: u16) -> (r: Option<&'static str>)
    ensures
        r matches Some(s) ==> known_proto_name(p) == Some(s@),
        r is None ==> known_proto_name(p) is None,
{
    match p {
        27 => Some("xbox_dvd"),
        26 => Some("rcmm32"),
        25 => Some("rcmm24"),
        24 => Some("rcmm12"),
        23 => Some("imon"),
        22 => Some("cec"),
        21 => Some("xmp"),
        20 => Some("sharp"),
        19 => Some("rc6_mce"),
        18 => Some("rc6_6a_32"),
        17 => Some("rc6_6a_24"),
        16 => Some("rc6_6a_20"),
        15 => Some("rc6_0"),
        14 => Some("mcir2_mse"),
        13 => Some("mcir2_kbd"),
        12 => Some("sanyo"),
        11 => Some("nec32"),
        10 => Some("necx"),
        9 => Some("nec"),
        8 => Some("sony20"),
        7 => Some("sony15"),
        6 => Some("sony12"),
        5 => Some("jvc"),
        4 => Some("rc5_sz"),
        3 => Some("rc5x_20"),
        2 => Some("rc5"),
        1 => Some("other"),
        0 => Some("unknown"),
        _ => None,
    }
}

/// The rc-core name of a protocol number; unnamed numbers become `proto_<n>`.
pub fn proto_name(rc_proto: u16) -> (r: String)
    ensures
        r@ == spec_proto_name(rc_proto),
{
    match proto_table_name(rc_proto) {
        Some(name) => owned(name),
        None => {
            let mut out = owned("proto_");
            crate::text::push_decimal(&mut out, rc_proto as u64);
            out
        },
    }
}

/// The protocol number whose rc-core name is `name`.
pub fn proto_from_name(name: &str) -> (r: Option<u16>)
    ensures
        r matches Some(p) ==> known_proto_name(p) == Some(name@),
        r is None ==> forall|p: u16| known_proto_name(p) != Some(name@),
{
    let mut p: u16 = 0;
    while p < PROTO_COUNT
        invariant
            p <= PROTO_COUNT,
            forall|q: u16| q < p ==> known_proto_name(q) != Some(name@),
        decreases PROTO_COUNT - p,
    {
        match proto_table_name(p) {
            Some(s) => {
                if str_eq(name, s) {
                    return Some(p);
                }
            },
            None => {},
        }
        p = p + 1;
    }
    assert forall|q: u16| known_proto_name(q) != Some(name@) by {
        if q >= PROTO_COUNT {
            assert(known_proto_name(q) is None);
        }
    }
    None
}

/// Each named protocol number has, letter by letter, its rc-core name
/// (the kernel's `rc_proto` names of `include/uapi/linux/lirc.h`), and
/// numbers from 28 on have none.
pub proof fn lemma_kernel_proto_names()
    ensures
        known_proto_name(0) == Some(seq!['u', 'n', 'k', 'n', 'o', 'w', 'n']),
        known_proto_name(1) == Some(seq!['o', 't', 'h', 'e', 'r']),
        known_proto_name(2) == Some(seq!['r', 'c', '5']),
        known_proto_name(3) == Some(seq!['r', 'c', '5', 'x', '_', '2', '0']),
        known_proto_name(4) == Some(seq!['r', 'c', '5', '_', 's', 'z']),
        known_proto_name(5) == Some(seq!['j', 'v', 'c']),
        known_proto_name(6) == Some(seq!['s', 'o', 'n', 'y', '1', '2']),
        known_proto_name(7) == Some(seq!['s', 'o', 'n', 'y', '1', '5']),
        known_proto_name(8) == Some(seq!['s', 'o', 'n', 'y', '2', '0']),
        known_proto_name(9) == Some(seq!['n', 'e', 'c']),
        known_proto_name(10) == Some(seq!['n', 'e', 'c', 'x']),
        known_proto_name(11) == Some(seq!['n', 'e', 'c', '3', '2']),
        known_proto_name(12) == Some(seq!['s', 'a', 'n', 'y', 'o']),
        known_proto_name(13) == Some(seq!['m', 'c', 'i', 'r', '2', '_', 'k', 'b', 'd']),
        known_proto_name(14) == Some(seq!['m', 'c', 'i', 'r', '2', '_', 'm', 's', 'e']),
        known_proto_name(15) == Some(seq!['r', 'c', '6', '_', '0']),
        known_proto_name(16) == Some(seq!['r', 'c', '6', '_', '6', 'a', '_', '2', '0']),
        known_proto_name(17) == Some(seq!['r', 'c', '6', '_', '6', 'a', '_', '2', '4']),
        known_proto_name(18) == Some(seq!['r', 'c', '6', '_', '6', 'a', '_', '3', '2']),
        known_proto_name(19) == Some(seq!['r', 'c', '6', '_', 'm', 'c', 'e']),
        known_proto_name(20) == Some(seq!['s', 'h', 'a', 'r', 'p']),
        known_proto_name(21) == Some(seq!['x', 'm', 'p']),
        known_proto_name(22) == Some(seq!['c', 'e', 'c']),
        known_proto_name(23) == Some(seq!['i', 'm', 'o', 'n']),
        known_proto_name(24) == Some(seq!['r', 'c', 'm', 'm', '1', '2']),
        known_proto_name(25) == Some(seq!['r', 'c', 'm', 'm', '2', '4']),
        known_proto_name(26) == Some(seq!['r', 'c', 'm', 'm', '3', '2']),
        known_proto_name(27) == Some(seq!['x', 'b', 'o', 'x', '_', 'd', 'v', 'd']),
        forall|p: u16| p >= PROTO_COUNT ==> #[trigger] known_proto_name(p) is None,
{
    reveal_strlit("cec");
    reveal_strlit("imon");
    reveal_strlit("jvc");
    reveal_strlit("mcir2_kbd");
    reveal_strlit("mcir2_mse");
    reveal_strlit("nec");
    reveal_strlit("nec32");
    reveal_strlit("necx");
    reveal_strlit("other");
    reveal_strlit("rc5");
    reveal_strlit("rc5_sz");
    reveal_strlit("rc5x_20");
    reveal_strlit("rc6_0");
    reveal_strlit("rc6_6a_20");
    reveal_strlit("rc6_6a_24");
    reveal_strlit("rc6_6a_32");
    reveal_strlit("rc6_mce");
    reveal_strlit("rcmm12");
    reveal_strlit("rcmm24");
    reveal_strlit("rcmm32");
    reveal_strlit("sanyo");
    reveal_strlit("sharp");
    reveal_strlit("sony12");
    reveal_strlit("sony15");
    reveal_strlit("sony20");
    reveal_strlit("unknown");
    reveal_strlit("xbox_dvd");
    reveal_strlit("xmp");
    assert(known_proto_name(0).unwrap() =~= seq!['u', 'n', 'k', 'n', 'o', 'w', 'n']);
    assert(known_proto_name(1).unwrap() =~= seq!['o', 't', 'h', 'e', 'r']);
    assert(known_proto_name(2).unwrap() =~= seq!['r', 'c', '5']);
    assert(known_proto_name(3).unwrap() =~= seq!['r', 'c', '5', 'x', '_', '2', '0']);
    assert(known_proto_name(4).unwrap() =~= seq!['r', 'c', '5', '_', 's', 'z']);
    assert(known_proto_name(5).unwrap() =~= seq!['j', 'v', 'c']);
    assert(known_proto_name(6).unwrap() =~= seq!['s', 'o', 'n', 'y', '1', '2']);
    assert(known_proto_name(7).unwrap() =~= seq!['s', 'o', 'n', 'y', '1', '5']);
    assert(known_proto_name(8).unwrap() =~= seq!['s', 'o', 'n', 'y', '2', '0']);
    assert(known_proto_name(9).unwrap() =~= seq!['n', 'e', 'c']);
    assert(known_proto_name(10).unwrap() =~= seq!['n', 'e', 'c', 'x']);
    assert(known_proto_name(11).unwrap() =~= seq!['n', 'e', 'c', '3', '2']);
    assert(known_proto_name(12).unwrap() =~= seq!['s', 'a', 'n', 'y', 'o']);
    assert(known_proto_name(13).unwrap() =~= seq!['m', 'c', 'i', 'r', '2', '_', 'k', 'b', 'd']);
    assert(known_proto_name(14).unwrap() =~= seq!['m', 'c', 'i', 'r', '2', '_', 'm', 's', 'e']);
    assert(known_proto_name(15).unwrap() =~= seq!['r', 'c', '6', '_', '0']);
    assert(known_proto_name(16).unwrap() =~= seq!['r', 'c', '6', '_', '6', 'a', '_', '2', '0']);
    assert(known_proto_name(17).unwrap() =~= seq!['r', 'c', '6', '_', '6', 'a', '_', '2', '4']);
    assert(known_proto_name(18).unwrap() =~= seq!['r', 'c', '6', '_', '6', 'a', '_', '3', '2']);
    assert(known_proto_name(19).unwrap() =~= seq!['r', 'c', '6', '_', 'm', 'c', 'e']);
    assert(known_proto_name(20).unwrap() =~= seq!['s', 'h', 'a', 'r', 'p']);
    assert(known_proto_name(21).unwrap() =~= seq!['x', 'm', 'p']);
    assert(known_proto_name(22).unwrap() =~= seq!['c', 'e', 'c']);
    assert(known_proto_name(23).unwrap() =~= seq!['i', 'm', 'o', 'n']);
    assert(known_proto_name(24).unwrap() =~= seq!['r', 'c', 'm', 'm', '1', '2']);
    assert(known_proto_name(25).unwrap() =~= seq!['r', 'c', 'm', 'm', '2', '4']);
    assert(known_proto_name(26).unwrap() =~= seq!['r', 'c', 'm', 'm', '3', '2']);
    assert(known_proto_name(27).unwrap() =~= seq!['x', 'b', 'o', 'x', '_', 'd', 'v', 'd']);
}

/// A short fingerprint of a name: its length, first character and last
/// two characters.
pub open spec fn name_code(s: Seq<char>) -> int {
    s.len() * 0x200000 + (s[0] as int) * 0x4000 + (s[s.len() - 1] as int) * 0x80 + (s[s.len() - 2] as int)
}

/// The fingerprint of each named protocol, worked out once.
pub open spec fn code_of(p: u16) -> int {
    if p == 27 { 18756214 } else if p == 26 { 14457139 } else if p == 25 { 14457394 } else if p == 24 { 14457137 } else if p == 23 { 10123119 } else if p == 22 { 7926245 } else if p == 21 { 8271981 } else if p == 20 { 12384370 } else if p == 19 { 16560867 } else if p == 18 { 20748595 } else if p == 17 { 20748850 } else if p == 16 { 20748338 } else if p == 15 { 12359775 } else if p == 14 { 20673267 } else if p == 13 { 20673122 } else if p == 12 { 12384249 } else if p == 11 { 12294451 } else if p == 10 { 10206307 } else if p == 9 { 8106469 } else if p == 8 { 14473266 } else if p == 7 { 14473905 } else if p == 6 { 14473521 } else if p == 5 { 8040950 } else if p == 4 { 14466419 } else if p == 3 { 16554034 } else if p == 2 { 8166115 } else if p == 1 { 12319077 } else if p == 0 { 16611191 } else { -1 }
}

proof fn lemma_codes_match(p: u16)
    requires
        p < PROTO_COUNT,
    ensures
        name_code(known_proto_name(p).unwrap()) == code_of(p),
{
    assert(name_code(known_proto_name(p).unwrap()) == code_of(p)) by {
        reveal_strlit("cec");
        reveal_strlit("imon");
        reveal_strlit("jvc");
        reveal_strlit("mcir2_kbd");
        reveal_strlit("mcir2_mse");
        reveal_strlit("nec");
        reveal_strlit("nec32");
        reveal_strlit("necx");
        reveal_strlit("other");
        reveal_strlit("rc5");
        reveal_strlit("rc5_sz");
        reveal_strlit("rc5x_20");
        reveal_strlit("rc6_0");
        reveal_strlit("rc6_6a_20");
        reveal_strlit("rc6_6a_24");
        reveal_strlit("rc6_6a_32");
        reveal_strlit("rc6_mce");
        reveal_strlit("rcmm12");
        reveal_strlit("rcmm24");
        reveal_strlit("rcmm32");
        reveal_strlit("sanyo");
        reveal_strlit("sharp");
        reveal_strlit("sony12");
        reveal_strlit("sony15");
        reveal_strlit("sony20");
        reveal_strlit("unknown");
        reveal_strlit("xbox_dvd");
        reveal_strlit("xmp");
    }
}

/// Distinct protocol numbers have distinct names.
pub proof fn lemma_proto_names_distinct(p: u16, q: u16)
    requires
        p != q,
        known_proto_name(p) is Some,
    ensures
        known_proto_name(p) != known_proto_name(q),
{
    if known_proto_name(q) is Some {
        lemma_codes_match(p);
        lemma_codes_match(q);
    }
}

/// A learned protocol name maps back to the protocol number it was learned
/// from: the name `proto_name` gives a named protocol `p` is the name of `p`
/// and of no other number, so `proto_from_name` returns exactly `Some(p)`.
pub proof fn lemma_proto_name_roundtrip(p: u16)
    requires
        known_proto_name(p) is Some,
    ensures
        forall|q: u16| #[trigger] known_proto_name(q) == Some(spec_proto_name(p)) <==> q == p,
{
    assert forall|q: u16| #[trigger] known_proto_name(q) == Some(spec_proto_name(p)) implies q == p by {
        if q != p {
            lemma_proto_names_distinct(p, q);
        }
    }
}

/// The number a name belongs to is the only number with that name.
pub proof fn lemma_proto_name_unique(p: u16, name: Seq<char>)
    requires
        known_proto_name(p) == Some(name),
    ensures
        forall|q: u16| #[trigger] known_proto_name(q) == Some(name) ==> q == p,
{
    assert forall|q: u16| #[trigger] known_proto_name(q) == Some(name) implies q == p by {
        if q != p {
            lemma_proto_names_distinct(p, q);
        }
    }
}

} // verus!
