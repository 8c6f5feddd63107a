//! MAC addresses: reading, writing, and deriving those of the virtual functions.
use vstd::prelude::*;
use vstd::string::*;

use crate::number;
use crate::number::{hex_octet_text, read_hex_pair};
use crate::text;
use crate::text::{chars_of, trim};

verus! {

/// The octet that the two characters of `t` from `i` on write: two hexadecimal digits.
pub open spec fn octet_at(t: Seq<char>, i: int) -> Option<u8> {
    number::hex_pair(t.subrange(i, i + 2))
}

/// Whether `t` is six octets of two hexadecimal digits each, with a colon between each two.
pub open spec fn is_mac_text(t: Seq<char>) -> bool {
    &&& t.len() == 17
    &&& t[2] == ':' && t[5] == ':' && t[8] == ':' && t[11] == ':' && t[14] == ':'
    &&& octet_at(t, 0) is Some && octet_at(t, 3) is Some && octet_at(t, 6) is Some
    &&& octet_at(t, 9) is Some && octet_at(t, 12) is Some && octet_at(t, 15) is Some
}

/// The six octets that `s` writes, whitespace at either end aside.
pub open spec fn mac_octets(s: Seq<char>) -> Option<Seq<u8>> {
    let t = text::trimmed(s);
    if is_mac_text(t) {
        Some(
            seq![
                octet_at(t, 0)->0,
                octet_at(t, 3)->0,
                octet_at(t, 6)->0,
                octet_at(t, 9)->0,
                octet_at(t, 12)->0,
                octet_at(t, 15)->0,
            ],
        )
    } else {
        None
    }
}

/// How the octets `o` are written: each with two digits in lower case, with a colon between each
/// two.
pub open spec fn mac_text(o: Seq<u8>) -> Seq<char> {
    mac_prefix_text(o) + number::hex_octet(o[5] as nat)
}

/// How the first five of the octets `o` are written, each with a colon behind it.
pub open spec fn mac_prefix_text(o: Seq<u8>) -> Seq<char> {
    number::hex_octet(o[0] as nat) + seq![':'] + number::hex_octet(o[1] as nat)
        + seq![':'] + number::hex_octet(o[2] as nat) + seq![':'] + number::hex_octet(
        o[3] as nat,
    ) + seq![':'] + number::hex_octet(o[4] as nat) + seq![':']
}

/// The first octet of an address with its locally-administered bit set and its multicast bit clear.
pub open spec fn local_unicast(octet: u8) -> u8 {
    (octet | 0x02) & 0xfe
}

/// Whether the octets `o` are the address of one adapter: not all zero, not all ones, and with a
/// clear multicast bit.
pub open spec fn is_unicast(o: Seq<u8>) -> bool {
    &&& o != seq![0u8, 0u8, 0u8, 0u8, 0u8, 0u8]
    &&& o != seq![0xffu8, 0xffu8, 0xffu8, 0xffu8, 0xffu8, 0xffu8]
    &&& o[0] & 1 == 0
}

/// Whether `s` writes the address of one adapter.
pub open spec fn is_usable_mac(s: Seq<char>) -> bool {
    match mac_octets(s) {
        Some(o) => is_unicast(o),
        None => false,
    }
}

/// The address that `s` writes, made locally administered and unicast, and written anew.
pub open spec fn sanitized(s: Seq<char>) -> Option<Seq<char>> {
    match mac_octets(s) {
        Some(o) => Some(mac_text(o.update(0, local_unicast(o[0])))),
        None => None,
    }
}

/// The octets of which a virtual function's address is made, for the physical function `pfid` with
/// the octets `o`. The sixth has yet to be replaced.
pub open spec fn derived_octets(o: Seq<u8>, pfid: u8) -> Seq<u8> {
    o.update(0, local_unicast(o[0])).update(4, (o[4] & 0xf0) | (pfid & 0x0f))
}

/// The first five octets, with their colons, of the addresses derived from the address that `s`
/// writes.
pub open spec fn derived_prefix(s: Seq<char>, pfid: u8) -> Option<Seq<char>> {
    match mac_octets(s) {
        Some(o) => Some(mac_prefix_text(derived_octets(o, pfid))),
        None => None,
    }
}

/// The address derived for the virtual function with the index `idx`, from the address that `s`
/// writes.
#[verifier::opaque]
pub open spec fn derived_mac(s: Seq<char>, pfid: u8, idx: nat) -> Option<Seq<char>> {
    match derived_prefix(s, pfid) {
        Some(prefix) => sanitized(prefix + number::hex_octet(idx)),
        None => None,
    }
}

/// Reads `value` as six octets of two hexadecimal digits each, separated by colons.
pub fn parse_mac(value: &str) -> (r: Option<[u8; 6]>)
    ensures
        match r {
            Some(octets) => mac_octets(value@) == Some(octets@),
            None => mac_octets(value@) is None,
        },
{
    let trimmed = trim(value);
    let v = chars_of(trimmed.as_str());
    if v.len() != 17 || v[2] != ':' || v[5] != ':' || v[8] != ':' || v[11] != ':' || v[14] != ':' {
        return None;
    }
    match (
        read_hex_pair(&v, 0),
        read_hex_pair(&v, 3),
        read_hex_pair(&v, 6),
        read_hex_pair(&v, 9),
        read_hex_pair(&v, 12),
        read_hex_pair(&v, 15),
    ) {
        (Some(a), Some(b), Some(c), Some(d), Some(e), Some(f)) => {
            let octets: [u8; 6] = [a, b, c, d, e, f];
            assert(octets@ =~= mac_octets(value@)->0);
            Some(octets)
        },
        _ => None,
    }
}

/// Writes `octets` with a colon between each two.
pub fn format_mac(octets: [u8; 6]) -> (r: String)
    ensures
        r@ == mac_text(octets@),
{
    let mut out = format_mac_prefix(octets);
    out.append(hex_octet_text(octets[5] as u64).as_str());
    out
}

/// Writes the first five of `octets`, each with a colon behind it.
fn format_mac_prefix(octets: [u8; 6]) -> (r: String)
    ensures
        r@ == mac_prefix_text(octets@),
{
    let mut out = hex_octet_text(octets[0] as u64);
    out.push(':');
    out.append(hex_octet_text(octets[1] as u64).as_str());
    out.push(':');
    out.append(hex_octet_text(octets[2] as u64).as_str());
    out.push(':');
    out.append(hex_octet_text(octets[3] as u64).as_str());
    out.push(':');
    out.append(hex_octet_text(octets[4] as u64).as_str());
    out.push(':');
    assert(out@ =~= mac_prefix_text(octets@));
    out
}

/// Whether `value` is the address of one adapter: six octets, neither all zero nor all ones, with a
/// clear multicast bit.
pub fn is_hex_mac(value: &str) -> (r: bool)
    ensures
        r == is_usable_mac(value@),
{
    match parse_mac(value) {
        Some(o) => {
            let zero: bool = o[0] == 0 && o[1] == 0 && o[2] == 0 && o[3] == 0 && o[4] == 0 && o[5]
                == 0;
            let ones: bool = o[0] == 0xff && o[1] == 0xff && o[2] == 0xff && o[3] == 0xff && o[4]
                == 0xff && o[5] == 0xff;
            proof {
                let zeros = seq![0u8, 0u8, 0u8, 0u8, 0u8, 0u8];
                let all_ones = seq![0xffu8, 0xffu8, 0xffu8, 0xffu8, 0xffu8, 0xffu8];
                assert(zero ==> o@ =~= zeros);
                assert(ones ==> o@ =~= all_ones);
                assert(zeros[0] == 0 && zeros[1] == 0 && zeros[2] == 0 && zeros[3] == 0 && zeros[4]
                    == 0 && zeros[5] == 0);
                assert(all_ones[0] == 0xff && all_ones[1] == 0xff && all_ones[2] == 0xff
                    && all_ones[3] == 0xff && all_ones[4] == 0xff && all_ones[5] == 0xff);
            }
            !zero && !ones && o[0] & 1 == 0
        },
        None => false,
    }
}

/// The address `value` with its locally-administered bit set and its multicast bit clear, or none
/// where `value` is no address.
pub fn sanitize_llaa_unicast(value: &str) -> (r: Option<String>)
    ensures
        match r {
            Some(mac) => sanitized(value@) == Some(mac@),
            None => sanitized(value@) is None,
        },
{
    match parse_mac(value) {
        Some(o) => {
            let octets: [u8; 6] = [(o[0] | 0x02) & 0xfe, o[1], o[2], o[3], o[4], o[5]];
            assert(octets@ =~= o@.update(0, local_unicast(o@[0])));
            Some(format_mac(octets))
        },
        None => None,
    }
}

/// The first five octets, with their colons, of the addresses of the virtual functions of the
/// physical function `pfid` with the address `value`, or none where `value` is no address.
pub fn derive_mac_prefix_from(value: &str, pfid: u8) -> (r: Option<String>)
    ensures
        match r {
            Some(prefix) => derived_prefix(value@, pfid) == Some(prefix@),
            None => derived_prefix(value@, pfid) is None,
        },
{
    match parse_mac(value) {
        Some(o) => {
            let octets: [u8; 6] = [
                (o[0] | 0x02) & 0xfe,
                o[1],
                o[2],
                o[3],
                (o[4] & 0xf0) | (pfid & 0x0f),
                o[5],
            ];
            assert(octets@ =~= derived_octets(o@, pfid));
            Some(format_mac_prefix(octets))
        },
        None => None,
    }
}

/// Text with no whitespace at either end is its own trimmed text.
proof fn lemma_trimmed_bare(s: Seq<char>)
    requires
        s.len() > 0,
        !text::is_space(s[0]),
        !text::is_space(s.last()),
    ensures
        text::trimmed(s) == s,
{
}

/// Neither of the two characters that write an octet is whitespace.
proof fn lemma_octet_is_bare(h: Seq<char>)
    requires
        number::hex_pair(h) is Some,
    ensures
        !text::is_space(h[0]),
        !text::is_space(h[1]),
{
    assert(number::hex_digit(h[0]) is Some && number::hex_digit(h[1]) is Some);
}

/// Reading back what was written: six octets, written as an address, are read as those octets.
pub proof fn law_mac_reads_back(o: Seq<u8>)
    requires
        o.len() == 6,
    ensures
        mac_octets(mac_text(o)) == Some(o),
{
    let t = mac_text(o);
    number::law_hex_octet_reads_back(o[0]);
    number::law_hex_octet_reads_back(o[1]);
    number::law_hex_octet_reads_back(o[2]);
    number::law_hex_octet_reads_back(o[3]);
    number::law_hex_octet_reads_back(o[4]);
    number::law_hex_octet_reads_back(o[5]);
    assert(t.subrange(0, 2) =~= number::hex_octet(o[0] as nat));
    assert(t.subrange(3, 5) =~= number::hex_octet(o[1] as nat));
    assert(t.subrange(6, 8) =~= number::hex_octet(o[2] as nat));
    assert(t.subrange(9, 11) =~= number::hex_octet(o[3] as nat));
    assert(t.subrange(12, 14) =~= number::hex_octet(o[4] as nat));
    assert(t.subrange(15, 17) =~= number::hex_octet(o[5] as nat));
    lemma_octet_is_bare(t.subrange(0, 2));
    lemma_octet_is_bare(t.subrange(15, 17));
    assert(t[0] == t.subrange(0, 2)[0] && t.last() == t.subrange(15, 17)[1]);
    lemma_trimmed_bare(t);
    assert(mac_octets(t)->0 =~= o);
}

/// The bits that `local_unicast` settles, and those that it keeps.
pub proof fn law_local_unicast_bits(octet: u8)
    ensures
        local_unicast(octet) & 0x02 == 0x02,
        local_unicast(octet) & 0x01 == 0,
        local_unicast(octet) & 0xfc == octet & 0xfc,
        local_unicast(local_unicast(octet)) == local_unicast(octet),
        local_unicast(octet) != 0,
        local_unicast(octet) != 0xff,
{
    assert(((octet | 0x02) & 0xfe) & 0x02 == 0x02 && ((octet | 0x02) & 0xfe) & 0x01 == 0 && ((octet
        | 0x02) & 0xfe) & 0xfc == octet & 0xfc && ((((octet | 0x02) & 0xfe) | 0x02) & 0xfe) == ((
    octet | 0x02) & 0xfe) && ((octet | 0x02) & 0xfe) != 0 && ((octet | 0x02) & 0xfe) != 0xff)
        by (bit_vector);
}

/// A sanitized address is locally administered and unicast, keeps every other bit of the address
/// that it was made of, names one adapter, and is its own sanitized form.
pub proof fn law_sanitized_is_usable(s: Seq<char>)
    requires
        mac_octets(s) is Some,
    ensures
        sanitized(s) is Some,
        mac_octets(sanitized(s)->0) == Some(
            mac_octets(s)->0.update(0, local_unicast(mac_octets(s)->0[0])),
        ),
        is_usable_mac(sanitized(s)->0),
        sanitized(sanitized(s)->0) == sanitized(s),
{
    let o = mac_octets(s)->0;
    let p = o.update(0, local_unicast(o[0]));
    law_mac_reads_back(p);
    law_local_unicast_bits(o[0]);
    assert(p[0] != seq![0u8, 0u8, 0u8, 0u8, 0u8, 0u8][0]);
    assert(p[0] != seq![0xffu8, 0xffu8, 0xffu8, 0xffu8, 0xffu8, 0xffu8][0]);
    assert(p.update(0, local_unicast(p[0])) =~= p);
}

/// The address derived for a virtual function with an index up to 255: it is locally administered
/// and unicast, has the function number in the low half of its fifth octet, the index as its last
/// octet, and every other bit from the physical function's address; and it names one adapter.
pub proof fn law_derived_mac(s: Seq<char>, pfid: u8, idx: u8)
    requires
        mac_octets(s) is Some,
    ensures
        ({
            let o = mac_octets(s)->0;
            let mac = derived_mac(s, pfid, idx as nat);
            let d = seq![
                local_unicast(o[0]),
                o[1],
                o[2],
                o[3],
                (o[4] & 0xf0) | (pfid & 0x0f),
                idx,
            ];
            &&& mac == Some(mac_text(d))
            &&& mac_octets(mac->0) == Some(d)
            &&& is_usable_mac(mac->0)
            &&& d[4] & 0x0f == pfid & 0x0f
            &&& d[4] & 0xf0 == o[4] & 0xf0
        }),
{
    reveal(derived_mac);
    let o = mac_octets(s)->0;
    let d = derived_octets(o, pfid).update(5, idx);
    let text = derived_prefix(s, pfid)->0 + number::hex_octet(idx as nat);
    assert(text =~= mac_text(d));
    law_mac_reads_back(d);
    law_local_unicast_bits(o[0]);
    assert(d.update(0, local_unicast(d[0])) =~= d);
    law_sanitized_is_usable(text);
    assert(d =~= seq![
        local_unicast(o[0]),
        o[1],
        o[2],
        o[3],
        (o[4] & 0xf0) | (pfid & 0x0f),
        idx,
    ]);
    let high = o[4];
    assert(((high & 0xf0) | (pfid & 0x0f)) & 0x0f == pfid & 0x0f && ((high & 0xf0) | (pfid & 0x0f))
        & 0xf0 == high & 0xf0) by (bit_vector);
}

/// Two virtual functions of one physical function never get the same derived address.
pub proof fn law_derived_macs_differ(s: Seq<char>, pfid: u8, a: u8, b: u8)
    requires
        mac_octets(s) is Some,
        a != b,
    ensures
        derived_mac(s, pfid, a as nat) != derived_mac(s, pfid, b as nat),
{
    law_derived_mac(s, pfid, a);
    law_derived_mac(s, pfid, b);
    let x = mac_octets(derived_mac(s, pfid, a as nat)->0)->0;
    let y = mac_octets(derived_mac(s, pfid, b as nat)->0)->0;
    assert(x[5] == a && y[5] == b);
}

/// Two functions of one adapter derive different addresses, whatever the indices, where their
/// function numbers differ in the low half.
pub proof fn law_derived_macs_differ_between_functions(s: Seq<char>, p: u8, q: u8, a: u8, b: u8)
    requires
        mac_octets(s) is Some,
        p & 0x0f != q & 0x0f,
    ensures
        derived_mac(s, p, a as nat) != derived_mac(s, q, b as nat),
{
    law_derived_mac(s, p, a);
    law_derived_mac(s, q, b);
    let x = mac_octets(derived_mac(s, p, a as nat)->0)->0;
    let y = mac_octets(derived_mac(s, q, b as nat)->0)->0;
    assert(x[4] & 0x0f == p & 0x0f && y[4] & 0x0f == q & 0x0f);
}

/// No address can be derived for a virtual function with an index above 255: its last octet would
/// take three digits or more.
pub proof fn law_no_derived_mac_above_255(s: Seq<char>, pfid: u8, idx: nat)
    requires
        mac_octets(s) is Some,
        idx > 255,
    ensures
        derived_mac(s, pfid, idx) is None,
{
    reveal(derived_mac);
    let o = derived_octets(mac_octets(s)->0, pfid);
    let h = number::hex_octet(idx);
    let text = mac_prefix_text(o) + h;
    number::law_hex_octet_reads_back(o[0]);
    number::law_hex_octet_reads_back(o[1]);
    number::law_hex_octet_reads_back(o[2]);
    number::law_hex_octet_reads_back(o[3]);
    number::law_hex_octet_reads_back(o[4]);
    number::lemma_hex_octet_long(idx);
    assert(text.subrange(0, 2) =~= number::hex_octet(o[0] as nat));
    lemma_octet_is_bare(text.subrange(0, 2));
    assert(text[0] == text.subrange(0, 2)[0]);
    assert(text.last() == number::digit(idx % 16)) by {
        assert(h.last() == number::digit(idx % 16));
    }
    reveal_strlit("0123456789abcdef");
    lemma_trimmed_bare(text);
}

} // verus!
