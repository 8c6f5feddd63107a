//! Numbers as text: decimal and hexadecimal, written and read.
use vstd::prelude::*;
use vstd::string::*;

use crate::text::chars_of;

verus! {

/// The digit that stands for `d`, which is below sixteen.
pub open spec fn digit(d: nat) -> char {
    "0123456789abcdef"@[d as int]
}

/// The digit that stands for `d`.
pub fn digit_char(d: u8) -> (r: char)
    requires
        d < 16,
    ensures
        r == digit(d as nat),
{
    proof {
        reveal_strlit("0123456789abcdef");
    }
    "0123456789abcdef".get_char(d as usize)
}

/// `n` in decimal, without leading zeros.
pub open spec fn decimal(n: nat) -> Seq<char>
    decreases n,
{
    if n < 10 {
        seq![digit(n)]
    } else {
        decimal(n / 10).push(digit(n % 10))
    }
}

/// `n` in hexadecimal, in lower case and without leading zeros.
pub open spec fn hexadecimal(n: nat) -> Seq<char>
    decreases n,
{
    if n < 16 {
        seq![digit(n)]
    } else {
        hexadecimal(n / 16).push(digit(n % 16))
    }
}

/// `n` in hexadecimal, with a leading zero where it has one digit alone.
pub open spec fn hex_octet(n: nat) -> Seq<char> {
    if n < 16 {
        seq!['0', digit(n)]
    } else {
        hexadecimal(n)
    }
}

/// `n` in decimal, with a minus sign where it is negative.
pub open spec fn signed_decimal(n: int) -> Seq<char> {
    if n < 0 {
        seq!['-'] + decimal((-n) as nat)
    } else {
        decimal(n as nat)
    }
}

/// Writes `n` in decimal.
pub fn decimal_text(n: u64) -> (r: String)
    ensures
        r@ == decimal(n as nat),
    decreases n,
{
    if n < 10 {
        let mut out = String::new();
        out.push(digit_char(n as u8));
        assert(out@ =~= seq![digit(n as nat)]);
        out
    } else {
        let mut out = decimal_text(n / 10);
        out.push(digit_char((n % 10) as u8));
        out
    }
}

/// Writes `n` in hexadecimal.
pub fn hexadecimal_text(n: u64) -> (r: String)
    ensures
        r@ == hexadecimal(n as nat),
    decreases n,
{
    if n < 16 {
        let mut out = String::new();
        out.push(digit_char(n as u8));
        assert(out@ =~= seq![digit(n as nat)]);
        out
    } else {
        let mut out = hexadecimal_text(n / 16);
        out.push(digit_char((n % 16) as u8));
        out
    }
}

/// Writes `n` in hexadecimal, with two digits at least.
pub fn hex_octet_text(n: u64) -> (r: String)
    ensures
        r@ == hex_octet(n as nat),
{
    if n < 16 {
        let mut out = String::new();
        out.push('0');
        out.push(digit_char(n as u8));
        assert(out@ =~= seq!['0', digit(n as nat)]);
        out
    } else {
        hexadecimal_text(n)
    }
}

/// Writes `n` in decimal, with its sign where it is negative.
pub fn signed_decimal_text(n: i32) -> (r: String)
    ensures
        r@ == signed_decimal(n as int),
{
    if n < 0 {
        let mut out = String::new();
        out.push('-');
        let magnitude = decimal_text((-(n as i64)) as u64);
        out.append(magnitude.as_str());
        assert(out@ =~= seq!['-'] + magnitude@);
        out
    } else {
        decimal_text(n as u64)
    }
}

/// Whether `c` is one of `0` to `9`.
pub open spec fn is_decimal_digit(c: char) -> bool {
    '0' <= c <= '9'
}

/// The number that the decimal digits `s` write.
pub open spec fn decimal_number(s: Seq<char>) -> nat
    decreases s.len(),
{
    if s.len() == 0 {
        0
    } else {
        decimal_number(s.drop_last()) * 10 + (s.last() as nat - '0' as nat) as nat
    }
}

/// The number that the decimal digits `s` write, where there is a digit and the number fits.
pub open spec fn decimal_usize(s: Seq<char>) -> Option<usize> {
    if s.len() > 0 && decimal_number(s) <= usize::MAX {
        Some(decimal_number(s) as usize)
    } else {
        None
    }
}

/// Further digits never make a number smaller.
pub proof fn lemma_decimal_prefix(s: Seq<char>, k: int)
    requires
        0 <= k <= s.len(),
        forall|i: int| 0 <= i < s.len() ==> is_decimal_digit(#[trigger] s[i]),
    ensures
        decimal_number(s.take(k)) <= decimal_number(s),
    decreases s.len(),
{
    if k == s.len() {
        assert(s.take(k) =~= s);
    } else {
        let t = s.drop_last();
        assert forall|i: int| 0 <= i < t.len() implies is_decimal_digit(#[trigger] t[i]) by {
            assert(t[i] == s[i]);
        }
        lemma_decimal_prefix(t, k);
        assert(t.take(k) =~= s.take(k));
        assert(is_decimal_digit(s[s.len() - 1]));
    }
}

/// Reads the decimal digits of `s`, passing over every other character.
pub fn read_digits(s: &str) -> (r: Option<usize>)
    ensures
        r == decimal_usize(s@.filter(|c: char| is_decimal_digit(c))),
{
    let v = chars_of(s);
    let ghost keep = |c: char| is_decimal_digit(c);
    let ghost all = v@.filter(keep);
    let mut acc: usize = 0;
    let mut seen: bool = false;
    let mut i: usize = 0;
    assert(v@.take(0).filter(keep) =~= Seq::<char>::empty()) by {
        reveal(Seq::filter);
    }
    while i < v.len()
        invariant
            i <= v@.len(),
            keep == (|c: char| is_decimal_digit(c)),
            all == v@.filter(keep),
            v@ == s@,
            acc == decimal_number(v@.take(i as int).filter(keep)),
            seen == (v@.take(i as int).filter(keep).len() > 0),
        decreases v@.len() - i,
    {
        let ghost before = v@.take(i as int).filter(keep);
        let c: char = v[i];
        proof {
            assert(v@.take(i + 1).drop_last() =~= v@.take(i as int));
            assert(v@.take(i + 1).filter(keep) == if keep(c) {
                before.push(c)
            } else {
                before
            }) by {
                reveal(Seq::filter);
            }
            assert(before.push(c).drop_last() =~= before);
        }
        if '0' <= c && c <= '9' {
            let d: usize = (c as u32 - '0' as u32) as usize;
            assert(decimal_number(before.push(c)) == decimal_number(before) * 10 + d);
            let too_big: bool = match acc.checked_mul(10) {
                Some(tens) => match tens.checked_add(d) {
                    Some(sum) => {
                        acc = sum;
                        false
                    },
                    None => true,
                },
                None => true,
            };
            if too_big {
                proof {
                    let done = v@.take(i + 1).filter(keep);
                    let rest = v@.skip(i + 1).filter(keep);
                    v@.lemma_filter_len(keep);
                    Seq::filter_distributes_over_add(v@.take(i + 1), v@.skip(i + 1), keep);
                    assert(v@.take(i + 1) + v@.skip(i + 1) =~= v@);
                    assert(all == done + rest);
                    assert(all.take(done.len() as int) =~= done);
                    assert forall|k: int| 0 <= k < all.len() implies is_decimal_digit(
                        #[trigger] all[k],
                    ) by {
                        assert(keep(all[k]));
                    }
                    lemma_decimal_prefix(all, done.len() as int);
                }
                return None;
            }
            seen = true;
        }
        i = i + 1;
    }
    assert(v@.take(i as int) =~= v@);
    if seen {
        Some(acc)
    } else {
        None
    }
}

/// The value of the hexadecimal digit `c`, in either case.
pub open spec fn hex_digit(c: char) -> Option<nat> {
    if '0' <= c <= '9' {
        Some((c as nat - '0' as nat) as nat)
    } else if 'a' <= c <= 'f' {
        Some((c as nat - 'a' as nat + 10) as nat)
    } else if 'A' <= c <= 'F' {
        Some((c as nat - 'A' as nat + 10) as nat)
    } else {
        None
    }
}

/// The number that the hexadecimal digits `s` write.
pub open spec fn hex_number(s: Seq<char>) -> nat
    decreases s.len(),
{
    if s.len() == 0 {
        0
    } else {
        hex_number(s.drop_last()) * 16 + hex_digit(s.last()).unwrap_or(0)
    }
}

/// What follows the plus sign of `s`, where there is one with something after it.
pub open spec fn after_plus(s: Seq<char>) -> Seq<char> {
    if s.len() > 1 && s[0] == '+' {
        s.skip(1)
    } else {
        s
    }
}

/// Whether `s` consists of hexadecimal digits.
pub open spec fn all_hex(s: Seq<char>) -> bool {
    forall|i: int| 0 <= i < s.len() ==> hex_digit(#[trigger] s[i]) is Some
}

/// The byte that `s` writes in hexadecimal: one digit or more, after a plus sign or none.
pub open spec fn hex_byte(s: Seq<char>) -> Option<u8> {
    let digits = after_plus(s);
    if digits.len() > 0 && all_hex(digits) && hex_number(digits) <= 255 {
        Some(hex_number(digits) as u8)
    } else {
        None
    }
}

/// Further digits never make a number smaller.
pub proof fn lemma_hex_prefix(s: Seq<char>, k: int)
    requires
        0 <= k <= s.len(),
    ensures
        hex_number(s.take(k)) <= hex_number(s),
    decreases s.len(),
{
    if k == s.len() {
        assert(s.take(k) =~= s);
    } else {
        let t = s.drop_last();
        lemma_hex_prefix(t, k);
        assert(t.take(k) =~= s.take(k));
    }
}

/// The value of the hexadecimal digit `c`.
pub fn hex_digit_value(c: char) -> (r: Option<u8>)
    ensures
        r is Some == hex_digit(c) is Some,
        r matches Some(d) ==> d < 16 && hex_digit(c) == Some(d as nat),
{
    if '0' <= c && c <= '9' {
        Some((c as u32 - '0' as u32) as u8)
    } else if 'a' <= c && c <= 'f' {
        Some((c as u32 - 'a' as u32 + 10) as u8)
    } else if 'A' <= c && c <= 'F' {
        Some((c as u32 - 'A' as u32 + 10) as u8)
    } else {
        None
    }
}

/// Reads the characters `from..to` of `v` as a byte in hexadecimal.
pub fn read_hex_byte(v: &Vec<char>, from: usize, to: usize) -> (r: Option<u8>)
    requires
        from <= to <= v@.len(),
    ensures
        r == hex_byte(v@.subrange(from as int, to as int)),
{
    let ghost s = v@.subrange(from as int, to as int);
    let start: usize = if to - from > 1 && v[from] == '+' {
        from + 1
    } else {
        from
    };
    let ghost digits = v@.subrange(start as int, to as int);
    assert(digits =~= after_plus(s));
    if start == to {
        return None;
    }
    let mut acc: u32 = 0;
    let mut i: usize = start;
    while i < to
        invariant
            from <= start <= i <= to <= v@.len(),
            digits == v@.subrange(start as int, to as int),
            digits == after_plus(s),
            s == v@.subrange(from as int, to as int),
            acc == hex_number(digits.take(i - start)),
            acc <= 255,
            forall|k: int| 0 <= k < i - start ==> hex_digit(#[trigger] digits[k]) is Some,
        decreases to - i,
    {
        let ghost k = i - start;
        assert(digits[k] == v@[i as int]);
        assert(digits.take(k + 1).drop_last() =~= digits.take(k));
        match hex_digit_value(v[i]) {
            Some(d) => {
                acc = acc * 16 + d as u32;
            },
            None => {
                assert(hex_digit(digits[k]) is None);
                return None;
            },
        }
        assert(acc == hex_number(digits.take(k + 1)));
        if acc > 255 {
            proof {
                lemma_hex_prefix(digits, k + 1);
            }
            return None;
        }
        i = i + 1;
    }
    assert(digits.take(i - start) =~= digits);
    Some(acc as u8)
}

/// The byte that two hexadecimal digits write.
pub open spec fn hex_pair(s: Seq<char>) -> Option<u8> {
    if s.len() == 2 && all_hex(s) {
        Some(hex_number(s) as u8)
    } else {
        None
    }
}

/// Two hexadecimal digits write a byte, the first its high half and the second its low half.
proof fn lemma_hex_pair(s: Seq<char>)
    requires
        s.len() == 2,
        all_hex(s),
    ensures
        hex_number(s) == hex_digit(s[0])->0 * 16 + hex_digit(s[1])->0,
        hex_number(s) <= 255,
{
    assert(hex_digit(s[0]) is Some && hex_digit(s[1]) is Some);
    assert(s.drop_last() =~= seq![s[0]]);
    assert(s.drop_last().drop_last() =~= Seq::<char>::empty());
    reveal_with_fuel(hex_number, 3);
}

/// Reads the two characters of `v` from `from` on as two hexadecimal digits.
pub fn read_hex_pair(v: &Vec<char>, from: usize) -> (r: Option<u8>)
    requires
        from + 2 <= v.len(),
    ensures
        r == hex_pair(v@.subrange(from as int, from + 2)),
{
    let ghost s = v@.subrange(from as int, from + 2);
    assert(s[0] == v@[from as int] && s[1] == v@[from + 1]);
    match (hex_digit_value(v[from]), hex_digit_value(v[from + 1])) {
        (Some(high), Some(low)) => {
            proof {
                assert(all_hex(s));
                lemma_hex_pair(s);
            }
            Some(high * 16 + low)
        },
        _ => {
            assert(!all_hex(s));
            None
        },
    }
}

/// Reading back what was written: every byte, written in hexadecimal with two digits, is read as
/// that byte.
pub proof fn law_hex_octet_reads_back(n: u8)
    ensures
        hex_octet(n as nat).len() == 2,
        hex_pair(hex_octet(n as nat)) == Some(n),
{
    reveal_strlit("0123456789abcdef");
    let s = hex_octet(n as nat);
    let high = (n / 16) as nat;
    let low = (n % 16) as nat;
    assert(hexadecimal(high) =~= seq![digit(high)]);
    assert(s =~= seq![digit(high), digit(low)]) by {
        if n >= 16 {
            assert(hexadecimal(n as nat) == hexadecimal(high).push(digit(low)));
        }
    }
    assert(hex_digit(digit(high)) == Some(high));
    assert(hex_digit(digit(low)) == Some(low));
    assert(all_hex(s));
    lemma_hex_pair(s);
}

/// A number above 255 takes three hexadecimal digits or more.
pub proof fn lemma_hex_octet_long(n: nat)
    requires
        n > 255,
    ensures
        hex_octet(n).len() > 2,
{
    assert(hexadecimal(n) == hexadecimal(n / 16).push(digit(n % 16)));
    assert(hexadecimal(n / 16) == hexadecimal(n / 16 / 16).push(digit(n / 16 % 16)));
    lemma_hexadecimal_nonempty(n / 16 / 16);
}

proof fn lemma_hexadecimal_nonempty(n: nat)
    ensures
        hexadecimal(n).len() > 0,
{
}

/// The decimal text of a number consists of digits, and they write that number.
pub proof fn law_decimal_reads_back(n: nat)
    ensures
        decimal(n).len() > 0,
        forall|i: int| 0 <= i < decimal(n).len() ==> is_decimal_digit(#[trigger] decimal(n)[i]),
        decimal_number(decimal(n)) == n,
    decreases n,
{
    reveal_strlit("0123456789abcdef");
    if n < 10 {
        assert(decimal(n).drop_last() =~= Seq::<char>::empty());
        reveal_with_fuel(decimal_number, 2);
    } else {
        law_decimal_reads_back(n / 10);
        assert(decimal(n).drop_last() =~= decimal(n / 10));
    }
}

/// Two numbers with the same decimal text are the same number.
pub proof fn law_decimal_is_injective(a: nat, b: nat)
    requires
        decimal(a) == decimal(b),
    ensures
        a == b,
{
    law_decimal_reads_back(a);
    law_decimal_reads_back(b);
}

} // verus!
