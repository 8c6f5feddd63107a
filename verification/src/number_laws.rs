//! What numbers are as text.
use vstd::prelude::*;

use crate::model;
use crate::number;
use crate::text;
use crate::text_laws;
use crate::vf;

verus! {

/// The digit `d`: a decimal one, or a letter from `a` on.
pub open spec fn digit_of(d: nat) -> char {
    if d < 10 {
        ('0' as nat + d) as char
    } else {
        ('a' as nat + d - 10) as char
    }
}

proof fn lemma_digit(d: nat)
    requires
        d < 16,
    ensures
        number::digit(d) == digit_of(d),
        d < 10 ==> number::is_decimal_digit(digit_of(d)) && digit_of(d) as nat == '0' as nat + d,
        number::hex_digit(digit_of(d)) == Some(d),
{
    reveal_strlit("0123456789abcdef");
}

/// A decimal number is its tens, without leading zeros, and then its ones.
pub proof fn law_decimal(tens: nat, ones: nat)
    requires
        ones < 10,
    ensures
        number::decimal(ones) == seq![digit_of(ones)],
        tens > 0 ==> number::decimal(tens * 10 + ones) == number::decimal(tens) + seq![
            digit_of(ones),
        ],
{
    lemma_digit(ones);
    let n = tens * 10 + ones;
    assert(n / 10 == tens && n % 10 == ones);
    if tens > 0 {
        assert(number::decimal(n) =~= number::decimal(tens) + seq![digit_of(ones)]);
    }
}

/// A number below zero is written with a minus sign.
pub proof fn law_signed_decimal(n: nat)
    ensures
        number::signed_decimal(n as int) == number::decimal(n),
        n > 0 ==> number::signed_decimal(-(n as int)) == "-"@ + number::decimal(n),
{
    reveal_strlit("-");
    assert("-"@ =~= seq!['-']);
}

/// An octet is written as two digits, with small letters.
pub proof fn law_octet(high: nat, low: nat)
    requires
        high < 16,
        low < 16,
    ensures
        number::hex_octet(high * 16 + low) == seq![digit_of(high), digit_of(low)],
{
    lemma_digit(high);
    lemma_digit(low);
    let n = high * 16 + low;
    assert(n / 16 == high && n % 16 == low);
    if high == 0 {
        assert(digit_of(0) == '0');
    } else {
        assert(number::hexadecimal(high) =~= seq![digit_of(high)]);
        assert(number::hexadecimal(n) =~= seq![digit_of(high), digit_of(low)]);
    }
}

/// The hexadecimal digits, in letters of either case.
pub proof fn law_hex_digits(c: char, d: nat)
    requires
        d < 16,
    ensures
        number::hex_digit(digit_of(d)) == Some(d),
        d >= 10 ==> number::hex_digit(('A' as nat + d - 10) as char) == Some(d),
        number::hex_digit(c) is Some ==> exists|v: nat|
            v < 16 && (c == #[trigger] digit_of(v) || v >= 10 && c == ('A' as nat + v - 10) as char),
{
    lemma_digit(d);
    if number::hex_digit(c) is Some {
        let v = number::hex_digit(c)->0;
        lemma_digit(v);
        assert(c == digit_of(v) || v >= 10 && c == ('A' as nat + v - 10) as char);
    }
}

proof fn lemma_hex_value(n: nat)
    ensures
        number::hexadecimal(n).len() > 0,
        number::all_hex(number::hexadecimal(n)),
        number::hex_number(number::hexadecimal(n)) == n,
        number::hexadecimal(n)[0] != '+',
        !number::hexadecimal(n).contains('.'),
    decreases n,
{
    let t = number::hexadecimal(n);
    lemma_digit(n % 16);
    let last = digit_of(n % 16);
    if n >= 16 {
        lemma_hex_value(n / 16);
        let before = number::hexadecimal(n / 16);
        assert(t == before.push(last));
        assert(t.drop_last() =~= before);
        assert(t.last() == last);
        assert(t[0] == before[0]);
        assert forall|i: int| 0 <= i < t.len() implies number::hex_digit(#[trigger] t[i]) is Some by {
            if i < before.len() {
                assert(t[i] == before[i]);
            }
        }
    } else {
        assert(t == seq![last]);
        assert(t.drop_last() =~= Seq::<char>::empty());
        assert(number::hex_number(Seq::<char>::empty()) == 0);
        assert(number::hex_number(t) == n);
    }
    assert forall|i: int| 0 <= i < t.len() implies t[i] != '.' by {
        assert(number::hex_digit(t[i]) is Some);
    }
}

/// A hexadecimal number is read back as an octet, where it is one; a plus sign before it does not
/// matter. Nothing is read where another character is among the digits, or where there are none.
pub proof fn law_hex_byte_reads_back(n: nat, before: Seq<char>, c: char, after: Seq<char>)
    requires
        number::hex_digit(c) is None,
        c != '+' || before.len() > 0,
    ensures
        n <= 255 ==> number::hex_byte(number::hexadecimal(n)) == Some(n as u8),
        n > 255 ==> number::hex_byte(number::hexadecimal(n)) is None,
        number::hex_byte(seq!['+'] + number::hexadecimal(n)) == number::hex_byte(
            number::hexadecimal(n),
        ),
        number::hex_byte(before + seq![c] + after) is None,
        number::hex_byte(Seq::empty()) is None,
{
    let t = number::hexadecimal(n);
    lemma_hex_value(n);
    assert(number::after_plus(t) == t);
    assert((seq!['+'] + t).skip(1) =~= t);
    let s = before + seq![c] + after;
    let k = before.len() as int;
    assert(s[k] == c);
    let digits = number::after_plus(s);
    if digits == s {
        assert(!number::all_hex(digits)) by {
            assert(number::hex_digit(digits[k]) is None);
        }
    } else {
        assert(k > 0) by {
            if k == 0 {
                assert(s[0] == c);
            }
        }
        assert(digits[k - 1] == c);
        assert(!number::all_hex(digits)) by {
            assert(number::hex_digit(digits[k - 1]) is None);
        }
    }
}

proof fn lemma_after_dot(before: Seq<char>, s: Seq<char>)
    requires
        !s.contains('.'),
    ensures
        model::after_last_dot(before + seq!['.'] + s) == s,
        model::after_last_dot(s) == s,
    decreases s.len(),
{
    let whole = before + seq!['.'] + s;
    if s.len() > 0 {
        assert(s.contains(s.last()));
        let less = s.drop_last();
        assert(!less.contains('.')) by {
            assert forall|i: int| 0 <= i < less.len() implies less[i] != '.' by {
                assert(s.contains(s[i]));
            }
        }
        lemma_after_dot(before, less);
        assert(whole.drop_last() =~= before + seq!['.'] + less);
        assert(whole.last() == s.last());
        assert(less.push(s.last()) =~= s);
    } else {
        assert(whole.last() == '.');
        assert(s =~= Seq::<char>::empty());
    }
}

/// The number of a PCI function is the hexadecimal number after the last dot of its name, or zero
/// where none is there.
pub proof fn law_function_number(before: Seq<char>, n: nat, last: Seq<char>)
    requires
        !last.contains('.'),
    ensures
        n <= 255 ==> model::function_number(
            Some(before + seq!['.'] + number::hexadecimal(n)),
        ) == n,
        n > 255 ==> model::function_number(Some(before + seq!['.'] + number::hexadecimal(n))) == 0,
        model::function_number(Some(before + seq!['.'] + last)) == model::function_number(
            Some(last),
        ),
        number::hex_byte(last) is None ==> model::function_number(Some(last)) == 0,
        number::hex_byte(last) matches Some(octet) ==> model::function_number(Some(last)) == octet,
        model::function_number(None) == 0,
{
    lemma_hex_value(n);
    lemma_after_dot(before, number::hexadecimal(n));
    lemma_after_dot(before, last);
    assert(number::hex_digit('x') is None);
    law_hex_byte_reads_back(n, Seq::empty(), 'x', Seq::empty());
}

proof fn lemma_only_digits(s: Seq<char>)
    requires
        forall|i: int| 0 <= i < s.len() ==> number::is_decimal_digit(#[trigger] s[i]),
    ensures
        s.filter(|c: char| number::is_decimal_digit(c)) == s,
    decreases s.len(),
{
    reveal(Seq::filter);
    if s.len() > 0 {
        lemma_only_digits(s.drop_last());
        assert(number::is_decimal_digit(s.last()));
        assert(s.drop_last().push(s.last()) =~= s);
    }
}

proof fn lemma_no_digits_in_virtfn()
    ensures
        "virtfn"@.filter(|c: char| number::is_decimal_digit(c)).len() == 0,
{
    reveal(Seq::filter);
    reveal_with_fuel(Seq::filter, 7);
    reveal_strlit("virtfn");
    let s = "virtfn"@;
    assert(s.drop_last() =~= seq!['v', 'i', 'r', 't', 'f']);
    assert(s.drop_last().drop_last() =~= seq!['v', 'i', 'r', 't']);
    assert(s.drop_last().drop_last().drop_last() =~= seq!['v', 'i', 'r']);
    assert(s.drop_last().drop_last().drop_last().drop_last() =~= seq!['v', 'i']);
    assert(s.drop_last().drop_last().drop_last().drop_last().drop_last() =~= seq!['v']);
}

proof fn lemma_zero_in_front(s: Seq<char>)
    ensures
        number::decimal_number(seq!['0'] + s) == number::decimal_number(s),
    decreases s.len(),
{
    let t = seq!['0'] + s;
    if s.len() > 0 {
        lemma_zero_in_front(s.drop_last());
        assert(t.drop_last() =~= seq!['0'] + s.drop_last());
        assert(t.last() == s.last());
    } else {
        assert(s =~= Seq::<char>::empty());
        assert(t.drop_last() =~= Seq::<char>::empty());
        assert(t.last() == '0');
        assert(number::decimal_number(Seq::<char>::empty()) == 0);
    }
}

proof fn lemma_link(digits: Seq<char>)
    requires
        forall|i: int| 0 <= i < digits.len() ==> number::is_decimal_digit(#[trigger] digits[i]),
    ensures
        vf::vf_index("virtfn"@ + digits) == number::decimal_usize(digits),
{
    let is_digit = |c: char| number::is_decimal_digit(c);
    let link = "virtfn"@ + digits;
    lemma_no_digits_in_virtfn();
    lemma_only_digits(digits);
    Seq::filter_distributes_over_add("virtfn"@, digits, is_digit);
    text_laws::law_text_begins("virtfn"@, digits, link);
    assert(link.filter(is_digit) =~= digits);
}

/// The index of a virtual function is the number that follows `virtfn` in the name of its link;
/// zeros in front of it do not matter. A name that does not begin with that, or without a number,
/// or with one that is too large, gives none.
pub proof fn law_index_of_a_link(n: nat, name: Seq<char>)
    ensures
        n <= usize::MAX ==> vf::vf_index("virtfn"@ + number::decimal(n)) == Some(n as usize),
        n <= usize::MAX ==> vf::vf_index("virtfn0"@ + number::decimal(n)) == Some(n as usize),
        n > usize::MAX ==> vf::vf_index("virtfn"@ + number::decimal(n)) is None,
        vf::vf_index("virtfn"@) is None,
        !text::begins_with(name, "virtfn"@) ==> vf::vf_index(name) is None,
{
    let digits = number::decimal(n);
    let zeros = seq!['0'] + digits;
    number::law_decimal_reads_back(n);
    lemma_link(digits);
    lemma_zero_in_front(digits);
    lemma_link(zeros);
    assert("virtfn0"@ + digits =~= "virtfn"@ + zeros) by {
        reveal_strlit("virtfn0");
        reveal_strlit("virtfn");
    }
    lemma_link(Seq::empty());
    assert("virtfn"@ + Seq::empty() =~= "virtfn"@);
}

/// Characters of the name that are no digits do not matter.
pub proof fn law_other_characters_in_a_link(before: Seq<char>, c: char, after: Seq<char>)
    requires
        !number::is_decimal_digit(c),
    ensures
        vf::vf_index("virtfn"@ + before + seq![c] + after) == vf::vf_index(
            "virtfn"@ + before + after,
        ),
{
    let is_digit = |c: char| number::is_decimal_digit(c);
    let start = "virtfn"@ + before;
    let with = start + seq![c] + after;
    let without = start + after;
    Seq::filter_distributes_over_add(start + seq![c], after, is_digit);
    Seq::filter_distributes_over_add(start, seq![c], is_digit);
    Seq::filter_distributes_over_add(start, after, is_digit);
    assert(seq![c].filter(is_digit) =~= Seq::<char>::empty()) by {
        reveal_with_fuel(Seq::filter, 2);
        assert(seq![c].drop_last() =~= Seq::<char>::empty());
        assert(!is_digit(seq![c].last()));
    }
    assert(with.filter(is_digit) =~= without.filter(is_digit));
    assert(with =~= "virtfn"@ + (before + seq![c] + after));
    assert(without =~= "virtfn"@ + (before + after));
    text_laws::law_text_begins("virtfn"@, before + seq![c] + after, with);
    text_laws::law_text_begins("virtfn"@, before + after, without);
}

} // verus!
