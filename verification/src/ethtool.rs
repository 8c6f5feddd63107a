//! The option families of ethtool, and the spellings of on and off.
use vstd::prelude::*;
use vstd::string::*;

use crate::text::{chars_of, same_text};

verus! {

/// The lower-case mapping of a character outside ASCII: what `char::to_lowercase` yields for it.
pub uninterp spec fn unicode_lowercase(c: char) -> Seq<char>;

/// `char::to_lowercase` yields the characters of the lower-case mapping that Unicode gives `c`, a
/// mapping that depends on `c` alone; here they are collected into a string.
#[verifier::external_body]
fn char_to_lowercase(c: char) -> (r: String)
    requires
        c as u32 >= 0x80,
    ensures
        r@ == unicode_lowercase(c),
{
    c.to_lowercase().collect()
}

/// `c` in lower case, where it is an ASCII letter; else `c`.
pub open spec fn ascii_lower(c: char) -> char {
    if 'A' <= c <= 'Z' {
        ((c as u8 + 32) as u8) as char
    } else {
        c
    }
}

/// `c` in lower case, where it is an ASCII letter; else `c`.
pub fn ascii_lower_char(c: char) -> (r: char)
    ensures
        r == ascii_lower(c),
{
    if 'A' <= c && c <= 'Z' {
        (c as u8 + 32) as char
    } else {
        c
    }
}

/// `s` with its ASCII letters in lower case.
pub open spec fn ascii_lowered(s: Seq<char>) -> Seq<char> {
    s.map_values(|c: char| ascii_lower(c))
}

/// `s` with its ASCII letters in lower case.
pub fn to_ascii_lowercase(s: &str) -> (r: String)
    ensures
        r@ == ascii_lowered(s@),
{
    let v = chars_of(s);
    let mut out = String::new();
    let mut i: usize = 0;
    while i < v.len()
        invariant
            i <= v@.len(),
            out@ =~= ascii_lowered(v@.take(i as int)),
        decreases v@.len() - i,
    {
        out.push(ascii_lower_char(v[i]));
        i = i + 1;
    }
    assert(v@.take(i as int) =~= s@);
    out
}

/// `c` in lower case: one character or more.
pub open spec fn lowercase(c: char) -> Seq<char> {
    if (c as u32) < 0x80 {
        seq![ascii_lower(c)]
    } else {
        unicode_lowercase(c)
    }
}

/// `token` without its dashes and in lower case.
pub open spec fn normalized(token: Seq<char>) -> Seq<char>
    decreases token.len(),
{
    if token.len() == 0 {
        Seq::empty()
    } else if token.last() == '-' {
        normalized(token.drop_last())
    } else {
        normalized(token.drop_last()) + lowercase(token.last())
    }
}

/// Removes the dashes of `token` and puts it in lower case.
pub fn normalize_family_token(token: &str) -> (r: String)
    ensures
        r@ == normalized(token@),
{
    let v = chars_of(token);
    let mut out = String::new();
    let mut i: usize = 0;
    while i < v.len()
        invariant
            i <= v@.len(),
            out@ == normalized(v@.take(i as int)),
        decreases v@.len() - i,
    {
        let c: char = v[i];
        assert(v@.take(i + 1).drop_last() =~= v@.take(i as int));
        if c != '-' {
            if (c as u32) < 0x80 {
                out.push(ascii_lower_char(c));
                assert(out@ =~= normalized(v@.take(i as int)) + seq![ascii_lower(c)]);
            } else {
                let lower = char_to_lowercase(c);
                out.append(lower.as_str());
            }
        }
        i = i + 1;
    }
    assert(v@.take(i as int) =~= token@);
    out
}

/// The ethtool switch of the family with the normalized name `name`.
pub open spec fn family_switch(name: Seq<char>) -> Option<Seq<char>> {
    if name == "k"@ || name == "offload"@ || name == "features"@ {
        Some("-K"@)
    } else if name == "c"@ || name == "coalesce"@ {
        Some("-C"@)
    } else if name == "a"@ || name == "pause"@ {
        Some("-A"@)
    } else if name == "g"@ || name == "ring"@ {
        Some("-G"@)
    } else if name == "l"@ || name == "channels"@ || name == "channel"@ {
        Some("-L"@)
    } else if name == "x"@ || name == "rxfh"@ || name == "rss"@ {
        Some("-X"@)
    } else if name == "n"@ || name == "ntuple"@ || name == "configntuple"@ {
        Some("-N"@)
    } else {
        None
    }
}

/// The ethtool switch of the family with the normalized name `name`.
pub fn family_of_normalized(name: &str) -> (r: Option<&'static str>)
    ensures
        match r {
            Some(switch) => family_switch(name@) == Some(switch@),
            None => family_switch(name@) is None,
        },
{
    if same_text(name, "k") || same_text(name, "offload") || same_text(name, "features") {
        Some("-K")
    } else if same_text(name, "c") || same_text(name, "coalesce") {
        Some("-C")
    } else if same_text(name, "a") || same_text(name, "pause") {
        Some("-A")
    } else if same_text(name, "g") || same_text(name, "ring") {
        Some("-G")
    } else if same_text(name, "l") || same_text(name, "channels") || same_text(name, "channel") {
        Some("-L")
    } else if same_text(name, "x") || same_text(name, "rxfh") || same_text(name, "rss") {
        Some("-X")
    } else if same_text(name, "n") || same_text(name, "ntuple") || same_text(
        name,
        "configntuple",
    ) {
        Some("-N")
    } else {
        None
    }
}

/// The ethtool switch of the family that `token` names, by its letter or one of its long names, in
/// either case, with dashes or without.
pub open spec fn family_of(token: Seq<char>) -> Option<Seq<char>> {
    family_switch(normalized(token))
}

/// The ethtool switch of the family that `family` names.
pub fn ethtool_family_short(family: &str) -> (r: Option<&'static str>)
    ensures
        match r {
            Some(switch) => family_of(family@) == Some(switch@),
            None => family_of(family@) is None,
        },
{
    let name = normalize_family_token(family);
    family_of_normalized(name.as_str())
}

/// Whether `token` names a family.
pub fn is_ethtool_family_token(token: &str) -> (r: bool)
    ensures
        r == (family_of(token@) is Some),
{
    ethtool_family_short(token).is_some()
}

/// `value` spelled as `on` or `off`, where it is one of their spellings; else `value`.
pub open spec fn on_off(value: Seq<char>) -> Seq<char> {
    let low = ascii_lowered(value);
    if low == "1"@ || low == "true"@ || low == "yes"@ || low == "on"@ {
        "on"@
    } else if low == "0"@ || low == "false"@ || low == "no"@ || low == "off"@ {
        "off"@
    } else {
        value
    }
}

/// Spells `value` as `on` or `off` where it means one of them.
pub fn normalize_on_off(value: &str) -> (r: String)
    ensures
        r@ == on_off(value@),
{
    let lowered = to_ascii_lowercase(value);
    let low = lowered.as_str();
    if same_text(low, "1") || same_text(low, "true") || same_text(low, "yes") || same_text(
        low,
        "on",
    ) {
        "on".to_owned()
    } else if same_text(low, "0") || same_text(low, "false") || same_text(low, "no") || same_text(
        low,
        "off",
    ) {
        "off".to_owned()
    } else {
        value.to_owned()
    }
}

/// What has been spelled as `on` or `off`, or left as it was, stays as it is.
pub proof fn law_on_off_is_idempotent(value: Seq<char>)
    ensures
        on_off(on_off(value)) == on_off(value),
{
    reveal_strlit("on");
    reveal_strlit("off");
    assert(ascii_lowered("on"@) =~= "on"@);
    assert(ascii_lowered("off"@) =~= "off"@);
    assert("off"@.len() == 3 && "on"@.len() == 2);
    reveal_strlit("1");
    reveal_strlit("true");
    reveal_strlit("yes");
    assert("off"@[0] != "yes"@[0]);
    assert("1"@.len() == 1 && "true"@.len() == 4);
}

/// A dash before a token does not change the family that it names.
pub proof fn law_leading_dash_does_not_matter(token: Seq<char>)
    ensures
        normalized(seq!['-'] + token) == normalized(token),
        family_of(seq!['-'] + token) == family_of(token),
    decreases token.len(),
{
    let dashed = seq!['-'] + token;
    if token.len() == 0 {
        assert(dashed.drop_last() =~= token);
    } else {
        law_leading_dash_does_not_matter(token.drop_last());
        assert(dashed.drop_last() =~= seq!['-'] + token.drop_last());
    }
}

/// The case of its ASCII letters does not change the family that a token names.
pub proof fn law_case_does_not_matter(token: Seq<char>)
    ensures
        normalized(ascii_lowered(token)) == normalized(token),
        family_of(ascii_lowered(token)) == family_of(token),
    decreases token.len(),
{
    if token.len() > 0 {
        let low = ascii_lowered(token);
        law_case_does_not_matter(token.drop_last());
        assert(low.drop_last() =~= ascii_lowered(token.drop_last()));
        assert(low.last() == ascii_lower(token.last()));
        assert(ascii_lower(ascii_lower(token.last())) == ascii_lower(token.last()));
    }
}

} // verus!
