//! What the handling of text comes to.
use vstd::prelude::*;

use crate::props;
use crate::text;

verus! {

proof fn lemma_trim_start(before: Seq<char>, rest: Seq<char>)
    requires
        forall|i: int| 0 <= i < before.len() ==> text::is_space(#[trigger] before[i]),
        rest.len() > 0,
        !text::is_space(rest[0]),
    ensures
        text::trim_start(before + rest) == rest,
    decreases before.len(),
{
    if before.len() == 0 {
        assert(before + rest =~= rest);
    } else {
        assert((before + rest)[0] == before[0]);
        assert((before + rest).skip(1) =~= before.skip(1) + rest);
        assert forall|i: int| 0 <= i < before.skip(1).len() implies text::is_space(
            #[trigger] before.skip(1)[i],
        ) by {
            assert(before.skip(1)[i] == before[i + 1]);
        }
        lemma_trim_start(before.skip(1), rest);
    }
}

proof fn lemma_trim_end(rest: Seq<char>, after: Seq<char>)
    requires
        forall|i: int| 0 <= i < after.len() ==> text::is_space(#[trigger] after[i]),
        rest.len() > 0,
        !text::is_space(rest.last()),
    ensures
        text::trim_end(rest + after) == rest,
    decreases after.len(),
{
    if after.len() == 0 {
        assert(rest + after =~= rest);
    } else {
        assert((rest + after).last() == after.last());
        assert((rest + after).drop_last() =~= rest + after.drop_last());
        lemma_trim_end(rest, after.drop_last());
    }
}

/// Whitespace around a text is taken away, and nothing else.
pub proof fn law_trimmed(before: Seq<char>, core: Seq<char>, after: Seq<char>)
    requires
        forall|i: int| 0 <= i < before.len() ==> text::is_space(#[trigger] before[i]),
        forall|i: int| 0 <= i < after.len() ==> text::is_space(#[trigger] after[i]),
        core.len() > 0,
        !text::is_space(core[0]),
        !text::is_space(core.last()),
    ensures
        text::trimmed(before + core + after) == core,
{
    assert(before + core + after =~= before + (core + after));
    lemma_trim_start(before, core + after);
    lemma_trim_end(core, after);
}

/// Text of whitespace alone comes to nothing, and what is left of any other has no whitespace at
/// either end.
pub proof fn law_trimmed_is_bare(s: Seq<char>)
    ensures
        (forall|i: int| 0 <= i < s.len() ==> text::is_space(#[trigger] s[i])) ==> text::trimmed(
            s,
        ).len() == 0,
        text::trimmed(s).len() > 0 ==> !text::is_space(text::trimmed(s)[0]) && !text::is_space(
            text::trimmed(s).last(),
        ),
{
    lemma_start_is_bare(s);
    lemma_end_is_bare(text::trim_start(s));
}

proof fn lemma_start_is_bare(s: Seq<char>)
    ensures
        (forall|i: int| 0 <= i < s.len() ==> text::is_space(#[trigger] s[i])) ==> text::trim_start(
            s,
        ).len() == 0,
        text::trim_start(s).len() > 0 ==> !text::is_space(text::trim_start(s)[0]),
    decreases s.len(),
{
    if s.len() > 0 && text::is_space(s[0]) {
        lemma_start_is_bare(s.skip(1));
        if forall|i: int| 0 <= i < s.len() ==> text::is_space(#[trigger] s[i]) {
            assert forall|i: int| 0 <= i < s.skip(1).len() implies text::is_space(
                #[trigger] s.skip(1)[i],
            ) by {
                assert(s.skip(1)[i] == s[i + 1]);
            }
        }
    }
}

proof fn lemma_end_is_bare(s: Seq<char>)
    ensures
        text::trim_end(s).len() <= s.len(),
        text::trim_end(s).len() > 0 ==> !text::is_space(text::trim_end(s).last())
            && text::trim_end(s)[0] == s[0],
    decreases s.len(),
{
    if s.len() > 0 && text::is_space(s.last()) {
        lemma_end_is_bare(s.drop_last());
    }
}

/// The characters that are whitespace.
pub proof fn law_whitespace(c: char)
    ensures
        text::is_space(c) <==> c == '\t' || c == '\n' || c == '\u{b}' || c == '\u{c}' || c == '\r'
            || c == ' ' || c == '\u{85}' || c == '\u{a0}' || c == '\u{1680}' || c == '\u{2000}'
            || c == '\u{2001}' || c == '\u{2002}' || c == '\u{2003}' || c == '\u{2004}' || c
            == '\u{2005}' || c == '\u{2006}' || c == '\u{2007}' || c == '\u{2008}' || c
            == '\u{2009}' || c == '\u{200a}' || c == '\u{2028}' || c == '\u{2029}' || c
            == '\u{202f}' || c == '\u{205f}' || c == '\u{3000}',
{
}

/// Whitespace before the words of a text does not matter, and a text without words has none.
pub proof fn law_space_before_words(space: char, rest: Seq<char>)
    requires
        text::is_space(space),
    ensures
        text::words(seq![space] + rest) == text::words(rest),
        text::words(Seq::empty()).len() == 0,
{
    assert((seq![space] + rest).skip(1) =~= rest);
}

proof fn lemma_index_of_end(line: Seq<char>, end: char, rest: Seq<char>)
    requires
        !line.contains(end),
    ensures
        text::first_index(line + seq![end] + rest, end) == line.len(),
        text::first_index(line, end) == line.len(),
{
    let s = line + seq![end] + rest;
    text::lemma_first_index(s, end);
    text::lemma_first_index(line, end);
    let k = text::first_index(s, end) as int;
    assert(s[line.len() as int] == end);
    if k < line.len() {
        assert(line[k] == s[k]);
    }
}

/// A text is cut into lines where a line feed is, or a carriage return and a line feed. What
/// follows the last one is a line where it is not empty, and it stays as it is.
pub proof fn law_lines(line: Seq<char>, rest: Seq<char>)
    requires
        !line.contains('\n'),
    ensures
        line.len() == 0 || line.last() != '\r' ==> text::line_texts(line + seq!['\n'] + rest)
            == seq![line] + text::line_texts(rest),
        text::line_texts(line + seq!['\r', '\n'] + rest) == seq![line] + text::line_texts(rest),
        text::line_texts(line) == if line.len() > 0 {
            seq![line]
        } else {
            Seq::empty()
        },
{
    let s = line + seq!['\n'] + rest;
    lemma_index_of_end(line, '\n', rest);
    assert(s.take(line.len() as int) =~= line);
    assert(s.skip(line.len() as int + 1) =~= rest);
    let longer = line.push('\r');
    assert(!longer.contains('\n')) by {
        assert forall|i: int| 0 <= i < longer.len() implies longer[i] != '\n' by {
            if i < line.len() {
                assert(longer[i] == line[i]);
                assert(line.contains(line[i]));
            }
        }
    }
    let t = line + seq!['\r', '\n'] + rest;
    assert(t =~= longer + seq!['\n'] + rest);
    lemma_index_of_end(longer, '\n', rest);
    assert(t.take(longer.len() as int) =~= longer);
    assert(t.skip(longer.len() as int + 1) =~= rest);
    assert(longer.drop_last() =~= line);
}

/// A text is in another where that is the text with something before it and something after it.
pub proof fn law_text_in_text(before: Seq<char>, part: Seq<char>, after: Seq<char>, s: Seq<char>)
    ensures
        text::has_text(before + part + after, part),
        text::has_text(s, part) ==> exists|i: int|
            0 <= i && i + part.len() <= s.len() && s == #[trigger] s.take(i) + part + s.skip(
                i + part.len(),
            ),
{
    let whole = before + part + after;
    let k = before.len() as int;
    assert(whole.subrange(k, k + part.len()) =~= part);
    assert(text::stands_at(whole, part, k));
    if text::has_text(s, part) {
        let i = choose|i: int| text::stands_at(s, part, i);
        assert(s =~= s.take(i) + s.subrange(i, i + part.len()) + s.skip(i + part.len()));
        assert(s == s.take(i) + part + s.skip(i + part.len()));
    }
}

/// A text begins with another where that is the text with something after it.
pub proof fn law_text_begins(prefix: Seq<char>, after: Seq<char>, s: Seq<char>)
    ensures
        text::begins_with(prefix + after, prefix),
        text::begins_with(s, prefix) ==> s == prefix + s.skip(prefix.len() as int),
{
    assert((prefix + after).subrange(0, prefix.len() as int) =~= prefix);
    if text::begins_with(s, prefix) {
        assert(s =~= s.subrange(0, prefix.len() as int) + s.skip(prefix.len() as int));
    }
}

/// A line gives a property where `I40E_` and more stand before its first equals sign. The value is
/// what follows, without whitespace around it, and without the double quotes around that.
pub proof fn law_property_line(name: Seq<char>, value: Seq<char>)
    requires
        !name.contains('='),
        value.len() == 0 || value[0] != '"' || value.last() != '"',
    ensures
        text::begins_with(name, "I40E_"@) && text::trimmed(value) == value ==> props::property_in(
            name + seq!['='] + value,
        ) == Some((name, value)),
        text::begins_with(name, "I40E_"@) ==> props::property_in(
            name + seq!['=', '"'] + value + seq!['"'],
        ) == Some((name, value)),
        !text::begins_with(name, "I40E_"@) ==> props::property_in(name + seq!['='] + value) is None,
        props::property_in(name) is None,
{
    let s = name + seq!['='] + value;
    lemma_index_of_end(name, '=', value);
    assert(s.take(name.len() as int) =~= name);
    assert(s.skip(name.len() as int + 1) =~= value);
    let quoted = seq!['"'] + value + seq!['"'];
    let t = name + seq!['=', '"'] + value + seq!['"'];
    assert(t =~= name + seq!['='] + quoted);
    lemma_index_of_end(name, '=', quoted);
    assert(t.take(name.len() as int) =~= name);
    assert(t.skip(name.len() as int + 1) =~= quoted);
    law_trimmed(Seq::empty(), quoted, Seq::empty());
    assert(Seq::empty() + quoted + Seq::empty() =~= quoted);
    assert(quoted.subrange(1, quoted.len() - 1) =~= value);
}

/// Whitespace around the value of a property does not matter.
pub proof fn law_space_around_a_value(
    name: Seq<char>,
    before: Seq<char>,
    value: Seq<char>,
    after: Seq<char>,
)
    requires
        !name.contains('='),
        forall|i: int| 0 <= i < before.len() ==> text::is_space(#[trigger] before[i]),
        forall|i: int| 0 <= i < after.len() ==> text::is_space(#[trigger] after[i]),
        value.len() > 0,
        !text::is_space(value[0]),
        !text::is_space(value.last()),
    ensures
        props::property_in(name + seq!['='] + (before + value + after)) == props::property_in(
            name + seq!['='] + value,
        ),
{
    let padded = before + value + after;
    let s = name + seq!['='] + padded;
    let t = name + seq!['='] + value;
    lemma_index_of_end(name, '=', padded);
    lemma_index_of_end(name, '=', value);
    assert(s.take(name.len() as int) =~= name);
    assert(t.take(name.len() as int) =~= name);
    assert(s.skip(name.len() as int + 1) =~= padded);
    assert(t.skip(name.len() as int + 1) =~= value);
    law_trimmed(before, value, after);
    law_trimmed(Seq::empty(), value, Seq::empty());
    assert(Seq::empty() + value + Seq::empty() =~= value);
}

/// Texts are in the order of the first characters in which they differ; one that another begins
/// with comes before it.
pub proof fn law_order_of_texts(common: Seq<char>, x: char, y: char, s: Seq<char>, t: Seq<char>)
    requires
        x < y,
    ensures
        props::comes_before(common + seq![x] + s, common + seq![y] + t),
        props::comes_before(common, common + seq![y] + t),
    decreases common.len(),
{
    let a = common + seq![x] + s;
    let b = common + seq![y] + t;
    if common.len() > 0 {
        law_order_of_texts(common.skip(1), x, y, s, t);
        assert(a.skip(1) =~= common.skip(1) + seq![x] + s);
        assert(b.skip(1) =~= common.skip(1) + seq![y] + t);
        assert(a[0] == common[0] && b[0] == common[0]);
    } else {
        assert(a[0] == x && b[0] == y);
    }
}

/// The properties are listed in the order of their names, each once, with the value that it has.
pub proof fn law_listing(
    pairs: Seq<(Seq<char>, Seq<char>)>,
    m: Map<Seq<char>, Seq<char>>,
    i: int,
    j: int,
    name: Seq<char>,
)
    requires
        props::is_listing(pairs, m),
        0 <= i < j < pairs.len(),
    ensures
        props::comes_before(pairs[i].0, pairs[j].0),
        m.contains_key(pairs[i].0),
        m[pairs[i].0] == pairs[i].1,
        m.contains_key(pairs[j].0),
        m[pairs[j].0] == pairs[j].1,
        m.contains_key(name) ==> exists|k: int| 0 <= k < pairs.len() && #[trigger] pairs[k] == (
            name,
            m[name],
        ),
{
    if m.contains_key(name) {
        let k = choose|k: int| 0 <= k < pairs.len() && (#[trigger] pairs[k]).0 == name;
        assert(pairs[k] == (name, m[name]));
    }
}

} // verus!
