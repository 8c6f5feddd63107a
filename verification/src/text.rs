//! Text handling: whitespace, tokens, lines and searching, over the characters of a string.
use vstd::prelude::*;
use vstd::string::*;

verus! {

/// `String::push` appends the given character to the end of the string.
pub assume_specification[ String::push ](s: &mut String, c: char)
    ensures
        final(s)@ == old(s)@.push(c),
;

/// The characters with the Unicode property `White_Space`.
pub open spec fn is_space(c: char) -> bool {
    let n = c as u32;
    ||| 0x09 <= n <= 0x0d
    ||| n == 0x20
    ||| n == 0x85
    ||| n == 0xa0
    ||| n == 0x1680
    ||| 0x2000 <= n <= 0x200a
    ||| n == 0x2028
    ||| n == 0x2029
    ||| n == 0x202f
    ||| n == 0x205f
    ||| n == 0x3000
}

/// Whether `c` is whitespace.
pub fn is_whitespace(c: char) -> (r: bool)
    ensures
        r == is_space(c),
{
    let n: u32 = c as u32;
    (0x09 <= n && n <= 0x0d) || n == 0x20 || n == 0x85 || n == 0xa0 || n == 0x1680 || (0x2000 <= n
        && n <= 0x200a) || n == 0x2028 || n == 0x2029 || n == 0x202f || n == 0x205f || n == 0x3000
}

/// The characters of `s`, in order.
pub fn chars_of(s: &str) -> (r: Vec<char>)
    ensures
        r@ == s@,
{
    let mut out: Vec<char> = Vec::new();
    for c in it: s.chars()
        invariant
            out@ == s@.take(it.index() as int),
            it.seq() == s@,
    {
        out.push(c);
        assert(s@.take(it.index() as int).push(c) =~= s@.take(it.index() + 1));
    }
    assert(s@.take(s@.len() as int) =~= s@);
    out
}

/// The string that holds the characters `from..to` of `v`.
pub fn text_between(v: &Vec<char>, from: usize, to: usize) -> (r: String)
    requires
        from <= to <= v@.len(),
    ensures
        r@ == v@.subrange(from as int, to as int),
{
    let mut out = String::new();
    let mut i: usize = from;
    while i < to
        invariant
            from <= i <= to <= v@.len(),
            out@ == v@.subrange(from as int, i as int),
        decreases to - i,
    {
        out.push(v[i]);
        assert(v@.subrange(from as int, i as int).push(v@[i as int]) =~= v@.subrange(
            from as int,
            i + 1,
        ));
        i = i + 1;
    }
    out
}

/// Whether `a` and `b` hold the same characters.
pub fn same_text(a: &str, b: &str) -> (r: bool)
    ensures
        r == (a@ == b@),
{
    let x = chars_of(a);
    let y = chars_of(b);
    if x.len() != y.len() {
        return false;
    }
    let mut i: usize = 0;
    while i < x.len()
        invariant
            i <= x@.len() == y@.len(),
            x@ == a@,
            y@ == b@,
            x@.take(i as int) =~= y@.take(i as int),
        decreases x@.len() - i,
    {
        if x[i] != y[i] {
            return false;
        }
        i = i + 1;
    }
    assert(x@.take(i as int) =~= x@);
    assert(y@.take(i as int) =~= y@);
    true
}

/// The characters that each of `items` holds.
pub open spec fn texts(items: Seq<String>) -> Seq<Seq<char>> {
    items.map_values(|s: String| s@)
}

/// The content of an optional string.
pub open spec fn optional_text(s: Option<String>) -> Option<Seq<char>> {
    match s {
        Some(t) => Some(t@),
        None => None,
    }
}

/// Adds a copy of `s` at the end of `items`.
pub fn push_text(items: &mut Vec<String>, s: &str)
    ensures
        texts(final(items)@) == texts(old(items)@).push(s@),
{
    let ghost before = items@;
    items.push(s.to_owned());
    assert(texts(items@) =~= texts(before).push(s@));
}

/// Adds all of `more` at the end of `items`.
pub fn append_texts(items: &mut Vec<String>, more: Vec<String>)
    ensures
        texts(final(items)@) == texts(old(items)@) + texts(more@),
{
    let ghost before = items@;
    let mut tail = more;
    items.append(&mut tail);
    assert(texts(items@) =~= texts(before) + texts(more@));
}

/// The list of `a` and `b`.
pub fn two_texts(a: &str, b: &str) -> (r: Vec<String>)
    ensures
        texts(r@) == seq![a@, b@],
{
    let mut r: Vec<String> = Vec::new();
    push_text(&mut r, a);
    push_text(&mut r, b);
    assert(texts(r@) =~= seq![a@, b@]);
    r
}

/// `a` followed by `b`.
pub fn concat(a: &str, b: &str) -> (r: String)
    ensures
        r@ == a@ + b@,
{
    let mut out = a.to_owned();
    out.append(b);
    out
}

/// `a`, `b` and `c`, one after the other.
pub fn concat3(a: &str, b: &str, c: &str) -> (r: String)
    ensures
        r@ == a@ + b@ + c@,
{
    let mut out = a.to_owned();
    out.append(b);
    out.append(c);
    out
}

/// What is left of `s` without its leading whitespace.
pub open spec fn trim_start(s: Seq<char>) -> Seq<char>
    decreases s.len(),
{
    if s.len() > 0 && is_space(s[0]) {
        trim_start(s.skip(1))
    } else {
        s
    }
}

/// What is left of `s` without its trailing whitespace.
pub open spec fn trim_end(s: Seq<char>) -> Seq<char>
    decreases s.len(),
{
    if s.len() > 0 && is_space(s.last()) {
        trim_end(s.drop_last())
    } else {
        s
    }
}

/// What is left of `s` without whitespace at either end.
pub open spec fn trimmed(s: Seq<char>) -> Seq<char> {
    trim_end(trim_start(s))
}

/// Removes whitespace at either end of `s`.
pub fn trim(s: &str) -> (r: String)
    ensures
        r@ == trimmed(s@),
{
    let v = chars_of(s);
    let mut i: usize = 0;
    assert(v@.skip(0) =~= v@);
    while i < v.len() && is_whitespace(v[i])
        invariant
            i <= v@.len(),
            trim_start(v@.skip(i as int)) == trim_start(v@),
        decreases v@.len() - i,
    {
        assert(v@.skip(i as int).skip(1) =~= v@.skip(i + 1));
        i = i + 1;
    }
    let mut j: usize = v.len();
    assert(v@.subrange(i as int, j as int) =~= v@.skip(i as int));
    while j > i && is_whitespace(v[j - 1])
        invariant
            i <= j <= v@.len(),
            trim_end(v@.subrange(i as int, j as int)) == trim_end(v@.skip(i as int)),
        decreases j,
    {
        assert(v@.subrange(i as int, j as int).drop_last() =~= v@.subrange(i as int, j - 1));
        j = j - 1;
    }
    text_between(&v, i, j)
}

/// The number of characters before the first whitespace of `s`.
pub open spec fn word_len(s: Seq<char>) -> nat
    decreases s.len(),
{
    if s.len() == 0 || is_space(s[0]) {
        0
    } else {
        1 + word_len(s.skip(1))
    }
}

/// A word is no longer than the text that it begins.
pub proof fn lemma_word_len(s: Seq<char>)
    ensures
        word_len(s) <= s.len(),
    decreases s.len(),
{
    if s.len() > 0 && !is_space(s[0]) {
        lemma_word_len(s.skip(1));
    }
}

/// The words of `s`: its longest stretches without whitespace, in order.
pub open spec fn words(s: Seq<char>) -> Seq<Seq<char>>
    decreases s.len(),
{
    if s.len() == 0 {
        Seq::empty()
    } else if is_space(s[0]) {
        words(s.skip(1))
    } else {
        proof {
            lemma_word_len(s);
        }
        seq![s.take(word_len(s) as int)] + words(s.skip(word_len(s) as int))
    }
}

/// Splits `input` into its words.
pub fn split_tokens(input: &str) -> (r: Vec<String>)
    ensures
        texts(r@) == words(input@),
{
    let v = chars_of(input);
    let mut out: Vec<String> = Vec::new();
    let mut i: usize = 0;
    assert(v@.skip(0) =~= v@);
    assert(texts(out@) + words(v@) =~= words(v@));
    while i < v.len()
        invariant
            i <= v@.len(),
            texts(out@) + words(v@.skip(i as int)) == words(v@),
        decreases v@.len() - i,
    {
        let ghost rest = v@.skip(i as int);
        if is_whitespace(v[i]) {
            assert(rest.skip(1) =~= v@.skip(i + 1));
            i = i + 1;
        } else {
            let mut j: usize = i;
            assert(rest =~= v@.skip(j as int));
            while j < v.len() && !is_whitespace(v[j])
                invariant
                    i <= j <= v@.len(),
                    word_len(v@.skip(i as int)) == (j - i) + word_len(v@.skip(j as int)),
                decreases v@.len() - j,
            {
                assert(v@.skip(j as int).skip(1) =~= v@.skip(j + 1));
                j = j + 1;
            }
            let word = text_between(&v, i, j);
            proof {
                assert(word_len(rest) == j - i);
                assert(rest.take(j - i) =~= v@.subrange(i as int, j as int));
                assert(rest.skip(j - i) =~= v@.skip(j as int));
                assert(texts(out@.push(word)) =~= texts(out@).push(word@));
                assert(texts(out@).push(word@) + words(v@.skip(j as int)) =~= texts(out@) + (seq![
                    word@,
                ] + words(v@.skip(j as int))));
            }
            out.push(word);
            i = j;
        }
    }
    assert(words(v@.skip(i as int)) =~= Seq::empty());
    assert(texts(out@) + words(v@.skip(i as int)) =~= texts(out@));
    out
}

/// Whether `s` is a word: not empty, and without whitespace.
pub open spec fn is_word(s: Seq<char>) -> bool {
    &&& s.len() > 0
    &&& forall|i: int| 0 <= i < s.len() ==> !is_space(#[trigger] s[i])
}

/// What `word_len` counts: the characters up to there are no whitespace, and there the text ends or
/// goes on with whitespace.
proof fn lemma_word_end(s: Seq<char>)
    ensures
        word_len(s) <= s.len(),
        forall|i: int| 0 <= i < word_len(s) ==> !is_space(#[trigger] s[i]),
        word_len(s) < s.len() ==> is_space(s[word_len(s) as int]),
    decreases s.len(),
{
    if s.len() > 0 && !is_space(s[0]) {
        let rest = s.skip(1);
        lemma_word_end(rest);
        assert forall|i: int| 0 <= i < word_len(s) implies !is_space(#[trigger] s[i]) by {
            if i > 0 {
                assert(s[i] == rest[i - 1]);
            }
        }
    }
}

/// What `words` gives are words.
pub proof fn law_words_are_words(s: Seq<char>)
    ensures
        forall|i: int| 0 <= i < words(s).len() ==> is_word(#[trigger] words(s)[i]),
    decreases s.len(),
{
    if s.len() > 0 {
        if is_space(s[0]) {
            law_words_are_words(s.skip(1));
            assert(words(s) == words(s.skip(1)));
        } else {
            lemma_word_end(s);
            let n = word_len(s) as int;
            law_words_are_words(s.skip(n));
            assert forall|i: int| 0 <= i < words(s).len() implies is_word(
                #[trigger] words(s)[i],
            ) by {
                if i > 0 {
                    assert(words(s)[i] == words(s.skip(n))[i - 1]);
                }
            }
        }
    }
}

/// A word, whitespace and more text: the words are that word, and those of the text.
pub proof fn law_first_word(word: Seq<char>, space: char, rest: Seq<char>)
    requires
        is_word(word),
        is_space(space),
    ensures
        words(word + seq![space] + rest) == seq![word] + words(rest),
{
    let s = word + seq![space] + rest;
    lemma_word_end(s);
    let n = word_len(s) as int;
    if n < word.len() {
        assert(s[n] == word[n]);
    } else if n > word.len() {
        assert(s[word.len() as int] == space);
    }
    assert(s.take(n) =~= word);
    assert(s.skip(n).skip(1) =~= rest);
    assert(words(s.skip(n)) == words(rest));
}

/// The words of a word: itself alone.
pub proof fn law_one_word(word: Seq<char>)
    requires
        is_word(word),
    ensures
        words(word) == seq![word],
{
    lemma_word_end(word);
    let n = word_len(word) as int;
    if n < word.len() {
        assert(is_space(word[n]));
    }
    assert(word.take(n) =~= word);
    assert(words(word.skip(n)) =~= Seq::empty());
}

/// The position of the first `c` in `s`, or the length of `s` where there is none.
pub open spec fn first_index(s: Seq<char>, c: char) -> nat
    decreases s.len(),
{
    if s.len() == 0 || s[0] == c {
        0
    } else {
        1 + first_index(s.skip(1), c)
    }
}

/// The position that `first_index` gives: it holds `c` unless it is the end, and no `c` is before it.
pub proof fn lemma_first_index(s: Seq<char>, c: char)
    ensures
        first_index(s, c) <= s.len(),
        first_index(s, c) < s.len() ==> s[first_index(s, c) as int] == c,
        forall|i: int| 0 <= i < first_index(s, c) ==> s[i] != c,
    decreases s.len(),
{
    if s.len() > 0 && s[0] != c {
        lemma_first_index(s.skip(1), c);
        assert forall|i: int| 0 <= i < first_index(s, c) implies s[i] != c by {
            if i > 0 {
                assert(s[i] == s.skip(1)[i - 1]);
            }
        }
    }
}

/// The position of the first `c` at or after `from`, or the end of `v`.
pub fn find_char(v: &Vec<char>, from: usize, c: char) -> (r: usize)
    requires
        from <= v@.len(),
    ensures
        from <= r <= v@.len(),
        r - from == first_index(v@.skip(from as int), c),
{
    let mut i: usize = from;
    while i < v.len() && v[i] != c
        invariant
            from <= i <= v@.len(),
            first_index(v@.skip(from as int), c) == (i - from) + first_index(v@.skip(i as int), c),
        decreases v@.len() - i,
    {
        assert(v@.skip(i as int).skip(1) =~= v@.skip(i + 1));
        i = i + 1;
    }
    i
}

/// A line without the carriage return that belongs to its line ending.
pub open spec fn without_cr(line: Seq<char>) -> Seq<char> {
    if line.len() > 0 && line.last() == '\r' {
        line.drop_last()
    } else {
        line
    }
}

/// The lines of `s`: each ends in a newline, or in a carriage return and a newline, neither of
/// which belongs to the line. The last one may lack its line ending.
pub open spec fn line_texts(s: Seq<char>) -> Seq<Seq<char>>
    decreases s.len(),
{
    let k = first_index(s, '\n');
    if s.len() == 0 {
        Seq::empty()
    } else if k >= s.len() {
        seq![s]
    } else {
        seq![without_cr(s.take(k as int))] + line_texts(s.skip(k as int + 1))
    }
}

/// Splits `s` into its lines.
pub fn lines(s: &str) -> (r: Vec<String>)
    ensures
        texts(r@) == line_texts(s@),
{
    let v = chars_of(s);
    let mut out: Vec<String> = Vec::new();
    let mut i: usize = 0;
    assert(v@.skip(0) =~= v@);
    assert(texts(out@) + line_texts(v@) =~= line_texts(v@));
    while i < v.len()
        invariant
            i <= v@.len(),
            texts(out@) + line_texts(v@.skip(i as int)) == line_texts(v@),
        decreases v@.len() - i,
    {
        let ghost rest = v@.skip(i as int);
        let ghost before = out@;
        let k: usize = find_char(&v, i, '\n');
        if k == v.len() {
            let line = text_between(&v, i, k);
            proof {
                assert(line@ =~= rest);
                assert(texts(before.push(line)) =~= texts(before) + seq![rest]);
                assert(line_texts(v@.skip(k as int)) =~= Seq::empty());
            }
            out.push(line);
            assert(texts(out@) + line_texts(v@.skip(k as int)) =~= texts(out@));
            i = k;
        } else {
            let end: usize = if k > i && v[k - 1] == '\r' {
                k - 1
            } else {
                k
            };
            let line = text_between(&v, i, end);
            proof {
                assert(line@ =~= without_cr(rest.take(k - i)));
                assert(rest.skip(k - i + 1) =~= v@.skip(k + 1));
                assert(texts(before.push(line)) =~= texts(before).push(line@));
                assert(texts(before).push(line@) + line_texts(v@.skip(k + 1)) =~= texts(before) + (
                seq![line@] + line_texts(v@.skip(k + 1))));
            }
            out.push(line);
            i = k + 1;
        }
    }
    assert(line_texts(v@.skip(i as int)) =~= Seq::empty());
    assert(texts(out@) + line_texts(v@.skip(i as int)) =~= texts(out@));
    out
}

/// Whether `part` stands in `s` at position `i`.
pub open spec fn stands_at(s: Seq<char>, part: Seq<char>, i: int) -> bool {
    0 <= i && i + part.len() <= s.len() && s.subrange(i, i + part.len()) == part
}

/// Whether `part` stands somewhere in `s`.
pub open spec fn has_text(s: Seq<char>, part: Seq<char>) -> bool {
    exists|i: int| stands_at(s, part, i)
}

/// Whether `part` stands in `v` at position `i`.
pub fn matches_at(v: &Vec<char>, part: &Vec<char>, i: usize) -> (r: bool)
    ensures
        r == stands_at(v@, part@, i as int),
{
    if i > v.len() || part.len() > v.len() - i {
        return false;
    }
    let end: usize = i + part.len();
    let mut k: usize = 0;
    while k < part.len()
        invariant
            k <= part@.len(),
            end == i + part@.len(),
            end <= v@.len(),
            forall|m: int| 0 <= m < k ==> v@[i + m] == #[trigger] part@[m],
        decreases part@.len() - k,
    {
        if v[i + k] != part[k] {
            assert(v@.subrange(i as int, i + part@.len())[k as int] != part@[k as int]);
            return false;
        }
        k = k + 1;
    }
    assert(v@.subrange(i as int, i + part@.len()) =~= part@);
    true
}

/// Whether `part` stands somewhere in `s`.
pub fn contains_text(s: &str, part: &str) -> (r: bool)
    ensures
        r == has_text(s@, part@),
{
    let v = chars_of(s);
    let p = chars_of(part);
    let mut i: usize = 0;
    while i < v.len()
        invariant
            i <= v@.len(),
            v@ == s@,
            p@ == part@,
            forall|m: int| 0 <= m < i ==> !stands_at(v@, p@, m),
        decreases v@.len() - i,
    {
        if matches_at(&v, &p, i) {
            return true;
        }
        i = i + 1;
    }
    matches_at(&v, &p, i)
}

/// Whether `s` begins with `prefix`.
pub open spec fn begins_with(s: Seq<char>, prefix: Seq<char>) -> bool {
    stands_at(s, prefix, 0)
}

/// Whether `s` begins with `prefix`.
pub fn starts_with(s: &str, prefix: &str) -> (r: bool)
    ensures
        r == begins_with(s@, prefix@),
{
    matches_at(&chars_of(s), &chars_of(prefix), 0)
}

} // verus!
