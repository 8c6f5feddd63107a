//! Virtual functions: their indices, the names of their network devices, and their administrative
//! addresses.
use vstd::prelude::*;
use vstd::string::*;

use crate::number;
use crate::number::{decimal_text, read_digits};
use crate::text;
use crate::text::{chars_of, lines, matches_at, same_text, split_tokens, starts_with, text_between};

verus! {

/// What stands before the last `np` of `name` that begins at `from` or before, or `name` where
/// there is none.
pub open spec fn before_last_np(name: Seq<char>, from: int) -> Seq<char>
    decreases from + 1,
{
    if from < 0 {
        name
    } else if text::stands_at(name, "np"@, from) {
        name.take(from)
    } else {
        before_last_np(name, from - 1)
    }
}

/// What stands before the last `np` of `name`, or `name` where there is none.
pub open spec fn without_np(name: Seq<char>) -> Seq<char> {
    before_last_np(name, name.len() as int)
}

/// What stands before the last `np` of `name`, or `name` where there is none.
pub fn trim_np_suffix(name: &str) -> (r: &str)
    ensures
        r@ == without_np(name@),
{
    let v = chars_of(name);
    let np = chars_of("np");
    let mut i: usize = v.len();
    while !matches_at(&v, &np, i)
        invariant
            v@ == name@,
            np@ == "np"@,
            i <= v@.len(),
            without_np(name@) == before_last_np(name@, i as int),
        decreases i,
    {
        if i == 0 {
            assert(before_last_np(name@, -1) == name@);
            return name;
        }
        i = i - 1;
    }
    name.substring_char(0, i)
}

/// The text before the last `np` is what is left; where there is no `np`, nothing is taken away.
pub proof fn law_without_np(name: Seq<char>)
    ensures
        !text::has_text(name, "np"@) ==> without_np(name) == name,
        forall|i: int|
            #![trigger text::stands_at(name, "np"@, i)]
            text::stands_at(name, "np"@, i) && (forall|k: int|
                k > i ==> !text::stands_at(name, "np"@, k)) ==> without_np(name) == name.take(i),
{
    if !text::has_text(name, "np"@) {
        lemma_no_np(name, name.len() as int);
    }
    assert forall|i: int|
        #![trigger text::stands_at(name, "np"@, i)]
        text::stands_at(name, "np"@, i) && (forall|k: int|
            k > i ==> !text::stands_at(name, "np"@, k)) implies without_np(name) == name.take(i) by {
        lemma_last_np(name, i, name.len() as int);
    }
}

proof fn lemma_no_np(name: Seq<char>, from: int)
    requires
        !text::has_text(name, "np"@),
        from >= -1,
    ensures
        before_last_np(name, from) == name,
    decreases from + 1,
{
    if from >= 0 {
        assert(!text::stands_at(name, "np"@, from));
        lemma_no_np(name, from - 1);
    }
}

proof fn lemma_last_np(name: Seq<char>, i: int, from: int)
    requires
        text::stands_at(name, "np"@, i),
        forall|k: int| k > i ==> !text::stands_at(name, "np"@, k),
        from >= i,
    ensures
        before_last_np(name, from) == name.take(i),
    decreases from,
{
    if from > i {
        lemma_last_np(name, i, from - 1);
    }
}

/// What is left of `s` without the colons and commas at its end.
pub open spec fn without_marks(s: Seq<char>) -> Seq<char>
    decreases s.len(),
{
    if s.len() > 0 && (s.last() == ':' || s.last() == ',') {
        without_marks(s.drop_last())
    } else {
        s
    }
}

/// What is left of `s` without the colons and commas at its end.
pub fn trim_marks(s: &str) -> (r: String)
    ensures
        r@ == without_marks(s@),
{
    let v = chars_of(s);
    let mut j: usize = v.len();
    assert(v@.take(j as int) =~= v@);
    while j > 0 && (v[j - 1] == ':' || v[j - 1] == ',')
        invariant
            j <= v@.len(),
            without_marks(v@.take(j as int)) == without_marks(v@),
        decreases j,
    {
        assert(v@.take(j as int).drop_last() =~= v@.take(j - 1));
        j = j - 1;
    }
    assert(v@.subrange(0, j as int) =~= v@.take(j as int));
    text_between(&v, 0, j)
}

/// The word after the first word `MAC`, where there is one.
pub open spec fn word_after_mac(words: Seq<Seq<char>>) -> Option<Seq<char>>
    decreases words.len(),
{
    if words.len() < 2 {
        None
    } else if words[0] == "MAC"@ {
        Some(words[1])
    } else {
        word_after_mac(words.skip(1))
    }
}

/// The administrative address that `lines` give for the virtual function whose index is written
/// `index`. Such a line begins with the words `vf` and the index, and has the address after the word
/// `MAC`; colons and commas at the end of the index and of the address do not count. A line without
/// words, or with `vf` alone, ends the search.
pub open spec fn admin_mac_in(lines: Seq<Seq<char>>, index: Seq<char>) -> Option<Seq<char>>
    decreases lines.len(),
{
    if lines.len() == 0 {
        None
    } else {
        let words = text::words(lines[0]);
        if words.len() == 0 {
            None
        } else if words[0] != "vf"@ {
            admin_mac_in(lines.skip(1), index)
        } else if words.len() == 1 {
            None
        } else if without_marks(words[1]) != index {
            admin_mac_in(lines.skip(1), index)
        } else {
            match word_after_mac(words.skip(2)) {
                Some(mac) => Some(without_marks(mac)),
                None => admin_mac_in(lines.skip(1), index),
            }
        }
    }
}

/// The administrative address of virtual function `idx` in the link description `output`.
pub open spec fn admin_mac(output: Seq<char>, idx: nat) -> Option<Seq<char>> {
    admin_mac_in(text::line_texts(output), number::decimal(idx))
}

/// Finds the administrative address of virtual function `idx` in the link description `output`.
pub fn parse_vf_admin_mac(output: &str, idx: usize) -> (r: Option<String>)
    ensures
        text::optional_text(r) == admin_mac(output@, idx as nat),
{
    let expected = decimal_text(idx as u64);
    let all = lines(output);
    let ghost every = text::texts(all@);
    let mut i: usize = 0;
    assert(every.skip(0) =~= every);
    while i < all.len()
        invariant
            i <= all@.len(),
            every == text::texts(all@),
            expected@ == number::decimal(idx as nat),
            admin_mac(output@, idx as nat) == admin_mac_in(every.skip(i as int), expected@),
        decreases all@.len() - i,
    {
        let ghost rest = every.skip(i as int);
        assert(rest[0] == all@[i as int]@);
        assert(rest.skip(1) =~= every.skip(i + 1));
        let parts = split_tokens(all[i].as_str());
        let ghost words = text::texts(parts@);
        if parts.len() == 0 {
            return None;
        }
        assert(words[0] == parts@[0]@);
        if same_text(parts[0].as_str(), "vf") {
            if parts.len() == 1 {
                return None;
            }
            assert(words[1] == parts@[1]@);
            let token = trim_marks(parts[1].as_str());
            if same_text(token.as_str(), expected.as_str()) {
                match find_after_mac(&parts, 2) {
                    Some(k) => {
                        return Some(trim_marks(parts[k].as_str()));
                    },
                    None => {},
                }
            }
        }
        i = i + 1;
    }
    None
}

/// The position of the word after the first `MAC` at or after `from`.
fn find_after_mac(parts: &Vec<String>, from: usize) -> (r: Option<usize>)
    requires
        from <= parts@.len(),
    ensures
        match r {
            Some(k) => k < parts@.len() && word_after_mac(
                text::texts(parts@).skip(from as int),
            ) == Some(parts@[k as int]@),
            None => word_after_mac(text::texts(parts@).skip(from as int)) is None,
        },
{
    let ghost words = text::texts(parts@);
    let mut i: usize = from;
    while i < parts.len()
        invariant
            from <= i <= parts@.len(),
            words == text::texts(parts@),
            word_after_mac(words.skip(from as int)) == word_after_mac(words.skip(i as int)),
        decreases parts@.len() - i,
    {
        let ghost rest = words.skip(i as int);
        assert(rest[0] == parts@[i as int]@);
        assert(rest.skip(1) =~= words.skip(i + 1));
        if i + 1 == parts.len() {
            return None;
        }
        assert(rest[1] == parts@[i + 1]@);
        if same_text(parts[i].as_str(), "MAC") {
            return Some(i + 1);
        }
        i = i + 1;
    }
    None
}

/// The index in `name`, the name of a device's link to one of its virtual functions: `virtfn`, and
/// the digits of the index.
pub open spec fn vf_index(name: Seq<char>) -> Option<usize> {
    if text::begins_with(name, "virtfn"@) {
        number::decimal_usize(name.filter(|c: char| number::is_decimal_digit(c)))
    } else {
        None
    }
}

/// The index in `name`.
pub fn parse_vf_index(name: &str) -> (r: Option<usize>)
    ensures
        r == vf_index(name@),
{
    if starts_with(name, "virtfn") {
        read_digits(name)
    } else {
        None
    }
}

/// Whether each number of `s` is greater than the one before it.
pub open spec fn ascending(s: Seq<usize>) -> bool {
    forall|i: int, j: int| 0 <= i < j < s.len() ==> s[i] < s[j]
}

/// Whether `x` is the index in one of `names`.
pub open spec fn is_index_in(names: Seq<Seq<char>>, x: usize) -> bool {
    exists|i: int| 0 <= i < names.len() && vf_index(#[trigger] names[i]) == Some(x)
}

/// Whether `s` holds the indices in `names`, each once, in ascending order.
pub open spec fn are_indices_of(s: Seq<usize>, names: Seq<Seq<char>>) -> bool {
    &&& ascending(s)
    &&& forall|x: usize| s.contains(x) <==> is_index_in(names, x)
}

/// The indices in `names`, each once, in ascending order.
pub open spec fn indices_of(names: Seq<Seq<char>>) -> Seq<usize> {
    choose|s: Seq<usize>| are_indices_of(s, names)
}

proof fn lemma_one_more_index(s: Seq<usize>, x: usize) -> (t: Seq<usize>)
    requires
        ascending(s),
    ensures
        ascending(t),
        forall|y: usize| t.contains(y) <==> s.contains(y) || y == x,
    decreases s.len(),
{
    if s.len() == 0 {
        let t = seq![x];
        assert(t[0] == x);
        t
    } else if s.last() < x {
        let t = s.push(x);
        assert(t[s.len() as int] == x);
        assert forall|y: usize| t.contains(y) <==> s.contains(y) || y == x by {
            if s.contains(y) {
                let k = choose|k: int| 0 <= k < s.len() && s[k] == y;
                assert(t[k] == y);
            }
        }
        t
    } else if s.last() == x {
        assert(s.contains(s.last()));
        s
    } else {
        let front = s.drop_last();
        let u = lemma_one_more_index(front, x);
        let t = u.push(s.last());
        assert forall|y: usize| u.contains(y) implies y < s.last() by {
            if front.contains(y) {
                let k = choose|k: int| 0 <= k < front.len() && front[k] == y;
                assert(s[k] < s[s.len() - 1]);
            }
        }
        assert forall|i: int, j: int| 0 <= i < j < t.len() implies t[i] < t[j] by {
            if j == u.len() {
                assert(u.contains(u[i]));
            }
        }
        assert forall|y: usize| t.contains(y) <==> s.contains(y) || y == x by {
            if t.contains(y) {
                let k = choose|k: int| 0 <= k < t.len() && t[k] == y;
                if k < u.len() {
                    assert(u.contains(y));
                    if front.contains(y) {
                        let m = choose|m: int| 0 <= m < front.len() && front[m] == y;
                        assert(s[m] == y);
                    }
                } else {
                    assert(s[s.len() - 1] == y);
                }
            }
            if s.contains(y) {
                let k = choose|k: int| 0 <= k < s.len() && s[k] == y;
                if k < front.len() {
                    assert(front[k] == y);
                    assert(u.contains(y));
                    let m = choose|m: int| 0 <= m < u.len() && u[m] == y;
                    assert(t[m] == y);
                } else {
                    assert(t[u.len() as int] == y);
                }
            }
            if y == x {
                assert(u.contains(x));
                let m = choose|m: int| 0 <= m < u.len() && u[m] == x;
                assert(t[m] == x);
            }
        }
        t
    }
}

proof fn lemma_indices_exist(names: Seq<Seq<char>>) -> (s: Seq<usize>)
    ensures
        are_indices_of(s, names),
    decreases names.len(),
{
    if names.len() == 0 {
        Seq::empty()
    } else {
        let front = names.drop_last();
        let before = lemma_indices_exist(front);
        let last = names[names.len() - 1];
        let s = match vf_index(last) {
            Some(x) => lemma_one_more_index(before, x),
            None => before,
        };
        assert forall|y: usize| s.contains(y) <==> is_index_in(names, y) by {
            assert(before.contains(y) <==> is_index_in(front, y));
            if is_index_in(front, y) {
                let k = choose|k: int|
                    0 <= k < front.len() && vf_index(#[trigger] front[k]) == Some(y);
                assert(names[k] == front[k]);
            }
            if is_index_in(names, y) {
                let k = choose|k: int|
                    0 <= k < names.len() && vf_index(#[trigger] names[k]) == Some(y);
                if k < front.len() {
                    assert(front[k] == names[k]);
                }
            }
        }
        s
    }
}

/// Whatever the names, their indices can be listed: each once, in ascending order.
pub proof fn law_indices_are_listed(names: Seq<Seq<char>>)
    ensures
        are_indices_of(indices_of(names), names),
{
    let s = lemma_indices_exist(names);
    assert(are_indices_of(s, names));
}

/// There is only one way to list given indices in ascending order.
pub proof fn law_indices_are_unique(s: Seq<usize>, names: Seq<Seq<char>>)
    requires
        are_indices_of(s, names),
    ensures
        s == indices_of(names),
{
    let t = indices_of(names);
    assert(are_indices_of(t, names));
    lemma_ascending_unique(s, t);
}

proof fn lemma_ascending_unique(s: Seq<usize>, t: Seq<usize>)
    requires
        ascending(s),
        ascending(t),
        forall|x: usize| s.contains(x) <==> t.contains(x),
    ensures
        s == t,
    decreases s.len(),
{
    if s.len() == 0 {
        if t.len() > 0 {
            assert(t.contains(t[0]));
        }
        assert(s =~= t);
    } else {
        assert(s.contains(s.last()));
        assert(t.len() > 0);
        assert(t.contains(t.last()));
        assert(s.contains(t.last()));
        assert(t.contains(s.last()));
        let i = choose|i: int| 0 <= i < s.len() && s[i] == t.last();
        let j = choose|j: int| 0 <= j < t.len() && t[j] == s.last();
        assert(s.last() == t.last());
        let a = s.drop_last();
        let b = t.drop_last();
        assert forall|x: usize| a.contains(x) <==> b.contains(x) by {
            if a.contains(x) {
                let k = choose|k: int| 0 <= k < a.len() && a[k] == x;
                assert(s[k] == x && x != s.last());
                assert(s.contains(x));
                let m = choose|m: int| 0 <= m < t.len() && t[m] == x;
                assert(b[m] == x);
            }
            if b.contains(x) {
                let k = choose|k: int| 0 <= k < b.len() && b[k] == x;
                assert(t[k] == x && x != t.last());
                assert(t.contains(x));
                let m = choose|m: int| 0 <= m < s.len() && s[m] == x;
                assert(a[m] == x);
            }
        }
        lemma_ascending_unique(a, b);
        assert(s =~= a.push(s.last()));
        assert(t =~= b.push(t.last()));
    }
}

/// Puts `x` in its place among `found`, unless it is there already.
fn insert_index(found: &mut Vec<usize>, x: usize)
    requires
        ascending(old(found)@),
    ensures
        ascending(final(found)@),
        forall|y: usize| final(found)@.contains(y) <==> old(found)@.contains(y) || y == x,
{
    let ghost before = found@;
    let mut p: usize = found.len();
    while p > 0 && found[p - 1] > x
        invariant
            p <= found@.len(),
            found@ == before,
            forall|k: int| p <= k < found@.len() ==> found@[k] > x,
        decreases p,
    {
        p = p - 1;
    }
    if p > 0 && found[p - 1] == x {
        assert(before.contains(before[p - 1]));
        return;
    }
    found.insert(p, x);
    proof {
        let after = found@;
        assert forall|y: usize| after.contains(y) <==> before.contains(y) || y == x by {
            if after.contains(y) {
                let k = choose|k: int| 0 <= k < after.len() && after[k] == y;
                if k < p {
                    assert(before[k] == y);
                } else if k > p {
                    assert(before[k - 1] == y);
                }
            }
            if before.contains(y) {
                let k = choose|k: int| 0 <= k < before.len() && before[k] == y;
                if k < p {
                    assert(after[k] == y);
                } else {
                    assert(after[k + 1] == y);
                }
            }
            assert(after[p as int] == x);
        }
        assert forall|i: int, j: int| 0 <= i < j < after.len() implies after[i] < after[j] by {
            if j < p {
                assert(before[i] < before[j]);
            } else if i > p {
                assert(before[i - 1] < before[j - 1]);
            } else if i < p && p > 0 {
                if i < p - 1 {
                    assert(before[i] < before[p - 1]);
                }
            }
        }
    }
}

/// The indices in `names`, each once, in ascending order.
pub fn vf_indices(names: &Vec<String>) -> (r: Vec<usize>)
    ensures
        are_indices_of(r@, text::texts(names@)),
        r@ == indices_of(text::texts(names@)),
{
    let ghost all = text::texts(names@);
    let mut found: Vec<usize> = Vec::new();
    let mut i: usize = 0;
    while i < names.len()
        invariant
            i <= names@.len(),
            all == text::texts(names@),
            are_indices_of(found@, all.take(i as int)),
        decreases names@.len() - i,
    {
        let ghost before = found@;
        let ghost done = all.take(i as int);
        let ghost next = all.take(i + 1);
        let index = parse_vf_index(names[i].as_str());
        if let Some(x) = index {
            insert_index(&mut found, x);
        }
        proof {
            assert(next[i as int] == names@[i as int]@);
            assert forall|y: usize| found@.contains(y) <==> is_index_in(next, y) by {
                assert(before.contains(y) <==> is_index_in(done, y));
                if is_index_in(done, y) {
                    let k = choose|k: int|
                        0 <= k < done.len() && vf_index(#[trigger] done[k]) == Some(y);
                    assert(next[k] == done[k]);
                }
                if is_index_in(next, y) {
                    let k = choose|k: int|
                        0 <= k < next.len() && vf_index(#[trigger] next[k]) == Some(y);
                    if k < i {
                        assert(done[k] == next[k]);
                    }
                }
            }
        }
        i = i + 1;
    }
    assert(all.take(i as int) =~= all);
    proof {
        law_indices_are_unique(found@, all);
    }
    found
}

} // verus!
