//! Properties: the `I40E_*` settings by name, and the lines of a `.link` file that give them.
use vstd::prelude::*;
use vstd::string::*;

use crate::text;
use crate::text::{chars_of, find_char, same_text, starts_with, text_between, trim};

verus! {

/// Whether `a` comes before `b` in the order of their characters' code points.
pub open spec fn comes_before(a: Seq<char>, b: Seq<char>) -> bool
    decreases a.len(),
{
    if b.len() == 0 {
        false
    } else if a.len() == 0 {
        true
    } else if a[0] != b[0] {
        a[0] < b[0]
    } else {
        comes_before(a.skip(1), b.skip(1))
    }
}

/// Of two different texts one comes before the other, and not the other way round; none comes
/// before itself.
pub proof fn lemma_order_is_total(a: Seq<char>, b: Seq<char>)
    ensures
        a == b ==> !comes_before(a, b),
        a != b ==> comes_before(a, b) != comes_before(b, a),
    decreases a.len(),
{
    if a.len() > 0 && b.len() > 0 && a[0] == b[0] {
        lemma_order_is_total(a.skip(1), b.skip(1));
        if a.skip(1) == b.skip(1) {
            assert(a =~= seq![a[0]] + a.skip(1));
            assert(b =~= seq![b[0]] + b.skip(1));
        }
    } else if a.len() == 0 && b.len() == 0 {
        assert(a =~= b);
    }
}

/// What comes before a text comes before all that the text comes before.
pub proof fn lemma_order_is_transitive(a: Seq<char>, b: Seq<char>, c: Seq<char>)
    requires
        comes_before(a, b),
        comes_before(b, c),
    ensures
        comes_before(a, c),
    decreases a.len(),
{
    if a.len() > 0 && b.len() > 0 && c.len() > 0 && a[0] == b[0] && b[0] == c[0] {
        lemma_order_is_transitive(a.skip(1), b.skip(1), c.skip(1));
    }
}

/// Whether `a` comes before `b`.
pub fn is_before(a: &str, b: &str) -> (r: bool)
    ensures
        r == comes_before(a@, b@),
{
    let x = chars_of(a);
    let y = chars_of(b);
    let mut i: usize = 0;
    assert(x@.skip(0) =~= x@ && y@.skip(0) =~= y@);
    while i < x.len() && i < y.len()
        invariant
            i <= x@.len(),
            i <= y@.len(),
            comes_before(x@, y@) == comes_before(x@.skip(i as int), y@.skip(i as int)),
            x@ == a@,
            y@ == b@,
        decreases x@.len() - i,
    {
        assert(x@.skip(i as int).skip(1) =~= x@.skip(i + 1));
        assert(y@.skip(i as int).skip(1) =~= y@.skip(i + 1));
        if x[i] != y[i] {
            return x[i] < y[i];
        }
        i = i + 1;
    }
    i < y.len()
}

/// The texts of names and their values.
pub open spec fn pair_texts(pairs: Seq<(String, String)>) -> Seq<(Seq<char>, Seq<char>)> {
    pairs.map_values(|p: (String, String)| (p.0@, p.1@))
}

/// Whether the names of `pairs` are in order, each before the next.
pub open spec fn in_order(pairs: Seq<(Seq<char>, Seq<char>)>) -> bool {
    forall|i: int, j: int|
        0 <= i < j < pairs.len() ==> comes_before((#[trigger] pairs[i]).0, (#[trigger] pairs[j]).0)
}

/// Whether `pairs` are the names and values of `m`, in the order of the names.
pub open spec fn is_listing(
    pairs: Seq<(Seq<char>, Seq<char>)>,
    m: Map<Seq<char>, Seq<char>>,
) -> bool {
    &&& in_order(pairs)
    &&& forall|i: int|
        0 <= i < pairs.len() ==> m.contains_key((#[trigger] pairs[i]).0) && m[pairs[i].0]
            == pairs[i].1
    &&& forall|k: Seq<char>|
        m.contains_key(k) ==> exists|i: int| 0 <= i < pairs.len() && (#[trigger] pairs[i]).0 == k
}

/// The names and values of `m`, in the order of the names.
pub open spec fn listing(m: Map<Seq<char>, Seq<char>>) -> Seq<(Seq<char>, Seq<char>)> {
    choose|pairs: Seq<(Seq<char>, Seq<char>)>| is_listing(pairs, m)
}

/// There is only one way to list properties in the order of their names.
pub proof fn law_listing_is_unique(
    pairs: Seq<(Seq<char>, Seq<char>)>,
    m: Map<Seq<char>, Seq<char>>,
)
    requires
        is_listing(pairs, m),
    ensures
        pairs == listing(m),
{
    assert(is_listing(listing(m), m));
    lemma_listing_unique(pairs, listing(m), m);
}

proof fn lemma_listing_unique(
    p: Seq<(Seq<char>, Seq<char>)>,
    q: Seq<(Seq<char>, Seq<char>)>,
    m: Map<Seq<char>, Seq<char>>,
)
    requires
        is_listing(p, m),
        is_listing(q, m),
    ensures
        p == q,
    decreases p.len(),
{
    if p.len() == 0 {
        if q.len() > 0 {
            assert(m.contains_key(q[0].0));
        }
        assert(p =~= q);
    } else {
        let k = p.last().0;
        assert(m.contains_key(p[p.len() - 1].0));
        let j = choose|j: int| 0 <= j < q.len() && (#[trigger] q[j]).0 == k;
        assert(m.contains_key(q[q.len() - 1].0));
        let i = choose|i: int| 0 <= i < p.len() && (#[trigger] p[i]).0 == q.last().0;
        if q.last().0 != k {
            assert(comes_before(q[j].0, q[q.len() - 1].0));
            assert(comes_before(p[i].0, p[p.len() - 1].0));
            lemma_order_is_total(k, q.last().0);
        }
        let a = p.drop_last();
        let b = q.drop_last();
        let rest = m.remove(k);
        lemma_listing_shrinks(p, m);
        lemma_listing_shrinks(q, m);
        lemma_listing_unique(a, b, rest);
        assert(p =~= a.push(p.last()));
        assert(q =~= b.push(q.last()));
    }
}

proof fn lemma_listing_shrinks(p: Seq<(Seq<char>, Seq<char>)>, m: Map<Seq<char>, Seq<char>>)
    requires
        is_listing(p, m),
        p.len() > 0,
    ensures
        is_listing(p.drop_last(), m.remove(p.last().0)),
{
    let a = p.drop_last();
    let k = p.last().0;
    let rest = m.remove(k);
    assert forall|i: int| 0 <= i < a.len() implies rest.contains_key((#[trigger] a[i]).0)
        && rest[a[i].0] == a[i].1 by {
        assert(a[i] == p[i]);
        assert(comes_before(p[i].0, p[p.len() - 1].0));
        lemma_order_is_total(p[i].0, k);
    }
    assert forall|i: int, j: int| 0 <= i < j < a.len() implies comes_before(
        (#[trigger] a[i]).0,
        (#[trigger] a[j]).0,
    ) by {
        assert(a[i] == p[i] && a[j] == p[j]);
    }
    assert forall|x: Seq<char>| rest.contains_key(x) implies exists|i: int|
        0 <= i < a.len() && (#[trigger] a[i]).0 == x by {
        let i = choose|i: int| 0 <= i < p.len() && (#[trigger] p[i]).0 == x;
        assert(a[i] == p[i]);
    }
}

/// The value of `key` in `m`, where it has one.
pub open spec fn lookup(m: Map<Seq<char>, Seq<char>>, key: Seq<char>) -> Option<Seq<char>> {
    if m.contains_key(key) {
        Some(m[key])
    } else {
        None
    }
}

/// Properties by name.
#[derive(Debug)]
pub struct PropMap {
    entries: Vec<(String, String)>,
}

impl View for PropMap {
    type V = Map<Seq<char>, Seq<char>>;

    closed spec fn view(&self) -> Map<Seq<char>, Seq<char>> {
        map_of(pair_texts(self.entries@))
    }
}

/// The value of each name in `pairs`.
spec fn map_of(pairs: Seq<(Seq<char>, Seq<char>)>) -> Map<Seq<char>, Seq<char>> {
    Map::new(
        |k: Seq<char>| exists|i: int| 0 <= i < pairs.len() && (#[trigger] pairs[i]).0 == k,
        |k: Seq<char>|
            pairs[choose|i: int| 0 <= i < pairs.len() && (#[trigger] pairs[i]).0 == k].1,
    )
}

proof fn lemma_map_of(pairs: Seq<(Seq<char>, Seq<char>)>)
    requires
        in_order(pairs),
    ensures
        is_listing(pairs, map_of(pairs)),
{
    let m = map_of(pairs);
    assert forall|i: int| 0 <= i < pairs.len() implies m.contains_key((#[trigger] pairs[i]).0)
        && m[pairs[i].0] == pairs[i].1 by {
        let k = pairs[i].0;
        let j = choose|j: int| 0 <= j < pairs.len() && (#[trigger] pairs[j]).0 == k;
        lemma_order_is_total(k, k);
        if i < j {
            assert(comes_before(pairs[i].0, pairs[j].0));
        } else if j < i {
            assert(comes_before(pairs[j].0, pairs[i].0));
        }
    }
}

/// Only one map has a given listing.
proof fn lemma_listed_map_unique(
    pairs: Seq<(Seq<char>, Seq<char>)>,
    m: Map<Seq<char>, Seq<char>>,
    n: Map<Seq<char>, Seq<char>>,
)
    requires
        is_listing(pairs, m),
        is_listing(pairs, n),
    ensures
        m == n,
{
    assert forall|k: Seq<char>| m.contains_key(k) == n.contains_key(k) by {
        if m.contains_key(k) {
            let i = choose|i: int| 0 <= i < pairs.len() && (#[trigger] pairs[i]).0 == k;
        }
        if n.contains_key(k) {
            let i = choose|i: int| 0 <= i < pairs.len() && (#[trigger] pairs[i]).0 == k;
        }
    }
    assert forall|k: Seq<char>| m.contains_key(k) implies m[k] == n[k] by {
        let i = choose|i: int| 0 <= i < pairs.len() && (#[trigger] pairs[i]).0 == k;
    }
    assert(m =~= n);
}

impl PropMap {
    #[verifier::type_invariant]
    spec fn well_formed(self) -> bool {
        in_order(pair_texts(self.entries@))
    }

    /// No properties.
    pub fn new() -> (r: PropMap)
        ensures
            r@ == Map::<Seq<char>, Seq<char>>::empty(),
    {
        let r = PropMap { entries: Vec::new() };
        assert(r@ =~= Map::<Seq<char>, Seq<char>>::empty());
        r
    }

    /// The names and values, in the order of the names.
    pub fn entries(&self) -> (r: &Vec<(String, String)>)
        ensures
            is_listing(pair_texts(r@), self@),
            pair_texts(r@) == listing(self@),
    {
        proof {
            use_type_invariant(self);
            lemma_map_of(pair_texts(self.entries@));
            law_listing_is_unique(pair_texts(self.entries@), self@);
        }
        &self.entries
    }

    /// The value of `key`.
    pub fn get(&self, key: &str) -> (r: Option<&str>)
        ensures
            match r {
                Some(value) => lookup(self@, key@) == Some(value@),
                None => lookup(self@, key@) is None,
            },
    {
        proof {
            use_type_invariant(self);
            lemma_map_of(pair_texts(self.entries@));
        }
        let ghost pairs = pair_texts(self.entries@);
        let mut i: usize = 0;
        while i < self.entries.len()
            invariant
                i <= self.entries@.len(),
                pairs == pair_texts(self.entries@),
                is_listing(pairs, self@),
                forall|k: int| 0 <= k < i ==> (#[trigger] pairs[k]).0 != key@,
            decreases self.entries@.len() - i,
        {
            assert(pairs[i as int].0 == self.entries@[i as int].0@);
            assert(pairs[i as int].1 == self.entries@[i as int].1@);
            if same_text(self.entries[i].0.as_str(), key) {
                return Some(self.entries[i].1.as_str());
            }
            i = i + 1;
        }
        None
    }

    /// Whether `key` has a value.
    pub fn contains_key(&self, key: &str) -> (r: bool)
        ensures
            r == self@.contains_key(key@),
    {
        self.get(key).is_some()
    }

    /// Gives `key` the value `value`.
    pub fn insert(&mut self, key: String, value: String)
        ensures
            final(self)@ == old(self)@.insert(key@, value@),
    {
        proof {
            use_type_invariant(&*self);
            lemma_map_of(pair_texts(self.entries@));
        }
        let ghost m = self@;
        let mut entries: Vec<(String, String)> = Vec::new();
        std::mem::swap(&mut entries, &mut self.entries);
        let ghost before = pair_texts(entries@);
        let mut p: usize = 0;
        while p < entries.len() && is_before(entries[p].0.as_str(), key.as_str())
            invariant
                p <= entries@.len(),
                before == pair_texts(entries@),
                in_order(before),
                forall|k: int| 0 <= k < p ==> comes_before((#[trigger] before[k]).0, key@),
            decreases entries@.len() - p,
        {
            assert(before[p as int].0 == entries@[p as int].0@);
            p = p + 1;
        }
        let present: bool = p < entries.len() && same_text(entries[p].0.as_str(), key.as_str());
        proof {
            if p < entries@.len() {
                assert(before[p as int].0 == entries@[p as int].0@);
                lemma_order_is_total(before[p as int].0, key@);
            }
        }
        let ghost new_pair = (key@, value@);
        if present {
            entries.remove(p);
        }
        entries.insert(p, (key, value));
        proof {
            let after = pair_texts(entries@);
            if present {
                assert(after =~= before.update(p as int, new_pair));
            } else {
                assert(after =~= before.insert(p as int, new_pair));
            }
            lemma_placed(before, m, p as int, new_pair, after, present);
            lemma_map_of(after);
            lemma_listed_map_unique(after, map_of(after), m.insert(new_pair.0, new_pair.1));
        }
        self.entries = entries;
    }
}

/// A listing stays one when a pair is put in its place, in place of the pair with the same name
/// where there is one.
proof fn lemma_placed(
    before: Seq<(Seq<char>, Seq<char>)>,
    m: Map<Seq<char>, Seq<char>>,
    p: int,
    pair: (Seq<char>, Seq<char>),
    after: Seq<(Seq<char>, Seq<char>)>,
    present: bool,
)
    requires
        is_listing(before, m),
        0 <= p <= before.len(),
        forall|k: int| 0 <= k < p ==> comes_before((#[trigger] before[k]).0, pair.0),
        present ==> p < before.len() && before[p].0 == pair.0 && after == before.update(p, pair),
        !present ==> after == before.insert(p, pair) && (p < before.len() ==> comes_before(
            pair.0,
            before[p].0,
        )),
    ensures
        is_listing(after, m.insert(pair.0, pair.1)),
{
    let n = m.insert(pair.0, pair.1);
    let shift: int = if present {
        0
    } else {
        1
    };
    assert forall|k: int| p < k < after.len() implies #[trigger] after[k] == before[k - shift]
        && comes_before(pair.0, after[k].0) by {
        if present {
            assert(comes_before(before[p].0, before[k].0));
        } else {
            if k - 1 > p {
                assert(comes_before(before[p].0, before[k - 1].0));
                lemma_order_is_transitive(pair.0, before[p].0, before[k - 1].0);
            }
        }
    }
    assert forall|k: int| 0 <= k < p implies #[trigger] after[k] == before[k] by {}
    assert(after[p] == pair);
    assert forall|i: int, j: int| 0 <= i < j < after.len() implies comes_before(
        (#[trigger] after[i]).0,
        (#[trigger] after[j]).0,
    ) by {
        if j < p {
            assert(comes_before(before[i].0, before[j].0));
        } else if i > p {
            assert(comes_before(before[i - shift].0, before[j - shift].0));
        } else if i < p && j > p {
            lemma_order_is_transitive(before[i].0, pair.0, after[j].0);
        }
    }
    assert forall|i: int| 0 <= i < after.len() implies n.contains_key((#[trigger] after[i]).0)
        && n[after[i].0] == after[i].1 by {
        lemma_order_is_total(after[i].0, pair.0);
        lemma_order_is_total(pair.0, pair.0);
        if i < p {
            assert(comes_before(before[i].0, pair.0));
        } else if i > p {
            assert(after[i] == before[i - shift]);
        }
    }
    assert forall|k: Seq<char>| n.contains_key(k) implies exists|i: int|
        0 <= i < after.len() && (#[trigger] after[i]).0 == k by {
        if k == pair.0 {
            assert(after[p].0 == k);
        } else {
            let i = choose|i: int| 0 <= i < before.len() && (#[trigger] before[i]).0 == k;
            if i < p {
                assert(after[i] == before[i]);
            } else {
                assert(after[i + shift] == before[i]);
            }
        }
    }
}

/// What stands between the quotes of `value`, where it is wrapped in double quotes; else `value`.
pub open spec fn unquoted(value: Seq<char>) -> Seq<char> {
    if value.len() >= 2 && value[0] == '"' && value.last() == '"' {
        value.subrange(1, value.len() - 1)
    } else {
        value
    }
}

/// Removes the double quotes that wrap `value`, where it is wrapped in them.
pub fn strip_wrapping_quotes(value: &str) -> (r: &str)
    ensures
        r@ == unquoted(value@),
{
    let n: usize = value.unicode_len();
    if n >= 2 && value.get_char(0) == '"' && value.get_char(n - 1) == '"' {
        value.substring_char(1, n - 1)
    } else {
        value
    }
}

/// The property that `line` gives: its name begins with `I40E_` and ends at the first equals sign;
/// its value is what follows, without whitespace at either end and without the quotes that wrap it.
pub open spec fn property_in(line: Seq<char>) -> Option<(Seq<char>, Seq<char>)> {
    let k = text::first_index(line, '=') as int;
    if k < line.len() && text::begins_with(line.take(k), "I40E_"@) {
        Some((line.take(k), unquoted(text::trimmed(line.skip(k + 1)))))
    } else {
        None
    }
}

/// The property that `line` gives.
pub fn parse_property(line: &str) -> (r: Option<(String, String)>)
    ensures
        match r {
            Some((key, value)) => property_in(line@) == Some((key@, value@)),
            None => property_in(line@) is None,
        },
{
    let v = chars_of(line);
    let k: usize = find_char(&v, 0, '=');
    assert(v@.skip(0) =~= v@);
    if k == v.len() {
        return None;
    }
    let key = text_between(&v, 0, k);
    assert(key@ =~= line@.take(k as int));
    if !starts_with(key.as_str(), "I40E_") {
        return None;
    }
    let after = text_between(&v, k + 1, v.len());
    assert(after@ =~= line@.skip(k + 1));
    let bare = trim(after.as_str());
    Some((key, strip_wrapping_quotes(bare.as_str()).to_owned()))
}

/// The properties `m` with those that `lines` give and `m` lacks; of two lines that give the same
/// property the first counts.
pub open spec fn with_lines(
    m: Map<Seq<char>, Seq<char>>,
    lines: Seq<Seq<char>>,
) -> Map<Seq<char>, Seq<char>>
    decreases lines.len(),
{
    if lines.len() == 0 {
        m
    } else {
        let before = with_lines(m, lines.drop_last());
        match property_in(lines.last()) {
            Some((key, value)) => if before.contains_key(key) {
                before
            } else {
                before.insert(key, value)
            },
            None => before,
        }
    }
}

/// Lines never change a property that is there already, whatever they give.
pub proof fn law_lines_never_override(
    m: Map<Seq<char>, Seq<char>>,
    lines: Seq<Seq<char>>,
    key: Seq<char>,
)
    requires
        m.contains_key(key),
    ensures
        lookup(with_lines(m, lines), key) == lookup(m, key),
    decreases lines.len(),
{
    if lines.len() > 0 {
        law_lines_never_override(m, lines.drop_last(), key);
    }
}

/// A property that was not there has the value that the first line to give it has; where no line
/// gives it, it is still not there.
pub proof fn law_first_line_counts(
    m: Map<Seq<char>, Seq<char>>,
    lines: Seq<Seq<char>>,
    key: Seq<char>,
)
    requires
        !m.contains_key(key),
    ensures
        match lookup(with_lines(m, lines), key) {
            Some(value) => exists|i: int|
                0 <= i < lines.len() && property_in(#[trigger] lines[i]) == Some((key, value)) && (
                forall|k: int|
                    0 <= k < i ==> !(property_in(#[trigger] lines[k]) matches Some((name, _))
                        && name == key)),
            None => forall|k: int|
                0 <= k < lines.len() ==> !(property_in(#[trigger] lines[k]) matches Some((name, _))
                    && name == key),
        },
    decreases lines.len(),
{
    if lines.len() > 0 {
        let front = lines.drop_last();
        law_first_line_counts(m, front, key);
        match lookup(with_lines(m, front), key) {
            Some(value) => {
                let i = choose|i: int|
                    0 <= i < front.len() && property_in(#[trigger] front[i]) == Some((key, value))
                        && (forall|k: int|
                        0 <= k < i ==> !(property_in(#[trigger] front[k]) matches Some((name, _))
                            && name == key));
                assert(lines[i] == front[i]);
                assert forall|k: int| 0 <= k < i implies !(property_in(
                    #[trigger] lines[k],
                ) matches Some((name, _)) && name == key) by {
                    assert(lines[k] == front[k]);
                }
            },
            None => {
                assert forall|k: int| 0 <= k < front.len() implies !(property_in(
                    #[trigger] lines[k],
                ) matches Some((name, _)) && name == key) by {
                    assert(lines[k] == front[k]);
                }
                let last = lines[lines.len() - 1];
                if property_in(last) matches Some((name, _)) && name == key {
                    assert(lookup(with_lines(m, lines), key) == Some((property_in(last)->0).1));
                }
            },
        }
    }
}

} // verus!
