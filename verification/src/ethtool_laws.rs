//! What the options of ethtool are named, and what on and off are.
use vstd::prelude::*;

use crate::ethtool;
use crate::model;
use crate::model::Known;
use crate::property_laws;

verus! {

/// The names of the families of ethtool options, each with the switch of its family.
pub open spec fn family_names() -> Seq<(Seq<char>, Seq<char>)> {
    seq![
        ("k"@, "-K"@),
        ("offload"@, "-K"@),
        ("features"@, "-K"@),
        ("c"@, "-C"@),
        ("coalesce"@, "-C"@),
        ("a"@, "-A"@),
        ("pause"@, "-A"@),
        ("g"@, "-G"@),
        ("ring"@, "-G"@),
        ("l"@, "-L"@),
        ("channels"@, "-L"@),
        ("channel"@, "-L"@),
        ("x"@, "-X"@),
        ("rxfh"@, "-X"@),
        ("rss"@, "-X"@),
        ("n"@, "-N"@),
        ("ntuple"@, "-N"@),
        ("configntuple"@, "-N"@),
    ]
}

/// Whether `s` is made of small letters alone.
pub open spec fn is_small(s: Seq<char>) -> bool {
    forall|i: int| 0 <= i < s.len() ==> 'a' <= #[trigger] s[i] <= 'z'
}

proof fn lemma_small_stays(s: Seq<char>)
    requires
        is_small(s),
    ensures
        ethtool::normalized(s) == s,
    decreases s.len(),
{
    if s.len() > 0 {
        let less = s.drop_last();
        assert forall|i: int| 0 <= i < less.len() implies 'a' <= #[trigger] less[i] <= 'z' by {
            assert(less[i] == s[i]);
        }
        lemma_small_stays(less);
        assert('a' <= s.last() <= 'z');
        assert(ethtool::lowercase(s.last()) =~= seq![s.last()]);
        assert(less + seq![s.last()] =~= s);
    }
}

proof fn lemma_names_are_small(i: int)
    requires
        0 <= i < family_names().len(),
    ensures
        is_small(family_names()[i].0),
{
    reveal_strlit("k");
    reveal_strlit("offload");
    reveal_strlit("features");
    reveal_strlit("c");
    reveal_strlit("coalesce");
    reveal_strlit("a");
    reveal_strlit("pause");
    reveal_strlit("g");
    reveal_strlit("ring");
    reveal_strlit("l");
    reveal_strlit("channels");
    reveal_strlit("channel");
    reveal_strlit("x");
    reveal_strlit("rxfh");
    reveal_strlit("rss");
    reveal_strlit("n");
    reveal_strlit("ntuple");
    reveal_strlit("configntuple");
}

proof fn lemma_switches(i: int)
    requires
        0 <= i < family_names().len(),
    ensures
        ethtool::family_switch(family_names()[i].0) == Some(family_names()[i].1),
{
    reveal_strlit("k");
    reveal_strlit("offload");
    reveal_strlit("features");
    reveal_strlit("c");
    reveal_strlit("coalesce");
    reveal_strlit("a");
    reveal_strlit("pause");
    reveal_strlit("g");
    reveal_strlit("ring");
    reveal_strlit("l");
    reveal_strlit("channels");
    reveal_strlit("channel");
    reveal_strlit("x");
    reveal_strlit("rxfh");
    reveal_strlit("rss");
    reveal_strlit("n");
    reveal_strlit("ntuple");
    reveal_strlit("configntuple");
    assert("k"@.len() == 1 && "c"@.len() == 1 && "a"@.len() == 1 && "g"@.len() == 1);
    assert("l"@.len() == 1 && "x"@.len() == 1 && "n"@.len() == 1);
    assert("k"@[0] == 'k' && "c"@[0] == 'c' && "a"@[0] == 'a' && "g"@[0] == 'g');
    assert("l"@[0] == 'l' && "x"@[0] == 'x' && "n"@[0] == 'n');
    assert("rss"@.len() == 3 && "pause"@.len() == 5 && "ntuple"@.len() == 6);
    assert("ring"@.len() == 4 && "rxfh"@.len() == 4 && "ring"@[1] == 'i' && "rxfh"@[1] == 'x');
    assert("offload"@.len() == 7 && "channel"@.len() == 7);
    assert("offload"@[0] == 'o' && "channel"@[0] == 'c');
    assert("features"@.len() == 8 && "coalesce"@.len() == 8 && "channels"@.len() == 8);
    assert("features"@[1] == 'e' && "coalesce"@[1] == 'o' && "channels"@[1] == 'h');
    assert("configntuple"@.len() == 12);
}

/// Each name of a family is known.
pub proof fn law_family_names(i: int)
    requires
        0 <= i < family_names().len(),
    ensures
        ethtool::family_of(family_names()[i].0) == Some(family_names()[i].1),
{
    lemma_names_are_small(i);
    lemma_small_stays(family_names()[i].0);
    lemma_switches(i);
}

/// No other text of small letters is the name of a family.
pub proof fn law_no_other_family(s: Seq<char>)
    requires
        is_small(s),
        forall|i: int| 0 <= i < family_names().len() ==> s != (#[trigger] family_names()[i]).0,
    ensures
        ethtool::family_of(s) is None,
{
    lemma_small_stays(s);
    let names = family_names();
    assert(s != names[0].0 && s != names[1].0 && s != names[2].0 && s != names[3].0);
    assert(s != names[4].0 && s != names[5].0 && s != names[6].0 && s != names[7].0);
    assert(s != names[8].0 && s != names[9].0 && s != names[10].0 && s != names[11].0);
    assert(s != names[12].0 && s != names[13].0 && s != names[14].0 && s != names[15].0);
    assert(s != names[16].0 && s != names[17].0);
}

/// Dashes in the name of a family do not matter, wherever they are.
pub proof fn law_dashes_do_not_matter(before: Seq<char>, after: Seq<char>)
    ensures
        ethtool::normalized(before + seq!['-'] + after) == ethtool::normalized(before + after),
        ethtool::family_of(before + seq!['-'] + after) == ethtool::family_of(before + after),
    decreases after.len(),
{
    let dashed = before + seq!['-'] + after;
    let plain = before + after;
    if after.len() == 0 {
        assert(plain =~= before);
        assert(dashed.drop_last() =~= before);
        assert(dashed.last() == '-');
    } else {
        law_dashes_do_not_matter(before, after.drop_last());
        assert(dashed.drop_last() =~= before + seq!['-'] + after.drop_last());
        assert(plain.drop_last() =~= before + after.drop_last());
        assert(dashed.last() == after.last() && plain.last() == after.last());
    }
}

/// Capital letters are made small, and no other character of ASCII changes.
pub proof fn law_small_letters(n: nat, c: char)
    requires
        n < 26,
    ensures
        ethtool::ascii_lower(('A' as nat + n) as char) == ('a' as nat + n) as char,
        !('A' <= c <= 'Z') ==> ethtool::ascii_lower(c) == c,
{
}

/// What is meant by on and off: the spellings of each, whatever the case of their letters. All else
/// stays as it is.
pub proof fn law_spellings(value: Seq<char>)
    ensures
        ({
            let low = ethtool::ascii_lowered(value);
            let means_on = low == "on"@ || low == "yes"@ || low == "true"@ || low == "1"@;
            let means_off = low == "off"@ || low == "no"@ || low == "false"@ || low == "0"@;
            &&& means_on ==> ethtool::on_off(value) == "on"@
            &&& means_off ==> ethtool::on_off(value) == "off"@
            &&& !means_on && !means_off ==> ethtool::on_off(value) == value
        }),
{
    reveal_strlit("on");
    reveal_strlit("off");
    reveal_strlit("yes");
    reveal_strlit("no");
    reveal_strlit("true");
    reveal_strlit("false");
    reveal_strlit("1");
    reveal_strlit("0");
    assert("on"@.len() == 2 && "no"@.len() == 2 && "on"@[0] == 'o' && "no"@[0] == 'n');
    assert("off"@.len() == 3 && "yes"@.len() == 3 && "off"@[0] == 'o' && "yes"@[0] == 'y');
    assert("true"@.len() == 4 && "false"@.len() == 5);
    assert("1"@.len() == 1 && "0"@.len() == 1 && "1"@[0] == '1' && "0"@[0] == '0');
}

/// A family that is not known is warned of, and nothing is set.
pub proof fn law_unknown_family(a: Known, dev: Seq<char>, family: Seq<char>, raw: Seq<char>)
    requires
        ethtool::family_of(family) is None,
    ensures
        model::ethtool_actions(a, dev, family, raw) == seq![
            property_laws::warns("unknown ethtool family '"@ + family + "' for "@ + dev),
        ],
{
}

} // verus!
