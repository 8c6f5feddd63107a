//! What each property does, by the names and commands that the documentation gives.
use vstd::prelude::*;

use crate::command::{ActionView, CommandView, Level};
use crate::device_laws;
use crate::ethtool;
use crate::mac;
use crate::model;
use crate::model::{Known, VfView};
use crate::number;
use crate::text;

verus! {

// ---- What is said and done ----

/// What is done where `program` is run with `args`.
pub open spec fn runs(program: Seq<char>, args: Seq<Seq<char>>) -> ActionView {
    ActionView::Apply(CommandView { program, args })
}

/// A log entry of the level info.
pub open spec fn notes(message: Seq<char>) -> ActionView {
    ActionView::Log { level: Level::Info, message }
}

/// A log entry of the level warning.
pub open spec fn warns(message: Seq<char>) -> ActionView {
    ActionView::Log { level: Level::Warning, message }
}

/// What is there of `rows`, in order.
pub open spec fn present(rows: Seq<Option<ActionView>>) -> Seq<ActionView>
    decreases rows.len(),
{
    if rows.len() == 0 {
        Seq::empty()
    } else {
        match rows.last() {
            Some(action) => present(rows.drop_last()).push(action),
            None => present(rows.drop_last()),
        }
    }
}

/// One row, or none.
pub open spec fn one(row: Option<ActionView>) -> Seq<ActionView> {
    match row {
        Some(action) => seq![action],
        None => Seq::empty(),
    }
}

proof fn lemma_present_push(rows: Seq<Option<ActionView>>, row: Option<ActionView>)
    ensures
        present(rows.push(row)) == present(rows) + one(row),
{
    assert(rows.push(row).drop_last() =~= rows);
    match row {
        Some(action) => {
            assert(present(rows).push(action) =~= present(rows) + seq![action]);
        },
        None => {
            assert(present(rows) + Seq::empty() =~= present(rows));
        },
    }
}

proof fn lemma_present_has(rows: Seq<Option<ActionView>>, i: int)
    requires
        0 <= i < rows.len(),
        rows[i] is Some,
    ensures
        present(rows).contains(rows[i]->0),
    decreases rows.len(),
{
    let front = rows.drop_last();
    if i < front.len() {
        lemma_present_has(front, i);
        let k = choose|k: int| 0 <= k < present(front).len() && present(front)[k] == rows[i]->0;
        assert(present(rows)[k] == rows[i]->0);
    } else {
        assert(present(rows)[present(rows).len() - 1] == rows[i]->0);
    }
}

/// The value of the property `key`.
pub open spec fn value_of(a: Known, key: Seq<char>) -> Option<Seq<char>> {
    if a.props.contains_key(key) {
        Some(a.props[key])
    } else {
        None
    }
}

/// The value that counts for virtual function `idx`: that of its own property, named with its
/// index, and else that of the one for every virtual function.
pub open spec fn value_for(a: Known, idx: nat, name: Seq<char>) -> Option<Seq<char>> {
    if a.props.contains_key("I40E_VF"@ + number::decimal(idx) + "_"@ + name) {
        Some(a.props["I40E_VF"@ + number::decimal(idx) + "_"@ + name])
    } else if a.props.contains_key("I40E_VF_"@ + name) {
        Some(a.props["I40E_VF_"@ + name])
    } else {
        None
    }
}

proof fn lemma_values(a: Known, idx: nat)
    ensures
        forall|name: Seq<char>| #[trigger]
            model::vf_value(a, idx, name) == value_for(a, idx, name),
{
}

/// The command that sets `option` to `value` on virtual function `idx`, through the physical
/// function.
pub open spec fn handle_command(
    a: Known,
    idx: nat,
    option: Seq<char>,
    value: Seq<char>,
) -> ActionView {
    runs(
        "ip"@,
        seq!["link"@, "set"@, "dev"@, a.ifname, "vf"@, number::decimal(idx), option, value],
    )
}

/// The command that sets `option` to `value` on the network device `dev`.
pub open spec fn link_command(dev: Seq<char>, option: Seq<char>, value: Seq<char>) -> ActionView {
    runs("ip"@, seq!["link"@, "set"@, "dev"@, dev, option, value])
}

/// The command for an option of virtual function `idx`, where it has a value.
pub open spec fn handle_row(
    a: Known,
    idx: nat,
    option: Seq<char>,
    value: Option<Seq<char>>,
) -> Option<ActionView> {
    match value {
        Some(x) => Some(handle_command(a, idx, option, x)),
        None => None,
    }
}

/// The command for an option of the network device `dev`, where it has a value.
pub open spec fn link_row(
    dev: Seq<char>,
    option: Seq<char>,
    value: Option<Seq<char>>,
) -> Option<ActionView> {
    match value {
        Some(x) => Some(link_command(dev, option, x)),
        None => None,
    }
}

/// The command that sets the options in `value` with `switch` on `dev`, where there are any.
pub open spec fn ethtool_row(
    dev: Seq<char>,
    switch: Seq<char>,
    value: Option<Seq<char>>,
) -> Option<ActionView> {
    match value {
        Some(x) => if model::arguments_in(x).len() > 0 {
            Some(runs("ethtool"@, seq![switch, dev] + model::arguments_in(x)))
        } else {
            None
        },
        None => None,
    }
}

proof fn lemma_handle_row(a: Known, idx: nat, option: Seq<char>, value: Option<Seq<char>>)
    requires
        !a.settings.dry_run,
    ensures
        model::ip_vf_if_set(a, idx, option, value) == one(handle_row(a, idx, option, value)),
        value is Some ==> model::ip_vf_actions(a, idx, seq![option, value->0]) == one(
            handle_row(a, idx, option, value),
        ),
{
    match value {
        Some(x) => {
            assert(seq!["link"@, "set"@, "dev"@, a.ifname, "vf"@, number::decimal(idx)] + seq![
                option,
                x,
            ] =~= seq![
                "link"@,
                "set"@,
                "dev"@,
                a.ifname,
                "vf"@,
                number::decimal(idx),
                option,
                x,
            ]);
        },
        None => {},
    }
}

proof fn lemma_link_row(a: Known, dev: Seq<char>, option: Seq<char>, value: Option<Seq<char>>)
    requires
        !a.settings.dry_run,
    ensures
        model::ip_dev_if_set(a, dev, option, value) == one(link_row(dev, option, value)),
{
    match value {
        Some(x) => {
            assert(seq!["link"@, "set"@, "dev"@, dev] + seq![option, x] =~= seq![
                "link"@,
                "set"@,
                "dev"@,
                dev,
                option,
                x,
            ]);
        },
        None => {},
    }
}

proof fn lemma_ethtool_row(
    a: Known,
    dev: Seq<char>,
    family: Seq<char>,
    switch: Seq<char>,
    value: Option<Seq<char>>,
)
    requires
        !a.settings.dry_run,
        ethtool::family_of(family) == Some(switch),
    ensures
        model::ethtool_if_set(a, dev, family, value) == one(ethtool_row(dev, switch, value)),
{
}

/// The families that properties speak of, and the switch of each.
pub proof fn law_family_switches()
    ensures
        ethtool::family_of("K"@) == Some("-K"@),
        ethtool::family_of("C"@) == Some("-C"@),
        ethtool::family_of("A"@) == Some("-A"@),
        ethtool::family_of("G"@) == Some("-G"@),
        ethtool::family_of("L"@) == Some("-L"@),
        ethtool::family_of("rss"@) == Some("-X"@),
        ethtool::family_of("rxfh"@) == Some("-X"@),
        ethtool::family_of("N"@) == Some("-N"@),
{
    reveal_strlit("K");
    reveal_strlit("C");
    reveal_strlit("A");
    reveal_strlit("G");
    reveal_strlit("L");
    reveal_strlit("rss");
    reveal_strlit("rxfh");
    reveal_strlit("N");
    reveal_strlit("k");
    reveal_strlit("offload");
    reveal_strlit("features");
    reveal_strlit("c");
    reveal_strlit("coalesce");
    reveal_strlit("a");
    reveal_strlit("pause");
    reveal_strlit("g");
    reveal_strlit("ring");
    reveal_strlit("l");
    reveal_strlit("channels");
    reveal_strlit("channel");
    reveal_strlit("x");
    reveal_strlit("n");
    reveal_strlit("ntuple");
    reveal_strlit("configntuple");
    reveal_with_fuel(ethtool::normalized, 5);
    assert(ethtool::normalized("K"@) =~= "k"@);
    assert(ethtool::normalized("C"@) =~= "c"@);
    assert(ethtool::normalized("A"@) =~= "a"@);
    assert(ethtool::normalized("G"@) =~= "g"@);
    assert(ethtool::normalized("L"@) =~= "l"@);
    assert(ethtool::normalized("N"@) =~= "n"@);
    assert(ethtool::normalized("rss"@) =~= "rss"@);
    assert(ethtool::normalized("rxfh"@) =~= "rxfh"@);
    assert("k"@[0] == 'k' && "c"@[0] == 'c' && "a"@[0] == 'a' && "g"@[0] == 'g' && "l"@[0] == 'l'
        && "x"@[0] == 'x' && "n"@[0] == 'n');
    assert("rxfh"@[1] == 'x' && "ring"@[1] == 'i');
}

// ---- The physical function ----

/// The private flags that a property gives come in pairs of a name and a value: each pair is set,
/// in order, and a name without a value is left out.
pub proof fn law_priv_flags_come_in_pairs(a: Known, words: Seq<Seq<char>>)
    ensures
        model::priv_flag_pairs(a, words).len() == words.len() / 2,
        !a.settings.dry_run ==> forall|i: int|
            0 <= i < words.len() / 2 ==> #[trigger] model::priv_flag_pairs(a, words)[i] == runs(
                "ethtool"@,
                seq!["--set-priv-flags"@, a.ifname, words[2 * i], words[2 * i + 1]],
            ),
    decreases words.len(),
{
    if words.len() >= 2 {
        let rest = words.skip(2);
        law_priv_flags_come_in_pairs(a, rest);
        if !a.settings.dry_run {
            assert forall|i: int| 0 <= i < words.len() / 2 implies #[trigger] model::priv_flag_pairs(
                a,
                words,
            )[i] == runs(
                "ethtool"@,
                seq!["--set-priv-flags"@, a.ifname, words[2 * i], words[2 * i + 1]],
            ) by {
                if i > 0 {
                    assert(model::priv_flag_pairs(a, words)[i] == model::priv_flag_pairs(a, rest)[i
                        - 1]);
                    assert(rest[2 * (i - 1)] == words[2 * i]);
                    assert(rest[2 * (i - 1) + 1] == words[2 * i + 1]);
                }
            }
        }
    }
}

/// The rows of the physical function for ethtool.
pub open spec fn pf_ethtool_rows(a: Known) -> Seq<Option<ActionView>> {
    seq![
        ethtool_row(a.ifname, "-K"@, value_of(a, "I40E_PF_OFFLOAD"@)),
        ethtool_row(a.ifname, "-C"@, value_of(a, "I40E_PF_COALESCE"@)),
        ethtool_row(a.ifname, "-A"@, value_of(a, "I40E_PF_PAUSE"@)),
        ethtool_row(a.ifname, "-G"@, value_of(a, "I40E_PF_RINGS"@)),
        ethtool_row(a.ifname, "-L"@, value_of(a, "I40E_PF_CHANNELS"@)),
        ethtool_row(a.ifname, "-X"@, value_of(a, "I40E_PF_RSS"@)),
        ethtool_row(a.ifname, "-X"@, value_of(a, "I40E_PF_RXFH"@)),
        ethtool_row(a.ifname, "-N"@, value_of(a, "I40E_PF_NTUPLE"@)),
    ]
}

/// The rows of the physical function for ip.
pub open spec fn pf_link_rows(a: Known) -> Seq<Option<ActionView>> {
    seq![
        link_row(a.ifname, "txqueuelen"@, value_of(a, "I40E_PF_TXQUEUELEN"@)),
        link_row(a.ifname, "alias"@, value_of(a, "I40E_PF_ALIAS"@)),
        link_row(a.ifname, "arp"@, value_of(a, "I40E_PF_ARP"@)),
        link_row(a.ifname, "multicast"@, value_of(a, "I40E_PF_MULTICAST"@)),
        link_row(a.ifname, "allmulticast"@, value_of(a, "I40E_PF_ALLMULTICAST"@)),
        link_row(a.ifname, "promisc"@, value_of(a, "I40E_PF_PROMISC"@)),
        link_row(a.ifname, "address"@, value_of(a, "I40E_PF_MAC"@)),
        link_row(a.ifname, "mtu"@, value_of(a, "I40E_PF_MTU"@)),
    ]
}

proof fn lemma_eight(
    a: Option<ActionView>,
    b: Option<ActionView>,
    c: Option<ActionView>,
    d: Option<ActionView>,
    e: Option<ActionView>,
    f: Option<ActionView>,
    g: Option<ActionView>,
    h: Option<ActionView>,
)
    ensures
        present(seq![a, b, c, d, e, f, g]) == one(a) + one(b) + one(c) + one(d) + one(e) + one(f)
            + one(g),
        present(seq![a, b, c, d, e, f, g, h]) == one(a) + one(b) + one(c) + one(d) + one(e) + one(f)
            + one(g) + one(h),
{
    assert(Seq::<ActionView>::empty() + one(a) =~= one(a));
    lemma_present_push(Seq::empty(), a);
    assert(Seq::empty().push(a) =~= seq![a]);
    lemma_present_push(seq![a], b);
    assert(seq![a].push(b) =~= seq![a, b]);
    lemma_present_push(seq![a, b], c);
    assert(seq![a, b].push(c) =~= seq![a, b, c]);
    lemma_present_push(seq![a, b, c], d);
    assert(seq![a, b, c].push(d) =~= seq![a, b, c, d]);
    lemma_present_push(seq![a, b, c, d], e);
    assert(seq![a, b, c, d].push(e) =~= seq![a, b, c, d, e]);
    lemma_present_push(seq![a, b, c, d, e], f);
    assert(seq![a, b, c, d, e].push(f) =~= seq![a, b, c, d, e, f]);
    lemma_present_push(seq![a, b, c, d, e, f], g);
    assert(seq![a, b, c, d, e, f].push(g) =~= seq![a, b, c, d, e, f, g]);
    lemma_present_push(seq![a, b, c, d, e, f, g], h);
    assert(seq![a, b, c, d, e, f, g].push(h) =~= seq![a, b, c, d, e, f, g, h]);
}

/// What the properties of the physical function do with ethtool: its private flags are set, and
/// then each of its properties is, by one command of its own, in this order.
pub proof fn law_pf_ethtool_properties(a: Known)
    requires
        !a.settings.dry_run,
    ensures
        model::pf_ethtool_actions(a) == (match value_of(a, "I40E_PRIVFLAGS"@) {
            Some(flags) => model::priv_flag_pairs(a, text::words(flags)),
            None => Seq::empty(),
        }) + present(pf_ethtool_rows(a)),
{
    law_family_switches();
    let rows = pf_ethtool_rows(a);
    lemma_ethtool_row(a, a.ifname, "K"@, "-K"@, value_of(a, "I40E_PF_OFFLOAD"@));
    lemma_ethtool_row(a, a.ifname, "C"@, "-C"@, value_of(a, "I40E_PF_COALESCE"@));
    lemma_ethtool_row(a, a.ifname, "A"@, "-A"@, value_of(a, "I40E_PF_PAUSE"@));
    lemma_ethtool_row(a, a.ifname, "G"@, "-G"@, value_of(a, "I40E_PF_RINGS"@));
    lemma_ethtool_row(a, a.ifname, "L"@, "-L"@, value_of(a, "I40E_PF_CHANNELS"@));
    lemma_ethtool_row(a, a.ifname, "rss"@, "-X"@, value_of(a, "I40E_PF_RSS"@));
    lemma_ethtool_row(a, a.ifname, "rxfh"@, "-X"@, value_of(a, "I40E_PF_RXFH"@));
    lemma_ethtool_row(a, a.ifname, "N"@, "-N"@, value_of(a, "I40E_PF_NTUPLE"@));
    lemma_eight(rows[0], rows[1], rows[2], rows[3], rows[4], rows[5], rows[6], rows[7]);
    lemma_nine_in_order(
        match value_of(a, "I40E_PRIVFLAGS"@) {
            Some(flags) => model::priv_flag_pairs(a, text::words(flags)),
            None => Seq::empty(),
        },
        one(rows[0]),
        one(rows[1]),
        one(rows[2]),
        one(rows[3]),
        one(rows[4]),
        one(rows[5]),
        one(rows[6]),
        one(rows[7]),
    );
}

proof fn lemma_nine_in_order(
    p: Seq<ActionView>,
    a: Seq<ActionView>,
    b: Seq<ActionView>,
    c: Seq<ActionView>,
    d: Seq<ActionView>,
    e: Seq<ActionView>,
    f: Seq<ActionView>,
    g: Seq<ActionView>,
    h: Seq<ActionView>,
)
    ensures
        p + a + b + c + d + e + f + g + h == p + (a + b + c + d + e + f + g + h),
{
}

/// What the properties of the physical function do with ip: each of them is set, by one command of
/// its own, in this order.
pub proof fn law_pf_link_properties(a: Known)
    requires
        !a.settings.dry_run,
    ensures
        model::pf_ip_actions(a) == present(pf_link_rows(a)),
{
    let rows = pf_link_rows(a);
    lemma_link_row(a, a.ifname, "txqueuelen"@, value_of(a, "I40E_PF_TXQUEUELEN"@));
    lemma_link_row(a, a.ifname, "alias"@, value_of(a, "I40E_PF_ALIAS"@));
    lemma_link_row(a, a.ifname, "arp"@, value_of(a, "I40E_PF_ARP"@));
    lemma_link_row(a, a.ifname, "multicast"@, value_of(a, "I40E_PF_MULTICAST"@));
    lemma_link_row(a, a.ifname, "allmulticast"@, value_of(a, "I40E_PF_ALLMULTICAST"@));
    lemma_link_row(a, a.ifname, "promisc"@, value_of(a, "I40E_PF_PROMISC"@));
    lemma_link_row(a, a.ifname, "address"@, value_of(a, "I40E_PF_MAC"@));
    lemma_link_row(a, a.ifname, "mtu"@, value_of(a, "I40E_PF_MTU"@));
    lemma_eight(rows[0], rows[1], rows[2], rows[3], rows[4], rows[5], rows[6], rows[7]);
}

// ---- Virtual functions ----

/// The properties of a virtual function that go through the physical function, and the option that
/// each sets.
pub open spec fn handle_options() -> Seq<(Seq<char>, Seq<char>)> {
    seq![
        ("vlan"@, "VLAN"@),
        ("rate"@, "RATE"@),
        ("spoofchk"@, "SPOOFCHK"@),
        ("state"@, "STATE"@),
        ("trust"@, "TRUST"@),
        ("max_tx_rate"@, "MAX_TX_RATE"@),
        ("min_tx_rate"@, "MIN_TX_RATE"@),
    ]
}

/// Whether the receive-side scaling of virtual function `idx` is set, under either name.
pub open spec fn has_rss(a: Known, idx: nat) -> bool {
    value_for(a, idx, "RSS"@) is Some || value_for(a, idx, "RXFH"@) is Some
}

/// The rows of virtual function `idx` that go through the physical function.
pub open spec fn handle_rows(a: Known, idx: nat) -> Seq<Option<ActionView>> {
    seq![
        handle_row(a, idx, "vlan"@, value_for(a, idx, "VLAN"@)),
        handle_row(a, idx, "rate"@, value_for(a, idx, "RATE"@)),
        handle_row(a, idx, "spoofchk"@, value_for(a, idx, "SPOOFCHK"@)),
        handle_row(a, idx, "state"@, value_for(a, idx, "STATE"@)),
        handle_row(
            a,
            idx,
            "query_rss"@,
            match value_for(a, idx, "QUERY_RSS"@) {
                Some(x) => Some(ethtool::on_off(x)),
                None => None,
            },
        ),
        handle_row(a, idx, "trust"@, value_for(a, idx, "TRUST"@)),
        handle_row(a, idx, "max_tx_rate"@, value_for(a, idx, "MAX_TX_RATE"@)),
        handle_row(a, idx, "min_tx_rate"@, value_for(a, idx, "MIN_TX_RATE"@)),
        handle_row(
            a,
            idx,
            "query_rss"@,
            if value_for(a, idx, "QUERY_RSS"@) is None && has_rss(a, idx) {
                Some("on"@)
            } else {
                None
            },
        ),
    ]
}

/// What the properties of a virtual function do through the physical function: each of them is set,
/// by one command of its own, in this order; and scaling may be queried, as its property says or
/// where scaling is set.
pub proof fn law_vf_handle_properties(a: Known, idx: nat)
    requires
        !a.settings.dry_run,
    ensures
        model::vf_handle_actions(a, idx) == present(handle_rows(a, idx)),
{
    let r = handle_rows(a, idx);
    lemma_values(a, idx);
    lemma_handle_row(a, idx, "vlan"@, value_for(a, idx, "VLAN"@));
    lemma_handle_row(a, idx, "rate"@, value_for(a, idx, "RATE"@));
    lemma_handle_row(a, idx, "spoofchk"@, value_for(a, idx, "SPOOFCHK"@));
    lemma_handle_row(a, idx, "state"@, value_for(a, idx, "STATE"@));
    match value_for(a, idx, "QUERY_RSS"@) {
        Some(x) => {
            lemma_handle_row(a, idx, "query_rss"@, Some(ethtool::on_off(x)));
        },
        None => {},
    }
    lemma_handle_row(a, idx, "trust"@, value_for(a, idx, "TRUST"@));
    lemma_handle_row(a, idx, "max_tx_rate"@, value_for(a, idx, "MAX_TX_RATE"@));
    lemma_handle_row(a, idx, "min_tx_rate"@, value_for(a, idx, "MIN_TX_RATE"@));
    lemma_handle_row(a, idx, "query_rss"@, Some("on"@));
    lemma_eight(r[0], r[1], r[2], r[3], r[4], r[5], r[6], r[7]);
    let front = seq![r[0], r[1], r[2], r[3], r[4], r[5], r[6], r[7]];
    lemma_present_push(front, r[8]);
    assert(front.push(r[8]) =~= r);
}

/// Every property of a virtual function that goes through the physical function takes effect: its
/// own, and where that is not there, the one for every virtual function.
pub proof fn law_vf_handle_takes_effect(a: Known, idx: nat, i: int)
    requires
        !a.settings.dry_run,
        0 <= i < handle_options().len(),
    ensures
        ({
            let (option, name) = handle_options()[i];
            let own = "I40E_VF"@ + number::decimal(idx) + "_"@ + name;
            let common = "I40E_VF_"@ + name;
            &&& a.props.contains_key(own) ==> model::vf_handle_actions(a, idx).contains(
                handle_command(a, idx, option, a.props[own]),
            )
            &&& !a.props.contains_key(own) && a.props.contains_key(common)
                ==> model::vf_handle_actions(a, idx).contains(
                handle_command(a, idx, option, a.props[common]),
            )
        }),
{
    let r = handle_rows(a, idx);
    let k = if i < 4 {
        i
    } else {
        i + 1
    };
    law_vf_handle_properties(a, idx);
    if value_for(a, idx, handle_options()[i].1) is Some {
        assert(r[k] is Some);
        lemma_present_has(r, k);
    }
}

/// The rows of virtual function `idx` for ethtool on its network device `dev`.
pub open spec fn vf_ethtool_rows(a: Known, idx: nat, dev: Seq<char>) -> Seq<Option<ActionView>> {
    seq![
        ethtool_row(dev, "-K"@, value_for(a, idx, "OFFLOAD"@)),
        ethtool_row(dev, "-C"@, value_for(a, idx, "COALESCE"@)),
        ethtool_row(dev, "-A"@, value_for(a, idx, "PAUSE"@)),
        ethtool_row(dev, "-G"@, value_for(a, idx, "RINGS"@)),
        ethtool_row(dev, "-L"@, value_for(a, idx, "CHANNELS"@)),
        ethtool_row(
            dev,
            "-X"@,
            if value_for(a, idx, "RSS"@) is Some {
                value_for(a, idx, "RSS"@)
            } else {
                value_for(a, idx, "RXFH"@)
            },
        ),
        ethtool_row(dev, "-N"@, value_for(a, idx, "NTUPLE"@)),
    ]
}

/// What the properties of a virtual function do with ethtool on its network device: each of them is
/// set, by one command of its own, in this order.
pub proof fn law_vf_ethtool_properties(a: Known, idx: nat, dev: Seq<char>)
    requires
        !a.settings.dry_run,
    ensures
        model::vf_ethtool_actions(a, idx, Some(dev)) == present(vf_ethtool_rows(a, idx, dev)),
{
    let r = vf_ethtool_rows(a, idx, dev);
    law_family_switches();
    lemma_values(a, idx);
    lemma_ethtool_row(a, dev, "K"@, "-K"@, value_for(a, idx, "OFFLOAD"@));
    lemma_ethtool_row(a, dev, "C"@, "-C"@, value_for(a, idx, "COALESCE"@));
    lemma_ethtool_row(a, dev, "A"@, "-A"@, value_for(a, idx, "PAUSE"@));
    lemma_ethtool_row(a, dev, "G"@, "-G"@, value_for(a, idx, "RINGS"@));
    lemma_ethtool_row(a, dev, "L"@, "-L"@, value_for(a, idx, "CHANNELS"@));
    lemma_ethtool_row(a, dev, "rss"@, "-X"@, model::vf_rss(a, idx));
    lemma_ethtool_row(a, dev, "N"@, "-N"@, value_for(a, idx, "NTUPLE"@));
    lemma_eight(r[0], r[1], r[2], r[3], r[4], r[5], r[6], None);
}

/// The rows of virtual function `idx` for ip on its network device `dev`.
pub open spec fn vf_link_rows(a: Known, idx: nat, dev: Seq<char>) -> Seq<Option<ActionView>> {
    seq![
        link_row(dev, "txqueuelen"@, value_for(a, idx, "TXQUEUELEN"@)),
        link_row(dev, "mtu"@, value_for(a, idx, "MTU"@)),
        link_row(dev, "alias"@, value_for(a, idx, "ALIAS"@)),
        link_row(dev, "arp"@, value_for(a, idx, "ARP"@)),
        link_row(dev, "multicast"@, value_for(a, idx, "MULTICAST"@)),
        link_row(dev, "allmulticast"@, value_for(a, idx, "ALLMULTICAST"@)),
        link_row(dev, "promisc"@, value_for(a, idx, "PROMISC"@)),
    ]
}

/// What the properties of a virtual function do with ip on its network device: each of them is set,
/// by one command of its own, in this order.
pub proof fn law_vf_link_properties(a: Known, idx: nat, dev: Seq<char>)
    requires
        !a.settings.dry_run,
    ensures
        model::vf_ip_actions(a, idx, Some(dev)) == present(vf_link_rows(a, idx, dev)),
{
    let r = vf_link_rows(a, idx, dev);
    lemma_values(a, idx);
    lemma_link_row(a, dev, "txqueuelen"@, value_for(a, idx, "TXQUEUELEN"@));
    lemma_link_row(a, dev, "mtu"@, value_for(a, idx, "MTU"@));
    lemma_link_row(a, dev, "alias"@, value_for(a, idx, "ALIAS"@));
    lemma_link_row(a, dev, "arp"@, value_for(a, idx, "ARP"@));
    lemma_link_row(a, dev, "multicast"@, value_for(a, idx, "MULTICAST"@));
    lemma_link_row(a, dev, "allmulticast"@, value_for(a, idx, "ALLMULTICAST"@));
    lemma_link_row(a, dev, "promisc"@, value_for(a, idx, "PROMISC"@));
    lemma_eight(r[0], r[1], r[2], r[3], r[4], r[5], r[6], None);
}

/// Options that do not begin with the name of a family are taken as they are, word by word.
pub proof fn law_options_are_words(raw: Seq<char>)
    requires
        text::words(raw).len() == 0 || ethtool::family_of(text::words(raw)[0]) is None,
    ensures
        model::arguments_in(raw) == text::words(raw),
{
}

/// A virtual function that asks for what only the host path has, with anything but an empty value,
/// gets a note in the log and nothing else; the others get nothing.
pub proof fn law_vf_asym_note(a: Known, idx: nat)
    ensures
        model::vf_asym_note(a, idx) == present(
            seq![
                match value_for(a, idx, "ASYM_QUIRK"@) {
                    Some(x) => if x.len() > 0 {
                        Some(
                            notes(
                                "VF "@ + number::decimal(idx)
                                    + ": ASYM_QUIRK requested (host-path quirk); no VF-side action"@,
                            ),
                        )
                    } else {
                        None
                    },
                    None => None,
                },
            ],
        ),
{
    lemma_values(a, idx);
    lemma_present_push(Seq::empty(), None);
    lemma_present_push(Seq::empty(), Some(
        notes(
            "VF "@ + number::decimal(idx)
                + ": ASYM_QUIRK requested (host-path quirk); no VF-side action"@,
        ),
    ));
}

/// What every virtual function gets: it is not checked for spoofing, it is trusted, and it has the
/// address that its property gives, where that is one of an adapter: made locally administered and
/// unicast, and noted in the log.
pub proof fn law_vf_baseline(a: Known, idx: nat)
    requires
        !a.settings.dry_run,
    ensures
        ({
            let common = seq![
                handle_command(a, idx, "spoofchk"@, "off"@),
                handle_command(a, idx, "trust"@, "on"@),
            ];
            match value_for(a, idx, "MAC"@) {
                Some(x) => if mac::is_usable_mac(x) {
                    let o = mac::mac_octets(x)->0;
                    let address = mac::mac_text(
                        seq![((o[0] | 0x02) & 0xfe) as u8, o[1], o[2], o[3], o[4], o[5]],
                    );
                    model::baseline_actions(a, idx) == common + seq![
                        handle_command(a, idx, "mac"@, address),
                        notes("VF "@ + number::decimal(idx) + ": explicit admin MAC "@ + address),
                    ]
                } else {
                    model::baseline_actions(a, idx) == common
                },
                None => model::baseline_actions(a, idx) == common,
            }
        }),
{
    lemma_values(a, idx);
    lemma_handle_row(a, idx, "spoofchk"@, Some("off"@));
    lemma_handle_row(a, idx, "trust"@, Some("on"@));
    let common = seq![
        handle_command(a, idx, "spoofchk"@, "off"@),
        handle_command(a, idx, "trust"@, "on"@),
    ];
    assert(model::ip_vf_actions(a, idx, seq!["spoofchk"@, "off"@]) + model::ip_vf_actions(
        a,
        idx,
        seq!["trust"@, "on"@],
    ) =~= common);
    assert(common + Seq::empty() =~= common);
    match value_for(a, idx, "MAC"@) {
        Some(x) => {
            if mac::is_usable_mac(x) {
                let o = mac::mac_octets(x)->0;
                let p = seq![((o[0] | 0x02) & 0xfe) as u8, o[1], o[2], o[3], o[4], o[5]];
                assert(o.update(0, mac::local_unicast(o[0])) =~= p);
                let address = mac::mac_text(p);
                let note = notes(
                    "VF "@ + number::decimal(idx) + ": explicit admin MAC "@ + address,
                );
                lemma_handle_row(a, idx, "mac"@, Some(address));
                assert(seq![handle_command(a, idx, "mac"@, address)].push(note) =~= seq![
                    handle_command(a, idx, "mac"@, address),
                    note,
                ]);
            }
        },
        None => {},
    }
}

/// What ip does for a virtual function up to its derived address: its properties through the
/// physical function, those on its network device where it has one, the note, and what every
/// virtual function gets.
pub proof fn law_vf_order_for_ip(a: Known, vf: VfView)
    requires
        !a.settings.dry_run,
    ensures
        model::before_mac_actions(a, vf) == present(handle_rows(a, vf.idx as nat)) + (match vf.dev {
            Some(dev) => present(vf_link_rows(a, vf.idx as nat, dev)),
            None => Seq::empty(),
        }) + model::vf_asym_note(a, vf.idx as nat) + model::baseline_actions(a, vf.idx as nat),
{
    law_vf_handle_properties(a, vf.idx as nat);
    match vf.dev {
        Some(dev) => {
            law_vf_link_properties(a, vf.idx as nat, dev);
        },
        None => {},
    }
}

/// The private flags that the physical function gets where it has them: the LLDP agent of the
/// firmware is turned off or on as the setting says, and full promiscuous support for virtual
/// functions is turned on where the setting says so. The log warns of a flag that it lacks.
pub proof fn law_default_flags(a: Known, flags: Seq<char>)
    requires
        !a.settings.dry_run,
    ensures
        model::default_flag_actions(a, flags) == present(
            seq![
                Some(
                    if text::has_text(flags, "disable-fw-lldp"@) {
                        runs(
                            "ethtool"@,
                            seq![
                                "--set-priv-flags"@,
                                a.ifname,
                                "disable-fw-lldp"@,
                                if a.settings.disable_fw_lldp {
                                    "on"@
                                } else {
                                    "off"@
                                },
                            ],
                        )
                    } else {
                        warns(
                            "priv-flag disable-fw-lldp not supported on "@ + a.ifname
                                + "; skipping"@,
                        )
                    },
                ),
                if a.settings.enable_vf_true_promisc {
                    Some(
                        if text::has_text(flags, "vf-true-promisc-support"@) {
                            runs(
                                "ethtool"@,
                                seq![
                                    "--set-priv-flags"@,
                                    a.ifname,
                                    "vf-true-promisc-support"@,
                                    "on"@,
                                ],
                            )
                        } else {
                            warns(
                                "priv-flag vf-true-promisc-support not supported on "@ + a.ifname
                                    + "; skipping"@,
                            )
                        },
                    )
                } else {
                    None
                },
            ],
        ),
{
    let first = model::default_flag_actions(a, flags)[0];
    let second = if a.settings.enable_vf_true_promisc {
        Some(model::default_flag_actions(a, flags)[1])
    } else {
        None
    };
    lemma_present_push(Seq::empty(), Some(first));
    lemma_present_push(seq![Some(first)], second);
    assert(Seq::<Option<ActionView>>::empty().push(Some(first)) =~= seq![Some(first)]);
    assert(seq![Some(first)].push(second) =~= seq![Some(first), second]);
    assert(Seq::<ActionView>::empty() + seq![first] =~= seq![first]);
}

/// Nothing is done against the asymmetry of the host path where that is switched off.
pub proof fn law_no_asym_quirk(a: Known)
    requires
        !a.settings.asym_quirk,
    ensures
        model::asym_actions(a).len() == 0,
{
}

// ---- Properties for every virtual function ----

/// What `a` is with the property `key` set to `value`.
pub open spec fn with_property(a: Known, key: Seq<char>, value: Seq<char>) -> Known {
    Known { props: a.props.insert(key, value), ..a }
}

proof fn lemma_common_counts_as_own(a: Known, idx: nat, name: Seq<char>, value: Seq<char>)
    requires
        !a.props.contains_key("I40E_VF"@ + number::decimal(idx) + "_"@ + name),
    ensures
        forall|other: Seq<char>| #[trigger]
            value_for(with_property(a, "I40E_VF_"@ + name, value), idx, other) == value_for(
                with_property(a, "I40E_VF"@ + number::decimal(idx) + "_"@ + name, value),
                idx,
                other,
            ),
{
    let common = with_property(a, "I40E_VF_"@ + name, value);
    let own = with_property(a, "I40E_VF"@ + number::decimal(idx) + "_"@ + name, value);
    assert forall|other: Seq<char>| #[trigger] value_for(common, idx, other) == value_for(
        own,
        idx,
        other,
    ) by {
        device_laws::law_property_names_differ(idx, idx, other, name);
        device_laws::law_property_names_differ(idx, idx, name, other);
        device_laws::law_property_names_differ(idx, idx, other, other);
        if "I40E_VF_"@ + other == "I40E_VF_"@ + name {
            assert(other =~= ("I40E_VF_"@ + other).skip("I40E_VF_"@.len() as int));
            assert(name =~= ("I40E_VF_"@ + name).skip("I40E_VF_"@.len() as int));
        }
    }
}

/// A property for every virtual function does for each of them what its own would do, whatever the
/// property is, where it has none of its own.
pub proof fn law_common_property_counts_as_own(
    a: Known,
    idx: nat,
    dev: Option<Seq<char>>,
    name: Seq<char>,
    value: Seq<char>,
)
    requires
        !a.settings.dry_run,
        !a.props.contains_key("I40E_VF"@ + number::decimal(idx) + "_"@ + name),
    ensures
        ({
            let common = with_property(a, "I40E_VF_"@ + name, value);
            let own = with_property(a, "I40E_VF"@ + number::decimal(idx) + "_"@ + name, value);
            &&& model::vf_ethtool_actions(common, idx, dev) == model::vf_ethtool_actions(
                own,
                idx,
                dev,
            )
            &&& model::vf_handle_actions(common, idx) == model::vf_handle_actions(own, idx)
            &&& model::vf_ip_actions(common, idx, dev) == model::vf_ip_actions(own, idx, dev)
            &&& model::vf_asym_note(common, idx) == model::vf_asym_note(own, idx)
            &&& model::baseline_actions(common, idx) == model::baseline_actions(own, idx)
            &&& model::has_vlan_quirk(common, idx) == model::has_vlan_quirk(own, idx)
        }),
{
    let common = with_property(a, "I40E_VF_"@ + name, value);
    let own = with_property(a, "I40E_VF"@ + number::decimal(idx) + "_"@ + name, value);
    lemma_common_counts_as_own(a, idx, name, value);
    lemma_values(common, idx);
    lemma_values(own, idx);
    law_vf_handle_properties(common, idx);
    law_vf_handle_properties(own, idx);
    law_vf_baseline(common, idx);
    law_vf_baseline(own, idx);
    lemma_same_rows(common, own, idx);
    match dev {
        Some(d) => {
            law_vf_ethtool_properties(common, idx, d);
            law_vf_ethtool_properties(own, idx, d);
            law_vf_link_properties(common, idx, d);
            law_vf_link_properties(own, idx, d);
            lemma_same_device_rows(common, own, idx, d);
        },
        None => {},
    }
}

proof fn lemma_same_rows(a: Known, b: Known, idx: nat)
    requires
        a.ifname == b.ifname,
        forall|other: Seq<char>| #[trigger] value_for(a, idx, other) == value_for(b, idx, other),
    ensures
        handle_rows(a, idx) == handle_rows(b, idx),
{
}

proof fn lemma_same_device_rows(a: Known, b: Known, idx: nat, dev: Seq<char>)
    requires
        forall|other: Seq<char>| #[trigger] value_for(a, idx, other) == value_for(b, idx, other),
    ensures
        vf_ethtool_rows(a, idx, dev) == vf_ethtool_rows(b, idx, dev),
        vf_link_rows(a, idx, dev) == vf_link_rows(b, idx, dev),
{
}

} // verus!
