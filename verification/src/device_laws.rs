//! What holds of what is done for each device.
use vstd::prelude::*;

use crate::command::{ActionView, QueryView};
use crate::ethtool;
use crate::laws;
use crate::mac;
use crate::model;
use crate::model::{EthtoolView, IpView, Known, PhaseView, VfView};
use crate::number;
use crate::text;
use crate::vf;

verus! {

// ---- Properties ----

/// The name of the property `suffix` for virtual function `idx` alone.
pub open spec fn specific_key(idx: nat, suffix: Seq<char>) -> Seq<char> {
    "I40E_VF"@ + number::decimal(idx) + "_"@ + suffix
}

/// The name of the property `suffix` for every virtual function.
pub open spec fn global_key(suffix: Seq<char>) -> Seq<char> {
    "I40E_VF_"@ + suffix
}

/// A property is that of one virtual function, or that of them all: no two of them share a name.
pub proof fn law_property_names_differ(a: nat, b: nat, s: Seq<char>, t: Seq<char>)
    ensures
        specific_key(a, s) != global_key(t),
        a != b || s != t ==> specific_key(a, s) != specific_key(b, t),
{
    reveal_strlit("I40E_VF");
    reveal_strlit("I40E_VF_");
    reveal_strlit("_");
    number::law_decimal_reads_back(a);
    number::law_decimal_reads_back(b);
    let x = specific_key(a, s);
    let y = specific_key(b, t);
    let m = number::decimal(a);
    let n = number::decimal(b);
    assert(x[7] == m[0] && global_key(t)[7] == '_');
    if x == y {
        assert(x[7 + m.len() as int] == '_' && y[7 + n.len() as int] == '_');
        if m.len() < n.len() {
            assert(y[7 + m.len() as int] == n[m.len() as int]);
        } else if n.len() < m.len() {
            assert(x[7 + n.len() as int] == m[n.len() as int]);
        }
        assert(m =~= x.subrange(7, 7 + m.len() as int));
        assert(n =~= y.subrange(7, 7 + n.len() as int));
        number::law_decimal_is_injective(a, b);
        assert(s =~= x.skip(8 + m.len() as int));
        assert(t =~= y.skip(8 + n.len() as int));
    }
}

/// A virtual function's own property counts; without it, the one for every virtual function does.
pub proof fn law_own_property_counts(a: Known, idx: nat, suffix: Seq<char>)
    ensures
        a.props.contains_key(specific_key(idx, suffix)) ==> model::vf_value(a, idx, suffix) == Some(
            a.props[specific_key(idx, suffix)],
        ),
        !a.props.contains_key(specific_key(idx, suffix)) && a.props.contains_key(
            global_key(suffix),
        ) ==> model::vf_value(a, idx, suffix) == Some(a.props[global_key(suffix)]),
        !a.props.contains_key(specific_key(idx, suffix)) && !a.props.contains_key(
            global_key(suffix),
        ) ==> model::vf_value(a, idx, suffix) is None,
{
}

// ---- ethtool ----

/// A family that is named by mistake before the options does no harm: the options are what follows
/// it.
pub proof fn law_leading_family_is_left_out(token: Seq<char>, space: char, rest: Seq<char>)
    requires
        text::is_word(token),
        ethtool::family_of(token) is Some,
        text::is_space(space),
    ensures
        model::arguments_in(token + seq![space] + rest) == text::words(rest),
        text::words(rest).len() == 0 || ethtool::family_of(text::words(rest)[0]) is None
            ==> model::arguments_in(token + seq![space] + rest) == model::arguments_in(rest),
{
    text::law_first_word(token, space, rest);
    assert((seq![token] + text::words(rest)).skip(1) =~= text::words(rest));
}

/// The options of a family are set in one operation: one command, or none where there are no
/// options.
pub proof fn law_one_command_per_family(
    a: Known,
    dev: Seq<char>,
    family: Seq<char>,
    raw: Seq<char>,
)
    requires
        ethtool::family_of(family) is Some,
    ensures
        model::ethtool_actions(a, dev, family, raw) == if model::arguments_in(raw).len() == 0 {
            Seq::empty()
        } else {
            seq![
                model::applied(
                    a,
                    "ethtool"@,
                    seq![ethtool::family_of(family)->0, dev] + model::arguments_in(raw),
                ),
            ]
        },
{
}

/// A private flag that the physical function does not have is left alone: the log warns of it.
pub proof fn law_unsupported_flags_are_left_alone(a: Known, flags: Seq<char>)
    requires
        !text::has_text(flags, "disable-fw-lldp"@),
        !text::has_text(flags, "vf-true-promisc-support"@),
    ensures
        laws::all_meet(model::default_flag_actions(a, flags), laws::is_log()),
{
}

// ---- Virtual functions ----

/// Whether a step goes through the physical function to virtual function `idx`, if it runs
/// anything.
pub open spec fn through_pf(a: Known, idx: nat) -> spec_fn(ActionView) -> bool {
    |action: ActionView|
        action matches ActionView::Apply(c) ==> {
            &&& c.program == "ip"@
            &&& c.args.len() > 6
            &&& c.args.take(6) == seq![
                "link"@,
                "set"@,
                "dev"@,
                a.ifname,
                "vf"@,
                number::decimal(idx),
            ]
        }
}

proof fn lemma_ip_vf_goes_through_pf(a: Known, idx: nat)
    ensures
        forall|tokens: Seq<Seq<char>>|
            laws::all_meet(#[trigger] model::ip_vf_actions(a, idx, tokens), through_pf(a, idx)),
{
    let handle = seq!["link"@, "set"@, "dev"@, a.ifname, "vf"@, number::decimal(idx)];
    assert forall|tokens: Seq<Seq<char>>| laws::all_meet(
        #[trigger] model::ip_vf_actions(a, idx, tokens),
        through_pf(a, idx),
    ) by {
        assert((handle + tokens).take(6) =~= handle);
    }
}

/// A virtual function without a network device on the host: the log warns of it, nothing is done on
/// the device, and the properties that go through the physical function come into force as they do
/// where there is one.
pub proof fn law_missing_netdev(a: Known, idx: nat)
    ensures
        model::vf_ethtool_actions(a, idx, None) == seq![
            model::warning(
                "VF "@ + number::decimal(idx)
                    + ": no host-side netdev found; skipping VF-netdev ethtool/ip tunables"@,
            ),
        ],
        model::vf_ip_prop_actions(a, idx, None) == model::vf_handle_actions(a, idx)
            + model::vf_asym_note(a, idx),
        laws::all_meet(model::vf_ip_prop_actions(a, idx, None), through_pf(a, idx)),
{
    broadcast use laws::lemma_all_meet_add;

    lemma_ip_vf_goes_through_pf(a, idx);
    let p = through_pf(a, idx);
    assert(laws::all_meet(model::vf_handle_actions(a, idx), p));
    assert(laws::all_meet(model::vf_asym_note(a, idx), p));
    lemma_empty_between(model::vf_handle_actions(a, idx), model::vf_asym_note(a, idx));
}

proof fn lemma_empty_between(first: Seq<ActionView>, second: Seq<ActionView>)
    ensures
        first + Seq::empty() + second == first + second,
{
}

/// Where receive-side scaling is set for a virtual function and nothing is said of querying it, it
/// may be queried.
pub proof fn law_query_rss_is_automatic(a: Known, idx: nat)
    requires
        model::vf_value(a, idx, "QUERY_RSS"@) is None,
        model::vf_rss(a, idx) is Some,
    ensures
        model::vf_handle_actions(a, idx).len() > 0,
        seq![model::vf_handle_actions(a, idx).last()] == model::ip_vf_actions(
            a,
            idx,
            seq!["query_rss"@, "on"@],
        ),
{
}

/// An administrative address that names an adapter is kept: nothing but a log entry comes of the
/// derived address where `output`, the administrative addresses, gives one.
pub proof fn law_existing_mac_is_kept(
    a: Known,
    prefix: Option<Seq<char>>,
    idx: nat,
    output: Seq<char>,
)
    requires
        vf::admin_mac(output, idx) is Some,
        mac::is_usable_mac(vf::admin_mac(output, idx)->0),
    ensures
        laws::all_meet(
            model::asked_mac_actions(a, prefix, idx, Some(output)),
            laws::is_log(),
        ),
{
}

/// Where addresses are derived and existing ones are to be kept, none is set before the host has
/// said which there are.
pub proof fn law_existing_mac_is_asked_for(
    a: Known,
    actions: Seq<ActionView>,
    prefix: Seq<char>,
    vfs: Seq<VfView>,
)
    requires
        a.settings.derive_vf_macs,
        a.settings.skip_if_vf_mac_set,
        vfs.len() > 0,
    ensures
        ({
            let next = model::to_next_ip(a, actions, Some(prefix), vfs);
            &&& next.actions == actions + model::before_mac_actions(a, vfs[0])
            &&& next.query == Some(model::admin_macs_query(a))
        }),
{
}

/// The derived address that virtual function `idx` gets: that of the physical function's address and
/// function number, where the index fits an octet.
pub proof fn law_derived_mac_is_set(
    a: Known,
    address: Seq<char>,
    device: Option<Seq<char>>,
    idx: u8,
)
    requires
        mac::mac_octets(text::trimmed(address)) is Some,
    ensures
        ({
            let prefix = model::prefix_from(Some(address), device);
            let derived = mac::derived_mac(
                text::trimmed(address),
                model::function_number(device),
                idx as nat,
            );
            &&& prefix is Some
            &&& derived is Some
            &&& mac::is_usable_mac(derived->0)
            &&& model::derived_mac_actions(a, idx as nat, prefix->0) == model::ip_vf_actions(
                a,
                idx as nat,
                seq!["mac"@, derived->0],
            ).push(
                model::info(
                    "VF "@ + number::decimal(idx as nat) + ": set derived MAC "@ + derived->0,
                ),
            )
        }),
{
    reveal(mac::derived_mac);
    mac::law_derived_mac(text::trimmed(address), model::function_number(device), idx);
}

// ---- Quirks ----

proof fn lemma_family_letters()
    ensures
        ethtool::family_of("K"@) == Some("-K"@),
        ethtool::family_of("C"@) == Some("-C"@),
{
    reveal_strlit("K");
    reveal_strlit("C");
    reveal_strlit("k");
    reveal_strlit("c");
    reveal_strlit("offload");
    reveal_strlit("features");
    reveal_with_fuel(ethtool::normalized, 2);
    assert("K"@.drop_last() =~= Seq::empty() && "C"@.drop_last() =~= Seq::empty());
    assert(ethtool::normalized("K"@) =~= "k"@);
    assert(ethtool::normalized("C"@) =~= "c"@);
    assert("k"@[0] != "c"@[0]);
    assert("offload"@.len() == 7 && "features"@.len() == 8);
}

/// A token that, without its dashes, is as long as no family's name, or as long as `ntuple` and of
/// another beginning, names no family.
proof fn lemma_no_family(token: Seq<char>)
    requires
        ({
            let name = ethtool::normalized(token);
            ||| name.len() == 6 && name[0] != 'n'
            ||| name.len() == 10
            ||| name.len() > 12
        }),
    ensures
        ethtool::family_of(token) is None,
{
    reveal_strlit("k");
    reveal_strlit("offload");
    reveal_strlit("features");
    reveal_strlit("c");
    reveal_strlit("coalesce");
    reveal_strlit("a");
    reveal_strlit("pause");
    reveal_strlit("g");
    reveal_strlit("ring");
    reveal_strlit("l");
    reveal_strlit("channels");
    reveal_strlit("channel");
    reveal_strlit("x");
    reveal_strlit("rxfh");
    reveal_strlit("rss");
    reveal_strlit("n");
    reveal_strlit("ntuple");
    reveal_strlit("configntuple");
}

/// The command that turns the stripping of VLAN tags off on `dev`.
pub open spec fn strip_off(a: Known, dev: Seq<char>) -> ActionView {
    model::applied(a, "ethtool"@, seq!["-K"@, dev, "rxvlan"@, "off"@])
}

/// How the stripping of VLAN tags is turned off: by this one command.
pub proof fn law_rxvlan_off(a: Known, dev: Seq<char>)
    ensures
        model::rxvlan_off(a, dev) == seq![strip_off(a, dev)],
{
    lemma_family_letters();
    reveal_strlit("rxvlan");
    reveal_strlit("off");
    reveal_strlit("rxvlan off");
    assert("rxvlan off"@ =~= "rxvlan"@ + seq![' '] + "off"@);
    text::law_first_word("rxvlan"@, ' ', "off"@);
    text::law_one_word("off"@);
    assert(ethtool::family_of("rxvlan"@) is None) by {
        reveal_with_fuel(ethtool::normalized, 7);
        assert(ethtool::normalized("rxvlan"@) =~= "rxvlan"@);
        lemma_no_family("rxvlan"@);
    }
    assert(model::arguments_in("rxvlan off"@) =~= seq!["rxvlan"@, "off"@]);
    assert(seq!["-K"@, dev] + seq!["rxvlan"@, "off"@] =~= seq!["-K"@, dev, "rxvlan"@, "off"@]);
}

/// The command that sets the VLAN of virtual function `idx` to `n`.
pub open spec fn vlan_set(a: Known, idx: nat, n: Seq<char>) -> ActionView {
    model::applied(
        a,
        "ip"@,
        seq!["link"@, "set"@, "dev"@, a.ifname, "vf"@, number::decimal(idx), "vlan"@, n],
    )
}

/// Without the setting for all of them, a virtual function gets the workaround for its VLAN tags if
/// its property is `1`, and else nothing comes of it.
pub proof fn law_vlan_quirk_is_asked_for(a: Known, idx: nat, dev: Option<Seq<char>>)
    requires
        !a.settings.vlan_quirk,
    ensures
        model::has_vlan_quirk(a, idx) <==> model::vf_value(a, idx, "VLAN_QUIRK"@) == Some("1"@),
        !model::has_vlan_quirk(a, idx) ==> laws::rxvlan_actions(a, idx, dev).len() == 0
            && model::bounce_actions(a, idx).len() == 0,
{
}

/// Whether `actions` begin with `first`.
pub open spec fn begins_with(actions: Seq<ActionView>, first: Seq<ActionView>) -> bool {
    &&& first.len() <= actions.len()
    &&& actions.take(first.len() as int) == first
}

proof fn lemma_begins_with(first: Seq<ActionView>, second: Seq<ActionView>, last: ActionView)
    ensures
        begins_with(first, first),
        begins_with(first + second, first),
        begins_with((first + second).push(last), first),
{
    assert(first.take(first.len() as int) =~= first);
    assert((first + second).take(first.len() as int) =~= first);
    assert((first + second).push(last).take(first.len() as int) =~= first);
}

proof fn lemma_next_ip_begins(
    a: Known,
    first: Seq<ActionView>,
    prefix: Option<Seq<char>>,
    vfs: Seq<VfView>,
)
    ensures
        begins_with(model::to_next_ip(a, first, prefix, vfs).actions, first),
{
    let end = laws::completion(a);
    lemma_begins_with(first, model::unasked_vfs_actions(a, prefix, vfs), end);
    if vfs.len() > 0 {
        lemma_begins_with(first, model::before_mac_actions(a, vfs[0]), end);
    }
}

proof fn lemma_begins_with_begins(
    actions: Seq<ActionView>,
    first: Seq<ActionView>,
    second: Seq<ActionView>,
)
    requires
        begins_with(actions, first + second),
    ensures
        begins_with(actions, first),
{
    assert(actions.take(first.len() as int) =~= (first + second).take(first.len() as int));
    assert((first + second).take(first.len() as int) =~= first);
}

proof fn lemma_next_ethtool_begins(
    a: Known,
    first: Seq<ActionView>,
    ready: Seq<VfView>,
    pending: Seq<usize>,
)
    ensures
        begins_with(model::to_next_ethtool(a, first, ready, pending).actions, first),
{
    let link = model::pf_ip_actions(a);
    lemma_begins_with(first, link, laws::completion(a));
    if pending.len() == 0 && !a.settings.derive_vf_macs {
        lemma_next_ip_begins(a, first + link, None, ready);
        lemma_begins_with_begins(
            model::to_next_ip(a, first + link, None, ready).actions,
            first,
            link,
        );
    }
}

/// The first half of the workaround for the VLAN tags of a virtual function, whatever the host
/// answers: once its properties for ethtool are in force, the stripping is turned off on the
/// physical function, and on the network device of the virtual one; where that is not there yet, it
/// is asked for again.
pub proof fn law_vlan_quirk_turns_stripping_off(a: Known, v: EthtoolView, existing: Seq<bool>)
    requires
        model::has_vlan_quirk(a, v.idx as nat),
    ensures
        ({
            let idx = v.idx as nat;
            let dev = model::first_existing(model::candidates(a, idx), existing);
            let next = model::after_netdev(a, v, existing);
            let props = model::vf_ethtool_actions(a, idx, dev);
            match dev {
                Some(d) => begins_with(
                    next.actions,
                    props + seq![strip_off(a, a.ifname), strip_off(a, d)],
                ),
                None => {
                    &&& next.actions == props + seq![strip_off(a, a.ifname)]
                    &&& next.query == Some(QueryView::Exist(model::candidate_paths(a, idx)))
                    &&& next.app == a.at(PhaseView::NetdevAgain(v))
                },
            }
        }),
{
    let idx = v.idx as nat;
    let dev = model::first_existing(model::candidates(a, idx), existing);
    let props = model::vf_ethtool_actions(a, idx, dev);
    law_rxvlan_off(a, a.ifname);
    match dev {
        Some(d) => {
            law_rxvlan_off(a, d);
            lemma_two(props, strip_off(a, a.ifname), strip_off(a, d));
            lemma_next_ethtool_begins(
                a,
                props + seq![strip_off(a, a.ifname)] + seq![strip_off(a, d)],
                v.ready.push(VfView { idx: v.idx, dev }),
                v.pending,
            );
        },
        None => {},
    }
}

proof fn lemma_two(first: Seq<ActionView>, x: ActionView, y: ActionView)
    ensures
        first + seq![x] + seq![y] == first + seq![x, y],
{
}

/// A network device that has come up by the time it is asked for again has the stripping turned off
/// too, before anything else.
pub proof fn law_late_netdev_has_stripping_off(a: Known, v: EthtoolView, existing: Seq<bool>)
    ensures
        model::first_existing(model::candidates(a, v.idx as nat), existing) matches Some(d)
            ==> begins_with(
            model::after_netdev_again(a, v, existing).actions,
            seq![strip_off(a, d)],
        ),
{
    match model::first_existing(model::candidates(a, v.idx as nat), existing) {
        Some(d) => {
            law_rxvlan_off(a, d);
            lemma_next_ethtool_begins(
                a,
                seq![strip_off(a, d)],
                v.ready.push(VfView { idx: v.idx, dev: None }),
                v.pending,
            );
        },
        None => {},
    }
}

/// The second half of the workaround, whatever the host answers: after all else for the virtual
/// function, ip sets its VLAN to 10 and back to 0.
pub proof fn law_vlan_quirk_bounces(
    a: Known,
    v: IpView,
    output: Option<Seq<char>>,
    prefix: Option<Seq<char>>,
)
    requires
        model::has_vlan_quirk(a, v.vf.idx as nat),
    ensures
        ({
            let idx = v.vf.idx as nat;
            let bounce = seq![vlan_set(a, idx, "10"@), vlan_set(a, idx, "0"@)];
            &&& begins_with(
                model::after_admin_mac(a, v, output).actions,
                model::asked_mac_actions(a, v.prefix, idx, output) + bounce,
            )
            &&& model::unasked_vf_actions(a, prefix, v.vf) == model::before_mac_actions(a, v.vf)
                + model::unasked_mac_actions(a, prefix, idx) + bounce
        }),
{
    let idx = v.vf.idx as nat;
    lemma_bounce(a, idx);
    lemma_next_ip_begins(
        a,
        model::asked_mac_actions(a, v.prefix, idx, output) + model::bounce_actions(a, idx),
        v.prefix,
        v.pending,
    );
}

proof fn lemma_bounce(a: Known, idx: nat)
    requires
        model::has_vlan_quirk(a, idx),
    ensures
        model::bounce_actions(a, idx) == seq![vlan_set(a, idx, "10"@), vlan_set(a, idx, "0"@)],
{
    let handle = seq!["link"@, "set"@, "dev"@, a.ifname, "vf"@, number::decimal(idx)];
    assert(handle + seq!["vlan"@, "10"@] =~= seq![
        "link"@,
        "set"@,
        "dev"@,
        a.ifname,
        "vf"@,
        number::decimal(idx),
        "vlan"@,
        "10"@,
    ]);
    assert(handle + seq!["vlan"@, "0"@] =~= seq![
        "link"@,
        "set"@,
        "dev"@,
        a.ifname,
        "vf"@,
        number::decimal(idx),
        "vlan"@,
        "0"@,
    ]);
    assert(model::bounce_actions(a, idx) =~= seq![
        vlan_set(a, idx, "10"@),
        vlan_set(a, idx, "0"@),
    ]);
}

proof fn lemma_coalesce_arguments()
    ensures
        model::arguments_in("adaptive-rx off adaptive-tx off rx-usecs 0 tx-usecs 0"@) == seq![
            "adaptive-rx"@,
            "off"@,
            "adaptive-tx"@,
            "off"@,
            "rx-usecs"@,
            "0"@,
            "tx-usecs"@,
            "0"@,
        ],
{
    reveal_strlit("adaptive-rx");
    reveal_strlit("off");
    reveal_strlit("adaptive-tx");
    reveal_strlit("rx-usecs");
    reveal_strlit("0");
    reveal_strlit("tx-usecs");
    reveal_strlit("adaptive-rx off adaptive-tx off rx-usecs 0 tx-usecs 0");
    let t7 = "0"@;
    text::law_one_word(t7);
    let t6 = "tx-usecs"@ + seq![' '] + t7;
    text::law_first_word("tx-usecs"@, ' ', t7);
    let t5 = "0"@ + seq![' '] + t6;
    text::law_first_word("0"@, ' ', t6);
    let t4 = "rx-usecs"@ + seq![' '] + t5;
    text::law_first_word("rx-usecs"@, ' ', t5);
    let t3 = "off"@ + seq![' '] + t4;
    text::law_first_word("off"@, ' ', t4);
    let t2 = "adaptive-tx"@ + seq![' '] + t3;
    text::law_first_word("adaptive-tx"@, ' ', t3);
    let t1 = "off"@ + seq![' '] + t2;
    text::law_first_word("off"@, ' ', t2);
    let t0 = "adaptive-rx"@ + seq![' '] + t1;
    text::law_first_word("adaptive-rx"@, ' ', t1);
    assert("adaptive-rx off adaptive-tx off rx-usecs 0 tx-usecs 0"@ =~= t0);
    assert(text::words(t0) =~= seq![
        "adaptive-rx"@,
        "off"@,
        "adaptive-tx"@,
        "off"@,
        "rx-usecs"@,
        "0"@,
        "tx-usecs"@,
        "0"@,
    ]);
    assert(ethtool::family_of("adaptive-rx"@) is None) by {
        reveal_with_fuel(ethtool::normalized, 12);
        lemma_no_family("adaptive-rx"@);
    }
}

proof fn lemma_checksum_arguments()
    ensures
        model::arguments_in("tx-checksum-ip-generic off tx-checksum-sctp off"@) == seq![
            "tx-checksum-ip-generic"@,
            "off"@,
            "tx-checksum-sctp"@,
            "off"@,
        ],
{
    reveal_strlit("tx-checksum-ip-generic");
    reveal_strlit("off");
    reveal_strlit("tx-checksum-sctp");
    reveal_strlit("tx-checksum-ip-generic off tx-checksum-sctp off");
    let t3 = "off"@;
    text::law_one_word(t3);
    let t2 = "tx-checksum-sctp"@ + seq![' '] + t3;
    text::law_first_word("tx-checksum-sctp"@, ' ', t3);
    let t1 = "off"@ + seq![' '] + t2;
    text::law_first_word("off"@, ' ', t2);
    let t0 = "tx-checksum-ip-generic"@ + seq![' '] + t1;
    text::law_first_word("tx-checksum-ip-generic"@, ' ', t1);
    assert("tx-checksum-ip-generic off tx-checksum-sctp off"@ =~= t0);
    assert(text::words(t0) =~= seq![
        "tx-checksum-ip-generic"@,
        "off"@,
        "tx-checksum-sctp"@,
        "off"@,
    ]);
    assert(ethtool::family_of("tx-checksum-ip-generic"@) is None) by {
        reveal_with_fuel(ethtool::normalized, 23);
        lemma_no_family("tx-checksum-ip-generic"@);
    }
}

/// What is done against the asymmetry of the host path: two commands, on the physical function
/// alone.
pub proof fn law_asym_quirk(a: Known)
    requires
        a.settings.asym_quirk,
    ensures
        model::asym_actions(a) == seq![
            model::applied(
                a,
                "ethtool"@,
                seq![
                    "-C"@,
                    a.ifname,
                    "adaptive-rx"@,
                    "off"@,
                    "adaptive-tx"@,
                    "off"@,
                    "rx-usecs"@,
                    "0"@,
                    "tx-usecs"@,
                    "0"@,
                ],
            ),
            model::applied(
                a,
                "ethtool"@,
                seq![
                    "-K"@,
                    a.ifname,
                    "tx-checksum-ip-generic"@,
                    "off"@,
                    "tx-checksum-sctp"@,
                    "off"@,
                ],
            ),
        ],
{
    lemma_family_letters();
    lemma_coalesce_arguments();
    lemma_checksum_arguments();
    assert(seq!["-C"@, a.ifname] + model::arguments_in(
        "adaptive-rx off adaptive-tx off rx-usecs 0 tx-usecs 0"@,
    ) =~= seq![
        "-C"@,
        a.ifname,
        "adaptive-rx"@,
        "off"@,
        "adaptive-tx"@,
        "off"@,
        "rx-usecs"@,
        "0"@,
        "tx-usecs"@,
        "0"@,
    ]);
    assert(seq!["-K"@, a.ifname] + model::arguments_in(
        "tx-checksum-ip-generic off tx-checksum-sctp off"@,
    ) =~= seq![
        "-K"@,
        a.ifname,
        "tx-checksum-ip-generic"@,
        "off"@,
        "tx-checksum-sctp"@,
        "off"@,
    ]);
}

} // verus!
