//! What holds of every run.
use vstd::prelude::*;

use crate::cli::{CliToggles, Toggle};
use crate::command::{ActionView, QueryView, ReplyView};
use crate::ethtool;
use crate::model;
use crate::model::{AppView, EthtoolView, IpView, Known, PhaseView, StepView, VfView};
use crate::number;
use crate::props;
use crate::text;
use crate::vf;

verus! {

// ---- Which setting counts ----

/// The value of a property that `m` lacks is what the lines alone give.
proof fn lemma_lines_alone(
    m: Map<Seq<char>, Seq<char>>,
    lines: Seq<Seq<char>>,
    key: Seq<char>,
)
    requires
        !m.contains_key(key),
    ensures
        props::lookup(props::with_lines(m, lines), key) == props::lookup(
            props::with_lines(Map::empty(), lines),
            key,
        ),
    decreases lines.len(),
{
    if lines.len() > 0 {
        lemma_lines_alone(m, lines.drop_last(), key);
    }
}

/// What the environment says of `name`: by a property, or else by its variable.
pub open spec fn said_by_environment(vars: Seq<(Seq<char>, Seq<char>)>, name: Toggle) -> Option<
    bool,
> {
    match model::said_by_property(model::props_in(vars), name) {
        Some(value) => Some(value),
        None => model::said(model::var_in(vars, model::variable_of(name))),
    }
}

/// What the `.link` file says of `name`, by the properties of the link.
pub open spec fn said_by_link(output: Option<Seq<char>>, name: Toggle) -> Option<bool> {
    match output {
        Some(t) => model::said_by_property(
            props::with_lines(Map::empty(), text::line_texts(t)),
            name,
        ),
        None => None,
    }
}

/// What a run knows once `output`, the properties of the link, is in force.
pub open spec fn informed_by(a: Known, output: Option<Seq<char>>) -> Known {
    model::with_cli(model::with_property_toggles(model::with_link_props(a, output)))
}

proof fn lemma_after_link_props(a: Known, output: Option<Seq<char>>)
    ensures
        model::after_link_props(a, output).app == informed_by(a, output).at(PhaseView::PrivFlags),
{
}

proof fn lemma_informed_value(
    ifname: Seq<char>,
    cli: CliToggles,
    vars: Seq<(Seq<char>, Seq<char>)>,
    output: Option<Seq<char>>,
    name: Toggle,
)
    ensures
        informed_by(model::initial(ifname, cli, vars), output).settings.value(name)
            == match cli.given(name) {
            Some(value) => value,
            None => match said_by_environment(vars, name) {
                Some(value) => value,
                None => match said_by_link(output, name) {
                    Some(value) => value,
                    None => model::default_of(name),
                },
            },
        },
{
    match (output, model::property_of(name)) {
        (Some(t), Some(key)) => {
            if model::props_in(vars).contains_key(key) {
                props::law_lines_never_override(model::props_in(vars), text::line_texts(t), key);
            } else {
                lemma_lines_alone(model::props_in(vars), text::line_texts(t), key);
            }
        },
        _ => {},
    }
}

/// The command line counts before the environment, the environment before the `.link` file, and the
/// `.link` file before the built-in default: so it is with every setting once the properties of the
/// link are known, whatever else the host answers.
pub proof fn law_precedence(
    ifname: Seq<char>,
    cli: CliToggles,
    vars: Seq<(Seq<char>, Seq<char>)>,
    first: ReplyView,
    second: ReplyView,
    name: Toggle,
)
    ensures
        ({
            let start = model::initial(ifname, cli, vars).at(PhaseView::Start);
            let s = model::step(model::step(start, first).app, second).app;
            &&& s.phase == PhaseView::PrivFlags
            &&& s.known.settings.value(name) == match cli.given(name) {
                Some(value) => value,
                None => match said_by_environment(vars, name) {
                    Some(value) => value,
                    None => match said_by_link(model::captured(second), name) {
                        Some(value) => value,
                        None => model::default_of(name),
                    },
                },
            }
        }),
{
    lemma_informed_value(ifname, cli, vars, model::captured(second), name);
    lemma_after_link_props(model::initial(ifname, cli, vars), model::captured(second));
}

// ---- What kind of steps there are ----

/// Whether `p` holds of each of `actions`.
pub open spec fn all_meet(actions: Seq<ActionView>, p: spec_fn(ActionView) -> bool) -> bool {
    forall|i: int| 0 <= i < actions.len() ==> p(#[trigger] actions[i])
}

/// What holds of each of `a` and of each of `b` holds of each of `a + b`.
pub broadcast proof fn lemma_all_meet_add(
    a: Seq<ActionView>,
    b: Seq<ActionView>,
    p: spec_fn(ActionView) -> bool,
)
    requires
        all_meet(a, p),
        all_meet(b, p),
    ensures
        #[trigger] all_meet(a + b, p),
{
}

/// What holds of each of `a` and of `x` holds of each of `a.push(x)`.
pub broadcast proof fn lemma_all_meet_push(
    a: Seq<ActionView>,
    x: ActionView,
    p: spec_fn(ActionView) -> bool,
)
    requires
        all_meet(a, p),
        p(x),
    ensures
        #[trigger] all_meet(a.push(x), p),
{
}

/// Whether `p` holds of every log entry.
spec fn admits_logs(p: spec_fn(ActionView) -> bool) -> bool {
    forall|action: ActionView| action is Log ==> #[trigger] p(action)
}

/// Whether `p` holds of what is done to have `program` run, with whatever arguments.
spec fn admits_program(a: Known, program: Seq<char>, p: spec_fn(ActionView) -> bool) -> bool {
    forall|args: Seq<Seq<char>>| p(#[trigger] model::applied(a, program, args))
}

/// What is done with ethtool.
proof fn lemma_ethtool_steps(a: Known, p: spec_fn(ActionView) -> bool)
    requires
        admits_logs(p),
        admits_program(a, "ethtool"@, p),
    ensures
        forall|dev: Seq<char>, family: Seq<char>, raw: Seq<char>|
            all_meet(#[trigger] model::ethtool_actions(a, dev, family, raw), p),
        forall|dev: Seq<char>, family: Seq<char>, raw: Option<Seq<char>>|
            all_meet(#[trigger] model::ethtool_if_set(a, dev, family, raw), p),
        forall|dev: Seq<char>| all_meet(#[trigger] model::rxvlan_off(a, dev), p),
        forall|flag: Seq<char>, value: Seq<char>| p(#[trigger] model::priv_flag(a, flag, value)),
{
    assert forall|dev: Seq<char>, family: Seq<char>, raw: Seq<char>| all_meet(
        #[trigger] model::ethtool_actions(a, dev, family, raw),
        p,
    ) by {
        match ethtool::family_of(family) {
            None => {},
            Some(switch) => {
                assert(p(model::applied(
                    a,
                    "ethtool"@,
                    seq![switch, dev] + model::arguments_in(raw),
                )));
            },
        }
    }
}

/// What is done with ip.
proof fn lemma_ip_steps(a: Known, p: spec_fn(ActionView) -> bool)
    requires
        admits_logs(p),
        admits_program(a, "ip"@, p),
    ensures
        forall|dev: Seq<char>, tokens: Seq<Seq<char>>|
            all_meet(#[trigger] model::ip_dev_actions(a, dev, tokens), p),
        forall|dev: Seq<char>, option: Seq<char>, value: Option<Seq<char>>|
            all_meet(#[trigger] model::ip_dev_if_set(a, dev, option, value), p),
        forall|idx: nat, tokens: Seq<Seq<char>>|
            all_meet(#[trigger] model::ip_vf_actions(a, idx, tokens), p),
        forall|idx: nat, option: Seq<char>, value: Option<Seq<char>>|
            all_meet(#[trigger] model::ip_vf_if_set(a, idx, option, value), p),
{
    assert forall|dev: Seq<char>, tokens: Seq<Seq<char>>| all_meet(
        #[trigger] model::ip_dev_actions(a, dev, tokens),
        p,
    ) by {
        assert(p(model::applied(a, "ip"@, seq!["link"@, "set"@, "dev"@, dev] + tokens)));
    }
    assert forall|idx: nat, tokens: Seq<Seq<char>>| all_meet(
        #[trigger] model::ip_vf_actions(a, idx, tokens),
        p,
    ) by {
        assert(p(model::applied(
            a,
            "ip"@,
            seq!["link"@, "set"@, "dev"@, a.ifname, "vf"@, number::decimal(idx)] + tokens,
        )));
    }
}

proof fn lemma_priv_flag_pairs(
    a: Known,
    words: Seq<Seq<char>>,
    p: spec_fn(ActionView) -> bool,
)
    requires
        forall|flag: Seq<char>, value: Seq<char>| p(#[trigger] model::priv_flag(a, flag, value)),
    ensures
        all_meet(model::priv_flag_pairs(a, words), p),
    decreases words.len(),
{
    broadcast use lemma_all_meet_add;

    if words.len() >= 2 {
        lemma_priv_flag_pairs(a, words.skip(2), p);
        assert(all_meet(seq![model::priv_flag(a, words[0], words[1])], p));
    }
}

proof fn lemma_pf_ethtool_steps(a: Known, p: spec_fn(ActionView) -> bool)
    requires
        admits_logs(p),
        admits_program(a, "ethtool"@, p),
    ensures
        all_meet(model::pf_ethtool_actions(a), p),
{
    broadcast use lemma_all_meet_add;

    lemma_ethtool_steps(a, p);
    match props::lookup(a.props, "I40E_PRIVFLAGS"@) {
        Some(flags) => {
            lemma_priv_flag_pairs(a, text::words(flags), p);
        },
        None => {},
    }
}

/// What is done so that the VLAN tags of virtual function `idx`, which has the network device `dev`,
/// are not stripped.
pub open spec fn rxvlan_actions(a: Known, idx: nat, dev: Option<Seq<char>>) -> Seq<ActionView> {
    if !model::has_vlan_quirk(a, idx) {
        Seq::empty()
    } else {
        match dev {
            Some(d) => model::rxvlan_off(a, a.ifname) + model::rxvlan_off(a, d),
            None => model::rxvlan_off(a, a.ifname),
        }
    }
}

proof fn lemma_ethtool_only_steps(
    a: Known,
    idx: nat,
    dev: Option<Seq<char>>,
    flags: Seq<char>,
    p: spec_fn(ActionView) -> bool,
)
    requires
        admits_logs(p),
        admits_program(a, "ethtool"@, p),
    ensures
        all_meet(model::vf_ethtool_actions(a, idx, dev), p),
        all_meet(rxvlan_actions(a, idx, dev), p),
        all_meet(model::default_flag_actions(a, flags), p),
        all_meet(model::asym_actions(a), p),
{
    broadcast use lemma_all_meet_add;

    lemma_ethtool_steps(a, p);
}

proof fn lemma_ip_only_steps(
    a: Known,
    idx: nat,
    dev: Option<Seq<char>>,
    p: spec_fn(ActionView) -> bool,
)
    requires
        admits_logs(p),
        admits_program(a, "ip"@, p),
    ensures
        all_meet(model::pf_ip_actions(a), p),
        all_meet(model::vf_handle_actions(a, idx), p),
        all_meet(model::vf_ip_actions(a, idx, dev), p),
        all_meet(model::vf_asym_note(a, idx), p),
        all_meet(model::baseline_actions(a, idx), p),
        all_meet(model::bounce_actions(a, idx), p),
        forall|what: Seq<char>, m: Option<Seq<char>>|
            all_meet(#[trigger] model::set_mac_actions(a, idx, what, m), p),
{
    broadcast use {lemma_all_meet_add, lemma_all_meet_push};

    lemma_ip_steps(a, p);
}

proof fn lemma_vf_ip_steps(
    a: Known,
    prefix: Option<Seq<char>>,
    vf: VfView,
    output: Option<Seq<char>>,
    p: spec_fn(ActionView) -> bool,
)
    requires
        admits_logs(p),
        admits_program(a, "ip"@, p),
    ensures
        all_meet(model::before_mac_actions(a, vf), p),
        all_meet(model::unasked_mac_actions(a, prefix, vf.idx as nat), p),
        all_meet(model::asked_mac_actions(a, prefix, vf.idx as nat, output), p),
        all_meet(model::bounce_actions(a, vf.idx as nat), p),
{
    broadcast use lemma_all_meet_add;

    lemma_ip_only_steps(a, vf.idx as nat, vf.dev, p);
}

proof fn lemma_unasked_vfs_steps(
    a: Known,
    prefix: Option<Seq<char>>,
    vfs: Seq<VfView>,
    p: spec_fn(ActionView) -> bool,
)
    requires
        admits_logs(p),
        admits_program(a, "ip"@, p),
    ensures
        all_meet(model::unasked_vfs_actions(a, prefix, vfs), p),
    decreases vfs.len(),
{
    if vfs.len() > 0 {
        lemma_vf_ip_steps(a, prefix, vfs[0], None, p);
        lemma_unasked_vfs_steps(a, prefix, vfs.skip(1), p);
        let before = model::before_mac_actions(a, vfs[0]);
        let address = model::unasked_mac_actions(a, prefix, vfs[0].idx as nat);
        let bounce = model::bounce_actions(a, vfs[0].idx as nat);
        lemma_all_meet_add(before, address, p);
        lemma_all_meet_add(before + address, bounce, p);
        lemma_all_meet_add(
            before + address + bounce,
            model::unasked_vfs_actions(a, prefix, vfs.skip(1)),
            p,
        );
    }
}

/// Whether a step runs nothing but `program`, if it runs anything.
pub open spec fn runs_only(program: Seq<char>) -> spec_fn(ActionView) -> bool {
    |action: ActionView| action matches ActionView::Apply(c) ==> c.program == program
}

// ---- The two parts of a run ----

/// All that is done when the host gives `replies` one after the other.
pub open spec fn actions_of(s: AppView, replies: Seq<ReplyView>) -> Seq<ActionView>
    decreases replies.len(),
{
    if replies.len() == 0 {
        Seq::empty()
    } else {
        model::step(s, replies[0]).actions + actions_of(
            model::step(s, replies[0]).app,
            replies.skip(1),
        )
    }
}

/// Whether a run has come to ip.
pub open spec fn at_ip(phase: PhaseView) -> bool {
    phase is Address || phase is Device || phase is AdminMac || phase is Done
}

/// Whether a file is asked for in `next`.
pub open spec fn reads_file(next: StepView) -> bool {
    next.query matches Some(QueryView::ReadFile(_))
}

/// Whether `p` holds of each of the first `k` of `actions`, and `q` of each of the others.
pub open spec fn parted_at(
    actions: Seq<ActionView>,
    k: int,
    p: spec_fn(ActionView) -> bool,
    q: spec_fn(ActionView) -> bool,
) -> bool {
    &&& 0 <= k <= actions.len()
    &&& all_meet(actions.take(k), p)
    &&& all_meet(actions.skip(k), q)
}

/// Whether `p` holds of every log entry, and of all that is done to have `program` run where a run
/// is as dry as `a`.
spec fn admits(a: Known, program: Seq<char>, p: spec_fn(ActionView) -> bool) -> bool {
    &&& admits_logs(p)
    &&& forall|b: Known|
        b.settings.dry_run == a.settings.dry_run ==> #[trigger] admits_program(b, program, p)
}

proof fn lemma_parts(
    first: Seq<ActionView>,
    second: Seq<ActionView>,
    p: spec_fn(ActionView) -> bool,
    q: spec_fn(ActionView) -> bool,
)
    requires
        all_meet(first, p),
        all_meet(second, q),
    ensures
        parted_at(first + second, first.len() as int, p, q),
{
    assert((first + second).take(first.len() as int) =~= first);
    assert((first + second).skip(first.len() as int) =~= second);
}

proof fn lemma_first_part(
    actions: Seq<ActionView>,
    p: spec_fn(ActionView) -> bool,
    q: spec_fn(ActionView) -> bool,
)
    requires
        all_meet(actions, p),
    ensures
        parted_at(actions, actions.len() as int, p, q),
{
    assert(actions.take(actions.len() as int) =~= actions);
}

proof fn lemma_second_part(
    actions: Seq<ActionView>,
    p: spec_fn(ActionView) -> bool,
    q: spec_fn(ActionView) -> bool,
)
    requires
        all_meet(actions, q),
    ensures
        parted_at(actions, 0, p, q),
{
    assert(actions.skip(0) =~= actions);
}

/// What ip does for virtual functions, after `actions`.
proof fn lemma_next_ip_steps(
    a: Known,
    actions: Seq<ActionView>,
    prefix: Option<Seq<char>>,
    vfs: Seq<VfView>,
    q: spec_fn(ActionView) -> bool,
)
    requires
        admits_logs(q),
        admits_program(a, "ip"@, q),
        all_meet(actions, q),
    ensures
        all_meet(model::to_next_ip(a, actions, prefix, vfs).actions, q),
        at_ip(model::to_next_ip(a, actions, prefix, vfs).app.phase),
        !reads_file(model::to_next_ip(a, actions, prefix, vfs)),
{
    lemma_unasked_vfs_steps(a, prefix, vfs, q);
    lemma_all_meet_add(actions, model::unasked_vfs_actions(a, prefix, vfs), q);
    lemma_all_meet_push(
        actions + model::unasked_vfs_actions(a, prefix, vfs),
        completion(a),
        q,
    );
    if vfs.len() > 0 {
        lemma_vf_ip_steps(a, prefix, vfs[0], None, q);
        lemma_all_meet_add(actions, model::before_mac_actions(a, vfs[0]), q);
    }
}

proof fn lemma_next_ip_after(
    a: Known,
    first: Seq<ActionView>,
    second: Seq<ActionView>,
    prefix: Option<Seq<char>>,
    vfs: Seq<VfView>,
)
    ensures
        model::to_next_ip(a, first + second, prefix, vfs).actions == first + model::to_next_ip(
            a,
            second,
            prefix,
            vfs,
        ).actions,
{
    lemma_order_after(
        first,
        second,
        model::unasked_vfs_actions(a, prefix, vfs),
        completion(a),
    );
    if vfs.len() > 0 {
        lemma_order_after(first, second, model::before_mac_actions(a, vfs[0]), completion(a));
    }
}

proof fn lemma_order_after(
    first: Seq<ActionView>,
    second: Seq<ActionView>,
    third: Seq<ActionView>,
    last: ActionView,
)
    ensures
        first + second + third == first + (second + third),
        (first + second + third).push(last) == first + (second + third).push(last),
{
}

/// Whether `k` parts what is done in `next`, a step of a run that has not come to ip before.
spec fn parts_step(
    next: StepView,
    k: int,
    p: spec_fn(ActionView) -> bool,
    q: spec_fn(ActionView) -> bool,
) -> bool {
    &&& parted_at(next.actions, k, p, q)
    &&& !at_ip(next.app.phase) ==> k == next.actions.len()
}

proof fn lemma_next_ethtool_parts(
    a: Known,
    actions: Seq<ActionView>,
    ready: Seq<VfView>,
    pending: Seq<usize>,
    p: spec_fn(ActionView) -> bool,
    q: spec_fn(ActionView) -> bool,
) -> (k: int)
    requires
        admits(a, "ip"@, q),
        all_meet(actions, p),
    ensures
        parts_step(model::to_next_ethtool(a, actions, ready, pending), k, p, q),
{
    if pending.len() > 0 {
        lemma_first_part(actions, p, q);
    } else {
        let link = model::pf_ip_actions(a);
        assert(admits_program(a, "ip"@, q));
        lemma_ip_only_steps(a, 0, None, q);
        if a.settings.derive_vf_macs {
            lemma_parts(actions, link, p, q);
        } else {
            lemma_next_ip_steps(a, link, None, ready, q);
            lemma_next_ip_after(a, actions, link, None, ready);
            lemma_parts(actions, model::to_next_ip(a, link, None, ready).actions, p, q);
            lemma_phase_of_next_ip(a, actions + link, link, None, ready);
        }
    }
    actions.len() as int
}

proof fn lemma_phase_of_next_ip(
    a: Known,
    some: Seq<ActionView>,
    other: Seq<ActionView>,
    prefix: Option<Seq<char>>,
    vfs: Seq<VfView>,
)
    ensures
        model::to_next_ip(a, some, prefix, vfs).app == model::to_next_ip(
            a,
            other,
            prefix,
            vfs,
        ).app,
{
}

proof fn lemma_netdev_parts(
    a: Known,
    v: EthtoolView,
    existing: Seq<bool>,
    p: spec_fn(ActionView) -> bool,
    q: spec_fn(ActionView) -> bool,
) -> (k: int)
    requires
        admits(a, "ethtool"@, p),
        admits(a, "ip"@, q),
    ensures
        parts_step(model::after_netdev(a, v, existing), k, p, q),
{
    let idx = v.idx as nat;
    let dev = model::first_existing(model::candidates(a, idx), existing);
    let actions = model::vf_ethtool_actions(a, idx, dev);
    let ready = v.ready.push(VfView { idx: v.idx, dev });
    assert(admits_program(a, "ethtool"@, p));
    lemma_ethtool_steps(a, p);
    lemma_ethtool_only_steps(a, idx, dev, Seq::empty(), p);
    if !model::has_vlan_quirk(a, idx) {
        lemma_next_ethtool_parts(a, actions, ready, v.pending, p, q)
    } else {
        let off = model::rxvlan_off(a, a.ifname);
        lemma_all_meet_add(actions, off, p);
        match dev {
            Some(d) => {
                let other = model::rxvlan_off(a, d);
                lemma_all_meet_add(actions + off, other, p);
                lemma_next_ethtool_parts(a, actions + off + other, ready, v.pending, p, q)
            },
            None => {
                lemma_first_part(actions + off, p, q);
                (actions + off).len() as int
            },
        }
    }
}

proof fn lemma_netdev_again_parts(
    a: Known,
    v: EthtoolView,
    existing: Seq<bool>,
    p: spec_fn(ActionView) -> bool,
    q: spec_fn(ActionView) -> bool,
) -> (k: int)
    requires
        admits(a, "ethtool"@, p),
        admits(a, "ip"@, q),
    ensures
        parts_step(model::after_netdev_again(a, v, existing), k, p, q),
{
    let ready = v.ready.push(VfView { idx: v.idx, dev: None });
    assert(admits_program(a, "ethtool"@, p));
    lemma_ethtool_steps(a, p);
    match model::first_existing(model::candidates(a, v.idx as nat), existing) {
        Some(dev) => lemma_next_ethtool_parts(
            a,
            model::rxvlan_off(a, dev),
            ready,
            v.pending,
            p,
            q,
        ),
        None => lemma_next_ethtool_parts(a, Seq::empty(), ready, v.pending, p, q),
    }
}

proof fn lemma_device_step(
    a: Known,
    address: Seq<char>,
    vfs: Seq<VfView>,
    device: Option<Seq<char>>,
    q: spec_fn(ActionView) -> bool,
)
    requires
        admits_logs(q),
        admits_program(a, "ip"@, q),
    ensures
        all_meet(model::after_device(a, address, vfs, device).actions, q),
        at_ip(model::after_device(a, address, vfs, device).app.phase),
        !reads_file(model::after_device(a, address, vfs, device)),
{
    let prefix = model::prefix_from(Some(address), device);
    assert(all_meet(model::prefix_actions(a, prefix), q));
    lemma_next_ip_steps(a, model::prefix_actions(a, prefix), prefix, vfs, q);
}

proof fn lemma_admin_mac_step(
    a: Known,
    v: IpView,
    output: Option<Seq<char>>,
    q: spec_fn(ActionView) -> bool,
)
    requires
        admits_logs(q),
        admits_program(a, "ip"@, q),
    ensures
        all_meet(model::after_admin_mac(a, v, output).actions, q),
        at_ip(model::after_admin_mac(a, v, output).app.phase),
        !reads_file(model::after_admin_mac(a, v, output)),
{
    let idx = v.vf.idx as nat;
    let address = model::asked_mac_actions(a, v.prefix, idx, output);
    lemma_vf_ip_steps(a, v.prefix, v.vf, output, q);
    lemma_all_meet_add(address, model::bounce_actions(a, idx), q);
    lemma_next_ip_steps(a, address + model::bounce_actions(a, idx), v.prefix, v.pending, q);
}

/// Once a run has come to ip, it stays there.
proof fn lemma_ip_step(s: AppView, reply: ReplyView, q: spec_fn(ActionView) -> bool)
    requires
        at_ip(s.phase),
        admits(s.known, "ip"@, q),
    ensures
        all_meet(model::step(s, reply).actions, q),
        at_ip(model::step(s, reply).app.phase),
        !reads_file(model::step(s, reply)),
{
    let a = s.known;
    assert(admits_program(a, "ip"@, q));
    match s.phase {
        PhaseView::Address { ready } => {
            lemma_next_ip_steps(a, Seq::empty(), None, ready, q);
        },
        PhaseView::Device { address, ready } => {
            lemma_device_step(a, address, ready, model::text_of(reply), q);
        },
        PhaseView::AdminMac(v) => {
            lemma_admin_mac_step(a, v, model::captured(reply), q);
        },
        _ => {},
    }
}

proof fn lemma_ethtool_step(
    s: AppView,
    reply: ReplyView,
    p: spec_fn(ActionView) -> bool,
    q: spec_fn(ActionView) -> bool,
) -> (k: int)
    requires
        !at_ip(s.phase),
        admits(s.known, "ethtool"@, p),
        admits(s.known, "ip"@, q),
    ensures
        parts_step(model::step(s, reply), k, p, q),
{
    let a = s.known;
    match s.phase {
        PhaseView::LinkProps => {
            let b = model::with_link_props(a, model::captured(reply));
            let actions = model::listing_actions(b) + model::pf_ethtool_actions(b);
            assert(admits_program(b, "ethtool"@, p));
            lemma_pf_ethtool_steps(b, p);
            assert(all_meet(model::listing_actions(b), p));
            lemma_all_meet_add(model::listing_actions(b), model::pf_ethtool_actions(b), p);
            lemma_first_part(actions, p, q);
            actions.len() as int
        },
        PhaseView::PrivFlags => {
            let flags = model::flags_in(model::captured(reply));
            let actions = model::default_flag_actions(a, flags) + model::asym_actions(a);
            assert(admits_program(a, "ethtool"@, p));
            lemma_ethtool_only_steps(a, 0, None, flags, p);
            lemma_all_meet_add(model::default_flag_actions(a, flags), model::asym_actions(a), p);
            lemma_first_part(actions, p, q);
            actions.len() as int
        },
        PhaseView::Directory => lemma_next_ethtool_parts(
            a,
            Seq::empty(),
            Seq::empty(),
            vf::indices_of(model::names_of(reply)),
            p,
            q,
        ),
        PhaseView::Netdev(v) => lemma_netdev_parts(a, v, model::existing_of(reply), p, q),
        PhaseView::NetdevAgain(v) => lemma_netdev_again_parts(
            a,
            v,
            model::existing_of(reply),
            p,
            q,
        ),
        _ => {
            lemma_first_part(Seq::empty(), p, q);
            0
        },
    }
}

proof fn lemma_runs_only_admits(a: Known, program: Seq<char>)
    ensures
        admits(a, program, runs_only(program)),
{
}

proof fn lemma_ip_part(s: AppView, replies: Seq<ReplyView>)
    requires
        at_ip(s.phase),
    ensures
        all_meet(actions_of(s, replies), runs_only("ip"@)),
    decreases replies.len(),
{
    if replies.len() > 0 {
        let next = model::step(s, replies[0]);
        lemma_runs_only_admits(s.known, "ip"@);
        lemma_ip_step(s, replies[0], runs_only("ip"@));
        lemma_ip_part(next.app, replies.skip(1));
        lemma_all_meet_add(
            next.actions,
            actions_of(next.app, replies.skip(1)),
            runs_only("ip"@),
        );
    }
}

proof fn lemma_two_parts(s: AppView, replies: Seq<ReplyView>) -> (k: int)
    ensures
        parted_at(actions_of(s, replies), k, runs_only("ethtool"@), runs_only("ip"@)),
    decreases replies.len(),
{
    let p = runs_only("ethtool"@);
    let q = runs_only("ip"@);
    if at_ip(s.phase) {
        lemma_ip_part(s, replies);
        lemma_second_part(actions_of(s, replies), p, q);
        0
    } else if replies.len() == 0 {
        lemma_first_part(actions_of(s, replies), p, q);
        0
    } else {
        let next = model::step(s, replies[0]);
        let rest = actions_of(next.app, replies.skip(1));
        lemma_runs_only_admits(s.known, "ethtool"@);
        lemma_runs_only_admits(s.known, "ip"@);
        let j = lemma_ethtool_step(s, replies[0], p, q);
        if at_ip(next.app.phase) {
            lemma_ip_part(next.app, replies.skip(1));
            lemma_part_before(next.actions, rest, j, p, q);
            j
        } else {
            let k = lemma_two_parts(next.app, replies.skip(1));
            lemma_part_behind(next.actions, rest, k, p, q);
            next.actions.len() + k
        }
    }
}

proof fn lemma_part_before(
    first: Seq<ActionView>,
    second: Seq<ActionView>,
    k: int,
    p: spec_fn(ActionView) -> bool,
    q: spec_fn(ActionView) -> bool,
)
    requires
        parted_at(first, k, p, q),
        all_meet(second, q),
    ensures
        parted_at(first + second, k, p, q),
{
    lemma_all_meet_add(first.skip(k), second, q);
    assert((first + second).take(k) =~= first.take(k));
    assert((first + second).skip(k) =~= first.skip(k) + second);
}

proof fn lemma_part_behind(
    first: Seq<ActionView>,
    second: Seq<ActionView>,
    k: int,
    p: spec_fn(ActionView) -> bool,
    q: spec_fn(ActionView) -> bool,
)
    requires
        parted_at(first, first.len() as int, p, q),
        parted_at(second, k, p, q),
    ensures
        parted_at(first + second, first.len() + k, p, q),
{
    assert(first.take(first.len() as int) =~= first);
    lemma_all_meet_add(first, second.take(k), p);
    assert((first + second).take(first.len() + k) =~= first + second.take(k));
    assert((first + second).skip(first.len() + k) =~= second.skip(k));
}

/// All of ethtool comes before all of ip: whatever the host answers, there is a point in a run
/// before which it runs ethtool alone, and after which it runs ip alone.
pub proof fn law_all_ethtool_before_ip(s: AppView, replies: Seq<ReplyView>)
    ensures
        exists|k: int| #[trigger]
            parted_at(actions_of(s, replies), k, runs_only("ethtool"@), runs_only("ip"@)),
{
    let k = lemma_two_parts(s, replies);
    assert(parted_at(actions_of(s, replies), k, runs_only("ethtool"@), runs_only("ip"@)));
}

// ---- Dry runs ----

/// Whether a step only writes to the log.
pub open spec fn is_log() -> spec_fn(ActionView) -> bool {
    |action: ActionView| action is Log
}

/// Whether a run is dry, and stays so.
pub open spec fn stays_dry(a: Known) -> bool {
    a.settings.dry_run && a.cli.dry_run != Some(false)
}

proof fn lemma_dry_admits(a: Known, program: Seq<char>)
    requires
        a.settings.dry_run,
    ensures
        admits(a, program, is_log()),
{
}

proof fn lemma_whole_of_parts(
    actions: Seq<ActionView>,
    k: int,
    p: spec_fn(ActionView) -> bool,
)
    requires
        parted_at(actions, k, p, p),
    ensures
        all_meet(actions, p),
{
    lemma_all_meet_add(actions.take(k), actions.skip(k), p);
    assert(actions.take(k) + actions.skip(k) =~= actions);
}

proof fn lemma_dry_step(s: AppView, reply: ReplyView)
    requires
        s.known.settings.dry_run,
    ensures
        all_meet(model::step(s, reply).actions, is_log()),
{
    let p = is_log();
    lemma_dry_admits(s.known, "ethtool"@);
    lemma_dry_admits(s.known, "ip"@);
    if at_ip(s.phase) {
        lemma_ip_step(s, reply, p);
    } else {
        let k = lemma_ethtool_step(s, reply, p, p);
        lemma_whole_of_parts(model::step(s, reply).actions, k, p);
    }
}

proof fn lemma_stays_dry(a: Known, output: Option<Seq<char>>)
    requires
        stays_dry(a),
    ensures
        stays_dry(informed_by(a, output)),
{
}

/// A dry run changes nothing: whatever the host answers, all that is done is to write to the log,
/// and the run stays dry.
pub proof fn law_dry_run_changes_nothing(s: AppView, reply: ReplyView)
    requires
        stays_dry(s.known),
    ensures
        all_meet(model::step(s, reply).actions, is_log()),
        stays_dry(model::step(s, reply).app.known),
{
    lemma_dry_step(s, reply);
    if s.phase == PhaseView::LinkProps {
        lemma_stays_dry(s.known, model::captured(reply));
        lemma_after_link_props(s.known, model::captured(reply));
    } else {
        law_settings_are_fixed(s, reply);
    }
}

/// A run is dry if the command line says so, or if it says nothing and the environment does.
pub proof fn law_when_a_run_is_dry(
    ifname: Seq<char>,
    cli: CliToggles,
    vars: Seq<(Seq<char>, Seq<char>)>,
)
    ensures
        stays_dry(model::initial(ifname, cli, vars)) == (cli.dry_run == Some(true) || (cli.dry_run
            is None && model::var_in(vars, "DRY_RUN"@) == Some("1"@))),
{
}

/// From beginning to end, a dry run only writes to the log, whatever the host answers.
pub proof fn law_dry_run_only_logs(s: AppView, replies: Seq<ReplyView>)
    requires
        stays_dry(s.known),
    ensures
        all_meet(actions_of(s, replies), is_log()),
    decreases replies.len(),
{
    broadcast use lemma_all_meet_add;

    if replies.len() > 0 {
        law_dry_run_changes_nothing(s, replies[0]);
        law_dry_run_only_logs(model::step(s, replies[0]).app, replies.skip(1));
    }
}

// ---- The course of a run ----

/// How far a run is from its virtual functions.
pub open spec fn stage(phase: PhaseView) -> nat {
    match phase {
        PhaseView::Start => 4,
        PhaseView::LinkProps => 3,
        PhaseView::PrivFlags => 2,
        PhaseView::Directory => 1,
        _ => 0,
    }
}

/// How many answers a run still needs for its virtual functions, at most.
pub open spec fn answers_left(phase: PhaseView) -> nat {
    match phase {
        PhaseView::Netdev(v) => 5 + v.ready.len() + 3 * v.pending.len(),
        PhaseView::NetdevAgain(v) => 4 + v.ready.len() + 3 * v.pending.len(),
        PhaseView::Address { ready } => 2 + ready.len(),
        PhaseView::Device { ready, .. } => 1 + ready.len(),
        PhaseView::AdminMac(v) => 1 + v.pending.len(),
        _ => 0,
    }
}

/// What a run says last.
pub open spec fn completion(a: Known) -> ActionView {
    model::info("postlink completed on "@ + a.ifname)
}

/// Whether a command that a run has the host answer with is one of those that only show something:
/// the properties of the link, the private flags, and the link itself.
pub open spec fn only_shows(a: Known, query: Option<QueryView>) -> bool {
    query matches Some(QueryView::Capture(command)) ==> {
        ||| QueryView::Capture(command) == model::link_props_query(a)
        ||| QueryView::Capture(command) == model::priv_flags_query(a)
        ||| QueryView::Capture(command) == model::admin_macs_query(a)
    }
}

/// Whether a run goes on from `next` among its virtual functions with at most `left` answers, and
/// says that it is complete where it is over.
spec fn goes_on(a: Known, next: StepView, left: nat) -> bool {
    &&& next.app.known == a
    &&& only_shows(a, next.query)
    &&& stage(next.app.phase) == 0
    &&& next.query is None <==> next.app.phase == PhaseView::Done
    &&& answers_left(next.app.phase) <= left
    &&& next.query is None ==> next.actions.len() > 0 && next.actions.last() == completion(a)
    &&& reads_file(next) ==> reads_in_time(a, next)
}

/// Whether `actions` end with `last`.
pub open spec fn ends_with(actions: Seq<ActionView>, last: Seq<ActionView>) -> bool {
    &&& last.len() <= actions.len()
    &&& actions.skip(actions.len() - last.len()) == last
}

/// Whether what is asked in `next` is the address of the physical function, and what is done before
/// that ends with what ip does for the physical function.
pub open spec fn reads_in_time(a: Known, next: StepView) -> bool {
    &&& next.query == Some(model::address_query(a))
    &&& ends_with(next.actions, model::pf_ip_actions(a))
}

proof fn lemma_ends_with(first: Seq<ActionView>, second: Seq<ActionView>)
    ensures
        ends_with(first + second, second),
{
    assert((first + second).skip(first.len() as int) =~= second);
}

proof fn lemma_next_ip_goes_on(
    a: Known,
    actions: Seq<ActionView>,
    prefix: Option<Seq<char>>,
    vfs: Seq<VfView>,
)
    ensures
        goes_on(a, model::to_next_ip(a, actions, prefix, vfs), vfs.len()),
{
}

proof fn lemma_next_ethtool_goes_on(
    a: Known,
    actions: Seq<ActionView>,
    ready: Seq<VfView>,
    pending: Seq<usize>,
)
    ensures
        goes_on(
            a,
            model::to_next_ethtool(a, actions, ready, pending),
            2 + ready.len() + 3 * pending.len(),
        ),
{
    lemma_next_ip_goes_on(a, actions + model::pf_ip_actions(a), None, ready);
    lemma_ends_with(actions, model::pf_ip_actions(a));
}

proof fn lemma_netdev_goes_on(a: Known, v: EthtoolView, existing: Seq<bool>)
    ensures
        goes_on(
            a,
            model::after_netdev(a, v, existing),
            4 + v.ready.len() + 3 * v.pending.len(),
        ),
        goes_on(
            a,
            model::after_netdev_again(a, v, existing),
            3 + v.ready.len() + 3 * v.pending.len(),
        ),
{
    let idx = v.idx as nat;
    let dev = model::first_existing(model::candidates(a, idx), existing);
    let actions = model::vf_ethtool_actions(a, idx, dev);
    let with_dev = v.ready.push(VfView { idx: v.idx, dev });
    let without_dev = v.ready.push(VfView { idx: v.idx, dev: None });
    lemma_next_ethtool_goes_on(a, actions, with_dev, v.pending);
    lemma_next_ethtool_goes_on(a, Seq::empty(), without_dev, v.pending);
    if dev is Some {
        let off = model::rxvlan_off(a, dev->0);
        lemma_next_ethtool_goes_on(a, off, without_dev, v.pending);
        lemma_next_ethtool_goes_on(
            a,
            actions + model::rxvlan_off(a, a.ifname) + off,
            with_dev,
            v.pending,
        );
    }
}

proof fn lemma_vfs_go_on(s: AppView, reply: ReplyView)
    requires
        stage(s.phase) == 0,
        s.phase != PhaseView::Done,
    ensures
        goes_on(s.known, model::step(s, reply), (answers_left(s.phase) - 1) as nat),
{
    let a = s.known;
    match s.phase {
        PhaseView::Netdev(v) => {
            lemma_netdev_goes_on(a, v, model::existing_of(reply));
        },
        PhaseView::NetdevAgain(v) => {
            lemma_netdev_goes_on(a, v, model::existing_of(reply));
        },
        PhaseView::Address { ready } => {
            lemma_next_ip_goes_on(a, Seq::empty(), None, ready);
        },
        PhaseView::Device { address, ready } => {
            let prefix = model::prefix_from(Some(address), model::text_of(reply));
            lemma_next_ip_goes_on(a, model::prefix_actions(a, prefix), prefix, ready);
        },
        PhaseView::AdminMac(v) => {
            let idx = v.vf.idx as nat;
            lemma_next_ip_goes_on(
                a,
                model::asked_mac_actions(a, v.prefix, idx, model::captured(reply))
                    + model::bounce_actions(a, idx),
                v.prefix,
                v.pending,
            );
        },
        _ => {},
    }
}

proof fn lemma_directory_goes_on(s: AppView, reply: ReplyView)
    requires
        s.phase == PhaseView::Directory,
    ensures
        goes_on(
            s.known,
            model::step(s, reply),
            2 + 3 * vf::indices_of(model::names_of(reply)).len(),
        ),
{
    lemma_next_ethtool_goes_on(
        s.known,
        Seq::empty(),
        Seq::empty(),
        vf::indices_of(model::names_of(reply)),
    );
}

/// Whether a run goes on from `s` to `next` and still asks before it comes to its virtual functions.
spec fn asks_first(s: AppView, next: StepView) -> bool {
    &&& next.query is Some
    &&& only_shows(s.known, next.query)
    &&& !reads_file(next)
    &&& next.app.phase != PhaseView::Done
    &&& stage(next.app.phase) < stage(s.phase)
    &&& s.phase != PhaseView::LinkProps ==> next.app.known == s.known
}

proof fn lemma_first_steps(s: AppView, reply: ReplyView)
    requires
        stage(s.phase) > 1,
    ensures
        asks_first(s, model::step(s, reply)),
{
}

/// Only the properties of the link change what a run knows.
pub proof fn law_settings_are_fixed(s: AppView, reply: ReplyView)
    requires
        s.phase != PhaseView::LinkProps,
    ensures
        model::step(s, reply).app.known == s.known,
{
    if stage(s.phase) > 1 {
        lemma_first_steps(s, reply);
    } else if s.phase == PhaseView::Directory {
        lemma_directory_goes_on(s, reply);
    } else if s.phase != PhaseView::Done {
        lemma_vfs_go_on(s, reply);
    }
}

/// The commands that a run has the host answer with change nothing: they only show something.
pub proof fn law_queries_only_read(s: AppView, reply: ReplyView)
    ensures
        only_shows(s.known, model::step(s, reply).query),
{
    if stage(s.phase) > 1 {
        lemma_first_steps(s, reply);
    } else if s.phase == PhaseView::Directory {
        lemma_directory_goes_on(s, reply);
    } else if s.phase != PhaseView::Done {
        lemma_vfs_go_on(s, reply);
    }
}

/// The addresses of the virtual functions are derived from the one that the physical function is
/// given: the only file that a run reads is that of the physical function's address, it reads it
/// right after what ip does for the physical function, and once it has come to ip it reads it no
/// more.
pub proof fn law_address_is_read_after_it_is_set(s: AppView, reply: ReplyView)
    ensures
        reads_file(model::step(s, reply)) ==> !at_ip(s.phase) && reads_in_time(
            s.known,
            model::step(s, reply),
        ),
{
    if stage(s.phase) > 1 {
        lemma_first_steps(s, reply);
    } else if s.phase == PhaseView::Directory {
        lemma_directory_goes_on(s, reply);
    } else if s.phase != PhaseView::Done {
        lemma_vfs_go_on(s, reply);
        if at_ip(s.phase) {
            lemma_runs_only_admits(s.known, "ip"@);
            lemma_ip_step(s, reply, runs_only("ip"@));
        }
    }
}

/// Every run comes to its end: each answer brings it nearer to its virtual functions, or leaves it
/// fewer answers to ask for there. It is over when it asks nothing.
pub proof fn law_every_answer_brings_a_run_on(s: AppView, reply: ReplyView)
    ensures
        ({
            let next = model::step(s, reply);
            &&& next.query is None <==> next.app.phase == PhaseView::Done
            &&& s.phase != PhaseView::Done ==> {
                ||| stage(next.app.phase) < stage(s.phase)
                ||| stage(next.app.phase) == stage(s.phase) && answers_left(next.app.phase)
                    < answers_left(s.phase)
            }
        }),
{
    if stage(s.phase) > 1 {
        lemma_first_steps(s, reply);
    } else if s.phase == PhaseView::Directory {
        lemma_directory_goes_on(s, reply);
    } else if s.phase != PhaseView::Done {
        lemma_vfs_go_on(s, reply);
    }
}

/// The last thing that a run does is to say that it is complete; once it is over, it does nothing.
pub proof fn law_completion_comes_last(s: AppView, reply: ReplyView)
    requires
        model::step(s, reply).query is None,
    ensures
        s.phase != PhaseView::Done ==> {
            let actions = model::step(s, reply).actions;
            actions.len() > 0 && actions.last() == completion(s.known)
        },
        s.phase == PhaseView::Done ==> model::step(s, reply).actions.len() == 0,
{
    if stage(s.phase) > 1 {
        lemma_first_steps(s, reply);
    } else if s.phase == PhaseView::Directory {
        lemma_directory_goes_on(s, reply);
    } else if s.phase != PhaseView::Done {
        lemma_vfs_go_on(s, reply);
    }
}

/// The indices of the virtual functions `vfs`.
pub open spec fn indices(vfs: Seq<VfView>) -> Seq<usize> {
    vfs.map_values(|vf: VfView| vf.idx)
}

/// The indices of the virtual functions that a run is among: while it uses ethtool, all of them;
/// while it uses ip, the one that it is at and those after it.
pub open spec fn vfs_in(phase: PhaseView) -> Option<Seq<usize>> {
    match phase {
        PhaseView::Netdev(v) => Some(indices(v.ready) + seq![v.idx] + v.pending),
        PhaseView::NetdevAgain(v) => Some(indices(v.ready) + seq![v.idx] + v.pending),
        PhaseView::Address { ready } => Some(indices(ready)),
        PhaseView::Device { ready, .. } => Some(indices(ready)),
        PhaseView::AdminMac(v) => Some(seq![v.vf.idx] + indices(v.pending)),
        _ => None,
    }
}

/// Whether the virtual functions that a run is among are in ascending order.
pub open spec fn in_ascending_order(phase: PhaseView) -> bool {
    match vfs_in(phase) {
        Some(s) => vf::ascending(s),
        None => true,
    }
}

proof fn lemma_next_ip_keeps(
    a: Known,
    actions: Seq<ActionView>,
    prefix: Option<Seq<char>>,
    vfs: Seq<VfView>,
)
    ensures
        vfs_in(model::to_next_ip(a, actions, prefix, vfs).app.phase) matches Some(s) ==> s
            == indices(vfs),
{
    if vfs.len() > 0 {
        assert(seq![vfs[0].idx] + indices(vfs.skip(1)) =~= indices(vfs));
    }
}

proof fn lemma_next_ethtool_keeps(
    a: Known,
    actions: Seq<ActionView>,
    ready: Seq<VfView>,
    pending: Seq<usize>,
)
    ensures
        vfs_in(model::to_next_ethtool(a, actions, ready, pending).app.phase) matches Some(s) ==> s
            == indices(ready) + pending,
{
    if pending.len() > 0 {
        assert(indices(ready) + seq![pending[0]] + pending.skip(1) =~= indices(ready) + pending);
    } else {
        lemma_next_ip_keeps(a, actions + model::pf_ip_actions(a), None, ready);
        assert(indices(ready) + pending =~= indices(ready));
    }
}

proof fn lemma_after_ethtool_keeps(
    a: Known,
    actions: Seq<ActionView>,
    v: EthtoolView,
    dev: Option<Seq<char>>,
)
    ensures
        vfs_in(model::after_ethtool(a, actions, v, dev).app.phase) matches Some(s) ==> s == indices(
            v.ready,
        ) + seq![v.idx] + v.pending,
{
    let ready = v.ready.push(VfView { idx: v.idx, dev });
    lemma_next_ethtool_keeps(a, actions, ready, v.pending);
    assert(indices(ready) =~= indices(v.ready) + seq![v.idx]);
}

proof fn lemma_netdev_keeps(a: Known, v: EthtoolView, existing: Seq<bool>)
    ensures
        vfs_in(model::after_netdev(a, v, existing).app.phase) matches Some(s) ==> s == indices(
            v.ready,
        ) + seq![v.idx] + v.pending,
        vfs_in(model::after_netdev_again(a, v, existing).app.phase) matches Some(s) ==> s
            == indices(v.ready) + seq![v.idx] + v.pending,
{
    let dev = model::first_existing(model::candidates(a, v.idx as nat), existing);
    let actions = model::vf_ethtool_actions(a, v.idx as nat, dev);
    lemma_after_ethtool_keeps(a, actions, v, dev);
    lemma_after_ethtool_keeps(a, Seq::empty(), v, None);
    if dev is Some {
        let off = model::rxvlan_off(a, dev->0);
        lemma_after_ethtool_keeps(a, off, v, None);
        lemma_after_ethtool_keeps(a, actions + model::rxvlan_off(a, a.ifname) + off, v, dev);
    }
}

proof fn lemma_admin_mac_keeps(a: Known, v: IpView, output: Option<Seq<char>>)
    ensures
        vfs_in(model::after_admin_mac(a, v, output).app.phase) matches Some(s) ==> s == (seq![
            v.vf.idx,
        ] + indices(v.pending)).skip(1),
{
    let idx = v.vf.idx as nat;
    assert((seq![v.vf.idx] + indices(v.pending)).skip(1) =~= indices(v.pending));
    lemma_next_ip_keeps(
        a,
        model::asked_mac_actions(a, v.prefix, idx, output) + model::bounce_actions(a, idx),
        v.prefix,
        v.pending,
    );
}

proof fn lemma_rest_ascends(s: Seq<usize>)
    requires
        vf::ascending(s),
        s.len() > 0,
    ensures
        vf::ascending(s.skip(1)),
{
    assert forall|i: int, j: int| 0 <= i < j < s.skip(1).len() implies s.skip(1)[i] < s.skip(1)[j] by {
        assert(s[i + 1] < s[j + 1]);
    }
}

/// The virtual functions come one after the other, in ascending order of their indices: ethtool goes
/// through all of them, and ip goes through them in the same order, from one to the next.
pub proof fn law_vfs_come_in_order(s: AppView, reply: ReplyView)
    requires
        in_ascending_order(s.phase),
    ensures
        in_ascending_order(model::step(s, reply).app.phase),
        (vfs_in(s.phase), vfs_in(model::step(s, reply).app.phase)) matches (
            Some(before),
            Some(after),
        ) ==> after == if s.phase is AdminMac {
            before.skip(1)
        } else {
            before
        },
{
    let a = s.known;
    match s.phase {
        PhaseView::Netdev(v) => {
            lemma_netdev_keeps(a, v, model::existing_of(reply));
        },
        PhaseView::NetdevAgain(v) => {
            lemma_netdev_keeps(a, v, model::existing_of(reply));
        },
        PhaseView::AdminMac(v) => {
            lemma_admin_mac_keeps(a, v, model::captured(reply));
            lemma_rest_ascends(seq![v.vf.idx] + indices(v.pending));
        },
        PhaseView::Address { ready } => {
            lemma_next_ip_keeps(a, Seq::empty(), None, ready);
        },
        PhaseView::Device { address, ready } => {
            let prefix = model::prefix_from(Some(address), model::text_of(reply));
            lemma_next_ip_keeps(a, model::prefix_actions(a, prefix), prefix, ready);
        },
        PhaseView::Directory => {
            let pending = vf::indices_of(model::names_of(reply));
            vf::law_indices_are_listed(model::names_of(reply));
            lemma_next_ethtool_keeps(a, Seq::empty(), Seq::empty(), pending);
            assert(indices(Seq::empty()) + pending =~= pending);
        },
        PhaseView::Done => {},
        _ => {
            lemma_first_steps(s, reply);
        },
    }
}

} // verus!
