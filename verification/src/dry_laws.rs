//! What a dry run says.
use vstd::prelude::*;

use crate::cli::CliToggles;
use crate::command;
use crate::command::{ActionView, ReplyView};
use crate::ethtool;
use crate::laws;
use crate::model;
use crate::model::{AppView, EthtoolView, Known, PhaseView, Settings, StepView, VfView};
use crate::props;
use crate::text;
use crate::vf;

verus! {

/// What a dry run says in place of `action`.
pub open spec fn said_for(action: ActionView) -> ActionView {
    match action {
        ActionView::Apply(c) => model::info("DRY: "@ + command::rendered(c)),
        ActionView::Log { .. } => action,
    }
}

/// What a dry run says in place of `actions`.
pub open spec fn said_for_all(actions: Seq<ActionView>) -> Seq<ActionView> {
    actions.map_values(|action: ActionView| said_for(action))
}

/// What `a` is where the command line says whether the run is dry.
pub open spec fn with_dry_run(a: Known, dry: bool) -> Known {
    Known {
        cli: CliToggles { dry_run: Some(dry), ..a.cli },
        settings: Settings { dry_run: dry, ..a.settings },
        ..a
    }
}

/// Whether `dry` is what `wet` is, but for being dry.
spec fn same_but_dry(wet: Known, dry: Known) -> bool {
    &&& !wet.settings.dry_run
    &&& dry.settings == Settings { dry_run: true, ..wet.settings }
    &&& dry.ifname == wet.ifname
    &&& dry.props == wet.props
    &&& dry.root == wet.root
}

broadcast proof fn lemma_said_for_add(a: Seq<ActionView>, b: Seq<ActionView>)
    ensures
        #[trigger] said_for_all(a + b) == said_for_all(a) + said_for_all(b),
{
    assert(said_for_all(a + b) =~= said_for_all(a) + said_for_all(b));
}

broadcast proof fn lemma_said_for_push(a: Seq<ActionView>, x: ActionView)
    ensures
        #[trigger] said_for_all(a.push(x)) == said_for_all(a).push(said_for(x)),
{
    assert(said_for_all(a.push(x)) =~= said_for_all(a).push(said_for(x)));
}

proof fn lemma_said_for_few()
    ensures
        said_for_all(Seq::empty()) == Seq::<ActionView>::empty(),
        forall|x: ActionView| #[trigger] said_for_all(seq![x]) == seq![said_for(x)],
{
    assert(said_for_all(Seq::empty()) =~= Seq::<ActionView>::empty());
    assert forall|x: ActionView| #[trigger] said_for_all(seq![x]) == seq![said_for(x)] by {
        assert(said_for_all(seq![x]) =~= seq![said_for(x)]);
    }
}

proof fn lemma_ethtool_said(wet: Known, dry: Known)
    requires
        same_but_dry(wet, dry),
    ensures
        forall|dev: Seq<char>, family: Seq<char>, raw: Seq<char>|
            #[trigger] model::ethtool_actions(dry, dev, family, raw) == said_for_all(
                model::ethtool_actions(wet, dev, family, raw),
            ),
        forall|dev: Seq<char>, family: Seq<char>, raw: Option<Seq<char>>|
            #[trigger] model::ethtool_if_set(dry, dev, family, raw) == said_for_all(
                model::ethtool_if_set(wet, dev, family, raw),
            ),
        forall|dev: Seq<char>|
            #[trigger] model::rxvlan_off(dry, dev) == said_for_all(model::rxvlan_off(wet, dev)),
        forall|flag: Seq<char>, value: Seq<char>|
            #[trigger] model::priv_flag(dry, flag, value) == said_for(
                model::priv_flag(wet, flag, value),
            ),
{
    lemma_said_for_few();
    assert forall|dev: Seq<char>, family: Seq<char>, raw: Seq<char>|
        #[trigger] model::ethtool_actions(dry, dev, family, raw) == said_for_all(
            model::ethtool_actions(wet, dev, family, raw),
        ) by {
        assert(ethtool::family_of(family) is Some || ethtool::family_of(family) is None);
    }
}

proof fn lemma_ip_said(wet: Known, dry: Known)
    requires
        same_but_dry(wet, dry),
    ensures
        forall|dev: Seq<char>, tokens: Seq<Seq<char>>|
            #[trigger] model::ip_dev_actions(dry, dev, tokens) == said_for_all(
                model::ip_dev_actions(wet, dev, tokens),
            ),
        forall|dev: Seq<char>, option: Seq<char>, value: Option<Seq<char>>|
            #[trigger] model::ip_dev_if_set(dry, dev, option, value) == said_for_all(
                model::ip_dev_if_set(wet, dev, option, value),
            ),
        forall|idx: nat, tokens: Seq<Seq<char>>|
            #[trigger] model::ip_vf_actions(dry, idx, tokens) == said_for_all(
                model::ip_vf_actions(wet, idx, tokens),
            ),
        forall|idx: nat, option: Seq<char>, value: Option<Seq<char>>|
            #[trigger] model::ip_vf_if_set(dry, idx, option, value) == said_for_all(
                model::ip_vf_if_set(wet, idx, option, value),
            ),
{
    lemma_said_for_few();
}

proof fn lemma_priv_flags_said(wet: Known, dry: Known, words: Seq<Seq<char>>)
    requires
        same_but_dry(wet, dry),
    ensures
        model::priv_flag_pairs(dry, words) == said_for_all(model::priv_flag_pairs(wet, words)),
    decreases words.len(),
{
    broadcast use lemma_said_for_add;

    lemma_said_for_few();
    lemma_ethtool_said(wet, dry);
    if words.len() >= 2 {
        lemma_priv_flags_said(wet, dry, words.skip(2));
    }
}

proof fn lemma_pf_ethtool_said(wet: Known, dry: Known)
    requires
        same_but_dry(wet, dry),
    ensures
        model::pf_ethtool_actions(dry) == said_for_all(model::pf_ethtool_actions(wet)),
{
    broadcast use lemma_said_for_add;

    lemma_said_for_few();
    lemma_ethtool_said(wet, dry);
    match props::lookup(wet.props, "I40E_PRIVFLAGS"@) {
        Some(flags) => {
            lemma_priv_flags_said(wet, dry, text::words(flags));
        },
        None => {},
    }
}

proof fn lemma_flags_said(wet: Known, dry: Known, flags: Seq<char>, prefix: Option<Seq<char>>)
    requires
        same_but_dry(wet, dry),
    ensures
        model::default_flag_actions(dry, flags) == said_for_all(
            model::default_flag_actions(wet, flags),
        ),
        model::asym_actions(dry) == said_for_all(model::asym_actions(wet)),
        model::prefix_actions(dry, prefix) == said_for_all(model::prefix_actions(wet, prefix)),
{
    broadcast use lemma_said_for_add;

    lemma_said_for_few();
    lemma_ethtool_said(wet, dry);
}

proof fn lemma_pf_ip_said(wet: Known, dry: Known)
    requires
        same_but_dry(wet, dry),
    ensures
        model::pf_ip_actions(dry) == said_for_all(model::pf_ip_actions(wet)),
{
    broadcast use lemma_said_for_add;

    lemma_ip_said(wet, dry);
}

proof fn lemma_vf_props_said(wet: Known, dry: Known, idx: nat, dev: Option<Seq<char>>)
    requires
        same_but_dry(wet, dry),
    ensures
        model::vf_handle_actions(dry, idx) == said_for_all(model::vf_handle_actions(wet, idx)),
        model::vf_ip_actions(dry, idx, dev) == said_for_all(model::vf_ip_actions(wet, idx, dev)),
        model::vf_asym_note(dry, idx) == said_for_all(model::vf_asym_note(wet, idx)),
{
    broadcast use lemma_said_for_add;

    lemma_said_for_few();
    lemma_ip_said(wet, dry);
}

proof fn lemma_macs_said(
    wet: Known,
    dry: Known,
    prefix: Option<Seq<char>>,
    idx: nat,
    output: Option<Seq<char>>,
)
    requires
        same_but_dry(wet, dry),
    ensures
        model::baseline_actions(dry, idx) == said_for_all(model::baseline_actions(wet, idx)),
        model::unasked_mac_actions(dry, prefix, idx) == said_for_all(
            model::unasked_mac_actions(wet, prefix, idx),
        ),
        model::asked_mac_actions(dry, prefix, idx, output) == said_for_all(
            model::asked_mac_actions(wet, prefix, idx, output),
        ),
        model::bounce_actions(dry, idx) == said_for_all(model::bounce_actions(wet, idx)),
{
    broadcast use {lemma_said_for_add, lemma_said_for_push};

    lemma_said_for_few();
    lemma_ip_said(wet, dry);
    assert forall|what: Seq<char>, m: Option<Seq<char>>|
        #[trigger] model::set_mac_actions(dry, idx, what, m) == said_for_all(
            model::set_mac_actions(wet, idx, what, m),
        ) by {
        assert(m is Some || m is None);
    }
}

proof fn lemma_before_mac_said(wet: Known, dry: Known, vf: VfView)
    requires
        same_but_dry(wet, dry),
    ensures
        model::before_mac_actions(dry, vf) == said_for_all(model::before_mac_actions(wet, vf)),
{
    let idx = vf.idx as nat;
    lemma_vf_props_said(wet, dry, idx, vf.dev);
    lemma_macs_said(wet, dry, None, idx, None);
    let handle = model::vf_handle_actions(wet, idx);
    let link = model::vf_ip_actions(wet, idx, vf.dev);
    let note = model::vf_asym_note(wet, idx);
    lemma_said_for_add(handle, link);
    lemma_said_for_add(handle + link, note);
    lemma_said_for_add(handle + link + note, model::baseline_actions(wet, idx));
}

proof fn lemma_unasked_vfs_said(
    wet: Known,
    dry: Known,
    prefix: Option<Seq<char>>,
    vfs: Seq<VfView>,
)
    requires
        same_but_dry(wet, dry),
    ensures
        model::unasked_vfs_actions(dry, prefix, vfs) == said_for_all(
            model::unasked_vfs_actions(wet, prefix, vfs),
        ),
    decreases vfs.len(),
{
    lemma_said_for_few();
    if vfs.len() > 0 {
        let idx = vfs[0].idx as nat;
        let before = model::before_mac_actions(wet, vfs[0]);
        let address = model::unasked_mac_actions(wet, prefix, idx);
        let bounce = model::bounce_actions(wet, idx);
        lemma_before_mac_said(wet, dry, vfs[0]);
        lemma_macs_said(wet, dry, prefix, idx, None);
        lemma_unasked_vfs_said(wet, dry, prefix, vfs.skip(1));
        lemma_said_for_add(before, address);
        lemma_said_for_add(before + address, bounce);
        lemma_said_for_add(
            before + address + bounce,
            model::unasked_vfs_actions(wet, prefix, vfs.skip(1)),
        );
    }
}

/// Whether `dry` is what `wet` is, but for being dry: what it says is said for what the other does,
/// and they ask for the same and go on alike.
spec fn alike(wet: StepView, dry: StepView) -> bool {
    &&& dry.actions == said_for_all(wet.actions)
    &&& dry.query == wet.query
    &&& dry.app.phase == wet.app.phase
    &&& same_but_dry(wet.app.known, dry.app.known)
}

proof fn lemma_next_ip_said(
    wet: Known,
    dry: Known,
    actions: Seq<ActionView>,
    prefix: Option<Seq<char>>,
    vfs: Seq<VfView>,
)
    requires
        same_but_dry(wet, dry),
    ensures
        alike(
            model::to_next_ip(wet, actions, prefix, vfs),
            model::to_next_ip(dry, said_for_all(actions), prefix, vfs),
        ),
{
    lemma_unasked_vfs_said(wet, dry, prefix, vfs);
    lemma_said_for_add(actions, model::unasked_vfs_actions(wet, prefix, vfs));
    lemma_said_for_push(
        actions + model::unasked_vfs_actions(wet, prefix, vfs),
        laws::completion(wet),
    );
    if vfs.len() > 0 {
        lemma_before_mac_said(wet, dry, vfs[0]);
        lemma_said_for_add(actions, model::before_mac_actions(wet, vfs[0]));
    }
}

proof fn lemma_next_ethtool_said(
    wet: Known,
    dry: Known,
    actions: Seq<ActionView>,
    ready: Seq<VfView>,
    pending: Seq<usize>,
)
    requires
        same_but_dry(wet, dry),
    ensures
        alike(
            model::to_next_ethtool(wet, actions, ready, pending),
            model::to_next_ethtool(dry, said_for_all(actions), ready, pending),
        ),
{
    if pending.len() > 0 {
        assert(model::candidate_paths(dry, pending[0] as nat) =~= model::candidate_paths(
            wet,
            pending[0] as nat,
        ));
    } else {
        let link = model::pf_ip_actions(wet);
        lemma_pf_ip_said(wet, dry);
        lemma_said_for_add(actions, link);
        lemma_next_ip_said(wet, dry, actions + link, None, ready);
    }
}

proof fn lemma_vf_ethtool_said(wet: Known, dry: Known, idx: nat, dev: Option<Seq<char>>)
    requires
        same_but_dry(wet, dry),
    ensures
        model::vf_ethtool_actions(dry, idx, dev) == said_for_all(
            model::vf_ethtool_actions(wet, idx, dev),
        ),
{
    broadcast use lemma_said_for_add;

    lemma_said_for_few();
    lemma_ethtool_said(wet, dry);
}

proof fn lemma_netdev_said(wet: Known, dry: Known, v: EthtoolView, existing: Seq<bool>)
    requires
        same_but_dry(wet, dry),
    ensures
        alike(model::after_netdev(wet, v, existing), model::after_netdev(dry, v, existing)),
{
    let idx = v.idx as nat;
    let dev = model::first_existing(model::candidates(wet, idx), existing);
    let actions = model::vf_ethtool_actions(wet, idx, dev);
    let ready = v.ready.push(VfView { idx: v.idx, dev });
    lemma_vf_ethtool_said(wet, dry, idx, dev);
    lemma_ethtool_said(wet, dry);
    if !model::has_vlan_quirk(wet, idx) {
        lemma_next_ethtool_said(wet, dry, actions, ready, v.pending);
    } else {
        let off = model::rxvlan_off(wet, wet.ifname);
        lemma_said_for_add(actions, off);
        match dev {
            Some(d) => {
                let other = model::rxvlan_off(wet, d);
                lemma_said_for_add(actions + off, other);
                lemma_next_ethtool_said(wet, dry, actions + off + other, ready, v.pending);
            },
            None => {
                assert(model::candidate_paths(dry, idx) =~= model::candidate_paths(wet, idx));
            },
        }
    }
}

proof fn lemma_netdev_again_said(wet: Known, dry: Known, v: EthtoolView, existing: Seq<bool>)
    requires
        same_but_dry(wet, dry),
    ensures
        alike(
            model::after_netdev_again(wet, v, existing),
            model::after_netdev_again(dry, v, existing),
        ),
{
    let ready = v.ready.push(VfView { idx: v.idx, dev: None });
    lemma_said_for_few();
    lemma_ethtool_said(wet, dry);
    match model::first_existing(model::candidates(wet, v.idx as nat), existing) {
        Some(dev) => {
            lemma_next_ethtool_said(wet, dry, model::rxvlan_off(wet, dev), ready, v.pending);
        },
        None => {
            lemma_next_ethtool_said(wet, dry, Seq::empty(), ready, v.pending);
        },
    }
}

proof fn lemma_step_said(wet: AppView, dry: AppView, reply: ReplyView)
    requires
        same_but_dry(wet.known, dry.known),
        dry.phase == wet.phase,
        wet.phase != PhaseView::Start,
        wet.phase != PhaseView::LinkProps,
    ensures
        alike(model::step(wet, reply), model::step(dry, reply)),
{
    let w = wet.known;
    let d = dry.known;
    lemma_said_for_few();
    match wet.phase {
        PhaseView::PrivFlags => {
            let flags = model::flags_in(model::captured(reply));
            lemma_flags_said(w, d, flags, None);
            lemma_said_for_add(model::default_flag_actions(w, flags), model::asym_actions(w));
        },
        PhaseView::Directory => {
            lemma_next_ethtool_said(
                w,
                d,
                Seq::empty(),
                Seq::empty(),
                vf::indices_of(model::names_of(reply)),
            );
        },
        PhaseView::Netdev(v) => {
            lemma_netdev_said(w, d, v, model::existing_of(reply));
        },
        PhaseView::NetdevAgain(v) => {
            lemma_netdev_again_said(w, d, v, model::existing_of(reply));
        },
        PhaseView::Address { ready } => {
            lemma_next_ip_said(w, d, Seq::empty(), None, ready);
        },
        PhaseView::Device { address, ready } => {
            let prefix = model::prefix_from(Some(address), model::text_of(reply));
            lemma_flags_said(w, d, Seq::empty(), prefix);
            lemma_next_ip_said(w, d, model::prefix_actions(w, prefix), prefix, ready);
        },
        PhaseView::AdminMac(v) => {
            let idx = v.vf.idx as nat;
            let output = model::captured(reply);
            let address = model::asked_mac_actions(w, v.prefix, idx, output);
            let bounce = model::bounce_actions(w, idx);
            lemma_macs_said(w, d, v.prefix, idx, output);
            lemma_said_for_add(address, bounce);
            lemma_next_ip_said(w, d, address + bounce, v.prefix, v.pending);
        },
        _ => {},
    }
}

proof fn lemma_late_steps(s: AppView, reply: ReplyView)
    requires
        s.phase != PhaseView::Start,
    ensures
        model::step(s, reply).app.phase != PhaseView::Start,
        model::step(s, reply).app.phase != PhaseView::LinkProps,
{
    laws::law_every_answer_brings_a_run_on(s, reply);
}

proof fn lemma_rest_said(wet: AppView, dry: AppView, replies: Seq<ReplyView>)
    requires
        same_but_dry(wet.known, dry.known),
        dry.phase == wet.phase,
        wet.phase != PhaseView::Start,
        wet.phase != PhaseView::LinkProps,
    ensures
        laws::actions_of(dry, replies) == said_for_all(laws::actions_of(wet, replies)),
    decreases replies.len(),
{
    lemma_said_for_few();
    if replies.len() > 0 {
        let next = model::step(wet, replies[0]);
        lemma_step_said(wet, dry, replies[0]);
        lemma_late_steps(wet, replies[0]);
        lemma_rest_said(next.app, model::step(dry, replies[0]).app, replies.skip(1));
        lemma_said_for_add(next.actions, laws::actions_of(next.app, replies.skip(1)));
    }
}

/// What a run does with the properties of the link, and what it knows then.
proof fn lemma_link_props_said(a: Known, output: Option<Seq<char>>)
    ensures
        ({
            let wet = model::after_link_props(with_dry_run(a, false), output);
            let dry = model::after_link_props(with_dry_run(a, true), output);
            &&& same_but_dry(wet.app.known, dry.app.known)
            &&& wet.app.phase == PhaseView::PrivFlags
            &&& dry.app.phase == PhaseView::PrivFlags
            &&& dry.actions == model::listing_actions(
                model::with_link_props(with_dry_run(a, true), output),
            ) + said_for_all(wet.actions)
        }),
{
    let w = model::with_link_props(with_dry_run(a, false), output);
    let d = model::with_link_props(with_dry_run(a, true), output);
    lemma_informed_said(a, output);
    lemma_pf_ethtool_said(w, d);
    lemma_nothing_before(model::pf_ethtool_actions(w));
    lemma_link_props_step(with_dry_run(a, false), output);
    lemma_link_props_step(with_dry_run(a, true), output);
}

proof fn lemma_informed_said(a: Known, output: Option<Seq<char>>)
    ensures
        same_but_dry(
            model::with_link_props(with_dry_run(a, false), output),
            model::with_link_props(with_dry_run(a, true), output),
        ),
        same_but_dry(
            laws::informed_by(with_dry_run(a, false), output),
            laws::informed_by(with_dry_run(a, true), output),
        ),
{
}

proof fn lemma_link_props_step(a: Known, output: Option<Seq<char>>)
    ensures
        ({
            let b = model::with_link_props(a, output);
            let next = model::after_link_props(a, output);
            &&& next.app == laws::informed_by(a, output).at(PhaseView::PrivFlags)
            &&& next.actions == model::listing_actions(b) + model::pf_ethtool_actions(b)
            &&& !b.settings.dry_run ==> model::listing_actions(b) == Seq::<ActionView>::empty()
        }),
{
}

/// What a dry run lists first, once it has the properties of the link by `replies`.
pub open spec fn listing_by(a: Known, replies: Seq<ReplyView>) -> Seq<ActionView> {
    if replies.len() < 2 {
        Seq::empty()
    } else {
        model::listing_actions(model::with_link_props(a, model::captured(replies[1])))
    }
}

/// A dry run says what would be run: whatever the host answers, it lists the properties, and then
/// writes to the log what a run with the same answers does that is not dry, each command with
/// `DRY:` before it, in the same order.
pub proof fn law_dry_run_says_what_would_be_run(a: Known, replies: Seq<ReplyView>)
    ensures
        ({
            let dry = with_dry_run(a, true);
            let wet = with_dry_run(a, false);
            laws::actions_of(dry.at(PhaseView::Start), replies) == listing_by(dry, replies)
                + said_for_all(laws::actions_of(wet.at(PhaseView::Start), replies))
        }),
{
    let dry = with_dry_run(a, true);
    let wet = with_dry_run(a, false);
    lemma_said_for_few();
    if replies.len() >= 2 {
        let rest = replies.skip(1).skip(1);
        let output = model::captured(replies[1]);
        let w = model::after_link_props(wet, output);
        let d = model::after_link_props(dry, output);
        assert(replies.skip(1)[0] == replies[1]);
        lemma_link_props_said(a, output);
        lemma_rest_said(w.app, d.app, rest);
        lemma_beginning(wet, replies);
        lemma_beginning(dry, replies);
        lemma_said_order(listing_by(dry, replies), w.actions, laws::actions_of(w.app, rest));
    } else {
        lemma_short(wet, replies);
        lemma_short(dry, replies);
    }
}

proof fn lemma_short(a: Known, replies: Seq<ReplyView>)
    requires
        replies.len() < 2,
    ensures
        laws::actions_of(a.at(PhaseView::Start), replies) == Seq::<ActionView>::empty(),
{
    reveal_with_fuel(laws::actions_of, 2);
}

proof fn lemma_beginning(a: Known, replies: Seq<ReplyView>)
    requires
        replies.len() >= 2,
    ensures
        ({
            let next = model::after_link_props(a, model::captured(replies[1]));
            laws::actions_of(a.at(PhaseView::Start), replies) == next.actions + laws::actions_of(
                next.app,
                replies.skip(1).skip(1),
            )
        }),
{
    let first = model::step(a.at(PhaseView::Start), replies[0]);
    assert(replies.skip(1)[0] == replies[1]);
    assert(laws::actions_of(a.at(PhaseView::Start), replies) == first.actions + laws::actions_of(
        first.app,
        replies.skip(1),
    ));
    lemma_nothing_before(laws::actions_of(first.app, replies.skip(1)));
}

proof fn lemma_nothing_before(actions: Seq<ActionView>)
    ensures
        Seq::empty() + actions == actions,
{
}

proof fn lemma_said_order(
    listing: Seq<ActionView>,
    first: Seq<ActionView>,
    rest: Seq<ActionView>,
)
    ensures
        (listing + said_for_all(first)) + said_for_all(rest) == listing + said_for_all(first + rest),
{
    lemma_said_for_add(first, rest);
}

} // verus!
