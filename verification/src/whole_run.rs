//! A whole run, from beginning to end, on a host that does not change.
use vstd::prelude::*;

use crate::command::{ActionView, OutputView, QueryView, ReplyView};
use crate::laws;
use crate::model;
use crate::model::{EthtoolView, IpView, Known, PhaseView, StepView, VfView};
use crate::vf;

verus! {

/// A host that gives the same answers throughout a run: the properties of the link, the private
/// flags, the address and the device of the physical function, the names in the device's directory,
/// which paths exist, and the description of the link.
pub ghost struct HostView {
    pub properties: Option<Seq<char>>,
    pub flags: Option<Seq<char>>,
    pub address: Option<Seq<char>>,
    pub device: Option<Seq<char>>,
    pub names: Seq<Seq<char>>,
    pub exists: spec_fn(Seq<char>) -> bool,
    pub description: Option<Seq<char>>,
}

/// The reply that a command succeeded and wrote `output`, or that it failed.
pub open spec fn output_reply(output: Option<Seq<char>>) -> ReplyView {
    match output {
        Some(output) => ReplyView::Output(OutputView { success: true, output, rc: 0 }),
        None => ReplyView::Nothing,
    }
}

/// The reply that gives `t`, or nothing.
pub open spec fn text_reply(t: Option<Seq<char>>) -> ReplyView {
    match t {
        Some(text) => ReplyView::Text(text),
        None => ReplyView::Nothing,
    }
}

impl HostView {
    /// What the host answers.
    pub open spec fn answer(self, query: QueryView) -> ReplyView {
        match query {
            QueryView::Capture(command) => if command.program == "udevadm"@ {
                output_reply(self.properties)
            } else if command.program == "ethtool"@ {
                output_reply(self.flags)
            } else {
                output_reply(self.description)
            },
            QueryView::ReadFile(_) => text_reply(self.address),
            QueryView::TargetName(_) => text_reply(self.device),
            QueryView::ListDirectory(_) => ReplyView::Names(self.names),
            QueryView::Exist(paths) => ReplyView::Existing(paths.map_values(self.exists)),
        }
    }
}

/// All that is done from the step `s` on, with up to `n` answers of the host `h`.
pub open spec fn driven(s: StepView, h: HostView, n: nat) -> Seq<ActionView>
    decreases n,
{
    match s.query {
        Some(query) => if n > 0 {
            s.actions + driven(model::step(s.app, h.answer(query)), h, (n - 1) as nat)
        } else {
            s.actions
        },
        None => s.actions,
    }
}

/// The network device of virtual function `idx` on the host `h`.
pub open spec fn netdev_on(a: Known, h: HostView, idx: nat) -> Option<Seq<char>> {
    model::first_existing(
        model::candidates(a, idx),
        model::candidate_paths(a, idx).map_values(h.exists),
    )
}

/// What ethtool does for virtual function `idx`.
pub open spec fn vf_ethtool(a: Known, h: HostView, idx: nat) -> Seq<ActionView> {
    let dev = netdev_on(a, h, idx);
    model::vf_ethtool_actions(a, idx, dev) + laws::rxvlan_actions(a, idx, dev)
}

/// What ethtool does for the virtual functions `pending`.
pub open spec fn vfs_ethtool(a: Known, h: HostView, pending: Seq<usize>) -> Seq<ActionView>
    decreases pending.len(),
{
    if pending.len() == 0 {
        Seq::empty()
    } else {
        vf_ethtool(a, h, pending[0] as nat) + vfs_ethtool(a, h, pending.skip(1))
    }
}

/// The virtual functions `pending`, each with its network device.
pub open spec fn resolved(a: Known, h: HostView, pending: Seq<usize>) -> Seq<VfView> {
    pending.map_values(|idx: usize| VfView { idx, dev: netdev_on(a, h, idx as nat) })
}

/// What is done for the derived address of virtual function `idx`.
pub open spec fn mac_actions(
    a: Known,
    h: HostView,
    prefix: Option<Seq<char>>,
    idx: nat,
) -> Seq<ActionView> {
    if model::waits_for_mac(a, prefix) {
        model::asked_mac_actions(a, prefix, idx, h.description)
    } else {
        model::unasked_mac_actions(a, prefix, idx)
    }
}

/// What ip does for a virtual function: its properties, what every one gets and its own address,
/// its derived address, and the end of the workaround for its VLAN tags.
pub open spec fn vf_ip(a: Known, h: HostView, prefix: Option<Seq<char>>, vf: VfView) -> Seq<
    ActionView,
> {
    model::before_mac_actions(a, vf) + mac_actions(a, h, prefix, vf.idx as nat)
        + model::bounce_actions(a, vf.idx as nat)
}

/// What ip does for the virtual functions `vfs`, and what is said in the end.
pub open spec fn vfs_ip(
    a: Known,
    h: HostView,
    prefix: Option<Seq<char>>,
    vfs: Seq<VfView>,
) -> Seq<ActionView>
    decreases vfs.len(),
{
    if vfs.len() == 0 {
        seq![laws::completion(a)]
    } else {
        vf_ip(a, h, prefix, vfs[0]) + vfs_ip(a, h, prefix, vfs.skip(1))
    }
}

/// What the derived addresses begin with, on the host `h`.
pub open spec fn prefix_on(a: Known, h: HostView) -> Option<Seq<char>> {
    if a.settings.derive_vf_macs {
        model::prefix_from(h.address, h.device)
    } else {
        None
    }
}

/// What a run that begins with knowing `a` knows once the properties of the link are in force.
pub open spec fn informed(a: Known, h: HostView) -> Known {
    laws::informed_by(a, h.properties)
}

/// The first part of a run on the host `h` that begins with knowing `a`: a dry run lists the
/// properties; those of the physical function for ethtool come into force, its private flags are
/// set, and the asymmetry of the host path is worked against; then ethtool goes through the virtual
/// functions.
pub open spec fn ethtool_part(a: Known, h: HostView) -> Seq<ActionView> {
    let b = model::with_link_props(a, h.properties);
    let c = informed(a, h);
    (model::listing_actions(b) + model::pf_ethtool_actions(b)) + (model::default_flag_actions(
        c,
        model::flags_in(h.flags),
    ) + model::asym_actions(c)) + vfs_ethtool(c, h, vf::indices_of(h.names))
}

/// The second part: the properties of the physical function for its link come into force, the log
/// says what the derived addresses begin with, and then ip goes through the virtual functions.
pub open spec fn ip_part(a: Known, h: HostView) -> Seq<ActionView> {
    let c = informed(a, h);
    model::pf_ip_actions(c) + (model::prefix_actions(c, prefix_on(c, h)) + vfs_ip(
        c,
        h,
        prefix_on(c, h),
        resolved(c, h, vf::indices_of(h.names)),
    ))
}

/// All that is done in a run on the host `h` that begins with knowing `a`.
pub open spec fn whole_run(a: Known, h: HostView) -> Seq<ActionView> {
    ethtool_part(a, h) + ip_part(a, h)
}

/// What the host answers to each of the commands that only show something.
proof fn lemma_answers(a: Known, h: HostView)
    ensures
        model::captured(h.answer(model::link_props_query(a))) == h.properties,
        model::captured(h.answer(model::priv_flags_query(a))) == h.flags,
        model::captured(h.answer(model::admin_macs_query(a))) == h.description,
{
    reveal_strlit("udevadm");
    reveal_strlit("ethtool");
    reveal_strlit("ip");
    assert("ethtool"@[0] != "udevadm"@[0]);
    assert("ip"@.len() == 2 && "ethtool"@.len() == 7 && "udevadm"@.len() == 7);
}

proof fn lemma_add_assoc(a: Seq<ActionView>, b: Seq<ActionView>, c: Seq<ActionView>)
    ensures
        a + b + c == a + (b + c),
{
}

proof fn lemma_add_empty(a: Seq<ActionView>)
    ensures
        a + Seq::empty() == a,
        Seq::empty() + a == a,
{
}

/// Where no derived address waits for anything, ip goes through the virtual functions at once.
proof fn lemma_unasked_vfs(
    a: Known,
    h: HostView,
    prefix: Option<Seq<char>>,
    vfs: Seq<VfView>,
)
    requires
        !model::waits_for_mac(a, prefix),
    ensures
        model::unasked_vfs_actions(a, prefix, vfs) + seq![laws::completion(a)] == vfs_ip(a, h, prefix, vfs),
    decreases vfs.len(),
{
    let end = seq![laws::completion(a)];
    if vfs.len() == 0 {
        lemma_add_empty(end);
    } else {
        lemma_unasked_vfs(a, h, prefix, vfs.skip(1));
        lemma_add_assoc(
            model::unasked_vf_actions(a, prefix, vfs[0]),
            model::unasked_vfs_actions(a, prefix, vfs.skip(1)),
            end,
        );
    }
}

proof fn lemma_push_is_add(a: Seq<ActionView>, b: Seq<ActionView>, x: ActionView)
    ensures
        (a + b).push(x) == a + (b + seq![x]),
{
}

proof fn lemma_asked_order(
    actions: Seq<ActionView>,
    before: Seq<ActionView>,
    address: Seq<ActionView>,
    bounce: Seq<ActionView>,
    rest: Seq<ActionView>,
)
    ensures
        (actions + before) + ((address + bounce) + rest) == actions + ((before + address + bounce)
            + rest),
{
}

proof fn lemma_driven_next_ip(
    a: Known,
    h: HostView,
    actions: Seq<ActionView>,
    prefix: Option<Seq<char>>,
    vfs: Seq<VfView>,
    n: nat,
)
    requires
        n >= vfs.len(),
    ensures
        driven(model::to_next_ip(a, actions, prefix, vfs), h, n) == actions + vfs_ip(
            a,
            h,
            prefix,
            vfs,
        ),
    decreases vfs.len(),
{
    if vfs.len() > 0 && model::waits_for_mac(a, prefix) {
        let v = IpView { prefix, vf: vfs[0], pending: vfs.skip(1) };
        let idx = vfs[0].idx as nat;
        let address = model::asked_mac_actions(a, prefix, idx, h.description);
        let bounce = model::bounce_actions(a, idx);
        lemma_driven_next_ip(a, h, address + bounce, prefix, vfs.skip(1), (n - 1) as nat);
        lemma_answers(a, h);
        lemma_driven_step(
            model::to_next_ip(a, actions, prefix, vfs),
            model::after_admin_mac(a, v, h.description),
            h,
            n,
        );
        lemma_asked_order(
            actions,
            model::before_mac_actions(a, vfs[0]),
            address,
            bounce,
            vfs_ip(a, h, prefix, vfs.skip(1)),
        );
    } else {
        lemma_driven_unasked(a, h, actions, prefix, vfs, n);
    }
}

proof fn lemma_driven_unasked(
    a: Known,
    h: HostView,
    actions: Seq<ActionView>,
    prefix: Option<Seq<char>>,
    vfs: Seq<VfView>,
    n: nat,
)
    requires
        vfs.len() == 0 || !model::waits_for_mac(a, prefix),
    ensures
        driven(model::to_next_ip(a, actions, prefix, vfs), h, n) == actions + vfs_ip(
            a,
            h,
            prefix,
            vfs,
        ),
{
    if vfs.len() > 0 {
        lemma_unasked_vfs(a, h, prefix, vfs);
    } else {
        lemma_add_empty(seq![laws::completion(a)]);
    }
    lemma_push_is_add(
        actions,
        model::unasked_vfs_actions(a, prefix, vfs),
        laws::completion(a),
    );
}

/// What is said of the derived addresses, and what ip does for the virtual functions `vfs`.
spec fn ip_after_address(a: Known, h: HostView, vfs: Seq<VfView>) -> Seq<ActionView> {
    model::prefix_actions(a, prefix_on(a, h)) + vfs_ip(a, h, prefix_on(a, h), vfs)
}

/// What ip does, with the virtual functions `vfs`.
spec fn all_of_ip(a: Known, h: HostView, vfs: Seq<VfView>) -> Seq<ActionView> {
    model::pf_ip_actions(a) + ip_after_address(a, h, vfs)
}

proof fn lemma_driven_device(
    a: Known,
    h: HostView,
    address: Seq<char>,
    vfs: Seq<VfView>,
    n: nat,
)
    requires
        n >= vfs.len(),
        a.settings.derive_vf_macs,
        h.address == Some(address),
    ensures
        driven(model::after_device(a, address, vfs, h.device), h, n) == ip_after_address(a, h, vfs),
{
    let prefix = prefix_on(a, h);
    lemma_driven_next_ip(a, h, model::prefix_actions(a, prefix), prefix, vfs, n);
}

proof fn lemma_driven_no_address(a: Known, h: HostView, vfs: Seq<VfView>, n: nat)
    requires
        n >= vfs.len(),
        prefix_on(a, h) is None,
    ensures
        driven(model::to_next_ip(a, Seq::empty(), None, vfs), h, n) == ip_after_address(a, h, vfs),
{
    lemma_driven_next_ip(a, h, Seq::empty(), None, vfs, n);
}

proof fn lemma_driven_address(a: Known, h: HostView, vfs: Seq<VfView>, n: nat)
    requires
        n >= 1 + vfs.len(),
        a.settings.derive_vf_macs,
    ensures
        driven(model::after_address(a, vfs, h.address), h, n) == ip_after_address(a, h, vfs),
{
    match h.address {
        Some(address) => {
            let first = model::after_address(a, vfs, h.address);
            let second = model::after_device(a, address, vfs, h.device);
            assert(model::text_of(text_reply(h.device)) == h.device);
            lemma_driven_step(first, second, h, n);
            lemma_driven_device(a, h, address, vfs, (n - 1) as nat);
            lemma_add_empty(ip_after_address(a, h, vfs));
        },
        None => {
            lemma_driven_no_address(a, h, vfs, n);
        },
    }
}

proof fn lemma_driven_ip(
    a: Known,
    h: HostView,
    actions: Seq<ActionView>,
    vfs: Seq<VfView>,
    n: nat,
)
    requires
        n >= 2 + vfs.len(),
    ensures
        driven(model::to_ip(a, actions, vfs), h, n) == actions + all_of_ip(a, h, vfs),
{
    let link = model::pf_ip_actions(a);
    lemma_add_assoc(actions, link, ip_after_address(a, h, vfs));
    if a.settings.derive_vf_macs {
        assert(model::text_of(text_reply(h.address)) == h.address);
        lemma_driven_step(
            model::to_ip(a, actions, vfs),
            model::after_address(a, vfs, h.address),
            h,
            n,
        );
        lemma_driven_address(a, h, vfs, (n - 1) as nat);
    } else {
        lemma_driven_next_ip(a, h, actions + link, None, vfs, n);
        lemma_add_empty(vfs_ip(a, h, None, vfs));
    }
}

/// What is left to do for ethtool and then for ip, with `ready` the virtual functions that ethtool
/// is done with and `pending` those that it is not.
spec fn left_to_do(
    a: Known,
    h: HostView,
    ready: Seq<VfView>,
    pending: Seq<usize>,
) -> Seq<ActionView> {
    vfs_ethtool(a, h, pending) + all_of_ip(a, h, ready + resolved(a, h, pending))
}

proof fn lemma_left_to_do(a: Known, h: HostView, ready: Seq<VfView>, pending: Seq<usize>)
    ensures
        pending.len() == 0 ==> left_to_do(a, h, ready, pending) == all_of_ip(a, h, ready),
        pending.len() > 0 ==> left_to_do(a, h, ready, pending) == vf_ethtool(
            a,
            h,
            pending[0] as nat,
        ) + left_to_do(
            a,
            h,
            ready.push(VfView { idx: pending[0], dev: netdev_on(a, h, pending[0] as nat) }),
            pending.skip(1),
        ),
{
    if pending.len() == 0 {
        assert(ready + resolved(a, h, pending) =~= ready);
        lemma_add_empty(all_of_ip(a, h, ready));
    } else {
        let next = ready.push(VfView { idx: pending[0], dev: netdev_on(a, h, pending[0] as nat) });
        assert(ready + resolved(a, h, pending) =~= next + resolved(a, h, pending.skip(1)));
        lemma_add_assoc(
            vf_ethtool(a, h, pending[0] as nat),
            vfs_ethtool(a, h, pending.skip(1)),
            all_of_ip(a, h, ready + resolved(a, h, pending)),
        );
    }
}

proof fn lemma_driven_next_ethtool(
    a: Known,
    h: HostView,
    actions: Seq<ActionView>,
    ready: Seq<VfView>,
    pending: Seq<usize>,
    n: nat,
)
    requires
        n >= 2 + ready.len() + 3 * pending.len(),
    ensures
        driven(model::to_next_ethtool(a, actions, ready, pending), h, n) == actions + left_to_do(
            a,
            h,
            ready,
            pending,
        ),
    decreases pending.len(), 1nat,
{
    lemma_left_to_do(a, h, ready, pending);
    if pending.len() == 0 {
        lemma_driven_ip(a, h, actions, ready, n);
    } else {
        let v = EthtoolView { ready, idx: pending[0], pending: pending.skip(1) };
        let existing = model::candidate_paths(a, v.idx as nat).map_values(h.exists);
        lemma_driven_netdev(a, h, v, (n - 1) as nat);
        assert(h.answer(QueryView::Exist(model::candidate_paths(a, v.idx as nat)))
            == ReplyView::Existing(existing));
        lemma_driven_step(
            model::to_next_ethtool(a, actions, ready, pending),
            model::after_netdev(a, v, existing),
            h,
            n,
        );
    }
}

proof fn lemma_driven_netdev(a: Known, h: HostView, v: EthtoolView, n: nat)
    requires
        n >= v.ready.len() + 4 + 3 * v.pending.len(),
    ensures
        driven(
            model::after_netdev(
                a,
                v,
                model::candidate_paths(a, v.idx as nat).map_values(h.exists),
            ),
            h,
            n,
        ) == vf_ethtool(a, h, v.idx as nat) + left_to_do(
            a,
            h,
            v.ready.push(VfView { idx: v.idx, dev: netdev_on(a, h, v.idx as nat) }),
            v.pending,
        ),
    decreases v.pending.len(), 2nat,
{
    let idx = v.idx as nat;
    let dev = netdev_on(a, h, idx);
    let actions = model::vf_ethtool_actions(a, idx, dev);
    let ready = v.ready.push(VfView { idx: v.idx, dev });
    let rest = left_to_do(a, h, ready, v.pending);
    if !model::has_vlan_quirk(a, idx) {
        lemma_driven_next_ethtool(a, h, actions, ready, v.pending, n);
        lemma_add_empty(actions);
    } else {
        let off = model::rxvlan_off(a, a.ifname);
        match dev {
            Some(d) => {
                let other = model::rxvlan_off(a, d);
                lemma_driven_next_ethtool(a, h, actions + off + other, ready, v.pending, n);
                lemma_add_assoc(actions, off, other);
            },
            None => {
                let existing = model::candidate_paths(a, idx).map_values(h.exists);
                assert(h.answer(QueryView::Exist(model::candidate_paths(a, idx)))
                    == ReplyView::Existing(existing));
                lemma_driven_next_ethtool(
                    a,
                    h,
                    Seq::empty(),
                    ready,
                    v.pending,
                    (n - 1) as nat,
                );
                lemma_add_empty(rest);
            },
        }
    }
}

proof fn lemma_driven_priv_flags(a: Known, h: HostView, n: nat)
    requires
        n >= 3 + 3 * vf::indices_of(h.names).len(),
    ensures
        driven(model::after_priv_flags(a, h.flags), h, n) == (model::default_flag_actions(
            a,
            model::flags_in(h.flags),
        ) + model::asym_actions(a)) + left_to_do(a, h, Seq::empty(), vf::indices_of(h.names)),
{
    let pending = vf::indices_of(h.names);
    lemma_driven_step(
        model::after_priv_flags(a, h.flags),
        model::after_directory(a, h.names),
        h,
        n,
    );
    lemma_driven_next_ethtool(a, h, Seq::empty(), Seq::empty(), pending, (n - 1) as nat);
    lemma_add_empty(left_to_do(a, h, Seq::empty(), pending));
}

proof fn lemma_run_order(
    first: Seq<ActionView>,
    second: Seq<ActionView>,
    vfs: Seq<ActionView>,
    ip: Seq<ActionView>,
)
    ensures
        first + (second + (vfs + ip)) == first + second + vfs + ip,
{
}

proof fn lemma_driven_step(s: StepView, next: StepView, h: HostView, n: nat)
    requires
        n > 0,
        s.query is Some,
        model::step(s.app, h.answer(s.query->0)) == next,
    ensures
        driven(s, h, n) == s.actions + driven(next, h, (n - 1) as nat),
{
}

proof fn lemma_first_answers(a: Known, h: HostView)
    ensures
        ({
            let first = model::step(a.at(PhaseView::Start), ReplyView::Nothing);
            let second = model::after_link_props(a, h.properties);
            &&& first.query is Some
            &&& first.actions == Seq::<ActionView>::empty()
            &&& model::step(first.app, h.answer(first.query->0)) == second
            &&& second.query is Some
            &&& model::step(second.app, h.answer(second.query->0)) == model::after_priv_flags(
                informed(a, h),
                h.flags,
            )
            &&& second.actions == model::listing_actions(model::with_link_props(a, h.properties))
                + model::pf_ethtool_actions(model::with_link_props(a, h.properties))
        }),
{
    lemma_answers(a, h);
}

/// What a run does from beginning to end, on a host that gives the same answers throughout: given
/// answers enough, it does all of `whole_run`, in that order, and nothing else.
pub proof fn law_whole_run(a: Known, h: HostView, n: nat)
    requires
        n >= 5 + 3 * vf::indices_of(h.names).len(),
    ensures
        driven(model::step(a.at(PhaseView::Start), ReplyView::Nothing), h, n) == whole_run(a, h),
{
    let third = model::after_priv_flags(informed(a, h), h.flags);
    lemma_first_answers(a, h);
    lemma_driven_priv_flags(informed(a, h), h, (n - 2) as nat);
    lemma_whole_order(
        a,
        h,
        model::step(a.at(PhaseView::Start), ReplyView::Nothing),
        model::after_link_props(a, h.properties),
        third,
        n,
    );
}

/// What the first three steps of a run come to.
proof fn lemma_whole_order(
    a: Known,
    h: HostView,
    first: StepView,
    second: StepView,
    third: StepView,
    n: nat,
)
    requires
        n >= 2,
        first.query is Some,
        first.actions == Seq::<ActionView>::empty(),
        model::step(first.app, h.answer(first.query->0)) == second,
        second.query is Some,
        model::step(second.app, h.answer(second.query->0)) == third,
        second.actions == model::listing_actions(model::with_link_props(a, h.properties))
            + model::pf_ethtool_actions(model::with_link_props(a, h.properties)),
        driven(third, h, (n - 2) as nat) == (model::default_flag_actions(
            informed(a, h),
            model::flags_in(h.flags),
        ) + model::asym_actions(informed(a, h))) + left_to_do(
            informed(a, h),
            h,
            Seq::empty(),
            vf::indices_of(h.names),
        ),
    ensures
        driven(first, h, n) == whole_run(a, h),
{
    let c = informed(a, h);
    let pending = vf::indices_of(h.names);
    assert(Seq::<VfView>::empty() + resolved(c, h, pending) =~= resolved(c, h, pending));
    lemma_driven_step(first, second, h, n);
    lemma_driven_step(second, third, h, (n - 1) as nat);
    lemma_run_order(
        second.actions,
        model::default_flag_actions(c, model::flags_in(h.flags)) + model::asym_actions(c),
        vfs_ethtool(c, h, pending),
        ip_part(a, h),
    );
    lemma_add_empty(driven(second, h, (n - 1) as nat));
}

} // verus!
