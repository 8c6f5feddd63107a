//! A run for one physical function.
use vstd::prelude::*;
use vstd::string::*;

use crate::cli::{CliOptions, CliToggles};
use crate::command;
use crate::command::{
    render_command, Action, CommandLine, CommandOutput, Level, LogEntry, Plan, Query, Reply,
};
use crate::ethtool::{ethtool_family_short, is_ethtool_family_token, normalize_on_off};
use crate::mac::{derive_mac_prefix_from, is_hex_mac, sanitize_llaa_unicast};
use crate::model;
use crate::model::{AppView, EthtoolView, IpView, Known, PhaseView, Settings, StepView, VfView};
use crate::number;
use crate::number::{decimal_text, hex_octet_text, read_hex_byte};
use crate::props;
use crate::props::{parse_property, PropMap};
use crate::text;
use crate::text::{
    append_texts, chars_of, concat, concat3, contains_text, lines, push_text, same_text,
    split_tokens, starts_with, trim, two_texts,
};
use crate::vf::{parse_vf_admin_mac, trim_np_suffix, vf_indices};

verus! {

/// Where a run stands: what it waits for.
#[derive(Debug)]
enum Phase {
    Start,
    LinkProps,
    PrivFlags,
    Directory,
    Netdev(EthtoolCursor),
    NetdevAgain(EthtoolCursor),
    Address(Vec<Vf>),
    Device(String, Vec<Vf>),
    AdminMac(IpCursor),
    Done,
}

/// A virtual function and its network device.
#[derive(Debug)]
struct Vf {
    idx: usize,
    dev: Option<String>,
}

impl Vf {
    spec fn vf_view(self) -> VfView {
        VfView { idx: self.idx, dev: text::optional_text(self.dev) }
    }
}

/// The content of each of `vfs`.
spec fn vf_views(vfs: Seq<Vf>) -> Seq<VfView> {
    vfs.map_values(|vf: Vf| vf.vf_view())
}

/// Where a run is among the virtual functions while it uses ethtool.
#[derive(Debug)]
struct EthtoolCursor {
    ready: Vec<Vf>,
    idx: usize,
    pending: Vec<usize>,
}

impl EthtoolCursor {
    spec fn cursor_view(self) -> EthtoolView {
        EthtoolView {
            ready: vf_views(self.ready@),
            idx: self.idx,
            pending: self.pending@,
        }
    }
}

/// Where a run is among the virtual functions while it uses ip.
#[derive(Debug)]
struct IpCursor {
    prefix: Option<String>,
    vf: Vf,
    pending: Vec<Vf>,
}

impl IpCursor {
    spec fn cursor_view(self) -> IpView {
        IpView {
            prefix: text::optional_text(self.prefix),
            vf: self.vf.vf_view(),
            pending: vf_views(self.pending@),
        }
    }
}

/// A copy of an optional text.
fn copy_text(s: &Option<String>) -> (r: Option<String>)
    ensures
        text::optional_text(r) == text::optional_text(*s),
{
    match s {
        Some(t) => Some(t.clone()),
        None => None,
    }
}

impl Phase {
    spec fn phase_view(self) -> PhaseView {
        match self {
            Phase::Start => PhaseView::Start,
            Phase::LinkProps => PhaseView::LinkProps,
            Phase::PrivFlags => PhaseView::PrivFlags,
            Phase::Directory => PhaseView::Directory,
            Phase::Netdev(v) => PhaseView::Netdev(v.cursor_view()),
            Phase::NetdevAgain(v) => PhaseView::NetdevAgain(v.cursor_view()),
            Phase::Address(vfs) => PhaseView::Address { ready: vf_views(vfs@) },
            Phase::Device(address, vfs) => PhaseView::Device {
                address: address@,
                ready: vf_views(vfs@),
            },
            Phase::AdminMac(v) => PhaseView::AdminMac(v.cursor_view()),
            Phase::Done => PhaseView::Done,
        }
    }
}

/// A run for one physical function: what it knows and where it stands.
#[derive(Debug)]
pub struct App {
    ifname: String,
    i40e_env: PropMap,
    sys_class_net_root: String,
    cli_toggles: CliToggles,
    settled: CliToggles,
    settings: Settings,
    phase: Phase,
}

impl View for App {
    type V = AppView;

    closed spec fn view(&self) -> AppView {
        AppView {
            known: Known {
                ifname: self.ifname@,
                props: self.i40e_env@,
                root: self.sys_class_net_root@,
                cli: self.cli_toggles,
                settled: self.settled,
                settings: self.settings,
            },
            phase: self.phase.phase_view(),
        }
    }
}

/// The settings of one virtual function that matter beyond its other properties.
#[derive(Debug)]
pub struct VfSettings {
    /// Its network device.
    pub dev: Option<String>,
    /// The administrative address that its properties give.
    pub mac: Option<String>,
    /// What asks for the VLAN workaround.
    pub q_vlan: Option<String>,
    /// What asks for the workaround of the host path.
    pub q_asym: Option<String>,
}

/// What is done for the properties of a device: first with ethtool, and later with ip.
#[derive(Debug)]
pub struct PropPlans {
    pub ethtool: Plan,
    pub ip: Plan,
}

/// What comes of a reply: what is to be done now, in order, and what is asked after that. Where
/// nothing is asked, the run is over.
#[derive(Debug)]
pub struct Step {
    pub plan: Plan,
    pub query: Option<Query>,
}

impl Step {
    /// This step, as one that leaves a run in the state `app`.
    pub open spec fn leading_to(self, app: AppView) -> StepView {
        StepView {
            app,
            actions: self.plan@,
            query: match self.query {
                Some(query) => Some(query@),
                None => None,
            },
        }
    }
}

/// The value of the first of `vars` with the name `name`.
pub fn env_var<'a>(vars: &'a Vec<(String, String)>, name: &str) -> (r: Option<&'a String>)
    ensures
        match r {
            Some(value) => model::var_in(props::pair_texts(vars@), name@) == Some(value@),
            None => model::var_in(props::pair_texts(vars@), name@) is None,
        },
{
    let ghost all = props::pair_texts(vars@);
    let mut i: usize = 0;
    assert(all.skip(0) =~= all);
    while i < vars.len()
        invariant
            i <= vars@.len(),
            all == props::pair_texts(vars@),
            model::var_in(all, name@) == model::var_in(all.skip(i as int), name@),
        decreases vars@.len() - i,
    {
        assert(all.skip(i as int)[0] == (vars@[i as int].0@, vars@[i as int].1@));
        assert(all.skip(i as int).skip(1) =~= all.skip(i + 1));
        if same_text(vars[i].0.as_str(), name) {
            return Some(&vars[i].1);
        }
        i = i + 1;
    }
    None
}

/// What the variable `name` says: `1` is on, and all else is off.
pub fn env_toggle(vars: &Vec<(String, String)>, name: &str) -> (r: Option<bool>)
    ensures
        r == model::said(model::var_in(props::pair_texts(vars@), name@)),
{
    match env_var(vars, name) {
        Some(value) => Some(same_text(value.as_str(), "1")),
        None => None,
    }
}

/// The properties among `vars`.
pub fn env_props(vars: &Vec<(String, String)>) -> (r: PropMap)
    ensures
        r@ == model::props_in(props::pair_texts(vars@)),
{
    let ghost all = props::pair_texts(vars@);
    let mut out = PropMap::new();
    let mut i: usize = 0;
    while i < vars.len()
        invariant
            i <= vars@.len(),
            all == props::pair_texts(vars@),
            out@ == model::props_in(all.take(i as int)),
        decreases vars@.len() - i,
    {
        assert(all.take(i + 1).last() == (vars@[i as int].0@, vars@[i as int].1@));
        assert(all.take(i + 1).drop_last() =~= all.take(i as int));
        if starts_with(vars[i].0.as_str(), "I40E_") {
            out.insert(vars[i].0.clone(), vars[i].1.clone());
        }
        i = i + 1;
    }
    assert(all.take(i as int) =~= all);
    out
}

/// What the property `key` of `properties` says.
fn prop_toggle(properties: &PropMap, key: &str) -> (r: Option<bool>)
    ensures
        r == model::said(props::lookup(properties@, key@)),
{
    match properties.get(key) {
        Some(value) => Some(same_text(value, "1")),
        None => None,
    }
}

/// What the variable `name` settles: what it says, unless the property `key` of the environment says
/// something.
fn settled_toggle(
    properties: &PropMap,
    key: &str,
    vars: &Vec<(String, String)>,
    name: &str,
) -> (r: Option<bool>)
    ensures
        r == match model::said(props::lookup(properties@, key@)) {
            Some(_) => None,
            None => model::said(model::var_in(props::pair_texts(vars@), name@)),
        },
{
    match prop_toggle(properties, key) {
        Some(_) => None,
        None => env_toggle(vars, name),
    }
}

/// Whether `value` is `1`.
fn is_one(value: &Option<String>) -> (r: bool)
    ensures
        r == (text::optional_text(*value) == Some("1"@)),
{
    match value {
        Some(v) => same_text(v.as_str(), "1"),
        None => false,
    }
}

/// `given`, where something was given; else `otherwise`.
fn given_or(given: Option<bool>, otherwise: bool) -> (r: bool)
    ensures
        r == model::or_else(given, otherwise),
{
    match given {
        Some(value) => value,
        None => otherwise,
    }
}

/// `path` taken from the directory `base`.
pub fn join_path(base: &str, path: &str) -> (r: String)
    ensures
        r@ == model::joined(base@, path@),
{
    if !path.is_empty() && path.get_char(0) == '/' {
        return path.to_owned();
    }
    let mut out = base.to_owned();
    if !base.is_empty() && base.get_char(base.unicode_len() - 1) != '/' {
        out.push('/');
        assert(out@ =~= base@ + seq!['/']);
    }
    out.append(path);
    out
}

impl Reply {
    /// How a command ended, where the reply says that.
    fn output(self) -> (r: Option<CommandOutput>)
        ensures
            model::success_output(command::optional_output(r)) == model::captured(self@),
    {
        match self {
            Reply::Output(output) => Some(output),
            _ => None,
        }
    }

    /// The text that the reply gives.
    fn text(self) -> (r: Option<String>)
        ensures
            text::optional_text(r) == model::text_of(self@),
    {
        match self {
            Reply::Text(t) => Some(t),
            _ => None,
        }
    }

    /// The names that the reply gives.
    fn names(self) -> (r: Vec<String>)
        ensures
            text::texts(r@) == model::names_of(self@),
    {
        match self {
            Reply::Names(names) => names,
            _ => {
                let none: Vec<String> = Vec::new();
                assert(text::texts(none@) =~= Seq::<Seq<char>>::empty());
                none
            },
        }
    }

    /// Which paths exist by the reply.
    fn existing(self) -> (r: Vec<bool>)
        ensures
            r@ == model::existing_of(self@),
    {
        match self {
            Reply::Existing(existing) => existing,
            _ => Vec::new(),
        }
    }
}

proof fn lemma_nothing_before(none: Seq<command::ActionView>, rest: Seq<command::ActionView>)
    requires
        none.len() == 0,
    ensures
        none + rest == rest,
{
}

proof fn lemma_nothing_after(done: Seq<command::ActionView>, none: Seq<command::ActionView>)
    requires
        none.len() == 0,
    ensures
        done + none == done,
{
}

proof fn lemma_one_more(
    done: Seq<command::ActionView>,
    next: Seq<command::ActionView>,
    rest: Seq<command::ActionView>,
)
    ensures
        done + (next + rest) == (done + next) + rest,
{
}

impl App {
    /// A run for what `options` asks, in an environment with the variables `vars`.
    pub fn new(options: CliOptions, vars: &Vec<(String, String)>) -> (r: App)
        ensures
            r@ == model::initial(
                options.ifname@,
                options.toggles,
                props::pair_texts(vars@),
            ).at(PhaseView::Start),
    {
        let properties = env_props(vars);
        let settled = CliToggles {
            dry_run: env_toggle(vars, "DRY_RUN"),
            derive_vf_macs: settled_toggle(
                &properties,
                "I40E_DERIVE_VF_MACS",
                vars,
                "DERIVE_VF_MACS",
            ),
            skip_if_vf_mac_set: settled_toggle(
                &properties,
                "I40E_SKIP_IF_VF_MAC_SET",
                vars,
                "SKIP_IF_VF_MAC_SET",
            ),
            enable_vf_true_promisc: settled_toggle(
                &properties,
                "I40E_ENABLE_VF_TRUE_PROMISC",
                vars,
                "ENABLE_VF_TRUE_PROMISC",
            ),
            disable_fw_lldp: settled_toggle(
                &properties,
                "I40E_DISABLE_FW_LLDP",
                vars,
                "DISABLE_FW_LLDP",
            ),
            asym_quirk: settled_toggle(&properties, "I40E_ASYM_QUIRK", vars, "ASYM_QUIRK"),
            vlan_quirk: settled_toggle(&properties, "I40E_VLAN_QUIRK", vars, "VLAN_QUIRK"),
        };
        let sys_class_net_root = match env_var(vars, "I40E_SYS_CLASS_NET_ROOT") {
            Some(root) => root.clone(),
            None => "/sys/class/net".to_owned(),
        };
        App {
            ifname: options.ifname,
            i40e_env: properties,
            sys_class_net_root,
            cli_toggles: options.toggles,
            settled,
            settings: Settings {
                dry_run: given_or(
                    options.toggles.dry_run,
                    given_or(env_toggle(vars, "DRY_RUN"), false),
                ),
                derive_vf_macs: given_or(env_toggle(vars, "DERIVE_VF_MACS"), true),
                skip_if_vf_mac_set: given_or(env_toggle(vars, "SKIP_IF_VF_MAC_SET"), true),
                enable_vf_true_promisc: given_or(env_toggle(vars, "ENABLE_VF_TRUE_PROMISC"), true),
                disable_fw_lldp: given_or(env_toggle(vars, "DISABLE_FW_LLDP"), true),
                asym_quirk: given_or(env_toggle(vars, "ASYM_QUIRK"), true),
                vlan_quirk: given_or(env_toggle(vars, "VLAN_QUIRK"), true),
            },
            phase: Phase::Start,
        }
    }

    /// The directory of the network device `ifname`.
    pub fn net_path(&self, ifname: &str) -> (r: String)
        ensures
            r@ == self@.known.net_path(ifname@),
    {
        join_path(self.sys_class_net_root.as_str(), ifname)
    }

    /// The value of the property `key`.
    pub fn prop(&self, key: &str) -> (r: Option<&str>)
        ensures
            match r {
                Some(value) => props::lookup(self@.known.props, key@) == Some(value@),
                None => props::lookup(self@.known.props, key@) is None,
            },
    {
        self.i40e_env.get(key)
    }

    /// A copy of the value of the property `key`.
    pub fn prop_owned(&self, key: &str) -> (r: Option<String>)
        ensures
            text::optional_text(r) == props::lookup(self@.known.props, key@),
    {
        match self.i40e_env.get(key) {
            Some(value) => Some(value.to_owned()),
            None => None,
        }
    }

    /// The value of the property `suffix` for virtual function `idx` alone.
    pub fn vf_specific(&self, idx: usize, suffix: &str) -> (r: Option<String>)
        ensures
            text::optional_text(r) == model::specific_value(self@.known, idx as nat, suffix@),
    {
        let mut key = "I40E_VF".to_owned();
        key.append(decimal_text(idx as u64).as_str());
        key.append("_");
        key.append(suffix);
        self.prop_owned(key.as_str())
    }

    /// The value of the property `suffix` for every virtual function.
    pub fn vf_global(&self, suffix: &str) -> (r: Option<String>)
        ensures
            text::optional_text(r) == model::global_value(self@.known, suffix@),
    {
        self.prop_owned(concat("I40E_VF_", suffix).as_str())
    }

    /// The value of the property `suffix` for virtual function `idx`: its own, or else that for
    /// every virtual function.
    pub fn vf_with_global(&self, idx: usize, suffix: &str) -> (r: Option<String>)
        ensures
            text::optional_text(r) == model::vf_value(self@.known, idx as nat, suffix@),
    {
        match self.vf_specific(idx, suffix) {
            Some(value) => Some(value),
            None => self.vf_global(suffix),
        }
    }

    // ---- Single steps ----

    /// What is done to have `program` run with `args`: a dry run only says that it would be run.
    pub fn run_apply(&self, program: &str, args: Vec<String>) -> (r: Action)
        ensures
            r@ == model::applied(self@.known, program@, text::texts(args@)),
    {
        if self.settings.dry_run {
            let shown = render_command(program, args.as_slice());
            Action::Log(
                LogEntry { level: Level::Info, message: concat("DRY: ", shown.as_str()) },
            )
        } else {
            Action::Apply(CommandLine { program: program.to_owned(), args })
        }
    }

    /// Sets the options `raw_args` of the ethtool family `family` on `dev`.
    pub fn apply_ethtool_tunables(&self, dev: &str, family: &str, raw_args: &str) -> (r: Plan)
        ensures
            r@ == model::ethtool_actions(self@.known, dev@, family@, raw_args@),
    {
        match ethtool_family_short(family) {
            None => {
                let mut message = "unknown ethtool family '".to_owned();
                message.append(family);
                message.append("' for ");
                message.append(dev);
                Plan::warning(message)
            },
            Some(short) => {
                let mut tokens = split_tokens(raw_args);
                let ghost words = text::texts(tokens@);
                if tokens.len() > 0 {
                    assert(words[0] == tokens@[0]@);
                    if is_ethtool_family_token(tokens[0].as_str()) {
                        tokens.remove(0);
                        assert(text::texts(tokens@) =~= words.skip(1));
                    }
                }
                assert(text::texts(tokens@) == model::arguments_in(raw_args@));
                if tokens.len() == 0 {
                    return Plan::new();
                }
                let mut args = two_texts(short, dev);
                append_texts(&mut args, tokens);
                Plan::one(self.run_apply("ethtool", args))
            },
        }
    }

    /// Sets `tokens` on the network device `dev`.
    pub fn apply_ip_dev_tokens(&self, dev: &str, tokens: Vec<String>) -> (r: Plan)
        ensures
            r@ == model::ip_dev_actions(self@.known, dev@, text::texts(tokens@)),
    {
        if tokens.len() == 0 {
            return Plan::new();
        }
        let mut args = two_texts("link", "set");
        push_text(&mut args, "dev");
        push_text(&mut args, dev);
        assert(text::texts(args@) =~= seq!["link"@, "set"@, "dev"@, dev@]);
        append_texts(&mut args, tokens);
        Plan::one(self.run_apply("ip", args))
    }

    /// Sets `tokens` on virtual function `idx`, through the physical function.
    pub fn apply_ip_vf_tokens(&self, idx: usize, tokens: Vec<String>) -> (r: Plan)
        ensures
            r@ == model::ip_vf_actions(self@.known, idx as nat, text::texts(tokens@)),
    {
        if tokens.len() == 0 {
            return Plan::new();
        }
        let mut args = two_texts("link", "set");
        push_text(&mut args, "dev");
        push_text(&mut args, self.ifname.as_str());
        push_text(&mut args, "vf");
        push_text(&mut args, decimal_text(idx as u64).as_str());
        assert(text::texts(args@) =~= seq![
            "link"@,
            "set"@,
            "dev"@,
            self@.known.ifname,
            "vf"@,
            number::decimal(idx as nat),
        ]);
        append_texts(&mut args, tokens);
        Plan::one(self.run_apply("ip", args))
    }

    /// Turns the stripping of VLAN tags off on `dev`.
    pub fn ensure_rxvlan_off(&self, dev: &str) -> (r: Plan)
        ensures
            r@ == model::rxvlan_off(self@.known, dev@),
    {
        self.apply_ethtool_tunables(dev, "K", "rxvlan off")
    }

    /// Sets the private flag `flag` of the physical function to `value`.
    fn set_priv_flag(&self, flag: &str, value: &str) -> (r: Action)
        ensures
            r@ == model::priv_flag(self@.known, flag@, value@),
    {
        let mut args = two_texts("--set-priv-flags", self.ifname.as_str());
        push_text(&mut args, flag);
        push_text(&mut args, value);
        assert(text::texts(args@) =~= seq!["--set-priv-flags"@, self@.known.ifname, flag@, value@]);
        self.run_apply("ethtool", args)
    }

    /// Sets the options of `family` on `dev`, where there are any.
    fn ethtool_if_set(&self, dev: &str, family: &str, raw: Option<String>) -> (r: Plan)
        ensures
            r@ == model::ethtool_if_set(self@.known, dev@, family@, text::optional_text(raw)),
    {
        match raw {
            Some(value) => self.apply_ethtool_tunables(dev, family, value.as_str()),
            None => Plan::new(),
        }
    }

    /// Sets `option` on the network device `dev`, where there is a value for it.
    fn ip_dev_if_set(&self, dev: &str, option: &str, value: Option<String>) -> (r: Plan)
        ensures
            r@ == model::ip_dev_if_set(self@.known, dev@, option@, text::optional_text(value)),
    {
        match value {
            Some(v) => self.apply_ip_dev_tokens(dev, two_texts(option, v.as_str())),
            None => Plan::new(),
        }
    }

    /// Sets `option` on virtual function `idx`, where there is a value for it.
    fn ip_vf_if_set(&self, idx: usize, option: &str, value: Option<String>) -> (r: Plan)
        ensures
            r@ == model::ip_vf_if_set(self@.known, idx as nat, option@, text::optional_text(value)),
    {
        match value {
            Some(v) => self.apply_ip_vf_tokens(idx, two_texts(option, v.as_str())),
            None => Plan::new(),
        }
    }

    // ---- The physical function ----

    /// What a command wrote, where it was started and succeeded.
    pub fn capture_success_output(outcome: Option<CommandOutput>) -> (r: Option<String>)
        ensures
            text::optional_text(r) == model::success_output(command::optional_output(outcome)),
    {
        match outcome {
            Some(o) => {
                if o.success {
                    Some(o.output)
                } else {
                    None
                }
            },
            None => None,
        }
    }

    /// Adds the properties of the link that `outcome`, how the query for them ended, gives. Those
    /// that are there already stay as they are.
    pub fn load_link_props(&mut self, outcome: Option<CommandOutput>)
        ensures
            final(self)@.phase == old(self)@.phase,
            final(self)@.known == model::with_link_props(
                old(self)@.known,
                model::success_output(command::optional_output(outcome)),
            ),
    {
        let output = match App::capture_success_output(outcome) {
            Some(output) => output,
            None => {
                return;
            },
        };
        let all = lines(output.as_str());
        let ghost every = text::texts(all@);
        let ghost before = self@;
        let mut i: usize = 0;
        while i < all.len()
            invariant
                i <= all@.len(),
                every == text::texts(all@),
                self@.phase == before.phase,
                self@.known == (Known {
                    props: props::with_lines(before.known.props, every.take(i as int)),
                    ..before.known
                }),
            decreases all@.len() - i,
        {
            assert(every.take(i + 1).last() == all@[i as int]@);
            assert(every.take(i + 1).drop_last() =~= every.take(i as int));
            if let Some((key, value)) = parse_property(all[i].as_str()) {
                if !self.i40e_env.contains_key(key.as_str()) {
                    self.i40e_env.insert(key, value);
                }
            }
            i = i + 1;
        }
        assert(every.take(i as int) =~= every);
    }

    /// What a dry run says first: the properties, in the order of their names.
    fn list_props(&self) -> (r: Plan)
        ensures
            r@ == model::listing_actions(self@.known),
    {
        let mut plan = Plan::new();
        if !self.settings.dry_run {
            return plan;
        }
        plan.info("DRY_RUN: Listing preset I40E_* environment variables:".to_owned());
        let entries = self.i40e_env.entries();
        let ghost pairs = props::pair_texts(entries@);
        let ghost head = plan@;
        assert(head =~= seq![
            model::info("DRY_RUN: Listing preset I40E_* environment variables:"@),
        ]);
        let mut i: usize = 0;
        while i < entries.len()
            invariant
                i <= entries@.len(),
                pairs == props::pair_texts(entries@),
                plan@ =~= head + model::listed(pairs.take(i as int)),
            decreases entries@.len() - i,
        {
            let ghost so_far = model::listed(pairs.take(i as int));
            assert(pairs[i as int] == (entries@[i as int].0@, entries@[i as int].1@));
            let mut message = "DRY_RUN: ".to_owned();
            message.append(entries[i].0.as_str());
            message.append("=\"");
            message.append(entries[i].1.as_str());
            message.append("\"");
            assert(model::listed(pairs.take(i + 1)) =~= so_far.push(model::info(message@)));
            plan.info(message);
            i = i + 1;
        }
        assert(pairs.take(i as int) =~= pairs);
        plan
    }

    /// Sets the private flags that `tokens` gives, each followed by its value.
    fn set_priv_flag_pairs(&self, tokens: &Vec<String>) -> (r: Plan)
        ensures
            r@ == model::priv_flag_pairs(self@.known, text::texts(tokens@)),
    {
        let ghost words = text::texts(tokens@);
        let mut plan = Plan::new();
        let mut i: usize = 0;
        assert(words.skip(0) =~= words);
        assert(plan@ + model::priv_flag_pairs(self@.known, words) =~= model::priv_flag_pairs(
            self@.known,
            words,
        ));
        while i < tokens.len() && tokens.len() - i >= 2
            invariant
                i <= tokens@.len(),
                words == text::texts(tokens@),
                plan@ + model::priv_flag_pairs(self@.known, words.skip(i as int))
                    == model::priv_flag_pairs(self@.known, words),
            decreases tokens@.len() - i,
        {
            let ghost rest = words.skip(i as int);
            let ghost before = plan@;
            assert(rest[0] == tokens@[i as int]@ && rest[1] == tokens@[i + 1]@);
            assert(rest.skip(2) =~= words.skip(i + 2));
            let action = self.set_priv_flag(tokens[i].as_str(), tokens[i + 1].as_str());
            plan.push(action);
            assert(plan@ + model::priv_flag_pairs(self@.known, rest.skip(2)) =~= before + (seq![action@]
                + model::priv_flag_pairs(self@.known, rest.skip(2))));
            i = i + 2;
        }
        assert(plan@ + model::priv_flag_pairs(self@.known, words.skip(i as int)) =~= plan@);
        plan
    }

    /// Sets the options of `family` on the physical function that the property `key` gives.
    fn pf_ethtool(&self, family: &str, key: &str) -> (r: Plan)
        ensures
            r@ == model::ethtool_if_set(
                self@.known,
                self@.known.ifname,
                family@,
                props::lookup(self@.known.props, key@),
            ),
    {
        self.ethtool_if_set(self.ifname.as_str(), family, self.prop_owned(key))
    }

    /// Sets `option` on the physical function to what the property `key` gives.
    fn pf_ip(&self, option: &str, key: &str) -> (r: Plan)
        ensures
            r@ == model::ip_dev_if_set(
                self@.known,
                self@.known.ifname,
                option@,
                props::lookup(self@.known.props, key@),
            ),
    {
        self.ip_dev_if_set(self.ifname.as_str(), option, self.prop_owned(key))
    }

    /// What is done for the ethtool properties of the physical function.
    fn pf_ethtool_plan(&self) -> (r: Plan)
        ensures
            r@ == model::pf_ethtool_actions(self@.known),
    {
        let mut plan = match self.prop("I40E_PRIVFLAGS") {
            Some(flags) => self.set_priv_flag_pairs(&split_tokens(flags)),
            None => Plan::new(),
        };
        plan.append(self.pf_ethtool("K", "I40E_PF_OFFLOAD"));
        plan.append(self.pf_ethtool("C", "I40E_PF_COALESCE"));
        plan.append(self.pf_ethtool("A", "I40E_PF_PAUSE"));
        plan.append(self.pf_ethtool("G", "I40E_PF_RINGS"));
        plan.append(self.pf_ethtool("L", "I40E_PF_CHANNELS"));
        plan.append(self.pf_ethtool("rss", "I40E_PF_RSS"));
        plan.append(self.pf_ethtool("rxfh", "I40E_PF_RXFH"));
        plan.append(self.pf_ethtool("N", "I40E_PF_NTUPLE"));
        plan
    }

    /// What is done for the link properties of the physical function.
    fn pf_ip_plan(&self) -> (r: Plan)
        ensures
            r@ == model::pf_ip_actions(self@.known),
    {
        let mut plan = self.pf_ip("txqueuelen", "I40E_PF_TXQUEUELEN");
        plan.append(self.pf_ip("alias", "I40E_PF_ALIAS"));
        plan.append(self.pf_ip("arp", "I40E_PF_ARP"));
        plan.append(self.pf_ip("multicast", "I40E_PF_MULTICAST"));
        plan.append(self.pf_ip("allmulticast", "I40E_PF_ALLMULTICAST"));
        plan.append(self.pf_ip("promisc", "I40E_PF_PROMISC"));
        plan.append(self.pf_ip("address", "I40E_PF_MAC"));
        plan.append(self.pf_ip("mtu", "I40E_PF_MTU"));
        plan
    }

    /// What the properties say of the setting that `key` switches, unless the environment has
    /// settled it, as `settled` tells; it was `current` so far.
    fn prop_override(&self, settled: Option<bool>, key: &str, current: bool) -> (r: bool)
        ensures
            r == if settled is Some {
                current
            } else {
                model::or_else(model::said(props::lookup(self@.known.props, key@)), current)
            },
    {
        match settled {
            Some(_) => current,
            None => given_or(prop_toggle(&self.i40e_env, key), current),
        }
    }

    /// Puts the properties of the physical function in force: those for ethtool, and later those for
    /// its link. The properties that switch something come into force at once, unless the
    /// environment has settled it.
    pub fn apply_from_props_pf(&mut self) -> (r: PropPlans)
        ensures
            r.ethtool@ == model::pf_ethtool_actions(old(self)@.known),
            r.ip@ == model::pf_ip_actions(old(self)@.known),
            final(self)@.phase == old(self)@.phase,
            final(self)@.known == model::with_property_toggles(old(self)@.known),
    {
        let plans = PropPlans { ethtool: self.pf_ethtool_plan(), ip: self.pf_ip_plan() };
        let settled = self.settled;
        let now = self.settings;
        let settings = Settings {
            dry_run: now.dry_run,
            derive_vf_macs: self.prop_override(
                settled.derive_vf_macs,
                "I40E_DERIVE_VF_MACS",
                now.derive_vf_macs,
            ),
            skip_if_vf_mac_set: self.prop_override(
                settled.skip_if_vf_mac_set,
                "I40E_SKIP_IF_VF_MAC_SET",
                now.skip_if_vf_mac_set,
            ),
            enable_vf_true_promisc: self.prop_override(
                settled.enable_vf_true_promisc,
                "I40E_ENABLE_VF_TRUE_PROMISC",
                now.enable_vf_true_promisc,
            ),
            disable_fw_lldp: self.prop_override(
                settled.disable_fw_lldp,
                "I40E_DISABLE_FW_LLDP",
                now.disable_fw_lldp,
            ),
            asym_quirk: self.prop_override(settled.asym_quirk, "I40E_ASYM_QUIRK", now.asym_quirk),
            vlan_quirk: self.prop_override(settled.vlan_quirk, "I40E_VLAN_QUIRK", now.vlan_quirk),
        };
        self.settings = settings;
        plans
    }

    /// Puts the switches of the command line in force.
    pub fn apply_cli_overrides(&mut self)
        ensures
            final(self)@.phase == old(self)@.phase,
            final(self)@.known == model::with_cli(old(self)@.known),
    {
        let cli = self.cli_toggles;
        let now = self.settings;
        self.settings = Settings {
            dry_run: given_or(cli.dry_run, now.dry_run),
            derive_vf_macs: given_or(cli.derive_vf_macs, now.derive_vf_macs),
            skip_if_vf_mac_set: given_or(cli.skip_if_vf_mac_set, now.skip_if_vf_mac_set),
            enable_vf_true_promisc: given_or(
                cli.enable_vf_true_promisc,
                now.enable_vf_true_promisc,
            ),
            disable_fw_lldp: given_or(cli.disable_fw_lldp, now.disable_fw_lldp),
            asym_quirk: given_or(cli.asym_quirk, now.asym_quirk),
            vlan_quirk: given_or(cli.vlan_quirk, now.vlan_quirk),
        };
    }

    /// The private flags that the physical function has by `outcome`, how the query for them ended.
    pub fn show_priv_flags(outcome: Option<CommandOutput>) -> (r: String)
        ensures
            r@ == model::flags_in(model::success_output(command::optional_output(outcome))),
    {
        match App::capture_success_output(outcome) {
            Some(flags) => flags,
            None => String::new(),
        }
    }

    /// Sets the private flags that every physical function gets, where `flags` has them.
    fn default_flags(&self, flags: &str) -> (r: Plan)
        ensures
            r@ == model::default_flag_actions(self@.known, flags@),
    {
        let mut plan = if contains_text(flags, "disable-fw-lldp") {
            Plan::one(
                self.set_priv_flag(
                    "disable-fw-lldp",
                    if self.settings.disable_fw_lldp {
                        "on"
                    } else {
                        "off"
                    },
                ),
            )
        } else {
            Plan::warning(
                concat3(
                    "priv-flag disable-fw-lldp not supported on ",
                    self.ifname.as_str(),
                    "; skipping",
                ),
            )
        };
        plan.append(
            if !self.settings.enable_vf_true_promisc {
                Plan::new()
            } else if contains_text(flags, "vf-true-promisc-support") {
                Plan::one(self.set_priv_flag("vf-true-promisc-support", "on"))
            } else {
                Plan::warning(
                    concat3(
                        "priv-flag vf-true-promisc-support not supported on ",
                        self.ifname.as_str(),
                        "; skipping",
                    ),
                )
            },
        );
        plan
    }

    /// Works against the asymmetry of the host path, where that is switched on.
    fn asym_plan(&self) -> (r: Plan)
        ensures
            r@ == model::asym_actions(self@.known),
    {
        if !self.settings.asym_quirk {
            return Plan::new();
        }
        let mut plan = self.apply_ethtool_tunables(
            self.ifname.as_str(),
            "C",
            "adaptive-rx off adaptive-tx off rx-usecs 0 tx-usecs 0",
        );
        plan.append(
            self.apply_ethtool_tunables(
                self.ifname.as_str(),
                "K",
                "tx-checksum-ip-generic off tx-checksum-sctp off",
            ),
        );
        plan
    }

    /// The function number in `device`, the name of the physical function's device.
    pub fn pf_func_id(device: Option<&str>) -> (r: u8)
        ensures
            r == model::function_number(
                match device {
                    Some(name) => Some(name@),
                    None => None,
                },
            ),
    {
        let name = match device {
            Some(name) => name,
            None => {
                return 0;
            },
        };
        let v = chars_of(name);
        let mut start: usize = v.len();
        assert(v@.take(start as int) =~= v@);
        assert(model::after_last_dot(v@) + v@.subrange(start as int, v@.len() as int)
            =~= model::after_last_dot(v@));
        while start > 0 && v[start - 1] != '.'
            invariant
                start <= v@.len(),
                model::after_last_dot(v@.take(start as int)) + v@.subrange(
                    start as int,
                    v@.len() as int,
                ) == model::after_last_dot(v@),
            decreases start,
        {
            let ghost front = v@.take(start as int);
            assert(front.drop_last() =~= v@.take(start - 1));
            assert(model::after_last_dot(front) + v@.subrange(start as int, v@.len() as int)
                =~= model::after_last_dot(front.drop_last()) + v@.subrange(
                start - 1,
                v@.len() as int,
            ));
            start = start - 1;
        }
        assert(model::after_last_dot(v@.take(start as int)) =~= Seq::<char>::empty());
        assert(v@.subrange(start as int, v@.len() as int) =~= model::after_last_dot(v@));
        match read_hex_byte(&v, start, v.len()) {
            Some(n) => n,
            None => 0,
        }
    }

    /// What the derived addresses begin with, for a physical function with the address `address`
    /// and the device `device`.
    pub fn derive_mac_prefix(address: Option<&str>, device: Option<&str>) -> (r: Option<String>)
        ensures
            text::optional_text(r) == model::prefix_from(
                match address {
                    Some(t) => Some(t@),
                    None => None,
                },
                match device {
                    Some(name) => Some(name@),
                    None => None,
                },
            ),
    {
        match address {
            Some(t) => derive_mac_prefix_from(trim(t).as_str(), App::pf_func_id(device)),
            None => None,
        }
    }

    /// The indices of the virtual functions whose links are among `names`, in ascending order.
    pub fn list_vf_indices(names: &Vec<String>) -> (r: Vec<usize>)
        ensures
            r@ == crate::vf::indices_of(text::texts(names@)),
            crate::vf::are_indices_of(r@, text::texts(names@)),
    {
        vf_indices(names)
    }

    // ---- One virtual function ----

    /// The names that the network device of virtual function `idx` may have, the likeliest first.
    pub fn vf_if_candidates(&self, idx: usize) -> (r: Vec<String>)
        ensures
            text::texts(r@) == model::candidates(self@.known, idx as nat),
    {
        let number = decimal_text(idx as u64);
        let primary = concat3(self.ifname.as_str(), "v", number.as_str());
        let secondary = concat3(trim_np_suffix(self.ifname.as_str()), "v", number.as_str());
        let mut r: Vec<String> = Vec::new();
        push_text(&mut r, primary.as_str());
        assert(text::texts(r@) =~= seq![primary@]);
        if !same_text(primary.as_str(), secondary.as_str()) {
            push_text(&mut r, secondary.as_str());
            assert(text::texts(r@) =~= seq![primary@, secondary@]);
        }
        r
    }

    /// The network device of virtual function `idx`: the first of its possible names that exists by
    /// `existing`.
    pub fn resolve_vf_dev(&self, idx: usize, existing: &Vec<bool>) -> (r: Option<String>)
        ensures
            text::optional_text(r) == model::first_existing(
                model::candidates(self@.known, idx as nat),
                existing@,
            ),
    {
        let names = self.vf_if_candidates(idx);
        let ghost all = text::texts(names@);
        let mut i: usize = 0;
        assert(all.skip(0) =~= all && existing@.skip(0) =~= existing@);
        while i < names.len() && i < existing.len()
            invariant
                i <= names@.len(),
                i <= existing@.len(),
                all == text::texts(names@),
                all == model::candidates(self@.known, idx as nat),
                model::first_existing(all, existing@) == model::first_existing(
                    all.skip(i as int),
                    existing@.skip(i as int),
                ),
            decreases names@.len() - i,
        {
            assert(all.skip(i as int)[0] == names@[i as int]@);
            assert(all.skip(i as int).skip(1) =~= all.skip(i + 1));
            assert(existing@.skip(i as int).skip(1) =~= existing@.skip(i + 1));
            if existing[i] {
                return Some(names[i].clone());
            }
            i = i + 1;
        }
        None
    }

    /// The settings of virtual function `idx`, which has the network device `dev`.
    fn vf_settings(&self, idx: usize, dev: Option<String>) -> (r: VfSettings)
        ensures
            r.dev == dev,
            text::optional_text(r.mac) == model::vf_value(self@.known, idx as nat, "MAC"@),
            text::optional_text(r.q_vlan) == model::vf_value(self@.known, idx as nat, "VLAN_QUIRK"@),
            text::optional_text(r.q_asym) == model::vf_value(self@.known, idx as nat, "ASYM_QUIRK"@),
    {
        VfSettings {
            dev,
            mac: self.vf_with_global(idx, "MAC"),
            q_vlan: self.vf_with_global(idx, "VLAN_QUIRK"),
            q_asym: self.vf_with_global(idx, "ASYM_QUIRK"),
        }
    }

    /// Sets the options of `family` on the network device `dev` of virtual function `idx` that the
    /// property `suffix` gives.
    fn vf_ethtool(&self, idx: usize, dev: &str, family: &str, suffix: &str) -> (r: Plan)
        ensures
            r@ == model::ethtool_if_set(
                self@.known,
                dev@,
                family@,
                model::vf_value(self@.known, idx as nat, suffix@),
            ),
    {
        self.ethtool_if_set(dev, family, self.vf_with_global(idx, suffix))
    }

    /// Sets `option` on virtual function `idx`, through the physical function, to what the property
    /// `suffix` gives.
    fn vf_handle(&self, idx: usize, option: &str, suffix: &str) -> (r: Plan)
        ensures
            r@ == model::ip_vf_if_set(
                self@.known,
                idx as nat,
                option@,
                model::vf_value(self@.known, idx as nat, suffix@),
            ),
    {
        self.ip_vf_if_set(idx, option, self.vf_with_global(idx, suffix))
    }

    /// Sets `option` on the network device `dev` of virtual function `idx` to what the property
    /// `suffix` gives.
    fn vf_ip(&self, idx: usize, dev: &str, option: &str, suffix: &str) -> (r: Plan)
        ensures
            r@ == model::ip_dev_if_set(
                self@.known,
                dev@,
                option@,
                model::vf_value(self@.known, idx as nat, suffix@),
            ),
    {
        self.ip_dev_if_set(dev, option, self.vf_with_global(idx, suffix))
    }

    /// The receive-side scaling of virtual function `idx`.
    fn vf_rss(&self, idx: usize) -> (r: Option<String>)
        ensures
            text::optional_text(r) == model::vf_rss(self@.known, idx as nat),
    {
        match self.vf_with_global(idx, "RSS") {
            Some(value) => Some(value),
            None => self.vf_with_global(idx, "RXFH"),
        }
    }

    /// What the log says of virtual function `idx`.
    fn vf_message(idx: usize, what: &str) -> (r: String)
        ensures
            r@ == "VF "@ + number::decimal(idx as nat) + what@,
    {
        concat3("VF ", decimal_text(idx as u64).as_str(), what)
    }

    /// What is done for the ethtool properties of virtual function `idx`.
    fn vf_ethtool_plan(&self, idx: usize, dev: &Option<String>) -> (r: Plan)
        ensures
            r@ == model::vf_ethtool_actions(self@.known, idx as nat, text::optional_text(*dev)),
    {
        match dev {
            Some(name) => {
                let d = name.as_str();
                let mut plan = self.vf_ethtool(idx, d, "K", "OFFLOAD");
                plan.append(self.vf_ethtool(idx, d, "C", "COALESCE"));
                plan.append(self.vf_ethtool(idx, d, "A", "PAUSE"));
                plan.append(self.vf_ethtool(idx, d, "G", "RINGS"));
                plan.append(self.vf_ethtool(idx, d, "L", "CHANNELS"));
                plan.append(self.ethtool_if_set(d, "rss", self.vf_rss(idx)));
                plan.append(self.vf_ethtool(idx, d, "N", "NTUPLE"));
                plan
            },
            None => Plan::warning(
                App::vf_message(
                    idx,
                    ": no host-side netdev found; skipping VF-netdev ethtool/ip tunables",
                ),
            ),
        }
    }

    /// What is done for the properties of virtual function `idx` that go through the physical
    /// function.
    fn vf_handle_plan(&self, idx: usize) -> (r: Plan)
        ensures
            r@ == model::vf_handle_actions(self@.known, idx as nat),
    {
        let query_rss = self.vf_with_global(idx, "QUERY_RSS");
        let automatic: bool = query_rss.is_none() && self.vf_rss(idx).is_some();
        let mut plan = self.vf_handle(idx, "vlan", "VLAN");
        plan.append(self.vf_handle(idx, "rate", "RATE"));
        plan.append(self.vf_handle(idx, "spoofchk", "SPOOFCHK"));
        plan.append(self.vf_handle(idx, "state", "STATE"));
        plan.append(
            match query_rss {
                Some(value) => self.apply_ip_vf_tokens(
                    idx,
                    two_texts("query_rss", normalize_on_off(value.as_str()).as_str()),
                ),
                None => Plan::new(),
            },
        );
        plan.append(self.vf_handle(idx, "trust", "TRUST"));
        plan.append(self.vf_handle(idx, "max_tx_rate", "MAX_TX_RATE"));
        plan.append(self.vf_handle(idx, "min_tx_rate", "MIN_TX_RATE"));
        plan.append(
            if automatic {
                self.apply_ip_vf_tokens(idx, two_texts("query_rss", "on"))
            } else {
                Plan::new()
            },
        );
        plan
    }

    /// What is done for the link properties of virtual function `idx`.
    fn vf_ip_plan(&self, idx: usize, dev: &Option<String>) -> (r: Plan)
        ensures
            r@ == model::vf_ip_actions(self@.known, idx as nat, text::optional_text(*dev)),
    {
        match dev {
            Some(name) => {
                let d = name.as_str();
                let mut plan = self.vf_ip(idx, d, "txqueuelen", "TXQUEUELEN");
                plan.append(self.vf_ip(idx, d, "mtu", "MTU"));
                plan.append(self.vf_ip(idx, d, "alias", "ALIAS"));
                plan.append(self.vf_ip(idx, d, "arp", "ARP"));
                plan.append(self.vf_ip(idx, d, "multicast", "MULTICAST"));
                plan.append(self.vf_ip(idx, d, "allmulticast", "ALLMULTICAST"));
                plan.append(self.vf_ip(idx, d, "promisc", "PROMISC"));
                plan
            },
            None => Plan::new(),
        }
    }

    /// What is said where virtual function `idx` asks for what only the host path has.
    fn vf_asym_plan(&self, idx: usize) -> (r: Plan)
        ensures
            r@ == model::vf_asym_note(self@.known, idx as nat),
    {
        match self.vf_with_global(idx, "ASYM_QUIRK") {
            Some(value) => {
                if value.as_str().is_empty() {
                    Plan::new()
                } else {
                    Plan::one(
                        Action::Log(
                            LogEntry {
                                level: Level::Info,
                                message: App::vf_message(
                                    idx,
                                    ": ASYM_QUIRK requested (host-path quirk); no VF-side action",
                                ),
                            },
                        ),
                    )
                }
            },
            None => Plan::new(),
        }
    }

    /// What is done through ip for the properties of virtual function `idx`.
    fn vf_ip_prop_plan(&self, idx: usize, dev: &Option<String>) -> (r: Plan)
        ensures
            r@ == model::vf_ip_prop_actions(self@.known, idx as nat, text::optional_text(*dev)),
    {
        let mut plan = self.vf_handle_plan(idx);
        plan.append(self.vf_ip_plan(idx, dev));
        plan.append(self.vf_asym_plan(idx));
        plan
    }

    /// Puts the properties of virtual function `idx`, which has the network device `dev`, in force:
    /// those for ethtool, and later those that go through the physical function and those for its
    /// link.
    pub fn apply_from_props_vf(&self, idx: usize, dev: Option<String>) -> (r: (
        VfSettings,
        PropPlans,
    ))
        ensures
            r.0.dev == dev,
            text::optional_text(r.0.mac) == model::vf_value(self@.known, idx as nat, "MAC"@),
            text::optional_text(r.0.q_vlan) == model::vf_value(
                self@.known,
                idx as nat,
                "VLAN_QUIRK"@,
            ),
            text::optional_text(r.0.q_asym) == model::vf_value(
                self@.known,
                idx as nat,
                "ASYM_QUIRK"@,
            ),
            r.1.ethtool@ == model::vf_ethtool_actions(
                self@.known,
                idx as nat,
                text::optional_text(dev),
            ),
            r.1.ip@ == model::vf_ip_prop_actions(
                self@.known,
                idx as nat,
                text::optional_text(dev),
            ),
    {
        let plans = PropPlans {
            ethtool: self.vf_ethtool_plan(idx, &dev),
            ip: self.vf_ip_prop_plan(idx, &dev),
        };
        (self.vf_settings(idx, dev), plans)
    }

    /// Gives virtual function `idx` the administrative address `mac`, and says that it is `what`.
    fn set_mac(&self, idx: usize, what: &str, mac: Option<String>) -> (r: Plan)
        ensures
            r@ == model::set_mac_actions(self@.known, idx as nat, what@, text::optional_text(mac)),
    {
        match mac {
            Some(m) => {
                let mut plan = self.apply_ip_vf_tokens(idx, two_texts("mac", m.as_str()));
                plan.info(concat(App::vf_message(idx, what).as_str(), m.as_str()));
                plan
            },
            None => Plan::new(),
        }
    }

    /// What is done for every virtual function, and for the address that its properties give.
    fn baseline_plan(&self, idx: usize) -> (r: Plan)
        ensures
            r@ == model::baseline_actions(self@.known, idx as nat),
    {
        let mut plan = self.apply_ip_vf_tokens(idx, two_texts("spoofchk", "off"));
        plan.append(self.apply_ip_vf_tokens(idx, two_texts("trust", "on")));
        plan.append(
            match self.vf_with_global(idx, "MAC") {
                Some(value) => {
                    if is_hex_mac(value.as_str()) {
                        self.set_mac(
                            idx,
                            ": explicit admin MAC ",
                            sanitize_llaa_unicast(value.as_str()),
                        )
                    } else {
                        Plan::new()
                    }
                },
                None => Plan::new(),
            },
        );
        plan
    }

    /// Gives virtual function `idx` its derived address.
    fn derived_mac_plan(&self, idx: usize, prefix: &str) -> (r: Plan)
        ensures
            r@ == model::derived_mac_actions(self@.known, idx as nat, prefix@),
    {
        let text = concat(prefix, hex_octet_text(idx as u64).as_str());
        self.set_mac(idx, ": set derived MAC ", sanitize_llaa_unicast(text.as_str()))
    }

    /// Keeps the administrative address `current` of virtual function `idx` where it names an
    /// adapter, and else gives it the derived one.
    fn keep_or_derive_plan(&self, idx: usize, prefix: &str, current: Option<String>) -> (r: Plan)
        ensures
            r@ == model::keep_or_derive_actions(
                self@.known,
                idx as nat,
                prefix@,
                text::optional_text(current),
            ),
    {
        match current {
            Some(mac) => {
                if is_hex_mac(mac.as_str()) {
                    let mut message = App::vf_message(idx, ": keep existing admin MAC (");
                    message.append(mac.as_str());
                    message.append(")");
                    Plan::one(Action::Log(LogEntry { level: Level::Info, message }))
                } else {
                    self.derived_mac_plan(idx, prefix)
                }
            },
            None => self.derived_mac_plan(idx, prefix),
        }
    }

    /// Whether the VLAN tags of virtual function `idx` need the workaround.
    fn has_vlan_quirk(&self, idx: usize) -> (r: bool)
        ensures
            r == model::has_vlan_quirk(self@.known, idx as nat),
    {
        self.settings.vlan_quirk || is_one(&self.vf_with_global(idx, "VLAN_QUIRK"))
    }

    /// Sets a VLAN on virtual function `idx` and takes it away again, where its tags need that.
    fn bounce_plan(&self, idx: usize) -> (r: Plan)
        ensures
            r@ == model::bounce_actions(self@.known, idx as nat),
    {
        if !self.has_vlan_quirk(idx) {
            return Plan::new();
        }
        let mut plan = self.apply_ip_vf_tokens(idx, two_texts("vlan", "10"));
        plan.append(self.apply_ip_vf_tokens(idx, two_texts("vlan", "0")));
        plan
    }

    /// The administrative address of virtual function `idx` by `outcome`, how the query for the
    /// addresses ended.
    pub fn get_vf_admin_mac(outcome: Option<CommandOutput>, idx: usize) -> (r: Option<String>)
        ensures
            text::optional_text(r) == match model::success_output(
                command::optional_output(outcome),
            ) {
                Some(output) => crate::vf::admin_mac(output, idx as nat),
                None => None,
            },
    {
        match App::capture_success_output(outcome) {
            Some(output) => parse_vf_admin_mac(output.as_str(), idx),
            None => None,
        }
    }

    // ---- The run ----

    /// The query for the properties of the link.
    fn link_props_query(&self) -> (r: Query)
        ensures
            r@ == model::link_props_query(self@.known),
    {
        let mut args = two_texts("info", "-q");
        push_text(&mut args, "property");
        push_text(&mut args, "-p");
        push_text(&mut args, self.net_path(self.ifname.as_str()).as_str());
        assert(text::texts(args@) =~= seq![
            "info"@,
            "-q"@,
            "property"@,
            "-p"@,
            self@.known.net_path(self@.known.ifname),
        ]);
        Query::Capture(CommandLine { program: "udevadm".to_owned(), args })
    }

    /// The query for the private flags of the physical function.
    fn priv_flags_query(&self) -> (r: Query)
        ensures
            r@ == model::priv_flags_query(self@.known),
    {
        Query::Capture(
            CommandLine {
                program: "ethtool".to_owned(),
                args: two_texts("--show-priv-flags", self.ifname.as_str()),
            },
        )
    }

    /// The query for the administrative addresses of the virtual functions.
    fn admin_macs_query(&self) -> (r: Query)
        ensures
            r@ == model::admin_macs_query(self@.known),
    {
        let mut args = two_texts("-d", "link");
        push_text(&mut args, "show");
        push_text(&mut args, self.ifname.as_str());
        assert(text::texts(args@) =~= seq!["-d"@, "link"@, "show"@, self@.known.ifname]);
        Query::Capture(CommandLine { program: "ip".to_owned(), args })
    }

    /// The directory of the physical function's device.
    fn device_path(&self) -> (r: String)
        ensures
            r@ == self@.known.device_path(),
    {
        join_path(self.net_path(self.ifname.as_str()).as_str(), "device")
    }

    /// The query for the network device of virtual function `idx`.
    fn netdev_query(&self, idx: usize) -> (r: Query)
        ensures
            r@ == command::QueryView::Exist(model::candidate_paths(self@.known, idx as nat)),
    {
        let names = self.vf_if_candidates(idx);
        let ghost all = text::texts(names@);
        let mut paths: Vec<String> = Vec::new();
        let mut i: usize = 0;
        while i < names.len()
            invariant
                i <= names@.len(),
                all == text::texts(names@),
                text::texts(paths@) =~= all.take(i as int).map_values(
                    |name: Seq<char>| self@.known.net_path(name),
                ),
            decreases names@.len() - i,
        {
            let ghost before = text::texts(paths@);
            assert(all[i as int] == names@[i as int]@);
            push_text(&mut paths, self.net_path(names[i].as_str()).as_str());
            assert(text::texts(paths@) =~= all.take(i + 1).map_values(
                |name: Seq<char>| self@.known.net_path(name),
            ));
            i = i + 1;
        }
        assert(all.take(i as int) =~= all);
        Query::Exist(paths)
    }

    /// On to what ethtool does for the next virtual function, or to ip where none is left.
    fn to_next_ethtool(&mut self, plan: Plan, ready: Vec<Vf>, pending: Vec<usize>) -> (r: Step)
        ensures
            r.leading_to(final(self)@) == model::to_next_ethtool(
                old(self)@.known,
                plan@,
                vf_views(ready@),
                pending@,
            ),
    {
        if pending.len() == 0 {
            return self.to_ip(plan, ready);
        }
        let mut pending = pending;
        let ghost all = pending@;
        let idx: usize = pending.remove(0);
        assert(pending@ =~= all.skip(1));
        let query = self.netdev_query(idx);
        self.phase = Phase::Netdev(EthtoolCursor { ready, idx, pending });
        Step { plan, query: Some(query) }
    }

    /// On to ip: first for the physical function, and then for the virtual functions `vfs`.
    fn to_ip(&mut self, plan: Plan, vfs: Vec<Vf>) -> (r: Step)
        ensures
            r.leading_to(final(self)@) == model::to_ip(old(self)@.known, plan@, vf_views(vfs@)),
    {
        let mut plan = plan;
        plan.append(self.pf_ip_plan());
        if self.settings.derive_vf_macs {
            let path = join_path(self.net_path(self.ifname.as_str()).as_str(), "address");
            self.phase = Phase::Address(vfs);
            Step { plan, query: Some(Query::ReadFile(path)) }
        } else {
            self.to_next_ip(plan, None, vfs)
        }
    }

    /// Whether a derived address waits for the one that the virtual function has.
    fn waits_for_mac(&self, prefix: &Option<String>) -> (r: bool)
        ensures
            r == model::waits_for_mac(self@.known, text::optional_text(*prefix)),
    {
        self.settings.derive_vf_macs && self.settings.skip_if_vf_mac_set && prefix.is_some()
    }

    /// What is done for the derived address of virtual function `idx` where it waits for nothing.
    fn unasked_mac_plan(&self, prefix: &Option<String>, idx: usize) -> (r: Plan)
        ensures
            r@ == model::unasked_mac_actions(
                self@.known,
                text::optional_text(*prefix),
                idx as nat,
            ),
    {
        match prefix {
            Some(p) => {
                if self.settings.derive_vf_macs {
                    self.derived_mac_plan(idx, p.as_str())
                } else {
                    Plan::new()
                }
            },
            None => Plan::new(),
        }
    }

    /// What is done through ip for a virtual function up to its derived address.
    fn before_mac_plan(&self, vf: &Vf) -> (r: Plan)
        ensures
            r@ == model::before_mac_actions(self@.known, vf.vf_view()),
    {
        let (_, plans) = self.apply_from_props_vf(vf.idx, copy_text(&vf.dev));
        let mut plan = plans.ip;
        plan.append(self.baseline_plan(vf.idx));
        plan
    }

    /// What is done through ip for a virtual function whose derived address waits for nothing.
    fn unasked_vf_plan(&self, prefix: &Option<String>, vf: &Vf) -> (r: Plan)
        ensures
            r@ == model::unasked_vf_actions(
                self@.known,
                text::optional_text(*prefix),
                vf.vf_view(),
            ),
    {
        let mut plan = self.before_mac_plan(vf);
        plan.append(self.unasked_mac_plan(prefix, vf.idx));
        plan.append(self.bounce_plan(vf.idx));
        plan
    }

    /// The same for each of `vfs`, one after the other.
    fn unasked_vfs_plan(&self, prefix: &Option<String>, vfs: &Vec<Vf>) -> (r: Plan)
        ensures
            r@ == model::unasked_vfs_actions(
                self@.known,
                text::optional_text(*prefix),
                vf_views(vfs@),
            ),
    {
        let ghost a = self@.known;
        let ghost p = text::optional_text(*prefix);
        let ghost all = vf_views(vfs@);
        let mut plan = Plan::new();
        let mut i: usize = 0;
        proof {
            assert(all.skip(0) =~= all);
            lemma_nothing_before(plan@, model::unasked_vfs_actions(a, p, all));
        }
        while i < vfs.len()
            invariant
                i <= vfs@.len(),
                a == self@.known,
                p == text::optional_text(*prefix),
                all == vf_views(vfs@),
                plan@ + model::unasked_vfs_actions(a, p, all.skip(i as int))
                    == model::unasked_vfs_actions(a, p, all),
            decreases vfs@.len() - i,
        {
            let ghost rest = all.skip(i as int);
            let ghost before = plan@;
            assert(rest[0] == vfs@[i as int].vf_view());
            assert(rest.skip(1) =~= all.skip(i + 1));
            let next = self.unasked_vf_plan(prefix, &vfs[i]);
            proof {
                lemma_one_more(before, next@, model::unasked_vfs_actions(a, p, rest.skip(1)));
            }
            plan.append(next);
            i = i + 1;
        }
        proof {
            assert(all.skip(i as int).len() == 0);
            lemma_nothing_after(plan@, model::unasked_vfs_actions(a, p, all.skip(i as int)));
        }
        plan
    }

    /// On to what ip does for the virtual functions `vfs`: where it waits for the address that one
    /// has, on to that one, and else to the end.
    fn to_next_ip(&mut self, plan: Plan, prefix: Option<String>, vfs: Vec<Vf>) -> (r: Step)
        ensures
            r.leading_to(final(self)@) == model::to_next_ip(
                old(self)@.known,
                plan@,
                text::optional_text(prefix),
                vf_views(vfs@),
            ),
    {
        let mut plan = plan;
        if vfs.len() > 0 && self.waits_for_mac(&prefix) {
            let mut vfs = vfs;
            let ghost all = vfs@;
            let vf = vfs.remove(0);
            assert(vf_views(all)[0] == vf.vf_view());
            assert(vf_views(vfs@) =~= vf_views(all).skip(1));
            plan.append(self.before_mac_plan(&vf));
            let query = self.admin_macs_query();
            self.phase = Phase::AdminMac(IpCursor { prefix, vf, pending: vfs });
            return Step { plan, query: Some(query) };
        }
        plan.append(self.unasked_vfs_plan(&prefix, &vfs));
        plan.info(concat("postlink completed on ", self.ifname.as_str()));
        self.phase = Phase::Done;
        Step { plan, query: None }
    }

    /// Begins with the properties of the link.
    fn begin(&mut self) -> (r: Step)
        ensures
            r.leading_to(final(self)@) == (StepView {
                app: old(self)@.known.at(PhaseView::LinkProps),
                actions: Seq::empty(),
                query: Some(model::link_props_query(old(self)@.known)),
            }),
    {
        let query = self.link_props_query();
        self.phase = Phase::LinkProps;
        Step { plan: Plan::new(), query: Some(query) }
    }

    /// Goes on with how the query for the properties of the link ended.
    fn after_link_props(&mut self, outcome: Option<CommandOutput>) -> (r: Step)
        ensures
            r.leading_to(final(self)@) == model::after_link_props(
                old(self)@.known,
                model::success_output(command::optional_output(outcome)),
            ),
    {
        self.load_link_props(outcome);
        let mut plan = self.list_props();
        plan.append(self.apply_from_props_pf().ethtool);
        self.apply_cli_overrides();
        let query = self.priv_flags_query();
        self.phase = Phase::PrivFlags;
        Step { plan, query: Some(query) }
    }

    /// Goes on with how the query for the private flags ended.
    fn after_priv_flags(&mut self, outcome: Option<CommandOutput>) -> (r: Step)
        ensures
            r.leading_to(final(self)@) == model::after_priv_flags(
                old(self)@.known,
                model::success_output(command::optional_output(outcome)),
            ),
    {
        let flags = App::show_priv_flags(outcome);
        let mut plan = self.default_flags(flags.as_str());
        plan.append(self.asym_plan());
        let query = Query::ListDirectory(self.device_path());
        self.phase = Phase::Directory;
        Step { plan, query: Some(query) }
    }

    /// Goes on with the names in the directory of the device.
    fn after_directory(&mut self, names: Vec<String>) -> (r: Step)
        ensures
            r.leading_to(final(self)@) == model::after_directory(
                old(self)@.known,
                text::texts(names@),
            ),
    {
        let indices = App::list_vf_indices(&names);
        let ready: Vec<Vf> = Vec::new();
        assert(vf_views(ready@) =~= Seq::<VfView>::empty());
        self.to_next_ethtool(Plan::new(), ready, indices)
    }

    /// Goes on from a virtual function that has the network device `dev` as far as its properties go.
    fn after_ethtool(&mut self, plan: Plan, v: EthtoolCursor, dev: Option<String>) -> (r: Step)
        ensures
            r.leading_to(final(self)@) == model::after_ethtool(
                old(self)@.known,
                plan@,
                v.cursor_view(),
                text::optional_text(dev),
            ),
    {
        let mut ready = v.ready;
        let ghost before = ready@;
        let vf = Vf { idx: v.idx, dev };
        ready.push(vf);
        assert(vf_views(ready@) =~= vf_views(before).push(vf.vf_view()));
        self.to_next_ethtool(plan, ready, v.pending)
    }

    /// Goes on with which network devices exist.
    fn after_netdev(&mut self, v: EthtoolCursor, existing: Vec<bool>) -> (r: Step)
        ensures
            r.leading_to(final(self)@) == model::after_netdev(
                old(self)@.known,
                v.cursor_view(),
                existing@,
            ),
    {
        let dev = self.resolve_vf_dev(v.idx, &existing);
        let (settings, plans) = self.apply_from_props_vf(v.idx, dev);
        let mut plan = plans.ethtool;
        if !(self.settings.vlan_quirk || is_one(&settings.q_vlan)) {
            return self.after_ethtool(plan, v, settings.dev);
        }
        plan.append(self.ensure_rxvlan_off(self.ifname.as_str()));
        match settings.dev {
            Some(d) => {
                plan.append(self.ensure_rxvlan_off(d.as_str()));
                self.after_ethtool(plan, v, Some(d))
            },
            None => {
                let query = self.netdev_query(v.idx);
                self.phase = Phase::NetdevAgain(v);
                Step { plan, query: Some(query) }
            },
        }
    }

    /// Goes on with which network devices exist, asked a second time.
    fn after_netdev_again(&mut self, v: EthtoolCursor, existing: Vec<bool>) -> (r: Step)
        ensures
            r.leading_to(final(self)@) == model::after_netdev_again(
                old(self)@.known,
                v.cursor_view(),
                existing@,
            ),
    {
        let plan = match self.resolve_vf_dev(v.idx, &existing) {
            Some(dev) => self.ensure_rxvlan_off(dev.as_str()),
            None => Plan::new(),
        };
        self.after_ethtool(plan, v, None)
    }

    /// Goes on with the address of the physical function.
    fn after_address(&mut self, vfs: Vec<Vf>, address: Option<String>) -> (r: Step)
        ensures
            r.leading_to(final(self)@) == model::after_address(
                old(self)@.known,
                vf_views(vfs@),
                text::optional_text(address),
            ),
    {
        match address {
            Some(address) => {
                let query = Query::TargetName(self.device_path());
                self.phase = Phase::Device(address, vfs);
                Step { plan: Plan::new(), query: Some(query) }
            },
            None => self.to_next_ip(Plan::new(), None, vfs),
        }
    }

    /// Says what the derived addresses begin with, where there are any.
    fn prefix_plan(&self, prefix: &Option<String>) -> (r: Plan)
        ensures
            r@ == model::prefix_actions(self@.known, text::optional_text(*prefix)),
    {
        match prefix {
            Some(p) => {
                let mut message = concat3(
                    "derived VF MAC prefix from ",
                    self.ifname.as_str(),
                    ": ",
                );
                message.append(p.as_str());
                message.append("xx");
                Plan::one(Action::Log(LogEntry { level: Level::Info, message }))
            },
            None => Plan::new(),
        }
    }

    /// Goes on with the name of the physical function's device.
    fn after_device(&mut self, address: String, vfs: Vec<Vf>, device: Option<String>) -> (r: Step)
        ensures
            r.leading_to(final(self)@) == model::after_device(
                old(self)@.known,
                address@,
                vf_views(vfs@),
                text::optional_text(device),
            ),
    {
        let name = match &device {
            Some(name) => Some(name.as_str()),
            None => None,
        };
        let prefix = App::derive_mac_prefix(Some(address.as_str()), name);
        let plan = self.prefix_plan(&prefix);
        self.to_next_ip(plan, prefix, vfs)
    }

    /// Goes on with how the query for the administrative addresses ended.
    fn after_admin_mac(&mut self, v: IpCursor, outcome: Option<CommandOutput>) -> (r: Step)
        ensures
            r.leading_to(final(self)@) == model::after_admin_mac(
                old(self)@.known,
                v.cursor_view(),
                model::success_output(command::optional_output(outcome)),
            ),
    {
        let idx: usize = v.vf.idx;
        let current = App::get_vf_admin_mac(outcome, idx);
        let mut plan = match &v.prefix {
            Some(prefix) => self.keep_or_derive_plan(idx, prefix.as_str(), current),
            None => Plan::new(),
        };
        plan.append(self.bounce_plan(idx));
        self.to_next_ip(plan, v.prefix, v.pending)
    }

    /// Goes on with `reply`, what the host says to the last query (at the start, nothing). What the
    /// step holds is to be done in order before its query is answered. A reply of another kind than
    /// the query asks for counts as no answer.
    pub fn run(&mut self, reply: Reply) -> (r: Step)
        ensures
            r.leading_to(final(self)@) == model::step(old(self)@, reply@),
    {
        let mut phase = Phase::Done;
        std::mem::swap(&mut phase, &mut self.phase);
        match phase {
            Phase::Start => self.begin(),
            Phase::LinkProps => self.after_link_props(reply.output()),
            Phase::PrivFlags => self.after_priv_flags(reply.output()),
            Phase::Directory => self.after_directory(reply.names()),
            Phase::Netdev(v) => self.after_netdev(v, reply.existing()),
            Phase::NetdevAgain(v) => self.after_netdev_again(v, reply.existing()),
            Phase::Address(vfs) => self.after_address(vfs, reply.text()),
            Phase::Device(address, vfs) => self.after_device(address, vfs, reply.text()),
            Phase::AdminMac(v) => self.after_admin_mac(v, reply.output()),
            Phase::Done => Step { plan: Plan::new(), query: None },
        }
    }
}

} // verus!
