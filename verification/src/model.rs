//! What a run does, as a function of the settings, the properties and what the host answers.
use vstd::prelude::*;

use crate::cli::{CliToggles, Toggle};
use crate::command;
use crate::command::{ActionView, CommandView, Level, OutputView, QueryView, ReplyView};
use crate::ethtool;
use crate::mac;
use crate::number;
use crate::props;
use crate::text;
use crate::vf;

verus! {

/// What is switched on.
#[derive(Debug, Clone, Copy, PartialEq, Eq)]
pub struct Settings {
    pub dry_run: bool,
    pub derive_vf_macs: bool,
    pub skip_if_vf_mac_set: bool,
    pub enable_vf_true_promisc: bool,
    pub disable_fw_lldp: bool,
    pub asym_quirk: bool,
    pub vlan_quirk: bool,
}

impl Settings {
    /// Whether `name` is switched on.
    pub open spec fn value(self, name: Toggle) -> bool {
        match name {
            Toggle::DryRun => self.dry_run,
            Toggle::DeriveVfMacs => self.derive_vf_macs,
            Toggle::SkipIfVfMacSet => self.skip_if_vf_mac_set,
            Toggle::EnableVfTruePromisc => self.enable_vf_true_promisc,
            Toggle::DisableFwLldp => self.disable_fw_lldp,
            Toggle::AsymQuirk => self.asym_quirk,
            Toggle::VlanQuirk => self.vlan_quirk,
        }
    }
}

/// `given`, where something was given; else `otherwise`.
pub open spec fn or_else(given: Option<bool>, otherwise: bool) -> bool {
    match given {
        Some(value) => value,
        None => otherwise,
    }
}

/// Where a run stands: what it waits for.
pub ghost enum PhaseView {
    /// Nothing has been done yet.
    Start,
    /// The properties of the link.
    LinkProps,
    /// The private flags of the physical function.
    PrivFlags,
    /// The names in the directory of the device.
    Directory,
    /// Which network devices a virtual function may have.
    Netdev(EthtoolView),
    /// The same, a second time.
    NetdevAgain(EthtoolView),
    /// The address of the physical function; ethtool is done with all virtual functions.
    Address { ready: Seq<VfView> },
    /// The name of the device of the physical function, which has this address.
    Device { address: Seq<char>, ready: Seq<VfView> },
    /// The administrative address of a virtual function.
    AdminMac(IpView),
    /// Nothing: the run is over.
    Done,
}

/// A virtual function: its index, and its network device.
pub ghost struct VfView {
    pub idx: usize,
    pub dev: Option<Seq<char>>,
}

/// Where a run is among the virtual functions while it uses ethtool: those that are ready, the
/// index of the one that it is at, and the indices after it.
pub ghost struct EthtoolView {
    pub ready: Seq<VfView>,
    pub idx: usize,
    pub pending: Seq<usize>,
}

/// Where a run is among the virtual functions while it uses ip: the one that it is at, those after
/// it, and what the derived addresses begin with.
pub ghost struct IpView {
    pub prefix: Option<Seq<char>>,
    pub vf: VfView,
    pub pending: Seq<VfView>,
}

/// What a run knows: the physical function, its properties, where the host keeps its network
/// devices, the switches that the command line gave, those that the environment settles, and what
/// is switched on.
pub ghost struct Known {
    pub ifname: Seq<char>,
    pub props: Map<Seq<char>, Seq<char>>,
    pub root: Seq<char>,
    pub cli: CliToggles,
    pub settled: CliToggles,
    pub settings: Settings,
}

/// The state of a run: what it knows, and where it stands.
pub ghost struct AppView {
    pub known: Known,
    pub phase: PhaseView,
}

/// What comes of a reply: the new state, what is to be done now, and what is asked next. Where
/// nothing is asked, the run is over.
pub ghost struct StepView {
    pub app: AppView,
    pub actions: Seq<ActionView>,
    pub query: Option<QueryView>,
}

// ---- The environment ----

/// The value of the first of `vars` with the name `name`.
pub open spec fn var_in(vars: Seq<(Seq<char>, Seq<char>)>, name: Seq<char>) -> Option<Seq<char>>
    decreases vars.len(),
{
    if vars.len() == 0 {
        None
    } else if vars[0].0 == name {
        Some(vars[0].1)
    } else {
        var_in(vars.skip(1), name)
    }
}

/// The properties among `vars`: those whose name begins with `I40E_`. Of two with the same name the
/// later counts.
pub open spec fn props_in(vars: Seq<(Seq<char>, Seq<char>)>) -> Map<Seq<char>, Seq<char>>
    decreases vars.len(),
{
    if vars.len() == 0 {
        Map::empty()
    } else if text::begins_with(vars.last().0, "I40E_"@) {
        props_in(vars.drop_last()).insert(vars.last().0, vars.last().1)
    } else {
        props_in(vars.drop_last())
    }
}

/// What a setting with the text `value` says: `1` is on, and all else is off.
pub open spec fn said(value: Option<Seq<char>>) -> Option<bool> {
    match value {
        Some(v) => Some(v == "1"@),
        None => None,
    }
}

/// The environment variable that switches `name`.
pub open spec fn variable_of(name: Toggle) -> Seq<char> {
    match name {
        Toggle::DryRun => "DRY_RUN"@,
        Toggle::DeriveVfMacs => "DERIVE_VF_MACS"@,
        Toggle::SkipIfVfMacSet => "SKIP_IF_VF_MAC_SET"@,
        Toggle::EnableVfTruePromisc => "ENABLE_VF_TRUE_PROMISC"@,
        Toggle::DisableFwLldp => "DISABLE_FW_LLDP"@,
        Toggle::AsymQuirk => "ASYM_QUIRK"@,
        Toggle::VlanQuirk => "VLAN_QUIRK"@,
    }
}

/// The property that switches `name`. Whether a run is dry is no property.
pub open spec fn property_of(name: Toggle) -> Option<Seq<char>> {
    match name {
        Toggle::DryRun => None,
        Toggle::DeriveVfMacs => Some("I40E_DERIVE_VF_MACS"@),
        Toggle::SkipIfVfMacSet => Some("I40E_SKIP_IF_VF_MAC_SET"@),
        Toggle::EnableVfTruePromisc => Some("I40E_ENABLE_VF_TRUE_PROMISC"@),
        Toggle::DisableFwLldp => Some("I40E_DISABLE_FW_LLDP"@),
        Toggle::AsymQuirk => Some("I40E_ASYM_QUIRK"@),
        Toggle::VlanQuirk => Some("I40E_VLAN_QUIRK"@),
    }
}

/// What the property of `name` says in `m`.
pub open spec fn said_by_property(m: Map<Seq<char>, Seq<char>>, name: Toggle) -> Option<bool> {
    match property_of(name) {
        Some(key) => said(props::lookup(m, key)),
        None => None,
    }
}

/// Whether `name` is on where nothing is said of it.
pub open spec fn default_of(name: Toggle) -> bool {
    name != Toggle::DryRun
}

/// What `toggles` gives for each name is what `f` says of it.
pub open spec fn toggles_from(f: spec_fn(Toggle) -> Option<bool>) -> CliToggles {
    CliToggles {
        dry_run: f(Toggle::DryRun),
        derive_vf_macs: f(Toggle::DeriveVfMacs),
        skip_if_vf_mac_set: f(Toggle::SkipIfVfMacSet),
        enable_vf_true_promisc: f(Toggle::EnableVfTruePromisc),
        disable_fw_lldp: f(Toggle::DisableFwLldp),
        asym_quirk: f(Toggle::AsymQuirk),
        vlan_quirk: f(Toggle::VlanQuirk),
    }
}

/// Each name is on where `f` says so.
pub open spec fn settings_from(f: spec_fn(Toggle) -> bool) -> Settings {
    Settings {
        dry_run: f(Toggle::DryRun),
        derive_vf_macs: f(Toggle::DeriveVfMacs),
        skip_if_vf_mac_set: f(Toggle::SkipIfVfMacSet),
        enable_vf_true_promisc: f(Toggle::EnableVfTruePromisc),
        disable_fw_lldp: f(Toggle::DisableFwLldp),
        asym_quirk: f(Toggle::AsymQuirk),
        vlan_quirk: f(Toggle::VlanQuirk),
    }
}

/// What the variables of the environment settle: each name that has its variable there, unless a
/// property in the environment says something of it.
pub open spec fn settled_by(vars: Seq<(Seq<char>, Seq<char>)>) -> CliToggles {
    toggles_from(
        |name: Toggle|
            match said_by_property(props_in(vars), name) {
                Some(_) => None,
                None => said(var_in(vars, variable_of(name))),
            },
    )
}

/// What a run knows when it begins: for the interface `ifname`, with the switches `cli`, in an
/// environment with the variables `vars`. Each setting is what its variable says, or its default.
/// Whether the run is dry is settled at once; the switches and properties for all else come into
/// force later.
pub open spec fn initial(
    ifname: Seq<char>,
    cli: CliToggles,
    vars: Seq<(Seq<char>, Seq<char>)>,
) -> Known {
    Known {
        ifname,
        props: props_in(vars),
        root: match var_in(vars, "I40E_SYS_CLASS_NET_ROOT"@) {
            Some(root) => root,
            None => "/sys/class/net"@,
        },
        cli,
        settled: settled_by(vars),
        settings: settings_from(
            |name: Toggle|
                if name == Toggle::DryRun && cli.dry_run is Some {
                    cli.dry_run->0
                } else {
                    or_else(said(var_in(vars, variable_of(name))), default_of(name))
                },
        ),
    }
}

// ---- Paths ----

/// `path` taken from the directory `base`.
pub open spec fn joined(base: Seq<char>, path: Seq<char>) -> Seq<char> {
    if path.len() > 0 && path[0] == '/' {
        path
    } else if base.len() > 0 && base.last() != '/' {
        base + seq!['/'] + path
    } else {
        base + path
    }
}

impl Known {
    /// The directory of the network device `name`.
    pub open spec fn net_path(self, name: Seq<char>) -> Seq<char> {
        joined(self.root, name)
    }

    /// The directory of the physical function's device.
    pub open spec fn device_path(self) -> Seq<char> {
        joined(self.net_path(self.ifname), "device"@)
    }

    /// The state of a run that knows this and waits for `phase`.
    pub open spec fn at(self, phase: PhaseView) -> AppView {
        AppView { known: self, phase }
    }
}

// ---- Properties ----

/// The value of the property `suffix` for virtual function `idx` alone.
pub open spec fn specific_value(a: Known, idx: nat, suffix: Seq<char>) -> Option<Seq<char>> {
    props::lookup(a.props, "I40E_VF"@ + number::decimal(idx) + "_"@ + suffix)
}

/// The value of the property `suffix` for every virtual function.
pub open spec fn global_value(a: Known, suffix: Seq<char>) -> Option<Seq<char>> {
    props::lookup(a.props, "I40E_VF_"@ + suffix)
}

/// The value of the property `suffix` for virtual function `idx`: its own, or else that for every
/// virtual function.
pub open spec fn vf_value(a: Known, idx: nat, suffix: Seq<char>) -> Option<Seq<char>> {
    match specific_value(a, idx, suffix) {
        Some(value) => Some(value),
        None => global_value(a, suffix),
    }
}

/// The receive-side scaling of virtual function `idx`, under either of the names it goes by.
pub open spec fn vf_rss(a: Known, idx: nat) -> Option<Seq<char>> {
    match vf_value(a, idx, "RSS"@) {
        Some(value) => Some(value),
        None => vf_value(a, idx, "RXFH"@),
    }
}

/// What a run knows, with the properties that `output`, the properties of the link, gives and that were
/// not there.
pub open spec fn with_link_props(a: Known, output: Option<Seq<char>>) -> Known {
    match output {
        Some(t) => Known { props: props::with_lines(a.props, text::line_texts(t)), ..a },
        None => a,
    }
}

/// What a run knows, with the properties in force that switch something which the environment has
/// not settled.
pub open spec fn with_property_toggles(a: Known) -> Known {
    Known {
        settings: settings_from(
            |name: Toggle|
                if a.settled.given(name) is Some {
                    a.settings.value(name)
                } else {
                    or_else(said_by_property(a.props, name), a.settings.value(name))
                },
        ),
        ..a
    }
}

/// What a run knows, with the switches of the command line in force.
pub open spec fn with_cli(a: Known) -> Known {
    Known {
        settings: settings_from(
            |name: Toggle| or_else(a.cli.given(name), a.settings.value(name)),
        ),
        ..a
    }
}

// ---- Single steps ----

/// A log entry of the level info.
pub open spec fn info(message: Seq<char>) -> ActionView {
    ActionView::Log { level: Level::Info, message }
}

/// A log entry of the level warning.
pub open spec fn warning(message: Seq<char>) -> ActionView {
    ActionView::Log { level: Level::Warning, message }
}

/// What is done to have `program` run with `args`: a dry run only says that it would be run.
pub open spec fn applied(a: Known, program: Seq<char>, args: Seq<Seq<char>>) -> ActionView {
    let command = CommandView { program, args };
    if a.settings.dry_run {
        info("DRY: "@ + command::rendered(command))
    } else {
        ActionView::Apply(command)
    }
}

/// The arguments in `raw`: its words, but for a first one that names an ethtool family.
pub open spec fn arguments_in(raw: Seq<char>) -> Seq<Seq<char>> {
    let words = text::words(raw);
    if words.len() > 0 && ethtool::family_of(words[0]) is Some {
        words.skip(1)
    } else {
        words
    }
}

/// What is done to set the options `raw` of the ethtool family `family` on `dev`.
pub open spec fn ethtool_actions(
    a: Known,
    dev: Seq<char>,
    family: Seq<char>,
    raw: Seq<char>,
) -> Seq<ActionView> {
    match ethtool::family_of(family) {
        None => seq![warning("unknown ethtool family '"@ + family + "' for "@ + dev)],
        Some(switch) => if arguments_in(raw).len() == 0 {
            Seq::empty()
        } else {
            seq![applied(a, "ethtool"@, seq![switch, dev] + arguments_in(raw))]
        },
    }
}

/// The same, where there is something to set.
pub open spec fn ethtool_if_set(
    a: Known,
    dev: Seq<char>,
    family: Seq<char>,
    raw: Option<Seq<char>>,
) -> Seq<ActionView> {
    match raw {
        Some(value) => ethtool_actions(a, dev, family, value),
        None => Seq::empty(),
    }
}

/// What is done to set `tokens` on the network device `dev`.
pub open spec fn ip_dev_actions(a: Known, dev: Seq<char>, tokens: Seq<Seq<char>>) -> Seq<
    ActionView,
> {
    if tokens.len() == 0 {
        Seq::empty()
    } else {
        seq![applied(a, "ip"@, seq!["link"@, "set"@, "dev"@, dev] + tokens)]
    }
}

/// The same with the words `option` and its value, where there is one.
pub open spec fn ip_dev_if_set(
    a: Known,
    dev: Seq<char>,
    option: Seq<char>,
    value: Option<Seq<char>>,
) -> Seq<ActionView> {
    match value {
        Some(v) => ip_dev_actions(a, dev, seq![option, v]),
        None => Seq::empty(),
    }
}

/// What is done to set `tokens` on virtual function `idx`, through the physical function.
pub open spec fn ip_vf_actions(a: Known, idx: nat, tokens: Seq<Seq<char>>) -> Seq<ActionView> {
    if tokens.len() == 0 {
        Seq::empty()
    } else {
        seq![
            applied(
                a,
                "ip"@,
                seq!["link"@, "set"@, "dev"@, a.ifname, "vf"@, number::decimal(idx)] + tokens,
            ),
        ]
    }
}

/// The same with the words `option` and its value, where there is one.
pub open spec fn ip_vf_if_set(
    a: Known,
    idx: nat,
    option: Seq<char>,
    value: Option<Seq<char>>,
) -> Seq<ActionView> {
    match value {
        Some(v) => ip_vf_actions(a, idx, seq![option, v]),
        None => Seq::empty(),
    }
}

/// What is done to set the private flag `flag` of the physical function to `value`.
pub open spec fn priv_flag(a: Known, flag: Seq<char>, value: Seq<char>) -> ActionView {
    applied(a, "ethtool"@, seq!["--set-priv-flags"@, a.ifname, flag, value])
}

/// What is done to turn the stripping of VLAN tags off on `dev`.
pub open spec fn rxvlan_off(a: Known, dev: Seq<char>) -> Seq<ActionView> {
    ethtool_actions(a, dev, "K"@, "rxvlan off"@)
}

// ---- The physical function ----

/// What a dry run says first: the properties, in the order of their names.
pub open spec fn listing_actions(a: Known) -> Seq<ActionView> {
    if a.settings.dry_run {
        seq![info("DRY_RUN: Listing preset I40E_* environment variables:"@)]
            + listed(props::listing(a.props))
    } else {
        Seq::empty()
    }
}

/// What a dry run says of the properties `pairs`.
pub open spec fn listed(pairs: Seq<(Seq<char>, Seq<char>)>) -> Seq<ActionView> {
    pairs.map_values(
        |p: (Seq<char>, Seq<char>)| info("DRY_RUN: "@ + p.0 + "=\""@ + p.1 + "\""@),
    )
}

/// What is done for the private flags that `words` gives, each followed by its value.
pub open spec fn priv_flag_pairs(a: Known, words: Seq<Seq<char>>) -> Seq<ActionView>
    decreases words.len(),
{
    if words.len() < 2 {
        Seq::empty()
    } else {
        seq![priv_flag(a, words[0], words[1])] + priv_flag_pairs(a, words.skip(2))
    }
}

/// What is done for the ethtool properties of the physical function.
pub open spec fn pf_ethtool_actions(a: Known) -> Seq<ActionView> {
    (match props::lookup(a.props, "I40E_PRIVFLAGS"@) {
        Some(flags) => priv_flag_pairs(a, text::words(flags)),
        None => Seq::empty(),
    }) + ethtool_if_set(a, a.ifname, "K"@, props::lookup(a.props, "I40E_PF_OFFLOAD"@))
        + ethtool_if_set(a, a.ifname, "C"@, props::lookup(a.props, "I40E_PF_COALESCE"@))
        + ethtool_if_set(a, a.ifname, "A"@, props::lookup(a.props, "I40E_PF_PAUSE"@))
        + ethtool_if_set(a, a.ifname, "G"@, props::lookup(a.props, "I40E_PF_RINGS"@))
        + ethtool_if_set(a, a.ifname, "L"@, props::lookup(a.props, "I40E_PF_CHANNELS"@))
        + ethtool_if_set(a, a.ifname, "rss"@, props::lookup(a.props, "I40E_PF_RSS"@))
        + ethtool_if_set(a, a.ifname, "rxfh"@, props::lookup(a.props, "I40E_PF_RXFH"@))
        + ethtool_if_set(a, a.ifname, "N"@, props::lookup(a.props, "I40E_PF_NTUPLE"@))
}

/// What is done for the link properties of the physical function.
pub open spec fn pf_ip_actions(a: Known) -> Seq<ActionView> {
    ip_dev_if_set(a, a.ifname, "txqueuelen"@, props::lookup(a.props, "I40E_PF_TXQUEUELEN"@))
        + ip_dev_if_set(a, a.ifname, "alias"@, props::lookup(a.props, "I40E_PF_ALIAS"@))
        + ip_dev_if_set(a, a.ifname, "arp"@, props::lookup(a.props, "I40E_PF_ARP"@))
        + ip_dev_if_set(a, a.ifname, "multicast"@, props::lookup(a.props, "I40E_PF_MULTICAST"@))
        + ip_dev_if_set(
        a,
        a.ifname,
        "allmulticast"@,
        props::lookup(a.props, "I40E_PF_ALLMULTICAST"@),
    ) + ip_dev_if_set(a, a.ifname, "promisc"@, props::lookup(a.props, "I40E_PF_PROMISC"@))
        + ip_dev_if_set(a, a.ifname, "address"@, props::lookup(a.props, "I40E_PF_MAC"@))
        + ip_dev_if_set(a, a.ifname, "mtu"@, props::lookup(a.props, "I40E_PF_MTU"@))
}

/// What is done for the private flags that the physical function has by `flags`.
pub open spec fn default_flag_actions(a: Known, flags: Seq<char>) -> Seq<ActionView> {
    (if text::has_text(flags, "disable-fw-lldp"@) {
        seq![
            priv_flag(
                a,
                "disable-fw-lldp"@,
                if a.settings.disable_fw_lldp {
                    "on"@
                } else {
                    "off"@
                },
            ),
        ]
    } else {
        seq![warning("priv-flag disable-fw-lldp not supported on "@ + a.ifname + "; skipping"@)]
    }) + (if !a.settings.enable_vf_true_promisc {
        Seq::empty()
    } else if text::has_text(flags, "vf-true-promisc-support"@) {
        seq![priv_flag(a, "vf-true-promisc-support"@, "on"@)]
    } else {
        seq![
            warning(
                "priv-flag vf-true-promisc-support not supported on "@ + a.ifname + "; skipping"@,
            ),
        ]
    })
}

/// What is done against the asymmetry of the host path.
pub open spec fn asym_actions(a: Known) -> Seq<ActionView> {
    if a.settings.asym_quirk {
        ethtool_actions(
            a,
            a.ifname,
            "C"@,
            "adaptive-rx off adaptive-tx off rx-usecs 0 tx-usecs 0"@,
        ) + ethtool_actions(
            a,
            a.ifname,
            "K"@,
            "tx-checksum-ip-generic off tx-checksum-sctp off"@,
        )
    } else {
        Seq::empty()
    }
}

/// The function number in `name`, the name of a PCI device: what follows its last dot, in
/// hexadecimal; zero where there is none.
pub open spec fn function_number(name: Option<Seq<char>>) -> u8 {
    match name {
        Some(s) => match number::hex_byte(after_last_dot(s)) {
            Some(n) => n,
            None => 0,
        },
        None => 0,
    }
}

/// What follows the last dot of `s`, or `s` where there is none.
pub open spec fn after_last_dot(s: Seq<char>) -> Seq<char>
    decreases s.len(),
{
    if s.len() == 0 || s.last() == '.' {
        Seq::empty()
    } else {
        after_last_dot(s.drop_last()).push(s.last())
    }
}

/// What the derived addresses begin with, for a physical function with the address `address` and
/// the device `device`.
pub open spec fn prefix_from(address: Option<Seq<char>>, device: Option<Seq<char>>) -> Option<
    Seq<char>,
> {
    match address {
        Some(text) => mac::derived_prefix(text::trimmed(text), function_number(device)),
        None => None,
    }
}

/// What is said of the derived addresses.
pub open spec fn prefix_actions(a: Known, prefix: Option<Seq<char>>) -> Seq<ActionView> {
    match prefix {
        Some(p) => seq![info("derived VF MAC prefix from "@ + a.ifname + ": "@ + p + "xx"@)],
        None => Seq::empty(),
    }
}

// ---- One virtual function ----

/// The names that the network device of virtual function `idx` may have, the likeliest first.
pub open spec fn candidates(a: Known, idx: nat) -> Seq<Seq<char>> {
    let primary = a.ifname + "v"@ + number::decimal(idx);
    let secondary = vf::without_np(a.ifname) + "v"@ + number::decimal(idx);
    if primary == secondary {
        seq![primary]
    } else {
        seq![primary, secondary]
    }
}

/// The directories that these network devices would have.
pub open spec fn candidate_paths(a: Known, idx: nat) -> Seq<Seq<char>> {
    candidates(a, idx).map_values(|name: Seq<char>| a.net_path(name))
}

/// The first of `names` that exists.
pub open spec fn first_existing(names: Seq<Seq<char>>, existing: Seq<bool>) -> Option<Seq<char>>
    decreases names.len(),
{
    if names.len() == 0 || existing.len() == 0 {
        None
    } else if existing[0] {
        Some(names[0])
    } else {
        first_existing(names.skip(1), existing.skip(1))
    }
}

/// What is done for the ethtool properties of virtual function `idx` with the network device `dev`.
pub open spec fn vf_ethtool_actions(a: Known, idx: nat, dev: Option<Seq<char>>) -> Seq<
    ActionView,
> {
    match dev {
        Some(d) => ethtool_if_set(a, d, "K"@, vf_value(a, idx, "OFFLOAD"@)) + ethtool_if_set(
            a,
            d,
            "C"@,
            vf_value(a, idx, "COALESCE"@),
        ) + ethtool_if_set(a, d, "A"@, vf_value(a, idx, "PAUSE"@)) + ethtool_if_set(
            a,
            d,
            "G"@,
            vf_value(a, idx, "RINGS"@),
        ) + ethtool_if_set(a, d, "L"@, vf_value(a, idx, "CHANNELS"@)) + ethtool_if_set(
            a,
            d,
            "rss"@,
            vf_rss(a, idx),
        ) + ethtool_if_set(a, d, "N"@, vf_value(a, idx, "NTUPLE"@)),
        None => seq![
            warning(
                "VF "@ + number::decimal(idx)
                    + ": no host-side netdev found; skipping VF-netdev ethtool/ip tunables"@,
            ),
        ],
    }
}

/// What is done for the properties of virtual function `idx` that go through the physical function.
pub open spec fn vf_handle_actions(a: Known, idx: nat) -> Seq<ActionView> {
    ip_vf_if_set(a, idx, "vlan"@, vf_value(a, idx, "VLAN"@)) + ip_vf_if_set(
        a,
        idx,
        "rate"@,
        vf_value(a, idx, "RATE"@),
    ) + ip_vf_if_set(a, idx, "spoofchk"@, vf_value(a, idx, "SPOOFCHK"@)) + ip_vf_if_set(
        a,
        idx,
        "state"@,
        vf_value(a, idx, "STATE"@),
    ) + (match vf_value(a, idx, "QUERY_RSS"@) {
        Some(value) => ip_vf_actions(a, idx, seq!["query_rss"@, ethtool::on_off(value)]),
        None => Seq::empty(),
    }) + ip_vf_if_set(a, idx, "trust"@, vf_value(a, idx, "TRUST"@)) + ip_vf_if_set(
        a,
        idx,
        "max_tx_rate"@,
        vf_value(a, idx, "MAX_TX_RATE"@),
    ) + ip_vf_if_set(a, idx, "min_tx_rate"@, vf_value(a, idx, "MIN_TX_RATE"@)) + (if vf_value(
        a,
        idx,
        "QUERY_RSS"@,
    ) is None && vf_rss(a, idx) is Some {
        ip_vf_actions(a, idx, seq!["query_rss"@, "on"@])
    } else {
        Seq::empty()
    })
}

/// What is done for the link properties of virtual function `idx` with the network device `dev`.
pub open spec fn vf_ip_actions(a: Known, idx: nat, dev: Option<Seq<char>>) -> Seq<ActionView> {
    match dev {
        Some(d) => ip_dev_if_set(a, d, "txqueuelen"@, vf_value(a, idx, "TXQUEUELEN"@))
            + ip_dev_if_set(a, d, "mtu"@, vf_value(a, idx, "MTU"@)) + ip_dev_if_set(
            a,
            d,
            "alias"@,
            vf_value(a, idx, "ALIAS"@),
        ) + ip_dev_if_set(a, d, "arp"@, vf_value(a, idx, "ARP"@)) + ip_dev_if_set(
            a,
            d,
            "multicast"@,
            vf_value(a, idx, "MULTICAST"@),
        ) + ip_dev_if_set(a, d, "allmulticast"@, vf_value(a, idx, "ALLMULTICAST"@))
            + ip_dev_if_set(a, d, "promisc"@, vf_value(a, idx, "PROMISC"@)),
        None => Seq::empty(),
    }
}

/// What is said where a virtual function asks for what only the host path has.
pub open spec fn vf_asym_note(a: Known, idx: nat) -> Seq<ActionView> {
    match vf_value(a, idx, "ASYM_QUIRK"@) {
        Some(value) => if value.len() > 0 {
            seq![
                info(
                    "VF "@ + number::decimal(idx)
                        + ": ASYM_QUIRK requested (host-path quirk); no VF-side action"@,
                ),
            ]
        } else {
            Seq::empty()
        },
        None => Seq::empty(),
    }
}

/// What is done through ip for the properties of virtual function `idx` with the network device
/// `dev`.
pub open spec fn vf_ip_prop_actions(a: Known, idx: nat, dev: Option<Seq<char>>) -> Seq<
    ActionView,
> {
    vf_handle_actions(a, idx) + vf_ip_actions(a, idx, dev) + vf_asym_note(a, idx)
}

/// Whether the VLAN tags of virtual function `idx` need the workaround: for all of them, or where
/// its property is `1`.
pub open spec fn has_vlan_quirk(a: Known, idx: nat) -> bool {
    a.settings.vlan_quirk || vf_value(a, idx, "VLAN_QUIRK"@) == Some("1"@)
}

/// What is done to give virtual function `idx` the administrative address `mac`; the log says that
/// it is `what`.
pub open spec fn set_mac_actions(a: Known, idx: nat, what: Seq<char>, mac: Option<Seq<char>>) -> Seq<
    ActionView,
> {
    match mac {
        Some(m) => ip_vf_actions(a, idx, seq!["mac"@, m]).push(
            info("VF "@ + number::decimal(idx) + what + m),
        ),
        None => Seq::empty(),
    }
}

/// What is done for every virtual function, and for the address that its properties give.
pub open spec fn baseline_actions(a: Known, idx: nat) -> Seq<ActionView> {
    ip_vf_actions(a, idx, seq!["spoofchk"@, "off"@]) + ip_vf_actions(
        a,
        idx,
        seq!["trust"@, "on"@],
    ) + (match vf_value(a, idx, "MAC"@) {
        Some(value) => if mac::is_usable_mac(value) {
            set_mac_actions(a, idx, ": explicit admin MAC "@, mac::sanitized(value))
        } else {
            Seq::empty()
        },
        None => Seq::empty(),
    })
}

/// What is done to give virtual function `idx` its derived address.
pub open spec fn derived_mac_actions(a: Known, idx: nat, prefix: Seq<char>) -> Seq<ActionView> {
    set_mac_actions(
        a,
        idx,
        ": set derived MAC "@,
        mac::sanitized(prefix + number::hex_octet(idx)),
    )
}

/// What is done for the address of virtual function `idx`, which has the administrative address
/// `current`: one that names an adapter is kept.
pub open spec fn keep_or_derive_actions(
    a: Known,
    idx: nat,
    prefix: Seq<char>,
    current: Option<Seq<char>>,
) -> Seq<ActionView> {
    match current {
        Some(mac) => if mac::is_usable_mac(mac) {
            seq![
                info("VF "@ + number::decimal(idx) + ": keep existing admin MAC ("@ + mac + ")"@),
            ]
        } else {
            derived_mac_actions(a, idx, prefix)
        },
        None => derived_mac_actions(a, idx, prefix),
    }
}

/// What is done against the stripping of the VLAN tags of virtual function `idx`, in the end.
pub open spec fn bounce_actions(a: Known, idx: nat) -> Seq<ActionView> {
    if has_vlan_quirk(a, idx) {
        ip_vf_actions(a, idx, seq!["vlan"@, "10"@]) + ip_vf_actions(a, idx, seq!["vlan"@, "0"@])
    } else {
        Seq::empty()
    }
}

// ---- The run ----

/// What a reply says that a command wrote, where the command succeeded.
pub open spec fn captured(reply: ReplyView) -> Option<Seq<char>> {
    match reply {
        ReplyView::Output(o) => success_output(Some(o)),
        _ => None,
    }
}

/// What a command wrote, where it was started and succeeded.
pub open spec fn success_output(outcome: Option<OutputView>) -> Option<Seq<char>> {
    match outcome {
        Some(o) => if o.success {
            Some(o.output)
        } else {
            None
        },
        None => None,
    }
}

/// The private flags that the physical function has by what `ethtool` wrote.
pub open spec fn flags_in(output: Option<Seq<char>>) -> Seq<char> {
    match output {
        Some(flags) => flags,
        None => Seq::empty(),
    }
}

/// The text that a reply gives.
pub open spec fn text_of(reply: ReplyView) -> Option<Seq<char>> {
    match reply {
        ReplyView::Text(t) => Some(t),
        _ => None,
    }
}

/// The names that a reply gives.
pub open spec fn names_of(reply: ReplyView) -> Seq<Seq<char>> {
    match reply {
        ReplyView::Names(names) => names,
        _ => Seq::empty(),
    }
}

/// Which paths exist by a reply.
pub open spec fn existing_of(reply: ReplyView) -> Seq<bool> {
    match reply {
        ReplyView::Existing(existing) => existing,
        _ => Seq::empty(),
    }
}

/// The query for the properties of the link.
pub open spec fn link_props_query(a: Known) -> QueryView {
    QueryView::Capture(
        CommandView {
            program: "udevadm"@,
            args: seq!["info"@, "-q"@, "property"@, "-p"@, a.net_path(a.ifname)],
        },
    )
}

/// The query for the private flags of the physical function.
pub open spec fn priv_flags_query(a: Known) -> QueryView {
    QueryView::Capture(
        CommandView { program: "ethtool"@, args: seq!["--show-priv-flags"@, a.ifname] },
    )
}

/// The query for the administrative addresses of the virtual functions.
pub open spec fn admin_macs_query(a: Known) -> QueryView {
    QueryView::Capture(
        CommandView { program: "ip"@, args: seq!["-d"@, "link"@, "show"@, a.ifname] },
    )
}

/// The query for the address of the physical function.
pub open spec fn address_query(a: Known) -> QueryView {
    QueryView::ReadFile(joined(a.net_path(a.ifname), "address"@))
}

/// On to what ethtool does for the next virtual function, or to ip where none is left.
pub open spec fn to_next_ethtool(
    a: Known,
    actions: Seq<ActionView>,
    ready: Seq<VfView>,
    pending: Seq<usize>,
) -> StepView {
    if pending.len() == 0 {
        to_ip(a, actions, ready)
    } else {
        StepView {
            app: a.at(
                PhaseView::Netdev(EthtoolView { ready, idx: pending[0], pending: pending.skip(1) }),
            ),
            actions,
            query: Some(QueryView::Exist(candidate_paths(a, pending[0] as nat))),
        }
    }
}

/// On to ip: first for the physical function, and then for the virtual functions `vfs`. Their
/// addresses are derived from the one that the physical function has by then.
pub open spec fn to_ip(a: Known, actions: Seq<ActionView>, vfs: Seq<VfView>) -> StepView {
    let so_far = actions + pf_ip_actions(a);
    if a.settings.derive_vf_macs {
        StepView {
            app: a.at(PhaseView::Address { ready: vfs }),
            actions: so_far,
            query: Some(address_query(a)),
        }
    } else {
        to_next_ip(a, so_far, None, vfs)
    }
}

/// Whether a derived address waits for the one that the virtual function has.
pub open spec fn waits_for_mac(a: Known, prefix: Option<Seq<char>>) -> bool {
    a.settings.derive_vf_macs && a.settings.skip_if_vf_mac_set && prefix is Some
}

/// What is done for the derived address of virtual function `idx` where it waits for nothing.
pub open spec fn unasked_mac_actions(a: Known, prefix: Option<Seq<char>>, idx: nat) -> Seq<
    ActionView,
> {
    match prefix {
        Some(p) => if a.settings.derive_vf_macs {
            derived_mac_actions(a, idx, p)
        } else {
            Seq::empty()
        },
        None => Seq::empty(),
    }
}

/// What is done through ip for a virtual function up to its derived address.
pub open spec fn before_mac_actions(a: Known, vf: VfView) -> Seq<ActionView> {
    vf_ip_prop_actions(a, vf.idx as nat, vf.dev) + baseline_actions(a, vf.idx as nat)
}

/// What is done through ip for a virtual function whose derived address waits for nothing.
pub open spec fn unasked_vf_actions(a: Known, prefix: Option<Seq<char>>, vf: VfView) -> Seq<
    ActionView,
> {
    before_mac_actions(a, vf) + unasked_mac_actions(a, prefix, vf.idx as nat) + bounce_actions(
        a,
        vf.idx as nat,
    )
}

/// The same for each of `vfs`, one after the other.
pub open spec fn unasked_vfs_actions(
    a: Known,
    prefix: Option<Seq<char>>,
    vfs: Seq<VfView>,
) -> Seq<ActionView>
    decreases vfs.len(),
{
    if vfs.len() == 0 {
        Seq::empty()
    } else {
        unasked_vf_actions(a, prefix, vfs[0]) + unasked_vfs_actions(a, prefix, vfs.skip(1))
    }
}

/// On to what ip does for the virtual functions `vfs`: where it waits for the address that one has,
/// on to that one, and else to the end.
pub open spec fn to_next_ip(
    a: Known,
    actions: Seq<ActionView>,
    prefix: Option<Seq<char>>,
    vfs: Seq<VfView>,
) -> StepView {
    if vfs.len() > 0 && waits_for_mac(a, prefix) {
        StepView {
            app: a.at(PhaseView::AdminMac(IpView { prefix, vf: vfs[0], pending: vfs.skip(1) })),
            actions: actions + before_mac_actions(a, vfs[0]),
            query: Some(admin_macs_query(a)),
        }
    } else {
        StepView {
            app: a.at(PhaseView::Done),
            actions: (actions + unasked_vfs_actions(a, prefix, vfs)).push(
                info("postlink completed on "@ + a.ifname),
            ),
            query: None,
        }
    }
}

/// What comes of the properties of the link, `output`.
pub open spec fn after_link_props(a: Known, output: Option<Seq<char>>) -> StepView {
    let b = with_link_props(a, output);
    StepView {
        app: with_cli(with_property_toggles(b)).at(PhaseView::PrivFlags),
        actions: listing_actions(b) + pf_ethtool_actions(b),
        query: Some(priv_flags_query(a)),
    }
}

/// What comes of the private flags of the physical function, `output`.
pub open spec fn after_priv_flags(a: Known, output: Option<Seq<char>>) -> StepView {
    StepView {
        app: a.at(PhaseView::Directory),
        actions: default_flag_actions(a, flags_in(output)) + asym_actions(a),
        query: Some(QueryView::ListDirectory(a.device_path())),
    }
}

/// What comes of the names in the directory of the device.
pub open spec fn after_directory(a: Known, names: Seq<Seq<char>>) -> StepView {
    to_next_ethtool(a, Seq::empty(), Seq::empty(), vf::indices_of(names))
}

/// On from a virtual function that has the network device `dev` as far as its properties go.
pub open spec fn after_ethtool(
    a: Known,
    actions: Seq<ActionView>,
    v: EthtoolView,
    dev: Option<Seq<char>>,
) -> StepView {
    to_next_ethtool(a, actions, v.ready.push(VfView { idx: v.idx, dev }), v.pending)
}

/// What comes of knowing which network devices exist that a virtual function may have.
pub open spec fn after_netdev(a: Known, v: EthtoolView, existing: Seq<bool>) -> StepView {
    let idx = v.idx as nat;
    let dev = first_existing(candidates(a, idx), existing);
    let actions = vf_ethtool_actions(a, idx, dev);
    if !has_vlan_quirk(a, idx) {
        after_ethtool(a, actions, v, dev)
    } else {
        match dev {
            Some(d) => after_ethtool(
                a,
                actions + rxvlan_off(a, a.ifname) + rxvlan_off(a, d),
                v,
                dev,
            ),
            None => StepView {
                app: a.at(PhaseView::NetdevAgain(v)),
                actions: actions + rxvlan_off(a, a.ifname),
                query: Some(QueryView::Exist(candidate_paths(a, idx))),
            },
        }
    }
}

/// What comes of knowing it a second time. A network device that has come up meanwhile has the
/// stripping of VLAN tags turned off; its properties are skipped.
pub open spec fn after_netdev_again(a: Known, v: EthtoolView, existing: Seq<bool>) -> StepView {
    match first_existing(candidates(a, v.idx as nat), existing) {
        Some(dev) => after_ethtool(a, rxvlan_off(a, dev), v, None),
        None => after_ethtool(a, Seq::empty(), v, None),
    }
}

/// What comes of the address of the physical function, with ip to go on to the virtual functions
/// `vfs`.
pub open spec fn after_address(
    a: Known,
    vfs: Seq<VfView>,
    address: Option<Seq<char>>,
) -> StepView {
    match address {
        Some(address) => StepView {
            app: a.at(PhaseView::Device { address, ready: vfs }),
            actions: Seq::empty(),
            query: Some(QueryView::TargetName(a.device_path())),
        },
        None => to_next_ip(a, Seq::empty(), None, vfs),
    }
}

/// What comes of the name of the physical function's device, which has the address `address`.
pub open spec fn after_device(
    a: Known,
    address: Seq<char>,
    vfs: Seq<VfView>,
    device: Option<Seq<char>>,
) -> StepView {
    let prefix = prefix_from(Some(address), device);
    to_next_ip(a, prefix_actions(a, prefix), prefix, vfs)
}

/// What is done for the derived address of virtual function `idx`, by `output`, the administrative
/// addresses of the virtual functions.
pub open spec fn asked_mac_actions(
    a: Known,
    prefix: Option<Seq<char>>,
    idx: nat,
    output: Option<Seq<char>>,
) -> Seq<ActionView> {
    match prefix {
        Some(p) => keep_or_derive_actions(
            a,
            idx,
            p,
            match output {
                Some(o) => vf::admin_mac(o, idx),
                None => None,
            },
        ),
        None => Seq::empty(),
    }
}

/// What comes of the administrative addresses of the virtual functions, `output`.
pub open spec fn after_admin_mac(a: Known, v: IpView, output: Option<Seq<char>>) -> StepView {
    let idx = v.vf.idx as nat;
    to_next_ip(
        a,
        asked_mac_actions(a, v.prefix, idx, output) + bounce_actions(a, idx),
        v.prefix,
        v.pending,
    )
}

/// What comes of `reply` in the state `s`. A reply that does not answer what the run waits for
/// counts as no answer.
pub open spec fn step(s: AppView, reply: ReplyView) -> StepView {
    let a = s.known;
    match s.phase {
        PhaseView::Start => StepView {
            app: a.at(PhaseView::LinkProps),
            actions: Seq::empty(),
            query: Some(link_props_query(a)),
        },
        PhaseView::LinkProps => after_link_props(a, captured(reply)),
        PhaseView::PrivFlags => after_priv_flags(a, captured(reply)),
        PhaseView::Directory => after_directory(a, names_of(reply)),
        PhaseView::Netdev(v) => after_netdev(a, v, existing_of(reply)),
        PhaseView::NetdevAgain(v) => after_netdev_again(a, v, existing_of(reply)),
        PhaseView::Address { ready } => after_address(a, ready, text_of(reply)),
        PhaseView::Device { address, ready } => after_device(a, address, ready, text_of(reply)),
        PhaseView::AdminMac(v) => after_admin_mac(a, v, captured(reply)),
        PhaseView::Done => StepView { app: s, actions: Seq::empty(), query: None },
    }
}

} // verus!
