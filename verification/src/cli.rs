//! The command line.
use vstd::prelude::*;
use vstd::string::*;

use crate::text;
use crate::text::{concat, concat3, same_text};

verus! {

/// The switches given on the command line: each is on, off or not given.
#[derive(Debug, Clone, Copy, PartialEq, Eq)]
pub struct CliToggles {
    pub dry_run: Option<bool>,
    pub derive_vf_macs: Option<bool>,
    pub skip_if_vf_mac_set: Option<bool>,
    pub enable_vf_true_promisc: Option<bool>,
    pub disable_fw_lldp: Option<bool>,
    pub asym_quirk: Option<bool>,
    pub vlan_quirk: Option<bool>,
}

impl CliToggles {
    /// No switch given.
    pub open spec fn none_given() -> CliToggles {
        CliToggles {
            dry_run: None,
            derive_vf_macs: None,
            skip_if_vf_mac_set: None,
            enable_vf_true_promisc: None,
            disable_fw_lldp: None,
            asym_quirk: None,
            vlan_quirk: None,
        }
    }

    /// These switches, with `name` given as `value`.
    pub open spec fn with(self, name: Toggle, value: bool) -> CliToggles {
        match name {
            Toggle::DryRun => CliToggles { dry_run: Some(value), ..self },
            Toggle::DeriveVfMacs => CliToggles { derive_vf_macs: Some(value), ..self },
            Toggle::SkipIfVfMacSet => CliToggles { skip_if_vf_mac_set: Some(value), ..self },
            Toggle::EnableVfTruePromisc => CliToggles {
                enable_vf_true_promisc: Some(value),
                ..self
            },
            Toggle::DisableFwLldp => CliToggles { disable_fw_lldp: Some(value), ..self },
            Toggle::AsymQuirk => CliToggles { asym_quirk: Some(value), ..self },
            Toggle::VlanQuirk => CliToggles { vlan_quirk: Some(value), ..self },
        }
    }

    /// Whether `name` was given, and as what.
    pub open spec fn given(self, name: Toggle) -> Option<bool> {
        match name {
            Toggle::DryRun => self.dry_run,
            Toggle::DeriveVfMacs => self.derive_vf_macs,
            Toggle::SkipIfVfMacSet => self.skip_if_vf_mac_set,
            Toggle::EnableVfTruePromisc => self.enable_vf_true_promisc,
            Toggle::DisableFwLldp => self.disable_fw_lldp,
            Toggle::AsymQuirk => self.asym_quirk,
            Toggle::VlanQuirk => self.vlan_quirk,
        }
    }

    /// Notes that `name` was given as `value`.
    pub fn set(&mut self, name: Toggle, value: bool)
        ensures
            *final(self) == old(self).with(name, value),
    {
        match name {
            Toggle::DryRun => {
                self.dry_run = Some(value);
            },
            Toggle::DeriveVfMacs => {
                self.derive_vf_macs = Some(value);
            },
            Toggle::SkipIfVfMacSet => {
                self.skip_if_vf_mac_set = Some(value);
            },
            Toggle::EnableVfTruePromisc => {
                self.enable_vf_true_promisc = Some(value);
            },
            Toggle::DisableFwLldp => {
                self.disable_fw_lldp = Some(value);
            },
            Toggle::AsymQuirk => {
                self.asym_quirk = Some(value);
            },
            Toggle::VlanQuirk => {
                self.vlan_quirk = Some(value);
            },
        }
    }
}

impl Default for CliToggles {
    fn default() -> (r: CliToggles)
        ensures
            r == CliToggles::none_given(),
    {
        CliToggles {
            dry_run: None,
            derive_vf_macs: None,
            skip_if_vf_mac_set: None,
            enable_vf_true_promisc: None,
            disable_fw_lldp: None,
            asym_quirk: None,
            vlan_quirk: None,
        }
    }
}

/// What can be switched on or off.
#[derive(Debug, Clone, Copy, PartialEq, Eq)]
pub enum Toggle {
    DryRun,
    DeriveVfMacs,
    SkipIfVfMacSet,
    EnableVfTruePromisc,
    DisableFwLldp,
    AsymQuirk,
    VlanQuirk,
}

/// What a run is asked to do.
#[derive(Debug, Clone, PartialEq, Eq)]
pub struct CliOptions {
    pub ifname: String,
    pub toggles: CliToggles,
}

/// What the command line asks for.
#[derive(Debug, PartialEq, Eq)]
pub enum ParseOutcome {
    Run(CliOptions),
    Help(String),
}

/// The content of a `ParseOutcome`.
pub ghost enum ParseOutcomeView {
    Run { ifname: Seq<char>, toggles: CliToggles },
    Help(Seq<char>),
}

impl View for ParseOutcome {
    type V = ParseOutcomeView;

    open spec fn view(&self) -> ParseOutcomeView {
        match self {
            ParseOutcome::Run(options) => ParseOutcomeView::Run {
                ifname: options.ifname@,
                toggles: options.toggles,
            },
            ParseOutcome::Help(text) => ParseOutcomeView::Help(text@),
        }
    }
}

/// The switch that `arg` is: what it switches, and whether on or off.
pub open spec fn switch_of(arg: Seq<char>) -> Option<(Toggle, bool)> {
    if arg == "--dry-run"@ {
        Some((Toggle::DryRun, true))
    } else if arg == "--no-dry-run"@ {
        Some((Toggle::DryRun, false))
    } else if arg == "--derive-vf-macs"@ {
        Some((Toggle::DeriveVfMacs, true))
    } else if arg == "--no-derive-vf-macs"@ {
        Some((Toggle::DeriveVfMacs, false))
    } else if arg == "--skip-if-vf-mac-set"@ {
        Some((Toggle::SkipIfVfMacSet, true))
    } else if arg == "--no-skip-if-vf-mac-set"@ {
        Some((Toggle::SkipIfVfMacSet, false))
    } else if arg == "--enable-vf-true-promisc"@ {
        Some((Toggle::EnableVfTruePromisc, true))
    } else if arg == "--no-enable-vf-true-promisc"@ {
        Some((Toggle::EnableVfTruePromisc, false))
    } else if arg == "--disable-fw-lldp"@ {
        Some((Toggle::DisableFwLldp, true))
    } else if arg == "--no-disable-fw-lldp"@ {
        Some((Toggle::DisableFwLldp, false))
    } else if arg == "--asym-quirk"@ {
        Some((Toggle::AsymQuirk, true))
    } else if arg == "--no-asym-quirk"@ {
        Some((Toggle::AsymQuirk, false))
    } else if arg == "--vlan-quirk"@ {
        Some((Toggle::VlanQuirk, true))
    } else if arg == "--no-vlan-quirk"@ {
        Some((Toggle::VlanQuirk, false))
    } else {
        None
    }
}

/// The switch that `arg` is.
pub fn parse_switch(arg: &str) -> (r: Option<(Toggle, bool)>)
    ensures
        r == switch_of(arg@),
{
    if same_text(arg, "--dry-run") {
        Some((Toggle::DryRun, true))
    } else if same_text(arg, "--no-dry-run") {
        Some((Toggle::DryRun, false))
    } else if same_text(arg, "--derive-vf-macs") {
        Some((Toggle::DeriveVfMacs, true))
    } else if same_text(arg, "--no-derive-vf-macs") {
        Some((Toggle::DeriveVfMacs, false))
    } else if same_text(arg, "--skip-if-vf-mac-set") {
        Some((Toggle::SkipIfVfMacSet, true))
    } else if same_text(arg, "--no-skip-if-vf-mac-set") {
        Some((Toggle::SkipIfVfMacSet, false))
    } else if same_text(arg, "--enable-vf-true-promisc") {
        Some((Toggle::EnableVfTruePromisc, true))
    } else if same_text(arg, "--no-enable-vf-true-promisc") {
        Some((Toggle::EnableVfTruePromisc, false))
    } else if same_text(arg, "--disable-fw-lldp") {
        Some((Toggle::DisableFwLldp, true))
    } else if same_text(arg, "--no-disable-fw-lldp") {
        Some((Toggle::DisableFwLldp, false))
    } else if same_text(arg, "--asym-quirk") {
        Some((Toggle::AsymQuirk, true))
    } else if same_text(arg, "--no-asym-quirk") {
        Some((Toggle::AsymQuirk, false))
    } else if same_text(arg, "--vlan-quirk") {
        Some((Toggle::VlanQuirk, true))
    } else if same_text(arg, "--no-vlan-quirk") {
        Some((Toggle::VlanQuirk, false))
    } else {
        None
    }
}

/// How far the command line has been read: the switches and the interface name so far, and whether
/// `--` has made all that follows a name.
pub ghost struct Progress {
    pub toggles: CliToggles,
    pub ifname: Option<Seq<char>>,
    pub names_only: bool,
}

/// The interface name, once `name` is given after `before`: only one may be given.
pub open spec fn named(before: Option<Seq<char>>, name: Seq<char>) -> Result<
    Option<Seq<char>>,
    Seq<char>,
> {
    match before {
        Some(_) => Err("unexpected argument: "@ + name),
        None => Ok(Some(name)),
    }
}

/// What a command line asks for of which `args` is left, after `done`.
pub open spec fn outcome_after(
    done: Progress,
    args: Seq<Seq<char>>,
    program: Seq<char>,
) -> Result<ParseOutcomeView, Seq<char>>
    decreases args.len(),
{
    if args.len() == 0 {
        match done.ifname {
            Some(ifname) => Ok(ParseOutcomeView::Run { ifname, toggles: done.toggles }),
            None => Err("missing PF interface name"@),
        }
    } else if !done.names_only && (args[0] == "-h"@ || args[0] == "--help"@) {
        Ok(ParseOutcomeView::Help(usage_text(program)))
    } else if !done.names_only && args[0] == "--"@ {
        outcome_after(Progress { names_only: true, ..done }, args.skip(1), program)
    } else if !done.names_only && args[0] == "--interface"@ {
        if args.len() == 1 {
            Err("missing value for --interface"@)
        } else {
            match named(done.ifname, args[1]) {
                Ok(ifname) => outcome_after(Progress { ifname, ..done }, args.skip(2), program),
                Err(error) => Err(error),
            }
        }
    } else if !done.names_only && switch_of(args[0]) is Some {
        let (name, value) = switch_of(args[0])->0;
        outcome_after(
            Progress { toggles: done.toggles.with(name, value), ..done },
            args.skip(1),
            program,
        )
    } else if !done.names_only && args[0].len() > 0 && args[0][0] == '-' {
        Err("unknown option: "@ + args[0])
    } else {
        match named(done.ifname, args[0]) {
            Ok(ifname) => outcome_after(Progress { ifname, ..done }, args.skip(1), program),
            Err(error) => Err(error),
        }
    }
}

/// What the command line `args` asks for.
pub open spec fn outcome_of(args: Seq<Seq<char>>, program: Seq<char>) -> Result<
    ParseOutcomeView,
    Seq<char>,
> {
    outcome_after(
        Progress { toggles: CliToggles::none_given(), ifname: None, names_only: false },
        args,
        program,
    )
}

/// The help text, after the name of the program.
pub const USAGE: &'static str = " [options] <pf-ifname>

Options:
  --interface <pf-ifname>           PF interface name as an explicit switch
  --dry-run | --no-dry-run         Enable or disable dry-run mode
  --derive-vf-macs | --no-derive-vf-macs
  --skip-if-vf-mac-set | --no-skip-if-vf-mac-set
  --enable-vf-true-promisc | --no-enable-vf-true-promisc
  --disable-fw-lldp | --no-disable-fw-lldp
  --asym-quirk | --no-asym-quirk
  --vlan-quirk | --no-vlan-quirk
  -h, --help                       Show this help text

Precedence: CLI switches > environment variables > .link Property=I40E_* > built-in defaults.";

/// The help text of `program`.
pub open spec fn usage_text(program: Seq<char>) -> Seq<char> {
    "usage: "@ + program + USAGE@
}

/// The help text of `program`.
pub fn usage(program: &str) -> (r: String)
    ensures
        r@ == usage_text(program@),
{
    concat3("usage: ", program, USAGE)
}

/// Notes the interface name `value`, unless one has been given already.
pub fn set_ifname(slot: &mut Option<String>, value: String) -> (r: Result<(), String>)
    ensures
        match named(text::optional_text(*old(slot)), value@) {
            Ok(ifname) => r is Ok && text::optional_text(*final(slot)) == ifname,
            Err(error) => r matches Err(e) && e@ == error && *final(slot) == *old(slot),
        },
{
    if slot.is_some() {
        return Err(concat("unexpected argument: ", value.as_str()));
    }
    *slot = Some(value);
    Ok(())
}

/// Reads the command line `args` of `program`.
pub fn parse_args(args: Vec<String>, program: &str) -> (r: Result<ParseOutcome, String>)
    ensures
        match outcome_of(text::texts(args@), program@) {
            Ok(outcome) => r matches Ok(o) && o@ == outcome,
            Err(error) => r matches Err(e) && e@ == error,
        },
{
    let mut toggles = CliToggles::default();
    let mut ifname: Option<String> = None;
    let mut names_only: bool = false;
    let mut i: usize = 0;
    let ghost all = text::texts(args@);
    assert(all.skip(0) =~= all);
    while i < args.len()
        invariant
            i <= args@.len(),
            all == text::texts(args@),
            outcome_of(all, program@) == outcome_after(
                Progress { toggles, ifname: text::optional_text(ifname), names_only },
                all.skip(i as int),
                program@,
            ),
        decreases args@.len() - i,
    {
        let ghost rest = all.skip(i as int);
        let arg = args[i].as_str();
        assert(rest[0] == arg@);
        assert(rest.skip(1) =~= all.skip(i + 1));
        if !names_only {
            if same_text(arg, "-h") || same_text(arg, "--help") {
                return Ok(ParseOutcome::Help(usage(program)));
            }
            if same_text(arg, "--") {
                names_only = true;
                i = i + 1;
                continue;
            }
            if same_text(arg, "--interface") {
                if i + 1 == args.len() {
                    return Err("missing value for --interface".to_owned());
                }
                assert(rest[1] == args@[i + 1]@);
                assert(rest.skip(2) =~= all.skip(i + 2));
                match set_ifname(&mut ifname, args[i + 1].clone()) {
                    Ok(_) => {},
                    Err(error) => {
                        return Err(error);
                    },
                }
                i = i + 2;
                continue;
            }
            if let Some((name, value)) = parse_switch(arg) {
                toggles.set(name, value);
                i = i + 1;
                continue;
            }
            if !arg.is_empty() && arg.get_char(0) == '-' {
                return Err(concat("unknown option: ", arg));
            }
        }
        match set_ifname(&mut ifname, args[i].clone()) {
            Ok(_) => {},
            Err(error) => {
                return Err(error);
            },
        }
        i = i + 1;
    }
    match ifname {
        Some(ifname) => Ok(ParseOutcome::Run(CliOptions { ifname, toggles })),
        None => Err("missing PF interface name".to_owned()),
    }
}

/// The words with a meaning of their own: what distinguishes those that are no switch from the
/// switches, and that each begins with a dash.
proof fn lemma_words(arg: Seq<char>)
    ensures
        switch_of(arg) is Some ==> arg.len() >= 9 && arg.len() != 11 && arg[0] == '-',
        "-h"@.len() == 2 && "-h"@[0] == '-' && "-h"@[1] == 'h',
        "--help"@.len() == 6 && "--help"@[0] == '-',
        "--"@.len() == 2 && "--"@[0] == '-' && "--"@[1] == '-',
        "--interface"@.len() == 11 && "--interface"@[0] == '-',
{
    reveal_strlit("-h");
    reveal_strlit("--help");
    reveal_strlit("--");
    reveal_strlit("--interface");
    reveal_strlit("--dry-run");
    reveal_strlit("--no-dry-run");
    reveal_strlit("--derive-vf-macs");
    reveal_strlit("--no-derive-vf-macs");
    reveal_strlit("--skip-if-vf-mac-set");
    reveal_strlit("--no-skip-if-vf-mac-set");
    reveal_strlit("--enable-vf-true-promisc");
    reveal_strlit("--no-enable-vf-true-promisc");
    reveal_strlit("--disable-fw-lldp");
    reveal_strlit("--no-disable-fw-lldp");
    reveal_strlit("--asym-quirk");
    reveal_strlit("--no-asym-quirk");
    reveal_strlit("--vlan-quirk");
    reveal_strlit("--no-vlan-quirk");
}

/// A switch given again right after itself counts as given last: the earlier one has no effect,
/// whichever way each of them was.
pub proof fn law_later_switch_wins(
    done: Progress,
    first: Seq<char>,
    second: Seq<char>,
    rest: Seq<Seq<char>>,
    program: Seq<char>,
)
    requires
        !done.names_only,
        switch_of(first) is Some,
        switch_of(second) is Some,
        (switch_of(first)->0).0 == (switch_of(second)->0).0,
    ensures
        outcome_after(done, seq![first, second] + rest, program) == outcome_after(
            done,
            seq![second] + rest,
            program,
        ),
{
    lemma_words(first);
    lemma_words(second);
    let (name, x) = switch_of(first)->0;
    let (_, y) = switch_of(second)->0;
    let after_first = Progress { toggles: done.toggles.with(name, x), ..done };
    assert((seq![first, second] + rest).skip(1) =~= seq![second] + rest);
    assert((seq![second] + rest).skip(1) =~= rest);
    assert(after_first.toggles.with(name, y) == done.toggles.with(name, y));
    assert(outcome_after(done, seq![first, second] + rest, program) == outcome_after(
        after_first,
        seq![second] + rest,
        program,
    ));
}

/// The order of two switches for different things does not matter.
pub proof fn law_switch_order_is_free(
    done: Progress,
    first: Seq<char>,
    second: Seq<char>,
    rest: Seq<Seq<char>>,
    program: Seq<char>,
)
    requires
        !done.names_only,
        switch_of(first) is Some,
        switch_of(second) is Some,
        (switch_of(first)->0).0 != (switch_of(second)->0).0,
    ensures
        outcome_after(done, seq![first, second] + rest, program) == outcome_after(
            done,
            seq![second, first] + rest,
            program,
        ),
{
    lemma_words(first);
    lemma_words(second);
    let (a, x) = switch_of(first)->0;
    let (b, y) = switch_of(second)->0;
    let after_first = Progress { toggles: done.toggles.with(a, x), ..done };
    let after_second = Progress { toggles: done.toggles.with(b, y), ..done };
    assert((seq![first, second] + rest).skip(1) =~= seq![second] + rest);
    assert((seq![second, first] + rest).skip(1) =~= seq![first] + rest);
    assert((seq![second] + rest).skip(1) =~= rest);
    assert((seq![first] + rest).skip(1) =~= rest);
    assert(after_first.toggles.with(b, y) == after_second.toggles.with(a, x));
    assert(outcome_after(done, seq![first, second] + rest, program) == outcome_after(
        after_first,
        seq![second] + rest,
        program,
    ));
    assert(outcome_after(done, seq![second, first] + rest, program) == outcome_after(
        after_second,
        seq![first] + rest,
        program,
    ));
}

/// `--interface` takes the word after it as the interface name, and so does `--`, whatever the
/// word is; a word without a leading dash is the interface name by itself.
pub proof fn law_interface_name_forms(name: Seq<char>, program: Seq<char>)
    ensures
        outcome_of(seq!["--interface"@, name], program) == Ok::<ParseOutcomeView, Seq<char>>(
            ParseOutcomeView::Run { ifname: name, toggles: CliToggles::none_given() },
        ),
        outcome_of(seq!["--"@, name], program) == Ok::<ParseOutcomeView, Seq<char>>(
            ParseOutcomeView::Run { ifname: name, toggles: CliToggles::none_given() },
        ),
        !(name.len() > 0 && name[0] == '-') ==> outcome_of(seq![name], program) == Ok::<
            ParseOutcomeView,
            Seq<char>,
        >(ParseOutcomeView::Run { ifname: name, toggles: CliToggles::none_given() }),
{
    lemma_words(name);
    lemma_words("--"@);
    lemma_words("--interface"@);
    let start = Progress { toggles: CliToggles::none_given(), ifname: None, names_only: false };
    let all_names = Progress { names_only: true, ..start };
    let with_name = Progress { ifname: Some(name), ..start };
    let name_given = Progress { ifname: Some(name), ..all_names };
    assert(seq!["--interface"@, name].skip(2) =~= Seq::<Seq<char>>::empty());
    assert(seq!["--"@, name].skip(1) =~= seq![name]);
    assert(seq![name].skip(1) =~= Seq::<Seq<char>>::empty());
    assert(outcome_after(with_name, Seq::<Seq<char>>::empty(), program) is Ok);
    assert(outcome_after(name_given, Seq::<Seq<char>>::empty(), program) is Ok);
    assert(outcome_after(all_names, seq![name], program) == outcome_after(
        name_given,
        Seq::<Seq<char>>::empty(),
        program,
    ));
    if !(name.len() > 0 && name[0] == '-') {
        assert(outcome_after(start, seq![name], program) == outcome_after(
            with_name,
            Seq::<Seq<char>>::empty(),
            program,
        ));
    }
}

} // verus!
