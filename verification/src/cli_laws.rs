//! What each word of the command line means, wherever it stands.
use vstd::prelude::*;

use crate::cli;
use crate::cli::{CliToggles, ParseOutcomeView, Progress, Toggle};
use crate::text;
use crate::text_laws;

verus! {

/// The stem of the two switches for `t`, as the help text has it.
pub open spec fn stem(t: Toggle) -> Seq<char> {
    match t {
        Toggle::DryRun => "dry-run"@,
        Toggle::DeriveVfMacs => "derive-vf-macs"@,
        Toggle::SkipIfVfMacSet => "skip-if-vf-mac-set"@,
        Toggle::EnableVfTruePromisc => "enable-vf-true-promisc"@,
        Toggle::DisableFwLldp => "disable-fw-lldp"@,
        Toggle::AsymQuirk => "asym-quirk"@,
        Toggle::VlanQuirk => "vlan-quirk"@,
    }
}

/// The switch that turns `t` on, or off.
pub open spec fn switch_text(t: Toggle, on: bool) -> Seq<char> {
    if on {
        "--"@ + stem(t)
    } else {
        "--no-"@ + stem(t)
    }
}

/// Whether `after` is `before`, but for `t`, which is given as `on`.
pub open spec fn only_sets(before: CliToggles, after: CliToggles, t: Toggle, on: bool) -> bool {
    &&& after.dry_run == if t == Toggle::DryRun {
        Some(on)
    } else {
        before.dry_run
    }
    &&& after.derive_vf_macs == if t == Toggle::DeriveVfMacs {
        Some(on)
    } else {
        before.derive_vf_macs
    }
    &&& after.skip_if_vf_mac_set == if t == Toggle::SkipIfVfMacSet {
        Some(on)
    } else {
        before.skip_if_vf_mac_set
    }
    &&& after.enable_vf_true_promisc == if t == Toggle::EnableVfTruePromisc {
        Some(on)
    } else {
        before.enable_vf_true_promisc
    }
    &&& after.disable_fw_lldp == if t == Toggle::DisableFwLldp {
        Some(on)
    } else {
        before.disable_fw_lldp
    }
    &&& after.asym_quirk == if t == Toggle::AsymQuirk {
        Some(on)
    } else {
        before.asym_quirk
    }
    &&& after.vlan_quirk == if t == Toggle::VlanQuirk {
        Some(on)
    } else {
        before.vlan_quirk
    }
}

/// Whether `arg` is one of the switches.
pub open spec fn is_switch(arg: Seq<char>) -> bool {
    exists|t: Toggle, on: bool| arg == #[trigger] switch_text(t, on)
}

proof fn lemma_head(x: Seq<char>, rest: Seq<Seq<char>>)
    ensures
        (seq![x] + rest).len() > 0,
        (seq![x] + rest)[0] == x,
        (seq![x] + rest).skip(1) == rest,
{
    assert((seq![x] + rest).skip(1) =~= rest);
}

proof fn lemma_plain_words()
    ensures
        "-h"@.len() == 2 && "-h"@[0] == '-' && "-h"@[1] == 'h',
        "--help"@.len() == 6 && "--help"@[0] == '-',
        "--"@.len() == 2 && "--"@[0] == '-' && "--"@[1] == '-',
        "--interface"@.len() == 11 && "--interface"@[0] == '-',
{
    reveal_strlit("-h");
    reveal_strlit("--help");
    reveal_strlit("--");
    reveal_strlit("--interface");
}

proof fn lemma_switch_texts()
    ensures
        switch_text(Toggle::DryRun, true) == "--dry-run"@,
        switch_text(Toggle::DryRun, false) == "--no-dry-run"@,
        switch_text(Toggle::DeriveVfMacs, true) == "--derive-vf-macs"@,
        switch_text(Toggle::DeriveVfMacs, false) == "--no-derive-vf-macs"@,
        switch_text(Toggle::SkipIfVfMacSet, true) == "--skip-if-vf-mac-set"@,
        switch_text(Toggle::SkipIfVfMacSet, false) == "--no-skip-if-vf-mac-set"@,
        switch_text(Toggle::EnableVfTruePromisc, true) == "--enable-vf-true-promisc"@,
        switch_text(Toggle::EnableVfTruePromisc, false) == "--no-enable-vf-true-promisc"@,
        switch_text(Toggle::DisableFwLldp, true) == "--disable-fw-lldp"@,
        switch_text(Toggle::DisableFwLldp, false) == "--no-disable-fw-lldp"@,
        switch_text(Toggle::AsymQuirk, true) == "--asym-quirk"@,
        switch_text(Toggle::AsymQuirk, false) == "--no-asym-quirk"@,
        switch_text(Toggle::VlanQuirk, true) == "--vlan-quirk"@,
        switch_text(Toggle::VlanQuirk, false) == "--no-vlan-quirk"@,
{
    reveal_strlit("--");
    reveal_strlit("--no-");
    reveal_strlit("dry-run");
    reveal_strlit("derive-vf-macs");
    reveal_strlit("skip-if-vf-mac-set");
    reveal_strlit("enable-vf-true-promisc");
    reveal_strlit("disable-fw-lldp");
    reveal_strlit("asym-quirk");
    reveal_strlit("vlan-quirk");
    reveal_strlit("--dry-run");
    reveal_strlit("--no-dry-run");
    reveal_strlit("--derive-vf-macs");
    reveal_strlit("--no-derive-vf-macs");
    reveal_strlit("--skip-if-vf-mac-set");
    reveal_strlit("--no-skip-if-vf-mac-set");
    reveal_strlit("--enable-vf-true-promisc");
    reveal_strlit("--no-enable-vf-true-promisc");
    reveal_strlit("--disable-fw-lldp");
    reveal_strlit("--no-disable-fw-lldp");
    reveal_strlit("--asym-quirk");
    reveal_strlit("--no-asym-quirk");
    reveal_strlit("--vlan-quirk");
    reveal_strlit("--no-vlan-quirk");
    assert("--"@ + "dry-run"@ =~= "--dry-run"@);
    assert("--no-"@ + "dry-run"@ =~= "--no-dry-run"@);
    assert("--"@ + "derive-vf-macs"@ =~= "--derive-vf-macs"@);
    assert("--no-"@ + "derive-vf-macs"@ =~= "--no-derive-vf-macs"@);
    assert("--"@ + "skip-if-vf-mac-set"@ =~= "--skip-if-vf-mac-set"@);
    assert("--no-"@ + "skip-if-vf-mac-set"@ =~= "--no-skip-if-vf-mac-set"@);
    assert("--"@ + "enable-vf-true-promisc"@ =~= "--enable-vf-true-promisc"@);
    assert("--no-"@ + "enable-vf-true-promisc"@ =~= "--no-enable-vf-true-promisc"@);
    assert("--"@ + "disable-fw-lldp"@ =~= "--disable-fw-lldp"@);
    assert("--no-"@ + "disable-fw-lldp"@ =~= "--no-disable-fw-lldp"@);
    assert("--"@ + "asym-quirk"@ =~= "--asym-quirk"@);
    assert("--no-"@ + "asym-quirk"@ =~= "--no-asym-quirk"@);
    assert("--"@ + "vlan-quirk"@ =~= "--vlan-quirk"@);
    assert("--no-"@ + "vlan-quirk"@ =~= "--no-vlan-quirk"@);
}

/// How long the switches are, and where those of one length differ.
proof fn lemma_switches_differ()
    ensures
        "--dry-run"@.len() == 9 && "--dry-run"@[0] == '-' && "--dry-run"@[1] == '-',
        "--no-dry-run"@.len() == 12 && "--no-dry-run"@[0] == '-' && "--no-dry-run"@[1] == '-',
        "--derive-vf-macs"@.len() == 16,
        "--derive-vf-macs"@[0] == '-' && "--derive-vf-macs"@[1] == '-',
        "--no-derive-vf-macs"@.len() == 19,
        "--no-derive-vf-macs"@[0] == '-' && "--no-derive-vf-macs"@[1] == '-',
        "--skip-if-vf-mac-set"@.len() == 20,
        "--skip-if-vf-mac-set"@[0] == '-' && "--skip-if-vf-mac-set"@[1] == '-',
        "--no-skip-if-vf-mac-set"@.len() == 23,
        "--no-skip-if-vf-mac-set"@[0] == '-' && "--no-skip-if-vf-mac-set"@[1] == '-',
        "--enable-vf-true-promisc"@.len() == 24,
        "--enable-vf-true-promisc"@[0] == '-' && "--enable-vf-true-promisc"@[1] == '-',
        "--no-enable-vf-true-promisc"@.len() == 27,
        "--no-enable-vf-true-promisc"@[0] == '-' && "--no-enable-vf-true-promisc"@[1] == '-',
        "--disable-fw-lldp"@.len() == 17,
        "--disable-fw-lldp"@[0] == '-' && "--disable-fw-lldp"@[1] == '-',
        "--no-disable-fw-lldp"@.len() == 20,
        "--no-disable-fw-lldp"@[0] == '-' && "--no-disable-fw-lldp"@[1] == '-',
        "--asym-quirk"@.len() == 12 && "--asym-quirk"@[0] == '-' && "--asym-quirk"@[1] == '-',
        "--no-asym-quirk"@.len() == 15,
        "--no-asym-quirk"@[0] == '-' && "--no-asym-quirk"@[1] == '-',
        "--vlan-quirk"@.len() == 12 && "--vlan-quirk"@[0] == '-' && "--vlan-quirk"@[1] == '-',
        "--no-vlan-quirk"@.len() == 15,
        "--no-vlan-quirk"@[0] == '-' && "--no-vlan-quirk"@[1] == '-',
        "--no-dry-run"@[2] == 'n' && "--asym-quirk"@[2] == 'a' && "--vlan-quirk"@[2] == 'v',
        "--skip-if-vf-mac-set"@[2] == 's' && "--no-disable-fw-lldp"@[2] == 'n',
        "--no-asym-quirk"@[5] == 'a' && "--no-vlan-quirk"@[5] == 'v',
{
    reveal_strlit("--dry-run");
    reveal_strlit("--no-dry-run");
    reveal_strlit("--derive-vf-macs");
    reveal_strlit("--no-derive-vf-macs");
    reveal_strlit("--skip-if-vf-mac-set");
    reveal_strlit("--no-skip-if-vf-mac-set");
    reveal_strlit("--enable-vf-true-promisc");
    reveal_strlit("--no-enable-vf-true-promisc");
    reveal_strlit("--disable-fw-lldp");
    reveal_strlit("--no-disable-fw-lldp");
    reveal_strlit("--asym-quirk");
    reveal_strlit("--no-asym-quirk");
    reveal_strlit("--vlan-quirk");
    reveal_strlit("--no-vlan-quirk");
}

proof fn lemma_switch_of(t: Toggle, on: bool)
    ensures
        cli::switch_of(switch_text(t, on)) == Some((t, on)),
        switch_text(t, on).len() >= 9,
        switch_text(t, on).len() != 11,
{
    lemma_switch_texts();
    lemma_switches_differ();
}

proof fn lemma_switch_begins_with_dash(arg: Seq<char>)
    ensures
        cli::switch_of(arg) is Some ==> arg.len() > 0 && arg[0] == '-',
{
    lemma_switches_differ();
}

proof fn lemma_every_switch(arg: Seq<char>)
    ensures
        cli::switch_of(arg) is Some ==> is_switch(arg),
{
    lemma_switch_texts();
    if cli::switch_of(arg) is Some {
        let (t, on) = cli::switch_of(arg)->0;
        assert(arg == switch_text(t, on));
    }
}

/// A switch sets what it is named for, to on or off, and nothing else, whatever stands before it
/// and after it.
pub proof fn law_switch_sets_one_thing(
    done: Progress,
    after: CliToggles,
    t: Toggle,
    on: bool,
    rest: Seq<Seq<char>>,
    program: Seq<char>,
)
    requires
        !done.names_only,
        only_sets(done.toggles, after, t, on),
    ensures
        cli::outcome_after(done, seq![switch_text(t, on)] + rest, program) == cli::outcome_after(
            Progress { toggles: after, ..done },
            rest,
            program,
        ),
{
    let arg = switch_text(t, on);
    lemma_head(arg, rest);
    lemma_plain_words();
    lemma_switch_of(t, on);
    assert(done.toggles.with(t, on) == after);
}

/// `--interface` names the interface, whatever the name is, and changes nothing else; only one name
/// may be given, and one must follow.
pub proof fn law_interface_switch(
    done: Progress,
    name: Seq<char>,
    rest: Seq<Seq<char>>,
    program: Seq<char>,
)
    requires
        !done.names_only,
    ensures
        done.ifname is None ==> cli::outcome_after(
            done,
            seq!["--interface"@, name] + rest,
            program,
        ) == cli::outcome_after(Progress { ifname: Some(name), ..done }, rest, program),
        done.ifname is Some ==> cli::outcome_after(
            done,
            seq!["--interface"@, name] + rest,
            program,
        ) == Err::<ParseOutcomeView, Seq<char>>("unexpected argument: "@ + name),
        cli::outcome_after(done, seq!["--interface"@], program) == Err::<
            ParseOutcomeView,
            Seq<char>,
        >("missing value for --interface"@),
{
    lemma_plain_words();
    let args = seq!["--interface"@, name] + rest;
    assert(args.skip(2) =~= rest);
    assert(args[0] == "--interface"@ && args[1] == name);
}

/// A word that does not begin with a dash, and any word after `--`, is the interface name and
/// changes nothing else; only one name may be given.
pub proof fn law_name_by_itself(
    done: Progress,
    name: Seq<char>,
    rest: Seq<Seq<char>>,
    program: Seq<char>,
)
    requires
        done.names_only || name.len() == 0 || name[0] != '-',
    ensures
        done.ifname is None ==> cli::outcome_after(done, seq![name] + rest, program)
            == cli::outcome_after(Progress { ifname: Some(name), ..done }, rest, program),
        done.ifname is Some ==> cli::outcome_after(done, seq![name] + rest, program) == Err::<
            ParseOutcomeView,
            Seq<char>,
        >("unexpected argument: "@ + name),
{
    lemma_head(name, rest);
    lemma_plain_words();
    lemma_switch_begins_with_dash(name);
}

/// `--` makes every word after it a name, and changes nothing else.
pub proof fn law_double_dash(done: Progress, rest: Seq<Seq<char>>, program: Seq<char>)
    requires
        !done.names_only,
    ensures
        cli::outcome_after(done, seq!["--"@] + rest, program) == cli::outcome_after(
            Progress { names_only: true, ..done },
            rest,
            program,
        ),
{
    lemma_head("--"@, rest);
    lemma_plain_words();
}

/// The help is given at once, whatever stands before it and after it.
pub proof fn law_help(done: Progress, rest: Seq<Seq<char>>, program: Seq<char>)
    requires
        !done.names_only,
    ensures
        cli::outcome_after(done, seq!["-h"@] + rest, program) == Ok::<ParseOutcomeView, Seq<char>>(
            ParseOutcomeView::Help(cli::usage_text(program)),
        ),
        cli::outcome_after(done, seq!["--help"@] + rest, program) == Ok::<
            ParseOutcomeView,
            Seq<char>,
        >(ParseOutcomeView::Help(cli::usage_text(program))),
{
    lemma_head("-h"@, rest);
    lemma_head("--help"@, rest);
}

/// The help text begins with the name of the program.
pub proof fn law_help_names_the_program(program: Seq<char>)
    ensures
        text::begins_with(cli::usage_text(program), "usage: "@ + program),
{
    text_laws::law_text_begins("usage: "@ + program, cli::USAGE@, cli::usage_text(program));
}

/// Any other word that begins with a dash is refused.
pub proof fn law_unknown_option(
    done: Progress,
    arg: Seq<char>,
    rest: Seq<Seq<char>>,
    program: Seq<char>,
)
    requires
        !done.names_only,
        arg.len() > 0,
        arg[0] == '-',
        arg != "-h"@,
        arg != "--help"@,
        arg != "--"@,
        arg != "--interface"@,
        !is_switch(arg),
    ensures
        cli::outcome_after(done, seq![arg] + rest, program) == Err::<ParseOutcomeView, Seq<char>>(
            "unknown option: "@ + arg,
        ),
{
    lemma_head(arg, rest);
    lemma_every_switch(arg);
}

/// The command line begins with nothing given, and ends with a run for the name and the switches
/// that were given; a name must have been.
pub proof fn law_beginning_and_end(
    args: Seq<Seq<char>>,
    done: Progress,
    none: CliToggles,
    program: Seq<char>,
)
    requires
        none.dry_run is None,
        none.derive_vf_macs is None,
        none.skip_if_vf_mac_set is None,
        none.enable_vf_true_promisc is None,
        none.disable_fw_lldp is None,
        none.asym_quirk is None,
        none.vlan_quirk is None,
    ensures
        cli::outcome_of(args, program) == cli::outcome_after(
            Progress { toggles: none, ifname: None, names_only: false },
            args,
            program,
        ),
        done.ifname is Some ==> cli::outcome_after(done, Seq::empty(), program) == Ok::<
            ParseOutcomeView,
            Seq<char>,
        >(ParseOutcomeView::Run { ifname: done.ifname->0, toggles: done.toggles }),
        done.ifname is None ==> cli::outcome_after(done, Seq::empty(), program) == Err::<
            ParseOutcomeView,
            Seq<char>,
        >("missing PF interface name"@),
{
    assert(none == CliToggles::none_given());
}

} // verus!
