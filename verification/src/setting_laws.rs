//! What each setting is, by the names that the documentation gives.
use vstd::prelude::*;

use crate::cli::{CliToggles, Toggle};
use crate::command::ReplyView;
use crate::laws;
use crate::model;
use crate::model::{Known, PhaseView, Settings};
use crate::props;
use crate::text;

verus! {

/// The name of the environment variable for `t`; the property has `I40E_` before it.
pub open spec fn name_of(t: Toggle) -> Seq<char> {
    match t {
        Toggle::DryRun => "DRY_RUN"@,
        Toggle::DeriveVfMacs => "DERIVE_VF_MACS"@,
        Toggle::SkipIfVfMacSet => "SKIP_IF_VF_MAC_SET"@,
        Toggle::EnableVfTruePromisc => "ENABLE_VF_TRUE_PROMISC"@,
        Toggle::DisableFwLldp => "DISABLE_FW_LLDP"@,
        Toggle::AsymQuirk => "ASYM_QUIRK"@,
        Toggle::VlanQuirk => "VLAN_QUIRK"@,
    }
}

/// The name of the property for `t`.
pub open spec fn key_of(t: Toggle) -> Seq<char> {
    "I40E_"@ + name_of(t)
}

/// What is switched on of `s` by `t`.
pub open spec fn setting_of(s: Settings, t: Toggle) -> bool {
    match t {
        Toggle::DryRun => s.dry_run,
        Toggle::DeriveVfMacs => s.derive_vf_macs,
        Toggle::SkipIfVfMacSet => s.skip_if_vf_mac_set,
        Toggle::EnableVfTruePromisc => s.enable_vf_true_promisc,
        Toggle::DisableFwLldp => s.disable_fw_lldp,
        Toggle::AsymQuirk => s.asym_quirk,
        Toggle::VlanQuirk => s.vlan_quirk,
    }
}

/// What the command line gave for `t`.
pub open spec fn given_for(c: CliToggles, t: Toggle) -> Option<bool> {
    match t {
        Toggle::DryRun => c.dry_run,
        Toggle::DeriveVfMacs => c.derive_vf_macs,
        Toggle::SkipIfVfMacSet => c.skip_if_vf_mac_set,
        Toggle::EnableVfTruePromisc => c.enable_vf_true_promisc,
        Toggle::DisableFwLldp => c.disable_fw_lldp,
        Toggle::AsymQuirk => c.asym_quirk,
        Toggle::VlanQuirk => c.vlan_quirk,
    }
}

/// Whether each name stands in `vars` once, as it does in an environment.
pub open spec fn names_differ(vars: Seq<(Seq<char>, Seq<char>)>) -> bool {
    forall|i: int, j: int|
        0 <= i < j < vars.len() ==> (#[trigger] vars[i]).0 != (#[trigger] vars[j]).0
}

/// Whether `name` stands in `vars`.
pub open spec fn is_set(vars: Seq<(Seq<char>, Seq<char>)>, name: Seq<char>) -> bool {
    exists|i: int| 0 <= i < vars.len() && (#[trigger] vars[i]).0 == name
}

/// What a run knows once it has two answers: the first is to nothing, and the second is the
/// properties of the link.
pub open spec fn known_after(
    ifname: Seq<char>,
    cli: CliToggles,
    vars: Seq<(Seq<char>, Seq<char>)>,
    first: ReplyView,
    second: ReplyView,
) -> Known {
    let start = model::initial(ifname, cli, vars).at(PhaseView::Start);
    model::step(model::step(start, first).app, second).app.known
}

proof fn lemma_key_texts()
    ensures
        key_of(Toggle::DeriveVfMacs) == "I40E_DERIVE_VF_MACS"@,
        key_of(Toggle::SkipIfVfMacSet) == "I40E_SKIP_IF_VF_MAC_SET"@,
        key_of(Toggle::EnableVfTruePromisc) == "I40E_ENABLE_VF_TRUE_PROMISC"@,
        key_of(Toggle::DisableFwLldp) == "I40E_DISABLE_FW_LLDP"@,
        key_of(Toggle::AsymQuirk) == "I40E_ASYM_QUIRK"@,
        key_of(Toggle::VlanQuirk) == "I40E_VLAN_QUIRK"@,
{
    reveal_strlit("I40E_");
    reveal_strlit("DERIVE_VF_MACS");
    reveal_strlit("SKIP_IF_VF_MAC_SET");
    reveal_strlit("ENABLE_VF_TRUE_PROMISC");
    reveal_strlit("DISABLE_FW_LLDP");
    reveal_strlit("ASYM_QUIRK");
    reveal_strlit("VLAN_QUIRK");
    reveal_strlit("I40E_DERIVE_VF_MACS");
    reveal_strlit("I40E_SKIP_IF_VF_MAC_SET");
    reveal_strlit("I40E_ENABLE_VF_TRUE_PROMISC");
    reveal_strlit("I40E_DISABLE_FW_LLDP");
    reveal_strlit("I40E_ASYM_QUIRK");
    reveal_strlit("I40E_VLAN_QUIRK");
    assert("I40E_"@ + "DERIVE_VF_MACS"@ =~= "I40E_DERIVE_VF_MACS"@);
    assert("I40E_"@ + "SKIP_IF_VF_MAC_SET"@ =~= "I40E_SKIP_IF_VF_MAC_SET"@);
    assert("I40E_"@ + "ENABLE_VF_TRUE_PROMISC"@ =~= "I40E_ENABLE_VF_TRUE_PROMISC"@);
    assert("I40E_"@ + "DISABLE_FW_LLDP"@ =~= "I40E_DISABLE_FW_LLDP"@);
    assert("I40E_"@ + "ASYM_QUIRK"@ =~= "I40E_ASYM_QUIRK"@);
    assert("I40E_"@ + "VLAN_QUIRK"@ =~= "I40E_VLAN_QUIRK"@);
}

proof fn lemma_names(t: Toggle)
    ensures
        model::variable_of(t) == name_of(t),
        model::property_of(t) == if t == Toggle::DryRun {
            None
        } else {
            Some(key_of(t))
        },
        text::begins_with(key_of(t), "I40E_"@),
{
    lemma_key_texts();
    assert(key_of(t).subrange(0, "I40E_"@.len() as int) =~= "I40E_"@);
}

/// The value of a variable that stands in the environment once; none where it does not stand there.
pub proof fn law_variable(vars: Seq<(Seq<char>, Seq<char>)>, name: Seq<char>)
    requires
        names_differ(vars),
    ensures
        forall|i: int|
            0 <= i < vars.len() && (#[trigger] vars[i]).0 == name ==> model::var_in(vars, name)
                == Some(vars[i].1),
        !is_set(vars, name) ==> model::var_in(vars, name) is None,
    decreases vars.len(),
{
    if vars.len() > 0 && vars[0].0 != name {
        let rest = vars.skip(1);
        assert forall|i: int, j: int| 0 <= i < j < rest.len() implies (#[trigger] rest[i]).0 != (
        #[trigger] rest[j]).0 by {
            assert(vars[i + 1].0 != vars[j + 1].0);
        }
        law_variable(rest, name);
        assert forall|i: int| 0 <= i < vars.len() && (#[trigger] vars[i]).0
            == name implies model::var_in(vars, name) == Some(vars[i].1) by {
            assert(rest[i - 1] == vars[i]);
        }
        if !is_set(vars, name) {
            assert forall|i: int| 0 <= i < rest.len() implies (#[trigger] rest[i]).0 != name by {
                assert(vars[i + 1].0 != name);
            }
        }
    } else if vars.len() > 0 {
        assert(is_set(vars, name));
    }
}

/// The properties of the environment are the variables whose name begins with `I40E_`, each with its
/// value, and no others.
pub proof fn law_environment_properties(vars: Seq<(Seq<char>, Seq<char>)>, name: Seq<char>)
    requires
        names_differ(vars),
    ensures
        forall|i: int|
            0 <= i < vars.len() && (#[trigger] vars[i]).0 == name && text::begins_with(
                name,
                "I40E_"@,
            ) ==> model::props_in(vars).contains_key(name) && model::props_in(vars)[name]
                == vars[i].1,
        model::props_in(vars).contains_key(name) ==> is_set(vars, name) && text::begins_with(
            name,
            "I40E_"@,
        ),
    decreases vars.len(),
{
    if vars.len() > 0 {
        let front = vars.drop_last();
        assert forall|i: int, j: int| 0 <= i < j < front.len() implies (#[trigger] front[i]).0 != (
        #[trigger] front[j]).0 by {
            assert(vars[i].0 != vars[j].0);
        }
        law_environment_properties(front, name);
        assert forall|i: int|
            0 <= i < vars.len() && (#[trigger] vars[i]).0 == name && text::begins_with(
                name,
                "I40E_"@,
            ) implies model::props_in(vars).contains_key(name) && model::props_in(vars)[name]
            == vars[i].1 by {
            if i < front.len() {
                assert(front[i] == vars[i]);
                assert(vars[i].0 != vars[vars.len() - 1].0);
            }
        }
        if model::props_in(vars).contains_key(name) {
            if model::props_in(front).contains_key(name) {
                let i = choose|i: int| 0 <= i < front.len() && (#[trigger] front[i]).0 == name;
                assert(vars[i].0 == name);
            } else {
                assert(vars[vars.len() - 1].0 == name);
            }
        }
    }
}

/// The first line that gives the property `key` has the value that counts.
proof fn lemma_first_line(lines: Seq<Seq<char>>, j: int, key: Seq<char>, value: Seq<char>)
    requires
        0 <= j < lines.len(),
        props::property_in(lines[j]) == Some((key, value)),
        forall|k: int|
            0 <= k < j ==> !(props::property_in(#[trigger] lines[k]) matches Some((name, _))
                && name == key),
    ensures
        props::lookup(props::with_lines(Map::empty(), lines), key) == Some(value),
{
    props::law_first_line_counts(Map::empty(), lines, key);
    match props::lookup(props::with_lines(Map::empty(), lines), key) {
        Some(found) => {
            let i = choose|i: int|
                0 <= i < lines.len() && props::property_in(#[trigger] lines[i]) == Some(
                    (key, found),
                ) && (forall|k: int|
                    0 <= k < i ==> !(props::property_in(#[trigger] lines[k]) matches Some((name, _))
                        && name == key));
            assert(i == j);
        },
        None => {},
    }
}

/// Each setting before anything is asked: what the variable of its name says, where `1` is on and
/// all else is off; without the variable, all but a dry run is on. A dry run is what the command
/// line gives, where it gives it.
pub proof fn law_settings_at_first(
    ifname: Seq<char>,
    cli: CliToggles,
    vars: Seq<(Seq<char>, Seq<char>)>,
    t: Toggle,
)
    requires
        names_differ(vars),
    ensures
        ({
            let now = setting_of(model::initial(ifname, cli, vars).settings, t);
            if t == Toggle::DryRun && cli.dry_run is Some {
                Some(now) == cli.dry_run
            } else {
                &&& forall|i: int|
                    0 <= i < vars.len() && (#[trigger] vars[i]).0 == name_of(t) ==> now == (
                    vars[i].1 == "1"@)
                &&& !is_set(vars, name_of(t)) ==> now == (t != Toggle::DryRun)
            }
        }),
{
    lemma_names(t);
    law_variable(vars, name_of(t));
}

proof fn lemma_now(
    ifname: Seq<char>,
    cli: CliToggles,
    vars: Seq<(Seq<char>, Seq<char>)>,
    first: ReplyView,
    second: ReplyView,
    t: Toggle,
)
    ensures
        setting_of(known_after(ifname, cli, vars, first, second).settings, t) == match given_for(
            cli,
            t,
        ) {
            Some(value) => value,
            None => match laws::said_by_environment(vars, t) {
                Some(value) => value,
                None => match laws::said_by_link(model::captured(second), t) {
                    Some(value) => value,
                    None => model::default_of(t),
                },
            },
        },
{
    laws::law_precedence(ifname, cli, vars, first, second, t);
}

proof fn lemma_environment(vars: Seq<(Seq<char>, Seq<char>)>, t: Toggle)
    requires
        names_differ(vars),
    ensures
        t != Toggle::DryRun ==> forall|i: int|
            0 <= i < vars.len() && (#[trigger] vars[i]).0 == key_of(t) ==> laws::said_by_environment(
                vars,
                t,
            ) == Some(vars[i].1 == "1"@),
        t == Toggle::DryRun || !is_set(vars, key_of(t)) ==> forall|i: int|
            0 <= i < vars.len() && (#[trigger] vars[i]).0 == name_of(t)
                ==> laws::said_by_environment(vars, t) == Some(vars[i].1 == "1"@),
        (t == Toggle::DryRun || !is_set(vars, key_of(t))) && !is_set(vars, name_of(t))
            ==> laws::said_by_environment(vars, t) is None,
{
    lemma_names(t);
    law_variable(vars, name_of(t));
    law_environment_properties(vars, key_of(t));
}

/// What the command line says of a setting counts, whatever else says something of it, once the
/// properties of the link are known.
pub proof fn law_switch_counts_first(
    ifname: Seq<char>,
    cli: CliToggles,
    vars: Seq<(Seq<char>, Seq<char>)>,
    first: ReplyView,
    second: ReplyView,
    t: Toggle,
)
    requires
        given_for(cli, t) is Some,
    ensures
        Some(setting_of(known_after(ifname, cli, vars, first, second).settings, t)) == given_for(
            cli,
            t,
        ),
{
    lemma_now(ifname, cli, vars, first, second, t);
}

/// Without a switch, what the environment says of a setting counts, whatever the link says: the
/// property of its name there, and else the variable of its name, where `1` is on and all else is
/// off. Whether a run is dry is no property.
pub proof fn law_environment_counts_next(
    ifname: Seq<char>,
    cli: CliToggles,
    vars: Seq<(Seq<char>, Seq<char>)>,
    first: ReplyView,
    second: ReplyView,
    t: Toggle,
)
    requires
        names_differ(vars),
        given_for(cli, t) is None,
    ensures
        t != Toggle::DryRun ==> forall|i: int|
            0 <= i < vars.len() && (#[trigger] vars[i]).0 == key_of(t) ==> setting_of(
                known_after(ifname, cli, vars, first, second).settings,
                t,
            ) == (vars[i].1 == "1"@),
        t == Toggle::DryRun || !is_set(vars, key_of(t)) ==> forall|i: int|
            0 <= i < vars.len() && (#[trigger] vars[i]).0 == name_of(t) ==> setting_of(
                known_after(ifname, cli, vars, first, second).settings,
                t,
            ) == (vars[i].1 == "1"@),
{
    lemma_now(ifname, cli, vars, first, second, t);
    lemma_environment(vars, t);
}

/// Whether `line` gives the property `key`.
pub open spec fn gives(line: Seq<char>, key: Seq<char>) -> bool {
    props::property_in(line) matches Some((name, _)) && name == key
}

/// The lines of the link that a run has by `second`.
pub open spec fn link_lines(second: ReplyView) -> Seq<Seq<char>> {
    match model::captured(second) {
        Some(output) => text::line_texts(output),
        None => Seq::empty(),
    }
}

proof fn lemma_link(second: ReplyView, t: Toggle)
    requires
        t != Toggle::DryRun,
    ensures
        forall|j: int|
            #![trigger link_lines(second)[j]]
            0 <= j < link_lines(second).len() && gives(link_lines(second)[j], key_of(t)) && (
            forall|k: int| 0 <= k < j ==> !gives(#[trigger] link_lines(second)[k], key_of(t)))
                ==> laws::said_by_link(model::captured(second), t) == Some(
                (props::property_in(link_lines(second)[j])->0).1 == "1"@,
            ),
        (forall|j: int|
            0 <= j < link_lines(second).len() ==> !gives(
                #[trigger] link_lines(second)[j],
                key_of(t),
            )) ==> laws::said_by_link(model::captured(second), t) is None,
{
    lemma_names(t);
    let lines = link_lines(second);
    assert forall|j: int|
        #![trigger lines[j]]
        0 <= j < lines.len() && gives(lines[j], key_of(t)) && (forall|k: int|
            0 <= k < j ==> !gives(#[trigger] lines[k], key_of(t))) implies laws::said_by_link(
        model::captured(second),
        t,
    ) == Some((props::property_in(lines[j])->0).1 == "1"@) by {
        assert forall|k: int| 0 <= k < j implies !(props::property_in(
            #[trigger] lines[k],
        ) matches Some((name, _)) && name == key_of(t)) by {
            assert(!gives(lines[k], key_of(t)));
        }
        lemma_first_line(lines, j, key_of(t), (props::property_in(lines[j])->0).1);
    }
    props::law_first_line_counts(Map::empty(), lines, key_of(t));
    if forall|j: int| 0 <= j < lines.len() ==> !gives(#[trigger] lines[j], key_of(t)) {
        match props::lookup(props::with_lines(Map::empty(), lines), key_of(t)) {
            Some(value) => {
                let i = choose|i: int|
                    0 <= i < lines.len() && props::property_in(#[trigger] lines[i]) == Some(
                        (key_of(t), value),
                    );
                assert(gives(lines[i], key_of(t)));
            },
            None => {},
        }
    }
}

/// Without a switch and without a word in the environment, the first line of the link that gives the
/// property of its name settles a setting: `1` is on, and all else is off. Without such a line, all
/// but a dry run is on.
pub proof fn law_link_counts_last(
    ifname: Seq<char>,
    cli: CliToggles,
    vars: Seq<(Seq<char>, Seq<char>)>,
    first: ReplyView,
    second: ReplyView,
    t: Toggle,
)
    requires
        names_differ(vars),
        given_for(cli, t) is None,
        t == Toggle::DryRun || !is_set(vars, key_of(t)),
        !is_set(vars, name_of(t)),
    ensures
        t == Toggle::DryRun ==> !setting_of(
            known_after(ifname, cli, vars, first, second).settings,
            t,
        ),
        t != Toggle::DryRun ==> forall|j: int|
            #![trigger link_lines(second)[j]]
            0 <= j < link_lines(second).len() && gives(link_lines(second)[j], key_of(t)) && (
            forall|k: int| 0 <= k < j ==> !gives(#[trigger] link_lines(second)[k], key_of(t)))
                ==> setting_of(known_after(ifname, cli, vars, first, second).settings, t) == ((
            props::property_in(link_lines(second)[j])->0).1 == "1"@),
        t != Toggle::DryRun && (forall|j: int|
            0 <= j < link_lines(second).len() ==> !gives(
                #[trigger] link_lines(second)[j],
                key_of(t),
            )) ==> setting_of(known_after(ifname, cli, vars, first, second).settings, t),
{
    lemma_now(ifname, cli, vars, first, second, t);
    lemma_environment(vars, t);
    if t != Toggle::DryRun {
        lemma_link(second, t);
    } else {
        lemma_names(t);
    }
}

} // verus!
