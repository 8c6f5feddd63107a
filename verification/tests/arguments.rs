use i40e_postlink::cli::{
    parse_args, parse_switch, set_ifname, usage, CliOptions, CliToggles, ParseOutcome, Toggle,
};

fn parse(args: &[&str]) -> Result<ParseOutcome, String> {
    parse_args(args.iter().map(|a| a.to_string()).collect(), "i40e-postlink")
}

fn run_of(ifname: &str, toggles: CliToggles) -> Result<ParseOutcome, String> {
    Ok(ParseOutcome::Run(CliOptions { ifname: ifname.to_string(), toggles }))
}

#[test]
fn no_interface_is_an_error() {
    assert_eq!(parse(&[]), Err("missing PF interface name".to_string()));
    assert_eq!(parse(&["--dry-run"]), Err("missing PF interface name".to_string()));
    assert_eq!(parse(&["--"]), Err("missing PF interface name".to_string()));
}

#[test]
fn interface_switch_needs_a_value() {
    assert_eq!(parse(&["--interface"]), Err("missing value for --interface".to_string()));
    assert_eq!(
        parse(&["pf0", "--interface"]),
        Err("missing value for --interface".to_string())
    );
}

#[test]
fn second_interface_is_an_error() {
    assert_eq!(parse(&["pf0", "pf1"]), Err("unexpected argument: pf1".to_string()));
    assert_eq!(
        parse(&["--interface", "pf0", "pf1"]),
        Err("unexpected argument: pf1".to_string())
    );
    assert_eq!(
        parse(&["pf0", "--interface", "pf1"]),
        Err("unexpected argument: pf1".to_string())
    );
}

#[test]
fn unknown_option_is_an_error() {
    assert_eq!(parse(&["--quiet", "pf0"]), Err("unknown option: --quiet".to_string()));
    assert_eq!(parse(&["-"]), Err("unknown option: -".to_string()));
    assert_eq!(parse(&["pf0", "--dry-run=1"]), Err("unknown option: --dry-run=1".to_string()));
}

#[test]
fn the_first_error_counts() {
    assert_eq!(parse(&["pf0", "pf1", "--quiet"]), Err("unexpected argument: pf1".to_string()));
    assert_eq!(parse(&["--quiet", "--help"]), Err("unknown option: --quiet".to_string()));
}

#[test]
fn help_comes_before_what_follows_it() {
    let help = Ok(ParseOutcome::Help(usage("i40e-postlink")));
    assert_eq!(parse(&["-h"]), help);
    assert_eq!(parse(&["pf0", "--help", "--quiet"]), help);
}

#[test]
fn double_dash_makes_the_rest_names() {
    assert_eq!(parse(&["--", "--dry-run"]), run_of("--dry-run", CliToggles::default()));
    assert_eq!(parse(&["--", "--"]), run_of("--", CliToggles::default()));
    assert_eq!(parse(&["--", "-h"]), run_of("-h", CliToggles::default()));
}

#[test]
fn interface_switch_takes_any_value() {
    assert_eq!(parse(&["--interface", "-h"]), run_of("-h", CliToggles::default()));
    assert_eq!(parse(&["--interface", ""]), run_of("", CliToggles::default()));
    assert_eq!(parse(&[""]), run_of("", CliToggles::default()));
}

#[test]
fn every_switch_on() {
    assert_eq!(
        parse(&[
            "--dry-run",
            "--derive-vf-macs",
            "--skip-if-vf-mac-set",
            "--enable-vf-true-promisc",
            "--disable-fw-lldp",
            "--asym-quirk",
            "--vlan-quirk",
            "pf0",
        ]),
        run_of(
            "pf0",
            CliToggles {
                dry_run: Some(true),
                derive_vf_macs: Some(true),
                skip_if_vf_mac_set: Some(true),
                enable_vf_true_promisc: Some(true),
                disable_fw_lldp: Some(true),
                asym_quirk: Some(true),
                vlan_quirk: Some(true),
            }
        )
    );
}

#[test]
fn every_switch_off() {
    assert_eq!(
        parse(&[
            "pf0",
            "--no-dry-run",
            "--no-derive-vf-macs",
            "--no-skip-if-vf-mac-set",
            "--no-enable-vf-true-promisc",
            "--no-disable-fw-lldp",
            "--no-asym-quirk",
            "--no-vlan-quirk",
        ]),
        run_of(
            "pf0",
            CliToggles {
                dry_run: Some(false),
                derive_vf_macs: Some(false),
                skip_if_vf_mac_set: Some(false),
                enable_vf_true_promisc: Some(false),
                disable_fw_lldp: Some(false),
                asym_quirk: Some(false),
                vlan_quirk: Some(false),
            }
        )
    );
}

#[test]
fn the_later_of_two_switches_counts() {
    assert_eq!(
        parse(&["--dry-run", "--no-dry-run", "pf0"]),
        run_of("pf0", CliToggles { dry_run: Some(false), ..CliToggles::default() })
    );
    assert_eq!(
        parse(&["--no-dry-run", "pf0", "--dry-run"]),
        run_of("pf0", CliToggles { dry_run: Some(true), ..CliToggles::default() })
    );
}

#[test]
fn switches_commute() {
    assert_eq!(
        parse(&["--dry-run", "--no-asym-quirk", "pf0"]),
        parse(&["--no-asym-quirk", "--dry-run", "pf0"])
    );
}

#[test]
fn interface_name_in_three_forms() {
    let expected = run_of("pf0", CliToggles::default());
    assert_eq!(parse(&["pf0"]), expected);
    assert_eq!(parse(&["--interface", "pf0"]), expected);
    assert_eq!(parse(&["--", "pf0"]), expected);
}

#[test]
fn usage_text_in_full() {
    assert_eq!(
        usage("prog"),
        format!(
            "{}{}{}{}{}{}{}{}{}{}{}{}{}{}{}",
            "usage: prog [options] <pf-ifname>\n",
            "\n",
            "Options:\n",
            "  --interface <pf-ifname>           PF interface name as an explicit switch\n",
            "  --dry-run | --no-dry-run         Enable or disable dry-run mode\n",
            "  --derive-vf-macs | --no-derive-vf-macs\n",
            "  --skip-if-vf-mac-set | --no-skip-if-vf-mac-set\n",
            "  --enable-vf-true-promisc | --no-enable-vf-true-promisc\n",
            "  --disable-fw-lldp | --no-disable-fw-lldp\n",
            "  --asym-quirk | --no-asym-quirk\n",
            "  --vlan-quirk | --no-vlan-quirk\n",
            "  -h, --help                       Show this help text\n",
            "\n",
            "Precedence: CLI switches > environment variables > ",
            ".link Property=I40E_* > built-in defaults.",
        )
    );
}

#[test]
fn slot_takes_one_name() {
    let mut slot = None;
    assert_eq!(set_ifname(&mut slot, "pf0".to_string()), Ok(()));
    assert_eq!(slot.as_deref(), Some("pf0"));
    assert_eq!(
        set_ifname(&mut slot, "pf1".to_string()),
        Err("unexpected argument: pf1".to_string())
    );
    assert_eq!(slot.as_deref(), Some("pf0"));
}

#[test]
fn switches_by_name() {
    assert_eq!(parse_switch("--vlan-quirk"), Some((Toggle::VlanQuirk, true)));
    assert_eq!(parse_switch("--no-derive-vf-macs"), Some((Toggle::DeriveVfMacs, false)));
    assert_eq!(parse_switch("vlan-quirk"), None);
}

#[test]
fn switches_are_noted_one_by_one() {
    let mut toggles = CliToggles::default();
    toggles.set(Toggle::SkipIfVfMacSet, true);
    toggles.set(Toggle::EnableVfTruePromisc, false);
    assert_eq!(
        toggles,
        CliToggles {
            skip_if_vf_mac_set: Some(true),
            enable_vf_true_promisc: Some(false),
            ..CliToggles::default()
        }
    );
}
