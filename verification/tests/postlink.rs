use i40e_postlink::cli::{parse_args, CliOptions, CliToggles, ParseOutcome};
use i40e_postlink::ethtool::normalize_on_off;
use i40e_postlink::mac::{derive_mac_prefix_from, sanitize_llaa_unicast};
use i40e_postlink::vf::{parse_vf_admin_mac, trim_np_suffix};

#[test]
fn parse_args_accepts_positional_interface_and_toggle_switches() {
    let outcome = parse_args(
        vec![
            "--dry-run".to_string(),
            "--no-vlan-quirk".to_string(),
            "enp2s0f0np0".to_string(),
        ],
        "i40e-postlink",
    )
    .expect("parse should succeed");

    assert_eq!(
        outcome,
        ParseOutcome::Run(CliOptions {
            ifname: "enp2s0f0np0".to_string(),
            toggles: CliToggles {
                dry_run: Some(true),
                vlan_quirk: Some(false),
                ..CliToggles::default()
            },
        })
    );
}

#[test]
fn parse_args_accepts_interface_switch() {
    let outcome = parse_args(
        vec!["--interface".to_string(), "enp2s0f1np1".to_string()],
        "i40e-postlink",
    )
    .expect("parse should succeed");

    assert_eq!(
        outcome,
        ParseOutcome::Run(CliOptions {
            ifname: "enp2s0f1np1".to_string(),
            toggles: CliToggles::default(),
        })
    );
}

#[test]
fn parse_args_returns_help_text() {
    let outcome =
        parse_args(vec!["--help".to_string()], "i40e-postlink").expect("help should parse");

    assert!(matches!(outcome, ParseOutcome::Help(_)));
}

#[test]
fn sanitize_mac_sets_laa_and_clears_multicast() {
    assert_eq!(
        sanitize_llaa_unicast("01:11:22:33:44:55").as_deref(),
        Some("02:11:22:33:44:55")
    );
}

#[test]
fn derive_prefix_embeds_pf_function_nibble() {
    assert_eq!(
        derive_mac_prefix_from("00:11:22:33:44:55", 0x0b).as_deref(),
        Some("02:11:22:33:4b:")
    );
}

#[test]
fn normalize_query_rss_variants() {
    assert_eq!(normalize_on_off("true"), "on");
    assert_eq!(normalize_on_off("0"), "off");
    assert_eq!(normalize_on_off("auto"), "auto");
}

#[test]
fn trim_np_suffix_matches_shell_pattern() {
    assert_eq!(trim_np_suffix("enp2s0f0np0"), "enp2s0f0");
    assert_eq!(trim_np_suffix("eth0"), "eth0");
}

#[test]
fn parse_vf_admin_mac_accepts_both_ip_formats() {
    let without_colon = "    vf 3 MAC aa:bb:cc:dd:ee:ff, spoof checking off\n";
    let with_colon = "    vf 3: MAC aa:bb:cc:dd:ee:01, spoof checking off\n";

    assert_eq!(
        parse_vf_admin_mac(without_colon, 3).as_deref(),
        Some("aa:bb:cc:dd:ee:ff")
    );
    assert_eq!(
        parse_vf_admin_mac(with_colon, 3).as_deref(),
        Some("aa:bb:cc:dd:ee:01")
    );
}
