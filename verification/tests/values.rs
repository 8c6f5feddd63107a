use i40e_postlink::command::{
    log_info, log_warn, merge_output, render_command, report, run_command, CommandLine,
    CommandOutput, Finished, Level, LogEntry,
};
use i40e_postlink::ethtool::{
    ethtool_family_short, is_ethtool_family_token, normalize_family_token, normalize_on_off,
};
use i40e_postlink::mac::{
    derive_mac_prefix_from, format_mac, is_hex_mac, parse_mac, sanitize_llaa_unicast,
};
use i40e_postlink::number::{decimal_text, hex_octet_text, read_digits, signed_decimal_text};
use i40e_postlink::props::{parse_property, strip_wrapping_quotes, PropMap};
use i40e_postlink::text::{contains_text, lines, split_tokens, starts_with, trim};
use i40e_postlink::vf::{parse_vf_admin_mac, parse_vf_index, trim_np_suffix, vf_indices};

fn strings(items: &[&str]) -> Vec<String> {
    items.iter().map(|s| s.to_string()).collect()
}

// ---- Text ----

#[test]
fn tokens_are_separated_by_any_whitespace() {
    assert_eq!(split_tokens("  rxvlan\toff \u{2003}tso\non "), strings(&["rxvlan", "off", "tso", "on"]));
    assert_eq!(split_tokens(" \t "), Vec::<String>::new());
    assert_eq!(split_tokens(""), Vec::<String>::new());
}

#[test]
fn trimming_takes_unicode_whitespace() {
    assert_eq!(trim("\u{a0}\u{3000} a b \u{85}\n"), "a b");
    assert_eq!(trim(" \n"), "");
    assert_eq!(trim("\u{200b}a"), "\u{200b}a");
}

#[test]
fn lines_end_with_newline_or_both() {
    assert_eq!(lines("a\nb\r\n\nc"), strings(&["a", "b", "", "c"]));
    assert_eq!(lines("a\r\n"), strings(&["a"]));
    assert_eq!(lines("a\r"), strings(&["a\r"]));
    assert_eq!(lines(""), Vec::<String>::new());
}

#[test]
fn searching_text() {
    assert!(contains_text("disable-fw-lldp : off", "fw-lldp"));
    assert!(contains_text("abc", ""));
    assert!(!contains_text("ab", "abc"));
    assert!(starts_with("I40E_PF_MTU", "I40E_"));
    assert!(!starts_with("I40", "I40E_"));
}

// ---- Numbers ----

#[test]
fn numbers_as_text() {
    assert_eq!(decimal_text(0), "0");
    assert_eq!(decimal_text(18446744073709551615), "18446744073709551615");
    assert_eq!(signed_decimal_text(-2147483648), "-2147483648");
    assert_eq!(signed_decimal_text(127), "127");
    assert_eq!(hex_octet_text(5), "05");
    assert_eq!(hex_octet_text(255), "ff");
    assert_eq!(hex_octet_text(256), "100");
}

#[test]
fn decimal_text_reads_back() {
    assert_eq!(read_digits(&decimal_text(4711)), Some(4711));
    assert_eq!(read_digits(""), None);
}

// ---- MAC addresses ----

#[test]
fn addresses_are_read() {
    assert_eq!(parse_mac("00:11:22:aa:BB:ff"), Some([0, 0x11, 0x22, 0xaa, 0xbb, 0xff]));
    assert_eq!(parse_mac(" 00:11:22:33:44:55\n"), Some([0, 0x11, 0x22, 0x33, 0x44, 0x55]));
}

#[test]
fn an_octet_is_two_hexadecimal_digits() {
    assert_eq!(parse_mac("+a:11:22:33:44:55"), None);
    assert_eq!(parse_mac("-a:11:22:33:44:55"), None);
    assert_eq!(parse_mac("00:11:22:33:44:+5"), None);
    assert_eq!(parse_mac("0a:11:22:33:44:5F"), Some([0x0a, 0x11, 0x22, 0x33, 0x44, 0x5f]));
    assert!(!is_hex_mac("+a:11:22:33:44:55"));
    assert_eq!(sanitize_llaa_unicast("+a:11:22:33:44:55"), None);
}

#[test]
fn what_is_no_address() {
    assert_eq!(parse_mac(""), None);
    assert_eq!(parse_mac("00:11:22:33:44"), None);
    assert_eq!(parse_mac("00:11:22:33:44:55:66"), None);
    assert_eq!(parse_mac("0:11:22:33:44:555"), None);
    assert_eq!(parse_mac("00-11-22-33-44-55"), None);
    assert_eq!(parse_mac("gg:11:22:33:44:55"), None);
    assert_eq!(parse_mac("\u{e9}:11:22:33:44:55"), None);
}

#[test]
fn addresses_read_back() {
    let octets = [0x02, 0xff, 0x00, 0x9a, 0x10, 0x07];
    assert_eq!(format_mac(octets), "02:ff:00:9a:10:07");
    assert_eq!(parse_mac(&format_mac(octets)), Some(octets));
}

#[test]
fn addresses_of_one_adapter() {
    assert!(is_hex_mac("00:11:22:33:44:55"));
    assert!(!is_hex_mac("00:00:00:00:00:00"));
    assert!(!is_hex_mac("ff:ff:ff:ff:ff:ff"));
    assert!(!is_hex_mac("01:11:22:33:44:55"));
    assert!(!is_hex_mac("nonsense"));
}

#[test]
fn sanitizing_is_idempotent_and_keeps_the_rest() {
    let once = sanitize_llaa_unicast("FD:11:22:33:44:5A").unwrap();
    assert_eq!(once, "fe:11:22:33:44:5a");
    assert_eq!(sanitize_llaa_unicast(&once), Some(once.clone()));
    assert!(is_hex_mac(&once));
    assert_eq!(sanitize_llaa_unicast("00:00:00:00:00:00").as_deref(), Some("02:00:00:00:00:00"));
    assert_eq!(sanitize_llaa_unicast("fd:11"), None);
}

#[test]
fn derived_prefix_takes_the_low_half_of_the_function() {
    assert_eq!(
        derive_mac_prefix_from("3c:fd:fe:aa:bc:de", 0x71).as_deref(),
        Some("3e:fd:fe:aa:b1:")
    );
    assert_eq!(derive_mac_prefix_from("3c:fd:fe:aa:bc", 1), None);
}

#[test]
fn derived_addresses_end_with_the_index() {
    let prefix = derive_mac_prefix_from("3c:fd:fe:aa:bc:de", 1).unwrap();
    let first = sanitize_llaa_unicast(&format!("{prefix}{}", hex_octet_text(0)));
    let last = sanitize_llaa_unicast(&format!("{prefix}{}", hex_octet_text(255)));
    assert_eq!(first.as_deref(), Some("3e:fd:fe:aa:b1:00"));
    assert_eq!(last.as_deref(), Some("3e:fd:fe:aa:b1:ff"));
    assert_eq!(sanitize_llaa_unicast(&format!("{prefix}{}", hex_octet_text(256))), None);
}

// ---- ethtool ----

#[test]
fn families_by_letter_and_name() {
    for (switch, names) in [
        ("-K", vec!["K", "k", "-K", "--offload", "features"]),
        ("-C", vec!["C", "--coalesce"]),
        ("-A", vec!["A", "pause"]),
        ("-G", vec!["G", "ring"]),
        ("-L", vec!["L", "channels", "channel"]),
        ("-X", vec!["X", "rxfh", "RSS", "--rxfh"]),
        ("-N", vec!["N", "ntuple", "--config-ntuple"]),
    ] {
        for name in names {
            assert_eq!(ethtool_family_short(name), Some(switch), "{name}");
            assert!(is_ethtool_family_token(name));
        }
    }
    assert_eq!(ethtool_family_short("rxvlan"), None);
    assert_eq!(ethtool_family_short(""), None);
    assert!(!is_ethtool_family_token("rings"));
}

#[test]
fn family_tokens_are_lowered_beyond_ascii() {
    // The Kelvin sign has the letter k as its lower case, and one letter may become two.
    assert_eq!(normalize_family_token("--\u{212a}"), "k");
    assert_eq!(ethtool_family_short("\u{212a}"), Some("-K"));
    assert_eq!(normalize_family_token("\u{130}-A"), "i\u{307}a");
}

#[test]
fn spellings_of_on_and_off() {
    for on in ["1", "true", "yes", "on", "ON", "Yes"] {
        assert_eq!(normalize_on_off(on), "on");
    }
    for off in ["0", "false", "no", "off", "OFF", "No"] {
        assert_eq!(normalize_on_off(off), "off");
    }
    assert_eq!(normalize_on_off("Auto"), "Auto");
    assert_eq!(normalize_on_off(" on"), " on");
    assert_eq!(normalize_on_off(&normalize_on_off("TRUE")), "on");
}

// ---- Virtual functions ----

#[test]
fn the_last_np_is_cut() {
    assert_eq!(trim_np_suffix("enp2s0f1np1"), "enp2s0f1");
    assert_eq!(trim_np_suffix("enp2s0"), "e");
    assert_eq!(trim_np_suffix("np"), "");
    assert_eq!(trim_np_suffix(""), "");
    assert_eq!(trim_np_suffix("\u{e9}np0"), "\u{e9}");
}

#[test]
fn admin_address_is_that_of_the_asked_function() {
    let output = "5: pf0: <UP>\n    vf 1: MAC aa:bb:cc:dd:ee:01, trust on\n    vf 10: MAC aa:bb:cc:dd:ee:0a\n";
    assert_eq!(parse_vf_admin_mac(output, 1).as_deref(), Some("aa:bb:cc:dd:ee:01"));
    assert_eq!(parse_vf_admin_mac(output, 10).as_deref(), Some("aa:bb:cc:dd:ee:0a"));
    assert_eq!(parse_vf_admin_mac(output, 0), None);
}

#[test]
fn admin_address_needs_its_word() {
    assert_eq!(parse_vf_admin_mac("vf 0 link/ether aa:bb:cc:dd:ee:ff", 0), None);
    assert_eq!(parse_vf_admin_mac("vf 0 MAC", 0), None);
    assert_eq!(
        parse_vf_admin_mac("vf 0 trust on MAC aa:bb:cc:dd:ee:ff:,", 0).as_deref(),
        Some("aa:bb:cc:dd:ee:ff")
    );
}

#[test]
fn a_blank_line_ends_the_search() {
    assert_eq!(parse_vf_admin_mac("\nvf 0 MAC aa:bb:cc:dd:ee:ff", 0), None);
    assert_eq!(parse_vf_admin_mac("vf\nvf 0 MAC aa:bb:cc:dd:ee:ff", 0), None);
    assert_eq!(
        parse_vf_admin_mac("vf 0\nvf 0 MAC aa:bb:cc:dd:ee:ff", 0).as_deref(),
        Some("aa:bb:cc:dd:ee:ff")
    );
}

#[test]
fn indices_in_names() {
    assert_eq!(parse_vf_index("virtfn12"), Some(12));
    assert_eq!(parse_vf_index("virtfn"), None);
    assert_eq!(parse_vf_index("virtfn1a2"), Some(12));
    assert_eq!(parse_vf_index("physfn1"), None);
    assert_eq!(parse_vf_index("virtfn99999999999999999999999"), None);
}

#[test]
fn indices_are_sorted_and_single() {
    let names = strings(&["virtfn10", "net", "virtfn2", "virtfn02", "virtfn0", "physfn"]);
    assert_eq!(vf_indices(&names), vec![0, 2, 10]);
    assert_eq!(vf_indices(&Vec::new()), Vec::<usize>::new());
}

// ---- Properties ----

#[test]
fn quotes_go_in_pairs() {
    assert_eq!(strip_wrapping_quotes("\"gro off\""), "gro off");
    assert_eq!(strip_wrapping_quotes("\"gro off"), "\"gro off");
    assert_eq!(strip_wrapping_quotes("\""), "\"");
    assert_eq!(strip_wrapping_quotes("\"\""), "");
    assert_eq!(strip_wrapping_quotes("\"\"a\"\""), "\"a\"");
}

#[test]
fn properties_in_lines() {
    let pair = |k: &str, v: &str| Some((k.to_string(), v.to_string()));
    assert_eq!(parse_property("I40E_PF_OFFLOAD= \"gro off\" "), pair("I40E_PF_OFFLOAD", "gro off"));
    assert_eq!(parse_property("I40E_A=b=c"), pair("I40E_A", "b=c"));
    assert_eq!(parse_property("I40E_A"), None);
    assert_eq!(parse_property("ID_NET=1"), None);
    assert_eq!(parse_property(" I40E_A=1"), None);
}

#[test]
fn properties_are_kept_in_order() {
    let mut map = PropMap::new();
    map.insert("I40E_B".to_string(), "1".to_string());
    map.insert("I40E_A".to_string(), "2".to_string());
    map.insert("I40E_B".to_string(), "3".to_string());
    assert_eq!(
        map.entries(),
        &vec![("I40E_A".to_string(), "2".to_string()), ("I40E_B".to_string(), "3".to_string())]
    );
    assert_eq!(map.get("I40E_B"), Some("3"));
    assert_eq!(map.get("I40E_C"), None);
    assert!(map.contains_key("I40E_A"));
    assert!(!map.contains_key("I40E_"));
}

// ---- Commands ----

#[test]
fn commands_are_shown_with_spaces() {
    assert_eq!(render_command("ip", &strings(&["link", "show"])), "ip link show");
    assert_eq!(render_command("ip", &[]), "ip");
    assert_eq!(render_command("ip", &strings(&["a b", ""])), "ip a b ");
}

#[test]
fn log_lines_have_the_level() {
    assert_eq!(log_info("done"), "<6>i40e-postlink: done");
    assert_eq!(log_warn("failed"), "<4>i40e-postlink: failed");
    let entry = LogEntry { level: Level::Warning, message: "failed".to_string() };
    assert_eq!(entry.line(), "<4>i40e-postlink: failed");
}

#[test]
fn outputs_are_merged_on_lines_of_their_own() {
    assert_eq!(merge_output("out", "err"), "out\nerr");
    assert_eq!(merge_output("out\n", "err"), "out\nerr");
    assert_eq!(merge_output("", "err"), "err");
    assert_eq!(merge_output("out", ""), "out");
}

#[test]
fn output_is_repaired_where_it_is_not_utf8() {
    let finished = Finished {
        success: false,
        code: None,
        stdout: vec![0xc3, 0xa9, b'a'],
        stderr: vec![b'b', 0xff, b'c'],
    };
    let output = run_command(Some(finished)).unwrap();
    assert!(!output.success);
    assert_eq!(output.output, "\u{e9}a\nb\u{fffd}c");
    assert_eq!(output.rc, 1);
    assert!(run_command(None).is_none());
}

#[test]
fn the_code_of_a_program_is_kept() {
    let finished = Finished { success: true, code: Some(0), stdout: vec![], stderr: vec![] };
    let output = run_command(Some(finished)).unwrap();
    assert!(output.success);
    assert_eq!(output.output, "");
    assert_eq!(output.rc, 0);
}

#[test]
fn reports_of_commands() {
    let command =
        CommandLine { program: "ip".to_string(), args: strings(&["link", "set", "dev", "pf0"]) };
    assert_eq!(
        report(&command, &None).line(),
        "<4>i40e-postlink: cmd failed (rc=1): ip link set dev pf0 :: failed to spawn command"
    );
    let failed = CommandOutput { success: false, output: " no such device\n".to_string(), rc: -2 };
    assert_eq!(
        report(&command, &Some(failed)).line(),
        "<4>i40e-postlink: cmd failed (rc=-2): ip link set dev pf0 :: no such device"
    );
    let done = CommandOutput { success: true, output: "noise".to_string(), rc: 0 };
    assert_eq!(report(&command, &Some(done)).line(), "<6>i40e-postlink: applied: ip link set dev pf0");
}
