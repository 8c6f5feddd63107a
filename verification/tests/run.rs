use i40e_postlink::app::{env_toggle, env_var, join_path, App, Step};
use i40e_postlink::cli::{CliOptions, CliToggles};
use i40e_postlink::command::{report, Action, CommandLine, CommandOutput, Query, Reply};

/// A host that gives the same answers throughout a run.
struct Host {
    properties: Option<&'static str>,
    flags: Option<&'static str>,
    address: Option<&'static str>,
    device: Option<&'static str>,
    names: Vec<&'static str>,
    paths: Vec<&'static str>,
    description: Option<&'static str>,
}

const BOTH_FLAGS: &str = "disable-fw-lldp        : off\nvf-true-promisc-support: off\n";

fn host() -> Host {
    Host {
        properties: None,
        flags: Some(BOTH_FLAGS),
        address: Some("3c:fd:fe:aa:bc:de\n"),
        device: Some("0000:02:00.1"),
        names: vec![],
        paths: vec![],
        description: None,
    }
}

fn written(text: Option<&str>) -> Reply {
    match text {
        Some(t) => {
            Reply::Output(CommandOutput { success: true, output: t.to_string(), rc: 0 })
        }
        None => Reply::Nothing,
    }
}

fn told(text: Option<&str>) -> Reply {
    match text {
        Some(t) => Reply::Text(t.to_string()),
        None => Reply::Nothing,
    }
}

impl Host {
    fn answer(&self, query: &Query) -> Reply {
        match query {
            Query::Capture(command) => match command.program.as_str() {
                "udevadm" => {
                    assert_eq!(command.args[..4].join(" "), "info -q property -p");
                    written(self.properties)
                }
                "ethtool" => {
                    assert_eq!(command.args[0], "--show-priv-flags");
                    written(self.flags)
                }
                _ => {
                    assert_eq!(command.args[..3].join(" "), "-d link show");
                    written(self.description)
                }
            },
            Query::ReadFile(path) => {
                assert!(path.ends_with("/address"));
                told(self.address)
            }
            Query::TargetName(path) => {
                assert!(path.ends_with("/device"));
                told(self.device)
            }
            Query::ListDirectory(path) => {
                assert!(path.ends_with("/device"));
                Reply::Names(self.names.iter().map(|n| n.to_string()).collect())
            }
            Query::Exist(paths) => {
                Reply::Existing(paths.iter().map(|p| self.paths.contains(&p.as_str())).collect())
            }
        }
    }
}

fn new_app(ifname: &str, toggles: CliToggles, vars: &[(&str, &str)]) -> App {
    let vars: Vec<(String, String)> =
        vars.iter().map(|(k, v)| (k.to_string(), v.to_string())).collect();
    App::new(CliOptions { ifname: ifname.to_string(), toggles }, &vars)
}

fn shown(command: &CommandLine) -> String {
    let mut words = vec![command.program.clone()];
    words.extend(command.args.iter().cloned());
    words.join(" ")
}

/// What is done in a step: a command as it is, a log entry with its level before it.
fn done_in(step: &Step) -> Vec<String> {
    step.plan
        .actions
        .iter()
        .map(|action| match action {
            Action::Log(entry) => entry.line().replacen("i40e-postlink: ", "", 1),
            Action::Apply(command) => shown(command),
        })
        .collect()
}

/// All that is done in a run, and how many answers it took.
fn drive(mut app: App, host: &Host) -> (Vec<String>, usize) {
    let mut done = Vec::new();
    let mut answers = 0;
    let mut step = app.run(Reply::Nothing);
    loop {
        done.extend(done_in(&step));
        match &step.query {
            Some(query) => {
                let reply = host.answer(query);
                answers += 1;
                step = app.run(reply);
            }
            None => return (done, answers),
        }
    }
}

fn run_on(host: &Host, toggles: CliToggles, vars: &[(&str, &str)]) -> Vec<String> {
    drive(new_app("enp2s0f0np0", toggles, vars), host).0
}

/// Everything switched off that is on by default.
fn quiet() -> CliToggles {
    CliToggles {
        dry_run: None,
        derive_vf_macs: Some(false),
        skip_if_vf_mac_set: Some(false),
        enable_vf_true_promisc: Some(false),
        disable_fw_lldp: Some(false),
        asym_quirk: Some(false),
        vlan_quirk: Some(false),
    }
}

const LLDP_OFF: &str = "ethtool --set-priv-flags enp2s0f0np0 disable-fw-lldp off";
const COMPLETE: &str = "<6>postlink completed on enp2s0f0np0";

// ---- Whole runs ----

#[test]
fn a_default_run_without_virtual_functions() {
    assert_eq!(
        run_on(&host(), CliToggles::default(), &[]),
        vec![
            "ethtool --set-priv-flags enp2s0f0np0 disable-fw-lldp on",
            "ethtool --set-priv-flags enp2s0f0np0 vf-true-promisc-support on",
            "ethtool -C enp2s0f0np0 adaptive-rx off adaptive-tx off rx-usecs 0 tx-usecs 0",
            "ethtool -K enp2s0f0np0 tx-checksum-ip-generic off tx-checksum-sctp off",
            "<6>derived VF MAC prefix from enp2s0f0np0: 3e:fd:fe:aa:b1:xx",
            COMPLETE,
        ]
    );
}

#[test]
fn a_default_run_with_two_virtual_functions() {
    let mut h = host();
    h.names = vec!["virtfn1", "driver", "virtfn0"];
    h.paths = vec!["/sys/class/net/enp2s0f0v0"];
    h.description = Some(
        "2: enp2s0f0np0: <UP>\n\
         \x20   vf 0 MAC 00:00:00:00:00:00, trust on\n\
         \x20   vf 1 MAC 52:54:00:00:00:01, trust on\n",
    );
    assert_eq!(
        run_on(&h, CliToggles::default(), &[])[4..],
        [
            "ethtool -K enp2s0f0np0 rxvlan off",
            "ethtool -K enp2s0f0v0 rxvlan off",
            "<4>VF 1: no host-side netdev found; skipping VF-netdev ethtool/ip tunables",
            "ethtool -K enp2s0f0np0 rxvlan off",
            "<6>derived VF MAC prefix from enp2s0f0np0: 3e:fd:fe:aa:b1:xx",
            "ip link set dev enp2s0f0np0 vf 0 spoofchk off",
            "ip link set dev enp2s0f0np0 vf 0 trust on",
            "ip link set dev enp2s0f0np0 vf 0 mac 3e:fd:fe:aa:b1:00",
            "<6>VF 0: set derived MAC 3e:fd:fe:aa:b1:00",
            "ip link set dev enp2s0f0np0 vf 0 vlan 10",
            "ip link set dev enp2s0f0np0 vf 0 vlan 0",
            "ip link set dev enp2s0f0np0 vf 1 spoofchk off",
            "ip link set dev enp2s0f0np0 vf 1 trust on",
            "<6>VF 1: keep existing admin MAC (52:54:00:00:00:01)",
            "ip link set dev enp2s0f0np0 vf 1 vlan 10",
            "ip link set dev enp2s0f0np0 vf 1 vlan 0",
            COMPLETE,
        ]
    );
}

#[test]
fn a_quiet_run_does_little() {
    assert_eq!(run_on(&host(), quiet(), &[]), vec![LLDP_OFF, COMPLETE]);
}

#[test]
fn every_property_of_the_physical_function() {
    let mut h = host();
    h.properties = Some(
        "DEVPATH=/devices/pci\n\
         I40E_PRIVFLAGS=\"a on b off c\"\n\
         I40E_PF_OFFLOAD=gro off\n\
         I40E_PF_COALESCE=rx-usecs 1\n\
         I40E_PF_PAUSE=rx off\n\
         I40E_PF_RINGS=rx 4096\n\
         I40E_PF_CHANNELS=combined 8\n\
         I40E_PF_RSS=hfunc toeplitz\n\
         I40E_PF_RXFH=equal 2\n\
         I40E_PF_NTUPLE=rx-flow-hash tcp4 sdfn\n\
         I40E_PF_TXQUEUELEN=10000\n\
         I40E_PF_ALIAS=pf 0\n\
         I40E_PF_ARP=on\n\
         I40E_PF_MULTICAST=on\n\
         I40E_PF_ALLMULTICAST=off\n\
         I40E_PF_PROMISC=off\n\
         I40E_PF_MAC=aa:bb:cc:dd:ee:ff\n\
         I40E_PF_MTU=9000\n",
    );
    assert_eq!(
        run_on(&h, quiet(), &[]),
        vec![
            "ethtool --set-priv-flags enp2s0f0np0 a on",
            "ethtool --set-priv-flags enp2s0f0np0 b off",
            "ethtool -K enp2s0f0np0 gro off",
            "ethtool -C enp2s0f0np0 rx-usecs 1",
            "ethtool -A enp2s0f0np0 rx off",
            "ethtool -G enp2s0f0np0 rx 4096",
            "ethtool -L enp2s0f0np0 combined 8",
            "ethtool -X enp2s0f0np0 hfunc toeplitz",
            "ethtool -X enp2s0f0np0 equal 2",
            "ethtool -N enp2s0f0np0 rx-flow-hash tcp4 sdfn",
            LLDP_OFF,
            "ip link set dev enp2s0f0np0 txqueuelen 10000",
            "ip link set dev enp2s0f0np0 alias pf 0",
            "ip link set dev enp2s0f0np0 arp on",
            "ip link set dev enp2s0f0np0 multicast on",
            "ip link set dev enp2s0f0np0 allmulticast off",
            "ip link set dev enp2s0f0np0 promisc off",
            "ip link set dev enp2s0f0np0 address aa:bb:cc:dd:ee:ff",
            "ip link set dev enp2s0f0np0 mtu 9000",
            COMPLETE,
        ]
    );
}

#[test]
fn every_property_of_a_virtual_function() {
    let mut h = host();
    h.names = vec!["virtfn3"];
    h.paths = vec!["/sys/class/net/enp2s0f0np0v3", "/sys/class/net/enp2s0f0v3"];
    h.properties = Some(
        "I40E_VF3_OFFLOAD=rxvlan off\n\
         I40E_VF3_COALESCE=rx-usecs 0\n\
         I40E_VF3_PAUSE=rx off\n\
         I40E_VF3_RINGS=rx 1024\n\
         I40E_VF3_CHANNELS=combined 2\n\
         I40E_VF3_RSS=hfunc toeplitz\n\
         I40E_VF3_NTUPLE=rx-flow-hash udp4 sdfn\n\
         I40E_VF3_MAC=01:00:5e:00:00:01\n\
         I40E_VF3_VLAN_QUIRK=1\n\
         I40E_VF3_ASYM_QUIRK=1\n\
         I40E_VF3_TXQUEUELEN=10000\n\
         I40E_VF3_MTU=9000\n\
         I40E_VF3_ALIAS=vf3\n\
         I40E_VF3_ARP=on\n\
         I40E_VF3_MULTICAST=on\n\
         I40E_VF3_ALLMULTICAST=on\n\
         I40E_VF3_PROMISC=off\n\
         I40E_VF3_VLAN=7\n\
         I40E_VF3_RATE=1000\n\
         I40E_VF3_SPOOFCHK=on\n\
         I40E_VF3_STATE=enable\n\
         I40E_VF3_QUERY_RSS=Yes\n\
         I40E_VF3_TRUST=off\n\
         I40E_VF3_MAX_TX_RATE=10000\n\
         I40E_VF3_MIN_TX_RATE=1000\n",
    );
    assert_eq!(
        run_on(&h, quiet(), &[])[1..],
        [
            "ethtool -K enp2s0f0np0v3 rxvlan off",
            "ethtool -C enp2s0f0np0v3 rx-usecs 0",
            "ethtool -A enp2s0f0np0v3 rx off",
            "ethtool -G enp2s0f0np0v3 rx 1024",
            "ethtool -L enp2s0f0np0v3 combined 2",
            "ethtool -X enp2s0f0np0v3 hfunc toeplitz",
            "ethtool -N enp2s0f0np0v3 rx-flow-hash udp4 sdfn",
            "ethtool -K enp2s0f0np0 rxvlan off",
            "ethtool -K enp2s0f0np0v3 rxvlan off",
            "ip link set dev enp2s0f0np0 vf 3 vlan 7",
            "ip link set dev enp2s0f0np0 vf 3 rate 1000",
            "ip link set dev enp2s0f0np0 vf 3 spoofchk on",
            "ip link set dev enp2s0f0np0 vf 3 state enable",
            "ip link set dev enp2s0f0np0 vf 3 query_rss on",
            "ip link set dev enp2s0f0np0 vf 3 trust off",
            "ip link set dev enp2s0f0np0 vf 3 max_tx_rate 10000",
            "ip link set dev enp2s0f0np0 vf 3 min_tx_rate 1000",
            "ip link set dev enp2s0f0np0v3 txqueuelen 10000",
            "ip link set dev enp2s0f0np0v3 mtu 9000",
            "ip link set dev enp2s0f0np0v3 alias vf3",
            "ip link set dev enp2s0f0np0v3 arp on",
            "ip link set dev enp2s0f0np0v3 multicast on",
            "ip link set dev enp2s0f0np0v3 allmulticast on",
            "ip link set dev enp2s0f0np0v3 promisc off",
            "<6>VF 3: ASYM_QUIRK requested (host-path quirk); no VF-side action",
            "ip link set dev enp2s0f0np0 vf 3 spoofchk off",
            "ip link set dev enp2s0f0np0 vf 3 trust on",
            "ip link set dev enp2s0f0np0 vf 3 vlan 10",
            "ip link set dev enp2s0f0np0 vf 3 vlan 0",
            COMPLETE,
        ]
    );
}

#[test]
fn an_explicit_address_is_sanitized() {
    let mut h = host();
    h.names = vec!["virtfn0"];
    h.paths = vec!["/sys/class/net/enp2s0f0v0"];
    h.properties = Some("I40E_VF0_MAC=50:54:00:AA:00:01\n");
    assert_eq!(
        run_on(&h, quiet(), &[])[1..],
        [
            "ip link set dev enp2s0f0np0 vf 0 spoofchk off",
            "ip link set dev enp2s0f0np0 vf 0 trust on",
            "ip link set dev enp2s0f0np0 vf 0 mac 52:54:00:aa:00:01",
            "<6>VF 0: explicit admin MAC 52:54:00:aa:00:01",
            COMPLETE,
        ]
    );
}

#[test]
fn no_address_is_derived_above_255() {
    let mut h = host();
    h.names = vec!["virtfn256"];
    h.paths = vec!["/sys/class/net/enp2s0f0v256"];
    let toggles = CliToggles { derive_vf_macs: Some(true), ..quiet() };
    assert_eq!(
        run_on(&h, toggles, &[])[1..],
        [
            "<6>derived VF MAC prefix from enp2s0f0np0: 3e:fd:fe:aa:b1:xx",
            "ip link set dev enp2s0f0np0 vf 256 spoofchk off",
            "ip link set dev enp2s0f0np0 vf 256 trust on",
            COMPLETE,
        ]
    );
}

#[test]
fn an_existing_address_is_replaced_where_it_may_be() {
    let mut h = host();
    h.names = vec!["virtfn0"];
    h.paths = vec!["/sys/class/net/enp2s0f0v0"];
    h.description = Some("    vf 0 MAC 52:54:00:00:00:01, trust on\n");
    let toggles = CliToggles { derive_vf_macs: Some(true), ..quiet() };
    let done = run_on(&h, toggles, &[]);
    assert!(done.contains(&"<6>VF 0: set derived MAC 3e:fd:fe:aa:b1:00".to_string()));
}

#[test]
fn nothing_is_derived_without_an_address() {
    let mut h = host();
    h.names = vec!["virtfn0"];
    h.paths = vec!["/sys/class/net/enp2s0f0v0"];
    h.address = None;
    let toggles = CliToggles { derive_vf_macs: Some(true), ..quiet() };
    assert_eq!(run_on(&h, toggles, &[]).len(), 4);
    h.address = Some("unknown");
    assert_eq!(run_on(&h, toggles, &[]).len(), 4);
}

#[test]
fn a_netdev_that_appears_late_is_found() {
    let mut app = new_app("pf0", CliToggles { vlan_quirk: Some(true), ..quiet() }, &[]);
    app.run(Reply::Nothing);
    app.run(Reply::Nothing);
    app.run(Reply::Nothing);
    let step = app.run(Reply::Names(vec!["virtfn0".to_string()]));
    assert!(matches!(step.query, Some(Query::Exist(_))));
    let step = app.run(Reply::Existing(vec![false]));
    assert_eq!(
        done_in(&step),
        vec![
            "<4>VF 0: no host-side netdev found; skipping VF-netdev ethtool/ip tunables",
            "ethtool -K pf0 rxvlan off",
        ]
    );
    assert!(matches!(step.query, Some(Query::Exist(_))));
    let step = app.run(Reply::Existing(vec![true]));
    assert_eq!(done_in(&step)[0], "ethtool -K pf0v0 rxvlan off");
    assert!(step.query.is_none());
}

/// A host with much to do.
fn busy_host() -> Host {
    let mut h = host();
    h.names = vec!["virtfn0", "virtfn1"];
    h.paths = vec!["/sys/class/net/enp2s0f0v0", "/sys/class/net/enp2s0f0v1"];
    h.properties = Some(
        "I40E_PF_MTU=9000\nI40E_PF_OFFLOAD=gro off\nI40E_VF_MTU=1500\nI40E_VF_RINGS=rx 64\n",
    );
    h
}

#[test]
fn all_of_ethtool_comes_before_all_of_ip() {
    let done = run_on(&busy_host(), CliToggles::default(), &[]);
    let last_ethtool = done.iter().rposition(|line| line.starts_with("ethtool ")).unwrap();
    let first_ip = done.iter().position(|line| line.starts_with("ip ")).unwrap();
    assert!(last_ethtool < first_ip);
    assert_eq!(done[last_ethtool], "ethtool -K enp2s0f0v1 rxvlan off");
    assert_eq!(done[first_ip], "ip link set dev enp2s0f0np0 mtu 9000");
}

#[test]
fn only_one_asks_for_the_vlan_workaround() {
    let mut h = host();
    h.names = vec!["virtfn0"];
    h.paths = vec!["/sys/class/net/enp2s0f0v0"];
    let bounced = |h: &Host| {
        let done = run_on(h, quiet(), &[]);
        let off = done.contains(&"ethtool -K enp2s0f0v0 rxvlan off".to_string());
        let bounce = done.contains(&"ip link set dev enp2s0f0np0 vf 0 vlan 10".to_string());
        assert_eq!(off, bounce);
        off
    };
    for (properties, expected) in [
        ("I40E_VF0_VLAN_QUIRK=1\n", true),
        ("I40E_VF_VLAN_QUIRK=1\n", true),
        ("I40E_VF0_VLAN_QUIRK=0\n", false),
        ("I40E_VF0_VLAN_QUIRK=\n", false),
        ("I40E_VF_VLAN_QUIRK=0\n", false),
        ("I40E_VF_VLAN_QUIRK=1\nI40E_VF0_VLAN_QUIRK=0\n", false),
    ] {
        h.properties = Some(properties);
        assert_eq!(bounced(&h), expected, "{properties}");
    }
}

#[test]
fn addresses_are_derived_from_the_one_that_was_set() {
    let mut h = host();
    h.names = vec!["virtfn0", "virtfn1"];
    h.paths = vec!["/sys/class/net/enp2s0f0v0", "/sys/class/net/enp2s0f0v1"];
    h.properties = Some("I40E_PF_MAC=3c:fd:fe:11:22:33\nI40E_PF_MTU=9000\n");
    let mut app = new_app("enp2s0f0np0", CliToggles::default(), &[]);
    let mut done = Vec::new();
    let mut step = app.run(Reply::Nothing);
    loop {
        for line in done_in(&step) {
            if line == "ip link set dev enp2s0f0np0 address 3c:fd:fe:11:22:33" {
                h.address = Some("3c:fd:fe:11:22:33\n");
            }
            done.push(line);
        }
        match &step.query {
            Some(query) => {
                let reply = h.answer(query);
                step = app.run(reply);
            }
            None => break,
        }
    }
    let first_ip = done.iter().position(|line| line.starts_with("ip ")).unwrap();
    assert_eq!(
        done[first_ip..first_ip + 3],
        [
            "ip link set dev enp2s0f0np0 address 3c:fd:fe:11:22:33",
            "ip link set dev enp2s0f0np0 mtu 9000",
            "<6>derived VF MAC prefix from enp2s0f0np0: 3e:fd:fe:11:21:xx",
        ]
    );
    assert!(done.contains(&"<6>VF 0: set derived MAC 3e:fd:fe:11:21:00".to_string()));
    assert!(done.contains(&"<6>VF 1: set derived MAC 3e:fd:fe:11:21:01".to_string()));
}

#[test]
fn the_address_is_asked_for_after_the_link_is_set() {
    let mut app = new_app("pf0", CliToggles::default(), &[("I40E_PF_MAC", "3c:fd:fe:11:22:33")]);
    app.run(Reply::Nothing);
    app.run(Reply::Nothing);
    let step = app.run(Reply::Nothing);
    assert!(matches!(step.query, Some(Query::ListDirectory(_))));
    let step = app.run(Reply::Nothing);
    assert_eq!(done_in(&step), vec!["ip link set dev pf0 address 3c:fd:fe:11:22:33"]);
    match step.query {
        Some(Query::ReadFile(path)) => assert_eq!(path, "/sys/class/net/pf0/address"),
        other => panic!("{other:?}"),
    }
}

// ---- Dry runs ----

#[test]
fn a_dry_run_says_what_would_be_run() {
    let h = busy_host();
    let wet = run_on(&h, CliToggles { dry_run: Some(false), ..CliToggles::default() }, &[]);
    let dry = run_on(&h, CliToggles { dry_run: Some(true), ..CliToggles::default() }, &[]);
    let said: Vec<String> = wet
        .iter()
        .map(|line| {
            if line.starts_with('<') {
                line.clone()
            } else {
                format!("<6>DRY: {line}")
            }
        })
        .collect();
    assert_eq!(dry[5..], said);
}

#[test]
fn a_dry_run_lists_and_only_logs() {
    let vars = [("DRY_RUN", "1"), ("I40E_PF_OFFLOAD", "gro off")];
    let toggles =
        CliToggles { dry_run: Some(true), vlan_quirk: Some(false), ..CliToggles::default() };
    let done = run_on(&host(), toggles, &vars);
    assert_eq!(
        done[..3],
        [
            "<6>DRY_RUN: Listing preset I40E_* environment variables:",
            "<6>DRY_RUN: I40E_PF_OFFLOAD=\"gro off\"",
            "<6>DRY: ethtool -K enp2s0f0np0 gro off",
        ]
    );
    assert!(done.iter().all(|line| line.starts_with("<6>") || line.starts_with("<4>")));
    assert_eq!(done.last().unwrap(), COMPLETE);
}

#[test]
fn a_dry_run_lists_in_order_of_names() {
    let mut h = host();
    h.properties = Some("I40E_VF0_MTU=\"9000\"\nI40E_PF_MTU=1\nI40E_ZZ=\n");
    let done = run_on(&h, quiet(), &[("DRY_RUN", "1"), ("I40E_PF_MTU", "1500")]);
    assert_eq!(
        done[1..4],
        [
            "<6>DRY_RUN: I40E_PF_MTU=\"1500\"",
            "<6>DRY_RUN: I40E_VF0_MTU=\"9000\"",
            "<6>DRY_RUN: I40E_ZZ=\"\"",
        ]
    );
}

#[test]
fn the_command_line_can_call_a_dry_run_off() {
    let toggles = CliToggles { dry_run: Some(false), ..quiet() };
    assert_eq!(run_on(&host(), toggles, &[("DRY_RUN", "1")]), vec![LLDP_OFF, COMPLETE]);
    assert_eq!(run_on(&host(), quiet(), &[("DRY_RUN", "true")]), vec![LLDP_OFF, COMPLETE]);
}

// ---- Which setting counts ----

fn lldp(toggles: CliToggles, vars: &[(&str, &str)], link: Option<&'static str>) -> bool {
    let mut h = host();
    h.properties = link;
    let done = run_on(&h, toggles, vars);
    done.contains(&"ethtool --set-priv-flags enp2s0f0np0 disable-fw-lldp on".to_string())
}

#[test]
fn command_line_before_environment_before_link_before_default() {
    let none = CliToggles::default();
    let on = CliToggles { disable_fw_lldp: Some(true), ..none };
    let off = CliToggles { disable_fw_lldp: Some(false), ..none };
    let link_on = Some("I40E_DISABLE_FW_LLDP=1\n");
    let link_off = Some("I40E_DISABLE_FW_LLDP=\"0\"\n");
    assert!(lldp(none, &[], None));
    assert!(!lldp(none, &[], link_off));
    assert!(lldp(none, &[("DISABLE_FW_LLDP", "1")], link_off));
    assert!(!lldp(none, &[("DISABLE_FW_LLDP", "0")], link_on));
    assert!(lldp(none, &[("I40E_DISABLE_FW_LLDP", "1")], link_off));
    assert!(!lldp(none, &[("I40E_DISABLE_FW_LLDP", "0"), ("DISABLE_FW_LLDP", "1")], link_on));
    assert!(lldp(on, &[("DISABLE_FW_LLDP", "0")], link_off));
    assert!(!lldp(off, &[("DISABLE_FW_LLDP", "1")], link_on));
}

#[test]
fn only_one_means_on() {
    assert!(!lldp(CliToggles::default(), &[("DISABLE_FW_LLDP", "yes")], None));
    assert!(!lldp(CliToggles::default(), &[], Some("I40E_DISABLE_FW_LLDP=on\n")));
}

#[test]
fn environment_properties_come_before_those_of_the_link() {
    let mut h = host();
    h.properties = Some("I40E_PF_MTU=9000\nI40E_PF_MTU=8000\n");
    assert_eq!(
        run_on(&h, quiet(), &[("I40E_PF_MTU", "1500")])[1],
        "ip link set dev enp2s0f0np0 mtu 1500"
    );
    assert_eq!(run_on(&h, quiet(), &[])[1], "ip link set dev enp2s0f0np0 mtu 9000");
}

#[test]
fn own_properties_come_before_those_for_all() {
    let mut h = host();
    h.names = vec!["virtfn1", "virtfn11"];
    h.paths = vec!["/sys/class/net/enp2s0f0v1", "/sys/class/net/enp2s0f0v11"];
    h.properties = Some("I40E_VF_MTU=9000\nI40E_VF1_MTU=1500\nI40E_VF_VLAN=5\nI40E_VF_ALIAS=vf\n");
    let done = run_on(&h, quiet(), &[]);
    for line in [
        "ip link set dev enp2s0f0v1 mtu 1500",
        "ip link set dev enp2s0f0v11 mtu 9000",
        "ip link set dev enp2s0f0np0 vf 1 vlan 5",
        "ip link set dev enp2s0f0np0 vf 11 vlan 5",
        "ip link set dev enp2s0f0v11 alias vf",
    ] {
        assert!(done.contains(&line.to_string()), "{line}");
    }
    assert!(!done.contains(&"ip link set dev enp2s0f0v1 mtu 9000".to_string()));
}

#[test]
fn the_global_forms_of_addresses_and_quirks() {
    let mut h = host();
    h.names = vec!["virtfn0"];
    h.paths = vec!["/sys/class/net/enp2s0f0v0"];
    h.properties =
        Some("I40E_VF_MAC=52:54:00:00:00:01\nI40E_VF_VLAN_QUIRK=1\nI40E_VF_ASYM_QUIRK=1\n");
    let done = run_on(&h, quiet(), &[]);
    for line in [
        "<6>VF 0: explicit admin MAC 52:54:00:00:00:01",
        "<6>VF 0: ASYM_QUIRK requested (host-path quirk); no VF-side action",
        "ip link set dev enp2s0f0np0 vf 0 vlan 10",
    ] {
        assert!(done.contains(&line.to_string()), "{line}");
    }
}

#[test]
fn querying_scaling_is_automatic() {
    let mut h = host();
    h.names = vec!["virtfn0"];
    let on = "ip link set dev enp2s0f0np0 vf 0 query_rss on".to_string();
    h.properties = Some("I40E_VF_RSS=equal 2\n");
    assert!(run_on(&h, quiet(), &[]).contains(&on));
    h.properties = Some("I40E_VF0_RXFH=equal 2\n");
    assert!(run_on(&h, quiet(), &[]).contains(&on));
    h.properties = Some("I40E_VF_RSS=equal 2\nI40E_VF0_QUERY_RSS=0\n");
    let done = run_on(&h, quiet(), &[]);
    assert!(!done.contains(&on));
    assert!(done.contains(&"ip link set dev enp2s0f0np0 vf 0 query_rss off".to_string()));
    h.properties = None;
    assert!(!run_on(&h, quiet(), &[]).contains(&on));
}

#[test]
fn without_a_netdev_the_handle_still_works() {
    let mut h = host();
    h.names = vec!["virtfn2"];
    h.properties = Some("I40E_VF_MTU=9000\nI40E_VF_OFFLOAD=gro off\nI40E_VF_RATE=100\n");
    assert_eq!(
        run_on(&h, quiet(), &[])[1..],
        [
            "<4>VF 2: no host-side netdev found; skipping VF-netdev ethtool/ip tunables",
            "ip link set dev enp2s0f0np0 vf 2 rate 100",
            "ip link set dev enp2s0f0np0 vf 2 spoofchk off",
            "ip link set dev enp2s0f0np0 vf 2 trust on",
            COMPLETE,
        ]
    );
}

#[test]
fn flags_that_are_missing_are_left_alone() {
    let mut h = host();
    h.flags = None;
    let toggles = CliToggles { enable_vf_true_promisc: Some(true), ..quiet() };
    assert_eq!(
        run_on(&h, toggles, &[]),
        vec![
            "<4>priv-flag disable-fw-lldp not supported on enp2s0f0np0; skipping",
            "<4>priv-flag vf-true-promisc-support not supported on enp2s0f0np0; skipping",
            COMPLETE,
        ]
    );
}

// ---- The course of a run ----

#[test]
fn a_run_asks_for_no_more_than_it_needs() {
    let mut h = host();
    h.names = vec!["virtfn0", "virtfn1"];
    let (_, answers) = drive(new_app("pf0", CliToggles::default(), &[]), &h);
    assert_eq!(answers, 5 + 3 * 2);
    let (_, answers) = drive(new_app("pf0", quiet(), &[]), &h);
    assert_eq!(answers, 3 + 2);
}

#[test]
fn a_finished_run_does_nothing_more() {
    let mut app = new_app("pf0", quiet(), &[]);
    for _ in 0..3 {
        assert!(app.run(Reply::Nothing).query.is_some());
    }
    let last = app.run(Reply::Nothing);
    assert!(last.query.is_none());
    assert_eq!(done_in(&last), vec!["<6>postlink completed on pf0"]);
    let after = app.run(Reply::Nothing);
    assert!(after.query.is_none());
    assert!(after.plan.actions.is_empty());
}

#[test]
fn a_reply_of_another_kind_is_no_answer() {
    let mut app = new_app("pf0", quiet(), &[]);
    app.run(Reply::Nothing);
    let step = app.run(Reply::Text("I40E_PF_MTU=9000\n".to_string()));
    assert!(step.plan.actions.is_empty());
    let step = app.run(Reply::Names(vec!["disable-fw-lldp".to_string()]));
    assert_eq!(
        done_in(&step),
        vec!["<4>priv-flag disable-fw-lldp not supported on pf0; skipping"]
    );
}

#[test]
fn a_command_that_fails_gives_no_answer() {
    let mut app = new_app("pf0", quiet(), &[]);
    app.run(Reply::Nothing);
    let failed =
        CommandOutput { success: false, output: "I40E_PF_MTU=9000\n".to_string(), rc: 2 };
    assert!(app.run(Reply::Output(failed)).plan.actions.is_empty());
}

#[test]
fn the_first_query_names_the_sysfs_path() {
    let vars = [("I40E_SYS_CLASS_NET_ROOT", "/tmp/fake-sys/class/net")];
    let mut app = new_app("testpf0", quiet(), &vars);
    match app.run(Reply::Nothing).query {
        Some(Query::Capture(command)) => assert_eq!(
            shown(&command),
            "udevadm info -q property -p /tmp/fake-sys/class/net/testpf0"
        ),
        other => panic!("{other:?}"),
    }
    assert_eq!(app.net_path("eth0"), "/tmp/fake-sys/class/net/eth0");
    let app = new_app("testpf0", quiet(), &[]);
    assert_eq!(app.net_path("eth0"), "/sys/class/net/eth0");
}

// ---- Single steps ----

#[test]
fn a_leading_family_is_left_out() {
    let app = new_app("pf0", quiet(), &[]);
    let shown_plan = |family: &str, raw: &str| {
        done_in(&Step { plan: app.apply_ethtool_tunables("eth0", family, raw), query: None })
    };
    assert_eq!(shown_plan("K", "-K gro off"), vec!["ethtool -K eth0 gro off"]);
    assert_eq!(shown_plan("K", "gro off"), vec!["ethtool -K eth0 gro off"]);
    assert_eq!(shown_plan("K", "K features"), vec!["ethtool -K eth0 features"]);
    assert_eq!(shown_plan("K", " "), Vec::<String>::new());
    assert_eq!(shown_plan("K", "--offload"), Vec::<String>::new());
    assert_eq!(shown_plan("Q", "a"), vec!["<4>unknown ethtool family 'Q' for eth0"]);
}

#[test]
fn nothing_to_set_is_nothing_to_do() {
    let app = new_app("pf0", quiet(), &[]);
    assert!(app.apply_ip_dev_tokens("eth0", vec![]).actions.is_empty());
    assert!(app.apply_ip_vf_tokens(0, vec![]).actions.is_empty());
}

#[test]
fn candidates_for_the_netdev() {
    let app = new_app("enp2s0f0np0", quiet(), &[]);
    assert_eq!(app.vf_if_candidates(4), vec!["enp2s0f0np0v4", "enp2s0f0v4"]);
    assert_eq!(app.resolve_vf_dev(4, &vec![true, true]).as_deref(), Some("enp2s0f0np0v4"));
    assert_eq!(app.resolve_vf_dev(4, &vec![false, true]).as_deref(), Some("enp2s0f0v4"));
    assert_eq!(app.resolve_vf_dev(4, &vec![false, false]), None);
    let app = new_app("eth0", quiet(), &[]);
    assert_eq!(app.vf_if_candidates(4), vec!["eth0v4"]);
}

#[test]
fn function_numbers() {
    assert_eq!(App::pf_func_id(Some("0000:02:00.1")), 1);
    assert_eq!(App::pf_func_id(Some("0000:02:00.a")), 10);
    assert_eq!(App::pf_func_id(Some("0000:02:00.1ff")), 0);
    assert_eq!(App::pf_func_id(Some("7")), 7);
    assert_eq!(App::pf_func_id(Some("virtio0")), 0);
    assert_eq!(App::pf_func_id(Some("a.")), 0);
    assert_eq!(App::pf_func_id(None), 0);
}

#[test]
fn prefixes_of_derived_addresses() {
    assert_eq!(
        App::derive_mac_prefix(Some(" 3c:fd:fe:aa:bc:de\n"), Some("0000:02:00.1")).as_deref(),
        Some("3e:fd:fe:aa:b1:")
    );
    assert_eq!(
        App::derive_mac_prefix(Some("3c:fd:fe:aa:bc:de"), None).as_deref(),
        Some("3e:fd:fe:aa:b0:")
    );
    assert_eq!(App::derive_mac_prefix(None, Some("0000:02:00.1")), None);
}

#[test]
fn functions_in_a_directory() {
    let names: Vec<String> =
        ["virtfn2", "virtfn0", "net"].iter().map(|n| n.to_string()).collect();
    assert_eq!(App::list_vf_indices(&names), vec![0, 2]);
}

#[test]
fn what_a_command_wrote() {
    let output = |success: bool| {
        Some(CommandOutput {
            success,
            output: "    vf 0 MAC 52:54:00:00:00:01\n".to_string(),
            rc: 0,
        })
    };
    assert_eq!(
        App::capture_success_output(output(true)).as_deref(),
        Some("    vf 0 MAC 52:54:00:00:00:01\n")
    );
    assert_eq!(App::capture_success_output(output(false)), None);
    assert_eq!(App::show_priv_flags(output(false)), "");
    assert_eq!(App::get_vf_admin_mac(output(true), 0).as_deref(), Some("52:54:00:00:00:01"));
    assert_eq!(App::get_vf_admin_mac(output(true), 1), None);
    assert_eq!(App::get_vf_admin_mac(None, 0), None);
}

#[test]
fn properties_by_name() {
    let app = new_app(
        "pf0",
        quiet(),
        &[("I40E_VF_MTU", "9000"), ("I40E_VF1_MTU", "1500"), ("MTU", "1")],
    );
    assert_eq!(app.prop("I40E_VF_MTU"), Some("9000"));
    assert_eq!(app.prop("MTU"), None);
    assert_eq!(app.prop_owned("I40E_VF1_MTU").as_deref(), Some("1500"));
    assert_eq!(app.vf_specific(1, "MTU").as_deref(), Some("1500"));
    assert_eq!(app.vf_specific(2, "MTU"), None);
    assert_eq!(app.vf_global("MTU").as_deref(), Some("9000"));
    assert_eq!(app.vf_with_global(1, "MTU").as_deref(), Some("1500"));
    assert_eq!(app.vf_with_global(2, "MTU").as_deref(), Some("9000"));
    assert_eq!(app.vf_with_global(2, "RATE"), None);
}

#[test]
fn variables_of_the_environment() {
    let vars: Vec<(String, String)> = [("A", "1"), ("B", "true"), ("A", "0")]
        .iter()
        .map(|(k, v)| (k.to_string(), v.to_string()))
        .collect();
    assert_eq!(env_var(&vars, "A").map(|v| v.as_str()), Some("1"));
    assert_eq!(env_toggle(&vars, "A"), Some(true));
    assert_eq!(env_toggle(&vars, "B"), Some(false));
    assert_eq!(env_toggle(&vars, "C"), None);
}

#[test]
fn paths_are_joined() {
    assert_eq!(join_path("/sys/class/net", "eth0"), "/sys/class/net/eth0");
    assert_eq!(join_path("/sys/class/net/", "eth0"), "/sys/class/net/eth0");
    assert_eq!(join_path("", "eth0"), "eth0");
    assert_eq!(join_path("/sys", "/tmp"), "/tmp");
    assert_eq!(join_path("/sys", ""), "/sys/");
}

#[test]
fn a_command_is_reported_as_it_is_shown() {
    let app = new_app("pf0", quiet(), &[]);
    match app.run_apply("ip", vec!["link".to_string(), "show".to_string()]) {
        Action::Apply(command) => assert_eq!(
            report(&command, &None).message,
            "cmd failed (rc=1): ip link show :: failed to spawn command"
        ),
        other => panic!("{other:?}"),
    }
    let app = new_app("pf0", CliToggles { dry_run: Some(true), ..quiet() }, &[]);
    match app.run_apply("ip", vec!["link".to_string(), "show".to_string()]) {
        Action::Log(entry) => assert_eq!(entry.line(), "<6>i40e-postlink: DRY: ip link show"),
        other => panic!("{other:?}"),
    }
}

#[test]
fn settings_of_a_virtual_function() {
    let app = new_app(
        "pf0",
        quiet(),
        &[("I40E_VF_MAC", "52:54:00:00:00:01"), ("I40E_VF2_VLAN_QUIRK", "0")],
    );
    let (settings, plans) = app.apply_from_props_vf(2, Some("pf0v2".to_string()));
    assert_eq!(settings.dev.as_deref(), Some("pf0v2"));
    assert_eq!(settings.mac.as_deref(), Some("52:54:00:00:00:01"));
    assert_eq!(settings.q_vlan.as_deref(), Some("0"));
    assert_eq!(settings.q_asym, None);
    assert!(plans.ethtool.actions.is_empty());
    assert!(plans.ip.actions.is_empty());
}

#[test]
fn properties_have_a_plan_for_ethtool_and_one_for_ip() {
    let mut app = new_app(
        "pf0",
        quiet(),
        &[
            ("I40E_PF_MTU", "9000"),
            ("I40E_PF_OFFLOAD", "gro off"),
            ("I40E_VF_MTU", "1500"),
            ("I40E_VF_RINGS", "rx 64"),
        ],
    );
    let shown_plan = |plan| done_in(&Step { plan, query: None });
    let (_, plans) = app.apply_from_props_vf(0, Some("pf0v0".to_string()));
    assert_eq!(shown_plan(plans.ethtool), vec!["ethtool -G pf0v0 rx 64"]);
    assert_eq!(shown_plan(plans.ip), vec!["ip link set dev pf0v0 mtu 1500"]);
    let plans = app.apply_from_props_pf();
    assert_eq!(shown_plan(plans.ethtool), vec!["ethtool -K pf0 gro off"]);
    assert_eq!(shown_plan(plans.ip), vec!["ip link set dev pf0 mtu 9000"]);
}
