use rdns::commands::{direct_action, DirectAction, DirectError};
use rdns::dns::{AddressError, DnsServer};
use rdns::interface::{
    needs_choice, next_step, parse_choice, select_adapter, ApplyError, DnsInterface, Linux,
    Outcome, Platform, Step, Windows,
};
use rdns::profiles::{add_server, find_server, remove_servers, AddError};

fn profile(primary: &str, secondary: &str, name: &str, v6: bool) -> DnsServer {
    DnsServer {
        primary: primary.to_string(),
        secondary: secondary.to_string(),
        name: name.to_string(),
        v6,
    }
}

fn strings(v: &[&str]) -> Vec<String> {
    v.iter().map(|s| s.to_string()).collect()
}

fn v4_ok(s: &str) -> bool {
    DnsServer::build(s.to_string(), "1.0.0.1".to_string(), false).is_ok()
}

fn v6_ok(s: &str) -> bool {
    DnsServer::build(s.to_string(), "::1".to_string(), true).is_ok()
}

#[test]
fn build_accepts_ipv4_pair() {
    let d = DnsServer::build("1.1.1.1".to_string(), "1.0.0.1".to_string(), false).unwrap();
    assert_eq!(d.primary, "1.1.1.1");
    assert_eq!(d.secondary, "1.0.0.1");
    assert_eq!(d.name, "");
    assert!(!d.v6);
}

#[test]
fn build_rejects_malformed_ipv4() {
    for bad in ["256.1.1.1", "01.1.1.1", "1.1.1", "1.1.1.1.1", "", "1..1.1", "a.b.c.d", " 1.1.1.1", "1.1.1.1000"] {
        assert!(!v4_ok(bad), "{bad}");
    }
    for good in ["0.0.0.0", "255.255.255.255", "8.8.4.4", "10.0.0.1"] {
        assert!(v4_ok(good), "{good}");
    }
}

#[test]
fn build_names_the_bad_address() {
    let e = DnsServer::build("1.1.1".to_string(), "1.0.0.1".to_string(), false);
    assert!(matches!(e, Err(AddressError::Primary)));
    let e = DnsServer::build("1.1.1.1".to_string(), "x".to_string(), false);
    assert!(matches!(e, Err(AddressError::Secondary)));
    let e = DnsServer::build("1.1.1.1".to_string(), "1.0.0.1".to_string(), true);
    assert!(matches!(e, Err(AddressError::Primary)));
}

#[test]
fn ipv6_forms() {
    for good in [
        "::",
        "::1",
        "2606:4700:4700::1111",
        "1:2:3:4:5:6:7:8",
        "1:2:3:4:5:6:7::",
        "::2:3:4:5:6:7:8",
        "1:2:3:4:5:6:1.2.3.4",
        "::ffff:1.2.3.4",
        "FE80::abcd",
        "1::",
    ] {
        assert!(v6_ok(good), "{good}");
    }
    for bad in [
        "",
        ":",
        ":::",
        "1::2::3",
        "12345::",
        "1:2:3:4:5:6:7:8:9",
        "1:2:3:4:5:6:7",
        "::1:2:3:4:5:6:7:8",
        "1:2:3:4:5:6::1.2.3.4",
        "1.2.3.4::",
        "g::1",
        ":1::",
        "1:",
    ] {
        assert!(!v6_ok(bad), "{bad}");
    }
}

#[test]
fn verify_dns_checks_family() {
    assert!(profile("1.1.1.1", "1.0.0.1", "cf", false).verify_dns().is_ok());
    assert!(profile("1.1.1.1", "1.0.0.1", "cf", true).verify_dns().is_err());
    assert!(profile("2606:4700:4700::1111", "2606:4700:4700::1001", "cf6", true)
        .verify_dns()
        .is_ok());
}

#[test]
fn conflicts_by_pair_or_name() {
    let a = profile("1.1.1.1", "1.0.0.1", "cf", false);
    assert!(a.conflicts_with(&profile("1.1.1.1", "1.0.0.1", "other", false)));
    assert!(a.conflicts_with(&profile("8.8.8.8", "8.8.4.4", "cf", false)));
    assert!(!a.conflicts_with(&profile("1.1.1.1", "8.8.4.4", "other", false)));
}

#[test]
fn add_appends_valid_profile() {
    let mut list = vec![profile("1.1.1.1", "1.0.0.1", "cf", false)];
    assert!(add_server(&mut list, profile("8.8.8.8", "8.8.4.4", "google", false)).is_ok());
    assert_eq!(list.len(), 2);
    assert_eq!(list[1].name, "google");
}

#[test]
fn add_rejects_malformed_and_keeps_list() {
    let mut list = vec![profile("1.1.1.1", "1.0.0.1", "cf", false)];
    let r = add_server(&mut list, profile("8.8.8", "8.8.4.4", "google", false));
    assert_eq!(r, Err(AddError::InvalidAddress(AddressError::Primary)));
    assert_eq!(list.len(), 1);
    assert_eq!(list[0].name, "cf");
}

#[test]
fn add_rejects_conflicts() {
    let mut list = vec![profile("1.1.1.1", "1.0.0.1", "cf", false)];
    let r = add_server(&mut list, profile("8.8.8.8", "8.8.4.4", "cf", false));
    assert_eq!(r, Err(AddError::Conflict));
    let r = add_server(&mut list, profile("1.1.1.1", "1.0.0.1", "again", false));
    assert_eq!(r, Err(AddError::Conflict));
    assert_eq!(list.len(), 1);
}

#[test]
fn find_by_name() {
    let list = vec![profile("1.1.1.1", "1.0.0.1", "cf", false), profile("8.8.8.8", "8.8.4.4", "g", false)];
    assert_eq!(find_server(&list, &"g".to_string()), Some(1));
    assert_eq!(find_server(&list, &"none".to_string()), None);
}

#[test]
fn rem_removes_existing_and_reports_missing() {
    let mut list = vec![
        profile("1.1.1.1", "1.0.0.1", "cf", false),
        profile("8.8.8.8", "8.8.4.4", "google", false),
        profile("9.9.9.9", "149.112.112.112", "quad9", false),
    ];
    let found = remove_servers(&mut list, &strings(&["google", "missing"]));
    assert_eq!(found, vec![true, false]);
    assert_eq!(list.len(), 2);
    assert_eq!(list[0].name, "cf");
    assert_eq!(list[0].primary, "1.1.1.1");
    assert_eq!(list[1].name, "quad9");
    assert_eq!(list[1].secondary, "149.112.112.112");
}

const NMCLI: &str = "DEVICE  TYPE      STATE         CONNECTION\n\
wlp2s0  wifi      connected     Home WiFi  \n\
enp3s0  ethernet  disconnected  --\n\
lo      loopback  unmanaged     --\n";

const NETSH: &str = "Admin State    State          Type             Interface Name\r\n\
-------------------------------------------------------------------------\r\n\
Enabled        Connected      Dedicated        Ethernet\r\n\
Enabled        Disconnected   Dedicated        Wi-Fi\r\n\r\n";

#[test]
fn linux_report_lists_connected_adapters() {
    assert_eq!(Linux::active_connections(NMCLI), strings(&["Home WiFi"]));
}

#[test]
fn windows_report_lists_connected_adapters() {
    assert_eq!(Windows::active_connections(NETSH), strings(&["Ethernet"]));
    let two = "Enabled  Connected  Dedicated  Ethernet\nEnabled  Connected  Dedicated  vEthernet";
    assert_eq!(Windows::active_connections(two), strings(&["Ethernet", "vEthernet"]));
}

#[test]
fn no_connected_line_is_an_error() {
    let service = DnsInterface::new(Platform::Linux);
    let report = "DEVICE  TYPE  STATE  CONNECTION\nenp3s0  ethernet  disconnected  --\n";
    assert!(service.active_connections(report).is_empty());
    assert!(matches!(service.target_adapter(report, None), Err(ApplyError::NoActiveAdapter)));
    assert!(matches!(service.target_adapter("", Some(0)), Err(ApplyError::NoActiveAdapter)));
}

#[test]
fn single_connected_line_needs_no_choice() {
    let service = DnsInterface::new(Platform::Windows);
    let adapters = service.active_connections(NETSH);
    assert!(!needs_choice(&adapters));
    assert_eq!(service.target_adapter(NETSH, None).unwrap(), "Ethernet");
    assert_eq!(service.target_adapter(NETSH, Some(7)).unwrap(), "Ethernet");
}

#[test]
fn several_adapters_need_valid_choice() {
    let adapters = strings(&["Ethernet", "Wi-Fi"]);
    assert!(needs_choice(&adapters));
    assert_eq!(select_adapter(&adapters, Some(1)).unwrap(), "Wi-Fi");
    assert!(matches!(select_adapter(&adapters, Some(2)), Err(ApplyError::InvalidSelection)));
    assert!(matches!(select_adapter(&adapters, None), Err(ApplyError::InvalidSelection)));
}

#[test]
fn choice_replies() {
    assert_eq!(parse_choice("1\n"), Some(1));
    assert_eq!(parse_choice("  +2 \r\n"), Some(2));
    assert_eq!(parse_choice("042"), Some(42));
    assert_eq!(parse_choice(""), None);
    assert_eq!(parse_choice("+"), None);
    assert_eq!(parse_choice("-1"), None);
    assert_eq!(parse_choice("1 2"), None);
    assert_eq!(parse_choice("x"), None);
    assert_eq!(parse_choice("99999999999999999999999999"), None);
}

fn args_of(v: &[String]) -> Vec<&str> {
    v.iter().map(|s| s.as_str()).collect()
}

#[test]
fn windows_static_commands() {
    let d = profile("1.1.1.1", "1.0.0.1", "cf", false);
    let plan = Windows::set_static(&d, &"Ethernet".to_string());
    assert_eq!(plan.len(), 2);
    assert_eq!(plan[0].program, "netsh");
    assert_eq!(
        args_of(&plan[0].args),
        ["interface", "ipv4", "set", "dnsservers", "Ethernet", "static", "1.1.1.1", "primary"]
    );
    assert_eq!(plan[1].program, "netsh");
    assert_eq!(
        args_of(&plan[1].args),
        ["interface", "ipv4", "add", "dnsservers", "Ethernet", "1.0.0.1", "index=2"]
    );
}

#[test]
fn linux_static_command() {
    let d = profile("::1", "::2", "local", true);
    let plan = Platform::Linux.static_plan(&d, &"Home WiFi".to_string());
    assert_eq!(plan.len(), 1);
    assert_eq!(plan[0].program, "nmcli");
    assert_eq!(args_of(&plan[0].args), ["connection", "modify", "Home WiFi", "ipv6.dns", "::1 ::2"]);
}

#[test]
fn dhcp_commands() {
    let w = DnsInterface::new(Platform::Windows);
    let plan = w.dhcp_commands(&"Ethernet".to_string(), true).unwrap();
    assert_eq!(plan.len(), 1);
    assert_eq!(args_of(&plan[0].args), ["interface", "ipv6", "set", "dnsservers", "Ethernet", "source=dhcp"]);
    let l = DnsInterface::new(Platform::Linux);
    assert!(matches!(l.dhcp_commands(&"eth0".to_string(), false), Err(ApplyError::Unsupported)));
}

#[test]
fn failed_primary_stops_the_run() {
    assert!(matches!(next_step(2, 0, &Outcome::Success), Step::Run(0)));
    let failure = Outcome::ElevationFailed("The operation was canceled by the user.".to_string());
    match next_step(2, 1, &failure) {
        Step::Failed(ApplyError::ElevationFailed { step, detail }) => {
            assert_eq!(step, 0);
            assert_eq!(detail, "The operation was canceled by the user.");
        }
        other => panic!("unexpected step {other:?}"),
    }
    assert!(matches!(
        next_step(2, 1, &Outcome::ExitFailure(Some(1))),
        Step::Failed(ApplyError::CommandFailed { step: 0, code: Some(1) })
    ));
}

#[test]
fn set_cf_on_single_adapter() {
    let list = vec![profile("1.1.1.1", "1.0.0.1", "cf", false)];
    let i = find_server(&list, &"cf".to_string()).unwrap();
    let service = DnsInterface::new(Platform::Windows);
    let report = "Enabled        Connected      Dedicated        Ethernet\r\n";
    let adapter = service.target_adapter(report, None).unwrap();
    assert_eq!(adapter, "Ethernet");
    let plan = service.static_commands(&list[i], &adapter);
    assert_eq!(args_of(&plan[0].args)[2], "set");
    assert_eq!(args_of(&plan[0].args)[1], "ipv4");
    assert_eq!(args_of(&plan[1].args)[2], "add");
    let mut completed = 0;
    let mut last = Outcome::Success;
    let mut ran = Vec::new();
    loop {
        match next_step(plan.len(), completed, &last) {
            Step::Run(k) => {
                ran.push(k);
                completed = k + 1;
                last = Outcome::Success;
            }
            Step::Finished => break,
            Step::Failed(e) => panic!("unexpected failure {e:?}"),
        }
    }
    assert_eq!(ran, vec![0, 1]);
}

#[test]
fn config_paths() {
    let l = DnsInterface::new(Platform::Linux);
    assert_eq!(l.config_dir("/home/u/.config"), "/home/u/.config/rdns");
    assert_eq!(l.config_path("/home/u/.config"), "/home/u/.config/rdns/rdns_servers.json");
    let w = DnsInterface::new(Platform::Windows);
    assert_eq!(w.config_path("C:\\Users\\u\\AppData\\Local"), "C:\\Users\\u\\AppData\\Local\\rdns\\rdns_servers.json");
    assert_eq!(Windows::config_file(), "rdns_servers.json");
}

#[test]
fn direct_requests() {
    assert!(matches!(direct_action(None, None, true, true), Ok(DirectAction::Dhcp(true))));
    assert!(matches!(
        direct_action(Some("1.1.1.1".to_string()), None, false, false),
        Err(DirectError::MissingAddress)
    ));
    match direct_action(Some("1.1.1.1".to_string()), Some("1.0.0.1".to_string()), false, false) {
        Ok(DirectAction::Static(d)) => {
            assert_eq!(d.primary, "1.1.1.1");
            assert_eq!(d.secondary, "1.0.0.1");
        }
        _ => panic!("expected a static request"),
    }
    assert!(matches!(
        direct_action(Some("1.1.1.1".to_string()), Some("1.0.0.x".to_string()), false, false),
        Err(DirectError::InvalidAddress(AddressError::Secondary))
    ));
}
