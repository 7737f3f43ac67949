use net_combiner::adapter::{
    is_link_local_ip, is_private_ip, list_adapters, AdapterAddress, Interface,
};
use net_combiner::addr::{IpAddr, Ipv4Addr, Ipv6Addr};
use net_combiner::admin::{
    ensure_elevated, quote_arg, relaunch_parameters, relaunch_result, Elevation,
};
use net_combiner::cli::{
    adapter_row, parse_egress, parse_egress_args, table_header, trim_for_table,
};
use net_combiner::platform::Platform;
use net_combiner::single_instance::{
    acquire_or_notify, already_running_text, already_running_title, mutex_name, Acquisition,
};

fn v4(a: u8, b: u8, c: u8, d: u8) -> IpAddr {
    IpAddr::V4(Ipv4Addr::new(a, b, c, d))
}

fn v6(first: u16, last: u16) -> IpAddr {
    IpAddr::V6(Ipv6Addr::new(first, 0, 0, 0, 0, 0, 0, last))
}

fn interface(name: &str, index: u32, addresses: Vec<IpAddr>) -> Interface {
    Interface { name: name.to_owned(), mac: Some("aa:bb".to_owned()), index, addresses }
}

fn address(name: &str, ip: IpAddr) -> AdapterAddress {
    AdapterAddress {
        name: name.to_owned(),
        ip,
        mac: None,
        index: None,
        is_loopback: false,
        is_private: false,
        is_link_local: false,
    }
}

#[test]
fn private_addresses() {
    assert!(is_private_ip(v4(10, 255, 0, 1)));
    assert!(is_private_ip(v4(172, 16, 0, 1)));
    assert!(is_private_ip(v4(172, 31, 0, 1)));
    assert!(!is_private_ip(v4(172, 15, 0, 1)));
    assert!(!is_private_ip(v4(172, 32, 0, 1)));
    assert!(is_private_ip(v4(192, 168, 7, 7)));
    assert!(!is_private_ip(v4(192, 169, 7, 7)));
    assert!(is_private_ip(v6(0xfc00, 1)));
    assert!(is_private_ip(v6(0xfdff, 1)));
    assert!(!is_private_ip(v6(0xfbff, 1)));
    assert!(!is_private_ip(v6(0xfe00, 1)));
}

#[test]
fn link_local_addresses() {
    assert!(is_link_local_ip(v4(169, 254, 9, 9)));
    assert!(!is_link_local_ip(v4(169, 253, 9, 9)));
    assert!(is_link_local_ip(v6(0xfe80, 1)));
    assert!(is_link_local_ip(v6(0xfebf, 1)));
    assert!(!is_link_local_ip(v6(0xfec0, 1)));
}

#[test]
fn adapters_are_listed_in_order() {
    let interfaces = vec![
        interface("lo", 1, vec![v4(127, 0, 0, 1), v6(0, 1)]),
        interface("wlan0", 3, vec![v6(0xfe80, 9), v4(192, 168, 1, 5), v4(0, 0, 0, 0)]),
        interface("eth0", 2, vec![v4(10, 0, 0, 2), v6(0, 0)]),
    ];
    let listed = list_adapters(&interfaces);
    let shown: Vec<(String, String)> =
        listed.iter().map(|item| (item.name.clone(), item.ip.to_text())).collect();
    let expected: Vec<(String, String)> = [
        ("eth0", "10.0.0.2"),
        ("wlan0", "192.168.1.5"),
        ("wlan0", "fe80::9"),
        ("lo", "127.0.0.1"),
        ("lo", "::1"),
    ]
    .iter()
    .map(|(name, ip)| (name.to_string(), ip.to_string()))
    .collect();
    assert_eq!(shown, expected);
    assert_eq!(listed[0].index, Some(2));
    assert_eq!(listed[0].mac.as_deref(), Some("aa:bb"));
    assert!(listed[0].is_private && !listed[0].is_loopback);
    assert!(listed[2].is_link_local && !listed[2].is_private);
    assert!(listed[3].is_loopback);
}

#[test]
fn equal_entries_keep_their_order() {
    let interfaces = vec![
        interface("a", 9, vec![v4(1, 1, 1, 1)]),
        interface("a", 4, vec![v4(1, 1, 1, 1)]),
    ];
    let listed = list_adapters(&interfaces);
    assert_eq!(listed[0].index, Some(9));
    assert_eq!(listed[1].index, Some(4));
}

#[test]
fn labels_of_an_address() {
    let mut item = address("Wi-Fi", v4(192, 168, 1, 2));
    assert_eq!(item.family_label(), "IPv4");
    assert_eq!(item.scope_label(), "public");
    item.is_private = true;
    assert_eq!(item.scope_label(), "private");
    item.is_link_local = true;
    assert_eq!(item.scope_label(), "link-local");
    item.is_loopback = true;
    assert_eq!(item.scope_label(), "loopback");
    assert_eq!(item.stable_id(), "Wi-Fi|192.168.1.2");
    assert_eq!(address("six", v6(0x2001, 5)).family_label(), "IPv6");
    assert_eq!(item.clone(), item);
}

#[test]
fn egress_arguments_are_read() {
    let plain = parse_egress("192.168.1.20").unwrap();
    assert_eq!((plain.name.as_str(), plain.ip, plain.weight), ("192.168.1.20", v4(192, 168, 1, 20), 1));
    assert_eq!(parse_egress("192.168.1.20/2").unwrap().weight, 2);
    assert_eq!(parse_egress("192.168.1.20/0").unwrap().weight, 1);
    assert_eq!(parse_egress("10.0.0.1/+7").unwrap().weight, 7);
    assert_eq!(parse_egress("10.0.0.1/65535").unwrap().weight, 65535);
    let six = parse_egress("2001:DB8:0:0::1/3").unwrap();
    assert_eq!(six.name, "2001:db8::1");
    assert_eq!(six.weight, 3);
}

#[test]
fn faulty_egress_arguments_are_refused() {
    for (text, message) in [
        ("10.0.0.1/", "invalid egress weight in 10.0.0.1/"),
        ("10.0.0.1/65536", "invalid egress weight in 10.0.0.1/65536"),
        ("nowhere/x", "invalid egress weight in nowhere/x"),
        ("nowhere/1", "invalid egress IP address in nowhere/1"),
        ("10.0.0.1/1/1", "invalid egress IP address in 10.0.0.1/1/1"),
        ("", "invalid egress IP address in "),
    ] {
        assert_eq!(parse_egress(text).unwrap_err(), message);
    }
}

#[test]
fn all_egress_arguments_or_the_first_fault() {
    let good = vec!["10.0.0.1/2".to_owned(), "::1".to_owned()];
    let targets = parse_egress_args(&good).unwrap();
    assert_eq!(targets.len(), 2);
    assert_eq!(targets[1].name, "::1");
    let bad = vec!["10.0.0.1".to_owned(), "x".to_owned(), "y/z".to_owned()];
    assert_eq!(parse_egress_args(&bad).unwrap_err(), "invalid egress IP address in x");
    assert_eq!(
        parse_egress_args(&vec![]).unwrap_err(),
        "at least one --egress adapter address is required"
    );
}

#[test]
fn names_fit_the_table() {
    assert_eq!(trim_for_table("abcdef", 6), "abcdef");
    assert_eq!(trim_for_table("abcdefg", 6), "abc...");
    assert_eq!(trim_for_table("\u{c774}\u{b354}\u{b137}\u{c5b4}\u{b311}", 4), "\u{c774}...");
    assert_eq!(trim_for_table("abcdefg", 2), "...");
    assert_eq!(trim_for_table("", 0), "");
}

#[test]
fn rows_of_the_table() {
    assert_eq!(
        table_header(),
        format!("{:<32} {:<45} {:<8} {:<10}", "Name", "Address", "Family", "Scope")
    );
    let item = address("a very long adapter name that is cut", v6(0x2001, 5));
    assert_eq!(
        adapter_row(&item),
        format!(
            "{:<32} {:<45} {:<8} {:<10}",
            "a very long adapter name that...",
            "2001::5",
            "IPv6",
            "public"
        )
    );
}

#[test]
fn only_windows_asks_for_rights() {
    assert_eq!(ensure_elevated(Platform::Windows, false), Elevation::Relaunch);
    assert_eq!(ensure_elevated(Platform::Windows, true), Elevation::Granted);
    for platform in [Platform::MacOs, Platform::Linux, Platform::Other] {
        assert_eq!(ensure_elevated(platform, false), Elevation::Granted);
    }
    assert_eq!(relaunch_result(33), Ok(()));
    assert_eq!(relaunch_result(32), Err("administrator elevation was cancelled or failed"));
    assert_eq!(relaunch_result(-1), Err("administrator elevation was cancelled or failed"));
}

#[test]
fn arguments_of_the_second_start() {
    assert_eq!(quote_arg("plain"), "plain");
    assert_eq!(quote_arg(""), "\"\"");
    assert_eq!(quote_arg("two words"), "\"two words\"");
    assert_eq!(quote_arg("a\u{a0}b"), "\"a\u{a0}b\"");
    assert_eq!(quote_arg("say\"so"), "\"say\\\"so\"");
    let args = vec!["vpn".to_owned(), "--tun2proxy".to_owned(), "C:\\my tools\\t.exe".to_owned()];
    assert_eq!(relaunch_parameters(&args), "vpn --tun2proxy \"C:\\my tools\\t.exe\"");
    assert_eq!(relaunch_parameters(&vec![]), "");
}

#[test]
fn one_instance_runs() {
    assert_eq!(
        acquire_or_notify(Platform::Windows, true, true),
        Err("failed to create single-instance mutex")
    );
    assert_eq!(
        acquire_or_notify(Platform::Windows, false, true),
        Ok(Acquisition::AlreadyRunning)
    );
    assert_eq!(acquire_or_notify(Platform::Windows, false, false), Ok(Acquisition::Acquired));
    assert_eq!(acquire_or_notify(Platform::Linux, true, true), Ok(Acquisition::Acquired));
    assert_eq!(mutex_name(), "Local\\ivLis-Studio.net-combiner");
    assert_eq!(already_running_title(), "net-combiner");
    assert!(already_running_text().starts_with("net-combiner is already running.\n"));
}
