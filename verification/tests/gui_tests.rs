use net_combiner::adapter::AdapterAddress;
use net_combiner::addr::{IpAddr, Ipv4Addr, SocketAddr};
use net_combiner::gui::{
    default_selected, proxy_failed_message, runtime_failed_message, tray_unavailable_message,
    tray_unsupported_message, visible_by_default,
    AdapterRow, AppStatus, InstallStart, Mode, NetCombinerApp, ProxyStart, Service, UpdateMessage,
    Updates, VpnEnd, VpnStart, WindowCommand, Windows, AUTO_CHECK_DELAY,
};
use net_combiner::monitor::ConnectionMonitorFilter;
use net_combiner::pool::EgressStrategy;
use net_combiner::proxy::{ConnectionEvent, ConnectionOpened, ConnectionProtocol};
use net_combiner::texts::Language;
use net_combiner::theme::ThemeMode;
use net_combiner::tray::{TrayEvent, TrayLanguage};
use net_combiner::update::UpdateInfo;
use net_combiner::vpn::DnsStrategy;

fn address(name: &str, last: u8) -> AdapterAddress {
    AdapterAddress {
        name: name.to_owned(),
        ip: IpAddr::V4(Ipv4Addr::new(192, 168, 1, last)),
        mac: None,
        index: Some(last as u32),
        is_loopback: false,
        is_private: true,
        is_link_local: false,
    }
}

fn app_with(names: &[(&str, u8, bool)]) -> NetCombinerApp {
    let mut app = NetCombinerApp::new(true, 5);
    app.adapters = names
        .iter()
        .map(|(name, last, selected)| AdapterRow {
            adapter: address(name, *last),
            selected: *selected,
            weight: 1,
        })
        .collect();
    app
}

fn opened(id: &str) -> ConnectionEvent {
    ConnectionEvent::Opened(ConnectionOpened {
        id: id.to_owned(),
        protocol: ConnectionProtocol::Tcp,
        client: SocketAddr::new(IpAddr::V4(Ipv4Addr::new(127, 0, 0, 1)), 1),
        target: "t".to_owned(),
        egress_name: "a".to_owned(),
        egress_ip: IpAddr::V4(Ipv4Addr::new(192, 168, 1, 1)),
        opened_at: 1,
    })
}

#[test]
fn application_starts_with_defaults() {
    let app = NetCombinerApp::new(false, 77);
    assert_eq!(app.settings.listen_ip, "127.0.0.1");
    assert_eq!(app.settings.listen_port, "1080");
    assert_eq!(app.settings.mode, Mode::Proxy);
    assert_eq!(app.settings.language, Language::English);
    assert_eq!(app.settings.theme_mode, ThemeMode::Light);
    assert_eq!(app.settings.bypass_text.lines().count(), 10);
    assert!(app.windows.close_to_tray && !app.windows.tray_available);
    assert_eq!(app.windows.connection_monitor_filter, ConnectionMonitorFilter::Active);
    assert_eq!(app.updates.status, "Update check will run automatically.");
    assert_eq!(app.started_at, 77);
    assert_eq!(tray_unavailable_message("x"), "tray unavailable: x");
    assert_eq!(proxy_failed_message("x"), "proxy failed: x");
    assert_eq!(runtime_failed_message("x"), "failed to create Tokio runtime: x");
    assert_eq!(tray_unsupported_message(), "system tray is not supported on this platform");
}

#[test]
fn refresh_keeps_choices() {
    let mut app = app_with(&[("a", 1, true), ("b", 2, false)]);
    app.adapters[0].weight = 7;
    let found = vec![address("c", 3), address("a", 1), address("a", 9)];
    assert_eq!(app.refresh_adapters(Ok(found), 12), None);
    let shown: Vec<(String, bool, u16)> = app
        .adapters
        .iter()
        .map(|row| (row.adapter.stable_id(), row.selected, row.weight))
        .collect();
    assert_eq!(
        shown,
        vec![
            ("c|192.168.1.3".to_owned(), false, 1),
            ("a|192.168.1.1".to_owned(), true, 7),
            ("a|192.168.1.9".to_owned(), false, 1),
        ]
    );
    assert_eq!(app.last_refresh, Some(12));
}

#[test]
fn refresh_may_fail() {
    let mut app = app_with(&[("a", 1, true)]);
    assert_eq!(
        app.refresh_adapters(Err("denied".to_owned()), 12).as_deref(),
        Some("adapter refresh failed: denied")
    );
    assert_eq!(app.service.status, AppStatus::AdapterRefreshFailed);
    assert_eq!(app.adapters.len(), 1);
    assert_eq!(app.last_refresh, None);
    app.refresh_adapters(Ok(vec![]), 13);
    assert_eq!(app.service.status, AppStatus::Idle);
}

#[test]
fn selection_becomes_targets() {
    let mut app = app_with(&[("a", 1, true), ("b", 2, false), ("c", 3, true)]);
    app.adapters[2].weight = 0;
    let targets = app.selected_egress();
    assert_eq!(targets.len(), 2);
    assert_eq!(targets[1].name, "c");
    assert_eq!(targets[1].weight, 1);
    assert_eq!(app.selected_count(), 2);
    app.toggle_adapter(1);
    assert_eq!(app.selected_count(), 3);
    app.toggle_adapter(1);
    assert_eq!(app.selected_count(), 2);
}

#[test]
fn usual_adapters_are_shown() {
    let mut app = app_with(&[("a", 1, false), ("lo", 2, false), ("ll", 3, false)]);
    app.adapters[1].adapter.is_loopback = true;
    app.adapters[2].adapter.is_link_local = true;
    assert_eq!(app.visible_adapter_indices(), vec![0]);
    assert_eq!(app.hidden_adapter_count(), 2);
    app.windows.show_all_adapters = true;
    assert_eq!(app.visible_adapter_indices(), vec![0, 1, 2]);
    assert!(visible_by_default(&app.adapters[0].adapter));
    assert!(!default_selected(&app.adapters[0].adapter));
}

#[test]
fn settings_are_read() {
    let mut app = app_with(&[("a", 1, true)]);
    app.settings.listen_ip = " 0.0.0.0 ".to_owned();
    app.settings.listen_port = "\t1081\n".to_owned();
    app.settings.udp_enabled = false;
    let config = app.proxy_config().unwrap();
    assert_eq!(config.listen_ip, IpAddr::V4(Ipv4Addr::new(0, 0, 0, 0)));
    assert_eq!(config.listen_port, 1081);
    assert_eq!(config.egress.len(), 1);
    assert!(!config.udp_enabled);
    assert_eq!(config.egress_strategy, EgressStrategy::PerDestination);
}

#[test]
fn wrong_settings_are_refused() {
    let mut app = app_with(&[("a", 1, false)]);
    assert_eq!(app.proxy_config().unwrap_err(), "select at least one adapter");
    app.settings.listen_port = "70000".to_owned();
    assert_eq!(app.proxy_config().unwrap_err(), "number too large to fit in target type");
    app.settings.listen_port = "".to_owned();
    assert_eq!(app.proxy_config().unwrap_err(), "cannot parse integer from empty string");
    app.settings.listen_port = "x".to_owned();
    assert_eq!(app.proxy_config().unwrap_err(), "invalid digit found in string");
    app.settings.listen_ip = "localhost".to_owned();
    assert_eq!(app.proxy_config().unwrap_err(), "invalid IP address syntax");
}

#[test]
fn sidecar_settings_are_read() {
    let mut app = app_with(&[]);
    app.settings.bypass_text = " 10.0.0.0/8 \r\n\r\n\n::1/128".to_owned();
    app.settings.tun2proxy_path = "  ".to_owned();
    app.settings.dns_strategy = DnsStrategy::Direct;
    app.settings.enable_ipv6 = true;
    let config = app.vpn_config();
    assert_eq!(config.bypass, vec!["10.0.0.0/8", "::1/128"]);
    assert_eq!(config.tun2proxy_path, None);
    assert_eq!(config.dns_strategy, DnsStrategy::Direct);
    assert!(config.enable_ipv6 && config.setup_routes);
    app.settings.tun2proxy_path = " /opt/t ".to_owned();
    assert_eq!(app.vpn_config().tun2proxy_path.as_deref(), Some("/opt/t"));
}

#[test]
fn proxy_starts_and_stops() {
    let mut app = app_with(&[("a", 1, true)]);
    app.connections.apply_connection_event(opened("old"));
    assert!(matches!(app.start_proxy(), ProxyStart::Launch(_)));
    assert!(app.connections.rows.is_empty());
    assert_eq!(app.service.proxy_launched(None), None);
    assert_eq!(app.service.status, AppStatus::ProxyRunning);
    assert!(matches!(app.start_proxy(), ProxyStart::AlreadyRunning));
    app.connections.apply_connection_event(opened("1"));
    assert_eq!(app.service.stop_vpn(None), None);
    assert_eq!(app.stop_proxy(50), Some("proxy stopped"));
    assert_eq!(app.service, Service { proxy: false, vpn: false, status: AppStatus::Idle });
    assert_eq!(app.connections.rows[0].reason, "proxy stopped");
    assert_eq!(app.stop_proxy(51), None);
}

#[test]
fn proxy_may_not_start() {
    let mut app = app_with(&[]);
    match app.start_proxy() {
        ProxyStart::Refused(line) => {
            assert_eq!(line, "cannot start proxy: select at least one adapter");
        }
        _ => panic!("started"),
    }
    assert_eq!(
        app.service.proxy_launched(Some("no threads")).as_deref(),
        Some("cannot start proxy: no threads")
    );
    assert!(!app.service.is_running());
}

#[test]
fn sidecar_needs_the_proxy() {
    let mut app = app_with(&[("a", 1, true)]);
    assert!(matches!(app.start_vpn(), VpnStart::NeedsProxy));
    app.service.proxy_launched(None);
    assert!(matches!(app.start_vpn(), VpnStart::Launch(1080, _)));
    app.settings.listen_port = "x".to_owned();
    match app.start_vpn() {
        VpnStart::Refused(line) => {
            assert_eq!(line, "invalid proxy port: invalid digit found in string");
        }
        _ => panic!("started"),
    }
    assert_eq!(
        app.service.vpn_launched(Some("missing")).as_deref(),
        Some("cannot start VPN sidecar: missing")
    );
    assert_eq!(app.service.vpn_launched(None), None);
    assert_eq!(app.service.status, AppStatus::VpnRunning);
    assert!(matches!(app.start_vpn(), VpnStart::AlreadyRunning));
    assert_eq!(app.service.stop_vpn(None).as_deref(), Some("VPN sidecar stopped"));
    assert_eq!(app.service.status, AppStatus::ProxyRunning);
}

#[test]
fn sidecar_may_end_by_itself() {
    let mut service = Service { proxy: true, vpn: true, status: AppStatus::VpnRunning };
    assert_eq!(
        service.vpn_ended(&VpnEnd::Exited("exit status: 1".to_owned())),
        "VPN sidecar exited: exit status: 1"
    );
    assert_eq!(service, Service { proxy: true, vpn: false, status: AppStatus::ProxyRunning });
    let mut alone = Service { proxy: false, vpn: true, status: AppStatus::VpnRunning };
    assert_eq!(
        alone.vpn_ended(&VpnEnd::CheckFailed("gone".to_owned())),
        "VPN sidecar status check failed: gone"
    );
    assert_eq!(alone.status, AppStatus::Idle);
    let mut failing = Service { proxy: false, vpn: true, status: AppStatus::VpnRunning };
    assert_eq!(
        failing.stop_vpn(Some("busy")).as_deref(),
        Some("failed to stop VPN sidecar: busy")
    );
    assert!(!failing.vpn);
}

#[test]
fn proxy_may_end_by_itself() {
    let mut app = app_with(&[("a", 1, true)]);
    assert_eq!(app.proxy_exited(9), None);
    app.service.proxy_launched(None);
    app.service.vpn_launched(None);
    app.connections.apply_connection_event(opened("1"));
    assert_eq!(app.proxy_exited(9), Some("proxy task exited"));
    assert_eq!(app.service.status, AppStatus::VpnRunning);
    assert_eq!(app.connections.rows[0].reason, "proxy task exited");
    assert_eq!(app.connections.rows[0].closed_at, Some(9));
}

fn windows() -> Windows {
    NetCombinerApp::new(true, 0).windows
}

#[test]
fn tray_brings_the_window_back_first() {
    for event in
        [TrayEvent::ShowMain, TrayEvent::OpenOptions, TrayEvent::OpenConnections, TrayEvent::Quit]
    {
        let mut windows = windows();
        windows.window_visible = false;
        let commands = windows.handle_tray_event(event);
        assert_eq!(
            commands[..4],
            [
                WindowCommand::ShowMain,
                WindowCommand::RestoreMain,
                WindowCommand::FocusMain,
                WindowCommand::Repaint,
            ]
        );
        assert!(windows.window_visible);
        assert_eq!(windows.show_tray_options, event == TrayEvent::OpenOptions);
        assert_eq!(windows.show_connection_window, event == TrayEvent::OpenConnections);
        assert_eq!(windows.allow_exit, event == TrayEvent::Quit);
        if event == TrayEvent::Quit {
            assert_eq!(
                commands[4..],
                [WindowCommand::StopAll, WindowCommand::CloseMonitor, WindowCommand::CloseMain]
            );
        } else {
            assert_eq!(commands.len(), 4);
        }
    }
}

#[test]
fn closing_hides_to_the_tray() {
    let mut windows = windows();
    windows.show_connection_window = true;
    let (commands, line) = windows.handle_close_request();
    assert_eq!(
        commands,
        vec![WindowCommand::CancelClose, WindowCommand::CloseMonitor, WindowCommand::HideMain]
    );
    assert_eq!(line, Some("window hidden to tray"));
    assert!(!windows.window_visible && !windows.show_connection_window);
    let (_, line) = windows.handle_close_request();
    assert_eq!(line, None);
    let commands = windows.quit();
    assert_eq!(commands, vec![WindowCommand::StopAll, WindowCommand::CloseMain]);
    let (commands, line) = windows.handle_close_request();
    assert!(commands.is_empty() && line.is_none());
}

#[test]
fn closing_ends_where_there_is_no_tray() {
    let mut windows = windows();
    windows.tray_available = false;
    assert!(windows.handle_close_request().0.is_empty());
    let mut unwanted = NetCombinerApp::new(true, 0).windows;
    unwanted.close_to_tray = false;
    assert!(unwanted.handle_close_request().0.is_empty());
    assert!(unwanted.window_visible);
}

#[test]
fn tray_speaks_the_language() {
    let mut windows = windows();
    assert_eq!(windows.sync_tray_language(Language::English), None);
    assert_eq!(windows.sync_tray_language(Language::Korean), Some(TrayLanguage::Korean));
    assert_eq!(windows.sync_tray_language(Language::Korean), None);
}

fn updates() -> Updates {
    NetCombinerApp::new(true, 0).updates
}

#[test]
fn update_messages_are_shown() {
    let mut updates = updates();
    updates.busy = true;
    let info = |available| UpdateInfo {
        current_version: "0.1.10".to_owned(),
        latest_version: "0.2.0".to_owned(),
        available,
    };
    for (message, text) in [
        (UpdateMessage::Check(Ok(info(true))), "Update available: 0.1.10 -> 0.2.0"),
        (UpdateMessage::Check(Ok(info(false))), "Up to date: 0.1.10"),
        (UpdateMessage::Check(Err("e".to_owned())), "Update check failed: e"),
        (UpdateMessage::Install(Ok("Updated(1)".to_owned())), "Update finished: Updated(1). Restart the app."),
        (UpdateMessage::Install(Err("e".to_owned())), "Update failed: e"),
    ] {
        updates.take_message(&message);
        assert_eq!(updates.status, text);
        assert!(!updates.busy);
    }
}

#[test]
fn installation_is_blocked_while_running() {
    let mut updates = updates();
    assert_eq!(updates.start_install(true), InstallStart::Blocked);
    assert_eq!(updates.status, "Stop the proxy or VPN before installing an update.");
    assert!(!updates.busy);
    assert_eq!(updates.start_install(false), InstallStart::Launch);
    assert_eq!(updates.status, "Installing update...");
    assert_eq!(updates.start_install(false), InstallStart::Busy);
    assert!(!updates.start_check());
    updates.take_message(&UpdateMessage::Install(Ok("done".to_owned())));
    assert!(updates.start_check());
    assert_eq!(updates.status, "Checking for updates...");
}

#[test]
fn updates_are_looked_for_once() {
    let mut app = NetCombinerApp::new(true, 100);
    assert!(app.wants_repaint());
    assert!(!app.updates.auto_check_due(100, 100 + AUTO_CHECK_DELAY - 1));
    assert!(!app.updates.auto_check_due(100, 50));
    assert!(app.updates.auto_check_due(100, 100 + AUTO_CHECK_DELAY));
    assert!(!app.updates.auto_check_due(100, 100 + 2 * AUTO_CHECK_DELAY));
    assert!(!app.wants_repaint());
    app.windows.show_connection_window = true;
    assert!(app.wants_repaint());
}
