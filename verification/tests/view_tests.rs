use net_combiner::adapter::AdapterAddress;
use net_combiner::addr::{IpAddr, Ipv4Addr, SocketAddr};
use net_combiner::gui::{AdapterRow, AppStatus, Mode, NetCombinerApp};
use net_combiner::monitor::{ConnectionMonitorFilter, ConnectionRow};
use net_combiner::platform::Platform;
use net_combiner::proxy::{ConnectionOpened, ConnectionProtocol};
use net_combiner::texts::{tray_language_for, Language, Texts};
use net_combiner::theme::{font_name, system_font_candidates, Rgb, Role, Theme, ThemeMode};
use net_combiner::tray::TrayLanguage;
use net_combiner::view::{
    adapter_card, advanced_label, card_clicked, card_roles, connection_card, connection_counts,
    current_step, diagram_inputs, filter_button, hidden_note, label_text, log_count, log_toggle,
    mode_card, pill_button_roles, pulse_role, refreshed_note, run_panel, scope_pill,
    selection_summary, settings_titles, show_all_label, state_pill, status_pill, step_chip,
    step_labels, table_headers, table_row, tray_status_line,
};

const SECOND: u64 = 1_000_000_000;

fn english() -> Texts {
    Texts::new(Language::English)
}

fn app(selected: bool) -> NetCombinerApp {
    let mut app = NetCombinerApp::new(true, 0);
    app.adapters = vec![AdapterRow {
        adapter: AdapterAddress {
            name: "Ethernet adapter with a long name".to_owned(),
            ip: IpAddr::V4(Ipv4Addr::new(192, 168, 1, 4)),
            mac: None,
            index: None,
            is_loopback: false,
            is_private: true,
            is_link_local: false,
        },
        selected,
        weight: 3,
    }];
    app
}

fn row() -> ConnectionRow {
    ConnectionRow::from_opened(ConnectionOpened {
        id: "7".to_owned(),
        protocol: ConnectionProtocol::Udp,
        client: SocketAddr::new(IpAddr::V4(Ipv4Addr::new(127, 0, 0, 1)), 4000),
        target: "host:443".to_owned(),
        egress_name: "LAN".to_owned(),
        egress_ip: IpAddr::V4(Ipv4Addr::new(192, 0, 2, 1)),
        opened_at: 10 * SECOND,
    })
}

#[test]
fn steps_follow_the_state() {
    let mut running = app(true);
    assert_eq!(current_step(&app(false)), 1);
    assert_eq!(current_step(&running), 2);
    running.service.proxy_launched(None);
    assert_eq!(current_step(&running), 4);
    assert_eq!(step_labels(&english())[4], english().step_label_run);
    let done = step_chip(0, 2);
    assert_eq!((done.fill, done.colour, done.line), (Role::SuccessSoft, Role::Success, Role::Primary));
    assert_eq!(done.badge, "\u{2713}");
    let current = step_chip(2, 2);
    assert_eq!((current.fill, current.colour, current.badge.as_str()), (Role::Primary, Role::White, "3"));
    let next = step_chip(3, 2);
    assert_eq!((next.fill, next.line, next.badge.as_str()), (Role::SurfaceAlt, Role::Border, "4"));
}

#[test]
fn widgets_have_colours() {
    assert_eq!(pill_button_roles(true), (Role::PrimarySoft, Role::Primary, Role::Primary));
    assert_eq!(pill_button_roles(false), (Role::SurfaceAlt, Role::Text, Role::Border));
    assert_eq!(card_roles(true), (Role::PrimarySoft, Role::Primary));
    for (scope, fill, colour) in [
        ("public", Role::SuccessSoft, Role::Success),
        ("private", Role::PrimarySoft, Role::Primary),
        ("loopback", Role::SurfaceAlt, Role::TextMuted),
        ("link-local", Role::WarningSoft, Role::Warning),
    ] {
        let pill = scope_pill(scope);
        assert_eq!((pill.fill, pill.colour, pill.label.as_str()), (fill, colour, scope));
    }
    assert_eq!(pulse_role(true), Role::Success);
    assert_eq!(pulse_role(false), Role::TextMuted);
    assert_eq!([0, 2, 3, 9].map(diagram_inputs), [2, 2, 3, 4]);
    assert!(card_clicked(true, false) && !card_clicked(true, true) && !card_clicked(false, false));
}

#[test]
fn status_is_shown() {
    let t = english();
    assert_eq!(status_pill(AppStatus::Idle, &t).label, "Idle");
    assert_eq!(status_pill(AppStatus::ProxyRunning, &t).label, "Proxy running");
    assert_eq!(status_pill(AppStatus::VpnRunning, &t).colour, Role::Success);
    let failed = status_pill(AppStatus::AdapterRefreshFailed, &t);
    assert_eq!((failed.fill, failed.label.as_str()), (Role::WarningSoft, "Adapter refresh failed"));
}

#[test]
fn adapters_are_shown() {
    let t = english();
    assert_eq!(selection_summary(0, &t), t.adapters_none_selected);
    assert_eq!(selection_summary(2, &t), format!("2 {}", t.adapters_n_selected));
    assert_eq!(show_all_label(true, &t), t.hide_extra);
    assert_eq!(hidden_note(0, false, &t), None);
    assert_eq!(hidden_note(3, true, &t), None);
    assert_eq!(hidden_note(3, false, &t), Some(format!("(3 {})", t.hidden_adapters_n)));
    assert_eq!(refreshed_note(0, 61 * SECOND + 5, &t), format!("{} 61s", t.refreshed_ago));
    assert_eq!(refreshed_note(9, 3, &t), format!("{} 0s", t.refreshed_ago));
    let card = adapter_card(&app(true).adapters[0], &t);
    assert_eq!(card.name, "Ethernet ad... a long name");
    assert_eq!(card.address, "192.168.1.4");
    assert_eq!(card.scope.label, "private");
    assert_eq!(card.weight_prefix, Some(format!("{} ", t.weight)));
    assert_eq!(adapter_card(&app(false).adapters[0], &t).weight_prefix, None);
}

#[test]
fn modes_and_settings_are_shown() {
    let t = english();
    let chosen = mode_card(Mode::Vpn, Mode::Vpn, &t);
    assert_eq!(chosen.title, t.mode_vpn_title);
    assert!(chosen.tag.is_some());
    let other = mode_card(Mode::Proxy, Mode::Vpn, &t);
    assert_eq!((other.fill, other.border, other.tag), (Role::SurfaceAlt, Role::Border, None));
    assert_eq!(settings_titles(Mode::Proxy, &t), (t.step4_proxy_title, t.step4_proxy_subtitle));
    assert_eq!(advanced_label(false, &t), t.show_advanced);
}

#[test]
fn run_panel_follows_the_state() {
    let t = english();
    let idle = run_panel(&app(false), &t);
    assert_eq!(idle.title, t.status_ready);
    assert_eq!(idle.detail, t.run_help_no_adapter);
    assert!(!idle.enabled && !idle.stops && idle.warning.is_none());
    let mut ready = app(true);
    ready.settings.mode = Mode::Vpn;
    let panel = run_panel(&ready, &t);
    assert_eq!(panel.detail, format!("{}  /  127.0.0.1:1080", t.run_help_ready));
    assert_eq!((panel.button, panel.enabled, panel.warning), (t.start_vpn, true, Some(t.vpn_admin_warning)));
    ready.service.proxy_launched(None);
    let panel = run_panel(&ready, &t);
    assert_eq!(panel.title, format!("{} / {}", t.status_running, t.mode_vpn_title));
    assert_eq!(panel.detail, format!("127.0.0.1:1080  /  1 {}", t.adapters_n_selected));
    assert_eq!((panel.button, panel.stops, panel.warning), (t.stop, true, None));
}

#[test]
fn connections_are_shown() {
    let t = english();
    let mut connection = row();
    let card = connection_card(&connection, 75 * SECOND, &t);
    assert_eq!(card.protocol, "UDP");
    assert_eq!(card.target, format!("{}: host:443", t.connection_target));
    assert_eq!(card.adapter, format!("{}: LAN (192.0.2.1)", t.connection_adapter));
    assert_eq!(card.client, format!("{}: 127.0.0.1:4000", t.connection_client));
    assert_eq!(card.age, "Age: 1m 5s");
    assert_eq!((card.bytes, card.reason), (None, None));
    connection.up_bytes = 2048;
    let card = connection_card(&connection, 75 * SECOND, &t);
    assert_eq!(card.bytes.as_deref(), Some("Bytes: 2.0 KiB up / 0 B down"));
    connection.closed_at = Some(12 * SECOND);
    connection.reason = "closed".to_owned();
    let card = connection_card(&connection, 75 * SECOND, &t);
    assert_eq!(card.age, "Age: 2s");
    assert_eq!(card.reason.as_deref(), Some("closed"));
    assert_eq!(state_pill(&connection, &t).label, t.connections_recent);
    let (recent, active) = connection_counts(4, 1, &t);
    assert_eq!(recent.label, format!("4 {}", t.connections_recent));
    assert_eq!(active.label, format!("1 {}", t.connections_active));
}

#[test]
fn monitor_table() {
    let t = english();
    assert_eq!(table_headers(&t)[0], "ID");
    assert_eq!(table_headers(&t)[10], "Reason");
    let cells = table_row(&row(), 10 * SECOND, &t);
    let texts: Vec<&str> = cells.iter().map(|cell| cell.text.as_str()).collect();
    assert_eq!(
        texts,
        vec![
            "7", t.connections_active, "UDP", "0s", "127.0.0.1:4000", "host:443", "LAN", "192.0.2.1",
            "0 B", "0 B", "",
        ]
    );
    assert_eq!(cells[1].colour, Role::Success);
    let button = filter_button(
        ConnectionMonitorFilter::All,
        3,
        ConnectionMonitorFilter::Active,
        &t,
    );
    assert_eq!((button.label, button.active), (format!("3 {}", t.connections_all), false));
}

#[test]
fn options_and_log_texts() {
    let t = english();
    assert_eq!(tray_status_line(true, &t), "Tray status: available");
    assert_eq!(tray_status_line(false, &t), "Tray status: unavailable");
    assert_eq!(log_toggle(true, &t), "\u{25be} Logs");
    assert_eq!(log_toggle(false, &t), "\u{25b8} Logs");
    assert_eq!(log_count(12), "(12)");
    assert_eq!(label_text("a", "b"), "a: b");
}

#[test]
fn texts_have_two_languages() {
    let english = Texts::new(Language::English);
    let korean = Texts::new(Language::Korean);
    assert_eq!(english.update_install, "Install latest");
    assert_ne!(english.tagline, korean.tagline);
    assert_ne!(english.quit_app, korean.quit_app);
    assert_eq!(tray_language_for(Language::English), TrayLanguage::English);
    assert_eq!(tray_language_for(Language::Korean), TrayLanguage::Korean);
}

#[test]
fn themes_have_colours() {
    let light = Theme::for_mode(ThemeMode::Light);
    let dark = Theme::for_mode(ThemeMode::Dark);
    assert!(!light.is_dark() && dark.is_dark());
    assert_eq!(light.colour(Role::Primary), Rgb { r: 99, g: 102, b: 241 });
    assert_eq!(dark.colour(Role::LogText), Rgb { r: 190, g: 200, b: 220 });
    assert_eq!(dark.colour(Role::White), Rgb { r: 255, g: 255, b: 255 });
    assert_eq!(ThemeMode::Light.toggled(), ThemeMode::Dark);
    assert_eq!(ThemeMode::Dark.toggled(), ThemeMode::Light);
    assert_eq!(ThemeMode::Light.switch_sign(), "\u{1f319}");
}

#[test]
fn fonts_of_the_system() {
    assert_eq!(system_font_candidates(Platform::Windows)[0], r"C:\Windows\Fonts\malgun.ttf");
    assert_eq!(system_font_candidates(Platform::Linux).len(), 6);
    assert_eq!(system_font_candidates(Platform::MacOs).len(), 5);
    assert!(system_font_candidates(Platform::Other).is_empty());
    assert_eq!(font_name("malgun"), "system-malgun");
}

fn all_texts(t: &Texts) -> Vec<&'static str> {
    vec![
        t.tagline,
        t.step_label_intro,
        t.step_label_adapters,
        t.step_label_mode,
        t.step_label_settings,
        t.step_label_run,
        t.step1_title,
        t.step1_subtitle,
        t.intro_bullet1,
        t.intro_bullet2,
        t.intro_bullet3,
        t.step2_title,
        t.step2_subtitle,
        t.adapters_help,
        t.refresh,
        t.refreshed_ago,
        t.no_adapters,
        t.hidden_adapters_n,
        t.show_all,
        t.hide_extra,
        t.adapters_none_selected,
        t.adapters_n_selected,
        t.weight,
        t.step3_title,
        t.step3_subtitle,
        t.mode_proxy_title,
        t.mode_proxy_body,
        t.mode_proxy_for,
        t.mode_vpn_title,
        t.mode_vpn_body,
        t.mode_vpn_for,
        t.step4_proxy_title,
        t.step4_proxy_subtitle,
        t.step4_vpn_title,
        t.step4_vpn_subtitle,
        t.show_advanced,
        t.hide_advanced,
        t.listen_address,
        t.listen_help,
        t.internal_listen_address,
        t.internal_port,
        t.internal_listen_help,
        t.port,
        t.udp_associate,
        t.udp_associate_help,
        t.configure_routes,
        t.configure_routes_help,
        t.enable_ipv6,
        t.dns,
        t.dns_help,
        t.tun2proxy_path,
        t.tun2proxy_hint,
        t.bypass_cidrs,
        t.bypass_help,
        t.advanced_title,
        t.step5_title,
        t.step5_subtitle,
        t.status_ready,
        t.status_running,
        t.run_help_no_adapter,
        t.run_help_ready,
        t.start_proxy,
        t.start_vpn,
        t.stop,
        t.vpn_admin_warning,
        t.connections_title,
        t.connections_subtitle,
        t.connections_empty,
        t.connections_active,
        t.connections_recent,
        t.connections_all,
        t.connection_target,
        t.connection_adapter,
        t.connection_client,
        t.connection_age,
        t.connection_bytes,
        t.open_connection_monitor,
        t.connection_monitor_title,
        t.clear_recent_connections,
        t.clear_all_connections,
        t.column_id,
        t.column_state,
        t.column_proto,
        t.column_age,
        t.column_client,
        t.column_target,
        t.column_adapter,
        t.column_egress_ip,
        t.column_up,
        t.column_down,
        t.column_reason,
        t.options_title,
        t.tray_section_title,
        t.close_to_tray,
        t.close_to_tray_help,
        t.tray_status,
        t.tray_available,
        t.tray_unavailable,
        t.quick_options,
        t.update_title,
        t.update_repo,
        t.update_check,
        t.update_install,
        t.language,
        t.theme,
        t.light,
        t.dark,
        t.quit_app,
        t.logs_title,
        t.log_file,
        t.no_logs,
        t.clear,
        t.status_idle,
        t.status_proxy_running,
        t.status_vpn_running,
        t.status_adapter_failed,
    ]
}

#[test]
fn every_text_is_translated() {
    let english = Texts::new(Language::English);
    let korean = Texts::new(Language::Korean);
    let pairs: Vec<(&str, &str)> =
        all_texts(&english).into_iter().zip(all_texts(&korean)).collect();
    assert!(pairs.iter().all(|(one, other)| !one.is_empty() && !other.is_empty()));
    let same: Vec<&str> =
        pairs.iter().filter(|(one, other)| one == other).map(|(one, _)| *one).collect();
    assert_eq!(same, vec!["ID"]);
    assert_eq!((english.column_id, korean.column_id), ("ID", "ID"));
    assert_eq!((english.column_down, korean.column_down), ("Down", "다운로드"));
}
