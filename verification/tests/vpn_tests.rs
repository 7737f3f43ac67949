use net_combiner::platform::Platform;
use net_combiner::vpn::{
    candidate_names, command_args_for_log, missing_sidecar_message, path_names, pipe_line,
    quote_arg_for_log, resolve_tun2proxy, search_places, sidecar_args, started_line, starting_line,
    DnsStrategy, PlaceDir, SidecarChoice, VpnConfig,
};

#[test]
fn arguments_follow_the_settings() {
    let mut config = VpnConfig::default();
    assert_eq!(
        sidecar_args(1080, &config),
        vec![
            "--proxy",
            "socks5://127.0.0.1:1080",
            "--dns",
            "virtual",
            "--setup",
            "--bypass",
            "127.0.0.0/8",
            "--bypass",
            "::1/128",
        ]
    );
    config.setup_routes = false;
    config.enable_ipv6 = true;
    config.dns_strategy = DnsStrategy::OverTcp;
    config.bypass = vec!["  ".to_owned(), " 10.0.0.0/8 ".to_owned(), String::new()];
    assert_eq!(
        sidecar_args(65535, &config),
        vec![
            "--proxy",
            "socks5://127.0.0.1:65535",
            "--dns",
            "over-tcp",
            "--ipv6-enabled",
            "--bypass",
            "10.0.0.0/8",
        ]
    );
}

#[test]
fn strategies_have_words() {
    for (strategy, word) in [
        (DnsStrategy::Virtual, "virtual"),
        (DnsStrategy::OverTcp, "over-tcp"),
        (DnsStrategy::Direct, "direct"),
    ] {
        assert_eq!(strategy.label(), word);
        assert_eq!(strategy.as_tun2proxy_value(), word);
    }
}

#[test]
fn log_lines_of_the_sidecar() {
    assert_eq!(quote_arg_for_log("plain\"x"), "plain\"x");
    assert_eq!(quote_arg_for_log("a \"b\""), "\"a \\\"b\\\"\"");
    assert_eq!(quote_arg_for_log(""), "\"\"");
    let args = vec!["--proxy".to_owned(), "two words".to_owned()];
    assert_eq!(command_args_for_log(&args), vec!["--proxy", "\"two words\""]);
    assert_eq!(
        starting_line("/opt/tun2proxy", &args),
        "starting TUN sidecar: /opt/tun2proxy --proxy \"two words\""
    );
    assert_eq!(started_line("/opt/tun2proxy"), "started TUN sidecar: /opt/tun2proxy");
    assert_eq!(pipe_line("tun2proxy", Ok("up")), "tun2proxy: up");
    assert_eq!(pipe_line("tun2proxy", Err("eof")), "tun2proxy: failed to read output: eof");
}

#[test]
fn places_of_the_sidecar() {
    assert_eq!(candidate_names(Platform::Linux), vec!["tun2proxy-bin", "tun2proxy"]);
    let extensions = vec![".COM".to_owned(), ".EXE".to_owned()];
    assert_eq!(path_names(Platform::Linux, &extensions), vec!["tun2proxy-bin", "tun2proxy"]);
    assert_eq!(
        path_names(Platform::Windows, &extensions),
        vec!["tun2proxy-bin.exe", "tun2proxy.exe"]
    );
}

#[test]
fn places_are_tried_in_order() {
    let extensions = vec![".COM".to_owned()];
    let order = |platform, known, dirs| -> Vec<(PlaceDir, String)> {
        search_places(platform, known, dirs, &extensions)
            .into_iter()
            .map(|place| (place.dir, place.name))
            .collect()
    };
    assert_eq!(
        order(Platform::Windows, true, 2),
        vec![
            (PlaceDir::Application, "tun2proxy-bin.exe".to_owned()),
            (PlaceDir::Application, "tun2proxy.exe".to_owned()),
            (PlaceDir::Bin, "tun2proxy-bin.exe".to_owned()),
            (PlaceDir::Bin, "tun2proxy.exe".to_owned()),
            (PlaceDir::OnPath(0), "tun2proxy-bin.exe".to_owned()),
            (PlaceDir::OnPath(0), "tun2proxy.exe".to_owned()),
            (PlaceDir::OnPath(1), "tun2proxy-bin.exe".to_owned()),
            (PlaceDir::OnPath(1), "tun2proxy.exe".to_owned()),
        ]
    );
    assert_eq!(
        order(Platform::Linux, false, 1),
        vec![
            (PlaceDir::OnPath(0), "tun2proxy-bin".to_owned()),
            (PlaceDir::OnPath(0), "tun2proxy".to_owned()),
        ]
    );
    assert_eq!(order(Platform::Linux, false, 0), vec![]);
}

#[test]
fn settings_can_be_copied() {
    let config = VpnConfig { enable_ipv6: true, ..VpnConfig::default() };
    let copy = config.clone();
    assert!(copy.enable_ipv6);
    assert_eq!(copy.bypass, config.bypass);
}

#[test]
fn sidecar_is_picked() {
    let present = vec![false, true, true];
    assert_eq!(resolve_tun2proxy(Some(true), &present), SidecarChoice::Configured);
    assert_eq!(resolve_tun2proxy(Some(false), &present), SidecarChoice::ConfiguredMissing);
    assert_eq!(resolve_tun2proxy(None, &present), SidecarChoice::Found(1));
    assert_eq!(resolve_tun2proxy(None, &vec![false]), SidecarChoice::NotFound);
    assert_eq!(
        missing_sidecar_message(SidecarChoice::ConfiguredMissing, "/x").as_deref(),
        Some("configured tun2proxy path does not exist: /x")
    );
    assert!(missing_sidecar_message(SidecarChoice::NotFound, "")
        .unwrap()
        .starts_with("tun2proxy-bin not found beside net-combiner or on PATH;"));
    assert_eq!(missing_sidecar_message(SidecarChoice::Found(0), "/x"), None);
    assert_eq!(missing_sidecar_message(SidecarChoice::Configured, "/x"), None);
}
