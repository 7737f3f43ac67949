//! That nothing is left untranslated.

use vstd::prelude::*;

use crate::texts::{Language, Texts};

verus! {

/// Every text is there in both languages, and each differs between them but for the title of the
/// column of identities.
pub proof fn law_every_text_is_translated(english: Texts, korean: Texts)
    requires
        english.worded(Language::English),
        korean.worded(Language::Korean),
    ensures
        english.filled(),
        korean.filled(),
        english.translated(korean),
        english.column_id@ == "ID"@,
        korean.column_id@ == "ID"@,
{
    reveal_strlit("ID");
    assert(english.tagline@.len() > 0 && korean.tagline@.len() > 0
        && english.tagline@ != korean.tagline@) by {
        reveal_strlit("Combine multiple network adapters into one virtual exit.");
        reveal_strlit("여러 네트워크 어댑터를 하나의 출구로 묶어주는 도구");
    }
    assert(english.step_label_intro@.len() > 0 && korean.step_label_intro@.len() > 0
        && english.step_label_intro@ != korean.step_label_intro@) by {
        reveal_strlit("Intro");
        reveal_strlit("소개");
    }
    assert(english.step_label_adapters@.len() > 0 && korean.step_label_adapters@.len() > 0
        && english.step_label_adapters@ != korean.step_label_adapters@) by {
        reveal_strlit("Adapters");
        reveal_strlit("어댑터");
    }
    assert(english.step_label_mode@.len() > 0 && korean.step_label_mode@.len() > 0
        && english.step_label_mode@ != korean.step_label_mode@) by {
        reveal_strlit("Mode");
        reveal_strlit("모드");
    }
    assert(english.step_label_settings@.len() > 0 && korean.step_label_settings@.len() > 0
        && english.step_label_settings@ != korean.step_label_settings@) by {
        reveal_strlit("Settings");
        reveal_strlit("설정");
    }
    assert(english.step_label_run@.len() > 0 && korean.step_label_run@.len() > 0
        && english.step_label_run@ != korean.step_label_run@) by {
        reveal_strlit("Run");
        reveal_strlit("실행");
    }
    assert(english.step1_title@.len() > 0 && korean.step1_title@.len() > 0
        && english.step1_title@ != korean.step1_title@) by {
        reveal_strlit("What is net-combiner?");
        reveal_strlit("net-combiner 가 뭔가요?");
    }
    assert(english.step1_subtitle@.len() > 0 && korean.step1_subtitle@.len() > 0
        && english.step1_subtitle@ != korean.step1_subtitle@) by {
        reveal_strlit("Use several internet connections as if they were one.");
        reveal_strlit("여러 인터넷 회선을 하나의 가상 회선처럼 사용해요.");
    }
    assert(english.intro_bullet1@.len() > 0 && korean.intro_bullet1@.len() > 0
        && english.intro_bullet1@ != korean.intro_bullet1@) by {
        reveal_strlit("Use Wi-Fi, Ethernet, phone tethering and more at the same time.");
        reveal_strlit("Wi-Fi, 유선랜, 휴대폰 테더링 같은 여러 네트워크를 동시에 활용합니다.");
    }
    assert(english.intro_bullet2@.len() > 0 && korean.intro_bullet2@.len() > 0
        && english.intro_bullet2@ != korean.intro_bullet2@) by {
        reveal_strlit("Each connection (flow) is spread across adapters to increase throughput.");
        reveal_strlit("각 연결(트래픽 흐름)을 어댑터에 분산해 전체 처리량을 늘립니다.");
    }
    assert(english.intro_bullet3@.len() > 0 && korean.intro_bullet3@.len() > 0
        && english.intro_bullet3@ != korean.intro_bullet3@) by {
        reveal_strlit("Proxy mode works per-app; VPN mode routes the whole system through it.");
        reveal_strlit("프록시 모드는 앱 설정만으로, VPN 모드는 시스템 전체 트래픽을 라우팅합니다.");
    }
    assert(english.step2_title@.len() > 0 && korean.step2_title@.len() > 0
        && english.step2_title@ != korean.step2_title@) by {
        reveal_strlit("Pick your adapters");
        reveal_strlit("어댑터 선택");
    }
    assert(english.step2_subtitle@.len() > 0 && korean.step2_subtitle@.len() > 0
        && english.step2_subtitle@ != korean.step2_subtitle@) by {
        reveal_strlit("Select the network adapters you want to use. Pick as many as you like.");
        reveal_strlit("사용할 네트워크 어댑터를 골라주세요. 여러 개 선택할 수 있습니다.");
    }
    assert(english.adapters_help@.len() > 0 && korean.adapters_help@.len() > 0
        && english.adapters_help@ != korean.adapters_help@) by {
        reveal_strlit("An adapter is a network interface on your computer (Wi-Fi, Ethernet, USB tether). Only the ones you pick will be used to send traffic.");
        reveal_strlit("어댑터는 컴퓨터의 네트워크 연결구입니다. Wi-Fi, 유선, USB 테더링 등이 각각 어댑터입니다. 골라둔 어댑터들로만 트래픽이 나갑니다.");
    }
    assert(english.refresh@.len() > 0 && korean.refresh@.len() > 0
        && english.refresh@ != korean.refresh@) by {
        reveal_strlit("Refresh");
        reveal_strlit("새로고침");
    }
    assert(english.refreshed_ago@.len() > 0 && korean.refreshed_ago@.len() > 0
        && english.refreshed_ago@ != korean.refreshed_ago@) by {
        reveal_strlit("updated");
        reveal_strlit("갱신");
    }
    assert(english.no_adapters@.len() > 0 && korean.no_adapters@.len() > 0
        && english.no_adapters@ != korean.no_adapters@) by {
        reveal_strlit("No adapters to show. Try 'Show all'.");
        reveal_strlit("표시할 어댑터가 없어요. '모두 보기'를 눌러보세요.");
    }
    assert(english.hidden_adapters_n@.len() > 0 && korean.hidden_adapters_n@.len() > 0
        && english.hidden_adapters_n@ != korean.hidden_adapters_n@) by {
        reveal_strlit("hidden");
        reveal_strlit("숨김");
    }
    assert(english.show_all@.len() > 0 && korean.show_all@.len() > 0
        && english.show_all@ != korean.show_all@) by {
        reveal_strlit("Show all");
        reveal_strlit("모두 보기");
    }
    assert(english.hide_extra@.len() > 0 && korean.hide_extra@.len() > 0
        && english.hide_extra@ != korean.hide_extra@) by {
        reveal_strlit("Show defaults");
        reveal_strlit("기본만 보기");
    }
    assert(english.adapters_none_selected@.len() > 0 && korean.adapters_none_selected@.len() > 0
        && english.adapters_none_selected@ != korean.adapters_none_selected@) by {
        reveal_strlit("Select at least one adapter");
        reveal_strlit("어댑터를 1개 이상 선택하세요");
    }
    assert(english.adapters_n_selected@.len() > 0 && korean.adapters_n_selected@.len() > 0
        && english.adapters_n_selected@ != korean.adapters_n_selected@) by {
        reveal_strlit("selected");
        reveal_strlit("개 선택됨");
    }
    assert(english.weight@.len() > 0 && korean.weight@.len() > 0
        && english.weight@ != korean.weight@) by {
        reveal_strlit("Weight");
        reveal_strlit("가중치");
    }
    assert(english.step3_title@.len() > 0 && korean.step3_title@.len() > 0
        && english.step3_title@ != korean.step3_title@) by {
        reveal_strlit("Choose a mode");
        reveal_strlit("모드 선택");
    }
    assert(english.step3_subtitle@.len() > 0 && korean.step3_subtitle@.len() > 0
        && english.step3_subtitle@ != korean.step3_subtitle@) by {
        reveal_strlit("How should the traffic be sent?");
        reveal_strlit("어떻게 트래픽을 보낼지 결정합니다.");
    }
    assert(english.mode_proxy_title@.len() > 0 && korean.mode_proxy_title@.len() > 0
        && english.mode_proxy_title@ != korean.mode_proxy_title@) by {
        reveal_strlit("Proxy mode");
        reveal_strlit("프록시 모드");
    }
    assert(english.mode_proxy_body@.len() > 0 && korean.mode_proxy_body@.len() > 0
        && english.mode_proxy_body@ != korean.mode_proxy_body@) by {
        reveal_strlit("Runs a SOCKS5 proxy at 127.0.0.1:1080. Point your browser or app at it.");
        reveal_strlit("127.0.0.1:1080 에 SOCKS5 프록시를 띄웁니다. 브라우저나 앱에 프록시 주소를 입력해서 사용합니다.");
    }
    assert(english.mode_proxy_for@.len() > 0 && korean.mode_proxy_for@.len() > 0
        && english.mode_proxy_for@ != korean.mode_proxy_for@) by {
        reveal_strlit("Best for: per-app routing, no admin needed");
        reveal_strlit("권장: 특정 앱만 분산하고 싶을 때, 권한이 없을 때");
    }
    assert(english.mode_vpn_title@.len() > 0 && korean.mode_vpn_title@.len() > 0
        && english.mode_vpn_title@ != korean.mode_vpn_title@) by {
        reveal_strlit("VPN mode");
        reveal_strlit("VPN 모드");
    }
    assert(english.mode_vpn_body@.len() > 0 && korean.mode_vpn_body@.len() > 0
        && english.mode_vpn_body@ != korean.mode_vpn_body@) by {
        reveal_strlit("Creates a TUN interface and routes all system traffic through it, so apps don't need to know.");
        reveal_strlit("TUN 인터페이스를 만들고 시스템의 모든 트래픽을 가로채 분산합니다. 별도 설정이 필요 없습니다.");
    }
    assert(english.mode_vpn_for@.len() > 0 && korean.mode_vpn_for@.len() > 0
        && english.mode_vpn_for@ != korean.mode_vpn_for@) by {
        reveal_strlit("Best for: routing the whole machine (admin/root required)");
        reveal_strlit("권장: 컴퓨터 전체 트래픽을 묶고 싶을 때 (관리자 권한 필요)");
    }
    assert(english.step4_proxy_title@.len() > 0 && korean.step4_proxy_title@.len() > 0
        && english.step4_proxy_title@ != korean.step4_proxy_title@) by {
        reveal_strlit("Proxy settings");
        reveal_strlit("프록시 설정");
    }
    assert(english.step4_proxy_subtitle@.len() > 0 && korean.step4_proxy_subtitle@.len() > 0
        && english.step4_proxy_subtitle@ != korean.step4_proxy_subtitle@) by {
        reveal_strlit("Address your browser or app will connect to.");
        reveal_strlit("브라우저나 앱에 입력할 SOCKS5 프록시 주소를 정합니다.");
    }
    assert(english.step4_vpn_title@.len() > 0 && korean.step4_vpn_title@.len() > 0
        && english.step4_vpn_title@ != korean.step4_vpn_title@) by {
        reveal_strlit("VPN settings");
        reveal_strlit("VPN 설정");
    }
    assert(english.step4_vpn_subtitle@.len() > 0 && korean.step4_vpn_subtitle@.len() > 0
        && english.step4_vpn_subtitle@ != korean.step4_vpn_subtitle@) by {
        reveal_strlit("How the TUN interface routes and resolves traffic.");
        reveal_strlit("TUN 인터페이스 동작 방식과 우회 정책을 정합니다.");
    }
    assert(english.show_advanced@.len() > 0 && korean.show_advanced@.len() > 0
        && english.show_advanced@ != korean.show_advanced@) by {
        reveal_strlit("Show advanced");
        reveal_strlit("고급 설정 보기");
    }
    assert(english.hide_advanced@.len() > 0 && korean.hide_advanced@.len() > 0
        && english.hide_advanced@ != korean.hide_advanced@) by {
        reveal_strlit("Hide advanced");
        reveal_strlit("고급 설정 숨기기");
    }
    assert(english.listen_address@.len() > 0 && korean.listen_address@.len() > 0
        && english.listen_address@ != korean.listen_address@) by {
        reveal_strlit("Listen address");
        reveal_strlit("수신 주소");
    }
    assert(english.listen_help@.len() > 0 && korean.listen_help@.len() > 0
        && english.listen_help@ != korean.listen_help@) by {
        reveal_strlit("127.0.0.1 means only this machine can use it. Change to 0.0.0.0 to share with other devices.");
        reveal_strlit("127.0.0.1 은 내 컴퓨터에서만 접근할 수 있다는 뜻입니다. 다른 기기에서 쓰려면 0.0.0.0 으로 바꾸세요.");
    }
    assert(english.internal_listen_address@.len() > 0 && korean.internal_listen_address@.len() > 0
        && english.internal_listen_address@ != korean.internal_listen_address@) by {
        reveal_strlit("Internal listen address");
        reveal_strlit("내부 수신 주소");
    }
    assert(english.internal_port@.len() > 0 && korean.internal_port@.len() > 0
        && english.internal_port@ != korean.internal_port@) by {
        reveal_strlit("Internal port");
        reveal_strlit("내부 포트");
    }
    assert(english.internal_listen_help@.len() > 0 && korean.internal_listen_help@.len() > 0
        && english.internal_listen_help@ != korean.internal_listen_help@) by {
        reveal_strlit("Where tun2proxy connects internally. Usually leave as default.");
        reveal_strlit("tun2proxy 가 내부적으로 연결할 SOCKS5 주소입니다. 보통 그대로 두세요.");
    }
    assert(english.port@.len() > 0 && korean.port@.len() > 0
        && english.port@ != korean.port@) by {
        reveal_strlit("Port");
        reveal_strlit("포트");
    }
    assert(english.udp_associate@.len() > 0 && korean.udp_associate@.len() > 0
        && english.udp_associate@ != korean.udp_associate@) by {
        reveal_strlit("Enable SOCKS5 UDP");
        reveal_strlit("SOCKS5 UDP 지원");
    }
    assert(english.udp_associate_help@.len() > 0 && korean.udp_associate_help@.len() > 0
        && english.udp_associate_help@ != korean.udp_associate_help@) by {
        reveal_strlit("Needed for DNS and some games. Recommended to keep on.");
        reveal_strlit("DNS 조회나 일부 게임에 필요합니다. 켜두는 걸 권장합니다.");
    }
    assert(english.configure_routes@.len() > 0 && korean.configure_routes@.len() > 0
        && english.configure_routes@ != korean.configure_routes@) by {
        reveal_strlit("Auto-configure system routes");
        reveal_strlit("시스템 라우트 자동 설정");
    }
    assert(english.configure_routes_help@.len() > 0 && korean.configure_routes_help@.len() > 0
        && english.configure_routes_help@ != korean.configure_routes_help@) by {
        reveal_strlit("Off means you must edit the routing table yourself. Usually leave on.");
        reveal_strlit("끄면 직접 라우팅 테이블을 설정해야 합니다. 보통은 켜둡니다.");
    }
    assert(english.enable_ipv6@.len() > 0 && korean.enable_ipv6@.len() > 0
        && english.enable_ipv6@ != korean.enable_ipv6@) by {
        reveal_strlit("Enable IPv6 routing");
        reveal_strlit("IPv6 라우팅 사용");
    }
    assert(english.dns@.len() > 0 && korean.dns@.len() > 0
        && english.dns@ != korean.dns@) by {
        reveal_strlit("DNS handling");
        reveal_strlit("DNS 처리 방식");
    }
    assert(english.dns_help@.len() > 0 && korean.dns_help@.len() > 0
        && english.dns_help@ != korean.dns_help@) by {
        reveal_strlit("virtual: map to fake IPs / over-tcp: TCP DNS / direct: leave system DNS");
        reveal_strlit("virtual: 가상 IP 로 매핑 / over-tcp: TCP DNS 사용 / direct: 시스템 그대로");
    }
    assert(english.tun2proxy_path@.len() > 0 && korean.tun2proxy_path@.len() > 0
        && english.tun2proxy_path@ != korean.tun2proxy_path@) by {
        reveal_strlit("tun2proxy binary path");
        reveal_strlit("tun2proxy 실행 파일 경로");
    }
    assert(english.tun2proxy_hint@.len() > 0 && korean.tun2proxy_hint@.len() > 0
        && english.tun2proxy_hint@ != korean.tun2proxy_hint@) by {
        reveal_strlit("Empty = auto-detect next to the app");
        reveal_strlit("비워두면 앱 옆 자동 탐색");
    }
    assert(english.bypass_cidrs@.len() > 0 && korean.bypass_cidrs@.len() > 0
        && english.bypass_cidrs@ != korean.bypass_cidrs@) by {
        reveal_strlit("Bypass CIDRs (one per line)");
        reveal_strlit("우회 CIDR (한 줄에 하나)");
    }
    assert(english.bypass_help@.len() > 0 && korean.bypass_help@.len() > 0
        && english.bypass_help@ != korean.bypass_help@) by {
        reveal_strlit("Traffic to these ranges skips the VPN.");
        reveal_strlit("여기 입력한 대역은 VPN 을 거치지 않고 원래 경로로 나갑니다.");
    }
    assert(english.advanced_title@.len() > 0 && korean.advanced_title@.len() > 0
        && english.advanced_title@ != korean.advanced_title@) by {
        reveal_strlit("Advanced");
        reveal_strlit("고급 옵션");
    }
    assert(english.step5_title@.len() > 0 && korean.step5_title@.len() > 0
        && english.step5_title@ != korean.step5_title@) by {
        reveal_strlit("Run");
        reveal_strlit("실행");
    }
    assert(english.step5_subtitle@.len() > 0 && korean.step5_subtitle@.len() > 0
        && english.step5_subtitle@ != korean.step5_subtitle@) by {
        reveal_strlit("All set. Press start when you're ready.");
        reveal_strlit("준비됐어요. 시작 버튼을 누르세요.");
    }
    assert(english.status_ready@.len() > 0 && korean.status_ready@.len() > 0
        && english.status_ready@ != korean.status_ready@) by {
        reveal_strlit("Ready");
        reveal_strlit("대기 중");
    }
    assert(english.status_running@.len() > 0 && korean.status_running@.len() > 0
        && english.status_running@ != korean.status_running@) by {
        reveal_strlit("Running");
        reveal_strlit("실행 중");
    }
    assert(english.run_help_no_adapter@.len() > 0 && korean.run_help_no_adapter@.len() > 0
        && english.run_help_no_adapter@ != korean.run_help_no_adapter@) by {
        reveal_strlit("Select at least one adapter first.");
        reveal_strlit("어댑터를 먼저 선택하세요.");
    }
    assert(english.run_help_ready@.len() > 0 && korean.run_help_ready@.len() > 0
        && english.run_help_ready@ != korean.run_help_ready@) by {
        reveal_strlit("Ready to start");
        reveal_strlit("시작할 준비가 되었습니다");
    }
    assert(english.start_proxy@.len() > 0 && korean.start_proxy@.len() > 0
        && english.start_proxy@ != korean.start_proxy@) by {
        reveal_strlit("Start proxy");
        reveal_strlit("프록시 시작");
    }
    assert(english.start_vpn@.len() > 0 && korean.start_vpn@.len() > 0
        && english.start_vpn@ != korean.start_vpn@) by {
        reveal_strlit("Start VPN");
        reveal_strlit("VPN 시작");
    }
    assert(english.stop@.len() > 0 && korean.stop@.len() > 0
        && english.stop@ != korean.stop@) by {
        reveal_strlit("Stop");
        reveal_strlit("중지");
    }
    assert(english.vpn_admin_warning@.len() > 0 && korean.vpn_admin_warning@.len() > 0
        && english.vpn_admin_warning@ != korean.vpn_admin_warning@) by {
        reveal_strlit("VPN mode needs administrator/root rights. tun2proxy should be next to the app.");
        reveal_strlit("VPN 모드는 관리자(또는 root) 권한이 필요합니다. tun2proxy 가 같은 폴더에 있어야 합니다.");
    }
    assert(english.connections_title@.len() > 0 && korean.connections_title@.len() > 0
        && english.connections_title@ != korean.connections_title@) by {
        reveal_strlit("Connection activity");
        reveal_strlit("연결 상태");
    }
    assert(english.connections_subtitle@.len() > 0 && korean.connections_subtitle@.len() > 0
        && english.connections_subtitle@ != korean.connections_subtitle@) by {
        reveal_strlit("Live view of which target IP leaves through which selected adapter.");
        reveal_strlit("어떤 대상 IP가 어떤 어댑터를 통해 나가는지 실시간으로 보여줍니다.");
    }
    assert(english.connections_empty@.len() > 0 && korean.connections_empty@.len() > 0
        && english.connections_empty@ != korean.connections_empty@) by {
        reveal_strlit("No active or recent connections yet.");
        reveal_strlit("아직 연결된 대상이 없습니다.");
    }
    assert(english.connections_active@.len() > 0 && korean.connections_active@.len() > 0
        && english.connections_active@ != korean.connections_active@) by {
        reveal_strlit("active");
        reveal_strlit("활성");
    }
    assert(english.connections_recent@.len() > 0 && korean.connections_recent@.len() > 0
        && english.connections_recent@ != korean.connections_recent@) by {
        reveal_strlit("recent");
        reveal_strlit("최근");
    }
    assert(english.connections_all@.len() > 0 && korean.connections_all@.len() > 0
        && english.connections_all@ != korean.connections_all@) by {
        reveal_strlit("all");
        reveal_strlit("전체");
    }
    assert(english.connection_target@.len() > 0 && korean.connection_target@.len() > 0
        && english.connection_target@ != korean.connection_target@) by {
        reveal_strlit("Target");
        reveal_strlit("대상");
    }
    assert(english.connection_adapter@.len() > 0 && korean.connection_adapter@.len() > 0
        && english.connection_adapter@ != korean.connection_adapter@) by {
        reveal_strlit("Adapter");
        reveal_strlit("어댑터");
    }
    assert(english.connection_client@.len() > 0 && korean.connection_client@.len() > 0
        && english.connection_client@ != korean.connection_client@) by {
        reveal_strlit("Client");
        reveal_strlit("클라이언트");
    }
    assert(english.connection_age@.len() > 0 && korean.connection_age@.len() > 0
        && english.connection_age@ != korean.connection_age@) by {
        reveal_strlit("Age");
        reveal_strlit("시간");
    }
    assert(english.connection_bytes@.len() > 0 && korean.connection_bytes@.len() > 0
        && english.connection_bytes@ != korean.connection_bytes@) by {
        reveal_strlit("Bytes");
        reveal_strlit("전송량");
    }
    assert(english.open_connection_monitor@.len() > 0 && korean.open_connection_monitor@.len() > 0
        && english.open_connection_monitor@ != korean.open_connection_monitor@) by {
        reveal_strlit("Open monitor");
        reveal_strlit("연결 모니터 열기");
    }
    assert(english.connection_monitor_title@.len() > 0 && korean.connection_monitor_title@.len() > 0
        && english.connection_monitor_title@ != korean.connection_monitor_title@) by {
        reveal_strlit("Connection monitor");
        reveal_strlit("연결 모니터");
    }
    assert(english.clear_recent_connections@.len() > 0 && korean.clear_recent_connections@.len() > 0
        && english.clear_recent_connections@ != korean.clear_recent_connections@) by {
        reveal_strlit("Clear recent");
        reveal_strlit("최근 항목 지우기");
    }
    assert(english.clear_all_connections@.len() > 0 && korean.clear_all_connections@.len() > 0
        && english.clear_all_connections@ != korean.clear_all_connections@) by {
        reveal_strlit("Clear all");
        reveal_strlit("모두 지우기");
    }
    assert(english.column_state@.len() > 0 && korean.column_state@.len() > 0
        && english.column_state@ != korean.column_state@) by {
        reveal_strlit("State");
        reveal_strlit("상태");
    }
    assert(english.column_proto@.len() > 0 && korean.column_proto@.len() > 0
        && english.column_proto@ != korean.column_proto@) by {
        reveal_strlit("Proto");
        reveal_strlit("프로토콜");
    }
    assert(english.column_age@.len() > 0 && korean.column_age@.len() > 0
        && english.column_age@ != korean.column_age@) by {
        reveal_strlit("Age");
        reveal_strlit("시간");
    }
    assert(english.column_client@.len() > 0 && korean.column_client@.len() > 0
        && english.column_client@ != korean.column_client@) by {
        reveal_strlit("Client");
        reveal_strlit("클라이언트");
    }
    assert(english.column_target@.len() > 0 && korean.column_target@.len() > 0
        && english.column_target@ != korean.column_target@) by {
        reveal_strlit("Target");
        reveal_strlit("대상");
    }
    assert(english.column_adapter@.len() > 0 && korean.column_adapter@.len() > 0
        && english.column_adapter@ != korean.column_adapter@) by {
        reveal_strlit("Adapter");
        reveal_strlit("어댑터");
    }
    assert(english.column_egress_ip@.len() > 0 && korean.column_egress_ip@.len() > 0
        && english.column_egress_ip@ != korean.column_egress_ip@) by {
        reveal_strlit("Egress IP");
        reveal_strlit("출구 IP");
    }
    assert(english.column_up@.len() > 0 && korean.column_up@.len() > 0
        && english.column_up@ != korean.column_up@) by {
        reveal_strlit("Up");
        reveal_strlit("업로드");
    }
    assert(english.column_down@.len() > 0 && korean.column_down@.len() > 0
        && english.column_down@ != korean.column_down@) by {
        reveal_strlit("Down");
        reveal_strlit("다운로드");
        assert("Down"@[0] == 'D' && "다운로드"@[0] == '다');
    }
    assert(english.column_reason@.len() > 0 && korean.column_reason@.len() > 0
        && english.column_reason@ != korean.column_reason@) by {
        reveal_strlit("Reason");
        reveal_strlit("사유");
    }
    assert(english.options_title@.len() > 0 && korean.options_title@.len() > 0
        && english.options_title@ != korean.options_title@) by {
        reveal_strlit("Options");
        reveal_strlit("옵션");
    }
    assert(english.tray_section_title@.len() > 0 && korean.tray_section_title@.len() > 0
        && english.tray_section_title@ != korean.tray_section_title@) by {
        reveal_strlit("Tray");
        reveal_strlit("트레이");
    }
    assert(english.close_to_tray@.len() > 0 && korean.close_to_tray@.len() > 0
        && english.close_to_tray@ != korean.close_to_tray@) by {
        reveal_strlit("Close to tray");
        reveal_strlit("창을 닫으면 트레이로 보내기");
    }
    assert(english.close_to_tray_help@.len() > 0 && korean.close_to_tray_help@.len() > 0
        && english.close_to_tray_help@ != korean.close_to_tray_help@) by {
        reveal_strlit("Use Quit from the tray menu to fully exit. Proxy/VPN keeps running while hidden.");
        reveal_strlit("종료는 트레이 메뉴의 종료를 사용하세요. 프록시/VPN은 백그라운드에서 계속 동작합니다.");
    }
    assert(english.tray_status@.len() > 0 && korean.tray_status@.len() > 0
        && english.tray_status@ != korean.tray_status@) by {
        reveal_strlit("Tray status");
        reveal_strlit("트레이 상태");
    }
    assert(english.tray_available@.len() > 0 && korean.tray_available@.len() > 0
        && english.tray_available@ != korean.tray_available@) by {
        reveal_strlit("available");
        reveal_strlit("사용 가능");
    }
    assert(english.tray_unavailable@.len() > 0 && korean.tray_unavailable@.len() > 0
        && english.tray_unavailable@ != korean.tray_unavailable@) by {
        reveal_strlit("unavailable");
        reveal_strlit("사용 불가");
    }
    assert(english.quick_options@.len() > 0 && korean.quick_options@.len() > 0
        && english.quick_options@ != korean.quick_options@) by {
        reveal_strlit("Quick options");
        reveal_strlit("빠른 옵션");
    }
    assert(english.update_title@.len() > 0 && korean.update_title@.len() > 0
        && english.update_title@ != korean.update_title@) by {
        reveal_strlit("Auto update");
        reveal_strlit("자동 업데이트");
    }
    assert(english.update_repo@.len() > 0 && korean.update_repo@.len() > 0
        && english.update_repo@ != korean.update_repo@) by {
        reveal_strlit("GitHub repo");
        reveal_strlit("GitHub 저장소");
    }
    assert(english.update_check@.len() > 0 && korean.update_check@.len() > 0
        && english.update_check@ != korean.update_check@) by {
        reveal_strlit("Check updates");
        reveal_strlit("업데이트 확인");
    }
    assert(english.update_install@.len() > 0 && korean.update_install@.len() > 0
        && english.update_install@ != korean.update_install@) by {
        reveal_strlit("Install latest");
        reveal_strlit("최신 버전 설치");
    }
    assert(english.language@.len() > 0 && korean.language@.len() > 0
        && english.language@ != korean.language@) by {
        reveal_strlit("Language");
        reveal_strlit("언어");
    }
    assert(english.theme@.len() > 0 && korean.theme@.len() > 0
        && english.theme@ != korean.theme@) by {
        reveal_strlit("Theme");
        reveal_strlit("테마");
    }
    assert(english.light@.len() > 0 && korean.light@.len() > 0
        && english.light@ != korean.light@) by {
        reveal_strlit("Light");
        reveal_strlit("라이트");
    }
    assert(english.dark@.len() > 0 && korean.dark@.len() > 0
        && english.dark@ != korean.dark@) by {
        reveal_strlit("Dark");
        reveal_strlit("다크");
    }
    assert(english.quit_app@.len() > 0 && korean.quit_app@.len() > 0
        && english.quit_app@ != korean.quit_app@) by {
        reveal_strlit("Quit app");
        reveal_strlit("프로그램 종료");
    }
    assert(english.logs_title@.len() > 0 && korean.logs_title@.len() > 0
        && english.logs_title@ != korean.logs_title@) by {
        reveal_strlit("Logs");
        reveal_strlit("로그");
    }
    assert(english.log_file@.len() > 0 && korean.log_file@.len() > 0
        && english.log_file@ != korean.log_file@) by {
        reveal_strlit("Log file");
        reveal_strlit("로그 파일");
    }
    assert(english.no_logs@.len() > 0 && korean.no_logs@.len() > 0
        && english.no_logs@ != korean.no_logs@) by {
        reveal_strlit("No events yet.");
        reveal_strlit("아직 이벤트가 없습니다.");
    }
    assert(english.clear@.len() > 0 && korean.clear@.len() > 0
        && english.clear@ != korean.clear@) by {
        reveal_strlit("Clear");
        reveal_strlit("지우기");
    }
    assert(english.status_idle@.len() > 0 && korean.status_idle@.len() > 0
        && english.status_idle@ != korean.status_idle@) by {
        reveal_strlit("Idle");
        reveal_strlit("대기");
    }
    assert(english.status_proxy_running@.len() > 0 && korean.status_proxy_running@.len() > 0
        && english.status_proxy_running@ != korean.status_proxy_running@) by {
        reveal_strlit("Proxy running");
        reveal_strlit("프록시 실행 중");
    }
    assert(english.status_vpn_running@.len() > 0 && korean.status_vpn_running@.len() > 0
        && english.status_vpn_running@ != korean.status_vpn_running@) by {
        reveal_strlit("VPN running");
        reveal_strlit("VPN 실행 중");
    }
    assert(english.status_adapter_failed@.len() > 0 && korean.status_adapter_failed@.len() > 0
        && english.status_adapter_failed@ != korean.status_adapter_failed@) by {
        reveal_strlit("Adapter refresh failed");
        reveal_strlit("어댑터 새로고침 실패");
    }
}

} // verus!
