//! The words of the desktop application, in the languages it speaks.

use vstd::prelude::*;

use crate::tray::TrayLanguage;

verus! {

#[derive(Debug, Clone, Copy, PartialEq, Eq, Structural)]
pub enum Language {
    English,
    Korean,
}

/// The language of the tray for a language of the application.
pub fn tray_language_for(language: Language) -> (out: TrayLanguage)
    ensures
        out == (match language {
            Language::English => TrayLanguage::English,
            Language::Korean => TrayLanguage::Korean,
        }),
{
    match language {
        Language::English => TrayLanguage::English,
        Language::Korean => TrayLanguage::Korean,
    }
}

/// Every text that is shown, in one language.
#[derive(Debug, Clone, Copy)]
pub struct Texts {
    pub tagline: &'static str,
    pub step_label_intro: &'static str,
    pub step_label_adapters: &'static str,
    pub step_label_mode: &'static str,
    pub step_label_settings: &'static str,
    pub step_label_run: &'static str,
    pub step1_title: &'static str,
    pub step1_subtitle: &'static str,
    pub intro_bullet1: &'static str,
    pub intro_bullet2: &'static str,
    pub intro_bullet3: &'static str,
    pub step2_title: &'static str,
    pub step2_subtitle: &'static str,
    pub adapters_help: &'static str,
    pub refresh: &'static str,
    pub refreshed_ago: &'static str,
    pub no_adapters: &'static str,
    pub hidden_adapters_n: &'static str,
    pub show_all: &'static str,
    pub hide_extra: &'static str,
    pub adapters_none_selected: &'static str,
    pub adapters_n_selected: &'static str,
    pub weight: &'static str,
    pub step3_title: &'static str,
    pub step3_subtitle: &'static str,
    pub mode_proxy_title: &'static str,
    pub mode_proxy_body: &'static str,
    pub mode_proxy_for: &'static str,
    pub mode_vpn_title: &'static str,
    pub mode_vpn_body: &'static str,
    pub mode_vpn_for: &'static str,
    pub step4_proxy_title: &'static str,
    pub step4_proxy_subtitle: &'static str,
    pub step4_vpn_title: &'static str,
    pub step4_vpn_subtitle: &'static str,
    pub show_advanced: &'static str,
    pub hide_advanced: &'static str,
    pub listen_address: &'static str,
    pub listen_help: &'static str,
    pub internal_listen_address: &'static str,
    pub internal_port: &'static str,
    pub internal_listen_help: &'static str,
    pub port: &'static str,
    pub udp_associate: &'static str,
    pub udp_associate_help: &'static str,
    pub configure_routes: &'static str,
    pub configure_routes_help: &'static str,
    pub enable_ipv6: &'static str,
    pub dns: &'static str,
    pub dns_help: &'static str,
    pub tun2proxy_path: &'static str,
    pub tun2proxy_hint: &'static str,
    pub bypass_cidrs: &'static str,
    pub bypass_help: &'static str,
    pub advanced_title: &'static str,
    pub step5_title: &'static str,
    pub step5_subtitle: &'static str,
    pub status_ready: &'static str,
    pub status_running: &'static str,
    pub run_help_no_adapter: &'static str,
    pub run_help_ready: &'static str,
    pub start_proxy: &'static str,
    pub start_vpn: &'static str,
    pub stop: &'static str,
    pub vpn_admin_warning: &'static str,
    pub connections_title: &'static str,
    pub connections_subtitle: &'static str,
    pub connections_empty: &'static str,
    pub connections_active: &'static str,
    pub connections_recent: &'static str,
    pub connections_all: &'static str,
    pub connection_target: &'static str,
    pub connection_adapter: &'static str,
    pub connection_client: &'static str,
    pub connection_age: &'static str,
    pub connection_bytes: &'static str,
    pub open_connection_monitor: &'static str,
    pub connection_monitor_title: &'static str,
    pub clear_recent_connections: &'static str,
    pub clear_all_connections: &'static str,
    pub column_id: &'static str,
    pub column_state: &'static str,
    pub column_proto: &'static str,
    pub column_age: &'static str,
    pub column_client: &'static str,
    pub column_target: &'static str,
    pub column_adapter: &'static str,
    pub column_egress_ip: &'static str,
    pub column_up: &'static str,
    pub column_down: &'static str,
    pub column_reason: &'static str,
    pub options_title: &'static str,
    pub tray_section_title: &'static str,
    pub close_to_tray: &'static str,
    pub close_to_tray_help: &'static str,
    pub tray_status: &'static str,
    pub tray_available: &'static str,
    pub tray_unavailable: &'static str,
    pub quick_options: &'static str,
    pub update_title: &'static str,
    pub update_repo: &'static str,
    pub update_check: &'static str,
    pub update_install: &'static str,
    pub language: &'static str,
    pub theme: &'static str,
    pub light: &'static str,
    pub dark: &'static str,
    pub quit_app: &'static str,
    pub logs_title: &'static str,
    pub log_file: &'static str,
    pub no_logs: &'static str,
    pub clear: &'static str,
    pub status_idle: &'static str,
    pub status_proxy_running: &'static str,
    pub status_vpn_running: &'static str,
    pub status_adapter_failed: &'static str,
}

/// The English text or the Korean one.
pub open spec fn in_language(language: Language, english: &str, korean: &str) -> Seq<char> {
    match language {
        Language::English => english@,
        Language::Korean => korean@,
    }
}

impl Texts {
    /// Whether these are the texts of the language.
    pub open spec fn worded(self, language: Language) -> bool {
        &&& self.tagline@ == in_language(
            language,
            "Combine multiple network adapters into one virtual exit.",
            "여러 네트워크 어댑터를 하나의 출구로 묶어주는 도구",
        )
        &&& self.step_label_intro@ == in_language(
            language,
            "Intro",
            "소개",
        )
        &&& self.step_label_adapters@ == in_language(
            language,
            "Adapters",
            "어댑터",
        )
        &&& self.step_label_mode@ == in_language(
            language,
            "Mode",
            "모드",
        )
        &&& self.step_label_settings@ == in_language(
            language,
            "Settings",
            "설정",
        )
        &&& self.step_label_run@ == in_language(
            language,
            "Run",
            "실행",
        )
        &&& self.step1_title@ == in_language(
            language,
            "What is net-combiner?",
            "net-combiner 가 뭔가요?",
        )
        &&& self.step1_subtitle@ == in_language(
            language,
            "Use several internet connections as if they were one.",
            "여러 인터넷 회선을 하나의 가상 회선처럼 사용해요.",
        )
        &&& self.intro_bullet1@ == in_language(
            language,
            "Use Wi-Fi, Ethernet, phone tethering and more at the same time.",
            "Wi-Fi, 유선랜, 휴대폰 테더링 같은 여러 네트워크를 동시에 활용합니다.",
        )
        &&& self.intro_bullet2@ == in_language(
            language,
            "Each connection (flow) is spread across adapters to increase throughput.",
            "각 연결(트래픽 흐름)을 어댑터에 분산해 전체 처리량을 늘립니다.",
        )
        &&& self.intro_bullet3@ == in_language(
            language,
            "Proxy mode works per-app; VPN mode routes the whole system through it.",
            "프록시 모드는 앱 설정만으로, VPN 모드는 시스템 전체 트래픽을 라우팅합니다.",
        )
        &&& self.step2_title@ == in_language(
            language,
            "Pick your adapters",
            "어댑터 선택",
        )
        &&& self.step2_subtitle@ == in_language(
            language,
            "Select the network adapters you want to use. Pick as many as you like.",
            "사용할 네트워크 어댑터를 골라주세요. 여러 개 선택할 수 있습니다.",
        )
        &&& self.adapters_help@ == in_language(
            language,
            "An adapter is a network interface on your computer (Wi-Fi, Ethernet, USB tether). Only the ones you pick will be used to send traffic.",
            "어댑터는 컴퓨터의 네트워크 연결구입니다. Wi-Fi, 유선, USB 테더링 등이 각각 어댑터입니다. 골라둔 어댑터들로만 트래픽이 나갑니다.",
        )
        &&& self.refresh@ == in_language(
            language,
            "Refresh",
            "새로고침",
        )
        &&& self.refreshed_ago@ == in_language(
            language,
            "updated",
            "갱신",
        )
        &&& self.no_adapters@ == in_language(
            language,
            "No adapters to show. Try 'Show all'.",
            "표시할 어댑터가 없어요. '모두 보기'를 눌러보세요.",
        )
        &&& self.hidden_adapters_n@ == in_language(
            language,
            "hidden",
            "숨김",
        )
        &&& self.show_all@ == in_language(
            language,
            "Show all",
            "모두 보기",
        )
        &&& self.hide_extra@ == in_language(
            language,
            "Show defaults",
            "기본만 보기",
        )
        &&& self.adapters_none_selected@ == in_language(
            language,
            "Select at least one adapter",
            "어댑터를 1개 이상 선택하세요",
        )
        &&& self.adapters_n_selected@ == in_language(
            language,
            "selected",
            "개 선택됨",
        )
        &&& self.weight@ == in_language(
            language,
            "Weight",
            "가중치",
        )
        &&& self.step3_title@ == in_language(
            language,
            "Choose a mode",
            "모드 선택",
        )
        &&& self.step3_subtitle@ == in_language(
            language,
            "How should the traffic be sent?",
            "어떻게 트래픽을 보낼지 결정합니다.",
        )
        &&& self.mode_proxy_title@ == in_language(
            language,
            "Proxy mode",
            "프록시 모드",
        )
        &&& self.mode_proxy_body@ == in_language(
            language,
            "Runs a SOCKS5 proxy at 127.0.0.1:1080. Point your browser or app at it.",
            "127.0.0.1:1080 에 SOCKS5 프록시를 띄웁니다. 브라우저나 앱에 프록시 주소를 입력해서 사용합니다.",
        )
        &&& self.mode_proxy_for@ == in_language(
            language,
            "Best for: per-app routing, no admin needed",
            "권장: 특정 앱만 분산하고 싶을 때, 권한이 없을 때",
        )
        &&& self.mode_vpn_title@ == in_language(
            language,
            "VPN mode",
            "VPN 모드",
        )
        &&& self.mode_vpn_body@ == in_language(
            language,
            "Creates a TUN interface and routes all system traffic through it, so apps don't need to know.",
            "TUN 인터페이스를 만들고 시스템의 모든 트래픽을 가로채 분산합니다. 별도 설정이 필요 없습니다.",
        )
        &&& self.mode_vpn_for@ == in_language(
            language,
            "Best for: routing the whole machine (admin/root required)",
            "권장: 컴퓨터 전체 트래픽을 묶고 싶을 때 (관리자 권한 필요)",
        )
        &&& self.step4_proxy_title@ == in_language(
            language,
            "Proxy settings",
            "프록시 설정",
        )
        &&& self.step4_proxy_subtitle@ == in_language(
            language,
            "Address your browser or app will connect to.",
            "브라우저나 앱에 입력할 SOCKS5 프록시 주소를 정합니다.",
        )
        &&& self.step4_vpn_title@ == in_language(
            language,
            "VPN settings",
            "VPN 설정",
        )
        &&& self.step4_vpn_subtitle@ == in_language(
            language,
            "How the TUN interface routes and resolves traffic.",
            "TUN 인터페이스 동작 방식과 우회 정책을 정합니다.",
        )
        &&& self.show_advanced@ == in_language(
            language,
            "Show advanced",
            "고급 설정 보기",
        )
        &&& self.hide_advanced@ == in_language(
            language,
            "Hide advanced",
            "고급 설정 숨기기",
        )
        &&& self.listen_address@ == in_language(
            language,
            "Listen address",
            "수신 주소",
        )
        &&& self.listen_help@ == in_language(
            language,
            "127.0.0.1 means only this machine can use it. Change to 0.0.0.0 to share with other devices.",
            "127.0.0.1 은 내 컴퓨터에서만 접근할 수 있다는 뜻입니다. 다른 기기에서 쓰려면 0.0.0.0 으로 바꾸세요.",
        )
        &&& self.internal_listen_address@ == in_language(
            language,
            "Internal listen address",
            "내부 수신 주소",
        )
        &&& self.internal_port@ == in_language(
            language,
            "Internal port",
            "내부 포트",
        )
        &&& self.internal_listen_help@ == in_language(
            language,
            "Where tun2proxy connects internally. Usually leave as default.",
            "tun2proxy 가 내부적으로 연결할 SOCKS5 주소입니다. 보통 그대로 두세요.",
        )
        &&& self.port@ == in_language(
            language,
            "Port",
            "포트",
        )
        &&& self.udp_associate@ == in_language(
            language,
            "Enable SOCKS5 UDP",
            "SOCKS5 UDP 지원",
        )
        &&& self.udp_associate_help@ == in_language(
            language,
            "Needed for DNS and some games. Recommended to keep on.",
            "DNS 조회나 일부 게임에 필요합니다. 켜두는 걸 권장합니다.",
        )
        &&& self.configure_routes@ == in_language(
            language,
            "Auto-configure system routes",
            "시스템 라우트 자동 설정",
        )
        &&& self.configure_routes_help@ == in_language(
            language,
            "Off means you must edit the routing table yourself. Usually leave on.",
            "끄면 직접 라우팅 테이블을 설정해야 합니다. 보통은 켜둡니다.",
        )
        &&& self.enable_ipv6@ == in_language(
            language,
            "Enable IPv6 routing",
            "IPv6 라우팅 사용",
        )
        &&& self.dns@ == in_language(
            language,
            "DNS handling",
            "DNS 처리 방식",
        )
        &&& self.dns_help@ == in_language(
            language,
            "virtual: map to fake IPs / over-tcp: TCP DNS / direct: leave system DNS",
            "virtual: 가상 IP 로 매핑 / over-tcp: TCP DNS 사용 / direct: 시스템 그대로",
        )
        &&& self.tun2proxy_path@ == in_language(
            language,
            "tun2proxy binary path",
            "tun2proxy 실행 파일 경로",
        )
        &&& self.tun2proxy_hint@ == in_language(
            language,
            "Empty = auto-detect next to the app",
            "비워두면 앱 옆 자동 탐색",
        )
        &&& self.bypass_cidrs@ == in_language(
            language,
            "Bypass CIDRs (one per line)",
            "우회 CIDR (한 줄에 하나)",
        )
        &&& self.bypass_help@ == in_language(
            language,
            "Traffic to these ranges skips the VPN.",
            "여기 입력한 대역은 VPN 을 거치지 않고 원래 경로로 나갑니다.",
        )
        &&& self.advanced_title@ == in_language(
            language,
            "Advanced",
            "고급 옵션",
        )
        &&& self.step5_title@ == in_language(
            language,
            "Run",
            "실행",
        )
        &&& self.step5_subtitle@ == in_language(
            language,
            "All set. Press start when you're ready.",
            "준비됐어요. 시작 버튼을 누르세요.",
        )
        &&& self.status_ready@ == in_language(
            language,
            "Ready",
            "대기 중",
        )
        &&& self.status_running@ == in_language(
            language,
            "Running",
            "실행 중",
        )
        &&& self.run_help_no_adapter@ == in_language(
            language,
            "Select at least one adapter first.",
            "어댑터를 먼저 선택하세요.",
        )
        &&& self.run_help_ready@ == in_language(
            language,
            "Ready to start",
            "시작할 준비가 되었습니다",
        )
        &&& self.start_proxy@ == in_language(
            language,
            "Start proxy",
            "프록시 시작",
        )
        &&& self.start_vpn@ == in_language(
            language,
            "Start VPN",
            "VPN 시작",
        )
        &&& self.stop@ == in_language(
            language,
            "Stop",
            "중지",
        )
        &&& self.vpn_admin_warning@ == in_language(
            language,
            "VPN mode needs administrator/root rights. tun2proxy should be next to the app.",
            "VPN 모드는 관리자(또는 root) 권한이 필요합니다. tun2proxy 가 같은 폴더에 있어야 합니다.",
        )
        &&& self.connections_title@ == in_language(
            language,
            "Connection activity",
            "연결 상태",
        )
        &&& self.connections_subtitle@ == in_language(
            language,
            "Live view of which target IP leaves through which selected adapter.",
            "어떤 대상 IP가 어떤 어댑터를 통해 나가는지 실시간으로 보여줍니다.",
        )
        &&& self.connections_empty@ == in_language(
            language,
            "No active or recent connections yet.",
            "아직 연결된 대상이 없습니다.",
        )
        &&& self.connections_active@ == in_language(
            language,
            "active",
            "활성",
        )
        &&& self.connections_recent@ == in_language(
            language,
            "recent",
            "최근",
        )
        &&& self.connections_all@ == in_language(
            language,
            "all",
            "전체",
        )
        &&& self.connection_target@ == in_language(
            language,
            "Target",
            "대상",
        )
        &&& self.connection_adapter@ == in_language(
            language,
            "Adapter",
            "어댑터",
        )
        &&& self.connection_client@ == in_language(
            language,
            "Client",
            "클라이언트",
        )
        &&& self.connection_age@ == in_language(
            language,
            "Age",
            "시간",
        )
        &&& self.connection_bytes@ == in_language(
            language,
            "Bytes",
            "전송량",
        )
        &&& self.open_connection_monitor@ == in_language(
            language,
            "Open monitor",
            "연결 모니터 열기",
        )
        &&& self.connection_monitor_title@ == in_language(
            language,
            "Connection monitor",
            "연결 모니터",
        )
        &&& self.clear_recent_connections@ == in_language(
            language,
            "Clear recent",
            "최근 항목 지우기",
        )
        &&& self.clear_all_connections@ == in_language(
            language,
            "Clear all",
            "모두 지우기",
        )
        &&& self.column_id@ == in_language(
            language,
            "ID",
            "ID",
        )
        &&& self.column_state@ == in_language(
            language,
            "State",
            "상태",
        )
        &&& self.column_proto@ == in_language(
            language,
            "Proto",
            "프로토콜",
        )
        &&& self.column_age@ == in_language(
            language,
            "Age",
            "시간",
        )
        &&& self.column_client@ == in_language(
            language,
            "Client",
            "클라이언트",
        )
        &&& self.column_target@ == in_language(
            language,
            "Target",
            "대상",
        )
        &&& self.column_adapter@ == in_language(
            language,
            "Adapter",
            "어댑터",
        )
        &&& self.column_egress_ip@ == in_language(
            language,
            "Egress IP",
            "출구 IP",
        )
        &&& self.column_up@ == in_language(
            language,
            "Up",
            "업로드",
        )
        &&& self.column_down@ == in_language(
            language,
            "Down",
            "다운로드",
        )
        &&& self.column_reason@ == in_language(
            language,
            "Reason",
            "사유",
        )
        &&& self.options_title@ == in_language(
            language,
            "Options",
            "옵션",
        )
        &&& self.tray_section_title@ == in_language(
            language,
            "Tray",
            "트레이",
        )
        &&& self.close_to_tray@ == in_language(
            language,
            "Close to tray",
            "창을 닫으면 트레이로 보내기",
        )
        &&& self.close_to_tray_help@ == in_language(
            language,
            "Use Quit from the tray menu to fully exit. Proxy/VPN keeps running while hidden.",
            "종료는 트레이 메뉴의 종료를 사용하세요. 프록시/VPN은 백그라운드에서 계속 동작합니다.",
        )
        &&& self.tray_status@ == in_language(
            language,
            "Tray status",
            "트레이 상태",
        )
        &&& self.tray_available@ == in_language(
            language,
            "available",
            "사용 가능",
        )
        &&& self.tray_unavailable@ == in_language(
            language,
            "unavailable",
            "사용 불가",
        )
        &&& self.quick_options@ == in_language(
            language,
            "Quick options",
            "빠른 옵션",
        )
        &&& self.update_title@ == in_language(
            language,
            "Auto update",
            "자동 업데이트",
        )
        &&& self.update_repo@ == in_language(
            language,
            "GitHub repo",
            "GitHub 저장소",
        )
        &&& self.update_check@ == in_language(
            language,
            "Check updates",
            "업데이트 확인",
        )
        &&& self.update_install@ == in_language(
            language,
            "Install latest",
            "최신 버전 설치",
        )
        &&& self.language@ == in_language(
            language,
            "Language",
            "언어",
        )
        &&& self.theme@ == in_language(
            language,
            "Theme",
            "테마",
        )
        &&& self.light@ == in_language(
            language,
            "Light",
            "라이트",
        )
        &&& self.dark@ == in_language(
            language,
            "Dark",
            "다크",
        )
        &&& self.quit_app@ == in_language(
            language,
            "Quit app",
            "프로그램 종료",
        )
        &&& self.logs_title@ == in_language(
            language,
            "Logs",
            "로그",
        )
        &&& self.log_file@ == in_language(
            language,
            "Log file",
            "로그 파일",
        )
        &&& self.no_logs@ == in_language(
            language,
            "No events yet.",
            "아직 이벤트가 없습니다.",
        )
        &&& self.clear@ == in_language(
            language,
            "Clear",
            "지우기",
        )
        &&& self.status_idle@ == in_language(
            language,
            "Idle",
            "대기",
        )
        &&& self.status_proxy_running@ == in_language(
            language,
            "Proxy running",
            "프록시 실행 중",
        )
        &&& self.status_vpn_running@ == in_language(
            language,
            "VPN running",
            "VPN 실행 중",
        )
        &&& self.status_adapter_failed@ == in_language(
            language,
            "Adapter refresh failed",
            "어댑터 새로고침 실패",
        )
    }

    /// Whether there is a text in every place.
    pub open spec fn filled(self) -> bool {
        &&& self.tagline@.len() > 0
        &&& self.step_label_intro@.len() > 0
        &&& self.step_label_adapters@.len() > 0
        &&& self.step_label_mode@.len() > 0
        &&& self.step_label_settings@.len() > 0
        &&& self.step_label_run@.len() > 0
        &&& self.step1_title@.len() > 0
        &&& self.step1_subtitle@.len() > 0
        &&& self.intro_bullet1@.len() > 0
        &&& self.intro_bullet2@.len() > 0
        &&& self.intro_bullet3@.len() > 0
        &&& self.step2_title@.len() > 0
        &&& self.step2_subtitle@.len() > 0
        &&& self.adapters_help@.len() > 0
        &&& self.refresh@.len() > 0
        &&& self.refreshed_ago@.len() > 0
        &&& self.no_adapters@.len() > 0
        &&& self.hidden_adapters_n@.len() > 0
        &&& self.show_all@.len() > 0
        &&& self.hide_extra@.len() > 0
        &&& self.adapters_none_selected@.len() > 0
        &&& self.adapters_n_selected@.len() > 0
        &&& self.weight@.len() > 0
        &&& self.step3_title@.len() > 0
        &&& self.step3_subtitle@.len() > 0
        &&& self.mode_proxy_title@.len() > 0
        &&& self.mode_proxy_body@.len() > 0
        &&& self.mode_proxy_for@.len() > 0
        &&& self.mode_vpn_title@.len() > 0
        &&& self.mode_vpn_body@.len() > 0
        &&& self.mode_vpn_for@.len() > 0
        &&& self.step4_proxy_title@.len() > 0
        &&& self.step4_proxy_subtitle@.len() > 0
        &&& self.step4_vpn_title@.len() > 0
        &&& self.step4_vpn_subtitle@.len() > 0
        &&& self.show_advanced@.len() > 0
        &&& self.hide_advanced@.len() > 0
        &&& self.listen_address@.len() > 0
        &&& self.listen_help@.len() > 0
        &&& self.internal_listen_address@.len() > 0
        &&& self.internal_port@.len() > 0
        &&& self.internal_listen_help@.len() > 0
        &&& self.port@.len() > 0
        &&& self.udp_associate@.len() > 0
        &&& self.udp_associate_help@.len() > 0
        &&& self.configure_routes@.len() > 0
        &&& self.configure_routes_help@.len() > 0
        &&& self.enable_ipv6@.len() > 0
        &&& self.dns@.len() > 0
        &&& self.dns_help@.len() > 0
        &&& self.tun2proxy_path@.len() > 0
        &&& self.tun2proxy_hint@.len() > 0
        &&& self.bypass_cidrs@.len() > 0
        &&& self.bypass_help@.len() > 0
        &&& self.advanced_title@.len() > 0
        &&& self.step5_title@.len() > 0
        &&& self.step5_subtitle@.len() > 0
        &&& self.status_ready@.len() > 0
        &&& self.status_running@.len() > 0
        &&& self.run_help_no_adapter@.len() > 0
        &&& self.run_help_ready@.len() > 0
        &&& self.start_proxy@.len() > 0
        &&& self.start_vpn@.len() > 0
        &&& self.stop@.len() > 0
        &&& self.vpn_admin_warning@.len() > 0
        &&& self.connections_title@.len() > 0
        &&& self.connections_subtitle@.len() > 0
        &&& self.connections_empty@.len() > 0
        &&& self.connections_active@.len() > 0
        &&& self.connections_recent@.len() > 0
        &&& self.connections_all@.len() > 0
        &&& self.connection_target@.len() > 0
        &&& self.connection_adapter@.len() > 0
        &&& self.connection_client@.len() > 0
        &&& self.connection_age@.len() > 0
        &&& self.connection_bytes@.len() > 0
        &&& self.open_connection_monitor@.len() > 0
        &&& self.connection_monitor_title@.len() > 0
        &&& self.clear_recent_connections@.len() > 0
        &&& self.clear_all_connections@.len() > 0
        &&& self.column_id@.len() > 0
        &&& self.column_state@.len() > 0
        &&& self.column_proto@.len() > 0
        &&& self.column_age@.len() > 0
        &&& self.column_client@.len() > 0
        &&& self.column_target@.len() > 0
        &&& self.column_adapter@.len() > 0
        &&& self.column_egress_ip@.len() > 0
        &&& self.column_up@.len() > 0
        &&& self.column_down@.len() > 0
        &&& self.column_reason@.len() > 0
        &&& self.options_title@.len() > 0
        &&& self.tray_section_title@.len() > 0
        &&& self.close_to_tray@.len() > 0
        &&& self.close_to_tray_help@.len() > 0
        &&& self.tray_status@.len() > 0
        &&& self.tray_available@.len() > 0
        &&& self.tray_unavailable@.len() > 0
        &&& self.quick_options@.len() > 0
        &&& self.update_title@.len() > 0
        &&& self.update_repo@.len() > 0
        &&& self.update_check@.len() > 0
        &&& self.update_install@.len() > 0
        &&& self.language@.len() > 0
        &&& self.theme@.len() > 0
        &&& self.light@.len() > 0
        &&& self.dark@.len() > 0
        &&& self.quit_app@.len() > 0
        &&& self.logs_title@.len() > 0
        &&& self.log_file@.len() > 0
        &&& self.no_logs@.len() > 0
        &&& self.clear@.len() > 0
        &&& self.status_idle@.len() > 0
        &&& self.status_proxy_running@.len() > 0
        &&& self.status_vpn_running@.len() > 0
        &&& self.status_adapter_failed@.len() > 0
    }

    /// Whether the texts differ from `other` in every place but the column of identities, whose
    /// title is the same in every language.
    pub open spec fn translated(self, other: Texts) -> bool {
        &&& self.tagline@ != other.tagline@
        &&& self.step_label_intro@ != other.step_label_intro@
        &&& self.step_label_adapters@ != other.step_label_adapters@
        &&& self.step_label_mode@ != other.step_label_mode@
        &&& self.step_label_settings@ != other.step_label_settings@
        &&& self.step_label_run@ != other.step_label_run@
        &&& self.step1_title@ != other.step1_title@
        &&& self.step1_subtitle@ != other.step1_subtitle@
        &&& self.intro_bullet1@ != other.intro_bullet1@
        &&& self.intro_bullet2@ != other.intro_bullet2@
        &&& self.intro_bullet3@ != other.intro_bullet3@
        &&& self.step2_title@ != other.step2_title@
        &&& self.step2_subtitle@ != other.step2_subtitle@
        &&& self.adapters_help@ != other.adapters_help@
        &&& self.refresh@ != other.refresh@
        &&& self.refreshed_ago@ != other.refreshed_ago@
        &&& self.no_adapters@ != other.no_adapters@
        &&& self.hidden_adapters_n@ != other.hidden_adapters_n@
        &&& self.show_all@ != other.show_all@
        &&& self.hide_extra@ != other.hide_extra@
        &&& self.adapters_none_selected@ != other.adapters_none_selected@
        &&& self.adapters_n_selected@ != other.adapters_n_selected@
        &&& self.weight@ != other.weight@
        &&& self.step3_title@ != other.step3_title@
        &&& self.step3_subtitle@ != other.step3_subtitle@
        &&& self.mode_proxy_title@ != other.mode_proxy_title@
        &&& self.mode_proxy_body@ != other.mode_proxy_body@
        &&& self.mode_proxy_for@ != other.mode_proxy_for@
        &&& self.mode_vpn_title@ != other.mode_vpn_title@
        &&& self.mode_vpn_body@ != other.mode_vpn_body@
        &&& self.mode_vpn_for@ != other.mode_vpn_for@
        &&& self.step4_proxy_title@ != other.step4_proxy_title@
        &&& self.step4_proxy_subtitle@ != other.step4_proxy_subtitle@
        &&& self.step4_vpn_title@ != other.step4_vpn_title@
        &&& self.step4_vpn_subtitle@ != other.step4_vpn_subtitle@
        &&& self.show_advanced@ != other.show_advanced@
        &&& self.hide_advanced@ != other.hide_advanced@
        &&& self.listen_address@ != other.listen_address@
        &&& self.listen_help@ != other.listen_help@
        &&& self.internal_listen_address@ != other.internal_listen_address@
        &&& self.internal_port@ != other.internal_port@
        &&& self.internal_listen_help@ != other.internal_listen_help@
        &&& self.port@ != other.port@
        &&& self.udp_associate@ != other.udp_associate@
        &&& self.udp_associate_help@ != other.udp_associate_help@
        &&& self.configure_routes@ != other.configure_routes@
        &&& self.configure_routes_help@ != other.configure_routes_help@
        &&& self.enable_ipv6@ != other.enable_ipv6@
        &&& self.dns@ != other.dns@
        &&& self.dns_help@ != other.dns_help@
        &&& self.tun2proxy_path@ != other.tun2proxy_path@
        &&& self.tun2proxy_hint@ != other.tun2proxy_hint@
        &&& self.bypass_cidrs@ != other.bypass_cidrs@
        &&& self.bypass_help@ != other.bypass_help@
        &&& self.advanced_title@ != other.advanced_title@
        &&& self.step5_title@ != other.step5_title@
        &&& self.step5_subtitle@ != other.step5_subtitle@
        &&& self.status_ready@ != other.status_ready@
        &&& self.status_running@ != other.status_running@
        &&& self.run_help_no_adapter@ != other.run_help_no_adapter@
        &&& self.run_help_ready@ != other.run_help_ready@
        &&& self.start_proxy@ != other.start_proxy@
        &&& self.start_vpn@ != other.start_vpn@
        &&& self.stop@ != other.stop@
        &&& self.vpn_admin_warning@ != other.vpn_admin_warning@
        &&& self.connections_title@ != other.connections_title@
        &&& self.connections_subtitle@ != other.connections_subtitle@
        &&& self.connections_empty@ != other.connections_empty@
        &&& self.connections_active@ != other.connections_active@
        &&& self.connections_recent@ != other.connections_recent@
        &&& self.connections_all@ != other.connections_all@
        &&& self.connection_target@ != other.connection_target@
        &&& self.connection_adapter@ != other.connection_adapter@
        &&& self.connection_client@ != other.connection_client@
        &&& self.connection_age@ != other.connection_age@
        &&& self.connection_bytes@ != other.connection_bytes@
        &&& self.open_connection_monitor@ != other.open_connection_monitor@
        &&& self.connection_monitor_title@ != other.connection_monitor_title@
        &&& self.clear_recent_connections@ != other.clear_recent_connections@
        &&& self.clear_all_connections@ != other.clear_all_connections@
        &&& self.column_id@ == other.column_id@
        &&& self.column_state@ != other.column_state@
        &&& self.column_proto@ != other.column_proto@
        &&& self.column_age@ != other.column_age@
        &&& self.column_client@ != other.column_client@
        &&& self.column_target@ != other.column_target@
        &&& self.column_adapter@ != other.column_adapter@
        &&& self.column_egress_ip@ != other.column_egress_ip@
        &&& self.column_up@ != other.column_up@
        &&& self.column_down@ != other.column_down@
        &&& self.column_reason@ != other.column_reason@
        &&& self.options_title@ != other.options_title@
        &&& self.tray_section_title@ != other.tray_section_title@
        &&& self.close_to_tray@ != other.close_to_tray@
        &&& self.close_to_tray_help@ != other.close_to_tray_help@
        &&& self.tray_status@ != other.tray_status@
        &&& self.tray_available@ != other.tray_available@
        &&& self.tray_unavailable@ != other.tray_unavailable@
        &&& self.quick_options@ != other.quick_options@
        &&& self.update_title@ != other.update_title@
        &&& self.update_repo@ != other.update_repo@
        &&& self.update_check@ != other.update_check@
        &&& self.update_install@ != other.update_install@
        &&& self.language@ != other.language@
        &&& self.theme@ != other.theme@
        &&& self.light@ != other.light@
        &&& self.dark@ != other.dark@
        &&& self.quit_app@ != other.quit_app@
        &&& self.logs_title@ != other.logs_title@
        &&& self.log_file@ != other.log_file@
        &&& self.no_logs@ != other.no_logs@
        &&& self.clear@ != other.clear@
        &&& self.status_idle@ != other.status_idle@
        &&& self.status_proxy_running@ != other.status_proxy_running@
        &&& self.status_vpn_running@ != other.status_vpn_running@
        &&& self.status_adapter_failed@ != other.status_adapter_failed@
    }

    pub fn new(language: Language) -> (t: Self)
        ensures
            t.worded(language),
    {
        match language {
            Language::English => Texts {
                tagline: "Combine multiple network adapters into one virtual exit.",
                step_label_intro: "Intro",
                step_label_adapters: "Adapters",
                step_label_mode: "Mode",
                step_label_settings: "Settings",
                step_label_run: "Run",
                step1_title: "What is net-combiner?",
                step1_subtitle: "Use several internet connections as if they were one.",
                intro_bullet1: "Use Wi-Fi, Ethernet, phone tethering and more at the same time.",
                intro_bullet2: "Each connection (flow) is spread across adapters to increase throughput.",
                intro_bullet3: "Proxy mode works per-app; VPN mode routes the whole system through it.",
                step2_title: "Pick your adapters",
                step2_subtitle: "Select the network adapters you want to use. Pick as many as you like.",
                adapters_help: "An adapter is a network interface on your computer (Wi-Fi, Ethernet, USB tether). Only the ones you pick will be used to send traffic.",
                refresh: "Refresh",
                refreshed_ago: "updated",
                no_adapters: "No adapters to show. Try 'Show all'.",
                hidden_adapters_n: "hidden",
                show_all: "Show all",
                hide_extra: "Show defaults",
                adapters_none_selected: "Select at least one adapter",
                adapters_n_selected: "selected",
                weight: "Weight",
                step3_title: "Choose a mode",
                step3_subtitle: "How should the traffic be sent?",
                mode_proxy_title: "Proxy mode",
                mode_proxy_body: "Runs a SOCKS5 proxy at 127.0.0.1:1080. Point your browser or app at it.",
                mode_proxy_for: "Best for: per-app routing, no admin needed",
                mode_vpn_title: "VPN mode",
                mode_vpn_body: "Creates a TUN interface and routes all system traffic through it, so apps don't need to know.",
                mode_vpn_for: "Best for: routing the whole machine (admin/root required)",
                step4_proxy_title: "Proxy settings",
                step4_proxy_subtitle: "Address your browser or app will connect to.",
                step4_vpn_title: "VPN settings",
                step4_vpn_subtitle: "How the TUN interface routes and resolves traffic.",
                show_advanced: "Show advanced",
                hide_advanced: "Hide advanced",
                listen_address: "Listen address",
                listen_help: "127.0.0.1 means only this machine can use it. Change to 0.0.0.0 to share with other devices.",
                internal_listen_address: "Internal listen address",
                internal_port: "Internal port",
                internal_listen_help: "Where tun2proxy connects internally. Usually leave as default.",
                port: "Port",
                udp_associate: "Enable SOCKS5 UDP",
                udp_associate_help: "Needed for DNS and some games. Recommended to keep on.",
                configure_routes: "Auto-configure system routes",
                configure_routes_help: "Off means you must edit the routing table yourself. Usually leave on.",
                enable_ipv6: "Enable IPv6 routing",
                dns: "DNS handling",
                dns_help: "virtual: map to fake IPs / over-tcp: TCP DNS / direct: leave system DNS",
                tun2proxy_path: "tun2proxy binary path",
                tun2proxy_hint: "Empty = auto-detect next to the app",
                bypass_cidrs: "Bypass CIDRs (one per line)",
                bypass_help: "Traffic to these ranges skips the VPN.",
                advanced_title: "Advanced",
                step5_title: "Run",
                step5_subtitle: "All set. Press start when you're ready.",
                status_ready: "Ready",
                status_running: "Running",
                run_help_no_adapter: "Select at least one adapter first.",
                run_help_ready: "Ready to start",
                start_proxy: "Start proxy",
                start_vpn: "Start VPN",
                stop: "Stop",
                vpn_admin_warning: "VPN mode needs administrator/root rights. tun2proxy should be next to the app.",
                connections_title: "Connection activity",
                connections_subtitle: "Live view of which target IP leaves through which selected adapter.",
                connections_empty: "No active or recent connections yet.",
                connections_active: "active",
                connections_recent: "recent",
                connections_all: "all",
                connection_target: "Target",
                connection_adapter: "Adapter",
                connection_client: "Client",
                connection_age: "Age",
                connection_bytes: "Bytes",
                open_connection_monitor: "Open monitor",
                connection_monitor_title: "Connection monitor",
                clear_recent_connections: "Clear recent",
                clear_all_connections: "Clear all",
                column_id: "ID",
                column_state: "State",
                column_proto: "Proto",
                column_age: "Age",
                column_client: "Client",
                column_target: "Target",
                column_adapter: "Adapter",
                column_egress_ip: "Egress IP",
                column_up: "Up",
                column_down: "Down",
                column_reason: "Reason",
                options_title: "Options",
                tray_section_title: "Tray",
                close_to_tray: "Close to tray",
                close_to_tray_help: "Use Quit from the tray menu to fully exit. Proxy/VPN keeps running while hidden.",
                tray_status: "Tray status",
                tray_available: "available",
                tray_unavailable: "unavailable",
                quick_options: "Quick options",
                update_title: "Auto update",
                update_repo: "GitHub repo",
                update_check: "Check updates",
                update_install: "Install latest",
                language: "Language",
                theme: "Theme",
                light: "Light",
                dark: "Dark",
                quit_app: "Quit app",
                logs_title: "Logs",
                log_file: "Log file",
                no_logs: "No events yet.",
                clear: "Clear",
                status_idle: "Idle",
                status_proxy_running: "Proxy running",
                status_vpn_running: "VPN running",
                status_adapter_failed: "Adapter refresh failed",
            },
            Language::Korean => Texts {
                tagline: "여러 네트워크 어댑터를 하나의 출구로 묶어주는 도구",
                step_label_intro: "소개",
                step_label_adapters: "어댑터",
                step_label_mode: "모드",
                step_label_settings: "설정",
                step_label_run: "실행",
                step1_title: "net-combiner 가 뭔가요?",
                step1_subtitle: "여러 인터넷 회선을 하나의 가상 회선처럼 사용해요.",
                intro_bullet1: "Wi-Fi, 유선랜, 휴대폰 테더링 같은 여러 네트워크를 동시에 활용합니다.",
                intro_bullet2: "각 연결(트래픽 흐름)을 어댑터에 분산해 전체 처리량을 늘립니다.",
                intro_bullet3: "프록시 모드는 앱 설정만으로, VPN 모드는 시스템 전체 트래픽을 라우팅합니다.",
                step2_title: "어댑터 선택",
                step2_subtitle: "사용할 네트워크 어댑터를 골라주세요. 여러 개 선택할 수 있습니다.",
                adapters_help: "어댑터는 컴퓨터의 네트워크 연결구입니다. Wi-Fi, 유선, USB 테더링 등이 각각 어댑터입니다. 골라둔 어댑터들로만 트래픽이 나갑니다.",
                refresh: "새로고침",
                refreshed_ago: "갱신",
                no_adapters: "표시할 어댑터가 없어요. '모두 보기'를 눌러보세요.",
                hidden_adapters_n: "숨김",
                show_all: "모두 보기",
                hide_extra: "기본만 보기",
                adapters_none_selected: "어댑터를 1개 이상 선택하세요",
                adapters_n_selected: "개 선택됨",
                weight: "가중치",
                step3_title: "모드 선택",
                step3_subtitle: "어떻게 트래픽을 보낼지 결정합니다.",
                mode_proxy_title: "프록시 모드",
                mode_proxy_body: "127.0.0.1:1080 에 SOCKS5 프록시를 띄웁니다. 브라우저나 앱에 프록시 주소를 입력해서 사용합니다.",
                mode_proxy_for: "권장: 특정 앱만 분산하고 싶을 때, 권한이 없을 때",
                mode_vpn_title: "VPN 모드",
                mode_vpn_body: "TUN 인터페이스를 만들고 시스템의 모든 트래픽을 가로채 분산합니다. 별도 설정이 필요 없습니다.",
                mode_vpn_for: "권장: 컴퓨터 전체 트래픽을 묶고 싶을 때 (관리자 권한 필요)",
                step4_proxy_title: "프록시 설정",
                step4_proxy_subtitle: "브라우저나 앱에 입력할 SOCKS5 프록시 주소를 정합니다.",
                step4_vpn_title: "VPN 설정",
                step4_vpn_subtitle: "TUN 인터페이스 동작 방식과 우회 정책을 정합니다.",
                show_advanced: "고급 설정 보기",
                hide_advanced: "고급 설정 숨기기",
                listen_address: "수신 주소",
                listen_help: "127.0.0.1 은 내 컴퓨터에서만 접근할 수 있다는 뜻입니다. 다른 기기에서 쓰려면 0.0.0.0 으로 바꾸세요.",
                internal_listen_address: "내부 수신 주소",
                internal_port: "내부 포트",
                internal_listen_help: "tun2proxy 가 내부적으로 연결할 SOCKS5 주소입니다. 보통 그대로 두세요.",
                port: "포트",
                udp_associate: "SOCKS5 UDP 지원",
                udp_associate_help: "DNS 조회나 일부 게임에 필요합니다. 켜두는 걸 권장합니다.",
                configure_routes: "시스템 라우트 자동 설정",
                configure_routes_help: "끄면 직접 라우팅 테이블을 설정해야 합니다. 보통은 켜둡니다.",
                enable_ipv6: "IPv6 라우팅 사용",
                dns: "DNS 처리 방식",
                dns_help: "virtual: 가상 IP 로 매핑 / over-tcp: TCP DNS 사용 / direct: 시스템 그대로",
                tun2proxy_path: "tun2proxy 실행 파일 경로",
                tun2proxy_hint: "비워두면 앱 옆 자동 탐색",
                bypass_cidrs: "우회 CIDR (한 줄에 하나)",
                bypass_help: "여기 입력한 대역은 VPN 을 거치지 않고 원래 경로로 나갑니다.",
                advanced_title: "고급 옵션",
                step5_title: "실행",
                step5_subtitle: "준비됐어요. 시작 버튼을 누르세요.",
                status_ready: "대기 중",
                status_running: "실행 중",
                run_help_no_adapter: "어댑터를 먼저 선택하세요.",
                run_help_ready: "시작할 준비가 되었습니다",
                start_proxy: "프록시 시작",
                start_vpn: "VPN 시작",
                stop: "중지",
                vpn_admin_warning: "VPN 모드는 관리자(또는 root) 권한이 필요합니다. tun2proxy 가 같은 폴더에 있어야 합니다.",
                connections_title: "연결 상태",
                connections_subtitle: "어떤 대상 IP가 어떤 어댑터를 통해 나가는지 실시간으로 보여줍니다.",
                connections_empty: "아직 연결된 대상이 없습니다.",
                connections_active: "활성",
                connections_recent: "최근",
                connections_all: "전체",
                connection_target: "대상",
                connection_adapter: "어댑터",
                connection_client: "클라이언트",
                connection_age: "시간",
                connection_bytes: "전송량",
                open_connection_monitor: "연결 모니터 열기",
                connection_monitor_title: "연결 모니터",
                clear_recent_connections: "최근 항목 지우기",
                clear_all_connections: "모두 지우기",
                column_id: "ID",
                column_state: "상태",
                column_proto: "프로토콜",
                column_age: "시간",
                column_client: "클라이언트",
                column_target: "대상",
                column_adapter: "어댑터",
                column_egress_ip: "출구 IP",
                column_up: "업로드",
                column_down: "다운로드",
                column_reason: "사유",
                options_title: "옵션",
                tray_section_title: "트레이",
                close_to_tray: "창을 닫으면 트레이로 보내기",
                close_to_tray_help: "종료는 트레이 메뉴의 종료를 사용하세요. 프록시/VPN은 백그라운드에서 계속 동작합니다.",
                tray_status: "트레이 상태",
                tray_available: "사용 가능",
                tray_unavailable: "사용 불가",
                quick_options: "빠른 옵션",
                update_title: "자동 업데이트",
                update_repo: "GitHub 저장소",
                update_check: "업데이트 확인",
                update_install: "최신 버전 설치",
                language: "언어",
                theme: "테마",
                light: "라이트",
                dark: "다크",
                quit_app: "프로그램 종료",
                logs_title: "로그",
                log_file: "로그 파일",
                no_logs: "아직 이벤트가 없습니다.",
                clear: "지우기",
                status_idle: "대기",
                status_proxy_running: "프록시 실행 중",
                status_vpn_running: "VPN 실행 중",
                status_adapter_failed: "어댑터 새로고침 실패",
            },
        }
    }
}

} // verus!
