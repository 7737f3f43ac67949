//! The desktop application: its state, and what the user, the tray and the background work do to
//! it.

use vstd::prelude::*;

use crate::adapter::{identity, AdapterAddress, EgressTarget};
use crate::addr::{parse_ip, parsed_ip, IpAddr};
use crate::logs::LogBuffer;
use crate::monitor::{all_closed, ConnectionMonitor, ConnectionMonitorFilter, Row};
use crate::pool::EgressStrategy;
use crate::proxy::{Moment, ProxyConfig};
use crate::text::{
    chars_of, number_fault, parse_u16, parsed_u16, same_text, split_chars, split_on, string_of,
    texts, trim, trim_chars, trimmed, u16_fault,
};
use crate::texts::{tray_language_for, Language};
use crate::theme::ThemeMode;
use crate::tray::{TrayEvent, TrayLanguage};
use crate::update::UpdateInfo;
use crate::vpn::{DnsStrategy, VpnConfig};

verus! {

/// How the application carries traffic.
#[derive(Debug, Clone, Copy, PartialEq, Eq, Structural)]
pub enum Mode {
    Proxy,
    Vpn,
}

/// What the application is doing.
#[derive(Debug, Clone, Copy, PartialEq, Eq, Structural)]
pub enum AppStatus {
    Idle,
    ProxyRunning,
    VpnRunning,
    AdapterRefreshFailed,
}

/// An adapter address in the list of choices.
#[derive(Debug)]
pub struct AdapterRow {
    pub adapter: AdapterAddress,
    pub selected: bool,
    pub weight: u16,
}

/// What the background work on updates reports.
#[derive(Debug)]
pub enum UpdateMessage {
    Check(Result<UpdateInfo, String>),
    Install(Result<String, String>),
}

/// What is done to the windows.
#[derive(Debug, Clone, Copy, PartialEq, Eq, Structural)]
pub enum WindowCommand {
    ShowMain,
    RestoreMain,
    FocusMain,
    Repaint,
    CancelClose,
    HideMain,
    CloseMonitor,
    CloseMain,
    /// The sidecar and the proxy are stopped.
    StopAll,
}

/// What the user has set.
#[derive(Debug)]
pub struct Settings {
    pub language: Language,
    pub theme_mode: ThemeMode,
    pub mode: Mode,
    pub listen_ip: String,
    pub listen_port: String,
    pub udp_enabled: bool,
    pub setup_routes: bool,
    pub enable_ipv6: bool,
    pub dns_strategy: DnsStrategy,
    pub bypass_text: String,
    pub tun2proxy_path: String,
}

/// What runs.
#[derive(Debug, Clone, Copy, PartialEq, Eq, Structural)]
pub struct Service {
    /// Whether the proxy runs.
    pub proxy: bool,
    /// Whether the sidecar runs.
    pub vpn: bool,
    pub status: AppStatus,
}

/// What is shown.
#[derive(Debug, Clone, Copy, PartialEq, Eq, Structural)]
pub struct Windows {
    pub show_all_adapters: bool,
    pub show_advanced: bool,
    pub show_logs: bool,
    pub show_connection_window: bool,
    pub connection_monitor_filter: ConnectionMonitorFilter,
    pub show_tray_options: bool,
    pub close_to_tray: bool,
    pub tray_available: bool,
    pub window_visible: bool,
    pub allow_exit: bool,
    pub tray_language: TrayLanguage,
}

/// The work on updates.
#[derive(Debug)]
pub struct Updates {
    pub status: String,
    pub busy: bool,
    pub auto_checked: bool,
}

/// The state of the desktop application.
#[derive(Debug)]
pub struct NetCombinerApp {
    pub adapters: Vec<AdapterRow>,
    pub settings: Settings,
    pub service: Service,
    pub windows: Windows,
    pub updates: Updates,
    pub connections: ConnectionMonitor,
    pub logs: LogBuffer,
    pub last_refresh: Option<Moment>,
    pub started_at: Moment,
}

/// How long after its start the application looks for updates, in nanoseconds.
pub const AUTO_CHECK_DELAY: u64 = 2_000_000_000;

/// How soon the windows are drawn again while something goes on, in milliseconds.
pub const REPAINT_INTERVAL_MILLIS: u64 = 500;

impl Settings {
    /// The settings as the application starts.
    pub fn new() -> (settings: Self)
        ensures
            settings.language == Language::English,
            settings.theme_mode == ThemeMode::Light,
            settings.mode == Mode::Proxy,
            settings.listen_ip@ == "127.0.0.1"@,
            settings.listen_port@ == "1080"@,
            settings.udp_enabled,
            settings.setup_routes,
            !settings.enable_ipv6,
            settings.dns_strategy == DnsStrategy::Virtual,
            settings.bypass_text@
                == "127.0.0.0/8\n::1/128\n10.0.0.0/8\n172.16.0.0/12\n192.168.0.0/16\n169.254.0.0/16\n224.0.0.0/4\n255.255.255.255/32\nfe80::/10\nff00::/8"@,
            settings.tun2proxy_path@.len() == 0,
    {
        Settings {
            language: Language::English,
            theme_mode: ThemeMode::Light,
            mode: Mode::Proxy,
            listen_ip: "127.0.0.1".to_owned(),
            listen_port: "1080".to_owned(),
            udp_enabled: true,
            setup_routes: true,
            enable_ipv6: false,
            dns_strategy: DnsStrategy::Virtual,
            bypass_text: "127.0.0.0/8\n::1/128\n10.0.0.0/8\n172.16.0.0/12\n192.168.0.0/16\n169.254.0.0/16\n224.0.0.0/4\n255.255.255.255/32\nfe80::/10\nff00::/8".to_owned(),
            tun2proxy_path: String::new(),
        }
    }
}

impl NetCombinerApp {
    pub open spec fn wf(self) -> bool {
        self.connections.wf() && self.logs@.len() <= crate::logs::MAX_LOG_LINES
    }

    /// The application as it starts.
    pub fn new(tray_available: bool, now: Moment) -> (app: Self)
        ensures
            app.wf(),
            app.adapters@.len() == 0,
            app.settings.language == Language::English,
            app.settings.theme_mode == ThemeMode::Light,
            app.settings.mode == Mode::Proxy,
            app.settings.listen_ip@ == "127.0.0.1"@,
            app.settings.listen_port@ == "1080"@,
            app.settings.udp_enabled,
            app.settings.setup_routes,
            !app.settings.enable_ipv6,
            app.settings.dns_strategy == DnsStrategy::Virtual,
            app.settings.bypass_text@
                == "127.0.0.0/8\n::1/128\n10.0.0.0/8\n172.16.0.0/12\n192.168.0.0/16\n169.254.0.0/16\n224.0.0.0/4\n255.255.255.255/32\nfe80::/10\nff00::/8"@,
            app.settings.tun2proxy_path@.len() == 0,
            app.service == (Service { proxy: false, vpn: false, status: AppStatus::Idle }),
            app.windows == (Windows {
                show_all_adapters: false,
                show_advanced: false,
                show_logs: false,
                show_connection_window: false,
                connection_monitor_filter: ConnectionMonitorFilter::Active,
                show_tray_options: false,
                close_to_tray: true,
                tray_available,
                window_visible: true,
                allow_exit: false,
                tray_language: TrayLanguage::English,
            }),
            app.updates.status@ == "Update check will run automatically."@,
            !app.updates.busy,
            !app.updates.auto_checked,
            app.connections@.len() == 0,
            app.logs@.len() == 0,
            app.last_refresh is None,
            app.started_at == now,
    {
        NetCombinerApp {
            adapters: Vec::new(),
            settings: Settings::new(),
            service: Service { proxy: false, vpn: false, status: AppStatus::Idle },
            windows: Windows {
                show_all_adapters: false,
                show_advanced: false,
                show_logs: false,
                show_connection_window: false,
                connection_monitor_filter: ConnectionMonitorFilter::Active,
                show_tray_options: false,
                close_to_tray: true,
                tray_available,
                window_visible: true,
                allow_exit: false,
                tray_language: TrayLanguage::English,
            },
            updates: Updates {
                status: "Update check will run automatically.".to_owned(),
                busy: false,
                auto_checked: false,
            },
            connections: ConnectionMonitor::new(),
            logs: LogBuffer::new(),
            last_refresh: None,
            started_at: now,
        }
    }
}

/// A message with what went wrong behind it.
fn with_error(words: &str, error: &str) -> (message: String)
    ensures
        message@ == words@ + error@,
{
    let mut message: String = words.to_owned();
    message.append(error);
    message
}

/// What is logged where there is no tray.
pub fn tray_unavailable_message(error: &str) -> (message: String)
    ensures
        message@ == "tray unavailable: "@ + error@,
{
    with_error("tray unavailable: ", error)
}

/// What is logged where the proxy ended with an error.
pub fn proxy_failed_message(error: &str) -> (message: String)
    ensures
        message@ == "proxy failed: "@ + error@,
{
    with_error("proxy failed: ", error)
}

/// What is logged where the proxy found no runtime to run on.
pub fn runtime_failed_message(error: &str) -> (message: String)
    ensures
        message@ == "failed to create Tokio runtime: "@ + error@,
{
    with_error("failed to create Tokio runtime: ", error)
}

/// Why there is no tray on a platform that has none.
pub fn tray_unsupported_message() -> (message: &'static str)
    ensures
        message@ == "system tray is not supported on this platform"@,
{
    "system tray is not supported on this platform"
}

// ---------------------------------------------------------------------
// Adapters
// ---------------------------------------------------------------------

/// Whether an adapter that was not listed before is selected.
pub fn default_selected(_adapter: &AdapterAddress) -> (selected: bool)
    ensures
        !selected,
{
    false
}

/// Whether an adapter is shown without asking for all of them.
pub open spec fn shown_by_default(adapter: AdapterAddress) -> bool {
    !adapter.is_loopback && !adapter.is_link_local
}

pub fn visible_by_default(adapter: &AdapterAddress) -> (visible: bool)
    ensures
        visible == shown_by_default(*adapter),
{
    !adapter.is_loopback && !adapter.is_link_local
}

/// Where the first row for an adapter with this identity stands.
pub open spec fn row_of(rows: Seq<AdapterRow>, id: Seq<char>) -> Option<int>
    decreases rows.len(),
{
    if rows.len() == 0 {
        None
    } else {
        match row_of(rows.drop_last(), id) {
            Some(i) => Some(i),
            None => if identity(rows.last().adapter.name@, rows.last().adapter.ip) == id {
                Some(rows.len() - 1)
            } else {
                None
            },
        }
    }
}

/// How an adapter is listed after a refresh: as before where it was listed, and otherwise not
/// selected and with the weight one.
pub open spec fn refreshed(previous: Seq<AdapterRow>, adapter: AdapterAddress) -> AdapterRow {
    match row_of(previous, identity(adapter.name@, adapter.ip)) {
        Some(i) => AdapterRow {
            adapter,
            selected: previous[i].selected,
            weight: previous[i].weight,
        },
        None => AdapterRow { adapter, selected: false, weight: 1 },
    }
}

/// The target for a row; a weight of zero counts as one.
pub open spec fn target_of(row: AdapterRow) -> EgressTarget {
    EgressTarget {
        name: row.adapter.name,
        ip: row.adapter.ip,
        weight: if row.weight == 0 {
            1
        } else {
            row.weight
        },
    }
}

/// The targets for the selected rows.
pub open spec fn selected_targets(rows: Seq<AdapterRow>) -> Seq<EgressTarget> {
    rows.filter(|row: AdapterRow| row.selected).map_values(|row: AdapterRow| target_of(row))
}

/// What is found in the first rows is found in all of them.
proof fn lemma_row_prefix(rows: Seq<AdapterRow>, count: int, id: Seq<char>)
    requires
        0 <= count <= rows.len(),
        row_of(rows.take(count), id) is Some,
    ensures
        row_of(rows, id) == row_of(rows.take(count), id),
    decreases rows.len(),
{
    if count == rows.len() {
        assert(rows.take(count) =~= rows);
    } else {
        assert(rows.drop_last().take(count) =~= rows.take(count));
        lemma_row_prefix(rows.drop_last(), count, id);
    }
}

fn find_row(rows: &Vec<AdapterRow>, id: &str) -> (found: Option<usize>)
    ensures
        match found {
            Some(i) => row_of(rows@, id@) == Some(i as int) && i < rows@.len(),
            None => row_of(rows@, id@) is None,
        },
{
    let mut i: usize = 0;
    assert(rows@.take(0) =~= Seq::empty());
    while i < rows.len()
        invariant
            i <= rows@.len(),
            row_of(rows@.take(i as int), id@) is None,
        decreases rows@.len() - i,
    {
        proof {
            assert(rows@.take(i + 1).drop_last() =~= rows@.take(i as int));
            assert(rows@.take(i + 1).last() == rows@[i as int]);
        }
        if same_text(rows[i].adapter.stable_id().as_str(), id) {
            proof {
                lemma_row_prefix(rows@, i + 1, id@);
            }
            return Some(i);
        }
        i += 1;
    }
    assert(rows@.take(i as int) =~= rows@);
    None
}

impl NetCombinerApp {
    /// Takes the adapters that were found, or the failure to find them. Choices are kept for the
    /// adapters that were listed before.
    pub fn refresh_adapters(
        &mut self,
        found: Result<Vec<AdapterAddress>, String>,
        now: Moment,
    ) -> (message: Option<String>)
        ensures
            match found {
                Ok(adapters) => {
                    &&& message is None
                    &&& final(self).adapters@ == adapters@.map_values(
                        |adapter: AdapterAddress| refreshed(old(self).adapters@, adapter),
                    )
                    &&& *final(self) == (NetCombinerApp {
                        adapters: final(self).adapters,
                        last_refresh: Some(now),
                        service: old(self).service.refreshed(),
                        ..*old(self)
                    })
                },
                Err(error) => {
                    &&& message matches Some(text) && text@ == "adapter refresh failed: "@ + error@
                    &&& *final(self) == (NetCombinerApp {
                        service: (Service {
                            status: AppStatus::AdapterRefreshFailed,
                            ..old(self).service
                        }),
                        ..*old(self)
                    })
                },
            },
    {
        match found {
            Ok(adapters) => {
                let mut rows: Vec<AdapterRow> = Vec::new();
                let mut i: usize = 0;
                while i < adapters.len()
                    invariant
                        i <= adapters@.len(),
                        rows@.len() == i,
                        *self == *old(self),
                        forall|j: int|
                            0 <= j < i ==> #[trigger] rows@[j] == refreshed(
                                self.adapters@,
                                adapters@[j],
                            ),
                    decreases adapters@.len() - i,
                {
                    let adapter: AdapterAddress = adapters[i].clone();
                    let row: AdapterRow = match find_row(
                        &self.adapters,
                        adapter.stable_id().as_str(),
                    ) {
                        Some(at) => AdapterRow {
                            selected: self.adapters[at].selected,
                            weight: self.adapters[at].weight,
                            adapter,
                        },
                        None => AdapterRow {
                            selected: default_selected(&adapter),
                            weight: 1,
                            adapter,
                        },
                    };
                    rows.push(row);
                    i += 1;
                }
                assert(rows@ =~= adapters@.map_values(
                    |adapter: AdapterAddress| refreshed(old(self).adapters@, adapter),
                ));
                self.adapters = rows;
                self.last_refresh = Some(now);
                if self.service.status == AppStatus::AdapterRefreshFailed {
                    self.service.status = AppStatus::Idle;
                }
                None
            },
            Err(error) => {
                self.service.status = AppStatus::AdapterRefreshFailed;
                Some(with_error("adapter refresh failed: ", error.as_str()))
            },
        }
    }

    pub fn selected_egress(&self) -> (targets: Vec<EgressTarget>)
        ensures
            targets@ == selected_targets(self.adapters@),
    {
        let ghost rows = self.adapters@;
        let mut targets: Vec<EgressTarget> = Vec::new();
        let mut i: usize = 0;
        proof {
            reveal(Seq::filter);
        }
        assert(rows.take(0) =~= Seq::empty());
        assert(targets@ =~= selected_targets(rows.take(0)));
        while i < self.adapters.len()
            invariant
                i <= rows.len(),
                rows == self.adapters@,
                targets@ == selected_targets(rows.take(i as int)),
            decreases rows.len() - i,
        {
            let row: &AdapterRow = &self.adapters[i];
            let ghost before = targets@;
            proof {
                reveal(Seq::filter);
                assert(rows.take(i + 1).drop_last() =~= rows.take(i as int));
                assert(rows.take(i + 1).last() == *row);
            }
            if row.selected {
                let weight: u16 = if row.weight == 0 {
                    1
                } else {
                    row.weight
                };
                targets.push(
                    EgressTarget { name: row.adapter.name.clone(), ip: row.adapter.ip, weight },
                );
                assert(targets@ =~= before.push(target_of(*row)));
            }
            i += 1;
            assert(targets@ =~= selected_targets(rows.take(i as int)));
        }
        assert(rows.take(i as int) =~= rows);
        targets
    }

    /// How many rows are selected.
    pub open spec fn selection(self) -> nat {
        self.adapters@.filter(|row: AdapterRow| row.selected).len()
    }

    pub fn selected_count(&self) -> (count: usize)
        ensures
            count == self.selection(),
    {
        let targets: Vec<EgressTarget> = self.selected_egress();
        targets.len()
    }

    /// The rows that are shown: all of them, or those that are shown by default.
    pub fn visible_adapter_indices(&self) -> (indices: Vec<usize>)
        ensures
            forall|k: int|
                0 <= k < indices@.len() ==> #[trigger] indices@[k] < self.adapters@.len() && (
                self.windows.show_all_adapters || shown_by_default(
                    self.adapters@[indices@[k] as int].adapter,
                )),
            forall|k: int, l: int|
                0 <= k < l < indices@.len() ==> #[trigger] indices@[k] < #[trigger] indices@[l],
            forall|i: int|
                0 <= i < self.adapters@.len() && (self.windows.show_all_adapters || shown_by_default(
                    (#[trigger] self.adapters@[i]).adapter,
                )) ==> indices@.contains(i as usize),
    {
        let mut indices: Vec<usize> = Vec::new();
        let mut i: usize = 0;
        while i < self.adapters.len()
            invariant
                i <= self.adapters@.len(),
                forall|k: int|
                    0 <= k < indices@.len() ==> #[trigger] indices@[k] < i && (
                    self.windows.show_all_adapters || shown_by_default(
                        self.adapters@[indices@[k] as int].adapter,
                    )),
                forall|k: int, l: int|
                    0 <= k < l < indices@.len() ==> #[trigger] indices@[k] < #[trigger] indices@[l],
                forall|j: int|
                    0 <= j < i && (self.windows.show_all_adapters || shown_by_default(
                        (#[trigger] self.adapters@[j]).adapter,
                    )) ==> indices@.contains(j as usize),
            decreases self.adapters@.len() - i,
        {
            if self.windows.show_all_adapters || visible_by_default(&self.adapters[i].adapter) {
                let ghost before = indices@;
                indices.push(i);
                proof {
                    assert(indices@[before.len() as int] == i);
                    assert forall|j: int|
                        0 <= j < i + 1 && (self.windows.show_all_adapters || shown_by_default(
                            (#[trigger] self.adapters@[j]).adapter,
                        )) implies indices@.contains(j as usize) by {
                        if j < i {
                            assert(before.contains(j as usize));
                            let k = choose|k: int|
                                0 <= k < before.len() && before[k] == j as usize;
                            assert(indices@[k] == j as usize);
                        }
                    }
                }
            }
            i += 1;
        }
        indices
    }

    /// How many rows are not shown by default.
    pub fn hidden_adapter_count(&self) -> (count: usize)
        ensures
            count == self.adapters@.filter(
                |row: AdapterRow| !shown_by_default(row.adapter),
            ).len(),
    {
        let ghost hidden = |row: AdapterRow| !shown_by_default(row.adapter);
        let ghost rows = self.adapters@;
        let mut count: usize = 0;
        let mut i: usize = 0;
        proof {
            reveal(Seq::filter);
        }
        assert(rows.take(0) =~= Seq::empty());
        while i < self.adapters.len()
            invariant
                i <= rows.len(),
                rows == self.adapters@,
                count <= i,
                hidden == (|row: AdapterRow| !shown_by_default(row.adapter)),
                count == rows.take(i as int).filter(hidden).len(),
            decreases rows.len() - i,
        {
            proof {
                reveal(Seq::filter);
                assert(rows.take(i + 1).drop_last() =~= rows.take(i as int));
                assert(rows.take(i + 1).last() == rows[i as int]);
            }
            if !visible_by_default(&self.adapters[i].adapter) {
                count += 1;
            }
            i += 1;
        }
        assert(rows.take(i as int) =~= rows);
        count
    }

    /// Selects a row or takes it back.
    pub fn toggle_adapter(&mut self, index: usize)
        requires
            index < old(self).adapters@.len(),
        ensures
            final(self).adapters@ == old(self).adapters@.update(
                index as int,
                (AdapterRow {
                    selected: !old(self).adapters@[index as int].selected,
                    ..old(self).adapters@[index as int]
                }),
            ),
            *final(self) == (NetCombinerApp { adapters: final(self).adapters, ..*old(self) }),
    {
        let ghost before = self.adapters@;
        let mut row: AdapterRow = self.adapters.remove(index);
        row.selected = !row.selected;
        self.adapters.insert(index, row);
        assert(self.adapters@ =~= before.update(index as int, row));
    }
}

// ---------------------------------------------------------------------
// Settings
// ---------------------------------------------------------------------

/// What is said of a listen address that is none.
pub open spec fn address_words() -> Seq<char> {
    "invalid IP address syntax"@
}

/// The lines of a text without the white space around them, those that hold nothing left out.
pub open spec fn entries_of(text: Seq<char>) -> Seq<Seq<char>> {
    split_on(text, '\n').map_values(|line: Seq<char>| trimmed(line)).filter(
        |line: Seq<char>| line.len() > 0,
    )
}

fn entries(text: &str) -> (out: Vec<String>)
    ensures
        texts(out@) == entries_of(text@),
{
    let chars: Vec<char> = chars_of(text);
    let lines: Vec<Vec<char>> = split_chars(chars.as_slice(), '\n');
    let ghost all = split_on(text@, '\n').map_values(|line: Seq<char>| trimmed(line));
    let ghost keeps = |line: Seq<char>| line.len() > 0;
    assert(all.len() == lines@.len());
    let mut out: Vec<String> = Vec::new();
    let mut i: usize = 0;
    proof {
        reveal(Seq::filter);
    }
    assert(all.take(0) =~= Seq::empty());
    assert(texts(out@) =~= all.take(0).filter(keeps));
    while i < lines.len()
        invariant
            i <= lines@.len(),
            all.len() == lines@.len(),
            all == split_on(text@, '\n').map_values(|line: Seq<char>| trimmed(line)),
            crate::text::char_texts(lines@) == split_on(text@, '\n'),
            keeps == (|line: Seq<char>| line.len() > 0),
            texts(out@) == all.take(i as int).filter(keeps),
        decreases lines@.len() - i,
    {
        let line: Vec<char> = trim_chars(lines[i].as_slice());
        proof {
            reveal(Seq::filter);
            assert(all.take(i + 1).drop_last() =~= all.take(i as int));
            assert(crate::text::char_texts(lines@)[i as int] == lines@[i as int]@);
            assert(all.take(i + 1).last() == line@);
        }
        if line.len() > 0 {
            let entry: String = string_of(line.as_slice());
            proof {
                crate::text::lemma_texts_push(out@, entry);
            }
            out.push(entry);
        }
        i += 1;
    }
    assert(all.take(i as int) =~= all);
    out
}

/// Why the proxy cannot be started with the settings, if it cannot: the address, the port and the
/// selection are looked at in turn.
pub open spec fn config_fault(app: NetCombinerApp) -> Option<Seq<char>> {
    if parsed_ip(trimmed(app.settings.listen_ip@)) is None {
        Some(address_words())
    } else if number_fault(trimmed(app.settings.listen_port@)) is Some {
        Some(number_fault(trimmed(app.settings.listen_port@))->0.words())
    } else if app.selection() == 0 {
        Some("select at least one adapter"@)
    } else {
        None
    }
}

/// Whether `config` is what the settings ask for.
pub open spec fn asks_for(app: NetCombinerApp, config: ProxyConfig) -> bool {
    &&& parsed_ip(trimmed(app.settings.listen_ip@)) == Some(config.listen_ip)
    &&& parsed_u16(trimmed(app.settings.listen_port@)) == Some(config.listen_port)
    &&& config.egress@ == selected_targets(app.adapters@)
    &&& config.udp_enabled == app.settings.udp_enabled
    &&& config.egress_strategy == EgressStrategy::PerDestination
}

/// Whether `config` is what the settings ask for.
pub open spec fn asks_for_vpn(app: NetCombinerApp, config: VpnConfig) -> bool {
    &&& config.tun2proxy_path is Some <==> trimmed(app.settings.tun2proxy_path@).len() > 0
    &&& config.tun2proxy_path matches Some(path) ==> path@ == trimmed(app.settings.tun2proxy_path@)
    &&& config.setup_routes == app.settings.setup_routes
    &&& texts(config.bypass@) == entries_of(app.settings.bypass_text@)
    &&& config.dns_strategy == app.settings.dns_strategy
    &&& config.enable_ipv6 == app.settings.enable_ipv6
}

impl NetCombinerApp {
    /// The settings for the proxy.
    pub fn proxy_config(&self) -> (result: Result<ProxyConfig, String>)
        ensures
            match result {
                Ok(config) => config_fault(*self) is None && asks_for(*self, config),
                Err(message) => config_fault(*self) == Some(message@),
            },
    {
        let listen_ip: IpAddr = match parse_ip(trim(self.settings.listen_ip.as_str()).as_str()) {
            Some(ip) => ip,
            None => return Err("invalid IP address syntax".to_owned()),
        };
        let port_text: String = trim(self.settings.listen_port.as_str());
        if let Some(fault) = u16_fault(port_text.as_str()) {
            return Err(fault.message().to_owned());
        }
        let listen_port: u16 = match parse_u16(port_text.as_str()) {
            Some(port) => port,
            None => 0,
        };
        let egress: Vec<EgressTarget> = self.selected_egress();
        if egress.len() == 0 {
            return Err("select at least one adapter".to_owned());
        }
        Ok(
            ProxyConfig {
                listen_ip,
                listen_port,
                egress,
                udp_enabled: self.settings.udp_enabled,
                egress_strategy: EgressStrategy::PerDestination,
            },
        )
    }

    /// The settings for the sidecar.
    pub fn vpn_config(&self) -> (config: VpnConfig)
        ensures
            asks_for_vpn(*self, config),
    {
        let path: String = trim(self.settings.tun2proxy_path.as_str());
        let tun2proxy_path: Option<String> = if path.as_str().is_empty() {
            None
        } else {
            Some(path)
        };
        VpnConfig {
            tun2proxy_path,
            setup_routes: self.settings.setup_routes,
            bypass: entries(self.settings.bypass_text.as_str()),
            dns_strategy: self.settings.dns_strategy,
            enable_ipv6: self.settings.enable_ipv6,
        }
    }
}

// ---------------------------------------------------------------------
// Starting and stopping
// ---------------------------------------------------------------------

/// What the wish to start the proxy leads to.
#[derive(Debug)]
pub enum ProxyStart {
    AlreadyRunning,
    /// The line to log.
    Refused(String),
    Launch(ProxyConfig),
}

/// What the wish to start the sidecar leads to.
#[derive(Debug)]
pub enum VpnStart {
    AlreadyRunning,
    /// The proxy has to run first.
    NeedsProxy,
    /// The line to log.
    Refused(String),
    Launch(u16, VpnConfig),
}

/// How a sidecar was found to have ended.
#[derive(Debug)]
pub enum VpnEnd {
    Exited(String),
    CheckFailed(String),
}

impl Service {
    /// Whether the proxy or the sidecar runs.
    pub open spec fn running(self) -> bool {
        self.proxy || self.vpn
    }

    /// The state after the adapters were found.
    pub open spec fn refreshed(self) -> Service {
        Service {
            status: if self.status == AppStatus::AdapterRefreshFailed {
                AppStatus::Idle
            } else {
                self.status
            },
            ..self
        }
    }

    /// The state after the sidecar was stopped.
    pub open spec fn without_vpn(self) -> Service {
        Service {
            vpn: false,
            status: if self.proxy {
                AppStatus::ProxyRunning
            } else {
                self.status
            },
            ..self
        }
    }

    /// The state after the proxy was stopped.
    pub open spec fn without_proxy(self) -> Service {
        if self.proxy {
            Service { proxy: false, status: AppStatus::Idle, ..self }
        } else {
            self
        }
    }

    pub fn is_running(&self) -> (running: bool)
        ensures
            running == self.running(),
    {
        self.proxy || self.vpn
    }

    /// Notes how the launch of the proxy went: nothing, or the error.
    pub fn proxy_launched(&mut self, error: Option<&str>) -> (line: Option<String>)
        ensures
            match error {
                None => line is None && *final(self) == (Service {
                    proxy: true,
                    status: AppStatus::ProxyRunning,
                    ..*old(self)
                }),
                Some(text) => {
                    &&& line matches Some(message) && message@ == "cannot start proxy: "@ + text@
                    &&& *final(self) == *old(self)
                },
            },
    {
        match error {
            None => {
                self.proxy = true;
                self.status = AppStatus::ProxyRunning;
                None
            },
            Some(text) => Some(with_error("cannot start proxy: ", text)),
        }
    }

    /// Notes how the launch of the sidecar went: nothing, or the error.
    pub fn vpn_launched(&mut self, error: Option<&str>) -> (line: Option<String>)
        ensures
            match error {
                None => line is None && *final(self) == (Service {
                    vpn: true,
                    status: AppStatus::VpnRunning,
                    ..*old(self)
                }),
                Some(text) => {
                    &&& line matches Some(message) && message@ == "cannot start VPN sidecar: "@
                        + text@
                    &&& *final(self) == *old(self)
                },
            },
    {
        match error {
            None => {
                self.vpn = true;
                self.status = AppStatus::VpnRunning;
                None
            },
            Some(text) => Some(with_error("cannot start VPN sidecar: ", text)),
        }
    }

    /// Notes that the sidecar was stopped, if it ran; `error` is what went wrong about it.
    pub fn stop_vpn(&mut self, error: Option<&str>) -> (line: Option<String>)
        ensures
            line is Some <==> old(self).vpn,
            line matches Some(message) ==> message@ == (match error {
                Some(text) => "failed to stop VPN sidecar: "@ + text@,
                None => "VPN sidecar stopped"@,
            }),
            *final(self) == old(self).without_vpn(),
    {
        let line: Option<String> = if self.vpn {
            self.vpn = false;
            match error {
                Some(text) => Some(with_error("failed to stop VPN sidecar: ", text)),
                None => Some("VPN sidecar stopped".to_owned()),
            }
        } else {
            None
        };
        if self.proxy {
            self.status = AppStatus::ProxyRunning;
        }
        line
    }

    /// Notes that the sidecar ended by itself, or could not be looked at.
    pub fn vpn_ended(&mut self, end: &VpnEnd) -> (line: String)
        ensures
            line@ == (match end {
                VpnEnd::Exited(status) => "VPN sidecar exited: "@ + status@,
                VpnEnd::CheckFailed(error) => "VPN sidecar status check failed: "@ + error@,
            }),
            *final(self) == (Service {
                vpn: false,
                status: if old(self).proxy {
                    AppStatus::ProxyRunning
                } else {
                    AppStatus::Idle
                },
                ..*old(self)
            }),
    {
        self.vpn = false;
        self.status = if self.proxy {
            AppStatus::ProxyRunning
        } else {
            AppStatus::Idle
        };
        match end {
            VpnEnd::Exited(status) => with_error("VPN sidecar exited: ", status.as_str()),
            VpnEnd::CheckFailed(error) => with_error(
                "VPN sidecar status check failed: ",
                error.as_str(),
            ),
        }
    }
}

impl NetCombinerApp {
    /// Starts the proxy, unless it runs or the settings do not allow it. A new start begins with
    /// an empty monitor.
    pub fn start_proxy(&mut self) -> (start: ProxyStart)
        requires
            old(self).wf(),
        ensures
            final(self).wf(),
            match start {
                ProxyStart::AlreadyRunning => old(self).service.proxy && *final(self)
                    == *old(self),
                ProxyStart::Refused(line) => {
                    &&& !old(self).service.proxy
                    &&& config_fault(*old(self)) is Some
                    &&& line@ == "cannot start proxy: "@ + config_fault(*old(self))->0
                    &&& *final(self) == *old(self)
                },
                ProxyStart::Launch(config) => {
                    &&& !old(self).service.proxy
                    &&& config_fault(*old(self)) is None
                    &&& asks_for(*old(self), config)
                    &&& final(self).connections@ == Seq::<Row>::empty()
                    &&& *final(self) == (NetCombinerApp {
                        connections: final(self).connections,
                        ..*old(self)
                    })
                },
            },
    {
        if self.service.proxy {
            return ProxyStart::AlreadyRunning;
        }
        match self.proxy_config() {
            Ok(config) => {
                self.connections.clear_all();
                ProxyStart::Launch(config)
            },
            Err(error) => ProxyStart::Refused(with_error("cannot start proxy: ", error.as_str())),
        }
    }

    /// Starts the sidecar, unless it runs; it needs the proxy and a port.
    pub fn start_vpn(&self) -> (start: VpnStart)
        ensures
            match start {
                VpnStart::AlreadyRunning => self.service.vpn,
                VpnStart::NeedsProxy => !self.service.vpn && !self.service.proxy,
                VpnStart::Refused(line) => {
                    &&& !self.service.vpn
                    &&& self.service.proxy
                    &&& number_fault(trimmed(self.settings.listen_port@)) is Some
                    &&& line@ == "invalid proxy port: "@ + number_fault(
                        trimmed(self.settings.listen_port@),
                    )->0.words()
                },
                VpnStart::Launch(port, config) => {
                    &&& !self.service.vpn
                    &&& self.service.proxy
                    &&& parsed_u16(trimmed(self.settings.listen_port@)) == Some(port)
                    &&& asks_for_vpn(*self, config)
                },
            },
    {
        if self.service.vpn {
            return VpnStart::AlreadyRunning;
        }
        if !self.service.proxy {
            return VpnStart::NeedsProxy;
        }
        let port_text: String = trim(self.settings.listen_port.as_str());
        if let Some(fault) = u16_fault(port_text.as_str()) {
            return VpnStart::Refused(with_error("invalid proxy port: ", fault.message()));
        }
        match parse_u16(port_text.as_str()) {
            Some(port) => VpnStart::Launch(port, self.vpn_config()),
            None => VpnStart::Refused("invalid proxy port: ".to_owned()),
        }
    }

    /// Notes that the proxy was stopped, if it ran: its connections are over.
    pub fn stop_proxy(&mut self, now: Moment) -> (line: Option<&'static str>)
        requires
            old(self).wf(),
        ensures
            final(self).wf(),
            line is Some <==> old(self).service.proxy,
            line matches Some(message) ==> message@ == "proxy stopped"@,
            final(self).connections@ == (if old(self).service.proxy {
                all_closed(old(self).connections@, "proxy stopped"@, now)
            } else {
                old(self).connections@
            }),
            *final(self) == (NetCombinerApp {
                service: old(self).service.without_proxy(),
                connections: final(self).connections,
                ..*old(self)
            }),
    {
        if self.service.proxy {
            self.service.proxy = false;
            self.service.status = AppStatus::Idle;
            self.connections.mark_active_connections_closed("proxy stopped", now);
            Some("proxy stopped")
        } else {
            None
        }
    }

    /// Notes that the proxy ended by itself, if it ran.
    pub fn proxy_exited(&mut self, now: Moment) -> (line: Option<&'static str>)
        requires
            old(self).wf(),
        ensures
            final(self).wf(),
            line is Some <==> old(self).service.proxy,
            line matches Some(message) ==> message@ == "proxy task exited"@,
            final(self).connections@ == (if old(self).service.proxy {
                all_closed(old(self).connections@, "proxy task exited"@, now)
            } else {
                old(self).connections@
            }),
            *final(self) == (NetCombinerApp {
                service: (Service {
                    proxy: false,
                    status: if old(self).service.proxy && !old(self).service.vpn {
                        AppStatus::Idle
                    } else {
                        old(self).service.status
                    },
                    ..old(self).service
                }),
                connections: final(self).connections,
                ..*old(self)
            }),
    {
        if self.service.proxy {
            self.service.proxy = false;
            self.connections.mark_active_connections_closed("proxy task exited", now);
            if !self.service.vpn {
                self.service.status = AppStatus::Idle;
            }
            Some("proxy task exited")
        } else {
            None
        }
    }
}

// ---------------------------------------------------------------------
// Windows and tray
// ---------------------------------------------------------------------

/// The commands that bring the main window back.
pub open spec fn restore_commands() -> Seq<WindowCommand> {
    seq![
        WindowCommand::ShowMain,
        WindowCommand::RestoreMain,
        WindowCommand::FocusMain,
        WindowCommand::Repaint,
    ]
}

/// The commands for an event of the tray. The main window is brought back first, so that each of
/// them works while it is hidden.
pub open spec fn tray_commands(event: TrayEvent) -> Seq<WindowCommand> {
    match event {
        TrayEvent::Quit => restore_commands() + seq![
            WindowCommand::StopAll,
            WindowCommand::CloseMonitor,
            WindowCommand::CloseMain,
        ],
        _ => restore_commands(),
    }
}

impl Windows {
    /// Brings the main window back.
    pub fn show_main_window(&mut self) -> (commands: Vec<WindowCommand>)
        ensures
            commands@ == restore_commands(),
            *final(self) == (Windows { window_visible: true, ..*old(self) }),
    {
        self.window_visible = true;
        let mut commands: Vec<WindowCommand> = Vec::new();
        commands.push(WindowCommand::ShowMain);
        commands.push(WindowCommand::RestoreMain);
        commands.push(WindowCommand::FocusMain);
        commands.push(WindowCommand::Repaint);
        assert(commands@ =~= restore_commands());
        commands
    }

    /// Reacts to an event of the tray.
    pub fn handle_tray_event(&mut self, event: TrayEvent) -> (commands: Vec<WindowCommand>)
        ensures
            commands@ == tray_commands(event),
            *final(self) == (Windows {
                window_visible: true,
                show_tray_options: old(self).show_tray_options || event == TrayEvent::OpenOptions,
                show_connection_window: old(self).show_connection_window || event
                    == TrayEvent::OpenConnections,
                allow_exit: old(self).allow_exit || event == TrayEvent::Quit,
                ..*old(self)
            }),
    {
        let mut commands: Vec<WindowCommand> = self.show_main_window();
        match event {
            TrayEvent::ShowMain => {},
            TrayEvent::OpenOptions => {
                self.show_tray_options = true;
            },
            TrayEvent::OpenConnections => {
                self.show_connection_window = true;
            },
            TrayEvent::Quit => {
                self.allow_exit = true;
                commands.push(WindowCommand::StopAll);
                commands.push(WindowCommand::CloseMonitor);
                commands.push(WindowCommand::CloseMain);
            },
        }
        assert(commands@ =~= tray_commands(event));
        commands
    }

    /// Whether a closed window goes to the tray.
    pub open spec fn hides_on_close(self) -> bool {
        self.close_to_tray && self.tray_available && !self.allow_exit
    }

    /// Reacts to the wish to close the main window: it is hidden where that is wanted and the
    /// tray is there, and otherwise the wish is granted. Hiding a visible window is logged.
    pub fn handle_close_request(&mut self) -> (out: (Vec<WindowCommand>, Option<&'static str>))
        ensures
            old(self).hides_on_close() ==> {
                &&& out.0@ == seq![
                    WindowCommand::CancelClose,
                    WindowCommand::CloseMonitor,
                    WindowCommand::HideMain,
                ]
                &&& out.1 is Some <==> old(self).window_visible
                &&& out.1 matches Some(line) ==> line@ == "window hidden to tray"@
                &&& *final(self) == (Windows {
                    show_connection_window: false,
                    show_tray_options: false,
                    window_visible: false,
                    ..*old(self)
                })
            },
            !old(self).hides_on_close() ==> out.0@.len() == 0 && out.1 is None && *final(self)
                == *old(self),
    {
        let mut commands: Vec<WindowCommand> = Vec::new();
        if self.close_to_tray && self.tray_available && !self.allow_exit {
            let line: Option<&'static str> = if self.window_visible {
                Some("window hidden to tray")
            } else {
                None
            };
            self.show_connection_window = false;
            self.show_tray_options = false;
            self.window_visible = false;
            commands.push(WindowCommand::CancelClose);
            commands.push(WindowCommand::CloseMonitor);
            commands.push(WindowCommand::HideMain);
            assert(commands@ =~= seq![
                WindowCommand::CancelClose,
                WindowCommand::CloseMonitor,
                WindowCommand::HideMain,
            ]);
            (commands, line)
        } else {
            (commands, None)
        }
    }

    /// Leaves the application from the options window.
    pub fn quit(&mut self) -> (commands: Vec<WindowCommand>)
        ensures
            commands@ == seq![WindowCommand::StopAll, WindowCommand::CloseMain],
            *final(self) == (Windows { allow_exit: true, ..*old(self) }),
    {
        self.allow_exit = true;
        let mut commands: Vec<WindowCommand> = Vec::new();
        commands.push(WindowCommand::StopAll);
        commands.push(WindowCommand::CloseMain);
        assert(commands@ =~= seq![WindowCommand::StopAll, WindowCommand::CloseMain]);
        commands
    }

    /// The language that the tray is to be switched to, if it speaks another one.
    pub fn sync_tray_language(&mut self, language: Language) -> (change: Option<TrayLanguage>)
        ensures
            ({
                let wanted = match language {
                    Language::English => TrayLanguage::English,
                    Language::Korean => TrayLanguage::Korean,
                };
                &&& change == (if wanted == old(self).tray_language {
                    None
                } else {
                    Some(wanted)
                })
                &&& *final(self) == (Windows { tray_language: wanted, ..*old(self) })
            }),
    {
        let wanted: TrayLanguage = tray_language_for(language);
        if wanted == self.tray_language {
            return None;
        }
        self.tray_language = wanted;
        Some(wanted)
    }
}

// ---------------------------------------------------------------------
// Updates
// ---------------------------------------------------------------------

/// What the wish to install an update leads to.
#[derive(Debug, Clone, Copy, PartialEq, Eq, Structural)]
pub enum InstallStart {
    /// Work on updates is under way.
    Busy,
    /// Files of the update may be in use.
    Blocked,
    Launch,
}

/// What a message on updates is shown as.
pub open spec fn update_words(message: UpdateMessage) -> Seq<char> {
    match message {
        UpdateMessage::Check(Ok(info)) => if info.available {
            "Update available: "@ + info.current_version@ + " -> "@ + info.latest_version@
        } else {
            "Up to date: "@ + info.current_version@
        },
        UpdateMessage::Check(Err(error)) => "Update check failed: "@ + error@,
        UpdateMessage::Install(Ok(status)) => "Update finished: "@ + status@
            + ". Restart the app."@,
        UpdateMessage::Install(Err(error)) => "Update failed: "@ + error@,
    }
}

impl Updates {
    /// Takes a message on updates.
    pub fn take_message(&mut self, message: &UpdateMessage)
        ensures
            final(self).status@ == update_words(*message),
            *final(self) == (Updates {
                busy: false,
                status: final(self).status,
                ..*old(self)
            }),
    {
        self.busy = false;
        self.status = match message {
            UpdateMessage::Check(Ok(info)) => if info.available {
                let mut text: String = "Update available: ".to_owned();
                text.append(info.current_version.as_str());
                text.append(" -> ");
                text.append(info.latest_version.as_str());
                text
            } else {
                with_error("Up to date: ", info.current_version.as_str())
            },
            UpdateMessage::Check(Err(error)) => with_error(
                "Update check failed: ",
                error.as_str(),
            ),
            UpdateMessage::Install(Ok(status)) => {
                let mut text: String = "Update finished: ".to_owned();
                text.append(status.as_str());
                text.append(". Restart the app.");
                text
            },
            UpdateMessage::Install(Err(error)) => with_error("Update failed: ", error.as_str()),
        };
    }

    /// Begins to look for updates, unless work on updates is under way.
    pub fn start_check(&mut self) -> (launch: bool)
        ensures
            launch == !old(self).busy,
            !launch ==> *final(self) == *old(self),
            launch ==> {
                &&& final(self).status@ == "Checking for updates..."@
                &&& *final(self) == (Updates {
                    busy: true,
                    status: final(self).status,
                    ..*old(self)
                })
            },
    {
        if self.busy {
            return false;
        }
        self.busy = true;
        self.status = "Checking for updates...".to_owned();
        true
    }

    /// Begins to install the latest release, unless work on updates is under way or the proxy or
    /// the sidecar runs.
    pub fn start_install(&mut self, running: bool) -> (start: InstallStart)
        ensures
            start == (if old(self).busy {
                InstallStart::Busy
            } else if running {
                InstallStart::Blocked
            } else {
                InstallStart::Launch
            }),
            start == InstallStart::Busy ==> *final(self) == *old(self),
            start == InstallStart::Blocked ==> {
                &&& final(self).status@
                    == "Stop the proxy or VPN before installing an update."@
                &&& *final(self) == (Updates {
                    status: final(self).status,
                    ..*old(self)
                })
            },
            start == InstallStart::Launch ==> {
                &&& final(self).status@ == "Installing update..."@
                &&& *final(self) == (Updates {
                    busy: true,
                    status: final(self).status,
                    ..*old(self)
                })
            },
    {
        if self.busy {
            return InstallStart::Busy;
        }
        if running {
            self.status = "Stop the proxy or VPN before installing an update.".to_owned();
            return InstallStart::Blocked;
        }
        self.busy = true;
        self.status = "Installing update...".to_owned();
        InstallStart::Launch
    }

    /// Whether the check for updates that follows the start is due; it is due once.
    pub fn auto_check_due(&mut self, started_at: Moment, now: Moment) -> (due: bool)
        ensures
            due == (!old(self).auto_checked && now >= started_at + AUTO_CHECK_DELAY),
            *final(self) == (Updates {
                auto_checked: old(self).auto_checked || due,
                ..*old(self)
            }),
    {
        if !self.auto_checked && now >= started_at && now - started_at
            >= AUTO_CHECK_DELAY {
            self.auto_checked = true;
            true
        } else {
            false
        }
    }
}

impl NetCombinerApp {
    /// Whether the windows are to be drawn again soon though nothing was touched.
    pub fn wants_repaint(&self) -> (wants: bool)
        ensures
            wants == (self.windows.show_connection_window || self.service.running()
                || self.updates.busy || !self.updates.auto_checked),
    {
        self.windows.show_connection_window || self.service.is_running() || self.updates.busy
            || !self.updates.auto_checked
    }
}

// ---------------------------------------------------------------------
// Laws
// ---------------------------------------------------------------------

/// The first row for an identity is a row for that identity.
proof fn lemma_row_of(rows: Seq<AdapterRow>, id: Seq<char>)
    ensures
        row_of(rows, id) matches Some(i) ==> 0 <= i < rows.len() && identity(
            rows[i].adapter.name@,
            rows[i].adapter.ip,
        ) == id,
        row_of(rows, id) is None ==> forall|i: int|
            0 <= i < rows.len() ==> identity(
                (#[trigger] rows[i]).adapter.name@,
                rows[i].adapter.ip,
            ) != id,
    decreases rows.len(),
{
    if rows.len() > 0 {
        lemma_row_of(rows.drop_last(), id);
        assert forall|j: int| 0 <= j < rows.len() - 1 implies #[trigger] rows[j]
            == rows.drop_last()[j] by {}
    }
}

/// A refresh keeps the choices that were made: an adapter address that is listed once keeps its
/// selection and its weight.
pub proof fn law_refresh_keeps_choices(rows: Seq<AdapterRow>, i: int)
    requires
        0 <= i < rows.len(),
        forall|j: int|
            0 <= j < rows.len() && j != i ==> (#[trigger] rows[j]).adapter.name@
                != rows[i].adapter.name@ || rows[j].adapter.ip != rows[i].adapter.ip,
    ensures
        refreshed(rows, rows[i].adapter) == rows[i],
{
    let id = identity(rows[i].adapter.name@, rows[i].adapter.ip);
    lemma_row_of(rows, id);
    let found = row_of(rows, id);
    assert(identity(rows[i].adapter.name@, rows[i].adapter.ip) == id);
    if found is Some && found->0 != i {
        let other = rows[found->0].adapter;
        crate::round_trip::law_identity_is_unambiguous(
            other.name@,
            other.ip,
            rows[i].adapter.name@,
            rows[i].adapter.ip,
        );
    }
}

/// An adapter address that was not listed before is not selected and has the weight one.
pub proof fn law_new_adapters_are_not_selected(rows: Seq<AdapterRow>, adapter: AdapterAddress)
    requires
        forall|j: int|
            0 <= j < rows.len() ==> (#[trigger] rows[j]).adapter.name@ != adapter.name@
                || rows[j].adapter.ip != adapter.ip,
    ensures
        !refreshed(rows, adapter).selected,
        refreshed(rows, adapter).weight == 1,
{
    let id = identity(adapter.name@, adapter.ip);
    lemma_row_of(rows, id);
    if row_of(rows, id) is Some {
        let other = rows[row_of(rows, id)->0].adapter;
        crate::round_trip::law_identity_is_unambiguous(
            other.name@,
            other.ip,
            adapter.name@,
            adapter.ip,
        );
    }
}

/// The settings are refused exactly where the address, the port or the selection is wrong.
pub proof fn law_settings_are_refused_for_a_reason(app: NetCombinerApp)
    ensures
        config_fault(app) is None <==> parsed_ip(trimmed(app.settings.listen_ip@)) is Some && parsed_u16(
            trimmed(app.settings.listen_port@),
        ) is Some && app.selection() > 0,
{
    crate::text::law_fault_or_number(trimmed(app.settings.listen_port@));
}

/// Each action of the tray brings the main window back before anything else is done.
pub proof fn law_tray_restores_the_window_first(event: TrayEvent)
    ensures
        restore_commands().is_prefix_of(tray_commands(event)),
{
    assert(tray_commands(event).take(4) =~= restore_commands());
}

/// Once the application is to be left, its window is not hidden any more.
pub proof fn law_leaving_is_not_hiding(windows: Windows)
    ensures
        !(Windows { allow_exit: true, ..windows }).hides_on_close(),
{
}

/// Stopping the sidecar and then the proxy ends all that runs.
pub proof fn law_stopping_ends_everything(service: Service)
    ensures
        !service.without_vpn().without_proxy().running(),
        service.proxy ==> service.without_vpn().without_proxy().status == AppStatus::Idle,
{
}

/// The targets are made of the selected rows and of no others, in their order: each has the name
/// and the address of the adapter and the weight that was set, or one where that is zero.
/// `places[k]` is the row that the target at `k` is made of.
pub proof fn law_selected_rows_become_targets(rows: Seq<AdapterRow>) -> (places: Seq<int>)
    ensures
        ({
            let targets = selected_targets(rows);
            &&& places.len() == targets.len()
            &&& forall|k: int|
                0 <= k < places.len() ==> {
                    let row = rows[#[trigger] places[k]];
                    &&& 0 <= places[k] < rows.len()
                    &&& row.selected
                    &&& targets[k].name == row.adapter.name
                    &&& targets[k].ip == row.adapter.ip
                    &&& row.weight >= 1 ==> targets[k].weight == row.weight
                    &&& row.weight == 0 ==> targets[k].weight == 1
                }
            &&& forall|k: int, l: int|
                0 <= k < l < places.len() ==> #[trigger] places[k] < #[trigger] places[l]
            &&& forall|i: int|
                0 <= i < rows.len() && (#[trigger] rows[i]).selected ==> exists|k: int|
                    0 <= k < places.len() && #[trigger] places[k] == i
        }),
    decreases rows.len(),
{
    reveal(Seq::filter);
    let keeps = |row: AdapterRow| row.selected;
    let make = |row: AdapterRow| target_of(row);
    let targets = selected_targets(rows);
    if rows.len() == 0 {
        assert(rows.filter(keeps) =~= Seq::empty());
        Seq::empty()
    } else {
        let front = rows.drop_last();
        let last = rows[rows.len() - 1];
        let before = law_selected_rows_become_targets(front);
        assert forall|k: int| 0 <= k < before.len() implies front[#[trigger] before[k]]
            == rows[before[k]] by {}
        if last.selected {
            assert(rows.filter(keeps) == front.filter(keeps).push(last));
            assert(targets =~= selected_targets(front).push(target_of(last)));
            let places = before.push(rows.len() - 1);
            assert forall|i: int| 0 <= i < rows.len() && (#[trigger] rows[i]).selected implies exists|
                k: int,
            |
                0 <= k < places.len() && #[trigger] places[k] == i by {
                if i < rows.len() - 1 {
                    assert(front[i] == rows[i]);
                    let k = choose|k: int| 0 <= k < before.len() && #[trigger] before[k] == i;
                    assert(places[k] == i);
                } else {
                    assert(places[before.len() as int] == i);
                }
            }
            assert forall|k: int| 0 <= k < places.len() implies {
                let row = rows[#[trigger] places[k]];
                &&& 0 <= places[k] < rows.len()
                &&& row.selected
                &&& targets[k].name == row.adapter.name
                &&& targets[k].ip == row.adapter.ip
                &&& row.weight >= 1 ==> targets[k].weight == row.weight
                &&& row.weight == 0 ==> targets[k].weight == 1
            } by {
                if k < before.len() {
                    assert(places[k] == before[k]);
                    assert(targets[k] == selected_targets(front)[k]);
                    assert(front[before[k]] == rows[before[k]]);
                }
            }
            assert forall|k: int, l: int| 0 <= k < l < places.len() implies #[trigger] places[k]
                < #[trigger] places[l] by {
                if l < before.len() {
                    assert(before[k] < before[l]);
                } else {
                    assert(places[k] == before[k]);
                    assert(0 <= before[k] < front.len());
                }
            }
            places
        } else {
            assert(rows.filter(keeps) == front.filter(keeps));
            assert(targets == selected_targets(front));
            assert forall|i: int| 0 <= i < rows.len() && (#[trigger] rows[i]).selected implies exists|
                k: int,
            |
                0 <= k < before.len() && #[trigger] before[k] == i by {
                assert(front[i] == rows[i]);
            }
            before
        }
    }
}

/// The proxy is started with what is set: it listens at the address and the port that were
/// entered, it relays datagrams exactly where that is ticked, its connections stick to their
/// destination, and it gets one target for each selected row.
pub proof fn law_settings_reach_the_proxy(app: NetCombinerApp, config: ProxyConfig)
    requires
        asks_for(app, config),
    ensures
        Some(config.listen_ip) == parsed_ip(trimmed(app.settings.listen_ip@)),
        Some(config.listen_port) == parsed_u16(trimmed(app.settings.listen_port@)),
        config.udp_enabled <==> app.settings.udp_enabled,
        config.egress_strategy is PerDestination,
        config.egress@.len() == app.adapters@.filter(|row: AdapterRow| row.selected).len(),
        forall|k: int|
            0 <= k < config.egress@.len() ==> exists|i: int|
                0 <= i < app.adapters@.len() && (#[trigger] app.adapters@[i]).selected
                    && app.adapters@[i].adapter.name == (#[trigger] config.egress@[k]).name
                    && app.adapters@[i].adapter.ip == config.egress@[k].ip && (
                app.adapters@[i].weight >= 1 ==> config.egress@[k].weight
                    == app.adapters@[i].weight),
{
    let places = law_selected_rows_become_targets(app.adapters@);
    assert forall|k: int| 0 <= k < config.egress@.len() implies exists|i: int|
        0 <= i < app.adapters@.len() && (#[trigger] app.adapters@[i]).selected
            && app.adapters@[i].adapter.name == (#[trigger] config.egress@[k]).name
            && app.adapters@[i].adapter.ip == config.egress@[k].ip && (app.adapters@[i].weight >= 1
            ==> config.egress@[k].weight == app.adapters@[i].weight) by {
        assert(app.adapters@[places[k]].selected);
    }
}

/// The sidecar is started with what is set: each switch says what it says, whatever the others
/// say, a path counts where one was entered, and each line of the ranges that holds something is
/// a range.
pub proof fn law_settings_reach_the_sidecar(app: NetCombinerApp, config: VpnConfig)
    requires
        asks_for_vpn(app, config),
    ensures
        config.setup_routes <==> app.settings.setup_routes,
        config.enable_ipv6 <==> app.settings.enable_ipv6,
        config.dns_strategy == app.settings.dns_strategy,
        config.tun2proxy_path is None <==> trimmed(app.settings.tun2proxy_path@).len() == 0,
        config.tun2proxy_path is Some ==> config.tun2proxy_path->0@ == trimmed(
            app.settings.tun2proxy_path@,
        ),
        texts(config.bypass@) == entries_of(app.settings.bypass_text@),
{
}

/// A line more is an entry more, without the white space around it, unless it holds nothing else;
/// the entries before it stay.
pub proof fn law_lines_are_entries(text: Seq<char>, line: Seq<char>)
    requires
        forall|i: int| 0 <= i < line.len() ==> #[trigger] line[i] != '\n',
    ensures
        trimmed(line).len() == 0 ==> entries_of(line).len() == 0 && entries_of(
            text.push('\n') + line,
        ) == entries_of(text),
        trimmed(line).len() > 0 ==> entries_of(line) == seq![trimmed(line)] && entries_of(
            text.push('\n') + line,
        ) == entries_of(text).push(trimmed(line)),
{
    crate::spelling::law_one_part_more(text, '\n', line);
    reveal(Seq::filter);
    let cut = |part: Seq<char>| trimmed(part);
    let keeps = |part: Seq<char>| part.len() > 0;
    let before = split_on(text, '\n').map_values(cut);
    let after = split_on(text.push('\n') + line, '\n').map_values(cut);
    assert(after =~= before.push(trimmed(line)));
    assert(after.drop_last() =~= before);
    let alone = split_on(line, '\n').map_values(cut);
    assert(alone =~= seq![trimmed(line)]);
    assert(alone.drop_last() =~= Seq::empty());
    assert(Seq::<Seq<char>>::empty().filter(keeps) =~= Seq::empty());
    assert(alone.filter(keeps) =~= if trimmed(line).len() > 0 {
        seq![trimmed(line)]
    } else {
        Seq::empty()
    });
}

/// Settings are refused with the first thing that is wrong: the address, then the port, then the
/// selection.
pub proof fn law_first_fault_is_told(app: NetCombinerApp)
    ensures
        parsed_ip(trimmed(app.settings.listen_ip@)) is None ==> config_fault(app) == Some(
            "invalid IP address syntax"@,
        ),
        parsed_ip(trimmed(app.settings.listen_ip@)) is Some && parsed_u16(
            trimmed(app.settings.listen_port@),
        ) is None ==> config_fault(app) == Some(
            number_fault(trimmed(app.settings.listen_port@))->0.words(),
        ),
        parsed_ip(trimmed(app.settings.listen_ip@)) is Some && parsed_u16(
            trimmed(app.settings.listen_port@),
        ) is Some && (forall|i: int|
            0 <= i < app.adapters@.len() ==> !(#[trigger] app.adapters@[i]).selected)
            ==> config_fault(app) == Some("select at least one adapter"@),
        parsed_ip(trimmed(app.settings.listen_ip@)) is Some && parsed_u16(
            trimmed(app.settings.listen_port@),
        ) is Some && (exists|i: int|
            0 <= i < app.adapters@.len() && (#[trigger] app.adapters@[i]).selected)
            ==> config_fault(app) is None,
{
    crate::text::law_fault_or_number(trimmed(app.settings.listen_port@));
    let places = law_selected_rows_become_targets(app.adapters@);
    let rows = app.adapters@;
    assert(selected_targets(rows).len() == app.selection());
    if app.selection() > 0 {
        assert(rows[places[0]].selected);
    }
    if exists|i: int| 0 <= i < rows.len() && (#[trigger] rows[i]).selected {
        let i = choose|i: int| 0 <= i < rows.len() && (#[trigger] rows[i]).selected;
        let k = choose|k: int| 0 <= k < places.len() && #[trigger] places[k] == i;
        assert(places.len() > 0);
    }
}

/// An adapter is shown without asking exactly where it is neither a loopback nor a link-local one,
/// whatever else is known of it.
pub proof fn law_shown_adapters(adapter: AdapterAddress)
    ensures
        adapter.is_loopback ==> !shown_by_default(adapter),
        adapter.is_link_local ==> !shown_by_default(adapter),
        !adapter.is_loopback && !adapter.is_link_local ==> shown_by_default(adapter),
{
}

/// A refresh lists exactly the adapters that were found, and takes back only the note that one
/// failed.
pub proof fn law_refresh_lists_what_was_found(
    rows: Seq<AdapterRow>,
    adapter: AdapterAddress,
    service: Service,
)
    ensures
        refreshed(rows, adapter).adapter == adapter,
        service.refreshed().proxy == service.proxy,
        service.refreshed().vpn == service.vpn,
        service.status == AppStatus::AdapterRefreshFailed ==> service.refreshed().status
            == AppStatus::Idle,
        service.status != AppStatus::AdapterRefreshFailed ==> service.refreshed() == service,
{
}

/// Stopping one service leaves the other one running, and what runs is what is shown.
pub proof fn law_services_are_stopped_one_by_one(service: Service)
    ensures
        !service.without_vpn().vpn,
        service.without_vpn().proxy == service.proxy,
        service.proxy ==> service.without_vpn().status == AppStatus::ProxyRunning,
        !service.proxy ==> service.without_vpn().status == service.status,
        !service.without_proxy().proxy,
        service.without_proxy().vpn == service.vpn,
        service.proxy ==> service.without_proxy().status == AppStatus::Idle,
        !service.proxy ==> service.without_proxy() == service,
        service.running() <==> service.proxy || service.vpn,
{
}

/// Quitting from the tray stops what runs and then closes the windows; no other action of the
/// tray stops or closes anything. The window is shown, restored and focused before.
pub proof fn law_actions_of_the_tray(event: TrayEvent, i: int)
    requires
        0 <= i < tray_commands(event).len(),
    ensures
        tray_commands(event).len() >= 4,
        tray_commands(event)[0] == WindowCommand::ShowMain,
        tray_commands(event)[1] == WindowCommand::RestoreMain,
        tray_commands(event)[2] == WindowCommand::FocusMain,
        tray_commands(event)[3] == WindowCommand::Repaint,
        event == TrayEvent::Quit ==> tray_commands(event).len() == 7 && tray_commands(event)[4]
            == WindowCommand::StopAll && tray_commands(event)[5] == WindowCommand::CloseMonitor
            && tray_commands(event)[6] == WindowCommand::CloseMain,
        event != TrayEvent::Quit ==> tray_commands(event).len() == 4,
{
}

/// A window that is closed goes to the tray exactly where that is wanted, the tray is there and
/// the application is not to be left.
pub proof fn law_closing_hides(windows: Windows)
    ensures
        windows.hides_on_close() ==> windows.close_to_tray && windows.tray_available
            && !windows.allow_exit,
        windows.close_to_tray && windows.tray_available && !windows.allow_exit
            ==> windows.hides_on_close(),
{
}

/// A message on updates tells the versions where one is available, the current one where none is,
/// and otherwise what became of the work.
pub proof fn law_messages_on_updates(info: UpdateInfo, text: String)
    ensures
        info.available ==> update_words(UpdateMessage::Check(Ok(info))) == "Update available: "@
            + info.current_version@ + " -> "@ + info.latest_version@,
        !info.available ==> update_words(UpdateMessage::Check(Ok(info))) == "Up to date: "@
            + info.current_version@,
        update_words(UpdateMessage::Check(Err(text))) == "Update check failed: "@ + text@,
        update_words(UpdateMessage::Install(Ok(text))) == "Update finished: "@ + text@
            + ". Restart the app."@,
        update_words(UpdateMessage::Install(Err(text))) == "Update failed: "@ + text@,
{
}

} // verus!
