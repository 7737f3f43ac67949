//! What the windows show: texts, and what colours are used for.

use vstd::prelude::*;

use crate::addr::{ip_text, push_ip};
use crate::display::{
    bytes_text, duration_text, format_bytes, format_duration, middle_trimmed, trim_middle,
};
use crate::gui::{AdapterRow, AppStatus, Mode, NetCombinerApp};
use crate::monitor::{ConnectionMonitorFilter, ConnectionRow};
use crate::proxy::Moment;
use crate::text::{decimal, decimal_text, push_decimal, same_text};
use crate::texts::Texts;
use crate::theme::Role;

verus! {

/// A label on a coloured ground.
#[derive(Debug)]
pub struct Pill {
    pub fill: Role,
    pub colour: Role,
    pub label: String,
}

fn pill(fill: Role, colour: Role, label: &str) -> (out: Pill)
    ensures
        out.fill == fill,
        out.colour == colour,
        out.label@ == label@,
{
    Pill { fill, colour, label: label.to_owned() }
}

/// A number and a word with a space between them.
pub open spec fn counted(count: nat, word: Seq<char>) -> Seq<char> {
    decimal(count) + " "@ + word
}

fn count_text(count: usize, word: &str) -> (text: String)
    ensures
        text@ == counted(count as nat, word@),
{
    let mut text: String = decimal_text(count as u64);
    text.append(" ");
    text.append(word);
    text
}

/// Two texts with a colon between them.
pub open spec fn labelled(label: Seq<char>, value: Seq<char>) -> Seq<char> {
    label + ": "@ + value
}

pub fn label_text(label: &str, value: &str) -> (text: String)
    ensures
        text@ == labelled(label@, value@),
{
    let mut text: String = label.to_owned();
    text.append(": ");
    text.append(value);
    text
}

// ---------------------------------------------------------------------
// Widgets
// ---------------------------------------------------------------------

/// The ground, the letters and the border of a small button.
pub fn pill_button_roles(active: bool) -> (roles: (Role, Role, Role))
    ensures
        roles == (if active {
            (Role::PrimarySoft, Role::Primary, Role::Primary)
        } else {
            (Role::SurfaceAlt, Role::Text, Role::Border)
        }),
{
    if active {
        (Role::PrimarySoft, Role::Primary, Role::Primary)
    } else {
        (Role::SurfaceAlt, Role::Text, Role::Border)
    }
}

/// The ground and the border of a card that can be chosen.
pub fn card_roles(chosen: bool) -> (roles: (Role, Role))
    ensures
        roles == (if chosen {
            (Role::PrimarySoft, Role::Primary)
        } else {
            (Role::SurfaceAlt, Role::Border)
        }),
{
    if chosen {
        (Role::PrimarySoft, Role::Primary)
    } else {
        (Role::SurfaceAlt, Role::Border)
    }
}

/// The ground and the letters of the label for the scope of an address.
pub open spec fn scope_colours(scope: Seq<char>) -> (Role, Role) {
    if scope == "public"@ {
        (Role::SuccessSoft, Role::Success)
    } else if scope == "private"@ {
        (Role::PrimarySoft, Role::Primary)
    } else if scope == "loopback"@ {
        (Role::SurfaceAlt, Role::TextMuted)
    } else {
        (Role::WarningSoft, Role::Warning)
    }
}

pub fn scope_pill(scope: &str) -> (out: Pill)
    ensures
        (out.fill, out.colour) == scope_colours(scope@),
        out.label@ == scope@,
{
    if same_text(scope, "public") {
        pill(Role::SuccessSoft, Role::Success, scope)
    } else if same_text(scope, "private") {
        pill(Role::PrimarySoft, Role::Primary, scope)
    } else if same_text(scope, "loopback") {
        pill(Role::SurfaceAlt, Role::TextMuted, scope)
    } else {
        pill(Role::WarningSoft, Role::Warning, scope)
    }
}

/// The label for what the application is doing.
pub fn status_pill(status: AppStatus, t: &Texts) -> (out: Pill)
    ensures
        match status {
            AppStatus::Idle => out.fill == Role::SurfaceAlt && out.colour == Role::TextMuted
                && out.label@ == t.status_idle@,
            AppStatus::ProxyRunning => out.fill == Role::SuccessSoft && out.colour
                == Role::Success && out.label@ == t.status_proxy_running@,
            AppStatus::VpnRunning => out.fill == Role::SuccessSoft && out.colour == Role::Success
                && out.label@ == t.status_vpn_running@,
            AppStatus::AdapterRefreshFailed => out.fill == Role::WarningSoft && out.colour
                == Role::Warning && out.label@ == t.status_adapter_failed@,
        },
{
    match status {
        AppStatus::Idle => pill(Role::SurfaceAlt, Role::TextMuted, t.status_idle),
        AppStatus::ProxyRunning => pill(Role::SuccessSoft, Role::Success, t.status_proxy_running),
        AppStatus::VpnRunning => pill(Role::SuccessSoft, Role::Success, t.status_vpn_running),
        AppStatus::AdapterRefreshFailed => pill(
            Role::WarningSoft,
            Role::Warning,
            t.status_adapter_failed,
        ),
    }
}

/// The colour of the sign that beats while something runs.
pub fn pulse_role(running: bool) -> (role: Role)
    ensures
        role == (if running {
            Role::Success
        } else {
            Role::TextMuted
        }),
{
    if running {
        Role::Success
    } else {
        Role::TextMuted
    }
}

/// How many lines the diagram joins: as many as adapters are selected, but two to four.
pub fn diagram_inputs(selected: usize) -> (count: usize)
    ensures
        count == (if selected < 2 {
            2
        } else if selected > 4 {
            4
        } else {
            selected
        }),
{
    if selected < 2 {
        2
    } else if selected > 4 {
        4
    } else {
        selected
    }
}

// ---------------------------------------------------------------------
// Steps
// ---------------------------------------------------------------------

/// The step that the user is at, counted from zero.
pub open spec fn step_of(app: NetCombinerApp) -> nat {
    if app.service.running() {
        4
    } else if app.selection() == 0 {
        1
    } else {
        2
    }
}

pub fn current_step(app: &NetCombinerApp) -> (step: usize)
    ensures
        step == step_of(*app),
{
    if app.service.is_running() {
        4
    } else if app.selected_count() == 0 {
        1
    } else {
        2
    }
}

/// The names of the steps.
pub fn step_labels(t: &Texts) -> (labels: [&'static str; 5])
    ensures
        labels@ == seq![
            t.step_label_intro,
            t.step_label_adapters,
            t.step_label_mode,
            t.step_label_settings,
            t.step_label_run,
        ],
{
    [
        t.step_label_intro,
        t.step_label_adapters,
        t.step_label_mode,
        t.step_label_settings,
        t.step_label_run,
    ]
}

/// A step in the row of steps.
#[derive(Debug)]
pub struct StepChip {
    pub fill: Role,
    pub colour: Role,
    /// The number of the step, or a tick where it is done.
    pub badge: String,
    /// The colour of the line to the next step.
    pub line: Role,
}

pub fn step_chip(index: usize, current: usize) -> (chip: StepChip)
    requires
        index < usize::MAX,
    ensures
        (chip.fill, chip.colour) == (if index == current {
            (Role::Primary, Role::White)
        } else if index < current {
            (Role::SuccessSoft, Role::Success)
        } else {
            (Role::SurfaceAlt, Role::TextMuted)
        }),
        chip.badge@ == (if index < current {
            "✓"@
        } else {
            decimal((index + 1) as nat)
        }),
        chip.line == (if index < current {
            Role::Primary
        } else {
            Role::Border
        }),
{
    let (fill, colour): (Role, Role) = if index == current {
        (Role::Primary, Role::White)
    } else if index < current {
        (Role::SuccessSoft, Role::Success)
    } else {
        (Role::SurfaceAlt, Role::TextMuted)
    };
    if index < current {
        StepChip { fill, colour, badge: "✓".to_owned(), line: Role::Primary }
    } else {
        StepChip { fill, colour, badge: decimal_text(index as u64 + 1), line: Role::Border }
    }
}

// ---------------------------------------------------------------------
// Adapters
// ---------------------------------------------------------------------

/// The line above the adapters: how many are selected.
pub fn selection_summary(selected: usize, t: &Texts) -> (text: String)
    ensures
        text@ == (if selected == 0 {
            t.adapters_none_selected@
        } else {
            counted(selected as nat, t.adapters_n_selected@)
        }),
{
    if selected == 0 {
        t.adapters_none_selected.to_owned()
    } else {
        count_text(selected, t.adapters_n_selected)
    }
}

/// The button that shows all adapters or only the usual ones.
pub fn show_all_label(show_all: bool, t: &Texts) -> (label: &'static str)
    ensures
        label == (if show_all {
            t.hide_extra
        } else {
            t.show_all
        }),
{
    if show_all {
        t.hide_extra
    } else {
        t.show_all
    }
}

/// The note on adapters that are not shown, if there are any.
pub fn hidden_note(hidden: usize, show_all: bool, t: &Texts) -> (note: Option<String>)
    ensures
        note is Some <==> hidden > 0 && !show_all,
        note matches Some(text) ==> text@ == "("@ + counted(hidden as nat, t.hidden_adapters_n@)
            + ")"@,
{
    if hidden > 0 && !show_all {
        let mut text: String = "(".to_owned();
        text.append(count_text(hidden, t.hidden_adapters_n).as_str());
        text.append(")");
        Some(text)
    } else {
        None
    }
}

/// The seconds from one moment to another; none where the other one comes first.
pub open spec fn seconds_between(from: Moment, to: Moment) -> nat {
    if to > from {
        ((to - from) / 1_000_000_000) as nat
    } else {
        0
    }
}

fn whole_seconds(from: Moment, to: Moment) -> (seconds: u64)
    ensures
        seconds == seconds_between(from, to),
{
    if to > from {
        (to - from) / 1_000_000_000
    } else {
        0
    }
}

/// The note on how long ago the adapters were looked up.
pub fn refreshed_note(last: Moment, now: Moment, t: &Texts) -> (text: String)
    ensures
        text@ == t.refreshed_ago@ + " "@ + decimal(seconds_between(last, now)) + "s"@,
{
    let mut text: String = t.refreshed_ago.to_owned();
    text.append(" ");
    push_decimal(&mut text, whole_seconds(last, now));
    text.append("s");
    text
}

/// The smallest weight that can be set for an adapter.
pub const MIN_WEIGHT: u16 = 1;

/// The largest weight that can be set for an adapter.
pub const MAX_WEIGHT: u16 = 100;

/// An adapter in the list of choices.
#[derive(Debug)]
pub struct AdapterCard {
    pub fill: Role,
    pub border: Role,
    pub name: String,
    pub address: String,
    pub scope: Pill,
    /// The words before the weight, which is shown for selected adapters.
    pub weight_prefix: Option<String>,
}

pub fn adapter_card(row: &AdapterRow, t: &Texts) -> (card: AdapterCard)
    ensures
        (card.fill, card.border) == (if row.selected {
            (Role::PrimarySoft, Role::Primary)
        } else {
            (Role::SurfaceAlt, Role::Border)
        }),
        card.name@ == middle_trimmed(row.adapter.name@, 24),
        card.address@ == ip_text(row.adapter.ip),
        (card.scope.fill, card.scope.colour) == scope_colours(row.adapter.scope()),
        card.scope.label@ == row.adapter.scope(),
        card.weight_prefix is Some <==> row.selected,
        card.weight_prefix matches Some(text) ==> text@ == t.weight@ + " "@,
{
    let (fill, border): (Role, Role) = card_roles(row.selected);
    let weight_prefix: Option<String> = if row.selected {
        let mut text: String = t.weight.to_owned();
        text.append(" ");
        Some(text)
    } else {
        None
    };
    AdapterCard {
        fill,
        border,
        name: trim_middle(row.adapter.name.as_str(), 24),
        address: row.adapter.ip.to_text(),
        scope: scope_pill(row.adapter.scope_label()),
        weight_prefix,
    }
}

/// Whether a click on a card counts: not where it hit the field for the weight.
pub fn card_clicked(clicked: bool, on_weight: bool) -> (counts: bool)
    ensures
        counts == (clicked && !on_weight),
{
    clicked && !on_weight
}

// ---------------------------------------------------------------------
// Modes and settings
// ---------------------------------------------------------------------

/// A mode in the list of choices.
#[derive(Debug, Clone, Copy)]
pub struct ModeCard {
    pub icon: &'static str,
    pub title: &'static str,
    pub body: &'static str,
    pub suited_for: &'static str,
    pub fill: Role,
    pub border: Role,
    /// The label on the chosen mode.
    pub tag: Option<&'static str>,
}

pub fn mode_card(mode: Mode, chosen: Mode, t: &Texts) -> (card: ModeCard)
    ensures
        match mode {
            Mode::Proxy => card.icon@ == "🔌"@ && card.title == t.mode_proxy_title && card.body
                == t.mode_proxy_body && card.suited_for == t.mode_proxy_for,
            Mode::Vpn => card.icon@ == "🛡"@ && card.title == t.mode_vpn_title && card.body
                == t.mode_vpn_body && card.suited_for == t.mode_vpn_for,
        },
        (card.fill, card.border) == (if mode == chosen {
            (Role::PrimarySoft, Role::Primary)
        } else {
            (Role::SurfaceAlt, Role::Border)
        }),
        card.tag is Some <==> mode == chosen,
        card.tag matches Some(tag) ==> tag@ == "✓ 선택됨"@,
{
    let active: bool = mode == chosen;
    let (fill, border): (Role, Role) = card_roles(active);
    let tag: Option<&'static str> = if active {
        Some("✓ 선택됨")
    } else {
        None
    };
    match mode {
        Mode::Proxy => ModeCard {
            icon: "🔌",
            title: t.mode_proxy_title,
            body: t.mode_proxy_body,
            suited_for: t.mode_proxy_for,
            fill,
            border,
            tag,
        },
        Mode::Vpn => ModeCard {
            icon: "🛡",
            title: t.mode_vpn_title,
            body: t.mode_vpn_body,
            suited_for: t.mode_vpn_for,
            fill,
            border,
            tag,
        },
    }
}

/// The title and the subtitle over the settings.
pub fn settings_titles(mode: Mode, t: &Texts) -> (titles: (&'static str, &'static str))
    ensures
        titles == (match mode {
            Mode::Proxy => (t.step4_proxy_title, t.step4_proxy_subtitle),
            Mode::Vpn => (t.step4_vpn_title, t.step4_vpn_subtitle),
        }),
{
    match mode {
        Mode::Proxy => (t.step4_proxy_title, t.step4_proxy_subtitle),
        Mode::Vpn => (t.step4_vpn_title, t.step4_vpn_subtitle),
    }
}

/// The button that shows or hides the advanced settings.
pub fn advanced_label(shown: bool, t: &Texts) -> (label: &'static str)
    ensures
        label == (if shown {
            t.hide_advanced
        } else {
            t.show_advanced
        }),
{
    if shown {
        t.hide_advanced
    } else {
        t.show_advanced
    }
}

// ---------------------------------------------------------------------
// Running
// ---------------------------------------------------------------------

/// The part of the window that starts and stops.
#[derive(Debug)]
pub struct RunPanel {
    pub title: String,
    pub detail: String,
    pub button: &'static str,
    /// Whether the button stops what runs.
    pub stops: bool,
    pub enabled: bool,
    pub warning: Option<&'static str>,
}

/// The title: what runs, or that nothing does.
pub open spec fn run_title(app: NetCombinerApp, t: Texts) -> Seq<char> {
    if app.service.running() {
        t.status_running@ + " / "@ + (match app.settings.mode {
            Mode::Proxy => t.mode_proxy_title@,
            Mode::Vpn => t.mode_vpn_title@,
        })
    } else {
        t.status_ready@
    }
}

/// The line below the title: where the proxy listens and through how many adapters traffic
/// leaves, or what is missing.
pub open spec fn run_detail(app: NetCombinerApp, t: Texts) -> Seq<char> {
    let endpoint = app.settings.listen_ip@ + ":"@ + app.settings.listen_port@;
    if app.service.running() {
        endpoint + "  /  "@ + counted(app.selection(), t.adapters_n_selected@)
    } else if app.selection() == 0 {
        t.run_help_no_adapter@
    } else {
        t.run_help_ready@ + "  /  "@ + endpoint
    }
}

pub fn run_panel(app: &NetCombinerApp, t: &Texts) -> (panel: RunPanel)
    ensures
        panel.title@ == run_title(*app, *t),
        panel.detail@ == run_detail(*app, *t),
        panel.stops == app.service.running(),
        panel.button == (if app.service.running() {
            t.stop
        } else {
            match app.settings.mode {
                Mode::Proxy => t.start_proxy,
                Mode::Vpn => t.start_vpn,
            }
        }),
        panel.enabled == (app.service.running() || app.selection() > 0),
        panel.warning == (if app.settings.mode == Mode::Vpn && !app.service.running() {
            Some(t.vpn_admin_warning)
        } else {
            None
        }),
{
    let running: bool = app.service.is_running();
    let selected: usize = app.selected_count();
    let mut endpoint: String = app.settings.listen_ip.clone();
    endpoint.append(":");
    endpoint.append(app.settings.listen_port.as_str());
    let title: String = if running {
        let mut text: String = t.status_running.to_owned();
        text.append(" / ");
        match app.settings.mode {
            Mode::Proxy => text.append(t.mode_proxy_title),
            Mode::Vpn => text.append(t.mode_vpn_title),
        }
        text
    } else {
        t.status_ready.to_owned()
    };
    let detail: String = if running {
        let mut text: String = endpoint;
        text.append("  /  ");
        text.append(count_text(selected, t.adapters_n_selected).as_str());
        text
    } else if selected == 0 {
        t.run_help_no_adapter.to_owned()
    } else {
        let mut text: String = t.run_help_ready.to_owned();
        text.append("  /  ");
        text.append(endpoint.as_str());
        text
    };
    let button: &'static str = if running {
        t.stop
    } else {
        match app.settings.mode {
            Mode::Proxy => t.start_proxy,
            Mode::Vpn => t.start_vpn,
        }
    };
    let warning: Option<&'static str> = if app.settings.mode == Mode::Vpn && !running {
        Some(t.vpn_admin_warning)
    } else {
        None
    };
    RunPanel { title, detail, button, stops: running, enabled: running || selected > 0, warning }
}

// ---------------------------------------------------------------------
// Connections
// ---------------------------------------------------------------------

/// The counts above the connections: the recent ones and the active ones.
pub fn connection_counts(recent: usize, active: usize, t: &Texts) -> (pills: (Pill, Pill))
    ensures
        pills.0.fill == Role::SurfaceAlt && pills.0.colour == Role::TextMuted,
        pills.0.label@ == counted(recent as nat, t.connections_recent@),
        pills.1.fill == Role::SuccessSoft && pills.1.colour == Role::Success,
        pills.1.label@ == counted(active as nat, t.connections_active@),
{
    (
        pill(
            Role::SurfaceAlt,
            Role::TextMuted,
            count_text(recent, t.connections_recent).as_str(),
        ),
        pill(
            Role::SuccessSoft,
            Role::Success,
            count_text(active, t.connections_active).as_str(),
        ),
    )
}

/// A button that picks the rows of the monitor.
#[derive(Debug)]
pub struct FilterButton {
    pub filter: ConnectionMonitorFilter,
    pub label: String,
    pub active: bool,
}

/// The word for a filter.
pub open spec fn filter_word(filter: ConnectionMonitorFilter, t: Texts) -> Seq<char> {
    match filter {
        ConnectionMonitorFilter::Active => t.connections_active@,
        ConnectionMonitorFilter::Recent => t.connections_recent@,
        ConnectionMonitorFilter::All => t.connections_all@,
    }
}

pub fn filter_button(
    filter: ConnectionMonitorFilter,
    count: usize,
    chosen: ConnectionMonitorFilter,
    t: &Texts,
) -> (button: FilterButton)
    ensures
        button.filter == filter,
        button.label@ == counted(count as nat, filter_word(filter, *t)),
        button.active == (filter == chosen),
{
    let word: &'static str = match filter {
        ConnectionMonitorFilter::Active => t.connections_active,
        ConnectionMonitorFilter::Recent => t.connections_recent,
        ConnectionMonitorFilter::All => t.connections_all,
    };
    FilterButton { filter, label: count_text(count, word), active: filter == chosen }
}

/// The word for the state of a connection and the colours it is shown in.
pub fn state_pill(row: &ConnectionRow, t: &Texts) -> (out: Pill)
    ensures
        (out.fill, out.colour) == (if row.closed_at is None {
            (Role::SuccessSoft, Role::Success)
        } else {
            (Role::SurfaceAlt, Role::TextMuted)
        }),
        out.label@ == (if row.closed_at is None {
            t.connections_active@
        } else {
            t.connections_recent@
        }),
{
    if row.closed_at.is_none() {
        pill(Role::SuccessSoft, Role::Success, t.connections_active)
    } else {
        pill(Role::SurfaceAlt, Role::TextMuted, t.connections_recent)
    }
}

/// How long a connection has lasted, in seconds: until it was closed, or until now.
pub open spec fn age_of(row: ConnectionRow, now: Moment) -> nat {
    seconds_between(
        row.opened_at,
        match row.closed_at {
            Some(at) => at,
            None => now,
        },
    )
}

fn age_text(row: &ConnectionRow, now: Moment) -> (text: String)
    ensures
        text@ == duration_text(age_of(*row, now)),
{
    let until: Moment = match row.closed_at {
        Some(at) => at,
        None => now,
    };
    format_duration(whole_seconds(row.opened_at, until))
}

/// A connection as the main window shows it.
#[derive(Debug)]
pub struct ConnectionCard {
    pub protocol: &'static str,
    pub state: Pill,
    pub target: String,
    pub adapter: String,
    pub client: String,
    pub age: String,
    pub bytes: Option<String>,
    pub reason: Option<String>,
}

/// The line on what a connection moved.
pub open spec fn moved_text(row: ConnectionRow, t: Texts) -> Seq<char> {
    labelled(
        t.connection_bytes@,
        bytes_text(row.up_bytes as nat) + " up / "@ + bytes_text(row.down_bytes as nat)
            + " down"@,
    )
}

pub fn connection_card(row: &ConnectionRow, now: Moment, t: &Texts) -> (card: ConnectionCard)
    ensures
        card.protocol@ == row.protocol.word(),
        card.state.label@ == (if row.closed_at is None {
            t.connections_active@
        } else {
            t.connections_recent@
        }),
        (card.state.fill, card.state.colour) == (if row.closed_at is None {
            (Role::SuccessSoft, Role::Success)
        } else {
            (Role::SurfaceAlt, Role::TextMuted)
        }),
        card.target@ == labelled(t.connection_target@, row.target@),
        card.adapter@ == labelled(
            t.connection_adapter@,
            row.egress_name@ + " ("@ + ip_text(row.egress_ip) + ")"@,
        ),
        card.client@ == labelled(t.connection_client@, row.client@),
        card.age@ == labelled(t.connection_age@, duration_text(age_of(*row, now))),
        card.bytes is Some <==> row.closed_at is Some || row.up_bytes > 0 || row.down_bytes > 0,
        card.bytes matches Some(text) ==> text@ == moved_text(*row, *t),
        card.reason is Some <==> row.closed_at is Some && row.reason@.len() > 0,
        card.reason matches Some(text) ==> text@ == row.reason@,
{
    let active: bool = row.closed_at.is_none();
    let mut egress: String = row.egress_name.clone();
    egress.append(" (");
    push_ip(&mut egress, row.egress_ip);
    egress.append(")");
    let bytes: Option<String> = if !active || row.up_bytes > 0 || row.down_bytes > 0 {
        let mut moved: String = format_bytes(row.up_bytes);
        moved.append(" up / ");
        moved.append(format_bytes(row.down_bytes).as_str());
        moved.append(" down");
        Some(label_text(t.connection_bytes, moved.as_str()))
    } else {
        None
    };
    let reason: Option<String> = if !active && !row.reason.as_str().is_empty() {
        Some(row.reason.clone())
    } else {
        None
    };
    ConnectionCard {
        protocol: row.protocol.label(),
        state: state_pill(row, t),
        target: label_text(t.connection_target, row.target.as_str()),
        adapter: label_text(t.connection_adapter, egress.as_str()),
        client: label_text(t.connection_client, row.client.as_str()),
        age: label_text(t.connection_age, age_text(row, now).as_str()),
        bytes,
        reason,
    }
}

/// The heads of the columns of the monitor.
pub fn table_headers(t: &Texts) -> (headers: [&'static str; 11])
    ensures
        headers@ == seq![
            t.column_id,
            t.column_state,
            t.column_proto,
            t.column_age,
            t.column_client,
            t.column_target,
            t.column_adapter,
            t.column_egress_ip,
            t.column_up,
            t.column_down,
            t.column_reason,
        ],
{
    [
        t.column_id,
        t.column_state,
        t.column_proto,
        t.column_age,
        t.column_client,
        t.column_target,
        t.column_adapter,
        t.column_egress_ip,
        t.column_up,
        t.column_down,
        t.column_reason,
    ]
}

/// A cell of the monitor.
#[derive(Debug)]
pub struct Cell {
    pub text: String,
    pub colour: Role,
}

fn cell(text: &str, colour: Role) -> (out: Cell)
    ensures
        out.text@ == text@,
        out.colour == colour,
{
    Cell { text: text.to_owned(), colour }
}

/// What a cell stands for.
pub open spec fn cell_is(out: Cell, text: Seq<char>, colour: Role) -> bool {
    out.text@ == text && out.colour == colour
}

/// The cells of a connection in the monitor, in the order of the columns.
pub fn table_row(row: &ConnectionRow, now: Moment, t: &Texts) -> (cells: Vec<Cell>)
    ensures
        cells@.len() == 11,
        cell_is(cells@[0], row.id@, Role::TextMuted),
        row.closed_at is None ==> cell_is(cells@[1], t.connections_active@, Role::Success),
        row.closed_at is Some ==> cell_is(cells@[1], t.connections_recent@, Role::TextMuted),
        cell_is(cells@[2], row.protocol.word(), Role::Primary),
        cell_is(cells@[3], duration_text(age_of(*row, now)), Role::TextMuted),
        cell_is(cells@[4], row.client@, Role::TextMuted),
        cell_is(cells@[5], row.target@, Role::Text),
        cell_is(cells@[6], row.egress_name@, Role::Text),
        cell_is(cells@[7], ip_text(row.egress_ip), Role::TextMuted),
        cell_is(cells@[8], bytes_text(row.up_bytes as nat), Role::TextMuted),
        cell_is(cells@[9], bytes_text(row.down_bytes as nat), Role::TextMuted),
        cell_is(cells@[10], row.reason@, Role::TextMuted),
{
    let mut cells: Vec<Cell> = Vec::new();
    let state: Pill = state_pill(row, t);
    cells.push(cell(row.id.as_str(), Role::TextMuted));
    cells.push(cell(state.label.as_str(), state.colour));
    cells.push(cell(row.protocol.label(), Role::Primary));
    cells.push(cell(age_text(row, now).as_str(), Role::TextMuted));
    cells.push(cell(row.client.as_str(), Role::TextMuted));
    cells.push(cell(row.target.as_str(), Role::Text));
    cells.push(cell(row.egress_name.as_str(), Role::Text));
    cells.push(cell(row.egress_ip.to_text().as_str(), Role::TextMuted));
    cells.push(cell(format_bytes(row.up_bytes).as_str(), Role::TextMuted));
    cells.push(cell(format_bytes(row.down_bytes).as_str(), Role::TextMuted));
    cells.push(cell(row.reason.as_str(), Role::TextMuted));
    cells
}

// ---------------------------------------------------------------------
// Options and log
// ---------------------------------------------------------------------

/// The line on the tray.
pub fn tray_status_line(available: bool, t: &Texts) -> (text: String)
    ensures
        text@ == labelled(
            t.tray_status@,
            if available {
                t.tray_available@
            } else {
                t.tray_unavailable@
            },
        ),
{
    if available {
        label_text(t.tray_status, t.tray_available)
    } else {
        label_text(t.tray_status, t.tray_unavailable)
    }
}

/// The button that opens and closes the log.
pub fn log_toggle(shown: bool, t: &Texts) -> (text: String)
    ensures
        text@ == (if shown {
            "▾"@
        } else {
            "▸"@
        }) + " "@ + t.logs_title@,
{
    let mut text: String = if shown {
        "▾".to_owned()
    } else {
        "▸".to_owned()
    };
    text.append(" ");
    text.append(t.logs_title);
    text
}

/// The number of lines behind that button.
pub fn log_count(lines: usize) -> (text: String)
    ensures
        text@ == "("@ + decimal(lines as nat) + ")"@,
{
    let mut text: String = "(".to_owned();
    push_decimal(&mut text, lines as u64);
    text.append(")");
    text
}

// ---------------------------------------------------------------------
// Laws
// ---------------------------------------------------------------------

/// A connection that is over does not age.
pub proof fn law_closed_connections_do_not_age(row: ConnectionRow, now: Moment, later: Moment)
    requires
        row.closed_at is Some,
    ensures
        age_of(row, now) == age_of(row, later),
{
}

/// The step tells the state: the last step means that something runs, the second one that no
/// adapter is selected, and the third one that nothing runs though adapters are selected.
pub proof fn law_step_tells_the_state(app: NetCombinerApp)
    ensures
        step_of(app) == 4 <==> app.service.running(),
        step_of(app) == 1 <==> !app.service.running() && app.selection() == 0,
        step_of(app) == 2 <==> !app.service.running() && app.selection() > 0,
{
}

/// The age is the number of whole seconds since a connection was opened: until it was closed, or
/// until now.
pub proof fn law_age(row: ConnectionRow, now: Moment, until: Moment)
    requires
        row.closed_at == Some(until) || (row.closed_at is None && until == now),
    ensures
        until >= row.opened_at ==> age_of(row, now) * 1_000_000_000 <= until - row.opened_at < (
        age_of(row, now) + 1) * 1_000_000_000,
        until < row.opened_at ==> age_of(row, now) == 0,
{
}

/// A number stands before its word, and a label before its value.
pub proof fn law_words_beside_values(count: nat, label: Seq<char>, value: Seq<char>)
    ensures
        counted(count, label) == decimal(count).push(' ') + label,
        labelled(label, value) == label.push(':').push(' ') + value,
{
    reveal_strlit(" ");
    reveal_strlit(": ");
    assert(counted(count, label) =~= decimal(count).push(' ') + label);
    assert(labelled(label, value) =~= label.push(':').push(' ') + value);
}

/// The scopes that an address can have are shown in four pairs of colours.
pub proof fn law_colours_of_the_scopes()
    ensures
        scope_colours("public"@) == (Role::SuccessSoft, Role::Success),
        scope_colours("private"@) == (Role::PrimarySoft, Role::Primary),
        scope_colours("loopback"@) == (Role::SurfaceAlt, Role::TextMuted),
        scope_colours("link-local"@) == (Role::WarningSoft, Role::Warning),
{
    reveal_strlit("public");
    reveal_strlit("private");
    reveal_strlit("loopback");
    reveal_strlit("link-local");
    assert("private"@.len() != "public"@.len());
    assert("loopback"@.len() != "public"@.len() && "loopback"@.len() != "private"@.len());
    assert("link-local"@.len() == 10 && "loopback"@.len() == 8);
}

/// The title tells the mode of what runs, and otherwise that all is ready.
pub proof fn law_title_of_the_panel(app: NetCombinerApp, t: Texts)
    ensures
        !app.service.proxy && !app.service.vpn ==> run_title(app, t) == t.status_ready@,
        (app.service.proxy || app.service.vpn) && app.settings.mode == Mode::Proxy ==> run_title(
            app,
            t,
        ) == t.status_running@ + " / "@ + t.mode_proxy_title@,
        (app.service.proxy || app.service.vpn) && app.settings.mode == Mode::Vpn ==> run_title(
            app,
            t,
        ) == t.status_running@ + " / "@ + t.mode_vpn_title@,
{
}

/// The line below tells the endpoint as it was entered, unless no adapter is selected and nothing
/// runs.
pub proof fn law_detail_of_the_panel(app: NetCombinerApp, t: Texts)
    ensures
        app.service.proxy || app.service.vpn ==> run_detail(app, t) == app.settings.listen_ip@
            + ":"@ + app.settings.listen_port@ + "  /  "@ + counted(
            app.selection(),
            t.adapters_n_selected@,
        ),
        !app.service.proxy && !app.service.vpn && app.selection() == 0 ==> run_detail(app, t)
            == t.run_help_no_adapter@,
        !app.service.proxy && !app.service.vpn && app.selection() > 0 ==> run_detail(app, t)
            == t.run_help_ready@ + "  /  "@ + app.settings.listen_ip@ + ":"@
            + app.settings.listen_port@,
{
    let endpoint = app.settings.listen_ip@ + ":"@ + app.settings.listen_port@;
    assert(t.run_help_ready@ + "  /  "@ + endpoint =~= t.run_help_ready@ + "  /  "@
        + app.settings.listen_ip@ + ":"@ + app.settings.listen_port@);
}

/// Each filter has the word of what it shows.
pub proof fn law_words_of_the_filters(t: Texts)
    ensures
        filter_word(ConnectionMonitorFilter::Active, t) == t.connections_active@,
        filter_word(ConnectionMonitorFilter::Recent, t) == t.connections_recent@,
        filter_word(ConnectionMonitorFilter::All, t) == t.connections_all@,
{
}

/// What was sent is told before what was received.
pub proof fn law_moved_bytes_are_told(row: ConnectionRow, t: Texts)
    ensures
        moved_text(row, t) == t.connection_bytes@ + ": "@ + bytes_text(row.up_bytes as nat)
            + " up / "@ + bytes_text(row.down_bytes as nat) + " down"@,
{
    assert(moved_text(row, t) =~= t.connection_bytes@ + ": "@ + bytes_text(row.up_bytes as nat)
        + " up / "@ + bytes_text(row.down_bytes as nat) + " down"@);
}

} // verus!
