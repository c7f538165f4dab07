//! What the screens show and which buttons they offer. Drawing them is the program's
//! affair.
use crate::catalog::{group_table, group_views, groups, spec_views, GroupView, Spec, SpecView};
use crate::chars::{chars_of, lines, lines_of, runs, same, text_of, texts};
use crate::config::{connectable, usual_key_path, Auth, AuthView, Config, ConfigView};
use crate::model::{
    bytes_text, human_bytes, ini_view, less, players_view, pm2_views, service_views, Metrics,
    MetricsView, Player, PlayerView, Pm2App, Pm2View, ServiceStatus, ServiceView, Share,
};
use crate::numbers::{decimal, decimal_text};
use crate::palworld::{copy_pairs, lookup, pairs, IniView, PalIni};
use crate::poll::{is_up, palworld_up};
use crate::shell::result_texts;
use crate::worker::{diff, diff_of, text_view, Conn, ConnState, Level};
use vstd::prelude::*;

verus! {

/// How a line is coloured.
#[derive(Debug, Clone, Copy, PartialEq, Eq, Structural)]
pub enum Tone {
    Good,
    Bad,
    Warn,
    Dim,
}

#[derive(Debug, Clone, Copy, PartialEq, Eq, Structural)]
pub enum Tab {
    Overview,
    Services,
    Palworld,
    Settings,
    Log,
}

/// A line and its colour.
#[derive(Debug)]
pub struct Line {
    pub tone: Tone,
    pub text: String,
}

pub struct LineView {
    pub tone: Tone,
    pub text: Seq<char>,
}

impl View for Line {
    type V = LineView;

    open spec fn view(&self) -> LineView {
        LineView { tone: self.tone, text: self.text@ }
    }
}

fn line(tone: Tone, text: &str) -> (r: Line)
    ensures
        r@ == (LineView { tone, text: text@ }),
{
    Line { tone, text: text.to_owned() }
}

/// The tab that is open at the start: the settings where no host is configured.
pub open spec fn first_tab_of(cfg: ConfigView) -> Tab {
    if connectable(cfg) {
        Tab::Overview
    } else {
        Tab::Settings
    }
}

/// The tab that is open at the start.
pub fn first_tab(cfg: &Config) -> (r: Tab)
    ensures
        r == first_tab_of(cfg@),
{
    if cfg.is_connectable() {
        Tab::Overview
    } else {
        Tab::Settings
    }
}

/// The first line of a text.
pub open spec fn first_line_of(s: Seq<char>) -> Seq<char> {
    if lines_of(s).len() > 0 {
        lines_of(s)[0]
    } else {
        s
    }
}

/// The first line of a text.
pub fn first_line(s: &str) -> (r: String)
    ensures
        r@ == first_line_of(s@),
{
    let all = chars_of(s);
    let cut = lines(all.as_slice());
    assert(lines_of(s@).len() == cut@.len());
    if cut.len() > 0 {
        assert(lines_of(s@)[0] == cut@[0]@);
        text_of(cut[0])
    } else {
        s.to_owned()
    }
}

/// The state of the session in the top bar.
pub open spec fn status_of(conn: ConnState) -> LineView {
    match conn {
        ConnState::Connected => LineView { tone: Tone::Good, text: "● 接続中"@ },
        ConnState::Connecting => LineView { tone: Tone::Warn, text: "◐ 接続しています…"@ },
        ConnState::Disconnected => LineView { tone: Tone::Dim, text: "○ 未接続"@ },
        ConnState::Failed(why) => LineView {
            tone: Tone::Bad,
            text: "● 失敗: "@ + first_line_of(why),
        },
    }
}

/// The state of the session in the top bar.
pub fn status(conn: &Conn) -> (r: Line)
    ensures
        r@ == status_of(conn@),
{
    match conn {
        Conn::Connected => line(Tone::Good, "● 接続中"),
        Conn::Connecting => line(Tone::Warn, "◐ 接続しています…"),
        Conn::Disconnected => line(Tone::Dim, "○ 未接続"),
        Conn::Failed(why) => {
            let mut text = "● 失敗: ".to_owned();
            text.append(first_line(why.as_str()).as_str());
            Line { tone: Tone::Bad, text }
        },
    }
}

/// What the top bar offers.
#[derive(Debug)]
pub enum BarItem {
    /// Nothing: something is in flight.
    Busy(String),
    Refresh,
    Connect,
    Nothing,
}

pub enum BarItemView {
    Busy(Seq<char>),
    Refresh,
    Connect,
    Nothing,
}

impl View for BarItem {
    type V = BarItemView;

    open spec fn view(&self) -> BarItemView {
        match self {
            BarItem::Busy(text) => BarItemView::Busy(text@),
            BarItem::Refresh => BarItemView::Refresh,
            BarItem::Connect => BarItemView::Connect,
            BarItem::Nothing => BarItemView::Nothing,
        }
    }
}

/// What the top bar offers: to refresh over a session, to connect where there is none
/// and a host is configured, and nothing while something is in flight.
pub open spec fn bar_item_of(
    conn: ConnState,
    busy: Option<Seq<char>>,
    cfg: ConfigView,
) -> BarItemView {
    match busy {
        Some(text) => BarItemView::Busy(text),
        None => if conn is Connected {
            BarItemView::Refresh
        } else if connectable(cfg) {
            BarItemView::Connect
        } else {
            BarItemView::Nothing
        },
    }
}

/// What the top bar offers.
pub fn bar_item(conn: &Conn, busy: &Option<String>, cfg: &Config) -> (r: BarItem)
    ensures
        r@ == bar_item_of(conn@, text_view(*busy), cfg@),
{
    match busy {
        Some(text) => BarItem::Busy(text.clone()),
        None => match conn {
            Conn::Connected => BarItem::Refresh,
            _ => if cfg.is_connectable() {
                BarItem::Connect
            } else {
                BarItem::Nothing
            },
        },
    }
}

// ---------------------------------------------------------------------------
// The overview
// ---------------------------------------------------------------------------
/// A part of a whole, with both in words.
#[derive(Debug)]
pub struct Gauge {
    pub label: &'static str,
    pub share: Share,
    pub detail: String,
}

pub struct GaugeView {
    pub label: Seq<char>,
    pub share: Share,
    pub detail: Seq<char>,
}

impl View for Gauge {
    type V = GaugeView;

    open spec fn view(&self) -> GaugeView {
        GaugeView { label: self.label@, share: self.share, detail: self.detail@ }
    }
}

pub open spec fn gauge_views(v: Seq<Gauge>) -> Seq<GaugeView> {
    v.map_values(|g: Gauge| g@)
}

/// A part of a whole, in bytes.
pub open spec fn gauge_of(label: Seq<char>, used: u64, total: u64) -> GaugeView {
    GaugeView {
        label,
        share: Share { used, total },
        detail: bytes_text(used as nat) + " / "@ + bytes_text(total as nat),
    }
}

/// The gauges beside that of the CPU. Swap is shown where there is any.
pub open spec fn gauges_of(m: MetricsView) -> Seq<GaugeView> {
    let always = seq![
        gauge_of("メモリ"@, less(m.mem_total, m.mem_available), m.mem_total),
        gauge_of("ディスク"@, m.disk_used, m.disk_total),
    ];
    if m.swap_total > 0 {
        always.push(gauge_of("スワップ"@, less(m.swap_total, m.swap_free), m.swap_total))
    } else {
        always
    }
}

fn gauge(label: &'static str, share: Share) -> (r: Gauge)
    ensures
        r@ == gauge_of(label@, share.used, share.total),
{
    let mut detail = human_bytes(share.used);
    detail.append(" / ");
    detail.append(human_bytes(share.total).as_str());
    Gauge { label, share, detail }
}

/// The gauges beside that of the CPU.
pub fn gauges(m: &Metrics) -> (r: Vec<Gauge>)
    ensures
        gauge_views(r@) == gauges_of(m@),
{
    let mut out = vec![
        gauge("メモリ", m.mem_percent()),
        gauge("ディスク", m.disk_percent()),
    ];
    if m.swap_total > 0 {
        out.push(gauge("スワップ", m.swap_percent()));
    }
    assert(gauge_views(out@) =~= gauges_of(m@));
    out
}

/// What stands in place of the host where there is no session.
pub open spec fn offline_lines_of(conn: ConnState) -> Seq<LineView> {
    let head = LineView { tone: Tone::Dim, text: "VPS に接続していません"@ };
    match conn {
        ConnState::Connected => Seq::empty(),
        ConnState::Failed(why) => seq![head, LineView { tone: Tone::Bad, text: why }],
        _ => seq![head],
    }
}

pub open spec fn line_views(v: Seq<Line>) -> Seq<LineView> {
    v.map_values(|l: Line| l@)
}

/// What stands in place of the host where there is no session; nothing where there is
/// one.
pub fn offline_lines(conn: &Conn) -> (r: Vec<Line>)
    ensures
        line_views(r@) == offline_lines_of(conn@),
        r@.len() == 0 <==> conn@ is Connected,
{
    let mut out: Vec<Line> = Vec::new();
    match conn {
        Conn::Connected => {},
        Conn::Failed(why) => {
            out.push(line(Tone::Dim, "VPS に接続していません"));
            out.push(line(Tone::Bad, why.as_str()));
        },
        _ => {
            out.push(line(Tone::Dim, "VPS に接続していません"));
        },
    }
    assert(line_views(out@) =~= offline_lines_of(conn@));
    out
}

/// The load averages, as they are printed, and the number of cores.
pub open spec fn load_text(
    one: Seq<char>,
    five: Seq<char>,
    fifteen: Seq<char>,
    cores: nat,
) -> Seq<char> {
    "load "@ + one + " / "@ + five + " / "@ + fifteen + "  ("@ + decimal(cores) + " コア)"@
}

/// The load averages, as they are printed, and the number of cores.
pub fn load_line(one: &str, five: &str, fifteen: &str, cores: usize) -> (r: String)
    ensures
        r@ == load_text(one@, five@, fifteen@, cores as nat),
{
    let mut text = "load ".to_owned();
    text.append(one);
    text.append(" / ");
    text.append(five);
    text.append(" / ");
    text.append(fifteen);
    text.append("  (");
    text.append(decimal_text(cores as u64).as_str());
    text.append(" コア)");
    text
}

// ---------------------------------------------------------------------------
// Units and apps
// ---------------------------------------------------------------------------
/// A dot for what runs, a ring for what does not.
pub fn mark(running: bool) -> (r: Line)
    ensures
        r@ == mark_of(running),
{
    if running {
        line(Tone::Good, "●")
    } else {
        line(Tone::Bad, "○")
    }
}

pub open spec fn mark_of(running: bool) -> LineView {
    if running {
        LineView { tone: Tone::Good, text: "●"@ }
    } else {
        LineView { tone: Tone::Bad, text: "○"@ }
    }
}

/// An app in the list.
#[derive(Debug)]
pub struct AppRow {
    pub mark: Line,
    pub name: String,
    /// CPU percentage: the bits of a double-precision number.
    pub cpu_bits: u64,
    pub memory: String,
    pub restarts: String,
}

pub struct AppRowView {
    pub mark: LineView,
    pub name: Seq<char>,
    pub cpu_bits: u64,
    pub memory: Seq<char>,
    pub restarts: Seq<char>,
}

impl View for AppRow {
    type V = AppRowView;

    open spec fn view(&self) -> AppRowView {
        AppRowView {
            mark: self.mark@,
            name: self.name@,
            cpu_bits: self.cpu_bits,
            memory: self.memory@,
            restarts: self.restarts@,
        }
    }
}

pub open spec fn app_row_views(v: Seq<AppRow>) -> Seq<AppRowView> {
    v.map_values(|x: AppRow| x@)
}

/// An app in the list.
pub open spec fn app_row_of(a: Pm2View) -> AppRowView {
    AppRowView {
        mark: mark_of(a.status == "online"@),
        name: a.name,
        cpu_bits: a.cpu_bits,
        memory: bytes_text(a.memory as nat),
        restarts: decimal(a.restarts as nat),
    }
}

/// The list of apps.
pub open spec fn app_rows_of(apps: Seq<Pm2View>) -> Seq<AppRowView> {
    apps.map_values(|a: Pm2View| app_row_of(a))
}

/// The list of apps.
pub fn app_rows(apps: &Vec<Pm2App>) -> (r: Vec<AppRow>)
    ensures
        app_row_views(r@) == app_rows_of(pm2_views(apps@)),
{
    let ghost want = app_rows_of(pm2_views(apps@));
    let mut out: Vec<AppRow> = Vec::new();
    let mut i: usize = 0;
    while i < apps.len()
        invariant
            i <= apps.len(),
            want == app_rows_of(pm2_views(apps@)),
            out@.len() == i,
            forall|j: int| 0 <= j < i ==> #[trigger] out@[j]@ == want[j],
        decreases apps.len() - i,
    {
        out.push(
            AppRow {
                mark: mark(apps[i].is_online()),
                name: apps[i].name.clone(),
                cpu_bits: apps[i].cpu_bits,
                memory: human_bytes(apps[i].memory),
                restarts: decimal_text(apps[i].restarts),
            },
        );
        i += 1;
    }
    assert(app_row_views(out@) =~= want);
    out
}

/// A unit in the list. Its buttons are disabled while something is in flight.
#[derive(Debug)]
pub struct UnitRow {
    pub mark: Line,
    pub name: String,
    pub state: String,
    pub enabled: bool,
}

pub struct UnitRowView {
    pub mark: LineView,
    pub name: Seq<char>,
    pub state: Seq<char>,
    pub enabled: bool,
}

impl View for UnitRow {
    type V = UnitRowView;

    open spec fn view(&self) -> UnitRowView {
        UnitRowView {
            mark: self.mark@,
            name: self.name@,
            state: self.state@,
            enabled: self.enabled,
        }
    }
}

pub open spec fn unit_row_views(v: Seq<UnitRow>) -> Seq<UnitRowView> {
    v.map_values(|x: UnitRow| x@)
}

/// A unit in the list.
pub open spec fn unit_row_of(s: ServiceView, busy: bool) -> UnitRowView {
    UnitRowView {
        mark: mark_of(s.state == "active"@),
        name: s.name,
        state: s.state,
        enabled: !busy,
    }
}

/// The list of units.
pub open spec fn unit_rows_of(services: Seq<ServiceView>, busy: bool) -> Seq<UnitRowView> {
    services.map_values(|s: ServiceView| unit_row_of(s, busy))
}

/// The list of units.
pub fn unit_rows(services: &Vec<ServiceStatus>, busy: bool) -> (r: Vec<UnitRow>)
    ensures
        unit_row_views(r@) == unit_rows_of(service_views(services@), busy),
{
    let ghost want = unit_rows_of(service_views(services@), busy);
    let mut out: Vec<UnitRow> = Vec::new();
    let mut i: usize = 0;
    while i < services.len()
        invariant
            i <= services.len(),
            want == unit_rows_of(service_views(services@), busy),
            out@.len() == i,
            forall|j: int| 0 <= j < i ==> #[trigger] out@[j]@ == want[j],
        decreases services.len() - i,
    {
        out.push(
            UnitRow {
                mark: mark(services[i].is_active()),
                name: services[i].name.clone(),
                state: services[i].state.clone(),
                enabled: !busy,
            },
        );
        i += 1;
    }
    assert(unit_row_views(out@) =~= want);
    out
}

/// What can be done with a unit.
pub open spec fn action_names() -> Seq<Seq<char>> {
    seq!["start"@, "stop"@, "restart"@]
}

/// What can be done with a unit.
pub fn unit_actions() -> (r: Vec<&'static str>)
    ensures
        r@.map_values(|s: &'static str| s@) == action_names(),
{
    let r = vec!["start", "stop", "restart"];
    assert(r@.map_values(|s: &'static str| s@) =~= seq!["start"@, "stop"@, "restart"@]);
    r
}

/// The colour of a line of the log.
pub open spec fn log_tone_of(level: Level) -> Tone {
    match level {
        Level::Info => Tone::Dim,
        Level::Success => Tone::Good,
        Level::Warn => Tone::Warn,
        Level::Error => Tone::Bad,
    }
}

/// The colour of a line of the log.
pub fn log_tone(level: Level) -> (r: Tone)
    ensures
        r == log_tone_of(level),
{
    match level {
        Level::Info => Tone::Dim,
        Level::Success => Tone::Good,
        Level::Warn => Tone::Warn,
        Level::Error => Tone::Bad,
    }
}

// ---------------------------------------------------------------------------
// Palworld
// ---------------------------------------------------------------------------
/// What the Palworld screen shows below the server and its players.
#[derive(Debug, Clone, Copy, PartialEq, Eq, Structural)]
pub enum PalworldPage {
    /// The integration is disabled: a notice, and nothing of the server either.
    Disabled,
    /// The settings file could not be read.
    Unreadable,
    /// There is nothing to edit yet.
    Nothing,
    Form,
}

/// What the Palworld screen shows.
pub open spec fn palworld_page_of(
    enabled: bool,
    ini: Option<IniView>,
    editor: EditorView,
) -> PalworldPage {
    if !enabled {
        PalworldPage::Disabled
    } else if ini is None {
        PalworldPage::Unreadable
    } else if editor.edit is None {
        PalworldPage::Nothing
    } else {
        PalworldPage::Form
    }
}

/// What the Palworld screen shows.
pub fn palworld_page(enabled: bool, ini: &Option<PalIni>, editor: &Editor) -> (r: PalworldPage)
    ensures
        r == palworld_page_of(enabled, ini_view(*ini), editor@),
{
    if !enabled {
        PalworldPage::Disabled
    } else if ini.is_none() {
        PalworldPage::Unreadable
    } else if editor.edit.is_none() {
        PalworldPage::Nothing
    } else {
        PalworldPage::Form
    }
}

/// Whether the server runs.
pub open spec fn server_line_of(services: Seq<ServiceView>, service: Seq<char>) -> LineView {
    if palworld_up(services, service) {
        LineView { tone: Tone::Good, text: "● 稼働中"@ }
    } else {
        LineView { tone: Tone::Bad, text: "○ 停止中"@ }
    }
}

/// Whether the server runs.
pub fn server_line(services: &Vec<ServiceStatus>, service: &str) -> (r: Line)
    ensures
        r@ == server_line_of(service_views(services@), service@),
{
    if is_up(services, service) {
        line(Tone::Good, "● 稼働中")
    } else {
        line(Tone::Bad, "○ 停止中")
    }
}

/// How many play.
pub open spec fn players_line_of(players: Option<Seq<PlayerView>>) -> LineView {
    match players {
        Some(p) => if p.len() == 0 {
            LineView {
                tone: Tone::Dim,
                text: "オンラインのプレイヤーはいません（今なら誰も切断せずに再起動できます）"@,
            }
        } else {
            LineView { tone: Tone::Warn, text: decimal(p.len()) + " 人がプレイ中"@ }
        },
        None => LineView {
            tone: Tone::Dim,
            text: "プレイヤー情報なし（サーバー停止中、または RCON コマンド未設定）"@,
        },
    }
}

/// How many play.
pub fn players_line(players: &Option<Vec<Player>>) -> (r: Line)
    ensures
        r@ == players_line_of(players_view(*players)),
{
    match players {
        Some(p) => if p.len() == 0 {
            line(
                Tone::Dim,
                "オンラインのプレイヤーはいません（今なら誰も切断せずに再起動できます）",
            )
        } else {
            let mut text = decimal_text(p.len() as u64);
            text.append(" 人がプレイ中");
            Line { tone: Tone::Warn, text }
        },
        None => line(
            Tone::Dim,
            "プレイヤー情報なし（サーバー停止中、または RCON コマンド未設定）",
        ),
    }
}

/// A setting in the form, and whether it was edited.
#[derive(Debug)]
pub struct FormRow {
    pub spec: Spec,
    pub dirty: bool,
}

#[derive(Debug)]
pub struct FormGroup {
    pub title: &'static str,
    pub rows: Vec<FormRow>,
}

pub struct RowShown {
    pub spec: SpecView,
    pub dirty: bool,
}

pub struct GroupShown {
    pub title: Seq<char>,
    pub rows: Seq<RowShown>,
}

impl View for FormRow {
    type V = RowShown;

    open spec fn view(&self) -> RowShown {
        RowShown { spec: self.spec@, dirty: self.dirty }
    }
}

pub open spec fn rows_shown(v: Seq<FormRow>) -> Seq<RowShown> {
    v.map_values(|x: FormRow| x@)
}

impl View for FormGroup {
    type V = GroupShown;

    open spec fn view(&self) -> GroupShown {
        GroupShown { title: self.title@, rows: rows_shown(self.rows@) }
    }
}

pub open spec fn groups_shown(v: Seq<FormGroup>) -> Seq<GroupShown> {
    v.map_values(|x: FormGroup| x@)
}

/// The key is among the changes.
pub open spec fn is_changed(changes: Seq<(Seq<char>, Seq<char>)>, key: Seq<char>) -> bool {
    exists|i: int| 0 <= i < changes.len() && (#[trigger] changes[i]).0 == key
}

/// The settings of a group that the file has. A key Palworld didn't write out isn't
/// editable here.
pub open spec fn form_rows(
    specs: Seq<SpecView>,
    options: Seq<(Seq<char>, Seq<char>)>,
    changes: Seq<(Seq<char>, Seq<char>)>,
) -> Seq<RowShown>
    decreases specs.len(),
{
    if specs.len() == 0 {
        Seq::empty()
    } else {
        let spec = specs[0];
        let rest = form_rows(specs.drop_first(), options, changes);
        if lookup(options, spec.key) is Some {
            seq![RowShown { spec, dirty: is_changed(changes, spec.key) }] + rest
        } else {
            rest
        }
    }
}

/// The form: every group with the settings that the file has.
pub open spec fn form_of(
    options: Seq<(Seq<char>, Seq<char>)>,
    changes: Seq<(Seq<char>, Seq<char>)>,
) -> Seq<GroupShown> {
    group_table().map_values(
        |g: GroupView|
            GroupShown { title: g.title, rows: form_rows(g.specs, options, changes) },
    )
}

/// Whether the key is among the changes.
pub fn changes_key(changes: &Vec<(String, String)>, key: &str) -> (r: bool)
    ensures
        r == is_changed(pairs(changes@), key@),
{
    let ghost all = pairs(changes@);
    let mut i: usize = 0;
    while i < changes.len()
        invariant
            i <= changes.len(),
            all == pairs(changes@),
            forall|j: int| 0 <= j < i ==> (#[trigger] all[j]).0 != key@,
        decreases changes.len() - i,
    {
        assert(all[i as int].0 == changes@[i as int].0@);
        if same(changes[i].0.as_str(), key) {
            return true;
        }
        i += 1;
    }
    false
}

fn rows_of_group(specs: Vec<Spec>, edit: &PalIni, changes: &Vec<(String, String)>) -> (r: Vec<
    FormRow,
>)
    ensures
        rows_shown(r@) == form_rows(spec_views(specs@), edit@.options, pairs(changes@)),
{
    let ghost want = form_rows(spec_views(specs@), edit@.options, pairs(changes@));
    let mut specs = specs;
    let mut out: Vec<FormRow> = Vec::new();
    assert(rows_shown(out@) + want =~= want);
    while specs.len() > 0
        invariant
            rows_shown(out@) + form_rows(spec_views(specs@), edit@.options, pairs(changes@)) == want,
        decreases specs@.len(),
    {
        let ghost all = spec_views(specs@);
        let ghost done = rows_shown(out@);
        let spec = specs.remove(0);
        assert(spec_views(specs@) =~= all.drop_first());
        if edit.get(spec.key).is_some() {
            let dirty = changes_key(changes, spec.key);
            let ghost one = RowShown { spec: spec@, dirty };
            let ghost rest = form_rows(all.drop_first(), edit@.options, pairs(changes@));
            out.push(FormRow { spec, dirty });
            assert(rows_shown(out@) =~= done.push(one));
            assert(done.push(one) + rest =~= done + (seq![one] + rest));
        }
    }
    assert(rows_shown(out@) =~= want);
    out
}

/// The form: every group with the settings that the file has, those that were edited
/// marked.
pub fn form(edit: &PalIni, changes: &Vec<(String, String)>) -> (r: Vec<FormGroup>)
    ensures
        groups_shown(r@) == form_of(edit@.options, pairs(changes@)),
{
    let ghost want = form_of(edit@.options, pairs(changes@));
    let ghost table = group_table();
    let mut left = groups();
    let mut out: Vec<FormGroup> = Vec::new();
    assert(table.skip(0) =~= table);
    assert(table.len() == left@.len());
    while left.len() > 0
        invariant
            out@.len() + left@.len() == table.len(),
            want == form_of(edit@.options, pairs(changes@)),
            table == group_table(),
            group_views(left@) == table.skip(out@.len() as int),
            forall|j: int| 0 <= j < out@.len() ==> #[trigger] out@[j]@ == want[j],
        decreases left@.len(),
    {
        let ghost n = out@.len() as int;
        let ghost before = group_views(left@);
        let group = left.remove(0);
        assert(before[0] == table[n]);
        assert(group@ == before[0]);
        assert(group_views(left@) =~= before.drop_first());
        assert(before.drop_first() =~= table.skip(n + 1));
        let rows = rows_of_group(group.specs, edit, changes);
        out.push(FormGroup { title: group.title, rows });
    }
    assert(groups_shown(out@) =~= want);
    out
}

/// What is below the form.
#[derive(Debug)]
pub struct ApplyBar {
    pub can_apply: bool,
    pub can_discard: bool,
    pub line: Line,
}

pub struct ApplyBarView {
    pub can_apply: bool,
    pub can_discard: bool,
    pub line: LineView,
}

impl View for ApplyBar {
    type V = ApplyBarView;

    open spec fn view(&self) -> ApplyBarView {
        ApplyBarView {
            can_apply: self.can_apply,
            can_discard: self.can_discard,
            line: self.line@,
        }
    }
}

/// What is below the form with so many edits: they can be applied unless something is in
/// flight, and discarded at any time.
pub open spec fn apply_bar_of(edits: nat, busy: bool) -> ApplyBarView {
    ApplyBarView {
        can_apply: !busy && edits > 0,
        can_discard: edits > 0,
        line: if edits > 0 {
            LineView { tone: Tone::Warn, text: decimal(edits) + " 件の変更"@ }
        } else {
            LineView { tone: Tone::Dim, text: "変更はありません"@ }
        },
    }
}

/// What is below the form.
pub fn apply_bar(changes: &Vec<(String, String)>, busy: bool) -> (r: ApplyBar)
    ensures
        r@ == apply_bar_of(changes@.len(), busy),
        r.can_apply == (!busy && changes@.len() > 0),
        r.can_discard == (changes@.len() > 0),
{
    if changes.len() > 0 {
        let mut text = decimal_text(changes.len() as u64);
        text.append(" 件の変更");
        ApplyBar { can_apply: !busy, can_discard: true, line: Line { tone: Tone::Warn, text } }
    } else {
        ApplyBar {
            can_apply: false,
            can_discard: false,
            line: line(Tone::Dim, "変更はありません"),
        }
    }
}

/// What the user is told before settings are applied: each change on a line.
pub open spec fn change_lines_of(changes: Seq<(Seq<char>, Seq<char>)>) -> Seq<Seq<char>> {
    changes.map_values(|c: (Seq<char>, Seq<char>)| "  "@ + c.0 + " = "@ + c.1)
}

/// Each change on a line.
pub fn change_lines(changes: &Vec<(String, String)>) -> (r: Vec<String>)
    ensures
        texts(r@) == change_lines_of(pairs(changes@)),
{
    let ghost want = change_lines_of(pairs(changes@));
    let mut out: Vec<String> = Vec::new();
    let mut i: usize = 0;
    while i < changes.len()
        invariant
            i <= changes.len(),
            want == change_lines_of(pairs(changes@)),
            out@.len() == i,
            forall|j: int| 0 <= j < i ==> #[trigger] out@[j]@ == want[j],
        decreases changes.len() - i,
    {
        let mut text = "  ".to_owned();
        text.append(changes[i].0.as_str());
        text.append(" = ");
        text.append(changes[i].1.as_str());
        assert(text@ =~= want[i as int]);
        out.push(text);
        i += 1;
    }
    assert(texts(out@) =~= want);
    out
}

/// Whom a restart would disconnect.
pub open spec fn restart_warning_of(players: Option<Seq<PlayerView>>) -> LineView {
    let online = match players {
        Some(p) => p.len(),
        None => 0,
    };
    if online > 0 {
        LineView {
            tone: Tone::Bad,
            text: "⚠ "@ + decimal(online)
                + " 人がプレイ中です。再起動すると全員が切断されます。"@,
        }
    } else {
        LineView {
            tone: Tone::Good,
            text: "オンラインのプレイヤーはいません。誰も切断されません。"@,
        }
    }
}

/// Whom a restart would disconnect.
pub fn restart_warning(players: &Option<Vec<Player>>) -> (r: Line)
    ensures
        r@ == restart_warning_of(players_view(*players)),
{
    let online: usize = match players {
        Some(p) => p.len(),
        None => 0,
    };
    if online > 0 {
        let mut text = "⚠ ".to_owned();
        text.append(decimal_text(online as u64).as_str());
        text.append(" 人がプレイ中です。再起動すると全員が切断されます。");
        Line { tone: Tone::Bad, text }
    } else {
        line(
            Tone::Good,
            "オンラインのプレイヤーはいません。誰も切断されません。",
        )
    }
}

// ---------------------------------------------------------------------------
// The editor
// ---------------------------------------------------------------------------
/// The copy of the server's settings that the user edits, and the changes that the user
/// is being asked about.
#[derive(Debug)]
pub struct Editor {
    /// Reseeded whenever the server's copy changes underneath.
    pub edit: Option<PalIni>,
    pub seen_revision: u64,
    pub confirm: Option<Vec<(String, String)>>,
}

pub struct EditorView {
    pub edit: Option<IniView>,
    pub seen_revision: u64,
    pub confirm: Option<Seq<(Seq<char>, Seq<char>)>>,
}

pub open spec fn changes_view(v: Option<Vec<(String, String)>>) -> Option<
    Seq<(Seq<char>, Seq<char>)>,
> {
    match v {
        Some(c) => Some(pairs(c@)),
        None => None,
    }
}

impl View for Editor {
    type V = EditorView;

    open spec fn view(&self) -> EditorView {
        EditorView {
            edit: ini_view(self.edit),
            seen_revision: self.seen_revision,
            confirm: changes_view(self.confirm),
        }
    }
}

/// The editor beside a server's copy of that revision.
pub open spec fn synced(editor: EditorView, revision: u64, ini: Option<IniView>) -> EditorView {
    if revision == editor.seen_revision {
        editor
    } else {
        EditorView { edit: ini, seen_revision: revision, ..editor }
    }
}

/// The editor with the server's copy again.
pub open spec fn discarded(editor: EditorView, ini: Option<IniView>) -> EditorView {
    EditorView { edit: ini, ..editor }
}

/// What was edited; nothing where there is no file to edit.
pub open spec fn edits_of(
    editor: EditorView,
    original: Seq<(Seq<char>, Seq<char>)>,
) -> Seq<(Seq<char>, Seq<char>)> {
    match editor.edit {
        Some(edit) => diff_of(original, edit.options),
        None => Seq::empty(),
    }
}

/// The editor while the user is asked about these changes.
pub open spec fn asked_about(
    editor: EditorView,
    changes: Seq<(Seq<char>, Seq<char>)>,
) -> EditorView {
    EditorView { confirm: Some(changes), ..editor }
}

/// The editor after an answer, and the changes to apply.
pub open spec fn answered(editor: EditorView, yes: bool) -> (
    EditorView,
    Option<Seq<(Seq<char>, Seq<char>)>>,
) {
    (
        EditorView { confirm: None, ..editor },
        if yes {
            editor.confirm
        } else {
            None
        },
    )
}

fn copy_ini(ini: &Option<PalIni>) -> (r: Option<PalIni>)
    ensures
        ini_view(r) == ini_view(*ini),
{
    match ini {
        Some(ini) => Some(ini.clone()),
        None => None,
    }
}

/// Before anything was seen of the server's settings.
pub open spec fn nothing_to_edit() -> EditorView {
    EditorView { edit: None, seen_revision: 0, confirm: None }
}

impl Editor {
    pub fn new() -> (r: Editor)
        ensures
            r@ == nothing_to_edit(),
    {
        Editor { edit: None, seen_revision: 0, confirm: None }
    }

    /// Reseeds the editable copy only when the server's copy actually changed, so a poll
    /// landing mid-drag doesn't yank the slider out of the user's hand.
    pub fn sync(&mut self, revision: u64, ini: &Option<PalIni>)
        ensures
            final(self)@ == synced(old(self)@, revision, ini_view(*ini)),
    {
        if revision != self.seen_revision {
            self.edit = copy_ini(ini);
            self.seen_revision = revision;
        }
    }

    /// Takes the server's copy again.
    pub fn discard(&mut self, ini: &Option<PalIni>)
        ensures
            final(self)@ == discarded(old(self)@, ini_view(*ini)),
    {
        self.edit = copy_ini(ini);
    }

    /// What was edited; nothing where there is no file to edit.
    pub fn changes(&self, original: &PalIni) -> (r: Vec<(String, String)>)
        ensures
            pairs(r@) == edits_of(self@, original@.options),
    {
        match &self.edit {
            Some(edit) => diff(original, edit),
            None => {
                let none: Vec<(String, String)> = Vec::new();
                assert(pairs(none@) =~= Seq::empty());
                none
            },
        }
    }

    /// Asks the user whether to apply these changes.
    pub fn ask(&mut self, changes: &Vec<(String, String)>)
        ensures
            final(self)@ == asked_about(old(self)@, pairs(changes@)),
    {
        self.confirm = Some(copy_pairs(changes));
    }

    /// The user has answered: the changes to apply, where the answer was yes.
    pub fn answer(&mut self, yes: bool) -> (r: Option<Vec<(String, String)>>)
        ensures
            (final(self)@, changes_view(r)) == answered(old(self)@, yes),
    {
        let mut asked = None;
        std::mem::swap(&mut asked, &mut self.confirm);
        if yes {
            asked
        } else {
            None
        }
    }
}

// ---------------------------------------------------------------------------
// The settings
// ---------------------------------------------------------------------------
/// A login by key: the one in use, or the usual one without a passphrase.
pub open spec fn is_by_key(before: AuthView, after: AuthView) -> bool {
    match before {
        AuthView::Key { .. } => after == before,
        AuthView::Password { .. } => after matches AuthView::Key { path, passphrase }
            && usual_key_path(path) && passphrase.len() == 0,
    }
}

/// Logs in with a key from now on; a key that is in use stays.
pub fn use_key(auth: &mut Auth)
    ensures
        is_by_key(old(auth)@, final(auth)@),
{
    let is_key = matches!(auth, Auth::Key { .. });
    if !is_key {
        *auth = Auth::default();
    }
}

/// A login by password: the one in use, or one to be filled in.
pub open spec fn by_password(auth: AuthView) -> AuthView {
    match auth {
        AuthView::Key { .. } => AuthView::Password { password: ""@ },
        AuthView::Password { .. } => auth,
    }
}

/// Logs in with a password from now on; one that is in use stays.
pub fn use_password(auth: &mut Auth)
    ensures
        final(auth)@ == by_password(old(auth)@),
{
    let is_key = matches!(auth, Auth::Key { .. });
    if is_key {
        *auth = Auth::Password { password: "".to_owned() };
    }
}

/// The units with another to watch, to be named.
pub open spec fn with_one_more(services: Seq<Seq<char>>) -> Seq<Seq<char>> {
    services.push(""@)
}

/// The units with one less to watch.
pub open spec fn with_one_less(services: Seq<Seq<char>>, i: int) -> Seq<Seq<char>> {
    services.remove(i)
}

/// Another unit to watch, to be named.
pub fn add_service(services: &mut Vec<String>)
    ensures
        texts(final(services)@) == with_one_more(texts(old(services)@)),
{
    let ghost before = texts(services@);
    services.push("".to_owned());
    assert(texts(services@) =~= before.push(""@));
}

/// One unit less to watch.
pub fn remove_service(services: &mut Vec<String>, i: usize)
    requires
        i < old(services)@.len(),
    ensures
        texts(final(services)@) == with_one_less(texts(old(services)@), i as int),
{
    let ghost before = texts(services@);
    let _ = services.remove(i);
    assert(texts(services@) =~= before.remove(i as int));
}

/// What saving the settings brings: a notice, and a new session where they were saved
/// and name a host.
#[derive(Debug)]
pub struct Saved {
    pub notice: String,
    pub connect: bool,
}

/// What saving the settings brings: the notice, and whether to connect. `saved` is where
/// they were saved, or why not.
pub open spec fn after_save_of(
    cfg: ConfigView,
    saved: Result<Seq<char>, Seq<char>>,
) -> (Seq<char>, bool) {
    match saved {
        Ok(path) => ("保存しました: "@ + path, connectable(cfg)),
        Err(why) => ("保存に失敗: "@ + why, false),
    }
}

/// What saving the settings brings. `saved` is where they were saved, or why not.
pub fn after_save(cfg: &Config, saved: Result<String, String>) -> (r: Saved)
    ensures
        (r.notice@, r.connect) == after_save_of(cfg@, result_texts(saved)),
{
    match saved {
        Ok(path) => {
            let mut notice = "保存しました: ".to_owned();
            notice.append(path.as_str());
            Saved { notice, connect: cfg.is_connectable() }
        },
        Err(why) => {
            let mut notice = "保存に失敗: ".to_owned();
            notice.append(why.as_str());
            Saved { notice, connect: false }
        },
    }
}

/// The notice for settings that cannot be read.
pub open spec fn load_notice_of(why: Seq<char>) -> Seq<char> {
    "設定の読み込みに失敗: "@ + why
}

/// The notice for settings that cannot be read.
pub fn load_notice(why: &str) -> (r: String)
    ensures
        r@ == load_notice_of(why@),
{
    let mut text = "設定の読み込みに失敗: ".to_owned();
    text.append(why);
    text
}

/// Which font draws Japanese.
pub open spec fn font_line_of(font: Option<Seq<char>>) -> Seq<char> {
    match font {
        Some(path) => "日本語フォント: "@ + path,
        None => "日本語フォントが見つかりません（日本語が □ で表示されます）"@,
    }
}

/// Which font draws Japanese.
pub fn font_line(font: &Option<String>) -> (r: String)
    ensures
        r@ == font_line_of(text_view(*font)),
{
    match font {
        Some(path) => {
            let mut text = "日本語フォント: ".to_owned();
            text.append(path.as_str());
            text
        },
        None => "日本語フォントが見つかりません（日本語が □ で表示されます）".to_owned(),
    }
}

} // verus!
