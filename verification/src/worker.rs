//! What the program does with the host: it connects, refreshes, acts on units and changes
//! settings, one thing at a time. The UI and the worker share the state; the session
//! itself is the program's, which performs what each step asks for.
use crate::apply::{
    awaits, first_move, next_step, ApplyRun, Do, DoView, Happened, HappenedView, Move, MoveView,
    StageView,
};
use crate::chars::{join, joined, same, texts};
use crate::config::{Config, ConfigView, PalworldView};
use crate::model::{
    ini_view, less, no_snapshot, Metrics, MetricsView, Sample, Share, Snapshot, SnapshotView,
};
use crate::numbers::is_digit;
use crate::palworld::{entries, lookup, pairs, PalIni};
use crate::poll::{poll_step, reply_fits, Asked, PollMove, PollRun, PollView};
use crate::report::METRICS_SCRIPT;
use crate::shell::{
    action_line, address, address_text, connect_failure, connect_failure_text, connect_plan,
    plan_for, run, service_action_command, strict_output, ConnectPlan, ConnectView, Reply,
};
use std::collections::VecDeque;
use vstd::prelude::*;

verus! {

/// How many samples the graphs show.
pub const HISTORY_LEN: usize = 240;

/// How many lines the log keeps.
pub const LOG_LEN: usize = 200;

// ---------------------------------------------------------------------------
// Types
// ---------------------------------------------------------------------------
/// What the user asks for.
#[derive(Debug)]
pub enum Cmd {
    Connect(Box<Config>),
    Disconnect,
    Refresh,
    Service { unit: String, action: String },
    ApplyPalworld(Vec<(String, String)>),
}

pub enum CmdView {
    Connect(ConfigView),
    Disconnect,
    Refresh,
    Service { unit: Seq<char>, action: Seq<char> },
    ApplyPalworld(Seq<(Seq<char>, Seq<char>)>),
}

impl View for Cmd {
    type V = CmdView;

    open spec fn view(&self) -> CmdView {
        match self {
            Cmd::Connect(cfg) => CmdView::Connect((**cfg)@),
            Cmd::Disconnect => CmdView::Disconnect,
            Cmd::Refresh => CmdView::Refresh,
            Cmd::Service { unit, action } => CmdView::Service { unit: unit@, action: action@ },
            Cmd::ApplyPalworld(changes) => CmdView::ApplyPalworld(pairs(changes@)),
        }
    }
}

/// The state of the session.
#[derive(Debug)]
pub enum Conn {
    Disconnected,
    Connecting,
    Connected,
    Failed(String),
}

pub enum ConnState {
    Disconnected,
    Connecting,
    Connected,
    Failed(Seq<char>),
}

impl View for Conn {
    type V = ConnState;

    open spec fn view(&self) -> ConnState {
        match self {
            Conn::Disconnected => ConnState::Disconnected,
            Conn::Connecting => ConnState::Connecting,
            Conn::Connected => ConnState::Connected,
            Conn::Failed(why) => ConnState::Failed(why@),
        }
    }
}

impl Default for Conn {
    fn default() -> (r: Self)
        ensures
            r@ == ConnState::Disconnected,
    {
        Conn::Disconnected
    }
}

impl Clone for Conn {
    fn clone(&self) -> (r: Self)
        ensures
            r@ == self@,
    {
        match self {
            Conn::Disconnected => Conn::Disconnected,
            Conn::Connecting => Conn::Connecting,
            Conn::Connected => Conn::Connected,
            Conn::Failed(why) => Conn::Failed(why.clone()),
        }
    }
}

impl PartialEq for Conn {
    fn eq(&self, other: &Conn) -> (r: bool) {
        match (self, other) {
            (Conn::Disconnected, Conn::Disconnected) => true,
            (Conn::Connecting, Conn::Connecting) => true,
            (Conn::Connected, Conn::Connected) => true,
            (Conn::Failed(a), Conn::Failed(b)) => same(a.as_str(), b.as_str()),
            _ => false,
        }
    }
}

impl vstd::std_specs::cmp::PartialEqSpecImpl for Conn {
    open spec fn obeys_eq_spec() -> bool {
        true
    }

    open spec fn eq_spec(&self, other: &Conn) -> bool {
        self@ == other@
    }
}

/// How much a line of the log matters.
#[derive(Debug, Clone, Copy, PartialEq, Eq, Structural)]
pub enum Level {
    Info,
    Success,
    Warn,
    Error,
}

/// A line of the log.
#[derive(Debug)]
pub struct LogEntry {
    pub at: String,
    pub level: Level,
    pub text: String,
}

pub struct LogView {
    pub at: Seq<char>,
    pub level: Level,
    pub text: Seq<char>,
}

impl View for LogEntry {
    type V = LogView;

    open spec fn view(&self) -> LogView {
        LogView { at: self.at@, level: self.level, text: self.text@ }
    }
}

impl Clone for LogEntry {
    fn clone(&self) -> (r: Self)
        ensures
            r@ == self@,
    {
        LogEntry { at: self.at.clone(), level: self.level, text: self.text.clone() }
    }
}

pub open spec fn log_views(v: Seq<LogEntry>) -> Seq<LogView> {
    v.map_values(|e: LogEntry| e@)
}

/// What the UI shows.
#[derive(Debug)]
pub struct Shared {
    pub conn: Conn,
    pub snap: Snapshot,
    pub history: VecDeque<Sample>,
    /// Set while a mutating operation is in flight; the UI disables its buttons.
    pub busy: Option<String>,
    pub log: VecDeque<LogEntry>,
    /// Bumped whenever a fresh Palworld ini lands, so the UI knows to reseed the
    /// editable copy instead of clobbering what the user is currently dragging.
    pub pal_revision: u64,
}

pub struct SharedView {
    pub conn: ConnState,
    pub snap: SnapshotView,
    pub history: Seq<Sample>,
    pub busy: Option<Seq<char>>,
    pub log: Seq<LogView>,
    pub pal_revision: u64,
}

pub open spec fn text_view(s: Option<String>) -> Option<Seq<char>> {
    match s {
        Some(s) => Some(s@),
        None => None,
    }
}

impl View for Shared {
    type V = SharedView;

    open spec fn view(&self) -> SharedView {
        SharedView {
            conn: self.conn@,
            snap: self.snap@,
            history: self.history@,
            busy: text_view(self.busy),
            log: log_views(self.log@),
            pal_revision: self.pal_revision,
        }
    }
}

/// Before anything has happened.
pub open spec fn at_start() -> SharedView {
    SharedView {
        conn: ConnState::Disconnected,
        snap: no_snapshot(),
        history: Seq::empty(),
        busy: None,
        log: Seq::empty(),
        pal_revision: 0,
    }
}

impl Default for Shared {
    fn default() -> (r: Self)
        ensures
            r@ == at_start(),
    {
        let r = Shared {
            conn: Conn::default(),
            snap: Snapshot::default(),
            history: VecDeque::new(),
            busy: None,
            log: VecDeque::new(),
            pal_revision: 0,
        };
        assert(r@.log =~= Seq::empty());
        r
    }
}

// ---------------------------------------------------------------------------
// The log
// ---------------------------------------------------------------------------
/// The last `n` items, or all where there are no more.
pub open spec fn newest<A>(s: Seq<A>, n: nat) -> Seq<A> {
    if s.len() > n {
        s.skip(s.len() - n)
    } else {
        s
    }
}

/// Two digits at `i` that make no more than `max`.
pub open spec fn two_digits(s: Seq<char>, i: int, max: int) -> bool {
    &&& is_digit(s[i])
    &&& is_digit(s[i + 1])
    &&& 10 * (s[i] as int - '0' as int) + (s[i + 1] as int - '0' as int) <= max
}

/// A time of day, `HH:MM:SS`.
pub open spec fn is_clock(s: Seq<char>) -> bool {
    &&& s.len() == 8
    &&& two_digits(s, 0, 23)
    &&& s[2] == ':'
    &&& two_digits(s, 3, 59)
    &&& s[5] == ':'
    &&& two_digits(s, 6, 60)
}

/// `chrono::Local::now`, written by `format` as `%H:%M:%S`: hours to 23, minutes to 59
/// and seconds to 60, of two digits each. Which time it is depends on the clock and the
/// time zone of the machine.
#[verifier::external_body]
fn clock() -> (r: String)
    ensures
        is_clock(r@),
{
    chrono::Local::now().format("%H:%M:%S").to_string()
}

/// The log with one more line, written at some time of the day.
pub open spec fn logged(
    before: Seq<LogView>,
    after: Seq<LogView>,
    level: Level,
    text: Seq<char>,
) -> bool {
    exists|at: Seq<char>|
        #[trigger] is_clock(at) && after == newest(
            before.push(LogView { at, level, text }),
            LOG_LEN as nat,
        )
}

impl Shared {
    /// Adds a line to the log, dropping the oldest where there are too many.
    pub fn push_entry(&mut self, at: String, level: Level, text: String)
        ensures
            final(self)@ == (SharedView {
                log: newest(
                    old(self)@.log.push(LogView { at: at@, level, text: text@ }),
                    LOG_LEN as nat,
                ),
                ..old(self)@
            }),
    {
        let ghost before = self@.log;
        let ghost all = before.push(LogView { at: at@, level, text: text@ });
        self.log.push_back(LogEntry { at, level, text });
        assert(self@.log =~= all);
        assert(newest(self@.log, LOG_LEN as nat) == newest(all, LOG_LEN as nat));
        while self.log.len() > LOG_LEN
            invariant
                newest(self@.log, LOG_LEN as nat) == newest(all, LOG_LEN as nat),
                self@ == (SharedView { log: self@.log, ..old(self)@ }),
            decreases self.log@.len(),
        {
            let ghost now = self@.log;
            self.pop_oldest_log();
            assert(newest(now, LOG_LEN as nat) =~= newest(self@.log, LOG_LEN as nat));
        }
    }

    fn pop_oldest_log(&mut self)
        requires
            old(self).log@.len() > 0,
        ensures
            final(self)@ == (SharedView { log: old(self)@.log.drop_first(), ..old(self)@ }),
            final(self).log@.len() == old(self).log@.len() - 1,
    {
        let _ = self.log.pop_front();
        assert(self@.log =~= old(self)@.log.drop_first());
    }

    /// Adds a line to the log, with the time of day.
    pub fn push_log(&mut self, level: Level, text: String)
        ensures
            logged(old(self)@.log, final(self)@.log, level, text@),
            final(self)@ == (SharedView { log: final(self)@.log, ..old(self)@ }),
    {
        let at = clock();
        assert(is_clock(at@));
        self.push_entry(at, level, text);
    }

    /// Adds a sample to the history, dropping the oldest where there are too many.
    pub fn push_sample(&mut self, sample: Sample)
        ensures
            final(self)@ == (SharedView {
                history: newest(old(self)@.history.push(sample), HISTORY_LEN as nat),
                ..old(self)@
            }),
    {
        let ghost all = self@.history.push(sample);
        self.history.push_back(sample);
        while self.history.len() > HISTORY_LEN
            invariant
                newest(self@.history, HISTORY_LEN as nat) == newest(all, HISTORY_LEN as nat),
                self@ == (SharedView { history: self@.history, ..old(self)@ }),
            decreases self.history@.len(),
        {
            let ghost now = self@.history;
            let _ = self.history.pop_front();
            assert(newest(now, HISTORY_LEN as nat) =~= newest(self@.history, HISTORY_LEN as nat));
        }
    }
}

// ---------------------------------------------------------------------------
// What follows on what
// ---------------------------------------------------------------------------
/// What the worker is in the middle of.
pub enum TaskView {
    Idle,
    /// A session is being opened.
    Connecting(ConfigView),
    /// The host is being read.
    Polling(Asked, SnapshotView),
    /// A unit is being started, stopped or restarted.
    Acting(Seq<char>, Seq<char>),
    /// Settings are being changed.
    Applying(PalworldView, Seq<(Seq<char>, Seq<char>)>, StageView),
}

pub struct WorkerView {
    /// There is a session.
    pub linked: bool,
    /// The configuration that the last session was opened with.
    pub cfg: Option<ConfigView>,
    /// The session was given up because the host could not be read: the next tick opens
    /// another.
    pub retry: bool,
    pub task: TaskView,
}

/// What happens to the worker.
pub enum EventView {
    Cmd(CmdView),
    Tick,
    Connected,
    ConnectFailed(Seq<char>),
    Happened(HappenedView),
}

/// What the program is to do next.
pub enum ActionView {
    /// Wait for the next command or tick.
    Wait,
    /// Open a session. Where there is a number, ticks come that many seconds apart
    /// from now on.
    Connect(ConnectView, Option<u64>),
    /// Run a command.
    Run(Seq<char>),
    /// Wait for a second.
    Sleep,
}

/// What an event brings: the worker and the shared state after it, a line for the log,
/// and what to do next.
pub struct Effect {
    pub worker: WorkerView,
    pub shared: SharedView,
    pub note: Option<(Level, Seq<char>)>,
    pub action: ActionView,
}

/// Nothing.
pub open spec fn nothing(worker: WorkerView, shared: SharedView) -> Effect {
    Effect {
        worker: WorkerView { task: TaskView::Idle, ..worker },
        shared,
        note: None,
        action: ActionView::Wait,
    }
}

/// The host is read next, where there is a session.
pub open spec fn then_poll(e: Effect) -> Effect {
    if e.worker.linked && e.worker.cfg is Some {
        Effect {
            worker: WorkerView {
                task: TaskView::Polling(Asked::Metrics, no_snapshot()),
                ..e.worker
            },
            action: ActionView::Run(METRICS_SCRIPT@),
            ..e
        }
    } else {
        Effect {
            worker: WorkerView { task: TaskView::Idle, ..e.worker },
            action: ActionView::Wait,
            ..e
        }
    }
}

/// A session is opened next.
pub open spec fn then_connect(e: Effect, cfg: ConfigView, every: Option<u64>) -> Effect {
    Effect {
        worker: WorkerView { retry: false, task: TaskView::Connecting(cfg), ..e.worker },
        shared: SharedView { conn: ConnState::Connecting, ..e.shared },
        note: Some(
            (Level::Info, address(cfg.ssh.user, cfg.ssh.host) + " に接続しています…"@),
        ),
        action: ActionView::Connect(plan_for(cfg), every),
    }
}

/// `n`, but no less than `low` and no more than `high`.
pub open spec fn clamped(n: u64, low: u64, high: u64) -> u64 {
    if n < low {
        low
    } else if n > high {
        high
    } else {
        n
    }
}

/// The memory in use.
pub open spec fn mem_share(m: MetricsView) -> Share {
    Share { used: less(m.mem_total, m.mem_available), total: m.mem_total }
}

/// A refresh is over: its snapshot is shown, a sample joins the history, and a settings
/// file that differs from the one before is a new revision.
pub open spec fn polled(e: Effect, snap: SnapshotView, secs: u64, nanos: u32) -> Effect {
    let sample = Sample {
        secs,
        nanos,
        cpu: snap.metrics.cpu,
        mem: mem_share(snap.metrics),
    };
    Effect {
        worker: WorkerView { task: TaskView::Idle, ..e.worker },
        shared: SharedView {
            snap,
            history: newest(e.shared.history.push(sample), HISTORY_LEN as nat),
            pal_revision: if snap.palworld_ini != e.shared.snap.palworld_ini {
                (e.shared.pal_revision + 1) as u64
            } else {
                e.shared.pal_revision
            },
            ..e.shared
        },
        action: ActionView::Wait,
        ..e
    }
}

/// The host cannot be read. That drops the session, so the next tick reconnects rather
/// than hammering a dead socket.
pub open spec fn poll_failed(e: Effect, why: Seq<char>) -> Effect {
    Effect {
        worker: WorkerView { linked: false, retry: true, task: TaskView::Idle, ..e.worker },
        shared: SharedView { conn: ConnState::Failed(why), ..e.shared },
        note: Some((Level::Error, "取得に失敗しました: "@ + why)),
        action: ActionView::Wait,
    }
}

/// A refresh goes on.
pub open spec fn poll_goes_on(e: Effect, step: PollView, secs: u64, nanos: u32) -> Effect {
    match step {
        PollView::Ask(asked, snap, cmd) => Effect {
            worker: WorkerView { task: TaskView::Polling(asked, snap), ..e.worker },
            action: ActionView::Run(cmd),
            ..e
        },
        PollView::Done(snap) => polled(e, snap, secs, nanos),
        PollView::Failed(why) => poll_failed(e, why),
    }
}

/// A change of settings goes on. Where it is over, the host is read again.
pub open spec fn apply_goes_on(
    e: Effect,
    pal: PalworldView,
    changes: Seq<(Seq<char>, Seq<char>)>,
    stage: StageView,
    step: MoveView,
) -> Effect {
    let busy = match step.progress {
        Some(text) => Some(text),
        None => e.shared.busy,
    };
    let task = TaskView::Applying(pal, changes, stage);
    match step.next {
        DoView::Run(cmd) => Effect {
            worker: WorkerView { task, ..e.worker },
            shared: SharedView { busy, ..e.shared },
            action: ActionView::Run(cmd),
            ..e
        },
        DoView::Sleep => Effect {
            worker: WorkerView { task, ..e.worker },
            shared: SharedView { busy, ..e.shared },
            action: ActionView::Sleep,
            ..e
        },
        DoView::Finish(Ok(ini)) => then_poll(
            Effect {
                shared: SharedView {
                    busy: None,
                    snap: SnapshotView { palworld_ini: Some(ini), ..e.shared.snap },
                    pal_revision: (e.shared.pal_revision + 1) as u64,
                    ..e.shared
                },
                note: Some((Level::Success, "適用してサーバーを再起動しました"@)),
                ..e
            },
        ),
        DoView::Finish(Err(why)) => then_poll(
            Effect {
                shared: SharedView { busy: None, ..e.shared },
                note: Some((Level::Error, "適用に失敗しました: "@ + why)),
                ..e
            },
        ),
    }
}

/// What a command brings.
pub open spec fn on_command(e: Effect, cmd: CmdView) -> Effect {
    match cmd {
        CmdView::Connect(cfg) => then_connect(
            e,
            cfg,
            Some(clamped(cfg.poll_interval_secs, 1, 300)),
        ),
        CmdView::Disconnect => Effect {
            worker: WorkerView { linked: false, retry: false, ..e.worker },
            shared: SharedView { conn: ConnState::Disconnected, snap: no_snapshot(), ..e.shared },
            note: Some((Level::Info, "切断しました"@)),
            ..e
        },
        CmdView::Refresh => then_poll(e),
        CmdView::Service { unit, action } => if e.worker.linked && e.worker.cfg is Some {
            Effect {
                worker: WorkerView { task: TaskView::Acting(unit, action), ..e.worker },
                shared: SharedView {
                    busy: Some(unit + " を "@ + action + " しています…"@),
                    ..e.shared
                },
                action: ActionView::Run(
                    action_line(unit, action, e.worker.cfg->Some_0.palworld.sudo),
                ),
                ..e
            }
        } else {
            e
        },
        CmdView::ApplyPalworld(changes) => if e.worker.linked && e.worker.cfg is Some {
            let pal = e.worker.cfg->Some_0.palworld;
            apply_goes_on(
                Effect {
                    note: Some(
                        (
                            Level::Warn,
                            "Palworld 設定を適用します: "@ + joined(entries(changes), ", "@),
                        ),
                    ),
                    ..e
                },
                pal,
                changes,
                StageView::Save,
                first_move(pal),
            )
        } else {
            e
        },
    }
}

/// What a tick brings. Nothing on top of a stop→edit→start that's mid-flight.
pub open spec fn on_tick(e: Effect) -> Effect {
    if e.shared.busy is Some {
        e
    } else if e.worker.linked {
        then_poll(e)
    } else if e.worker.retry && e.worker.cfg is Some {
        then_connect(e, e.worker.cfg->Some_0, None)
    } else {
        e
    }
}

/// A unit was acted on, or not; the host is read again.
pub open spec fn acted(
    e: Effect,
    unit: Seq<char>,
    action: Seq<char>,
    outcome: Result<Seq<char>, Seq<char>>,
) -> Effect {
    then_poll(
        Effect {
            shared: SharedView { busy: None, ..e.shared },
            note: Some(
                match outcome {
                    Ok(_) => (Level::Success, unit + ": "@ + action + " を実行しました"@),
                    Err(why) => (Level::Error, unit + ": "@ + action + " に失敗 — "@ + why),
                },
            ),
            ..e
        },
    )
}

/// What an event brings, `secs` seconds and `nanos` nanoseconds after the start.
pub open spec fn effect_of(
    worker: WorkerView,
    shared: SharedView,
    event: EventView,
    secs: u64,
    nanos: u32,
) -> Effect {
    let e = nothing(worker, shared);
    match (worker.task, event) {
        (TaskView::Idle, EventView::Cmd(cmd)) => on_command(e, cmd),
        (TaskView::Idle, EventView::Tick) => on_tick(e),
        (TaskView::Connecting(cfg), EventView::Connected) => then_poll(
            Effect {
                worker: WorkerView { linked: true, cfg: Some(cfg), ..e.worker },
                shared: SharedView { conn: ConnState::Connected, ..e.shared },
                note: Some((Level::Success, "接続しました"@)),
                ..e
            },
        ),
        (TaskView::Connecting(cfg), EventView::ConnectFailed(cause)) => {
            let why = connect_failure_text(plan_for(cfg), cause);
            Effect {
                worker: WorkerView { linked: false, ..e.worker },
                shared: SharedView { conn: ConnState::Failed(why), ..e.shared },
                note: Some((Level::Error, "接続に失敗しました: "@ + why)),
                ..e
            }
        },
        (TaskView::Polling(asked, snap), EventView::Happened(HappenedView::Replied(reply))) =>
        poll_goes_on(e, poll_step(worker.cfg->Some_0, asked, snap, reply), secs, nanos),
        (TaskView::Acting(unit, action), EventView::Happened(HappenedView::Replied(reply))) =>
        acted(
            e,
            unit,
            action,
            strict_output(
                action_line(unit, action, worker.cfg->Some_0.palworld.sudo),
                reply,
            ),
        ),
        (TaskView::Applying(pal, changes, stage), EventView::Happened(happened)) => {
            let (next, step) = next_step(pal, changes, stage, happened);
            apply_goes_on(e, pal, changes, next, step)
        },
        _ => e,
    }
}

/// The event is one that the worker is waiting for, and the figures in it fit in 64
/// bits.
pub open spec fn expected(task: TaskView, event: EventView) -> bool {
    match (task, event) {
        (TaskView::Idle, EventView::Cmd(_)) => true,
        (TaskView::Idle, EventView::Tick) => true,
        (TaskView::Connecting(_), EventView::Connected) => true,
        (TaskView::Connecting(_), EventView::ConnectFailed(_)) => true,
        (TaskView::Polling(asked, _), EventView::Happened(HappenedView::Replied(reply))) =>
        reply_fits(asked, reply),
        (TaskView::Acting(_, _), EventView::Happened(HappenedView::Replied(_))) => true,
        (TaskView::Applying(_, _, stage), EventView::Happened(happened)) => awaits(stage, happened),
        _ => false,
    }
}

/// The worker and the shared state are as the effect says, and its note is the newest
/// line of the log.
pub open spec fn brought(
    e: Effect,
    worker: WorkerView,
    shared: SharedView,
    action: ActionView,
) -> bool {
    &&& worker == e.worker
    &&& shared == (SharedView { log: shared.log, ..e.shared })
    &&& match e.note {
        Some((level, text)) => logged(e.shared.log, shared.log, level, text),
        None => shared.log == e.shared.log,
    }
    &&& action == e.action
}

// ---------------------------------------------------------------------------
// The worker
// ---------------------------------------------------------------------------
#[derive(Debug)]
enum Task {
    Idle,
    Connecting(Config),
    Polling(PollRun),
    Acting { unit: String, action: String },
    Applying(ApplyRun),
}

impl Task {
    spec fn shown(&self) -> TaskView {
        match self {
            Task::Idle => TaskView::Idle,
            Task::Connecting(cfg) => TaskView::Connecting(cfg@),
            Task::Polling(run) => TaskView::Polling(run.asked(), run.snap()),
            Task::Acting { unit, action } => TaskView::Acting(unit@, action@),
            Task::Applying(run) => TaskView::Applying(run.pal(), run.changes(), run.stage()),
        }
    }

    spec fn wf(&self) -> bool {
        match self {
            Task::Polling(run) => run.wf(),
            Task::Applying(run) => run.wf(),
            _ => true,
        }
    }
}

/// What happens to the worker.
#[derive(Debug)]
pub enum Event {
    /// The user asked for something.
    Cmd(Cmd),
    /// It is time to refresh.
    Tick,
    /// A session was opened.
    Connected,
    /// No session could be opened, and why.
    ConnectFailed(String),
    /// A command was run, or a second has passed.
    Happened(Happened),
}

impl View for Event {
    type V = EventView;

    open spec fn view(&self) -> EventView {
        match self {
            Event::Cmd(cmd) => EventView::Cmd(cmd@),
            Event::Tick => EventView::Tick,
            Event::Connected => EventView::Connected,
            Event::ConnectFailed(cause) => EventView::ConnectFailed(cause@),
            Event::Happened(happened) => EventView::Happened(happened@),
        }
    }
}

/// What the program is to do next.
#[derive(Debug)]
pub enum Action {
    /// Wait for the next command or tick.
    Wait,
    /// Open a session. Where there is a number, ticks come that many seconds apart
    /// from now on.
    Connect(ConnectPlan, Option<u64>),
    /// Run a command.
    Run(String),
    /// Wait for a second.
    Sleep,
}

impl View for Action {
    type V = ActionView;

    open spec fn view(&self) -> ActionView {
        match self {
            Action::Wait => ActionView::Wait,
            Action::Connect(plan, every) => ActionView::Connect(plan@, *every),
            Action::Run(cmd) => ActionView::Run(cmd@),
            Action::Sleep => ActionView::Sleep,
        }
    }
}

/// What the worker knows and is in the middle of.
#[derive(Debug)]
pub struct Worker {
    linked: bool,
    cfg: Option<Config>,
    retry: bool,
    task: Task,
}

spec fn config_view(cfg: Option<Config>) -> Option<ConfigView> {
    match cfg {
        Some(cfg) => Some(cfg@),
        None => None,
    }
}

impl View for Worker {
    type V = WorkerView;

    closed spec fn view(&self) -> WorkerView {
        WorkerView {
            linked: self.linked,
            cfg: config_view(self.cfg),
            retry: self.retry,
            task: self.task.shown(),
        }
    }
}

/// The host is read or acted on only over a session, and a change of settings under way
/// is not over.
pub open spec fn at_work(w: WorkerView) -> bool {
    match w.task {
        TaskView::Idle => true,
        TaskView::Connecting(_) => true,
        TaskView::Polling(_, _) => w.linked && w.cfg is Some,
        TaskView::Acting(_, _) => w.linked && w.cfg is Some,
        TaskView::Applying(_, _, stage) => w.linked && w.cfg is Some && !(stage is Over),
    }
}

/// A worker without a session.
pub open spec fn at_rest() -> WorkerView {
    WorkerView { linked: false, cfg: None, retry: false, task: TaskView::Idle }
}

impl Worker {
    pub closed spec fn wf(&self) -> bool {
        self.task.wf() && at_work(self@)
    }

    /// A worker without a session.
    pub fn new() -> (r: Worker)
        ensures
            r.wf(),
            r@ == at_rest(),
    {
        Worker { linked: false, cfg: None, retry: false, task: Task::Idle }
    }

    /// Whether there is to be a session. Where there is none, the program drops its own.
    pub fn is_linked(&self) -> (r: bool)
        ensures
            r == self@.linked,
    {
        self.linked
    }

    /// Whether the worker is waiting for this event, and the figures in it fit in 64
    /// bits.
    pub fn accepts(&self, event: &Event) -> (r: bool)
        ensures
            r == expected(self@.task, event@),
    {
        match (&self.task, event) {
            (Task::Idle, Event::Cmd(_)) => true,
            (Task::Idle, Event::Tick) => true,
            (Task::Connecting(_), Event::Connected) => true,
            (Task::Connecting(_), Event::ConnectFailed(_)) => true,
            (Task::Polling(run), Event::Happened(Happened::Replied(reply))) => run.accepts(reply),
            (Task::Acting { .. }, Event::Happened(Happened::Replied(_))) => true,
            (Task::Applying(run), Event::Happened(Happened::Replied(_))) => !run.is_over()
                && !run.is_pausing(),
            (Task::Applying(run), Event::Happened(Happened::Slept)) => run.is_pausing(),
            _ => false,
        }
    }

    /// Takes an event, `secs` seconds and `nanos` nanoseconds after the start, and says
    /// what to do next.
    pub fn step(&mut self, shared: &mut Shared, event: Event, secs: u64, nanos: u32) -> (r: Action)
        requires
            old(self).wf(),
            expected(old(self)@.task, event@),
            old(shared).pal_revision < u64::MAX,
        ensures
            final(self).wf(),
            brought(
                effect_of(old(self)@, old(shared)@, event@, secs, nanos),
                final(self)@,
                final(shared)@,
                r@,
            ),
    {
        let mut task = Task::Idle;
        std::mem::swap(&mut task, &mut self.task);
        match (task, event) {
            (Task::Idle, Event::Cmd(cmd)) => self.command(shared, cmd),
            (Task::Idle, Event::Tick) => self.tick(shared),
            (Task::Connecting(cfg), Event::Connected) => {
                self.linked = true;
                self.cfg = Some(cfg);
                shared.conn = Conn::Connected;
                shared.push_log(Level::Success, "接続しました".to_owned());
                self.poll()
            },
            (Task::Connecting(cfg), Event::ConnectFailed(cause)) => {
                let why = connect_failure(&connect_plan(&cfg), cause.as_str());
                self.linked = false;
                let mut text = "接続に失敗しました: ".to_owned();
                text.append(why.as_str());
                shared.conn = Conn::Failed(why);
                shared.push_log(Level::Error, text);
                Action::Wait
            },
            (Task::Polling(run), Event::Happened(Happened::Replied(reply))) => {
                let step = match &self.cfg {
                    Some(cfg) => run.next(cfg, reply),
                    None => PollMove::Failed(String::new()),
                };
                self.polled(shared, step, secs, nanos)
            },
            (Task::Acting { unit, action }, Event::Happened(Happened::Replied(reply))) =>
            self.acted(shared, unit, action, reply),
            (Task::Applying(mut run), Event::Happened(happened)) => {
                let step = run.next(happened);
                self.applied(shared, run, step)
            },
            _ => Action::Wait,
        }
    }

    /// Reads the host, where there is a session.
    fn poll(&mut self) -> (r: Action)
        requires
            old(self)@.task is Idle,
        ensures
            final(self).wf(),
            ({
                let e = then_poll(
                    Effect {
                        worker: old(self)@,
                        shared: at_start(),
                        note: None,
                        action: ActionView::Wait,
                    },
                );
                final(self)@ == e.worker && r@ == e.action
            }),
    {
        if self.linked && self.cfg.is_some() {
            let (run, cmd) = PollRun::begin();
            self.task = Task::Polling(run);
            Action::Run(cmd)
        } else {
            Action::Wait
        }
    }

    fn connect(&mut self, shared: &mut Shared, cfg: Config, every: Option<u64>) -> (r: Action)
        requires
            old(self)@.task is Idle,
        ensures
            final(self).wf(),
            brought(
                then_connect(nothing(old(self)@, old(shared)@), cfg@, every),
                final(self)@,
                final(shared)@,
                r@,
            ),
    {
        shared.conn = Conn::Connecting;
        let mut text = address_text(cfg.ssh.user.as_str(), cfg.ssh.host.as_str());
        text.append(" に接続しています…");
        shared.push_log(Level::Info, text);
        let plan = connect_plan(&cfg);
        self.retry = false;
        self.task = Task::Connecting(cfg);
        Action::Connect(plan, every)
    }

    fn tick(&mut self, shared: &mut Shared) -> (r: Action)
        requires
            old(self)@.task is Idle,
        ensures
            final(self).wf(),
            brought(
                on_tick(nothing(old(self)@, old(shared)@)),
                final(self)@,
                final(shared)@,
                r@,
            ),
    {
        if shared.busy.is_some() {
            Action::Wait
        } else if self.linked {
            self.poll()
        } else if self.retry {
            let again = match &self.cfg {
                Some(cfg) => Some(cfg.clone()),
                None => None,
            };
            match again {
                Some(cfg) => self.connect(shared, cfg, None),
                None => Action::Wait,
            }
        } else {
            Action::Wait
        }
    }

    fn command(&mut self, shared: &mut Shared, cmd: Cmd) -> (r: Action)
        requires
            old(self)@.task is Idle,
        ensures
            final(self).wf(),
            brought(
                on_command(nothing(old(self)@, old(shared)@), cmd@),
                final(self)@,
                final(shared)@,
                r@,
            ),
    {
        match cmd {
            Cmd::Connect(cfg) => {
                let every = clamp(cfg.poll_interval_secs, 1, 300);
                self.connect(shared, *cfg, Some(every))
            },
            Cmd::Disconnect => {
                self.linked = false;
                self.retry = false;
                shared.conn = Conn::Disconnected;
                shared.snap = Snapshot::default();
                shared.push_log(Level::Info, "切断しました".to_owned());
                Action::Wait
            },
            Cmd::Refresh => self.poll(),
            Cmd::Service { unit, action } => {
                if !self.linked {
                    return Action::Wait;
                }
                let sudo = match &self.cfg {
                    Some(cfg) => cfg.palworld.sudo,
                    None => {
                        return Action::Wait;
                    },
                };
                let mut text = unit.clone();
                text.append(" を ");
                text.append(action.as_str());
                text.append(" しています…");
                shared.busy = Some(text);
                let cmd = service_action_command(unit.as_str(), action.as_str(), sudo);
                self.task = Task::Acting { unit, action };
                Action::Run(cmd)
            },
            Cmd::ApplyPalworld(changes) => {
                if !self.linked {
                    return Action::Wait;
                }
                let pal = match &self.cfg {
                    Some(cfg) => cfg.palworld.clone(),
                    None => {
                        return Action::Wait;
                    },
                };
                let mut text = "Palworld 設定を適用します: ".to_owned();
                text.append(summary(&changes).as_str());
                shared.push_log(Level::Warn, text);
                let (run, step) = ApplyRun::begin(pal, changes);
                self.applying(shared, run, step)
            },
        }
    }

    fn polled(&mut self, shared: &mut Shared, step: PollMove, secs: u64, nanos: u32) -> (r: Action)
        requires
            old(self)@.task is Idle,
            old(self)@.linked,
            old(self)@.cfg is Some,
            step.wf(),
            old(shared).pal_revision < u64::MAX,
        ensures
            final(self).wf(),
            brought(
                poll_goes_on(nothing(old(self)@, old(shared)@), step@, secs, nanos),
                final(self)@,
                final(shared)@,
                r@,
            ),
    {
        match step {
            PollMove::Ask(run, cmd) => {
                self.task = Task::Polling(run);
                Action::Run(cmd)
            },
            PollMove::Failed(why) => {
                self.linked = false;
                self.retry = true;
                let mut text = "取得に失敗しました: ".to_owned();
                text.append(why.as_str());
                shared.conn = Conn::Failed(why);
                shared.push_log(Level::Error, text);
                Action::Wait
            },
            PollMove::Done(snap) => {
                let changed = !same_ini(&snap.palworld_ini, &shared.snap.palworld_ini);
                let sample = Sample {
                    secs,
                    nanos,
                    cpu: snap.metrics.cpu,
                    mem: snap.metrics.mem_percent(),
                };
                shared.snap = snap;
                shared.push_sample(sample);
                if changed {
                    shared.pal_revision = shared.pal_revision + 1;
                }
                Action::Wait
            },
        }
    }

    fn acted(&mut self, shared: &mut Shared, unit: String, action: String, reply: Reply) -> (r:
        Action)
        requires
            old(self)@.task is Idle,
            old(self)@.linked,
            old(self)@.cfg is Some,
        ensures
            final(self).wf(),
            brought(
                acted(
                    nothing(old(self)@, old(shared)@),
                    unit@,
                    action@,
                    strict_output(
                        action_line(unit@, action@, old(self)@.cfg->Some_0.palworld.sudo),
                        reply@,
                    ),
                ),
                final(self)@,
                final(shared)@,
                r@,
            ),
    {
        let sudo = match &self.cfg {
            Some(cfg) => cfg.palworld.sudo,
            None => false,
        };
        let cmd = service_action_command(unit.as_str(), action.as_str(), sudo);
        let outcome = run(cmd.as_str(), reply);
        shared.busy = None;
        let mut text = unit;
        text.append(": ");
        text.append(action.as_str());
        match outcome {
            Ok(_) => {
                text.append(" を実行しました");
                shared.push_log(Level::Success, text);
            },
            Err(why) => {
                text.append(" に失敗 — ");
                text.append(why.as_str());
                shared.push_log(Level::Error, text);
            },
        }
        self.poll()
    }

    /// Takes a step of a change of settings that is not the last.
    fn applying(&mut self, shared: &mut Shared, run: ApplyRun, step: Move) -> (r: Action)
        requires
            old(self)@.task is Idle,
            old(self)@.linked,
            old(self)@.cfg is Some,
            run.wf(),
            !(run.stage() is Over),
            !(step@.next is Finish),
        ensures
            final(self).wf(),
            ({
                let e = apply_goes_on(
                    nothing(old(self)@, old(shared)@),
                    run.pal(),
                    run.changes(),
                    run.stage(),
                    step@,
                );
                final(self)@ == e.worker && final(shared)@ == e.shared && r@ == e.action
            }),
    {
        match step.progress {
            Some(text) => {
                shared.busy = Some(text.to_owned());
            },
            None => {},
        }
        self.task = Task::Applying(run);
        match step.next {
            Do::Run(cmd) => Action::Run(cmd),
            _ => Action::Sleep,
        }
    }

    fn applied(&mut self, shared: &mut Shared, run: ApplyRun, step: Move) -> (r: Action)
        requires
            old(self)@.task is Idle,
            old(self)@.linked,
            old(self)@.cfg is Some,
            run.wf(),
            run.stage() is Over <==> step@.next is Finish,
            old(shared).pal_revision < u64::MAX,
        ensures
            final(self).wf(),
            brought(
                apply_goes_on(
                    nothing(old(self)@, old(shared)@),
                    run.pal(),
                    run.changes(),
                    run.stage(),
                    step@,
                ),
                final(self)@,
                final(shared)@,
                r@,
            ),
    {
        if run.is_over() {
            shared.busy = None;
            match step.next {
                Do::Finish(Ok(ini)) => {
                    shared.push_log(
                        Level::Success,
                        "適用してサーバーを再起動しました".to_owned(),
                    );
                    shared.snap.palworld_ini = Some(ini);
                    shared.pal_revision = shared.pal_revision + 1;
                },
                Do::Finish(Err(why)) => {
                    let mut text = "適用に失敗しました: ".to_owned();
                    text.append(why.as_str());
                    shared.push_log(Level::Error, text);
                },
                _ => {},
            }
            self.poll()
        } else {
            self.applying(shared, run, step)
        }
    }
}

/// `n`, but no less than `low` and no more than `high`.
fn clamp(n: u64, low: u64, high: u64) -> (r: u64)
    ensures
        r == clamped(n, low, high),
{
    if n < low {
        low
    } else if n > high {
        high
    } else {
        n
    }
}

/// Whether two settings files are the same, or both missing.
fn same_ini(a: &Option<PalIni>, b: &Option<PalIni>) -> (r: bool)
    ensures
        r == (ini_view(*a) == ini_view(*b)),
{
    match (a, b) {
        (Some(a), Some(b)) => a.same_as(b),
        (None, None) => true,
        _ => false,
    }
}

/// The changes on one line.
fn summary(changes: &Vec<(String, String)>) -> (r: String)
    ensures
        r@ == joined(entries(pairs(changes@)), ", "@),
{
    let ghost want = entries(pairs(changes@));
    let mut parts: Vec<String> = Vec::new();
    let mut i: usize = 0;
    while i < changes.len()
        invariant
            i <= changes.len(),
            want == entries(pairs(changes@)),
            parts@.len() == i,
            forall|j: int| 0 <= j < i ==> #[trigger] parts@[j]@ == want[j],
        decreases changes.len() - i,
    {
        let mut part = changes[i].0.clone();
        part.push('=');
        part.append(changes[i].1.as_str());
        assert(part@ =~= want[i as int]);
        parts.push(part);
        i += 1;
    }
    assert(texts(parts@) =~= want);
    join(&parts, ", ")
}

// ---------------------------------------------------------------------------
// Changes
// ---------------------------------------------------------------------------
/// The settings of `edited` that `original` has not, in order.
pub open spec fn diff_of(
    original: Seq<(Seq<char>, Seq<char>)>,
    edited: Seq<(Seq<char>, Seq<char>)>,
) -> Seq<(Seq<char>, Seq<char>)>
    decreases edited.len(),
{
    if edited.len() == 0 {
        Seq::empty()
    } else {
        let before = diff_of(original, edited.drop_last());
        if lookup(original, edited.last().0) == Some(edited.last().1) {
            before
        } else {
            before.push(edited.last())
        }
    }
}

/// Keys the UI may write, diffed against what the server currently has.
pub fn diff(original: &PalIni, edited: &PalIni) -> (r: Vec<(String, String)>)
    ensures
        pairs(r@) == diff_of(original@.options, edited@.options),
{
    let all = edited.options();
    let ghost want = edited@.options;
    let mut changes: Vec<(String, String)> = Vec::new();
    let mut i: usize = 0;
    assert(want.take(0) =~= Seq::empty());
    assert(pairs(changes@) =~= Seq::empty());
    while i < all.len()
        invariant
            i <= all.len(),
            pairs(all@) == want,
            pairs(changes@) == diff_of(original@.options, want.take(i as int)),
        decreases all.len() - i,
    {
        let ghost before = pairs(changes@);
        proof {
            assert(want.take(i + 1).drop_last() =~= want.take(i as int));
            assert(want.take(i + 1).last() == (all@[i as int].0@, all@[i as int].1@));
        }
        let kept = match original.get(all[i].0.as_str()) {
            Some(v) => same(v, all[i].1.as_str()),
            None => false,
        };
        if !kept {
            let pair = (all[i].0.clone(), all[i].1.clone());
            changes.push(pair);
            assert(pairs(changes@) =~= before.push((all@[i as int].0@, all@[i as int].1@)));
        }
        i += 1;
    }
    assert(want.take(i as int) =~= want);
    changes
}

} // verus!
