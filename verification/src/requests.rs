//! What is asked of the host, and what becomes of its replies.
use crate::apply::{changed, first_move, next_step, written, DoView, HappenedView, MoveView, StageView};
use crate::arguments::{
    a_unit_is_acted_on_by_name, every_unit_is_asked_for, shell_words, tee_line, the_file_is_named,
    the_file_is_written_by_name, the_server_is_named,
};
use crate::chars::{joined, starts, trimmed};
use crate::config::{AuthView, ConfigView, PalworldView};
use crate::model::{no_snapshot, PlayerView, ServiceView, SnapshotView};
use crate::numbers::{decimal, decimal_int};
use crate::palworld::{fault_text, read_ini};
use crate::pm2::{apps_in, json_in, json_text, PM2_COMMAND};
use crate::poll::{poll_step, Asked, PollView};
use crate::report::{metrics_of, players_of, states_of, METRICS_SCRIPT};
use crate::safe_order::{heredoc, the_file_reaches_the_host};
use crate::shell::{
    kill_outcome, lenient_output, plan_for, save_line, strict_output, LoginView, ReplyView,
};
use crate::worker::{
    effect_of, ActionView, CmdView, ConnState, EventView, Level, SharedView, TaskView, WorkerView,
};
use vstd::prelude::*;

verus! {

// ---------------------------------------------------------------------------
// Replies
// ---------------------------------------------------------------------------
/// The command ran, and exited with 0.
pub open spec fn exited_well(reply: ReplyView) -> bool {
    match reply {
        ReplyView::Ran { status, stdout, stderr } => status == 0,
        ReplyView::Lost(_) => false,
    }
}

/// A command that exits with 0 has its output taken, and one that exits otherwise only
/// where that does not matter. Of a failure the exit code, the command and its error
/// output are told, and of a command that could not be run the cause.
pub proof fn replies_are_taken(cmd: Seq<char>, status: u32, out: Seq<char>, err: Seq<char>)
    ensures
        ({
            let ran = ReplyView::Ran { status, stdout: out, stderr: err };
            let lost = ReplyView::Lost(err);
            let cause = "exec `"@ + cmd + "`: "@ + err;
            &&& status == 0 ==> strict_output(cmd, ran) == Ok::<Seq<char>, Seq<char>>(out)
            &&& status != 0 ==> strict_output(cmd, ran) == Err::<Seq<char>, Seq<char>>(
                "command failed (exit "@ + decimal(status as nat) + "): "@ + cmd + "\n"@ + trimmed(
                    err,
                ),
            )
            &&& lenient_output(cmd, ran) == Ok::<Seq<char>, Seq<char>>(out)
            &&& strict_output(cmd, lost) == Err::<Seq<char>, Seq<char>>(cause)
            &&& lenient_output(cmd, lost) == Err::<Seq<char>, Seq<char>>(cause)
        }),
{
}

// ---------------------------------------------------------------------------
// Units and processes
// ---------------------------------------------------------------------------
/// The words of a command, behind `sudo -n` where the configuration has it.
pub open spec fn with_sudo(sudo: bool, words: Seq<Seq<char>>) -> Seq<Seq<char>> {
    if sudo {
        seq!["sudo"@, "-n"@] + words
    } else {
        words
    }
}

/// Over a session, a command for a unit makes the host run `systemctl` with that very
/// action and that very unit, whatever they are, and the user is told both meanwhile.
/// Nothing else is changed.
pub proof fn a_unit_gets_the_action_asked_for(
    w: WorkerView,
    s: SharedView,
    unit: Seq<char>,
    action: Seq<char>,
    secs: u64,
    nanos: u32,
)
    requires
        w.task is Idle,
        w.linked,
        w.cfg is Some,
    ensures
        ({
            let e = effect_of(
                w,
                s,
                EventView::Cmd(CmdView::Service { unit, action }),
                secs,
                nanos,
            );
            &&& e.action matches ActionView::Run(cmd) && shell_words(cmd) == Some(
                with_sudo(w.cfg->Some_0.palworld.sudo, seq!["systemctl"@, action, unit]),
            )
            &&& e.worker == (WorkerView { task: TaskView::Acting(unit, action), ..w })
            &&& e.shared == (SharedView {
                busy: Some(unit + " を "@ + action + " しています…"@),
                ..s
            })
            &&& e.note is None
        }),
{
    a_unit_is_acted_on_by_name(unit, action, w.cfg->Some_0.palworld.sudo);
}

/// When the host has replied, the log tells of the unit and the action: a success where
/// the command exited with 0, and a failure with its reason otherwise. Nothing is in
/// flight any more, and the host is read again.
pub proof fn an_action_is_reported(
    w: WorkerView,
    s: SharedView,
    unit: Seq<char>,
    action: Seq<char>,
    reply: ReplyView,
    secs: u64,
    nanos: u32,
)
    requires
        w.task == TaskView::Acting(unit, action),
        w.linked,
        w.cfg is Some,
    ensures
        ({
            let e = effect_of(w, s, EventView::Happened(HappenedView::Replied(reply)), secs, nanos);
            &&& exited_well(reply) ==> e.note == Some(
                (Level::Success, unit + ": "@ + action + " を実行しました"@),
            )
            &&& !exited_well(reply) ==> {
                &&& e.note is Some
                &&& e.note->Some_0.0 == Level::Error
                &&& starts(e.note->Some_0.1, unit + ": "@ + action + " に失敗 — "@)
            }
            &&& e.shared == (SharedView { busy: None, ..s })
            &&& e.action == ActionView::Run(METRICS_SCRIPT@)
            &&& e.worker == (WorkerView {
                task: TaskView::Polling(Asked::Metrics, no_snapshot()),
                ..w
            })
        }),
{
    let e = effect_of(w, s, EventView::Happened(HappenedView::Replied(reply)), secs, nanos);
    let head = unit + ": "@ + action + " に失敗 — "@;
    match strict_output(
        crate::shell::action_line(unit, action, w.cfg->Some_0.palworld.sudo),
        reply,
    ) {
        Err(why) => {
            assert(e.note->Some_0.1 =~= head + why);
            assert((head + why).take(head.len() as int) =~= head);
        },
        Ok(_) => {},
    }
}

/// A process is ended by its number, softly unless force is asked for, and again with
/// `sudo` where that fails. `init` and groups of processes are never ended.
pub proof fn a_process_is_ended_by_its_number(pid: i32, force: bool)
    ensures
        pid <= 1 ==> kill_outcome(pid, force) is Err,
        pid > 1 ==> ({
            let sig = if force {
                "-KILL"@
            } else {
                "-TERM"@
            };
            kill_outcome(pid, force) matches Ok(line) && exists|one: Seq<char>, two: Seq<char>|
                line == #[trigger] either(one, two) && shell_words(one) == Some(
                    seq!["kill"@, sig, decimal_int(pid as int)],
                ) && shell_words(two) == Some(
                    seq!["sudo"@, "-n"@, "kill"@, sig, decimal_int(pid as int)],
                )
        }),
{
    if pid > 1 {
        let number = decimal_int(pid as int);
        let sig = if force {
            "-KILL"@
        } else {
            "-TERM"@
        };
        reveal_strlit("kill -");
        reveal_strlit("kill");
        reveal_strlit("KILL");
        reveal_strlit("TERM");
        reveal_strlit("-KILL");
        reveal_strlit("-TERM");
        reveal_strlit(" ");
        reveal_strlit("sudo -n ");
        reveal_strlit("sudo");
        reveal_strlit("-n");
        reveal_strlit(" 2>/dev/null || ");
        reveal_strlit(" 2>/dev/null || sudo -n kill -");
        crate::numbers::lemma_decimal(pid as nat);
        let one = "kill"@ + seq![' '] + (sig + seq![' '] + number);
        let two = "sudo"@ + seq![' '] + ("-n"@ + seq![' '] + one);
        crate::arguments::plain_words_are_read("kill"@, sig, number);
        crate::arguments::sudo_words_are_read(one);
        assert(kill_outcome(pid, force)->Ok_0 =~= either(one, two));
        assert(seq!["sudo"@, "-n"@] + seq!["kill"@, sig, number] =~= seq![
            "sudo"@,
            "-n"@,
            "kill"@,
            sig,
            number,
        ]);
    }
}

/// A command line that runs `two` where `one` fails, which may say nothing.
pub open spec fn either(one: Seq<char>, two: Seq<char>) -> Seq<char> {
    one + " 2>/dev/null || "@ + two
}

// ---------------------------------------------------------------------------
// Sessions
// ---------------------------------------------------------------------------
/// Connecting goes to the host, the port and the user that are configured, with the key
/// or the password that is, and checks the host's key where that is wanted. From then on
/// the host is read as often as configured, but no more often than every second and no
/// less than every five minutes.
pub proof fn connecting_follows_the_configuration(
    w: WorkerView,
    s: SharedView,
    cfg: ConfigView,
    secs: u64,
    nanos: u32,
)
    requires
        w.task is Idle,
    ensures
        ({
            let e = effect_of(w, s, EventView::Cmd(CmdView::Connect(cfg)), secs, nanos);
            let every = cfg.poll_interval_secs;
            &&& e.action matches ActionView::Connect(plan, Some(n)) && {
                &&& plan.host == cfg.ssh.host
                &&& plan.port == cfg.ssh.port
                &&& plan.user == cfg.ssh.user
                &&& plan.check_host_key == cfg.ssh.strict_host_key
                &&& 1 <= n <= 300
                &&& 1 <= every <= 300 ==> n == every
                &&& every < 1 ==> n == 1
                &&& every > 300 ==> n == 300
            }
            &&& e.worker == (WorkerView { task: TaskView::Connecting(cfg), retry: false, ..w })
            &&& e.shared == (SharedView { conn: ConnState::Connecting, ..s })
            &&& e.note == Some(
                (Level::Info, cfg.ssh.user + "@"@ + cfg.ssh.host + " に接続しています…"@),
            )
        }),
{
}

/// A key is used with its passphrase, and without one where it is empty; a password is
/// used as it is.
pub proof fn logins_follow_the_configuration(cfg: ConfigView)
    ensures
        cfg.ssh.auth matches AuthView::Key { path, passphrase } ==> plan_for(cfg).login == (
        LoginView::KeyFile {
            path,
            passphrase: if passphrase.len() == 0 {
                None
            } else {
                Some(passphrase)
            },
        }),
        cfg.ssh.auth matches AuthView::Password { password } ==> plan_for(cfg).login == (
        LoginView::Password { password }),
{
}

/// A session that was opened is used with its configuration, and the host is read first.
/// One that could not be opened is told with its address and the cause, and there is
/// none.
pub proof fn sessions_are_told(
    w: WorkerView,
    s: SharedView,
    cfg: ConfigView,
    cause: Seq<char>,
    secs: u64,
    nanos: u32,
)
    requires
        w.task == TaskView::Connecting(cfg),
    ensures
        ({
            let e = effect_of(w, s, EventView::Connected, secs, nanos);
            &&& e.worker == (WorkerView {
                linked: true,
                cfg: Some(cfg),
                task: TaskView::Polling(Asked::Metrics, no_snapshot()),
                ..w
            })
            &&& e.shared == (SharedView { conn: ConnState::Connected, ..s })
            &&& e.note == Some((Level::Success, "接続しました"@))
            &&& e.action == ActionView::Run(METRICS_SCRIPT@)
        }),
        ({
            let e = effect_of(w, s, EventView::ConnectFailed(cause), secs, nanos);
            let why = "SSH connect to "@ + (cfg.ssh.user + "@"@ + cfg.ssh.host) + ": "@ + cause;
            &&& e.worker == (WorkerView { linked: false, task: TaskView::Idle, ..w })
            &&& e.shared == (SharedView { conn: ConnState::Failed(why), ..s })
            &&& e.note == Some((Level::Error, "接続に失敗しました: "@ + why))
            &&& e.action == ActionView::Wait
        }),
{
}

/// Over a session, a refresh is made when it is asked for, and at every tick unless
/// something is in flight. Without a session there is none.
pub proof fn refreshes_read_the_host(w: WorkerView, s: SharedView, secs: u64, nanos: u32)
    requires
        w.task is Idle,
        w.linked ==> w.cfg is Some,
    ensures
        ({
            let asked = effect_of(w, s, EventView::Cmd(CmdView::Refresh), secs, nanos);
            let ticked = effect_of(w, s, EventView::Tick, secs, nanos);
            let reading = WorkerView {
                task: TaskView::Polling(Asked::Metrics, no_snapshot()),
                ..w
            };
            &&& w.linked ==> asked.action == ActionView::Run(METRICS_SCRIPT@) && asked.worker
                == reading
            &&& !w.linked ==> asked.action == ActionView::Wait && asked.worker == w
            &&& asked.shared == s && asked.note is None
            &&& w.linked && s.busy is None ==> ticked.action == ActionView::Run(METRICS_SCRIPT@)
                && ticked.worker == reading && ticked.shared == s && ticked.note is None
        }),
{
}

/// Disconnecting is logged, and keeps the history, the revision and the log.
pub proof fn disconnecting_keeps_the_past(w: WorkerView, s: SharedView, secs: u64, nanos: u32)
    requires
        w.task is Idle,
    ensures
        ({
            let e = effect_of(w, s, EventView::Cmd(CmdView::Disconnect), secs, nanos);
            &&& e.shared.history == s.history
            &&& e.shared.pal_revision == s.pal_revision
            &&& e.shared.busy == s.busy
            &&& e.shared.log == s.log
            &&& e.note == Some((Level::Info, "切断しました"@))
            &&& e.worker.cfg == w.cfg
            &&& e.action == ActionView::Wait
        }),
{
}

// ---------------------------------------------------------------------------
// A refresh
// ---------------------------------------------------------------------------
/// A unit of that name is listed as active.
pub open spec fn listed_active(services: Seq<ServiceView>, name: Seq<char>) -> bool {
    exists|i: int|
        0 <= i < services.len() && (#[trigger] services[i]).name == name && services[i].state
            == "active"@
}

/// The questions are: the metrics first; then all the units at once; the apps; the
/// settings file at its path; and the players with the configured command, to the
/// letter.
pub proof fn questions_name_what_is_asked(
    cfg: ConfigView,
    asked: Asked,
    snap: SnapshotView,
    reply: ReplyView,
)
    ensures
        poll_step(cfg, asked, snap, reply) matches PollView::Ask(next, known, cmd) ==> match next {
            Asked::Metrics => false,
            Asked::Services => shell_words(cmd) == Some(
                seq!["systemctl"@, "is-active"@] + cfg.services,
            ),
            Asked::Pm2 => cmd == PM2_COMMAND@,
            Asked::Ini => shell_words(cmd) == Some(
                with_sudo(cfg.palworld.sudo, seq!["cat"@, cfg.palworld.ini_path]),
            ),
            Asked::Players => cmd == cfg.palworld.players_command && trimmed(cmd).len() > 0,
        },
{
    if cfg.services.len() > 0 {
        every_unit_is_asked_for(cfg.services);
    }
    the_file_is_named(cfg.palworld);
}

/// What is known behind a question: the snapshot so far, or the one at the end.
pub open spec fn known_by(step: PollView) -> SnapshotView {
    match step {
        PollView::Ask(_, snap, _) => snap,
        PollView::Done(snap) => snap,
        PollView::Failed(_) => no_snapshot(),
    }
}

/// Each reply fills in what it was asked for and nothing else. The metrics must be had:
/// without them the refresh fails, and tells why. The rest may fail: then there are no
/// units, no apps, no settings file, or nothing known of the players. The settings file
/// must be printed without a failure; the states of the units, the apps and the players
/// are read whatever the exit code was.
pub proof fn replies_fill_in_what_was_asked(
    cfg: ConfigView,
    snap: SnapshotView,
    status: u32,
    out: Seq<char>,
    err: Seq<char>,
)
    ensures
        ({
            let ran = ReplyView::Ran { status, stdout: out, stderr: err };
            let lost = ReplyView::Lost(err);
            let m = poll_step(cfg, Asked::Metrics, snap, ran);
            let u = poll_step(cfg, Asked::Services, snap, ran);
            let a = poll_step(cfg, Asked::Pm2, snap, ran);
            let i = poll_step(cfg, Asked::Ini, snap, ran);
            let p = poll_step(cfg, Asked::Players, snap, ran);
            &&& status == 0 ==> !(m is Failed) && known_by(m) == (SnapshotView {
                metrics: metrics_of(out),
                ..snap
            })
            &&& status != 0 ==> m is Failed
            &&& poll_step(cfg, Asked::Metrics, snap, lost) == PollView::Failed(
                "exec `"@ + METRICS_SCRIPT@ + "`: "@ + err,
            )
            &&& known_by(u) == (SnapshotView { services: states_of(cfg.services, out), ..snap })
            &&& known_by(poll_step(cfg, Asked::Services, snap, lost)) == (SnapshotView {
                services: Seq::empty(),
                ..snap
            })
            &&& known_by(a) == (SnapshotView { pm2: apps_in(json_text(json_in(out))), ..snap })
            &&& known_by(poll_step(cfg, Asked::Pm2, snap, lost)) == (SnapshotView {
                pm2: Seq::empty(),
                ..snap
            })
            &&& known_by(i).palworld_ini == (if status == 0 && read_ini(out) is Ok {
                Some(read_ini(out)->Ok_0)
            } else {
                None
            })
            &&& known_by(i).metrics == snap.metrics
            &&& known_by(i).services == snap.services
            &&& known_by(i).pm2 == snap.pm2
            &&& known_by(poll_step(cfg, Asked::Ini, snap, lost)).palworld_ini is None
            &&& p == PollView::Done(SnapshotView { players: Some(players_of(out)), ..snap })
            &&& poll_step(cfg, Asked::Players, snap, lost) == PollView::Done(
                SnapshotView { players: None, ..snap },
            )
        }),
{
}

/// Only of a running server are the players asked: where no unit of its name is listed
/// as active, the refresh ends there, with nothing known of the players, and no command
/// is run for them. Where one is, the configured command is run; without one there are
/// no players.
pub proof fn players_are_asked_of_a_running_server(
    cfg: ConfigView,
    snap: SnapshotView,
    reply: ReplyView,
)
    ensures
        ({
            let step = poll_step(cfg, Asked::Ini, snap, reply);
            let blank = trimmed(cfg.palworld.players_command).len() == 0;
            &&& !listed_active(snap.services, cfg.palworld.service) ==> step is Done && known_by(
                step,
            ).players is None
            &&& listed_active(snap.services, cfg.palworld.service) && blank ==> step is Done
                && known_by(step).players == Some(Seq::<PlayerView>::empty())
            &&& listed_active(snap.services, cfg.palworld.service) && !blank ==> match step {
                PollView::Ask(next, _, cmd) => next == Asked::Players && cmd
                    == cfg.palworld.players_command,
                _ => false,
            }
        }),
{
}

// ---------------------------------------------------------------------------
// A change of settings
// ---------------------------------------------------------------------------
/// The command exited with 0.
pub open spec fn went_well(happened: HappenedView) -> bool {
    happened matches HappenedView::Replied(reply) && exited_well(reply)
}

/// The command of a step.
pub open spec fn command_of(move_: MoveView) -> Seq<char> {
    match move_.next {
        DoView::Run(cmd) => cmd,
        _ => ""@,
    }
}

/// The steps of a change are: the world is saved; the server's unit is stopped; its
/// state is asked for; the file is read, copied aside and written; and the unit is
/// started. Each step but the first is taken only when the one before went well.
pub proof fn the_steps_of_a_change(
    pal: PalworldView,
    changes: Seq<(Seq<char>, Seq<char>)>,
    ini: crate::palworld::IniView,
    happened: HappenedView,
    n: int,
)
    requires
        happened is Replied,
        n < 60,
    ensures
        first_move(pal).next == DoView::Run(save_line(pal)),
        ({
            let (stage, step) = next_step(pal, changes, StageView::Save, happened);
            &&& stage is Stop
            &&& step.next is Run
            &&& shell_words(command_of(step)) == Some(
                with_sudo(pal.sudo, seq!["systemctl"@, "stop"@, pal.service]),
            )
        }),
        ({
            let (stage, step) = next_step(pal, changes, StageView::Stop, happened);
            &&& went_well(happened) ==> stage == StageView::Check(1) && step.next is Run
                && shell_words(command_of(step)) == Some(
                seq!["systemctl"@, "is-active"@, pal.service],
            )
            &&& !went_well(happened) ==> stage is Over && step.next matches DoView::Finish(Err(_))
        }),
        ({
            let (stage, step) = next_step(pal, changes, StageView::Pause(n), HappenedView::Slept);
            &&& stage == StageView::Check(n + 1)
            &&& step.next is Run
            &&& shell_words(command_of(step)) == Some(
                seq!["systemctl"@, "is-active"@, pal.service],
            )
        }),
        next_step(pal, changes, StageView::Pause(60), HappenedView::Slept).0 is Over,
        ({
            let (stage, step) = next_step(pal, changes, StageView::Backup(ini), happened);
            &&& went_well(happened) ==> stage == StageView::Write(changed(ini, changes))
            &&& !went_well(happened) ==> stage is Over && step.next matches DoView::Finish(Err(_))
        }),
        ({
            let (stage, step) = next_step(pal, changes, StageView::Write(ini), happened);
            &&& went_well(happened) ==> stage == StageView::Start(ini) && step.next is Run
                && shell_words(command_of(step)) == Some(
                with_sudo(pal.sudo, seq!["systemctl"@, "start"@, pal.service]),
            )
            &&& !went_well(happened) ==> stage is Over && step.next matches DoView::Finish(Err(_))
        }),
        ({
            let (stage, step) = next_step(pal, changes, StageView::Start(ini), happened);
            &&& stage is Over
            &&& went_well(happened) ==> step.next == DoView::Finish(Ok(ini))
            &&& !went_well(happened) ==> step.next matches DoView::Finish(Err(_))
        }),
{
    the_server_is_named(pal);
}

/// The state of the server decides: while it is printed as active, reloading, activating
/// or deactivating, a second is waited; with any other the file at its path is read.
pub proof fn the_server_is_waited_for(
    pal: PalworldView,
    changes: Seq<(Seq<char>, Seq<char>)>,
    n: int,
    status: u32,
    state: Seq<char>,
    err: Seq<char>,
)
    ensures
        ({
            let reply = ReplyView::Ran { status, stdout: state, stderr: err };
            let (stage, step) = next_step(
                pal,
                changes,
                StageView::Check(n),
                HappenedView::Replied(reply),
            );
            let word = trimmed(state);
            if word == "active"@ || word == "reloading"@ || word == "activating"@ || word
                == "deactivating"@ {
                stage == StageView::Pause(n) && step.next is Sleep
            } else {
                stage is Read && step.next is Run && shell_words(command_of(step)) == Some(
                    with_sudo(pal.sudo, seq!["cat"@, pal.ini_path]),
                )
            }
        }),
{
    the_file_is_named(pal);
}

/// A file that was read is copied beside itself before anything is written. One that
/// cannot be read ends the change with the reason.
pub proof fn the_file_is_copied_first(
    pal: PalworldView,
    changes: Seq<(Seq<char>, Seq<char>)>,
    text: Seq<char>,
    err: Seq<char>,
)
    ensures
        ({
            let reply = ReplyView::Ran { status: 0, stdout: text, stderr: err };
            let (stage, step) = next_step(
                pal,
                changes,
                StageView::Read,
                HappenedView::Replied(reply),
            );
            match read_ini(text) {
                Ok(ini) => stage == StageView::Backup(ini) && step.next is Run && shell_words(
                    command_of(step),
                ) == Some(
                    with_sudo(
                        pal.sudo,
                        seq!["cp"@, pal.ini_path, pal.ini_path + ".vwatch.bak"@],
                    ),
                ),
                Err(f) => stage is Over && step.next == DoView::Finish(Err(fault_text(f))),
            }
        }),
{
    the_file_is_named(pal);
}

/// What is written is the file that was read with the changes made, to the letter, into
/// the file at its path: `tee` gets the path, and the file as its input.
pub proof fn the_changed_file_is_written(
    pal: PalworldView,
    changes: Seq<(Seq<char>, Seq<char>)>,
    ini: crate::palworld::IniView,
    happened: HappenedView,
)
    requires
        went_well(happened),
        forall|i: int|
            0 <= i < crate::chars::pieces_of(written(changed(ini, changes)), '\n').len()
                ==> #[trigger] crate::chars::pieces_of(written(changed(ini, changes)), '\n')[i]
                != "VWATCH_EOF"@,
    ensures
        ({
            let (stage, step) = next_step(pal, changes, StageView::Backup(ini), happened);
            let body = written(changed(ini, changes));
            let input = body + "\nVWATCH_EOF"@;
            &&& command_of(step) == tee_line(pal) + " > /dev/null <<'VWATCH_EOF'\n"@ + input
            &&& shell_words(tee_line(pal)) == Some(
                with_sudo(pal.sudo, seq!["tee"@, pal.ini_path]),
            )
            &&& heredoc(crate::chars::rows_of(input), "VWATCH_EOF"@) == body.push('\n')
        }),
{
    the_file_reaches_the_host(pal, written(changed(ini, changes)));
    the_file_is_written_by_name(pal);
}

/// A change of settings begins with a line in the log that tells every change, and with
/// saving the world; that is told meanwhile.
pub proof fn a_change_is_announced(
    w: WorkerView,
    s: SharedView,
    changes: Seq<(Seq<char>, Seq<char>)>,
    secs: u64,
    nanos: u32,
)
    requires
        w.task is Idle,
        w.linked,
        w.cfg is Some,
    ensures
        ({
            let e = effect_of(w, s, EventView::Cmd(CmdView::ApplyPalworld(changes)), secs, nanos);
            let pal = w.cfg->Some_0.palworld;
            let told = Seq::new(
                changes.len(),
                |i: int| changes[i].0 + seq!['='] + changes[i].1,
            );
            &&& e.worker == (WorkerView {
                task: TaskView::Applying(pal, changes, StageView::Save),
                ..w
            })
            &&& e.shared == (SharedView { busy: Some("ワールドをセーブしています…"@), ..s })
            &&& e.action == ActionView::Run(save_line(pal))
            &&& e.note == Some(
                (Level::Warn, "Palworld 設定を適用します: "@ + joined(told, ", "@)),
            )
        }),
{
    let told = Seq::new(changes.len(), |i: int| changes[i].0 + seq!['='] + changes[i].1);
    assert(crate::palworld::entries(changes) =~= told);
}

/// A change that is over is told, with the reason where it failed; nothing is in flight
/// any more, and the host is read again. Where it succeeded, the file that was written
/// is shown, as a new revision.
pub proof fn a_change_that_is_over_is_told(
    w: WorkerView,
    s: SharedView,
    changes: Seq<(Seq<char>, Seq<char>)>,
    pal: PalworldView,
    stage: StageView,
    happened: HappenedView,
    secs: u64,
    nanos: u32,
)
    requires
        w.task == TaskView::Applying(pal, changes, stage),
        w.linked,
        w.cfg is Some,
        s.pal_revision < u64::MAX,
        next_step(pal, changes, stage, happened).1.next is Finish,
    ensures
        ({
            let e = effect_of(w, s, EventView::Happened(happened), secs, nanos);
            &&& e.action == ActionView::Run(METRICS_SCRIPT@)
            &&& e.worker == (WorkerView {
                task: TaskView::Polling(Asked::Metrics, no_snapshot()),
                ..w
            })
            &&& e.shared.busy is None
            &&& e.shared.conn == s.conn && e.shared.history == s.history && e.shared.log == s.log
            &&& match next_step(pal, changes, stage, happened).1.next {
                DoView::Finish(Ok(ini)) => {
                    &&& e.note == Some((Level::Success, "適用してサーバーを再起動しました"@))
                    &&& e.shared.snap == (SnapshotView { palworld_ini: Some(ini), ..s.snap })
                    &&& e.shared.pal_revision == s.pal_revision + 1
                },
                DoView::Finish(Err(why)) => {
                    &&& e.note == Some((Level::Error, "適用に失敗しました: "@ + why))
                    &&& e.shared.snap == s.snap
                    &&& e.shared.pal_revision == s.pal_revision
                },
                _ => true,
            }
        }),
{
}

/// The world is saved with the command that lists the players, `Save` standing where
/// `ShowPlayers` stood; a command without it is run as it is.
pub proof fn saving_goes_the_way_of_the_players(
    pal: PalworldView,
    a: Seq<char>,
    b: Seq<char>,
)
    requires
        forall|i: int|
            0 <= i < a.len() ==> !starts(
                #[trigger] (a + "ShowPlayers"@ + b).skip(i),
                "ShowPlayers"@,
            ),
        forall|i: int| 0 <= i < b.len() ==> !starts(#[trigger] b.skip(i), "ShowPlayers"@),
    ensures
        pal.players_command == a + "ShowPlayers"@ + b ==> save_line(pal) == a + "Save"@ + b,
        pal.players_command == b ==> save_line(pal) == b,
{
    reveal_strlit("ShowPlayers");
    lemma_not_replaced(b);
    lemma_replaced_once(a, b);
}

proof fn lemma_not_replaced(s: Seq<char>)
    requires
        forall|i: int| 0 <= i < s.len() ==> !starts(#[trigger] s.skip(i), "ShowPlayers"@),
    ensures
        crate::chars::replaced(s, "ShowPlayers"@, "Save"@) == s,
    decreases s.len(),
{
    if s.len() > 0 {
        let t = s.drop_first();
        assert(s.skip(0) =~= s);
        assert forall|i: int| 0 <= i < t.len() implies !starts(#[trigger] t.skip(i), "ShowPlayers"@) by {
            assert(t.skip(i) =~= s.skip(i + 1));
        }
        lemma_not_replaced(t);
        assert(seq![s[0]] + t =~= s);
    }
}

proof fn lemma_replaced_once(a: Seq<char>, b: Seq<char>)
    requires
        forall|i: int|
            0 <= i < a.len() ==> !starts(
                #[trigger] (a + "ShowPlayers"@ + b).skip(i),
                "ShowPlayers"@,
            ),
        forall|i: int| 0 <= i < b.len() ==> !starts(#[trigger] b.skip(i), "ShowPlayers"@),
    ensures
        crate::chars::replaced(a + "ShowPlayers"@ + b, "ShowPlayers"@, "Save"@) == a + "Save"@ + b,
    decreases a.len(),
{
    reveal_strlit("ShowPlayers");
    let word = "ShowPlayers"@;
    let s = a + word + b;
    if a.len() == 0 {
        assert(s.take(word.len() as int) =~= word);
        assert(s.skip(word.len() as int) =~= b);
        lemma_not_replaced(b);
        assert("Save"@ + b =~= a + "Save"@ + b);
    } else {
        let t = a.drop_first();
        assert(s.skip(0) =~= s);
        assert(!starts(s.skip(0), word));
        assert(s.drop_first() =~= t + word + b);
        assert forall|i: int| 0 <= i < t.len() implies !starts(#[trigger] (t + word + b).skip(i), word) by {
            assert((t + word + b).skip(i) =~= s.skip(i + 1));
        }
        lemma_replaced_once(t, b);
        assert(seq![s[0]] + (t + "Save"@ + b) =~= a + "Save"@ + b);
    }
}

// ---------------------------------------------------------------------------
// What the worker waits for
// ---------------------------------------------------------------------------
/// While it is idle the worker takes commands and ticks, and nothing else; while a
/// session is being opened, how that went; while the host is asked, its replies, of
/// which only the metrics must fit in 64 bits; and while settings are changed, what the
/// change waits for.
pub proof fn events_are_taken_in_turn(
    task: TaskView,
    cmd: CmdView,
    cause: Seq<char>,
    reply: ReplyView,
)
    ensures
        ({
            let took_cmd = crate::worker::expected(task, EventView::Cmd(cmd));
            let took_tick = crate::worker::expected(task, EventView::Tick);
            let took_open = crate::worker::expected(task, EventView::Connected);
            let took_cause = crate::worker::expected(task, EventView::ConnectFailed(cause));
            let took_reply = crate::worker::expected(
                task,
                EventView::Happened(HappenedView::Replied(reply)),
            );
            let took_pause = crate::worker::expected(
                task,
                EventView::Happened(HappenedView::Slept),
            );
            &&& took_cmd <==> task is Idle
            &&& took_tick <==> task is Idle
            &&& took_open <==> task is Connecting
            &&& took_cause <==> task is Connecting
            &&& match task {
                TaskView::Polling(asked, _) => !took_pause && (asked != Asked::Metrics
                    || !exited_well(reply) ==> took_reply) && (asked == Asked::Metrics
                    && exited_well(reply) ==> took_reply == crate::report::metrics_fit(
                    reply->stdout,
                )),
                TaskView::Acting(_, _) => took_reply && !took_pause,
                TaskView::Applying(_, _, stage) => (took_pause <==> stage is Pause) && (took_reply
                    <==> !(stage is Pause) && !(stage is Over)),
                _ => !took_reply && !took_pause,
            }
        }),
{
}

/// Before anything has happened there is no session, none to open again, and nothing to
/// show or to edit; the first settings file that is seen is taken for editing.
pub proof fn at_first_there_is_nothing(revision: u64, ini: Option<crate::palworld::IniView>)
    ensures
        crate::worker::at_rest() == (WorkerView {
            linked: false,
            cfg: None,
            retry: false,
            task: TaskView::Idle,
        }),
        ({
            let e = crate::screen::nothing_to_edit();
            &&& e.edit is None && e.confirm is None
            &&& revision > 0 ==> crate::screen::synced(e, revision, ini).edit == ini
        }),
        ({
            let s = crate::worker::at_start();
            &&& s.conn is Disconnected
            &&& s.snap == no_snapshot()
            &&& s.history.len() == 0 && s.log.len() == 0
            &&& s.busy is None
            &&& s.pal_revision == 0
        }),
        ({
            let s = no_snapshot();
            &&& s.services.len() == 0 && s.pm2.len() == 0 && s.procs.len() == 0 && s.claude.len()
                == 0
            &&& s.players is None && s.palworld_ini is None
            &&& s.metrics.hostname.len() == 0 && s.metrics.uptime.len() == 0 && s.metrics.load.len()
                == 0
            &&& s.metrics.cpu is None && s.metrics.cores == 0
            &&& s.metrics.mem_total == 0 && s.metrics.mem_available == 0
            &&& s.metrics.swap_total == 0 && s.metrics.swap_free == 0
            &&& s.metrics.disk_total == 0 && s.metrics.disk_used == 0
        }),
{
}

/// A line that is added to the log is its last, with its level and its text; the lines
/// before it stay in their order, but for the oldest where there are 200.
pub proof fn lines_are_added_to_the_log(
    before: Seq<crate::worker::LogView>,
    after: Seq<crate::worker::LogView>,
    level: Level,
    text: Seq<char>,
)
    requires
        crate::worker::logged(before, after, level, text),
        before.len() <= 200,
    ensures
        after.len() > 0,
        after.last().level == level,
        after.last().text == text,
        after.drop_last() == if before.len() < 200 {
            before
        } else {
            before.drop_first()
        },
{
    let at = choose|at: Seq<char>|
        #[trigger] crate::worker::is_clock(at) && after == crate::worker::newest(
            before.push(crate::worker::LogView { at, level, text }),
            crate::worker::LOG_LEN as nat,
        );
    let line = crate::worker::LogView { at, level, text };
    crate::laws::the_newest_are_kept(before, line, 200);
    assert(before.push(line).drop_last() =~= before);
    assert(before.len() > 0 ==> before.drop_first().push(line).drop_last()
        =~= before.drop_first());
}

/// While a change of settings is made, the user is told each of its steps.
pub proof fn the_steps_are_told(
    pal: PalworldView,
    changes: Seq<(Seq<char>, Seq<char>)>,
    ini: crate::palworld::IniView,
    happened: HappenedView,
    out: Seq<char>,
    err: Seq<char>,
)
    requires
        went_well(happened),
        trimmed(out) == "inactive"@,
    ensures
        first_move(pal).progress == Some("ワールドをセーブしています…"@),
        next_step(pal, changes, StageView::Save, happened).1.progress == Some(
            "Palworld を停止しています…"@,
        ),
        next_step(
            pal,
            changes,
            StageView::Check(1),
            HappenedView::Replied(ReplyView::Ran { status: 3, stdout: out, stderr: err }),
        ).1.progress == Some("設定ファイルを読み直しています…"@),
        next_step(pal, changes, StageView::Backup(ini), happened).1.progress == Some(
            "設定を書き込んでいます…"@,
        ),
        next_step(pal, changes, StageView::Write(ini), happened).1.progress == Some(
            "Palworld を起動しています…"@,
        ),
        next_step(
            pal,
            changes,
            StageView::Write(ini),
            HappenedView::Replied(ReplyView::Lost(err)),
        ).1.next == DoView::Finish(
            Err(
                "設定ファイルの書き込みに失敗しました（バックアップ: .vwatch.bak）: "@ + (
                "exec `"@ + crate::shell::write_line(pal, written(ini)) + "`: "@ + err),
            ),
        ),
{
    reveal_strlit("inactive");
    reveal_strlit("active");
    reveal_strlit("reloading");
    reveal_strlit("activating");
    reveal_strlit("deactivating");
    assert("inactive"@.len() == 8 && "active"@.len() == 6 && "reloading"@.len() == 9);
    assert("activating"@.len() == 10 && "deactivating"@.len() == 12);
}

/// Everything that is wanted is asked for, in order: the units where some are watched,
/// the apps where they are shown, and the settings file where the integration is
/// enabled. What is not wanted is passed over, and behind the last the refresh is over.
pub proof fn everything_wanted_is_asked(
    cfg: ConfigView,
    snap: SnapshotView,
    reply: ReplyView,
)
    ensures
        ({
            let after_metrics = poll_step(cfg, Asked::Metrics, snap, reply);
            let after_units = poll_step(cfg, Asked::Services, snap, reply);
            let after_apps = poll_step(cfg, Asked::Pm2, snap, reply);
            &&& exited_well(reply) ==> asks_next(
                after_metrics,
                if cfg.services.len() > 0 {
                    Some(Asked::Services)
                } else {
                    behind_units(cfg)
                },
            )
            &&& asks_next(after_units, behind_units(cfg))
            &&& asks_next(after_apps, behind_apps(cfg))
        }),
{
}

/// What is asked behind the units.
pub open spec fn behind_units(cfg: ConfigView) -> Option<Asked> {
    if cfg.show_pm2 {
        Some(Asked::Pm2)
    } else {
        behind_apps(cfg)
    }
}

/// What is asked behind the apps.
pub open spec fn behind_apps(cfg: ConfigView) -> Option<Asked> {
    if cfg.palworld.enabled {
        Some(Asked::Ini)
    } else {
        None
    }
}

/// The step asks that, or ends the refresh.
pub open spec fn asks_next(step: PollView, next: Option<Asked>) -> bool {
    match (step, next) {
        (PollView::Ask(asked, _, _), Some(wanted)) => asked == wanted,
        (PollView::Done(_), None) => true,
        _ => false,
    }
}

/// A refresh that fails is told in the log with its reason, and the session is to be
/// opened again. What was shown stays.
pub proof fn a_failed_refresh_is_told(
    w: WorkerView,
    s: SharedView,
    snap: SnapshotView,
    cause: Seq<char>,
    secs: u64,
    nanos: u32,
)
    requires
        w.task == TaskView::Polling(Asked::Metrics, snap),
        w.linked,
        w.cfg is Some,
    ensures
        ({
            let e = effect_of(
                w,
                s,
                EventView::Happened(HappenedView::Replied(ReplyView::Lost(cause))),
                secs,
                nanos,
            );
            let why = "exec `"@ + METRICS_SCRIPT@ + "`: "@ + cause;
            &&& e.note == Some((Level::Error, "取得に失敗しました: "@ + why))
            &&& e.shared == (SharedView { conn: ConnState::Failed(why), ..s })
            &&& e.worker == (WorkerView { linked: false, retry: true, task: TaskView::Idle, ..w })
            &&& e.action == ActionView::Wait
        }),
{
}

/// After a failed refresh the next tick opens the session again, once: where that fails
/// too, ticks do nothing until the user connects.
pub proof fn a_lost_session_is_opened_again_once(
    w: WorkerView,
    s: SharedView,
    cause: Seq<char>,
    secs: u64,
    nanos: u32,
)
    requires
        w.task is Idle,
        !w.linked,
        w.retry,
        w.cfg is Some,
        s.busy is None,
    ensures
        ({
            let e = effect_of(w, s, EventView::Tick, secs, nanos);
            let f = effect_of(e.worker, e.shared, EventView::ConnectFailed(cause), secs, nanos);
            let g = effect_of(f.worker, f.shared, EventView::Tick, secs, nanos);
            &&& e.worker.task == TaskView::Connecting(w.cfg->Some_0)
            &&& e.action matches ActionView::Connect(plan, None) && plan.host
                == w.cfg->Some_0.ssh.host && plan.user == w.cfg->Some_0.ssh.user
            &&& e.shared.conn is Connecting
            &&& g.action == ActionView::Wait && g.worker == f.worker && g.shared == f.shared
        }),
{
}

} // verus!
