//! Writing Palworld settings — the *only* safe order.
//!
//! A running Palworld rewrites `PalWorldSettings.ini` from its in-memory config when it
//! shuts down, so anything written while it's up is silently reverted on the next
//! restart. That also means the on-disk file is stale until the server has stopped, so
//! the file is re-read *after* the stop and that copy is patched, rather than the one
//! the UI was showing.
//!
//! The run is a state machine: each step names the command to run next, or that a second
//! is to be waited, and takes what came of it.
use crate::chars::{chars_of, same_chars, text_of, trim, trimmed};
use crate::config::{PalworldConfig, PalworldView};
use crate::palworld::{fault_text, pairs, read_ini, rendered, with_setting, IniView, PalIni};
use crate::shell::{
    backup_command, backup_line, lenient_output, palworld_ini_command, read_ini_line, run,
    run_lenient, save_command, save_line, state_command, state_line, strict_output, unit_command,
    unit_line, write_command, write_line, Reply, ReplyView,
};
use vstd::prelude::*;
use vstd::slice::slice_subrange;

verus! {

/// How often the server is asked whether it has stopped, a second apart.
pub const CHECKS: u32 = 60;

/// Where a run is: which command was sent last, or that a second is being waited.
#[derive(Debug)]
pub enum Stage {
    Save,
    Stop,
    /// Whether the server is up was asked for the `n`th time …
    Check(u32),
    /// … and it was.
    Pause(u32),
    Read,
    Backup(PalIni),
    Write(PalIni),
    Start(PalIni),
    Over,
}

pub enum StageView {
    Save,
    Stop,
    Check(int),
    Pause(int),
    Read,
    Backup(IniView),
    Write(IniView),
    Start(IniView),
    Over,
}

impl View for Stage {
    type V = StageView;

    open spec fn view(&self) -> StageView {
        match self {
            Stage::Save => StageView::Save,
            Stage::Stop => StageView::Stop,
            Stage::Check(n) => StageView::Check(*n as int),
            Stage::Pause(n) => StageView::Pause(*n as int),
            Stage::Read => StageView::Read,
            Stage::Backup(ini) => StageView::Backup(ini@),
            Stage::Write(ini) => StageView::Write(ini@),
            Stage::Start(ini) => StageView::Start(ini@),
            Stage::Over => StageView::Over,
        }
    }
}

/// What is to be done next.
#[derive(Debug)]
pub enum Do {
    /// Run a command and hand its reply in.
    Run(String),
    /// Wait for a second.
    Sleep,
    /// Nothing: the run is over. The file as it was written, or why it was not.
    Finish(Result<PalIni, String>),
}

pub enum DoView {
    Run(Seq<char>),
    Sleep,
    Finish(Result<IniView, Seq<char>>),
}

impl View for Do {
    type V = DoView;

    open spec fn view(&self) -> DoView {
        match self {
            Do::Run(cmd) => DoView::Run(cmd@),
            Do::Sleep => DoView::Sleep,
            Do::Finish(Ok(ini)) => DoView::Finish(Ok(ini@)),
            Do::Finish(Err(e)) => DoView::Finish(Err(e@)),
        }
    }
}

/// What became of the last thing to do.
#[derive(Debug)]
pub enum Happened {
    Replied(Reply),
    Slept,
}

pub enum HappenedView {
    Replied(ReplyView),
    Slept,
}

impl View for Happened {
    type V = HappenedView;

    open spec fn view(&self) -> HappenedView {
        match self {
            Happened::Replied(r) => HappenedView::Replied(r@),
            Happened::Slept => HappenedView::Slept,
        }
    }
}

/// A step: what to tell the user, if anything new, and what to do.
#[derive(Debug)]
pub struct Move {
    pub progress: Option<&'static str>,
    pub next: Do,
}

pub struct MoveView {
    pub progress: Option<Seq<char>>,
    pub next: DoView,
}

impl View for Move {
    type V = MoveView;

    open spec fn view(&self) -> MoveView {
        MoveView {
            progress: match self.progress {
                Some(s) => Some(s@),
                None => None,
            },
            next: self.next@,
        }
    }
}

// ---------------------------------------------------------------------------
// What the run does
// ---------------------------------------------------------------------------
/// The file with all the changes made, in order.
pub open spec fn changed(ini: IniView, changes: Seq<(Seq<char>, Seq<char>)>) -> IniView
    decreases changes.len(),
{
    if changes.len() == 0 {
        ini
    } else {
        with_setting(
            changed(ini, changes.drop_last()),
            changes.last().0,
            changes.last().1,
        )
    }
}

/// What is written: the file, its last line feed left to the command.
pub open spec fn written(ini: IniView) -> Seq<char> {
    rendered(ini).drop_last()
}

/// Whether a unit in this state has a process that runs, or is about to. One that is
/// shutting down is such a unit.
pub open spec fn still_up(state: Seq<char>) -> bool {
    ||| state == "active"@
    ||| state == "reloading"@
    ||| state == "activating"@
    ||| state == "deactivating"@
}

/// Going on with a command.
pub open spec fn go(progress: Option<Seq<char>>, cmd: Seq<char>) -> MoveView {
    MoveView { progress, next: DoView::Run(cmd) }
}

/// Giving up.
pub open spec fn give_up(why: Seq<char>) -> MoveView {
    MoveView { progress: None, next: DoView::Finish(Err(why)) }
}

/// The first step: save the world. Best-effort: there may be no RCON configured, or the
/// server may be down already.
pub open spec fn first_move(pal: PalworldView) -> MoveView {
    go(Some("ワールドをセーブしています…"@), save_line(pal))
}

/// A command that must not fail: the next step where it did not.
pub open spec fn if_done(
    cmd: Seq<char>,
    reply: ReplyView,
    then_stage: StageView,
    then_move: MoveView,
) -> (StageView, MoveView) {
    match strict_output(cmd, reply) {
        Err(e) => (StageView::Over, give_up(e)),
        Ok(_) => (then_stage, then_move),
    }
}

/// What follows on what happened.
pub open spec fn next_step(
    pal: PalworldView,
    changes: Seq<(Seq<char>, Seq<char>)>,
    stage: StageView,
    happened: HappenedView,
) -> (StageView, MoveView) {
    match (stage, happened) {
        (StageView::Save, HappenedView::Replied(reply)) => (
            StageView::Stop,
            go(Some("Palworld を停止しています…"@), unit_line(pal, "stop"@)),
        ),
        (StageView::Stop, HappenedView::Replied(reply)) => if_done(
            unit_line(pal, "stop"@),
            reply,
            StageView::Check(1),
            go(None, state_line(pal)),
        ),
        // The ini write-back happens during shutdown: wait for the server to exit.
        (StageView::Check(n), HappenedView::Replied(reply)) => match lenient_output(
            state_line(pal),
            reply,
        ) {
            Err(e) => (StageView::Over, give_up(e)),
            Ok(state) => if still_up(trimmed(state)) {
                (StageView::Pause(n), MoveView { progress: None, next: DoView::Sleep })
            } else {
                (
                    StageView::Read,
                    go(Some("設定ファイルを読み直しています…"@), read_ini_line(pal)),
                )
            },
        },
        (StageView::Pause(n), HappenedView::Slept) => if n < CHECKS {
            (StageView::Check(n + 1), go(None, state_line(pal)))
        } else {
            (
                StageView::Over,
                give_up(
                    "Palworld が 60 秒以内に停止しませんでした。設定は変更していません。"@,
                ),
            )
        },
        (StageView::Read, HappenedView::Replied(reply)) => match strict_output(
            read_ini_line(pal),
            reply,
        ) {
            Err(e) => (StageView::Over, give_up(e)),
            Ok(text) => match read_ini(text) {
                Err(f) => (StageView::Over, give_up(fault_text(f))),
                Ok(ini) => (
                    StageView::Backup(ini),
                    go(Some("バックアップを取得しています…"@), backup_line(pal)),
                ),
            },
        },
        (StageView::Backup(ini), HappenedView::Replied(reply)) => if_done(
            backup_line(pal),
            reply,
            StageView::Write(changed(ini, changes)),
            go(
                Some("設定を書き込んでいます…"@),
                write_line(pal, written(changed(ini, changes))),
            ),
        ),
        (StageView::Write(ini), HappenedView::Replied(reply)) => match strict_output(
            write_line(pal, written(ini)),
            reply,
        ) {
            Err(e) => (
                StageView::Over,
                give_up(
                    "設定ファイルの書き込みに失敗しました（バックアップ: .vwatch.bak）: "@
                        + e,
                ),
            ),
            Ok(_) => (
                StageView::Start(ini),
                go(Some("Palworld を起動しています…"@), unit_line(pal, "start"@)),
            ),
        },
        (StageView::Start(ini), HappenedView::Replied(reply)) => if_done(
            unit_line(pal, "start"@),
            reply,
            StageView::Over,
            MoveView { progress: None, next: DoView::Finish(Ok(ini)) },
        ),
        _ => (StageView::Over, give_up(""@)),
    }
}

/// `happened` is what the stage is waiting for.
pub open spec fn awaits(stage: StageView, happened: HappenedView) -> bool {
    match stage {
        StageView::Over => false,
        StageView::Pause(_) => happened is Slept,
        _ => happened is Replied,
    }
}

// ---------------------------------------------------------------------------
// The run
// ---------------------------------------------------------------------------
/// A change of settings under way.
#[derive(Debug)]
pub struct ApplyRun {
    pal: PalworldConfig,
    changes: Vec<(String, String)>,
    stage: Stage,
}

impl ApplyRun {
    pub closed spec fn pal(&self) -> PalworldView {
        self.pal@
    }

    pub closed spec fn changes(&self) -> Seq<(Seq<char>, Seq<char>)> {
        pairs(self.changes@)
    }

    pub closed spec fn stage(&self) -> StageView {
        self.stage@
    }

    /// A file that is held has its `OptionSettings` line, and the checks are counted.
    pub closed spec fn wf(&self) -> bool {
        match self.stage {
            Stage::Backup(ini) => ini.wf(),
            Stage::Write(ini) => ini.wf(),
            Stage::Start(ini) => ini.wf(),
            Stage::Check(n) => 1 <= n <= CHECKS,
            Stage::Pause(n) => 1 <= n <= CHECKS,
            _ => true,
        }
    }

    /// Begins to change settings.
    pub fn begin(pal: PalworldConfig, changes: Vec<(String, String)>) -> (r: (ApplyRun, Move))
        ensures
            r.0.wf(),
            r.0.pal() == pal@,
            r.0.changes() == pairs(changes@),
            r.0.stage() == StageView::Save,
            r.1@ == first_move(pal@),
    {
        let first = Move {
            progress: Some("ワールドをセーブしています…"),
            next: Do::Run(save_command(&pal)),
        };
        (ApplyRun { pal, changes, stage: Stage::Save }, first)
    }

    /// Whether the run waits for a second to pass; otherwise it waits for a reply, or
    /// for nothing where it is over.
    pub fn is_pausing(&self) -> (r: bool)
        ensures
            r == (self.stage() is Pause),
    {
        matches!(self.stage, Stage::Pause(_))
    }

    /// Whether the run is over.
    pub fn is_over(&self) -> (r: bool)
        ensures
            r == (self.stage() is Over),
    {
        matches!(self.stage, Stage::Over)
    }

    /// Takes what happened and says what is next.
    pub fn next(&mut self, happened: Happened) -> (r: Move)
        requires
            old(self).wf(),
            awaits(old(self).stage(), happened@),
        ensures
            final(self).wf(),
            final(self).pal() == old(self).pal(),
            final(self).changes() == old(self).changes(),
            (final(self).stage(), r@) == next_step(
                old(self).pal(),
                old(self).changes(),
                old(self).stage(),
                happened@,
            ),
    {
        let mut stage = Stage::Over;
        std::mem::swap(&mut stage, &mut self.stage);
        let reply = match happened {
            Happened::Slept => {
                return match stage {
                    Stage::Pause(n) => self.pause_over(n),
                    _ => Self::stop_with(String::new()),
                };
            },
            Happened::Replied(reply) => reply,
        };
        match stage {
            Stage::Save => {
                self.stage = Stage::Stop;
                Self::go_on("Palworld を停止しています…", unit_command(&self.pal, "stop"))
            },
            Stage::Stop => match run(unit_command(&self.pal, "stop").as_str(), reply) {
                Err(e) => Self::stop_with(e),
                Ok(_) => {
                    self.stage = Stage::Check(1);
                    Move { progress: None, next: Do::Run(state_command(&self.pal)) }
                },
            },
            Stage::Check(n) => match run_lenient(state_command(&self.pal).as_str(), reply) {
                Err(e) => Self::stop_with(e),
                Ok(state) => {
                    if is_still_up(state.as_str()) {
                        self.stage = Stage::Pause(n);
                        Move { progress: None, next: Do::Sleep }
                    } else {
                        self.stage = Stage::Read;
                        Self::go_on(
                            "設定ファイルを読み直しています…",
                            palworld_ini_command(&self.pal),
                        )
                    }
                },
            },
            Stage::Read => match run(palworld_ini_command(&self.pal).as_str(), reply) {
                Err(e) => Self::stop_with(e),
                Ok(text) => match PalIni::parse(text.as_str()) {
                    Err(e) => Self::stop_with(e.message()),
                    Ok(ini) => {
                        self.stage = Stage::Backup(ini);
                        Self::go_on(
                            "バックアップを取得しています…",
                            backup_command(&self.pal),
                        )
                    },
                },
            },
            Stage::Backup(ini) => match run(backup_command(&self.pal).as_str(), reply) {
                Err(e) => Self::stop_with(e),
                Ok(_) => {
                    let ini = change_all(ini, &self.changes);
                    let cmd = write_command(&self.pal, body(&ini).as_str());
                    self.stage = Stage::Write(ini);
                    Self::go_on("設定を書き込んでいます…", cmd)
                },
            },
            Stage::Write(ini) => {
                let cmd = write_command(&self.pal, body(&ini).as_str());
                match run(cmd.as_str(), reply) {
                    Err(e) => {
                        let mut why =
                            "設定ファイルの書き込みに失敗しました（バックアップ: .vwatch.bak）: ".to_owned();
                        why.append(e.as_str());
                        Self::stop_with(why)
                    },
                    Ok(_) => {
                        self.stage = Stage::Start(ini);
                        Self::go_on(
                            "Palworld を起動しています…",
                            unit_command(&self.pal, "start"),
                        )
                    },
                }
            },
            Stage::Start(ini) => match run(unit_command(&self.pal, "start").as_str(), reply) {
                Err(e) => Self::stop_with(e),
                Ok(_) => Move { progress: None, next: Do::Finish(Ok(ini)) },
            },
            _ => Self::stop_with(String::new()),
        }
    }

    fn pause_over(&mut self, n: u32) -> (r: Move)
        requires
            1 <= n <= CHECKS,
            old(self).wf(),
            old(self).stage() == StageView::Over,
        ensures
            final(self).wf(),
            final(self).pal() == old(self).pal(),
            final(self).changes() == old(self).changes(),
            (final(self).stage(), r@) == next_step(
                old(self).pal(),
                old(self).changes(),
                StageView::Pause(n as int),
                HappenedView::Slept,
            ),
    {
        if n < CHECKS {
            self.stage = Stage::Check(n + 1);
            Move { progress: None, next: Do::Run(state_command(&self.pal)) }
        } else {
            Self::stop_with(
                "Palworld が 60 秒以内に停止しませんでした。設定は変更していません。".to_owned(),
            )
        }
    }

    fn go_on(progress: &'static str, cmd: String) -> (r: Move)
        ensures
            r@ == go(Some(progress@), cmd@),
    {
        Move { progress: Some(progress), next: Do::Run(cmd) }
    }

    fn stop_with(why: String) -> (r: Move)
        ensures
            r@ == give_up(why@),
    {
        Move { progress: None, next: Do::Finish(Err(why)) }
    }
}

/// Whether a printed state is that of a unit that is not down yet.
fn is_still_up(state: &str) -> (r: bool)
    ensures
        r == still_up(trimmed(state@)),
{
    let all = chars_of(state);
    let word = trim(all.as_slice());
    same_chars(word, chars_of("active").as_slice()) || same_chars(
        word,
        chars_of("reloading").as_slice(),
    ) || same_chars(word, chars_of("activating").as_slice()) || same_chars(
        word,
        chars_of("deactivating").as_slice(),
    )
}

/// Makes all the changes.
fn change_all(ini: PalIni, changes: &Vec<(String, String)>) -> (r: PalIni)
    requires
        ini.wf(),
    ensures
        r.wf(),
        r@ == changed(ini@, pairs(changes@)),
{
    let mut out = ini;
    let ghost first = out@;
    let ghost all = pairs(changes@);
    let mut i: usize = 0;
    assert(all.take(0) =~= Seq::empty());
    while i < changes.len()
        invariant
            i <= changes.len(),
            all == pairs(changes@),
            out.wf(),
            out@ == changed(first, all.take(i as int)),
        decreases changes.len() - i,
    {
        proof {
            assert(all.take(i + 1).drop_last() =~= all.take(i as int));
            assert(all.take(i + 1).last() == (changes@[i as int].0@, changes@[i as int].1@));
        }
        out.set(changes[i].0.as_str(), changes[i].1.as_str());
        i += 1;
    }
    assert(all.take(i as int) =~= all);
    out
}

/// What is written of a file.
fn body(ini: &PalIni) -> (r: String)
    requires
        ini.wf(),
    ensures
        r@ == written(ini@),
{
    let text = ini.render();
    let all = chars_of(text.as_str());
    let kept = slice_subrange(all.as_slice(), 0, all.len() - 1);
    assert(kept@ =~= all@.drop_last());
    text_of(kept)
}

} // verus!
