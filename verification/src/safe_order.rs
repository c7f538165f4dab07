//! What holds of every change of settings, whatever the host replies.
use crate::apply::{
    awaits, changed, first_move, next_step, written, CHECKS, DoView, HappenedView,
    MoveView, StageView,
};
use crate::chars::{first_at, lemma_first_at, lemma_first_at_is, pieces_of, rows_of, trimmed};
use crate::config::PalworldView;
use crate::palworld::{read_ini, rendered, IniFault, IniView};
use crate::round_trip::{reread, storable, usable, written_settings_are_read_back};
use crate::shell::{
    backup_line, lenient_output, quoted, read_ini_line, state_line, strict_output, sudo_prefix,
    write_line,
};
use vstd::prelude::*;

verus! {

/// Where a run is after all that has happened, and its last step.
pub open spec fn run_after(
    pal: PalworldView,
    changes: Seq<(Seq<char>, Seq<char>)>,
    events: Seq<HappenedView>,
) -> (StageView, MoveView)
    decreases events.len(),
{
    if events.len() == 0 {
        (StageView::Save, first_move(pal))
    } else {
        next_step(
            pal,
            changes,
            run_after(pal, changes, events.drop_last()).0,
            events.last(),
        )
    }
}

/// Each event is one that the run was waiting for.
pub open spec fn played(
    pal: PalworldView,
    changes: Seq<(Seq<char>, Seq<char>)>,
    events: Seq<HappenedView>,
) -> bool
    decreases events.len(),
{
    events.len() == 0 || {
        &&& played(pal, changes, events.drop_last())
        &&& awaits(run_after(pal, changes, events.drop_last()).0, events.last())
    }
}

/// The host was asked for the server's state and printed one in which it is down.
pub open spec fn seen_stopped(pal: PalworldView, event: HappenedView) -> bool {
    event matches HappenedView::Replied(reply) && (lenient_output(state_line(pal), reply) matches Ok(
        state,
    ) && trimmed(state) != "active"@ && trimmed(state) != "reloading"@ && trimmed(state)
        != "activating"@ && trimmed(state) != "deactivating"@)
}

/// Settings are written only when the server was seen to have stopped. What is written
/// is the file as it was read after that, with the changes made, and the file was
/// copied aside before.
pub proof fn settings_are_written_to_a_stopped_server(
    pal: PalworldView,
    changes: Seq<(Seq<char>, Seq<char>)>,
    events: Seq<HappenedView>,
    ini: IniView,
)
    requires
        played(pal, changes, events),
        run_after(pal, changes, events).0 == StageView::Write(ini),
    ensures
        ({
            let n = events.len() as int;
            &&& n >= 3
            &&& run_after(pal, changes, events.take(n - 3)).0 is Check
            &&& seen_stopped(pal, events[n - 3])
            &&& events[n - 2] matches HappenedView::Replied(got) && (strict_output(
                read_ini_line(pal),
                got,
            ) matches Ok(text) && (read_ini(text) matches Ok(file) && ini == changed(file, changes)))
            &&& events[n - 1] matches HappenedView::Replied(copied) && strict_output(
                backup_line(pal),
                copied,
            ) is Ok
            &&& run_after(pal, changes, events).1.next == DoView::Run(write_line(pal, written(ini)))
        }),
{
    let n = events.len() as int;
    let e1 = events.drop_last();
    let e2 = e1.drop_last();
    let e3 = e2.drop_last();
    reveal_with_fuel(run_after, 4);
    reveal_with_fuel(played, 4);
    assert(run_after(pal, changes, e1).0 is Backup);
    assert(run_after(pal, changes, e2).0 is Read);
    assert(run_after(pal, changes, e3).0 is Check);
    assert(e3 =~= events.take(n - 3));
    assert(e2.last() == events[n - 3]);
    assert(e1.last() == events[n - 2]);
}

/// No stage of writing was reached.
spec fn untouched(stage: StageView) -> bool {
    !(stage is Read) && !(stage is Backup) && !(stage is Write) && !(stage is Start)
}

/// As long as the server was not seen to have stopped, the file has been neither read nor
/// written, and the server not been started, neither now nor at any time before.
pub proof fn nothing_is_written_to_a_running_server(
    pal: PalworldView,
    changes: Seq<(Seq<char>, Seq<char>)>,
    events: Seq<HappenedView>,
    j: int,
)
    requires
        played(pal, changes, events),
        forall|k: int|
            0 <= k < events.len() && run_after(pal, changes, events.take(k)).0 is Check
                ==> !seen_stopped(pal, #[trigger] events[k]),
        0 <= j <= events.len(),
    ensures
        !(run_after(pal, changes, events.take(j)).0 is Read),
        !(run_after(pal, changes, events.take(j)).0 is Backup),
        !(run_after(pal, changes, events.take(j)).0 is Write),
        !(run_after(pal, changes, events.take(j)).0 is Start),
{
    lemma_untouched(pal, changes, events, j);
}

proof fn lemma_untouched(
    pal: PalworldView,
    changes: Seq<(Seq<char>, Seq<char>)>,
    events: Seq<HappenedView>,
    j: int,
)
    requires
        played(pal, changes, events),
        forall|k: int|
            0 <= k < events.len() && run_after(pal, changes, events.take(k)).0 is Check
                ==> !seen_stopped(pal, #[trigger] events[k]),
        0 <= j <= events.len(),
    ensures
        untouched(run_after(pal, changes, events.take(j)).0),
    decreases j,
{
    if j > 0 {
        lemma_untouched(pal, changes, events, j - 1);
        assert(events.take(j).drop_last() =~= events.take(j - 1));
        assert(events.take(j).last() == events[j - 1]);
    }
}

/// The run has told that the server did not stop in time.
pub open spec fn timed_out(move_: MoveView) -> bool {
    move_.next == DoView::Finish(
        Err("Palworld が 60 秒以内に停止しませんでした。設定は変更していません。"@),
    )
}

/// The steps that are left at most.
spec fn steps_to_go(stage: StageView) -> int {
    match stage {
        StageView::Save => 2 * CHECKS + 5,
        StageView::Stop => 2 * CHECKS + 4,
        StageView::Check(n) => 2 * (CHECKS - n) + 5,
        StageView::Pause(n) => 2 * (CHECKS - n) + 4,
        StageView::Read => 4,
        StageView::Backup(_) => 3,
        StageView::Write(_) => 2,
        StageView::Start(_) => 1,
        StageView::Over => 0,
    }
}

spec fn counted(stage: StageView) -> bool {
    match stage {
        StageView::Check(n) => 1 <= n <= CHECKS,
        StageView::Pause(n) => 1 <= n <= CHECKS,
        _ => true,
    }
}

proof fn lemma_steps(
    pal: PalworldView,
    changes: Seq<(Seq<char>, Seq<char>)>,
    events: Seq<HappenedView>,
)
    requires
        played(pal, changes, events),
    ensures
        counted(run_after(pal, changes, events).0),
        events.len() + steps_to_go(run_after(pal, changes, events).0) <= 2 * CHECKS + 5,
    decreases events.len(),
{
    if events.len() > 0 {
        lemma_steps(pal, changes, events.drop_last());
    }
}

/// Every run ends: the server is asked a limited number of times whether it has stopped,
/// and each other command is sent once.
pub proof fn every_run_ends(
    pal: PalworldView,
    changes: Seq<(Seq<char>, Seq<char>)>,
    events: Seq<HappenedView>,
)
    requires
        played(pal, changes, events),
    ensures
        events.len() <= 125,
        events.len() == 125 ==> run_after(pal, changes, events).0 is Over,
{
    lemma_steps(pal, changes, events);
}

/// Where the server did not stop in time, it was asked sixty times, a second apart, and
/// nothing has been written.
pub proof fn a_timeout_changes_nothing(
    pal: PalworldView,
    changes: Seq<(Seq<char>, Seq<char>)>,
    events: Seq<HappenedView>,
    j: int,
)
    requires
        played(pal, changes, events),
        events.len() > 0,
        events.last() is Slept,
        run_after(pal, changes, events).0 is Over,
        0 <= j <= events.len(),
    ensures
        timed_out(run_after(pal, changes, events).1),
        events.len() == 2 + 2 * 60,
        !(run_after(pal, changes, events.take(j)).0 is Write),
{
    let n = events.len() as int;
    let before = events.drop_last();
    assert(run_after(pal, changes, before).0 is Pause);
    lemma_waiting(pal, changes, before);
    lemma_steps(pal, changes, before);
    assert(events.take(n) =~= events);
    if j < n {
        assert(before.take(j) =~= events.take(j));
        lemma_waiting_before(pal, changes, before, j);
    }
}

/// A run that is waiting for the server to stop has asked as often as it counts.
proof fn lemma_waiting(
    pal: PalworldView,
    changes: Seq<(Seq<char>, Seq<char>)>,
    events: Seq<HappenedView>,
)
    requires
        played(pal, changes, events),
    ensures
        match run_after(pal, changes, events).0 {
            StageView::Save => events.len() == 0,
            StageView::Stop => events.len() == 1,
            StageView::Check(n) => events.len() == 2 * n && n >= 1,
            StageView::Pause(n) => events.len() == 2 * n + 1 && n >= 1,
            _ => true,
        },
    decreases events.len(),
{
    if events.len() > 0 {
        lemma_waiting(pal, changes, events.drop_last());
    }
}

proof fn lemma_waiting_before(
    pal: PalworldView,
    changes: Seq<(Seq<char>, Seq<char>)>,
    events: Seq<HappenedView>,
    j: int,
)
    requires
        played(pal, changes, events),
        run_after(pal, changes, events).0 is Pause || run_after(pal, changes, events).0 is Check
            || run_after(pal, changes, events).0 is Stop || run_after(
            pal,
            changes,
            events,
        ).0 is Save,
        0 <= j <= events.len(),
    ensures
        untouched(run_after(pal, changes, events.take(j)).0),
    decreases events.len(),
{
    if j == events.len() {
        assert(events.take(j) =~= events);
    } else {
        lemma_waiting_before(pal, changes, events.drop_last(), j);
        assert(events.drop_last().take(j) =~= events.take(j));
    }
}

/// A run that succeeds has written the file that it gives back, and started the server
/// after that.
pub proof fn success_means_written(
    pal: PalworldView,
    changes: Seq<(Seq<char>, Seq<char>)>,
    events: Seq<HappenedView>,
    ini: IniView,
)
    requires
        played(pal, changes, events),
        run_after(pal, changes, events).1.next == DoView::Finish(Ok(ini)),
    ensures
        ({
            let n = events.len() as int;
            &&& n >= 2
            &&& run_after(pal, changes, events.take(n - 2)).0 == StageView::Write(ini)
            &&& run_after(pal, changes, events.take(n - 1)).0 == StageView::Start(ini)
            &&& events[n - 2] matches HappenedView::Replied(reply) && strict_output(
                write_line(pal, written(ini)),
                reply,
            ) is Ok
        }),
{
    let n = events.len() as int;
    let e1 = events.drop_last();
    let e2 = e1.drop_last();
    reveal_with_fuel(run_after, 3);
    reveal_with_fuel(played, 3);
    assert(run_after(pal, changes, e1).0 == StageView::Start(ini));
    assert(run_after(pal, changes, e2).0 == StageView::Write(ini));
    assert(e1 =~= events.take(n - 1));
    assert(e2 =~= events.take(n - 2));
    assert(e1.last() == events[n - 2]);
}

// ---------------------------------------------------------------------------
// What the host's file holds afterwards
// ---------------------------------------------------------------------------
/// What was written is read back from the host: the same settings in the same order, and
/// every other line as it was.
pub proof fn written_files_are_read_back(ini: IniView)
    requires
        usable(ini),
        storable(ini.options),
    ensures
        read_ini(written(ini).push('\n')) == Ok::<IniView, IniFault>(reread(ini)),
{
    written_settings_are_read_back(ini);
    assert(written(ini).push('\n') =~= rendered(ini));
}

/// What a shell hands on as input where a script has `<<'tag'` on the line before
/// `rows`: the rows in front of the first that is the tag, to the letter.
pub open spec fn heredoc(rows: Seq<Seq<char>>, tag: Seq<char>) -> Seq<char>
    decreases rows.len(),
{
    if rows.len() == 0 || rows[0] == tag {
        Seq::empty()
    } else {
        rows[0].push('\n') + heredoc(rows.drop_first(), tag)
    }
}

/// The line of the write command in front of the file.
pub open spec fn write_head(pal: PalworldView) -> Seq<char> {
    sudo_prefix(pal.sudo) + "tee "@ + quoted(pal.ini_path) + " > /dev/null <<'VWATCH_EOF'\n"@
}

/// The write command hands the file on to the letter, its last line ended, unless one of
/// its lines is the word that ends the input.
pub proof fn the_file_reaches_the_host(pal: PalworldView, body: Seq<char>)
    requires
        forall|i: int|
            0 <= i < pieces_of(body, '\n').len() ==> #[trigger] pieces_of(body, '\n')[i]
                != "VWATCH_EOF"@,
    ensures
        write_line(pal, body) == write_head(pal) + (body + "\nVWATCH_EOF"@),
        heredoc(rows_of(body + "\nVWATCH_EOF"@), "VWATCH_EOF"@) == body.push('\n'),
{
    assert(write_line(pal, body) =~= write_head(pal) + (body + "\nVWATCH_EOF"@));
    lemma_heredoc(body);
}

proof fn lemma_heredoc(body: Seq<char>)
    requires
        forall|i: int|
            0 <= i < pieces_of(body, '\n').len() ==> #[trigger] pieces_of(body, '\n')[i]
                != "VWATCH_EOF"@,
    ensures
        heredoc(rows_of(body + "\nVWATCH_EOF"@), "VWATCH_EOF"@) == body.push('\n'),
    decreases body.len(),
{
    let tag = "VWATCH_EOF"@;
    reveal_strlit("VWATCH_EOF");
    reveal_strlit("\nVWATCH_EOF");
    assert("\nVWATCH_EOF"@ =~= seq!['\n'] + tag);
    let text = body + "\nVWATCH_EOF"@;
    let k = first_at(body, '\n');
    lemma_first_at(body, '\n');
    let pieces = pieces_of(body, '\n');
    assert(pieces[0] != tag);
    assert forall|i: int| 0 <= i < k implies #[trigger] text[i] != '\n' by {
        assert(text[i] == body[i]);
    }
    assert(text[k] == '\n');
    lemma_first_at_is(text, '\n', k);
    let row = body.take(k);
    assert(text.take(k) =~= row);
    let rest = text.skip(k + 1);
    let rows = rows_of(text);
    assert(rows =~= seq![row] + rows_of(rest));
    assert(rows.drop_first() =~= rows_of(rest));
    if k < body.len() {
        let later = body.skip(k + 1);
        assert(rest =~= later + "\nVWATCH_EOF"@);
        assert forall|i: int| 0 <= i < pieces_of(later, '\n').len() implies #[trigger] pieces_of(
            later,
            '\n',
        )[i] != tag by {
            assert(pieces[i + 1] == pieces_of(later, '\n')[i]);
        }
        lemma_heredoc(later);
        assert(row.push('\n') + later.push('\n') =~= body.push('\n'));
    } else {
        assert(row =~= body);
        assert(rest =~= tag);
        lemma_first_at(tag, '\n');
        assert(first_at(tag, '\n') == tag.len()) by {
            lemma_first_at_is(tag, '\n', tag.len() as int);
        }
        assert(rows_of(rest) =~= seq![tag]);
        assert(heredoc(rows_of(rest), tag) =~= Seq::empty());
        assert(row.push('\n') + Seq::empty() =~= body.push('\n'));
    }
}

} // verus!
