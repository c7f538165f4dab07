//! What holds of the worker, whatever is asked of it and whatever the host replies.
use crate::apply::{changed, written, HappenedView};
use crate::config::ConfigView;
use crate::model::{no_snapshot, Sample, SnapshotView};
use crate::palworld::{key_at, lemma_key_at, lemma_key_is, lookup, read_ini, IniView};
use crate::poll::{poll_step, Asked, PollView};
use crate::report::{metrics_of, METRICS_SCRIPT};
use crate::requests::listed_active;
use crate::round_trip::{balanced, lasting, reread, set_changes_one_key, storable, usable};
use crate::safe_order::written_files_are_read_back;
use crate::screen::{synced, EditorView};
use crate::shell::{plan_for, strict_output, ReplyView};
use crate::worker::{
    at_work, brought, diff_of, effect_of, expected, mem_share, newest, HISTORY_LEN, ActionView,
    CmdView, ConnState, EventView, SharedView, TaskView, WorkerView,
};
use vstd::prelude::*;

verus! {

// ---------------------------------------------------------------------------
// Changes
// ---------------------------------------------------------------------------
/// No key is listed twice.
pub open spec fn distinct_keys(options: Seq<(Seq<char>, Seq<char>)>) -> bool {
    forall|i: int, j: int|
        0 <= i < j < options.len() ==> (#[trigger] options[i]).0 != (#[trigger] options[j]).0
}

/// The last value for a key in a list of changes.
pub open spec fn last_value(changes: Seq<(Seq<char>, Seq<char>)>, key: Seq<char>) -> Option<Seq<char>>
    decreases changes.len(),
{
    if changes.len() == 0 {
        None
    } else if changes.last().0 == key {
        Some(changes.last().1)
    } else {
        last_value(changes.drop_last(), key)
    }
}

proof fn lemma_changed(ini: IniView, changes: Seq<(Seq<char>, Seq<char>)>, key: Seq<char>)
    ensures
        lookup(changed(ini, changes).options, key) == (match last_value(changes, key) {
            Some(v) => Some(v),
            None => lookup(ini.options, key),
        }),
    decreases changes.len(),
{
    if changes.len() > 0 {
        lemma_changed(ini, changes.drop_last(), key);
        set_changes_one_key(
            changed(ini, changes.drop_last()).options,
            changes.last().0,
            changes.last().1,
            key,
        );
    }
}

proof fn lemma_lookup_last(options: Seq<(Seq<char>, Seq<char>)>, key: Seq<char>)
    requires
        options.len() > 0,
        distinct_keys(options),
    ensures
        distinct_keys(options.drop_last()),
        lookup(options, key) == (if options.last().0 == key {
            Some(options.last().1)
        } else {
            lookup(options.drop_last(), key)
        }),
        options.last().0 == key ==> lookup(options.drop_last(), key) is None,
{
    let t = options.drop_last();
    assert forall|i: int, j: int| 0 <= i < j < t.len() implies (#[trigger] t[i]).0
        != (#[trigger] t[j]).0 by {
        assert(t[i] == options[i] && t[j] == options[j]);
    }
    lemma_key_at(t, key);
    let k = key_at(t, key);
    if options.last().0 == key {
        assert forall|i: int| 0 <= i < t.len() implies (#[trigger] t[i]).0 != key by {
            assert(t[i] == options[i]);
            assert(options[i].0 != options[options.len() - 1].0);
        }
        lemma_key_is(t, key, t.len() as int);
        assert forall|i: int| 0 <= i < t.len() implies (#[trigger] options[i]).0 != key by {
            assert(t[i] == options[i]);
        }
        lemma_key_is(options, key, options.len() - 1);
    } else {
        assert forall|i: int| 0 <= i < k implies (#[trigger] options[i]).0 != key by {
            assert(t[i] == options[i]);
        }
        if k < t.len() {
            assert(t[k] == options[k]);
            lemma_key_is(options, key, k);
        } else {
            assert forall|i: int| 0 <= i < options.len() implies (#[trigger] options[i]).0
                != key by {
                if i < t.len() {
                    assert(t[i] == options[i]);
                }
            }
            lemma_key_is(options, key, options.len() as int);
        }
    }
}

proof fn lemma_diff(
    original: Seq<(Seq<char>, Seq<char>)>,
    edited: Seq<(Seq<char>, Seq<char>)>,
    key: Seq<char>,
)
    requires
        distinct_keys(edited),
    ensures
        last_value(diff_of(original, edited), key) == (if lookup(edited, key) is Some && lookup(
            edited,
            key,
        ) != lookup(original, key) {
            lookup(edited, key)
        } else {
            None
        }),
    decreases edited.len(),
{
    if edited.len() == 0 {
        assert(lookup(edited, key) is None);
    } else {
        let before = diff_of(original, edited.drop_last());
        lemma_lookup_last(edited, key);
        lemma_diff(original, edited.drop_last(), key);
        if lookup(original, edited.last().0) != Some(edited.last().1) {
            assert(before.push(edited.last()).drop_last() =~= before);
        }
    }
}

/// Making the differences in the server's file makes it read as the edited one, for
/// every key of that one; a key that was not edited keeps its value.
pub proof fn changes_bring_the_edit(original: IniView, edited: IniView, key: Seq<char>)
    requires
        distinct_keys(edited.options),
    ensures
        lookup(edited.options, key) is Some ==> lookup(
            changed(original, diff_of(original.options, edited.options)).options,
            key,
        ) == lookup(edited.options, key),
        lookup(edited.options, key) is None ==> lookup(
            changed(original, diff_of(original.options, edited.options)).options,
            key,
        ) == lookup(original.options, key),
{
    lemma_changed(original, diff_of(original.options, edited.options), key);
    lemma_diff(original.options, edited.options, key);
}

/// Every setting survives being written, wherever it stands.
pub open spec fn well_kept(options: Seq<(Seq<char>, Seq<char>)>) -> bool {
    forall|i: int|
        0 <= i < options.len() ==> lasting((#[trigger] options[i]).0, options[i].1) && balanced(
            options[i].0,
            options[i].1,
        )
}

/// Changes that survive being written leave a file that does.
pub proof fn changes_keep_a_file_writable(
    ini: IniView,
    changes: Seq<(Seq<char>, Seq<char>)>,
)
    requires
        well_kept(ini.options),
        well_kept(changes),
    ensures
        well_kept(changed(ini, changes).options),
        storable(changed(ini, changes).options),
        changed(ini, changes).lines == ini.lines,
        changed(ini, changes).option_line == ini.option_line,
    decreases changes.len(),
{
    if changes.len() > 0 {
        let t = changes.drop_last();
        assert forall|i: int| 0 <= i < t.len() implies lasting((#[trigger] t[i]).0, t[i].1)
            && balanced(t[i].0, t[i].1) by {
            assert(t[i] == changes[i]);
        }
        changes_keep_a_file_writable(ini, t);
        let before = changed(ini, t).options;
        let after = changed(ini, changes).options;
        let (k, v) = changes.last();
        assert(changes[changes.len() - 1] == (k, v));
        lemma_key_at(before, k);
        let at = key_at(before, k);
        assert forall|i: int| 0 <= i < after.len() implies lasting((#[trigger] after[i]).0, after[i].1)
            && balanced(after[i].0, after[i].1) by {
            if i != at {
                assert(after[i] == before[i]);
            }
        }
    }
}

/// Applied changes are on the host: the file that is written there reads back with the
/// last change of every key, every other setting as it was, and every other line as it
/// was.
pub proof fn applied_changes_are_on_the_host(
    file: IniView,
    changes: Seq<(Seq<char>, Seq<char>)>,
    key: Seq<char>,
)
    requires
        usable(file),
        well_kept(file.options),
        well_kept(changes),
    ensures
        ({
            let ini = changed(file, changes);
            read_ini(written(ini).push('\n')) matches Ok(again) && {
                &&& again.options == ini.options
                &&& again.lines == reread(ini).lines
                &&& lookup(again.options, key) == (match last_value(changes, key) {
                    Some(v) => Some(v),
                    None => lookup(file.options, key),
                })
            }
        }),
{
    changes_keep_a_file_writable(file, changes);
    written_files_are_read_back(changed(file, changes));
    lemma_changed(file, changes, key);
}

/// What was not edited makes no difference.
pub proof fn no_edit_no_change(options: Seq<(Seq<char>, Seq<char>)>)
    requires
        distinct_keys(options),
    ensures
        diff_of(options, options) == Seq::<(Seq<char>, Seq<char>)>::empty(),
{
    assert(options.take(options.len() as int) =~= options);
    lemma_no_change(options, options);
}

proof fn lemma_no_change(
    original: Seq<(Seq<char>, Seq<char>)>,
    edited: Seq<(Seq<char>, Seq<char>)>,
)
    requires
        distinct_keys(original),
        edited.len() <= original.len(),
        edited == original.take(edited.len() as int),
    ensures
        diff_of(original, edited) == Seq::<(Seq<char>, Seq<char>)>::empty(),
    decreases edited.len(),
{
    if edited.len() > 0 {
        let n = edited.len() - 1;
        assert(edited.drop_last() =~= original.take(n as int));
        lemma_no_change(original, edited.drop_last());
        let (k, v) = original[n as int];
        assert(edited.last() == (k, v));
        assert forall|i: int| 0 <= i < n implies (#[trigger] original[i]).0 != k by {
            assert(original[i].0 != original[n as int].0);
        }
        lemma_key_is(original, k, n as int);
    }
}

/// Every difference is an edited setting that the server's file has not.
pub proof fn changes_are_edits(
    original: Seq<(Seq<char>, Seq<char>)>,
    edited: Seq<(Seq<char>, Seq<char>)>,
    i: int,
)
    requires
        0 <= i < diff_of(original, edited).len(),
    ensures
        edited.contains(diff_of(original, edited)[i]),
        lookup(original, diff_of(original, edited)[i].0) != Some(diff_of(original, edited)[i].1),
    decreases edited.len(),
{
    let all = diff_of(original, edited);
    let before = diff_of(original, edited.drop_last());
    if i < before.len() {
        changes_are_edits(original, edited.drop_last(), i);
        assert(all[i] == before[i]);
        let j = choose|j: int| 0 <= j < edited.drop_last().len() && edited.drop_last()[j] == all[i];
        assert(edited[j] == all[i]);
    } else {
        assert(all[i] == edited.last());
        assert(edited[edited.len() - 1] == all[i]);
    }
}

// ---------------------------------------------------------------------------
// The worker
// ---------------------------------------------------------------------------
/// The history never has more than 240 samples and the log no more than 200 lines, and
/// the worker reads and acts only over a session.
pub proof fn limits_are_kept(
    w: WorkerView,
    s: SharedView,
    event: EventView,
    secs: u64,
    nanos: u32,
    w2: WorkerView,
    s2: SharedView,
    action: ActionView,
)
    requires
        at_work(w),
        s.history.len() <= 240,
        s.log.len() <= 200,
        expected(w.task, event),
        brought(effect_of(w, s, event, secs, nanos), w2, s2, action),
    ensures
        at_work(w2),
        s2.history.len() <= 240,
        s2.log.len() <= 200,
{
}

/// Something is shown as in flight exactly while a unit is acted on or settings are
/// changed.
pub open spec fn busy_is_right(w: WorkerView, s: SharedView) -> bool {
    s.busy is Some <==> w.task is Acting || w.task is Applying
}

/// The buttons are disabled exactly while something is in flight.
pub proof fn busy_while_in_flight(
    w: WorkerView,
    s: SharedView,
    event: EventView,
    secs: u64,
    nanos: u32,
    w2: WorkerView,
    s2: SharedView,
    action: ActionView,
)
    requires
        at_work(w),
        busy_is_right(w, s),
        expected(w.task, event),
        brought(effect_of(w, s, event, secs, nanos), w2, s2, action),
    ensures
        busy_is_right(w2, s2),
{
}

/// A refresh that fails drops the session, and the next tick opens another with the same
/// configuration.
pub proof fn a_failed_refresh_reconnects(
    w: WorkerView,
    s: SharedView,
    reply: ReplyView,
    secs: u64,
    nanos: u32,
    w2: WorkerView,
    s2: SharedView,
    action: ActionView,
)
    requires
        at_work(w),
        busy_is_right(w, s),
        w.task matches TaskView::Polling(asked, _) && asked == Asked::Metrics,
        strict_output(METRICS_SCRIPT@, reply) is Err,
        brought(
            effect_of(w, s, EventView::Happened(HappenedView::Replied(reply)), secs, nanos),
            w2,
            s2,
            action,
        ),
    ensures
        !w2.linked,
        s2.conn == ConnState::Failed(strict_output(METRICS_SCRIPT@, reply)->Err_0),
        s2.snap == s.snap,
        action == ActionView::Wait,
        ({
            let next = effect_of(w2, s2, EventView::Tick, secs, nanos);
            &&& next.action == ActionView::Connect(plan_for(w.cfg->Some_0), None)
            &&& next.worker.task == TaskView::Connecting(w.cfg->Some_0)
        }),
{
}

/// A tick changes nothing while something is in flight, and nothing where there is no
/// session that was lost.
pub proof fn a_tick_disturbs_nothing(w: WorkerView, s: SharedView, secs: u64, nanos: u32)
    requires
        w.task is Idle,
        s.busy is Some || (!w.linked && !w.retry),
    ensures
        ({
            let e = effect_of(w, s, EventView::Tick, secs, nanos);
            e.worker == w && e.shared == s && e.note is None && e.action == ActionView::Wait
        }),
{
}

/// Without a session no command is sent to the host.
pub proof fn no_session_no_command(
    w: WorkerView,
    s: SharedView,
    event: EventView,
    secs: u64,
    nanos: u32,
)
    requires
        w.task is Idle,
        !w.linked,
        expected(w.task, event),
    ensures
        !(effect_of(w, s, event, secs, nanos).action is Run),
{
}

/// Disconnecting drops the session and everything that was shown of the host; nothing
/// but a new connection brings it back.
pub proof fn disconnecting_clears(w: WorkerView, s: SharedView, secs: u64, nanos: u32)
    requires
        w.task is Idle,
    ensures
        ({
            let e = effect_of(w, s, EventView::Cmd(CmdView::Disconnect), secs, nanos);
            &&& !e.worker.linked && !e.worker.retry
            &&& e.shared.conn == ConnState::Disconnected
            &&& e.shared.snap == no_snapshot()
            &&& effect_of(e.worker, e.shared, EventView::Tick, secs, nanos).action
                == ActionView::Wait
        }),
{
}

/// A refresh makes a new revision exactly where the settings file is another than the
/// one shown before, so that what the user is editing is left alone otherwise.
pub proof fn a_revision_is_a_new_file(
    w: WorkerView,
    s: SharedView,
    reply: ReplyView,
    secs: u64,
    nanos: u32,
)
    requires
        at_work(w),
        w.task is Polling,
        s.pal_revision < u64::MAX,
    ensures
        ({
            let e = effect_of(w, s, EventView::Happened(HappenedView::Replied(reply)), secs, nanos);
            (e.shared.pal_revision != s.pal_revision) <==> (e.shared.snap.palworld_ini
                != s.snap.palworld_ini)
        }),
{
}

/// A refresh that finds the same settings file leaves what the user is editing alone;
/// one that finds another replaces it.
pub proof fn edits_survive_a_refresh(
    w: WorkerView,
    s: SharedView,
    reply: ReplyView,
    secs: u64,
    nanos: u32,
    editor: EditorView,
)
    requires
        at_work(w),
        w.task is Polling,
        s.pal_revision < u64::MAX,
        editor.seen_revision == s.pal_revision,
    ensures
        ({
            let e = effect_of(w, s, EventView::Happened(HappenedView::Replied(reply)), secs, nanos);
            let after = synced(editor, e.shared.pal_revision, e.shared.snap.palworld_ini);
            if e.shared.snap.palworld_ini == s.snap.palworld_ini {
                after == editor
            } else {
                after.edit == e.shared.snap.palworld_ini
            }
        }),
{
    a_revision_is_a_new_file(w, s, reply, secs, nanos);
}

/// The newest items are kept, in order.
pub proof fn the_newest_are_kept<A>(s: Seq<A>, x: A, n: nat)
    requires
        n > 0,
    ensures
        newest(s.push(x), n).len() <= n,
        newest(s.push(x), n).last() == x,
        s.len() < n ==> newest(s.push(x), n) == s.push(x),
        s.len() == n ==> newest(s.push(x), n) == s.drop_first().push(x),
{
    if s.len() == n {
        assert(newest(s.push(x), n) =~= s.drop_first().push(x));
    }
}

// ---------------------------------------------------------------------------
// The refresh
// ---------------------------------------------------------------------------
/// The players are asked for only where the settings file was asked for before them and
/// the server's unit is running; units, apps and settings only where the configuration
/// wants them.
pub proof fn only_what_is_wanted_is_asked(
    cfg: ConfigView,
    asked: Asked,
    snap: SnapshotView,
    reply: ReplyView,
)
    ensures
        poll_step(cfg, asked, snap, reply) matches PollView::Ask(next, known, cmd) ==> match next {
            Asked::Metrics => false,
            Asked::Services => asked == Asked::Metrics && cfg.services.len() > 0,
            Asked::Pm2 => cfg.show_pm2,
            Asked::Ini => cfg.palworld.enabled,
            Asked::Players => asked == Asked::Ini && listed_active(
                known.services,
                cfg.palworld.service,
            ),
        },
{
}

/// A reply, and the time since the start at which it came.
pub struct Answer {
    pub reply: ReplyView,
    pub secs: u64,
    pub nanos: u32,
}

/// The worker took an answer: a step led from the first state to the second.
pub open spec fn took(
    w: WorkerView,
    s: SharedView,
    a: Answer,
    w2: WorkerView,
    s2: SharedView,
) -> bool {
    let event = EventView::Happened(HappenedView::Replied(a.reply));
    exists|action: ActionView|
        #[trigger] brought(effect_of(w, s, event, a.secs, a.nanos), w2, s2, action)
}

/// The states of a whole refresh: it begins with the first question, takes one answer
/// after another, and is over with the last.
pub open spec fn whole_refresh(
    ws: Seq<WorkerView>,
    ss: Seq<SharedView>,
    answers: Seq<Answer>,
) -> bool {
    let n = answers.len() as int;
    &&& n > 0
    &&& ws.len() == n + 1
    &&& ss.len() == n + 1
    &&& ws[0].linked
    &&& ws[0].cfg is Some
    &&& ws[0].task == TaskView::Polling(Asked::Metrics, no_snapshot())
    &&& forall|i: int|
        0 <= i < n ==> ws[i].task is Polling && took(
            ws[i],
            ss[i],
            #[trigger] answers[i],
            ws[i + 1],
            ss[i + 1],
        )
    &&& ws[n].task is Idle
}

/// The Palworld pieces of a snapshot are there only where the configuration wants them,
/// and the players only where the server's unit is listed as running.
pub open spec fn only_wanted(cfg: ConfigView, snap: SnapshotView) -> bool {
    &&& snap.palworld_ini is Some ==> cfg.palworld.enabled
    &&& snap.players is Some ==> cfg.palworld.enabled && listed_active(
        snap.services,
        cfg.palworld.service,
    )
}

/// A refresh that read the metrics and is not over.
spec fn under_way(
    cfg: ConfigView,
    out: Seq<char>,
    first: (WorkerView, SharedView),
    now: (WorkerView, SharedView),
) -> bool {
    &&& now.0.task matches TaskView::Polling(asked, snap)
    &&& now.0 == (WorkerView { task: now.0.task, ..first.0 })
    &&& now.1 == first.1
    &&& asked != Asked::Metrics
    &&& asked == Asked::Ini || asked == Asked::Players ==> cfg.palworld.enabled
    &&& asked == Asked::Players ==> listed_active(snap.services, cfg.palworld.service)
    &&& snap.metrics == metrics_of(out)
    &&& snap.players is None
    &&& only_wanted(cfg, snap)
}

/// A refresh that read the metrics and is over.
spec fn shown(
    cfg: ConfigView,
    out: Seq<char>,
    first: (WorkerView, SharedView),
    a: Answer,
    now: (WorkerView, SharedView),
) -> bool {
    let sample = Sample {
        secs: a.secs,
        nanos: a.nanos,
        cpu: metrics_of(out).cpu,
        mem: mem_share(metrics_of(out)),
    };
    let snap = now.1.snap;
    &&& now.0 == (WorkerView { task: TaskView::Idle, ..first.0 })
    &&& snap.metrics == metrics_of(out)
    &&& only_wanted(cfg, snap)
    &&& now.1 == (SharedView {
        snap,
        history: newest(first.1.history.push(sample), HISTORY_LEN as nat),
        pal_revision: if snap.palworld_ini != first.1.snap.palworld_ini {
            (first.1.pal_revision + 1) as u64
        } else {
            first.1.pal_revision
        },
        ..first.1
    })
}

proof fn lemma_refresh(
    ws: Seq<WorkerView>,
    ss: Seq<SharedView>,
    answers: Seq<Answer>,
    out: Seq<char>,
    i: int,
)
    requires
        whole_refresh(ws, ss, answers),
        strict_output(METRICS_SCRIPT@, answers[0].reply) == Ok::<Seq<char>, Seq<char>>(out),
        1 <= i <= answers.len(),
    ensures
        ({
            let cfg = ws[0].cfg->Some_0;
            let first = (ws[0], ss[0]);
            let now = (ws[i], ss[i]);
            under_way(cfg, out, first, now) || shown(cfg, out, first, answers[i - 1], now)
        }),
    decreases i,
{
    let at = i - 1;
    if at > 0 {
        lemma_refresh(ws, ss, answers, out, at);
    }
    assert(took(ws[at], ss[at], answers[at], ws[at + 1], ss[at + 1]));
}

/// A refresh that reads the metrics adds one sample to the history, made of those
/// metrics, and the oldest samples leave first where there are too many. The revision
/// goes up by one where the settings file is another than the one shown before, and
/// stays otherwise. There are players in the snapshot only where Palworld is enabled
/// and its unit is listed as running. The session, the log and what is in flight stay
/// as they are.
pub proof fn a_refresh_adds_one_sample(
    ws: Seq<WorkerView>,
    ss: Seq<SharedView>,
    answers: Seq<Answer>,
    out: Seq<char>,
)
    requires
        whole_refresh(ws, ss, answers),
        strict_output(METRICS_SCRIPT@, answers[0].reply) == Ok::<Seq<char>, Seq<char>>(out),
        ss[0].history.len() <= 240,
        ss[0].pal_revision < u64::MAX,
    ensures
        ({
            let before = ss[0];
            let after = ss.last();
            let n = before.history.len() as int;
            let sample = Sample {
                secs: answers.last().secs,
                nanos: answers.last().nanos,
                cpu: metrics_of(out).cpu,
                mem: mem_share(metrics_of(out)),
            };
            &&& after.snap.metrics == metrics_of(out)
            &&& after.history.len() == if n + 1 < 240 {
                n + 1
            } else {
                240
            }
            &&& after.history.last() == sample
            &&& after.history == if n < 240 {
                before.history.push(sample)
            } else {
                before.history.drop_first().push(sample)
            }
            &&& after.pal_revision == before.pal_revision + if after.snap.palworld_ini
                != before.snap.palworld_ini {
                1int
            } else {
                0
            }
            &&& only_wanted(ws[0].cfg->Some_0, after.snap)
            &&& after.conn == before.conn
            &&& after.busy == before.busy
            &&& after.log == before.log
            &&& ws.last() == (WorkerView { task: TaskView::Idle, ..ws[0] })
        }),
{
    let n = answers.len() as int;
    lemma_refresh(ws, ss, answers, out, n);
    let sample = Sample {
        secs: answers.last().secs,
        nanos: answers.last().nanos,
        cpu: metrics_of(out).cpu,
        mem: mem_share(metrics_of(out)),
    };
    the_newest_are_kept(ss[0].history, sample, HISTORY_LEN as nat);
}

/// How many questions can still come after this one.
spec fn questions_left(asked: Asked) -> int {
    match asked {
        Asked::Metrics => 4,
        Asked::Services => 3,
        Asked::Pm2 => 2,
        Asked::Ini => 1,
        Asked::Players => 0,
    }
}

proof fn lemma_questions(
    ws: Seq<WorkerView>,
    ss: Seq<SharedView>,
    answers: Seq<Answer>,
    i: int,
)
    requires
        whole_refresh(ws, ss, answers),
        0 <= i < answers.len(),
    ensures
        ws[i].linked && ws[i].cfg is Some,
        ws[i].task matches TaskView::Polling(asked, _) && i + questions_left(asked) <= 4,
    decreases i,
{
    if i > 0 {
        lemma_questions(ws, ss, answers, i - 1);
        assert(took(ws[i - 1], ss[i - 1], answers[i - 1], ws[i], ss[i]));
        assert(took(ws[i], ss[i], answers[i], ws[i + 1], ss[i + 1]));
    }
}

/// The host is asked no more than five questions in a refresh.
pub proof fn a_refresh_asks_five_questions_at_most(
    ws: Seq<WorkerView>,
    ss: Seq<SharedView>,
    answers: Seq<Answer>,
)
    requires
        whole_refresh(ws, ss, answers),
    ensures
        answers.len() <= 5,
{
    lemma_questions(ws, ss, answers, answers.len() - 1);
}

/// The changes of some settings and then of others are those of all of them, in order.
pub proof fn changes_come_in_order(
    original: Seq<(Seq<char>, Seq<char>)>,
    first: Seq<(Seq<char>, Seq<char>)>,
    rest: Seq<(Seq<char>, Seq<char>)>,
)
    ensures
        diff_of(original, first + rest) == diff_of(original, first) + diff_of(original, rest),
    decreases rest.len(),
{
    if rest.len() == 0 {
        assert(first + rest =~= first);
        assert(diff_of(original, first) + diff_of(original, rest) =~= diff_of(original, first));
    } else {
        changes_come_in_order(original, first, rest.drop_last());
        assert((first + rest).drop_last() =~= first + rest.drop_last());
        assert((first + rest).last() == rest.last());
        assert(diff_of(original, first + rest) =~= diff_of(original, first) + diff_of(
            original,
            rest,
        ));
    }
}

} // verus!
