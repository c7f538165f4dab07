//! The process table and the list of apps tell what the host printed.
use crate::chars::{is_trimmed, joined, lemma_first_at_is, lines_of, trimmed, words_of};
use crate::cutting::{blank, ended, only_blanks_are_trimmed};
use crate::model::{ClaudeView, Pm2View, ProcView};
use crate::numbers::{decimal, decimal_int, written_integers_are_read_back};
use crate::order::sorted_from;
use crate::pm2::{apps_in, json_in, Json};
use crate::procs::{
    busy_between, by_cpu, by_pid, cwd_of, cwd_on, descendants, reading_of, row_of, rows_on,
    session_of, sessions_among, tick_of, ticks_on, with_cpu, RowView,
};
use crate::readings::{in_sections, sections_hold_their_rows};
use vstd::prelude::*;

verus! {

// ---------------------------------------------------------------------------
// Processes
// ---------------------------------------------------------------------------
/// The line tells how many ticks a process has been busy.
pub open spec fn tells_ticks(line: Seq<char>, pid: i32, n: u64) -> bool {
    words_of(line).len() >= 2 && words_of(line)[0] == decimal_int(pid as int) && words_of(line)[1]
        == decimal(n as nat)
}

/// Ticks are read as they are printed.
pub proof fn ticks_are_read(line: Seq<char>, pid: i32, n: u64)
    requires
        tells_ticks(line, pid, n),
    ensures
        tick_of(line) == Some((pid, n)),
{
    written_integers_are_read_back(pid as int, i32::MIN as int, i32::MAX as int);
    written_integers_are_read_back(n as int, 0, u64::MAX as int);
}

/// Each process has the ticks of its last line, and one without a line has none.
pub proof fn the_last_ticks_count(lines: Seq<Seq<char>>, k: int, pid: i32, n: u64)
    requires
        0 <= k <= lines.len(),
        k < lines.len() ==> tells_ticks(lines[k], pid, n),
        forall|i: int|
            (if k < lines.len() {
                k
            } else {
                -1
            }) < i < lines.len() ==> match tick_of(#[trigger] lines[i]) {
                Some((p, _)) => p != pid,
                None => true,
            },
    ensures
        k < lines.len() ==> ticks_on(lines).contains_key(pid) && ticks_on(lines)[pid] == n,
        k == lines.len() ==> !ticks_on(lines).contains_key(pid),
    decreases lines.len(),
{
    if lines.len() > 0 {
        let t = lines.drop_last();
        let last = lines.len() - 1;
        assert(forall|i: int| 0 <= i < t.len() ==> #[trigger] t[i] == lines[i]);
        if k == last {
            ticks_are_read(lines[k], pid, n);
        } else {
            assert(match tick_of(lines[last]) {
                Some((p, _)) => p != pid,
                None => true,
            });
            the_last_ticks_count(
                t,
                if k == lines.len() {
                    t.len() as int
                } else {
                    k
                },
                pid,
                n,
            );
        }
    }
}

/// A process was busy for as many ticks as it has gained between the two looks, and for
/// none where it was not there at one of them, or has lost some.
pub proof fn ticks_gained_are_work(t1: Map<i32, u64>, t2: Map<i32, u64>, pid: i32)
    ensures
        t1.contains_key(pid) && t2.contains_key(pid) && t1[pid] <= t2[pid] ==> t1[pid]
            + busy_between(t1, t2, pid) == t2[pid],
        t1.contains_key(pid) && t2.contains_key(pid) && t1[pid] > t2[pid] ==> busy_between(
            t1,
            t2,
            pid,
        ) == 0,
        !t1.contains_key(pid) || !t2.contains_key(pid) ==> busy_between(t1, t2, pid) == 0,
{
}

/// A line of `ps` tells a process: its number, its parent's, its user, its memory in kB,
/// its age in seconds, and the name of its command, which may have blanks in it.
pub proof fn processes_are_read(
    line: Seq<char>,
    pid: i32,
    ppid: i32,
    user: Seq<char>,
    kb: u64,
    age: u64,
    comm: Seq<Seq<char>>,
    t1: Map<i32, u64>,
    t2: Map<i32, u64>,
)
    requires
        comm.len() > 0,
        words_of(line) == seq![
            decimal_int(pid as int),
            decimal_int(ppid as int),
            user,
            decimal(kb as nat),
            decimal(age as nat),
        ] + comm,
    ensures
        row_of(line, t1, t2) == Some(
            RowView {
                pid,
                ppid,
                user,
                busy: busy_between(t1, t2, pid),
                rss: kb * 1024,
                uptime: age,
                comm: joined(comm, " "@),
            },
        ),
{
    written_integers_are_read_back(pid as int, i32::MIN as int, i32::MAX as int);
    written_integers_are_read_back(ppid as int, i32::MIN as int, i32::MAX as int);
    written_integers_are_read_back(kb as int, 0, u64::MAX as int);
    written_integers_are_read_back(age as int, 0, u64::MAX as int);
    let w = words_of(line);
    assert(w.skip(5) =~= comm);
}

/// Where each line tells a process, there is one for each, in order.
pub proof fn every_process_is_listed(
    lines: Seq<Seq<char>>,
    t1: Map<i32, u64>,
    t2: Map<i32, u64>,
)
    requires
        forall|i: int| 0 <= i < lines.len() ==> row_of(#[trigger] lines[i], t1, t2) is Some,
    ensures
        rows_on(lines, t1, t2) == Seq::new(
            lines.len(),
            |i: int| row_of(lines[i], t1, t2)->Some_0,
        ),
    decreases lines.len(),
{
    if lines.len() > 0 {
        let t = lines.drop_first();
        assert forall|i: int| 0 <= i < t.len() implies row_of(#[trigger] t[i], t1, t2) is Some by {
            assert(t[i] == lines[i + 1]);
        }
        every_process_is_listed(t, t1, t2);
        assert(row_of(lines[0], t1, t2) is Some);
    }
    assert(rows_on(lines, t1, t2) =~= Seq::new(
        lines.len(),
        |i: int| row_of(lines[i], t1, t2)->Some_0,
    ));
}

/// What the process script prints: the ticks per second, the clock and the ticks twice,
/// the processes, and the working directories.
pub open spec fn process_parts(
    hz: Seq<char>,
    start: Seq<char>,
    before: Seq<Seq<char>>,
    end: Seq<char>,
    after: Seq<Seq<char>>,
    ps: Seq<Seq<char>>,
    cwds: Seq<Seq<char>>,
) -> Seq<(Seq<char>, Seq<Seq<char>>)> {
    seq![
        ("hz"@, seq![hz]),
        ("e1"@, seq![start]),
        ("t1"@, before),
        ("e2"@, seq![end]),
        ("t2"@, after),
        ("ps"@, ps),
        ("cwd"@, cwds),
    ]
}

proof fn lemma_one_row(row: Seq<char>)
    requires
        is_trimmed(row),
    ensures
        trimmed(ended(seq![row], false)) == row,
{
    let feed = seq!['\n'];
    let none = Seq::<char>::empty();
    assert(seq![row].drop_first() =~= Seq::empty());
    assert(ended(Seq::empty(), false) =~= Seq::empty());
    assert(blank(feed));
    only_blanks_are_trimmed(none, row, feed);
    assert(ended(seq![row], false) =~= none + row + feed);
}

/// The processes are those that were printed, with the ticks that each gained from the
/// first look to the second; the window is that between the two looks.
pub proof fn the_table_is_read_as_printed(
    out: Seq<char>,
    hz: Seq<char>,
    start: Seq<char>,
    before: Seq<Seq<char>>,
    end: Seq<char>,
    after: Seq<Seq<char>>,
    ps: Seq<Seq<char>>,
    cwds: Seq<Seq<char>>,
)
    requires
        in_sections(out, process_parts(hz, start, before, end, after, ps, cwds)),
        is_trimmed(hz),
        is_trimmed(start),
        is_trimmed(end),
    ensures
        ({
            let r = reading_of(out);
            &&& r.rows == rows_on(ps, ticks_on(before), ticks_on(after))
            &&& r.hz == hz
            &&& r.start == start
            &&& r.end == end
            &&& lines_of(r.cwds) == cwds
        }),
{
    let parts = process_parts(hz, start, before, end, after, ps, cwds);
    sections_hold_their_rows(out, parts, 0);
    sections_hold_their_rows(out, parts, 1);
    sections_hold_their_rows(out, parts, 2);
    sections_hold_their_rows(out, parts, 3);
    sections_hold_their_rows(out, parts, 4);
    sections_hold_their_rows(out, parts, 5);
    sections_hold_their_rows(out, parts, 6);
    lemma_one_row(hz);
    lemma_one_row(start);
    lemma_one_row(end);
}

/// Every process gets its own CPU reading and keeps everything else.
pub proof fn readings_go_to_their_processes(rows: Seq<RowView>, cpu: Seq<u32>, i: int)
    requires
        0 <= i < rows.len(),
        cpu.len() == rows.len(),
        0 <= rows[i].rss <= u64::MAX,
    ensures
        with_cpu(rows, cpu).len() == rows.len(),
        ({
            let p = with_cpu(rows, cpu)[i];
            &&& p.cpu_bits == cpu[i]
            &&& p.pid == rows[i].pid && p.ppid == rows[i].ppid && p.user == rows[i].user
            &&& p.rss == rows[i].rss && p.uptime == rows[i].uptime && p.comm == rows[i].comm
        }),
{
}

/// The table has the busiest first: of two readings that are no less than zero the larger
/// comes first, and one below zero comes behind.
pub proof fn the_busiest_come_first(to: Seq<ProcView>, from: Seq<ProcView>, i: int, j: int)
    requires
        sorted_from(to, from, by_cpu()),
        0 <= i < j < to.len(),
    ensures
        ({
            let sign: u32 = 0x8000_0000;
            let (a, b) = (to[i].cpu_bits, to[j].cpu_bits);
            &&& a < sign && b < sign ==> a >= b
            &&& a >= sign ==> b >= sign
            &&& a >= sign && b >= sign ==> a <= b
        }),
{
    assert(by_cpu()(to[i]) <= by_cpu()(to[j]));
}

// ---------------------------------------------------------------------------
// Sessions
// ---------------------------------------------------------------------------
/// The line tells the working directory of a process.
pub proof fn directories_are_read(pid: i32, dir: Seq<char>)
    requires
        is_trimmed(dir),
        dir.len() > 0,
    ensures
        cwd_on(decimal_int(pid as int) + seq![' '] + dir) == Some((pid as int, dir)),
{
    let n = decimal_int(pid as int);
    let line = n + seq![' '] + dir;
    written_integers_are_read_back(pid as int, i32::MIN as int, i32::MAX as int);
    crate::numbers::lemma_decimal(
        (if pid < 0 {
            -pid
        } else {
            pid as int
        }) as nat,
    );
    assert forall|i: int| 0 <= i < n.len() implies #[trigger] n[i] != ' ' && !crate::chars::white(
        n[i],
    ) by {
        if pid < 0 {
            if i > 0 {
                assert(n[i] == decimal((-pid) as nat)[i - 1]);
            }
        }
    }
    assert(line[0] == n[0]);
    assert(line.last() == dir.last());
    crate::chars::lemma_trimmed(line);
    assert(trimmed(line) == line);
    assert forall|i: int| 0 <= i < n.len() implies #[trigger] line[i] != ' ' by {
        assert(line[i] == n[i]);
    }
    lemma_first_at_is(line, ' ', n.len() as int);
    assert(line.take(n.len() as int) =~= n);
    assert(line.skip(n.len() as int + 1) =~= dir);
}

/// A process has the directory of its last line, and a dash where it has none.
pub proof fn the_last_directory_counts(lines: Seq<Seq<char>>, k: int, pid: int, dir: Seq<char>)
    requires
        0 <= k <= lines.len(),
        k < lines.len() ==> cwd_on(lines[k]) == Some((pid, dir)),
        forall|i: int|
            (if k < lines.len() {
                k
            } else {
                -1
            }) < i < lines.len() ==> match cwd_on(#[trigger] lines[i]) {
                Some((p, _)) => p != pid,
                None => true,
            },
    ensures
        cwd_of(lines, pid) == if k < lines.len() {
            dir
        } else {
            "-"@
        },
    decreases lines.len(),
{
    if lines.len() > 0 {
        let t = lines.drop_last();
        let last = lines.len() - 1;
        assert(forall|i: int| 0 <= i < t.len() ==> #[trigger] t[i] == lines[i]);
        if k != last {
            assert(match cwd_on(lines[last]) {
                Some((p, _)) => p != pid,
                None => true,
            });
            the_last_directory_counts(
                t,
                if k == lines.len() {
                    t.len() as int
                } else {
                    k
                },
                pid,
                dir,
            );
        }
    }
}

/// The memory of several processes.
pub open spec fn memory_of(procs: Seq<ProcView>) -> int
    decreases procs.len(),
{
    if procs.len() == 0 {
        0
    } else {
        procs[0].rss + memory_of(procs.drop_first())
    }
}

proof fn lemma_memory(procs: Seq<ProcView>)
    ensures
        crate::procs::rss_sum(procs) == memory_of(procs),
    decreases procs.len(),
{
    if procs.len() == 1 {
        assert(procs.drop_last() =~= Seq::empty());
        assert(procs.drop_first() =~= Seq::empty());
        assert(crate::procs::rss_sum(procs.drop_last()) == 0);
        assert(memory_of(procs.drop_first()) == 0);
    } else if procs.len() > 1 {
        let t = procs.drop_first();
        lemma_memory(t);
        lemma_memory(procs.drop_last());
        lemma_memory(t.drop_last());
        assert(t.drop_last() =~= procs.drop_last().drop_first());
        assert(procs.drop_last()[0] == procs[0]);
        assert(t.last() == procs.last());
    }
}

/// A session is its process with everything below it: the readings of all of them, that
/// of the process first, their memory together, and how many there are below it. Its age
/// is that of the process.
pub proof fn a_session_is_its_tree(procs: Seq<ProcView>, top: ProcView, cwds: Seq<char>)
    ensures
        ({
            let s = session_of(procs, top, cwds);
            let tree = descendants(procs, top.pid);
            &&& s.pid == top.pid
            &&& s.uptime == top.uptime
            &&& s.cwd == cwd_of(lines_of(cwds), top.pid as int)
            &&& s.rss == top.rss + memory_of(tree)
            &&& s.descendants == tree.len()
            &&& s.cpu_parts.len() == tree.len() + 1
            &&& s.cpu_parts[0] == top.cpu_bits
            &&& forall|i: int|
                0 <= i < tree.len() ==> s.cpu_parts[i + 1] == (#[trigger] tree[i]).cpu_bits
        }),
{
    lemma_memory(descendants(procs, top.pid));
}

/// The sessions are the processes of that command, and no others.
pub proof fn sessions_are_of_the_command(
    procs: Seq<ProcView>,
    comm: Seq<char>,
    cwds: Seq<char>,
    n: int,
    s: ClaudeView,
)
    requires
        0 <= n <= procs.len(),
    ensures
        sessions_among(procs, comm, cwds, n).contains(s) <==> exists|i: int|
            0 <= i < n && (#[trigger] procs[i]).comm == comm && s == session_of(
                procs,
                procs[i],
                cwds,
            ),
    decreases n,
{
    if n > 0 {
        sessions_are_of_the_command(procs, comm, cwds, n - 1, s);
        let all = sessions_among(procs, comm, cwds, n);
        let before = sessions_among(procs, comm, cwds, n - 1);
        if procs[n - 1].comm == comm {
            let one = session_of(procs, procs[n - 1], cwds);
            assert(all == before.push(one));
            assert(all.contains(s) <==> before.contains(s) || s == one) by {
                if before.contains(s) {
                    let i = choose|i: int| 0 <= i < before.len() && before[i] == s;
                    assert(all[i] == s);
                }
                if s == one {
                    assert(all[before.len() as int] == s);
                }
                if all.contains(s) && s != one {
                    let i = choose|i: int| 0 <= i < all.len() && all[i] == s;
                    assert(before[i] == s);
                }
            }
        }
    }
}

/// The list of sessions rises by their numbers.
pub proof fn sessions_come_by_number(to: Seq<ClaudeView>, from: Seq<ClaudeView>, i: int, j: int)
    requires
        sorted_from(to, from, by_pid()),
        0 <= i < j < to.len(),
    ensures
        to[i].pid <= to[j].pid,
{
    assert(by_pid()(to[i]) <= by_pid()(to[j]));
}

// ---------------------------------------------------------------------------
// Apps
// ---------------------------------------------------------------------------
/// What `pm2` prints in front of its list is skipped, and so is white space around the
/// whole.
pub proof fn notices_are_skipped(
    g: Seq<char>,
    notice: Seq<char>,
    list: Seq<char>,
    h: Seq<char>,
)
    requires
        blank(g),
        blank(h),
        !notice.contains('['),
        is_trimmed(notice + seq!['['] + list),
    ensures
        json_in(g + (notice + seq!['['] + list) + h) == seq!['['] + list,
{
    let t = notice + seq!['['] + list;
    only_blanks_are_trimmed(g, t, h);
    assert forall|i: int| 0 <= i < notice.len() implies #[trigger] t[i] != '[' by {
        assert(notice.contains(notice[i]));
        assert(t[i] == notice[i]);
    }
    lemma_first_at_is(t, '[', notice.len() as int);
    assert(t.skip(notice.len() as int) =~= seq!['['] + list);
}

/// An item of the list as `pm2` writes it.
pub open spec fn item_of(
    name: Json,
    status: Json,
    restarts: Json,
    cpu: Json,
    memory: Json,
) -> Json {
    let env = Map::empty().insert("status"@, status).insert("restart_time"@, restarts);
    let monit = Map::empty().insert("cpu"@, cpu).insert("memory"@, memory);
    Json::Object(
        Map::empty().insert("name"@, name).insert("pm2_env"@, Json::Object(env)).insert(
            "monit"@,
            Json::Object(monit),
        ),
    )
}

/// Every item of the list is an app, in order: its name, its status and restarts from
/// its environment, its CPU and memory from the monitor. What is not there, or not of
/// its kind, is told as a question mark or as 0.
pub proof fn apps_are_read(
    items: Seq<Json>,
    i: int,
    name: Seq<char>,
    status: Seq<char>,
    restarts: u64,
    bits: u64,
    cpu: u64,
    memory: u64,
    any: Option<u64>,
)
    requires
        0 <= i < items.len(),
    ensures
        apps_in(Some(Json::Array(items))).len() == items.len(),
        items[i] == item_of(
            Json::Text(name),
            Json::Text(status),
            Json::Number { unsigned: Some(restarts), bits: any },
            Json::Number { unsigned: any, bits: Some(cpu) },
            Json::Number { unsigned: Some(memory), bits: any },
        ) ==> apps_in(Some(Json::Array(items)))[i] == (Pm2View {
            name,
            status,
            cpu_bits: cpu,
            memory,
            restarts,
        }),
        items[i] == item_of(Json::Null, Json::Null, Json::Null, Json::Null, Json::Null) ==> apps_in(
            Some(Json::Array(items)),
        )[i] == (Pm2View { name: "?"@, status: "?"@, cpu_bits: 0, memory: 0, restarts: 0 }),
        items[i] is Null ==> apps_in(Some(Json::Array(items)))[i] == (Pm2View {
            name: "?"@,
            status: "?"@,
            cpu_bits: 0,
            memory: 0,
            restarts: 0,
        }),
{
    reveal_strlit("name");
    reveal_strlit("pm2_env");
    reveal_strlit("monit");
    reveal_strlit("status");
    reveal_strlit("restart_time");
    reveal_strlit("cpu");
    reveal_strlit("memory");
    assert("name"@.len() == 4 && "pm2_env"@.len() == 7 && "monit"@.len() == 5);
    assert("status"@.len() == 6 && "restart_time"@.len() == 12);
    assert("cpu"@.len() == 3 && "memory"@.len() == 6);
}

/// What is no list has no apps, and neither has what is no JSON.
pub proof fn only_a_list_has_apps(v: Json)
    ensures
        !(v is Array) ==> apps_in(Some(v)) == Seq::<Pm2View>::empty(),
        apps_in(None) == Seq::<Pm2View>::empty(),
{
}

/// Output without a list is handed on as it is, but for the white space around it.
pub proof fn other_output_is_handed_on(out: Seq<char>)
    requires
        is_trimmed(out),
        !out.contains('['),
    ensures
        json_in(out) == out,
{
    crate::chars::lemma_trimmed(out);
    crate::chars::lemma_first_at(out, '[');
}

/// The table can be read where the memory of every process fits in 64 bits, and a
/// process that has nothing below it can always be rolled up.
pub proof fn tables_that_fit_are_read(out: Seq<char>, procs: Seq<ProcView>, top: ProcView)
    ensures
        crate::procs::reading_fits(out) <==> forall|i: int|
            0 <= i < reading_of(out).rows.len() ==> (#[trigger] reading_of(out).rows[i]).rss
                <= u64::MAX,
        (forall|i: int| 0 <= i < procs.len() ==> (#[trigger] procs[i]).ppid != top.pid)
            ==> crate::procs::rolls_up(procs, top),
{
    if forall|i: int| 0 <= i < procs.len() ==> (#[trigger] procs[i]).ppid != top.pid {
        lemma_no_kids(procs, top.pid);
        let h = crate::procs::depth(procs);
        assert(crate::procs::ends(procs, top.pid, h));
        assert(crate::procs::below_all(procs, Seq::empty(), (h - 1) as nat) =~= Seq::empty());
        assert(descendants(procs, top.pid) =~= Seq::empty());
    }
}

proof fn lemma_no_kids(procs: Seq<ProcView>, pid: i32)
    requires
        forall|i: int| 0 <= i < procs.len() ==> (#[trigger] procs[i]).ppid != pid,
    ensures
        crate::procs::kids(procs, pid) == Seq::<ProcView>::empty(),
    decreases procs.len(),
{
    if procs.len() > 0 {
        let t = procs.drop_last();
        assert forall|i: int| 0 <= i < t.len() implies (#[trigger] t[i]).ppid != pid by {
            assert(t[i] == procs[i]);
        }
        lemma_no_kids(t, pid);
        assert(procs[procs.len() - 1].ppid != pid);
    }
}

} // verus!
