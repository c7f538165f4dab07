//! The process table, and the sessions whose process trees are rolled up in it.
use crate::chars::{
    chars_of, find, first_at, join, joined, lines, lines_of, runs, same, text_of, texts, trim,
    trimmed, trimmed_text, words, words_of,
};
use crate::model::{claude_views, less, proc_views, ClaudeSession, ClaudeView, Proc, ProcView};
use crate::numbers::{or_zero, read_i32, read_unsigned, signed, unsigned};
use crate::order::{lemma_put_in, sorted_from};
use crate::report::{section, Sections};
use crate::shell::{quoted, shq};
use std::collections::HashMap;
use vstd::prelude::*;
use vstd::slice::slice_subrange;

verus! {

broadcast use vstd::std_specs::hash::group_hash_axioms;

// ---------------------------------------------------------------------------
// The script
// ---------------------------------------------------------------------------
/// `pid busy_ticks` for every process. Field 2 of `/proc/<pid>/stat` is the comm in
/// parens and may itself contain spaces, so everything is indexed from after the last
/// `") "`.
pub const TICKS: &'static str = "awk '{s=$0;sub(/^.*[)] /,\"\",s);split(s,a,\" \");split(FILENAME,f,\"/\");print f[3], a[12]+a[13]}' /proc/[0-9]*/stat 2>/dev/null";

/// The process table, plus the processes named `comm` resolved to their working
/// directory. CPU is sampled as a delta over a short sleep, like the host metrics: `ps`
/// %CPU is a lifetime average, so a session that has been idle for an hour would still
/// show whatever it burned at startup.
///
/// The name of a command only — never its arguments. An MCP server here is launched
/// with an API key in its argv.
pub open spec fn processes_script(comm: Seq<char>) -> Seq<char> {
    "\necho '@@hz';   getconf CLK_TCK\necho '@@e1';   date +%s.%N\necho '@@t1';   "@ + TICKS@
        + "\nsleep 0.4\necho '@@e2';   date +%s.%N\necho '@@t2';   "@ + TICKS@
        + "\necho '@@ps';   ps -eo pid=,ppid=,user:24=,rss=,etimes=,comm=\necho '@@cwd';  for p in $(pgrep -x "@
        + quoted(comm)
        + " 2>/dev/null); do printf '%s %s\\n' \"$p\" \"$(readlink /proc/$p/cwd 2>/dev/null || echo -)\"; done\n"@
}

/// The script that lists the processes.
pub fn processes_command(comm: &str) -> (r: String)
    ensures
        r@ == processes_script(comm@),
{
    let mut out =
        "\necho '@@hz';   getconf CLK_TCK\necho '@@e1';   date +%s.%N\necho '@@t1';   ".to_owned();
    out.append(TICKS);
    out.append("\nsleep 0.4\necho '@@e2';   date +%s.%N\necho '@@t2';   ");
    out.append(TICKS);
    out.append(
        "\necho '@@ps';   ps -eo pid=,ppid=,user:24=,rss=,etimes=,comm=\necho '@@cwd';  for p in $(pgrep -x ",
    );
    out.append(shq(comm).as_str());
    out.append(
        " 2>/dev/null); do printf '%s %s\\n' \"$p\" \"$(readlink /proc/$p/cwd 2>/dev/null || echo -)\"; done\n",
    );
    out
}

// ---------------------------------------------------------------------------
// Ticks
// ---------------------------------------------------------------------------
/// A number of a process.
pub open spec fn pid_of(word: Seq<char>) -> Option<int> {
    signed(word, i32::MIN as int, i32::MAX as int)
}

/// The process and its ticks on a line.
pub open spec fn tick_of(line: Seq<char>) -> Option<(i32, u64)> {
    let w = words_of(line);
    if w.len() < 2 {
        None
    } else {
        match (pid_of(w[0]), unsigned(w[1], u64::MAX as int)) {
            (Some(pid), Some(n)) => Some((pid as i32, n as u64)),
            _ => None,
        }
    }
}

/// The ticks of every process that is listed; the last line of one counts.
pub open spec fn ticks_on(lines: Seq<Seq<char>>) -> Map<i32, u64>
    decreases lines.len(),
{
    if lines.len() == 0 {
        Map::empty()
    } else {
        let before = ticks_on(lines.drop_last());
        match tick_of(lines.last()) {
            Some((pid, n)) => before.insert(pid, n),
            None => before,
        }
    }
}

fn read_tick(line: &[char]) -> (r: Option<(i32, u64)>)
    ensures
        r == tick_of(line@),
{
    let cut = words(line);
    let ghost seen = words_of(line@);
    assert(seen.len() == cut@.len());
    if cut.len() < 2 {
        return None;
    }
    assert(seen[0] == cut@[0]@ && seen[1] == cut@[1]@);
    match (read_i32(cut[0]), read_unsigned(cut[1], u64::MAX)) {
        (Some(pid), Some(n)) => Some((pid, n)),
        _ => None,
    }
}

/// `pid busy_ticks` per line.
pub fn tick_map(text: &str) -> (r: HashMap<i32, u64>)
    ensures
        r@ == ticks_on(lines_of(text@)),
{
    let all = chars_of(text);
    let cut = lines(all.as_slice());
    let ghost seen = lines_of(text@);
    let mut map: HashMap<i32, u64> = HashMap::new();
    let mut i: usize = 0;
    assert(seen.take(0) =~= Seq::empty());
    assert(map@ =~= Map::empty());
    while i < cut.len()
        invariant
            i <= cut.len(),
            runs(cut@) == seen,
            map@ == ticks_on(seen.take(i as int)),
        decreases cut.len() - i,
    {
        assert(seen[i as int] == cut@[i as int]@);
        assert(seen.take(i + 1).drop_last() =~= seen.take(i as int));
        assert(seen.take(i + 1).last() == seen[i as int]);
        match read_tick(cut[i]) {
            Some((pid, n)) => {
                map.insert(pid, n);
            },
            None => {},
        }
        i += 1;
    }
    assert(seen.take(i as int) =~= seen);
    map
}

/// The ticks that a process was busy between two samples.
pub open spec fn busy_between(t1: Map<i32, u64>, t2: Map<i32, u64>, pid: i32) -> u64 {
    if t1.contains_key(pid) && t2.contains_key(pid) {
        less(t2[pid], t1[pid])
    } else {
        0
    }
}

fn busy(t1: &HashMap<i32, u64>, t2: &HashMap<i32, u64>, pid: i32) -> (r: u64)
    ensures
        r == busy_between(t1@, t2@, pid),
{
    match (t2.get(&pid), t1.get(&pid)) {
        (Some(b), Some(a)) => if *b < *a {
            0
        } else {
            *b - *a
        },
        _ => 0,
    }
}

// ---------------------------------------------------------------------------
// Rows
// ---------------------------------------------------------------------------
/// A process as listed, before its CPU time is made a percentage.
#[derive(Debug)]
pub struct Row {
    pub pid: i32,
    pub ppid: i32,
    pub user: String,
    /// Ticks it was busy between the two samples.
    pub busy: u64,
    pub rss: u64,
    pub uptime: u64,
    pub comm: String,
}

pub struct RowView {
    pub pid: i32,
    pub ppid: i32,
    pub user: Seq<char>,
    pub busy: u64,
    pub rss: int,
    pub uptime: u64,
    pub comm: Seq<char>,
}

impl View for Row {
    type V = RowView;

    open spec fn view(&self) -> RowView {
        RowView {
            pid: self.pid,
            ppid: self.ppid,
            user: self.user@,
            busy: self.busy,
            rss: self.rss as int,
            uptime: self.uptime,
            comm: self.comm@,
        }
    }
}

pub open spec fn row_views(v: Seq<Row>) -> Seq<RowView> {
    v.map_values(|x: Row| x@)
}

/// The process on a `ps` line: pid, parent, user, kB of memory, seconds, and a command
/// name that may hold spaces. A line that is too short or without a pid is none.
pub open spec fn row_of(line: Seq<char>, t1: Map<i32, u64>, t2: Map<i32, u64>) -> Option<RowView> {
    let w = words_of(line);
    if w.len() < 6 {
        None
    } else {
        match pid_of(w[0]) {
            None => None,
            Some(pid) => Some(
                RowView {
                    pid: pid as i32,
                    ppid: or_zero(pid_of(w[1])) as i32,
                    user: w[2],
                    busy: busy_between(t1, t2, pid as i32),
                    rss: or_zero(unsigned(w[3], u64::MAX as int)) * 1024,
                    uptime: or_zero(unsigned(w[4], u64::MAX as int)) as u64,
                    comm: joined(w.skip(5), " "@),
                },
            ),
        }
    }
}

/// The processes on the `ps` lines, in order.
pub open spec fn rows_on(
    lines: Seq<Seq<char>>,
    t1: Map<i32, u64>,
    t2: Map<i32, u64>,
) -> Seq<RowView>
    decreases lines.len(),
{
    if lines.len() == 0 {
        Seq::empty()
    } else {
        let rest = rows_on(lines.drop_first(), t1, t2);
        match row_of(lines[0], t1, t2) {
            Some(row) => seq![row] + rest,
            None => rest,
        }
    }
}

/// The process on a line, where its memory fits in 64 bits.
fn read_row(line: &[char], t1: &HashMap<i32, u64>, t2: &HashMap<i32, u64>) -> (r: Option<
    Option<Row>,
>)
    ensures
        match r {
            Some(Some(row)) => row_of(line@, t1@, t2@) == Some(row@),
            Some(None) => row_of(line@, t1@, t2@) is None,
            None => row_of(line@, t1@, t2@) is Some && row_of(line@, t1@, t2@)->Some_0.rss
                > u64::MAX,
        },
{
    let cut = words(line);
    let ghost seen = words_of(line@);
    assert(seen.len() == cut@.len());
    if cut.len() < 6 {
        return Some(None);
    }
    assert(forall|i: int| 0 <= i < seen.len() ==> #[trigger] seen[i] == cut@[i]@);
    let pid = match read_i32(cut[0]) {
        Some(pid) => pid,
        None => {
            return Some(None);
        },
    };
    let ppid = match read_i32(cut[1]) {
        Some(n) => n,
        None => 0,
    };
    let kb = match read_unsigned(cut[3], u64::MAX) {
        Some(n) => n,
        None => 0,
    };
    let uptime = match read_unsigned(cut[4], u64::MAX) {
        Some(n) => n,
        None => 0,
    };
    let mut name: Vec<String> = Vec::new();
    let mut i: usize = 5;
    while i < cut.len()
        invariant
            5 <= i <= cut.len(),
            runs(cut@) == seen,
            name@.len() == i - 5,
            forall|j: int| 0 <= j < name@.len() ==> #[trigger] name@[j]@ == seen[j + 5],
        decreases cut.len() - i,
    {
        assert(seen[i as int] == cut@[i as int]@);
        name.push(text_of(cut[i]));
        i += 1;
    }
    assert(texts(name@) =~= seen.skip(5));
    match kb.checked_mul(1024) {
        None => None,
        Some(rss) => Some(
            Some(
                Row {
                    pid,
                    ppid,
                    user: text_of(cut[2]),
                    busy: busy(t1, t2, pid),
                    rss,
                    uptime,
                    comm: join(&name, " "),
                },
            ),
        ),
    }
}

/// The processes on the lines, where their memory fits in 64 bits.
fn read_rows(text: &str, t1: &HashMap<i32, u64>, t2: &HashMap<i32, u64>) -> (r: Option<Vec<Row>>)
    ensures
        ({
            let rows = rows_on(lines_of(text@), t1@, t2@);
            match r {
                Some(v) => row_views(v@) == rows,
                None => exists|i: int| 0 <= i < rows.len() && (#[trigger] rows[i]).rss > u64::MAX,
            }
        }),
{
    let all = chars_of(text);
    let cut = lines(all.as_slice());
    let ghost seen = lines_of(text@);
    let ghost want = rows_on(seen, t1@, t2@);
    let mut out: Vec<Row> = Vec::new();
    let mut i: usize = 0;
    assert(seen.skip(0) =~= seen);
    assert(row_views(out@) + want =~= want);
    while i < cut.len()
        invariant
            i <= cut.len(),
            runs(cut@) == seen,
            seen == lines_of(text@),
            want == rows_on(seen, t1@, t2@),
            row_views(out@) + rows_on(seen.skip(i as int), t1@, t2@) == want,
        decreases cut.len() - i,
    {
        let ghost rest = seen.skip(i as int);
        let ghost before = row_views(out@);
        assert(rest[0] == cut@[i as int]@);
        assert(rest.drop_first() =~= seen.skip(i + 1));
        let ghost later = rows_on(seen.skip(i + 1), t1@, t2@);
        match read_row(cut[i], t1, t2) {
            None => {
                proof {
                    let row = row_of(rest[0], t1@, t2@)->Some_0;
                    assert(want[before.len() as int] == row);
                }
                return None;
            },
            Some(None) => {},
            Some(Some(row)) => {
                let ghost one = row@;
                out.push(row);
                assert(row_views(out@) =~= before.push(one));
                assert(before.push(one) + later =~= before + (seq![one] + later));
            },
        }
        i += 1;
    }
    assert(row_views(out@) + rows_on(seen.skip(i as int), t1@, t2@) =~= row_views(out@));
    Some(out)
}

/// What the process script found: the processes, and the texts from which the sampling
/// window and the working directories are read.
#[derive(Debug)]
pub struct Reading {
    pub rows: Vec<Row>,
    /// Ticks per second.
    pub hz: String,
    /// The clock before the first sample …
    pub start: String,
    /// … and before the second.
    pub end: String,
    pub cwds: String,
}

pub struct ReadingView {
    pub rows: Seq<RowView>,
    pub hz: Seq<char>,
    pub start: Seq<char>,
    pub end: Seq<char>,
    pub cwds: Seq<char>,
}

impl View for Reading {
    type V = ReadingView;

    open spec fn view(&self) -> ReadingView {
        ReadingView {
            rows: row_views(self.rows@),
            hz: self.hz@,
            start: self.start@,
            end: self.end@,
            cwds: self.cwds@,
        }
    }
}

/// What the output of the process script says.
pub open spec fn reading_of(out: Seq<char>) -> ReadingView {
    ReadingView {
        rows: rows_on(
            lines_of(section(out, "ps"@)),
            ticks_on(lines_of(section(out, "t1"@))),
            ticks_on(lines_of(section(out, "t2"@))),
        ),
        hz: trimmed(section(out, "hz"@)),
        start: trimmed(section(out, "e1"@)),
        end: trimmed(section(out, "e2"@)),
        cwds: section(out, "cwd"@),
    }
}

/// The memory of every process fits in 64 bits.
pub open spec fn reading_fits(out: Seq<char>) -> bool {
    let rows = reading_of(out).rows;
    forall|i: int| 0 <= i < rows.len() ==> (#[trigger] rows[i]).rss <= u64::MAX
}

fn read_reading(out: &str) -> (r: Option<Reading>)
    ensures
        match r {
            Some(x) => reading_fits(out@) && x@ == reading_of(out@),
            None => !reading_fits(out@),
        },
{
    let s = Sections::parse(out);
    let t1 = tick_map(s.get("t1"));
    let t2 = tick_map(s.get("t2"));
    match read_rows(s.get("ps"), &t1, &t2) {
        None => None,
        Some(rows) => {
            proof {
                let want = reading_of(out@).rows;
                assert forall|i: int| 0 <= i < want.len() implies (#[trigger] want[i]).rss
                    <= u64::MAX by {
                    assert(want[i] == rows@[i]@);
                }
            }
            let x = Reading {
                rows,
                hz: trimmed_text(s.get("hz")),
                start: trimmed_text(s.get("e1")),
                end: trimmed_text(s.get("e2")),
                cwds: s.get("cwd").to_owned(),
            };
            assert(x@.rows =~= reading_of(out@).rows);
            assert(x@.cwds =~= reading_of(out@).cwds);
            Some(x)
        },
    }
}

/// Whether the memory of every listed process fits in 64 bits.
pub fn processes_readable(out: &str) -> (r: bool)
    ensures
        r == reading_fits(out@),
{
    read_reading(out).is_some()
}

/// What the process script found.
pub fn processes(out: &str) -> (r: Reading)
    requires
        reading_fits(out@),
    ensures
        r@ == reading_of(out@),
{
    match read_reading(out) {
        Some(x) => x,
        None => Reading {
            rows: Vec::new(),
            hz: String::new(),
            start: String::new(),
            end: String::new(),
            cwds: String::new(),
        },
    }
}

// ---------------------------------------------------------------------------
// Trees
// ---------------------------------------------------------------------------
/// The children of `pid`, in order.
pub open spec fn kids(procs: Seq<ProcView>, pid: i32) -> Seq<ProcView>
    decreases procs.len(),
{
    if procs.len() == 0 {
        Seq::empty()
    } else {
        let before = kids(procs.drop_last(), pid);
        if procs.last().ppid == pid {
            before.push(procs.last())
        } else {
            before
        }
    }
}

/// Everything below `pid`, `h` generations deep: its children in order, then what is
/// below the last of them, and so on to the first.
pub open spec fn below(procs: Seq<ProcView>, pid: i32, h: nat) -> Seq<ProcView>
    decreases h, 0nat,
{
    if h == 0 {
        Seq::empty()
    } else {
        kids(procs, pid) + below_all(procs, kids(procs, pid), (h - 1) as nat)
    }
}

/// Everything below each of `tops`, the last first.
pub open spec fn below_all(procs: Seq<ProcView>, tops: Seq<ProcView>, h: nat) -> Seq<ProcView>
    decreases h, tops.len() + 1,
{
    if tops.len() == 0 {
        Seq::empty()
    } else {
        below(procs, tops.last().pid, h) + below_all(procs, tops.drop_last(), h)
    }
}

/// The tree below `pid` has less than `h` generations.
pub open spec fn ends(procs: Seq<ProcView>, pid: i32, h: nat) -> bool
    decreases h,
{
    h > 0 && forall|i: int|
        0 <= i < kids(procs, pid).len() ==> ends(
            procs,
            (#[trigger] kids(procs, pid)[i]).pid,
            (h - 1) as nat,
        )
}

/// More generations than a list of processes can have where none is its own ancestor.
pub open spec fn depth(procs: Seq<ProcView>) -> nat {
    procs.len() + 1
}

/// Everything below `pid`.
pub open spec fn descendants(procs: Seq<ProcView>, pid: i32) -> Seq<ProcView> {
    below(procs, pid, depth(procs))
}

pub open spec fn rss_sum(procs: Seq<ProcView>) -> int
    decreases procs.len(),
{
    if procs.len() == 0 {
        0
    } else {
        rss_sum(procs.drop_last()) + procs.last().rss
    }
}

pub open spec fn cpu_readings(procs: Seq<ProcView>) -> Seq<u32> {
    procs.map_values(|p: ProcView| p.cpu_bits)
}

/// The tree of a process can be rolled up: no process in it is its own ancestor, and
/// the counts fit in a machine word.
pub open spec fn rolls_up(procs: Seq<ProcView>, top: ProcView) -> bool {
    &&& ends(procs, top.pid, depth(procs))
    &&& top.rss + rss_sum(descendants(procs, top.pid)) <= u64::MAX
    &&& descendants(procs, top.pid).len() <= usize::MAX
}

/// Work that is left: the processes whose trees are still to be counted, with the
/// generations that each may have.
spec fn pending(procs: Seq<ProcView>, stack: Seq<(i32, u128)>) -> Seq<ProcView>
    decreases stack.len(),
{
    if stack.len() == 0 {
        Seq::empty()
    } else {
        below(procs, stack.last().0, stack.last().1 as nat) + pending(procs, stack.drop_last())
    }
}

spec fn all_end(procs: Seq<ProcView>, stack: Seq<(i32, u128)>) -> bool {
    forall|i: int| 0 <= i < stack.len() ==> ends(procs, (#[trigger] stack[i]).0, stack[i].1 as nat)
}

/// The steps that a tree can take: at most `n` children each, `h` generations.
spec fn steps(n: nat, h: nat) -> nat
    decreases h,
{
    if h == 0 {
        1
    } else {
        1 + n * steps(n, (h - 1) as nat)
    }
}

spec fn steps_left(n: nat, stack: Seq<(i32, u128)>) -> nat
    decreases stack.len(),
{
    if stack.len() == 0 {
        0
    } else {
        steps(n, stack.last().1 as nat) + steps_left(n, stack.drop_last())
    }
}

proof fn lemma_kids(procs: Seq<ProcView>, pid: i32)
    ensures
        kids(procs, pid).len() <= procs.len(),
    decreases procs.len(),
{
    if procs.len() > 0 {
        lemma_kids(procs.drop_last(), pid);
    }
}

proof fn lemma_rss_sum(a: Seq<ProcView>, b: Seq<ProcView>)
    ensures
        rss_sum(a + b) == rss_sum(a) + rss_sum(b),
        rss_sum(b) >= 0,
    decreases b.len(),
{
    if b.len() == 0 {
        assert(a + b =~= a);
    } else {
        lemma_rss_sum(a, b.drop_last());
        assert((a + b).drop_last() =~= a + b.drop_last());
        assert((a + b).last() == b.last());
    }
}

/// What one process has below it.
struct Tally {
    cpu: Vec<u32>,
    rss: u64,
    n: usize,
}

impl Tally {
    spec fn counts(&self, top: ProcView, seen: Seq<ProcView>) -> bool {
        &&& self.cpu@ == seq![top.cpu_bits] + cpu_readings(seen)
        &&& self.rss == top.rss + rss_sum(seen)
        &&& self.n == seen.len()
    }
}

/// Counts one more process; `false` where the counts do not fit.
fn count_kid(t: &mut Tally, kid: &Proc, Ghost(top): Ghost<ProcView>, Ghost(seen): Ghost<Seq<ProcView>>) -> (r:
    bool)
    requires
        old(t).counts(top, seen),
    ensures
        r ==> final(t).counts(top, seen.push(kid@)),
        !r ==> top.rss + rss_sum(seen.push(kid@)) > u64::MAX || seen.len() >= usize::MAX,
{
    proof {
        assert(seen.push(kid@).drop_last() =~= seen);
        assert(cpu_readings(seen.push(kid@)) =~= cpu_readings(seen).push(kid.cpu_bits));
    }
    match (t.rss.checked_add(kid.rss), t.n.checked_add(1)) {
        (Some(rss), Some(n)) => {
            t.cpu.push(kid.cpu_bits);
            t.rss = rss;
            t.n = n;
            assert(t.cpu@ =~= seq![top.cpu_bits] + cpu_readings(seen.push(kid@)));
            true
        },
        _ => false,
    }
}

/// Children as work that is left.
spec fn as_work(ks: Seq<ProcView>, h: u128) -> Seq<(i32, u128)> {
    ks.map_values(|p: ProcView| (p.pid, h))
}

proof fn lemma_kids_split(procs: Seq<ProcView>, pid: i32, j: int)
    requires
        0 <= j <= procs.len(),
    ensures
        kids(procs, pid) == kids(procs.take(j), pid) + kids(procs.skip(j), pid),
    decreases procs.len() - j,
{
    if j == procs.len() {
        assert(procs.take(j) =~= procs);
        assert(kids(procs.skip(j), pid) =~= Seq::empty());
        assert(kids(procs.take(j), pid) + kids(procs.skip(j), pid) =~= kids(procs, pid));
    } else {
        let t = procs.drop_last();
        lemma_kids_split(t, pid, j);
        assert(t.take(j) =~= procs.take(j));
        assert(t.skip(j) =~= procs.skip(j).drop_last());
        assert(procs.skip(j).last() == procs.last());
        assert(kids(procs.take(j), pid) + kids(procs.skip(j), pid) =~= kids(procs, pid));
    }
}

proof fn lemma_more_work(procs: Seq<ProcView>, rest: Seq<(i32, u128)>, ks: Seq<ProcView>, h: u128)
    ensures
        pending(procs, rest + as_work(ks, h)) == below_all(procs, ks, h as nat) + pending(procs, rest),
        steps_left(procs.len(), rest + as_work(ks, h)) == ks.len() * steps(procs.len(), h as nat)
            + steps_left(procs.len(), rest),
        all_end(procs, rest + as_work(ks, h)) == (all_end(procs, rest) && forall|i: int|
            0 <= i < ks.len() ==> ends(procs, (#[trigger] ks[i]).pid, h as nat)),
    decreases ks.len(),
{
    let n = procs.len();
    let work = as_work(ks, h);
    let all = rest + work;
    if ks.len() == 0 {
        assert(all =~= rest);
        assert(below_all(procs, ks, h as nat) + pending(procs, rest) =~= pending(procs, rest));
        assert(ks.len() * steps(n, h as nat) == 0) by (nonlinear_arith)
            requires
                ks.len() == 0,
        ;
    } else {
        let t = ks.drop_last();
        lemma_more_work(procs, rest, t, h);
        assert(all.drop_last() =~= rest + as_work(t, h));
        assert(all.last() == (ks.last().pid, h));
        assert(pending(procs, all) =~= below_all(procs, ks, h as nat) + pending(procs, rest));
        let s = steps(n, h as nat);
        assert(ks.len() * s == t.len() * s + s) by (nonlinear_arith)
            requires
                ks.len() == t.len() + 1,
        ;
        if all_end(procs, all) {
            assert forall|i: int| 0 <= i < rest.len() implies ends(
                procs,
                (#[trigger] rest[i]).0,
                rest[i].1 as nat,
            ) by {
                assert(all[i] == rest[i]);
            }
            assert forall|i: int| 0 <= i < ks.len() implies ends(
                procs,
                (#[trigger] ks[i]).pid,
                h as nat,
            ) by {
                assert(all[rest.len() + i] == work[i]);
            }
        }
        if all_end(procs, rest) && forall|i: int|
            0 <= i < ks.len() ==> ends(procs, (#[trigger] ks[i]).pid, h as nat) {
            assert forall|i: int| 0 <= i < all.len() implies ends(
                procs,
                (#[trigger] all[i]).0,
                all[i].1 as nat,
            ) by {
                if i < rest.len() {
                    assert(all[i] == rest[i]);
                } else {
                    assert(all[i] == work[i - rest.len()]);
                    assert(ends(procs, ks[i - rest.len()].pid, h as nat));
                }
            }
        }
    }
}

/// Counts the children of `pid` and puts them on the stack; `false` where the counts do
/// not fit.
fn count_kids(
    procs: &Vec<Proc>,
    pid: i32,
    h: u128,
    t: &mut Tally,
    stack: &mut Vec<(i32, u128)>,
    Ghost(top): Ghost<ProcView>,
    Ghost(seen): Ghost<Seq<ProcView>>,
) -> (r: bool)
    requires
        old(t).counts(top, seen),
    ensures
        r ==> final(t).counts(top, seen + kids(proc_views(procs@), pid)),
        r ==> final(stack)@ == old(stack)@ + as_work(kids(proc_views(procs@), pid), h),
        !r ==> top.rss + rss_sum(seen + kids(proc_views(procs@), pid)) > u64::MAX || seen.len()
            + kids(proc_views(procs@), pid).len() > usize::MAX,
{
    let ghost rest = stack@;
    let ghost all = proc_views(procs@);
    let mut j: usize = 0;
    proof {
        assert(all.take(0) =~= Seq::empty());
        assert(seen + kids(all.take(0), pid) =~= seen);
        assert(rest + as_work(kids(all.take(0), pid), h) =~= rest);
    }
    while j < procs.len()
        invariant
            j <= procs.len(),
            all == proc_views(procs@),
            t.counts(top, seen + kids(all.take(j as int), pid)),
            stack@ == rest + as_work(kids(all.take(j as int), pid), h),
        decreases procs.len() - j,
    {
        let ghost before = kids(all.take(j as int), pid);
        proof {
            assert(all.take(j + 1).drop_last() =~= all.take(j as int));
            assert(all.take(j + 1).last() == procs@[j as int]@);
        }
        if procs[j].ppid == pid {
            let ghost kid = procs@[j as int]@;
            assert((seen + before).push(kid) =~= seen + before.push(kid));
            if !count_kid(t, &procs[j], Ghost(top), Ghost(seen + before)) {
                proof {
                    lemma_kids_split(all, pid, j + 1);
                    let later = kids(all.skip(j + 1), pid);
                    assert(seen + kids(all, pid) =~= (seen + before.push(kid)) + later);
                    lemma_rss_sum(seen + before.push(kid), later);
                }
                return false;
            }
            stack.push((procs[j].pid, h));
            assert(stack@ =~= rest + as_work(before.push(kid), h));
        }
        j += 1;
    }
    assert(all.take(j as int) =~= all);
    true
}

/// Rolls the tree of a process up, where that can be done.
fn roll_up(procs: &Vec<Proc>, at: usize) -> (r: Option<Tally>)
    requires
        at < procs@.len(),
    ensures
        match r {
            Some(t) => {
                let (all, top) = (proc_views(procs@), procs@[at as int]@);
                rolls_up(all, top) && t.counts(top, descendants(all, top.pid))
            },
            None => !rolls_up(proc_views(procs@), procs@[at as int]@),
        },
{
    let top = &procs[at];
    let ghost all = proc_views(procs@);
    let mut t = Tally { cpu: vec![top.cpu_bits], rss: top.rss, n: 0 };
    let mut stack: Vec<(i32, u128)> = vec![(top.pid, procs.len() as u128 + 1)];
    let ghost want = descendants(all, top.pid);
    let ghost mut seen = Seq::<ProcView>::empty();
    proof {
        let one = stack@;
        assert(one.len() == 1 && one[0] == (top.pid, depth(all) as u128));
        assert(one.last() == one[0]);
        assert(one.drop_last() =~= Seq::empty());
        assert(pending(all, one.drop_last()) =~= Seq::empty());
        assert(seen + pending(all, one) =~= want);
        assert(ends(all, top.pid, depth(all)) == all_end(all, one)) by {
            if all_end(all, one) {
                assert(ends(all, one[0].0, one[0].1 as nat));
            }
        }
        assert(t.cpu@ =~= seq![top.cpu_bits] + cpu_readings(seen));
    }
    while stack.len() > 0
        invariant
            all == proc_views(procs@),
            at < procs@.len(),
            *top == procs@[at as int],
            want == descendants(all, top.pid),
            t.counts(top@, seen),
            seen + pending(all, stack@) == want,
            ends(all, top.pid, depth(all)) == all_end(all, stack@),
        decreases steps_left(all.len(), stack@),
    {
        let ghost before = stack@;
        match stack.pop() {
            None => {},
            Some((pid, h)) => {
                let ghost rest = stack@;
                assert(before.last() == (pid, h));
                assert(before.drop_last() =~= rest);
                if h == 0 {
                    assert(!ends(all, before[before.len() - 1].0, before[before.len() - 1].1 as nat));
                    return None;
                }
                let ghost ks = kids(all, pid);
                let ghost h1 = (h - 1) as nat;
                proof {
                    assert(pending(all, before) == below(all, pid, h as nat) + pending(all, rest));
                    let later = below_all(all, ks, h1) + pending(all, rest);
                    assert(want =~= (seen + ks) + later);
                    lemma_rss_sum(seen + ks, later);
                }
                if !count_kids(procs, pid, h - 1, &mut t, &mut stack, Ghost(top@), Ghost(seen)) {
                    return None;
                }
                proof {
                    lemma_more_work(all, rest, ks, (h - 1) as u128);
                    lemma_kids(all, pid);
                    let s = steps(all.len(), h1);
                    assert(ks.len() * s <= all.len() * s) by (nonlinear_arith)
                        requires
                            ks.len() <= all.len(),
                    ;
                    assert(all_end(all, before) == (all_end(all, rest) && ends(all, pid, h as nat)))
                        by {
                        lemma_all_end(all, before);
                    }
                    seen = seen + ks;
                    assert(seen + pending(all, stack@) =~= want);
                }
            },
        }
    }
    proof {
        assert(pending(all, stack@) =~= Seq::empty());
        assert(seen =~= want);
    }
    Some(t)
}

proof fn lemma_all_end(procs: Seq<ProcView>, stack: Seq<(i32, u128)>)
    requires
        stack.len() > 0,
    ensures
        all_end(procs, stack) == (all_end(procs, stack.drop_last()) && ends(
            procs,
            stack.last().0,
            stack.last().1 as nat,
        )),
{
    let rest = stack.drop_last();
    if all_end(procs, stack) {
        assert forall|i: int| 0 <= i < rest.len() implies ends(
            procs,
            (#[trigger] rest[i]).0,
            rest[i].1 as nat,
        ) by {
            assert(rest[i] == stack[i]);
        }
        assert(ends(procs, stack[stack.len() - 1].0, stack[stack.len() - 1].1 as nat));
    }
    if all_end(procs, rest) && ends(procs, stack.last().0, stack.last().1 as nat) {
        assert forall|i: int| 0 <= i < stack.len() implies ends(
            procs,
            (#[trigger] stack[i]).0,
            stack[i].1 as nat,
        ) by {
            if i < rest.len() {
                assert(rest[i] == stack[i]);
            }
        }
    }
}

// ---------------------------------------------------------------------------
// Sessions
// ---------------------------------------------------------------------------
/// The process and its working directory on a line.
pub open spec fn cwd_on(line: Seq<char>) -> Option<(int, Seq<char>)> {
    let t = trimmed(line);
    let at = first_at(t, ' ');
    if at < t.len() {
        match pid_of(t.take(at)) {
            Some(pid) => Some((pid, t.skip(at + 1))),
            None => None,
        }
    } else {
        None
    }
}

/// The working directory of a process: that on the last line of it, or a dash.
pub open spec fn cwd_of(lines: Seq<Seq<char>>, pid: int) -> Seq<char>
    decreases lines.len(),
{
    if lines.len() == 0 {
        "-"@
    } else {
        match cwd_on(lines.last()) {
            Some((p, cwd)) => if p == pid {
                cwd
            } else {
                cwd_of(lines.drop_last(), pid)
            },
            None => cwd_of(lines.drop_last(), pid),
        }
    }
}

/// A session: its process with everything below it.
pub open spec fn session_of(procs: Seq<ProcView>, top: ProcView, cwds: Seq<char>) -> ClaudeView {
    ClaudeView {
        pid: top.pid,
        cwd: cwd_of(lines_of(cwds), top.pid as int),
        uptime: top.uptime,
        cpu_parts: seq![top.cpu_bits] + cpu_readings(descendants(procs, top.pid)),
        rss: top.rss + rss_sum(descendants(procs, top.pid)),
        descendants: descendants(procs, top.pid).len() as int,
    }
}

/// The sessions among the first `n` processes: those named `comm`.
pub open spec fn sessions_among(
    procs: Seq<ProcView>,
    comm: Seq<char>,
    cwds: Seq<char>,
    n: int,
) -> Seq<ClaudeView>
    decreases n,
{
    if n <= 0 {
        Seq::empty()
    } else {
        let before = sessions_among(procs, comm, cwds, n - 1);
        if procs[n - 1].comm == comm {
            before.push(session_of(procs, procs[n - 1], cwds))
        } else {
            before
        }
    }
}

/// By process number.
pub open spec fn by_pid() -> spec_fn(ClaudeView) -> int {
    |s: ClaudeView| s.pid as int
}

/// The trees of all the processes named `comm` can be rolled up.
pub open spec fn sessions_fit(procs: Seq<ProcView>, comm: Seq<char>) -> bool {
    forall|i: int|
        0 <= i < procs.len() && (#[trigger] procs[i]).comm == comm ==> rolls_up(procs, procs[i])
}

fn read_cwd(cut: &Vec<&[char]>, pid: i32) -> (r: String)
    ensures
        r@ == cwd_of(runs(cut@), pid as int),
{
    let ghost seen = runs(cut@);
    let mut n: usize = cut.len();
    assert(seen.take(n as int) =~= seen);
    while n > 0
        invariant
            n <= cut.len(),
            seen == runs(cut@),
            cwd_of(seen.take(n as int), pid as int) == cwd_of(seen, pid as int),
        decreases n,
    {
        let ghost front = seen.take(n as int);
        assert(front.last() == cut@[n - 1]@);
        assert(front.drop_last() =~= seen.take(n - 1));
        n -= 1;
        let line = trim(cut[n]);
        let at = find(line, ' ');
        if at < line.len() {
            let head = slice_subrange(line, 0, at);
            let tail = slice_subrange(line, at + 1, line.len());
            assert(head@ =~= line@.take(at as int));
            assert(tail@ =~= line@.skip(at + 1));
            match read_i32(head) {
                Some(p) => {
                    if p == pid {
                        return text_of(tail);
                    }
                },
                None => {},
            }
        }
    }
    "-".to_owned()
}

/// Sorts sessions by process number.
fn sort_sessions(v: Vec<ClaudeSession>) -> (r: Vec<ClaudeSession>)
    ensures
        sorted_from(claude_views(r@), claude_views(v@), by_pid()),
{
    let mut v = v;
    let ghost all = claude_views(v@);
    let key = Ghost(by_pid());
    let mut out: Vec<ClaudeSession> = Vec::new();
    assert(all.skip(v@.len() as int) =~= Seq::empty());
    assert(claude_views(out@) =~= Seq::empty());
    assert(all.take(v@.len() as int) =~= all);
    while v.len() > 0
        invariant
            v@.len() <= all.len(),
            claude_views(v@) == all.take(v@.len() as int),
            key@ == by_pid(),
            sorted_from(claude_views(out@), all.skip(v@.len() as int), key@),
        decreases v@.len(),
    {
        let ghost n = v@.len() as int;
        let ghost done = claude_views(out@);
        match v.pop() {
            None => {},
            Some(x) => {
                let mut at: usize = 0;
                while at < out.len() && out[at].pid < x.pid
                    invariant
                        at <= out.len(),
                        done == claude_views(out@),
                        key@ == by_pid(),
                        forall|i: int| 0 <= i < at ==> (key@)(#[trigger] done[i]) < (key@)(x@),
                    decreases out.len() - at,
                {
                    at += 1;
                }
                proof {
                    assert(at < out.len() ==> done[at as int] == out@[at as int]@);
                    assert(all[n - 1] == x@) by {
                        assert(all.take(n)[n - 1] == x@);
                    }
                    assert(seq![x@] + all.skip(n) =~= all.skip(n - 1));
                    lemma_put_in(done, x@, at as int, key@, all.skip(n));
                    assert(all.take(n).drop_last() =~= all.take(n - 1));
                    assert(claude_views(v@) =~= all.take(n).drop_last());
                }
                let ghost one = x@;
                out.insert(at, x);
                assert(claude_views(out@) =~= done.insert(at as int, one));
            },
        }
    }
    assert(all.skip(0) =~= all);
    out
}

/// Whether the trees of all the processes named `comm` can be rolled up.
pub fn sessions_countable(procs: &Vec<Proc>, comm: &str) -> (r: bool)
    ensures
        r == sessions_fit(proc_views(procs@), comm@),
{
    let ghost all = proc_views(procs@);
    let mut i: usize = 0;
    while i < procs.len()
        invariant
            i <= procs.len(),
            all == proc_views(procs@),
            forall|j: int|
                0 <= j < i && (#[trigger] all[j]).comm == comm@ ==> rolls_up(all, all[j]),
        decreases procs.len() - i,
    {
        assert(all[i as int] == procs@[i as int]@);
        if same(procs[i].comm.as_str(), comm) && roll_up(procs, i).is_none() {
            return false;
        }
        i += 1;
    }
    true
}

/// Rolls each process named `comm` up with everything below it in the process tree.
pub fn claude_sessions(procs: &Vec<Proc>, comm: &str, cwds: &str) -> (r: Vec<ClaudeSession>)
    requires
        sessions_fit(proc_views(procs@), comm@),
    ensures
        sorted_from(
            claude_views(r@),
            sessions_among(proc_views(procs@), comm@, cwds@, procs@.len() as int),
            by_pid(),
        ),
{
    let ghost all = proc_views(procs@);
    let text = chars_of(cwds);
    let cut = lines(text.as_slice());
    let mut found: Vec<ClaudeSession> = Vec::new();
    let mut i: usize = 0;
    assert(claude_views(found@) =~= Seq::empty());
    while i < procs.len()
        invariant
            i <= procs.len(),
            all == proc_views(procs@),
            sessions_fit(all, comm@),
            runs(cut@) == lines_of(cwds@),
            claude_views(found@) == sessions_among(all, comm@, cwds@, i as int),
        decreases procs.len() - i,
    {
        assert(all[i as int] == procs@[i as int]@);
        let ghost before = claude_views(found@);
        if same(procs[i].comm.as_str(), comm) {
            match roll_up(procs, i) {
                Some(t) => {
                    let s = ClaudeSession {
                        pid: procs[i].pid,
                        cwd: read_cwd(&cut, procs[i].pid),
                        uptime: procs[i].uptime,
                        cpu_parts: t.cpu,
                        rss: t.rss,
                        descendants: t.n,
                    };
                    let ghost one = s@;
                    found.push(s);
                    assert(claude_views(found@) =~= before.push(one));
                },
                None => {},
            }
        }
        i += 1;
    }
    sort_sessions(found)
}

// ---------------------------------------------------------------------------
// The table
// ---------------------------------------------------------------------------
/// The place of a single-precision number among all of them, by its bits: the order of
/// IEEE 754 `totalOrder`, from the negative not-a-numbers to the positive ones.
pub open spec fn rank(bits: u32) -> int {
    if bits < 0x8000_0000 {
        bits as int
    } else {
        0x7fff_ffff - bits
    }
}

/// By CPU, the busiest first.
pub open spec fn by_cpu() -> spec_fn(ProcView) -> int {
    |p: ProcView| -rank(p.cpu_bits)
}

fn rank_of(bits: u32) -> (r: i64)
    ensures
        r == rank(bits),
{
    if bits < 0x8000_0000 {
        bits as i64
    } else {
        0x7fff_ffff - bits as i64
    }
}

/// Sorts processes by CPU, the busiest first.
pub fn sort_by_cpu(v: Vec<Proc>) -> (r: Vec<Proc>)
    ensures
        sorted_from(proc_views(r@), proc_views(v@), by_cpu()),
{
    let mut v = v;
    let ghost all = proc_views(v@);
    let key = Ghost(by_cpu());
    let mut out: Vec<Proc> = Vec::new();
    assert(all.skip(v@.len() as int) =~= Seq::empty());
    assert(proc_views(out@) =~= Seq::empty());
    assert(all.take(v@.len() as int) =~= all);
    while v.len() > 0
        invariant
            v@.len() <= all.len(),
            proc_views(v@) == all.take(v@.len() as int),
            key@ == by_cpu(),
            sorted_from(proc_views(out@), all.skip(v@.len() as int), key@),
        decreases v@.len(),
    {
        let ghost n = v@.len() as int;
        let ghost done = proc_views(out@);
        match v.pop() {
            None => {},
            Some(x) => {
                let mine = rank_of(x.cpu_bits);
                let mut at: usize = 0;
                while at < out.len() && rank_of(out[at].cpu_bits) > mine
                    invariant
                        at <= out.len(),
                        done == proc_views(out@),
                        key@ == by_cpu(),
                        mine == rank(x.cpu_bits),
                        forall|i: int| 0 <= i < at ==> (key@)(#[trigger] done[i]) < (key@)(x@),
                    decreases out.len() - at,
                {
                    at += 1;
                }
                proof {
                    assert(at < out.len() ==> done[at as int] == out@[at as int]@);
                    assert(all[n - 1] == x@) by {
                        assert(all.take(n)[n - 1] == x@);
                    }
                    assert(seq![x@] + all.skip(n) =~= all.skip(n - 1));
                    lemma_put_in(done, x@, at as int, key@, all.skip(n));
                    assert(all.take(n).drop_last() =~= all.take(n - 1));
                    assert(proc_views(v@) =~= all.take(n).drop_last());
                }
                let ghost one = x@;
                out.insert(at, x);
                assert(proc_views(out@) =~= done.insert(at as int, one));
            },
        }
    }
    assert(all.skip(0) =~= all);
    out
}

/// The processes with their CPU readings.
pub open spec fn with_cpu(rows: Seq<RowView>, cpu: Seq<u32>) -> Seq<ProcView> {
    Seq::new(
        rows.len(),
        |i: int|
            ProcView {
                pid: rows[i].pid,
                ppid: rows[i].ppid,
                user: rows[i].user,
                cpu_bits: cpu[i],
                rss: rows[i].rss as u64,
                uptime: rows[i].uptime,
                comm: rows[i].comm,
            },
    )
}

/// Gives every listed process its CPU reading: the bits of a single-precision number
/// each.
pub fn procs_with(rows: &Vec<Row>, cpu: &Vec<u32>) -> (r: Vec<Proc>)
    requires
        cpu@.len() == rows@.len(),
    ensures
        proc_views(r@) == with_cpu(row_views(rows@), cpu@),
{
    let ghost want = with_cpu(row_views(rows@), cpu@);
    let mut out: Vec<Proc> = Vec::new();
    let mut i: usize = 0;
    while i < rows.len()
        invariant
            i <= rows.len(),
            cpu@.len() == rows@.len(),
            want == with_cpu(row_views(rows@), cpu@),
            out@.len() == i,
            forall|j: int| 0 <= j < i ==> #[trigger] out@[j]@ == want[j],
        decreases rows.len() - i,
    {
        out.push(
            Proc {
                pid: rows[i].pid,
                ppid: rows[i].ppid,
                user: rows[i].user.clone(),
                cpu_bits: cpu[i],
                rss: rows[i].rss,
                uptime: rows[i].uptime,
                comm: rows[i].comm.clone(),
            },
        );
        i += 1;
    }
    assert(proc_views(out@) =~= want);
    out
}

/// The process table, the busiest first, and the sessions in it.
pub fn process_table(reading: &Reading, cpu: &Vec<u32>, comm: &str) -> (r: (
    Vec<Proc>,
    Vec<ClaudeSession>,
))
    requires
        cpu@.len() == reading.rows@.len(),
        sessions_fit(with_cpu(reading@.rows, cpu@), comm@),
    ensures
        ({
            let procs = with_cpu(reading@.rows, cpu@);
            &&& sorted_from(proc_views(r.0@), procs, by_cpu())
            &&& sorted_from(
                claude_views(r.1@),
                sessions_among(procs, comm@, reading@.cwds, procs.len() as int),
                by_pid(),
            )
        }),
{
    let procs = procs_with(&reading.rows, cpu);
    assert(proc_views(procs@).len() == procs@.len());
    let sessions = claude_sessions(&procs, comm, reading.cwds.as_str());
    (sort_by_cpu(procs), sessions)
}

} // verus!
