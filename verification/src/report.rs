//! What the host's answers say: the readings of one look at it, the states of its
//! units and the players on the server.
use crate::chars::{
    chars_of, find, first_at, is_trimmed, lemma_first_at, lemma_trimmed, lines, lines_of, pieces,
    pieces_of, runs, same, starts, starts_with, text_of, texts, trim, trimmed, trimmed_text, words,
    words_of,
};
use crate::model::{
    player_views, service_views, CpuTicks, Metrics, MetricsView, Player, PlayerView, ServiceStatus,
    ServiceView,
};
use crate::numbers::{or_zero, read_unsigned, unsigned};
use vstd::prelude::*;
use vstd::slice::slice_subrange;

verus! {

// ---------------------------------------------------------------------------
// Sections
// ---------------------------------------------------------------------------
/// The name on a marker line `@@name`.
pub open spec fn marker(line: Seq<char>) -> Option<Seq<char>> {
    if starts(trimmed(line), "@@"@) {
        Some(trimmed(line).skip(2))
    } else {
        None
    }
}

/// The lines in front of the next marker, each ended by a line feed.
pub open spec fn section_body(lines: Seq<Seq<char>>) -> Seq<char>
    decreases lines.len(),
{
    if lines.len() == 0 || marker(lines[0]) is Some {
        Seq::empty()
    } else {
        lines[0].push('\n') + section_body(lines.drop_first())
    }
}

/// Every marker with the lines behind it, in order. Lines in front of the first
/// marker belong to none.
pub open spec fn sections_of(lines: Seq<Seq<char>>) -> Seq<(Seq<char>, Seq<char>)>
    decreases lines.len(),
{
    if lines.len() == 0 {
        Seq::empty()
    } else {
        let rest = sections_of(lines.drop_first());
        match marker(lines[0]) {
            Some(name) => seq![(name, section_body(lines.drop_first()))] + rest,
            None => rest,
        }
    }
}

/// The last section of that name, or nothing.
pub open spec fn section_of(sections: Seq<(Seq<char>, Seq<char>)>, name: Seq<char>) -> Seq<char>
    decreases sections.len(),
{
    if sections.len() == 0 {
        Seq::empty()
    } else if sections.last().0 == name {
        sections.last().1
    } else {
        section_of(sections.drop_last(), name)
    }
}

/// What the output `text` says under `name`.
pub open spec fn section(text: Seq<char>, name: Seq<char>) -> Seq<char> {
    section_of(sections_of(lines_of(text)), name)
}

/// Marker-delimited output (`@@name` … ) split into named sections.
#[derive(Debug)]
pub struct Sections {
    parts: Vec<(String, String)>,
}

impl View for Sections {
    type V = Seq<(Seq<char>, Seq<char>)>;

    closed spec fn view(&self) -> Seq<(Seq<char>, Seq<char>)> {
        self.parts@.map_values(|p: (String, String)| (p.0@, p.1@))
    }
}

fn is_marker(line: &[char]) -> (r: bool)
    ensures
        r == (marker(line@) is Some),
{
    starts_with(trim(line), "@@")
}

impl Sections {
    /// Splits the output of a command at its markers.
    pub fn parse(text: &str) -> (r: Self)
        ensures
            r@ == sections_of(lines_of(text@)),
    {
        let all = chars_of(text);
        let cut = lines(all.as_slice());
        let ghost seen = lines_of(text@);
        let mut out = Sections { parts: Vec::new() };
        let mut i: usize = 0;
        assert(seen.skip(0) =~= seen);
        assert(out@ + sections_of(seen) =~= sections_of(seen));
        while i < cut.len()
            invariant
                i <= cut.len(),
                runs(cut@) == seen,
                out@ + sections_of(seen.skip(i as int)) == sections_of(seen),
            decreases cut.len() - i,
        {
            let ghost rest = seen.skip(i as int);
            let ghost before = out@;
            assert(rest[0] == cut@[i as int]@);
            assert(rest.drop_first() =~= seen.skip(i + 1));
            let line = cut[i];
            i += 1;
            if is_marker(line) {
                let head = trim(line);
                proof {
                    reveal_strlit("@@");
                }
                let name = text_of(slice_subrange(head, 2, head.len()));
                assert(name@ =~= trimmed(line@).skip(2));
                let mut body = String::new();
                let mut j: usize = i;
                assert(body@ + section_body(seen.skip(j as int)) =~= section_body(
                    seen.skip(i as int),
                ));
                while j < cut.len() && !is_marker(cut[j])
                    invariant
                        i <= j <= cut.len(),
                        runs(cut@) == seen,
                        body@ + section_body(seen.skip(j as int)) == section_body(
                            seen.skip(i as int),
                        ),
                    decreases cut.len() - j,
                {
                    let ghost so_far = body@;
                    let ghost tail = seen.skip(j as int);
                    assert(tail[0] == cut@[j as int]@);
                    assert(tail.drop_first() =~= seen.skip(j + 1));
                    body.append(text_of(cut[j]).as_str());
                    body.push('\n');
                    assert(body@ + section_body(seen.skip(j + 1)) =~= so_far + (tail[0].push('\n')
                        + section_body(seen.skip(j + 1))));
                    j += 1;
                }
                proof {
                    let tail = seen.skip(j as int);
                    if j < cut.len() {
                        assert(tail[0] == cut@[j as int]@);
                    }
                    assert(section_body(tail) =~= Seq::empty());
                    assert(body@ =~= section_body(seen.skip(i as int)));
                }
                out.parts.push((name, body));
                assert(out@ =~= before.push((name@, body@)));
                assert(before.push((name@, body@)) + sections_of(seen.skip(i as int)) =~= before + (
                seq![(name@, body@)] + sections_of(seen.skip(i as int))));
            }
        }
        assert(out@ + sections_of(seen.skip(i as int)) =~= out@);
        out
    }

    /// What stands under `name`; nothing where there is no such marker.
    pub fn get(&self, name: &str) -> (r: &str)
        ensures
            r@ == section_of(self@, name@),
    {
        let mut n: usize = self.parts.len();
        assert(self@.take(n as int) =~= self@);
        while n > 0
            invariant
                n <= self.parts.len(),
                section_of(self@.take(n as int), name@) == section_of(self@, name@),
            decreases n,
        {
            let ghost front = self@.take(n as int);
            assert(front.last() == self@[n - 1]);
            assert(front.drop_last() =~= self@.take(n - 1));
            n -= 1;
            if same(self.parts[n].0.as_str(), name) {
                return self.parts[n].1.as_str();
            }
        }
        proof {
            reveal_strlit("");
            assert(""@ =~= Seq::empty());
        }
        ""
    }
}

/// What a script prints for sections of those names and lines: a marker each, and the
/// lines behind it.
pub open spec fn printed(parts: Seq<(Seq<char>, Seq<Seq<char>>)>) -> Seq<Seq<char>>
    decreases parts.len(),
{
    if parts.len() == 0 {
        Seq::empty()
    } else {
        seq!["@@"@ + parts[0].0] + parts[0].1 + printed(parts.drop_first())
    }
}

proof fn lemma_printed(body: Seq<Seq<char>>, rest: Seq<Seq<char>>)
    requires
        forall|i: int| 0 <= i < body.len() ==> marker(#[trigger] body[i]) is None,
        rest.len() > 0 ==> marker(rest[0]) is Some,
    ensures
        section_body(body + rest) == section_body(body),
        sections_of(body + rest) == sections_of(rest),
    decreases body.len(),
{
    if body.len() == 0 {
        assert(body + rest =~= rest);
    } else {
        let t = body.drop_first();
        assert forall|i: int| 0 <= i < t.len() implies marker(#[trigger] t[i]) is None by {
            assert(t[i] == body[i + 1]);
        }
        assert(marker(body[0]) is None);
        lemma_printed(t, rest);
        assert((body + rest).drop_first() =~= t + rest);
    }
}

/// What a script prints section by section is found again under its names, line by line.
pub proof fn sections_are_read_back(parts: Seq<(Seq<char>, Seq<Seq<char>>)>)
    requires
        forall|i: int| 0 <= i < parts.len() ==> is_trimmed((#[trigger] parts[i]).0),
        forall|i: int, j: int|
            0 <= i < parts.len() && 0 <= j < parts[i].1.len() ==> marker(
                #[trigger] parts[i].1[j],
            ) is None,
    ensures
        sections_of(printed(parts)) == parts.map_values(
            |p: (Seq<char>, Seq<Seq<char>>)| (p.0, section_body(p.1)),
        ),
    decreases parts.len(),
{
    let want = parts.map_values(|p: (Seq<char>, Seq<Seq<char>>)| (p.0, section_body(p.1)));
    if parts.len() == 0 {
        assert(sections_of(printed(parts)) =~= want);
    } else {
        let (name, body) = parts[0];
        let t = parts.drop_first();
        assert(forall|i: int| 0 <= i < t.len() ==> #[trigger] t[i] == parts[i + 1]);
        assert forall|i: int, j: int| 0 <= i < t.len() && 0 <= j < t[i].1.len() implies marker(
            #[trigger] t[i].1[j],
        ) is None by {
            assert(marker(parts[i + 1].1[j]) is None);
        }
        assert forall|i: int| 0 <= i < body.len() implies marker(#[trigger] body[i]) is None by {
            assert(marker(parts[0].1[i]) is None);
        }
        sections_are_read_back(t);
        let rest = printed(t);
        let head = "@@"@ + name;
        lemma_marker(name);
        if t.len() > 0 {
            lemma_marker(t[0].0);
            assert(rest[0] == "@@"@ + t[0].0);
        }
        lemma_printed(body, rest);
        let lines = printed(parts);
        assert(lines[0] == head);
        assert(lines.drop_first() =~= body + rest);
        assert(want =~= seq![(name, section_body(body))] + t.map_values(
            |p: (Seq<char>, Seq<Seq<char>>)| (p.0, section_body(p.1)),
        ));
    }
}

proof fn lemma_marker(name: Seq<char>)
    requires
        is_trimmed(name),
    ensures
        marker("@@"@ + name) == Some(name),
{
    reveal_strlit("@@");
    let line = "@@"@ + name;
    assert(line[0] == '@');
    assert(line.last() == (if name.len() > 0 {
        name.last()
    } else {
        '@'
    }));
    lemma_trimmed(line);
    assert(line.take(2) =~= "@@"@);
    assert(line.skip(2) =~= name);
}

// ---------------------------------------------------------------------------
// CPU time
// ---------------------------------------------------------------------------
/// The numbers among `words`.
pub open spec fn numbers_of(words: Seq<Seq<char>>) -> Seq<int>
    decreases words.len(),
{
    if words.len() == 0 {
        Seq::empty()
    } else {
        let rest = numbers_of(words.drop_first());
        match unsigned(words[0], u64::MAX as int) {
            Some(n) => seq![n] + rest,
            None => rest,
        }
    }
}

/// The counters of a `/proc/stat` line: its numbers behind the first word.
pub open spec fn counters(line: Seq<char>) -> Seq<int> {
    let words = words_of(line);
    if words.len() == 0 {
        Seq::empty()
    } else {
        numbers_of(words.drop_first())
    }
}

pub open spec fn sum(s: Seq<int>) -> int
    decreases s.len(),
{
    if s.len() == 0 {
        0
    } else {
        sum(s.drop_last()) + s.last()
    }
}

/// The counters `idle` and `iowait` together.
pub open spec fn idle(counters: Seq<int>) -> int {
    counters[3] + counters[4]
}

/// The CPU time between two `/proc/stat` lines. There is none where a line is too
/// short, where a count went backwards, or where no time has passed.
pub open spec fn ticks_between(a: Seq<char>, b: Seq<char>) -> Option<CpuTicks> {
    let (a, b) = (counters(a), counters(b));
    let total = sum(b) - sum(a);
    let spare = idle(b) - idle(a);
    if a.len() < 5 || b.len() < 5 || total <= 0 || spare < 0 {
        None
    } else {
        Some(CpuTicks { busy: (total - spare) as u64, total: total as u64 })
    }
}

/// The counts add up within 64 bits, and no more time was idle than has passed.
pub open spec fn ticks_fit(a: Seq<char>, b: Seq<char>) -> bool {
    let (a, b) = (counters(a), counters(b));
    a.len() < 5 || b.len() < 5 || {
        &&& sum(a) <= u64::MAX
        &&& sum(b) <= u64::MAX
        &&& sum(b) > sum(a) && idle(b) >= idle(a) ==> idle(b) - idle(a) <= sum(b) - sum(a)
    }
}

/// A list of counts.
pub open spec fn counts(v: Seq<u64>) -> Seq<int> {
    v.map_values(|n: u64| n as int)
}

fn read_counters(line: &str) -> (r: Vec<u64>)
    ensures
        counts(r@) == counters(line@),
{
    let all = chars_of(line);
    let cut = words(all.as_slice());
    let ghost seen = words_of(line@);
    let mut out: Vec<u64> = Vec::new();
    if cut.len() == 0 {
        assert(counts(out@) =~= counters(line@));
        return out;
    }
    let ghost list = seen.drop_first();
    let mut i: usize = 1;
    assert(list.skip(0) =~= list);
    assert(counts(out@) + numbers_of(list) =~= numbers_of(list));
    while i < cut.len()
        invariant
            1 <= i <= cut.len(),
            runs(cut@) == seen,
            list == seen.drop_first(),
            counts(out@) + numbers_of(list.skip(i - 1)) == numbers_of(list),
        decreases cut.len() - i,
    {
        let ghost rest = list.skip(i - 1);
        let ghost before = counts(out@);
        assert(rest[0] == cut@[i as int]@);
        assert(rest.drop_first() =~= list.skip(i as int));
        match read_unsigned(cut[i], u64::MAX) {
            Some(n) => {
                out.push(n);
                assert(counts(out@) =~= before.push(n as int));
                assert(before.push(n as int) + numbers_of(rest.drop_first()) =~= before + (
                seq![n as int] + numbers_of(rest.drop_first())));
            },
            None => {},
        }
        i += 1;
    }
    assert(counts(out@) + numbers_of(list.skip(i - 1)) =~= counts(out@));
    out
}

proof fn lemma_sum_counts(v: Seq<u64>, i: int)
    requires
        0 <= i <= v.len(),
    ensures
        0 <= sum(counts(v).take(i)) <= sum(counts(v)),
        forall|j: int| 0 <= j < i ==> counts(v)[j] <= sum(counts(v).take(i)),
    decreases v.len() + i,
{
    let s = counts(v);
    if i > 0 {
        lemma_sum_counts(v, i - 1);
        assert(s.take(i).drop_last() =~= s.take(i - 1));
        assert(s.take(i).last() == s[i - 1]);
    }
    if i < v.len() {
        lemma_sum_counts(v.drop_last(), i);
        assert(counts(v.drop_last()) =~= s.drop_last());
        assert(s.drop_last().take(i) =~= s.take(i));
    } else {
        assert(s.take(i) =~= s);
    }
}

proof fn lemma_idle(v: Seq<u64>)
    requires
        v.len() >= 5,
    ensures
        0 <= idle(counts(v)) <= sum(counts(v)),
{
    let s = counts(v);
    lemma_sum_counts(v, 5);
    lemma_sum_counts(v, 3);
    reveal_with_fuel(sum, 3);
    let five = s.take(5);
    assert(five.drop_last().drop_last() =~= s.take(3));
    assert(five.last() == s[4]);
    assert(five.drop_last().last() == s[3]);
}

/// The sum, where it fits in 64 bits.
fn total(v: &Vec<u64>) -> (r: Option<u64>)
    ensures
        match r {
            Some(n) => n == sum(counts(v@)),
            None => sum(counts(v@)) > u64::MAX,
        },
{
    let mut n: u64 = 0;
    let mut i: usize = 0;
    let ghost s = counts(v@);
    assert(s.take(0) =~= Seq::empty());
    while i < v.len()
        invariant
            i <= v.len(),
            s == counts(v@),
            n == sum(s.take(i as int)),
        decreases v.len() - i,
    {
        proof {
            assert(s.take(i + 1).drop_last() =~= s.take(i as int));
            assert(s.take(i + 1).last() == v@[i as int] as int);
            lemma_sum_counts(v@, i + 1);
        }
        match n.checked_add(v[i]) {
            Some(m) => {
                n = m;
            },
            None => {
                return None;
            },
        }
        i += 1;
    }
    assert(s.take(i as int) =~= s);
    Some(n)
}

/// The CPU time between two lines, or nothing at all where the counts do not fit.
fn compare_ticks(a: &str, b: &str) -> (r: Option<Option<CpuTicks>>)
    ensures
        match r {
            Some(t) => ticks_fit(a@, b@) && t == ticks_between(a@, b@),
            None => !ticks_fit(a@, b@),
        },
        r matches Some(Some(t)) ==> t.busy <= t.total && t.total > 0,
{
    let x = read_counters(a);
    let y = read_counters(b);
    let ghost (p, q) = (counters(a@), counters(b@));
    assert(p.len() == x@.len());
    assert(q.len() == y@.len());
    if x.len() < 5 || y.len() < 5 {
        return Some(None);
    }
    match (total(&x), total(&y)) {
        (Some(total_a), Some(total_b)) => {
            proof {
                lemma_idle(x@);
                lemma_idle(y@);
                assert(p[3] == x@[3] as int && p[4] == x@[4] as int);
                assert(q[3] == y@[3] as int && q[4] == y@[4] as int);
            }
            let idle_a = x[3] + x[4];
            let idle_b = y[3] + y[4];
            if total_b <= total_a || idle_b < idle_a {
                return Some(None);
            }
            let d_total = total_b - total_a;
            let d_idle = idle_b - idle_a;
            if d_idle > d_total {
                return None;
            }
            Some(Some(CpuTicks { busy: d_total - d_idle, total: d_total }))
        },
        _ => None,
    }
}

/// Whether two `/proc/stat` lines can be compared within 64 bits.
pub fn ticks_comparable(a: &str, b: &str) -> (r: bool)
    ensures
        r == ticks_fit(a@, b@),
{
    compare_ticks(a, b).is_some()
}

/// CPU time between two `/proc/stat` `cpu` lines.
pub fn cpu_delta(a: &str, b: &str) -> (r: Option<CpuTicks>)
    requires
        ticks_fit(a@, b@),
    ensures
        r == ticks_between(a@, b@),
        r matches Some(t) ==> t.busy <= t.total && t.total > 0,
{
    match compare_ticks(a, b) {
        Some(t) => t,
        None => None,
    }
}

// ---------------------------------------------------------------------------
// The host
// ---------------------------------------------------------------------------
/// One round-trip for every host metric. `/proc/stat` is sampled twice around a short
/// sleep because CPU% is a delta, not an instantaneous value.
pub const METRICS_SCRIPT: &'static str = "
echo '@@host';    hostname
echo '@@uptime';  uptime -p 2>/dev/null || uptime
echo '@@nproc';   nproc
echo '@@load';    cat /proc/loadavg
echo '@@stat1';   grep '^cpu ' /proc/stat
sleep 0.4
echo '@@stat2';   grep '^cpu ' /proc/stat
echo '@@mem';     cat /proc/meminfo
echo '@@disk';    df -B1 / | tail -1
";

/// What stands in front of the colon of a `/proc/meminfo` line.
pub open spec fn mem_key(line: Seq<char>) -> Option<Seq<char>> {
    let at = first_at(line, ':');
    if at < line.len() {
        Some(line.take(at))
    } else {
        None
    }
}

/// The first word behind the colon, as a number of kB.
pub open spec fn mem_kb(line: Seq<char>) -> int {
    let words = words_of(line.skip(first_at(line, ':') + 1));
    if words.len() == 0 {
        0
    } else {
        or_zero(unsigned(words[0], u64::MAX as int))
    }
}

/// The bytes on the last line of that name; 0 where there is none.
pub open spec fn mem_bytes(lines: Seq<Seq<char>>, key: Seq<char>) -> int
    decreases lines.len(),
{
    if lines.len() == 0 {
        0
    } else if mem_key(lines.last()) == Some(key) {
        mem_kb(lines.last()) * 1024
    } else {
        mem_bytes(lines.drop_last(), key)
    }
}

/// The names that are read.
pub open spec fn mem_keys() -> Seq<Seq<char>> {
    seq!["MemTotal"@, "MemAvailable"@, "SwapTotal"@, "SwapFree"@]
}

/// The line is of a name that is read, and its size in bytes is over 64 bits.
pub open spec fn mem_too_large(line: Seq<char>) -> bool {
    &&& mem_key(line) is Some
    &&& mem_keys().contains(mem_key(line)->Some_0)
    &&& mem_kb(line) * 1024 > u64::MAX
}

/// A column of the `df` line, where the line has its size and use.
pub open spec fn disk_bytes(words: Seq<Seq<char>>, column: int) -> u64 {
    if words.len() >= 3 {
        or_zero(unsigned(words[column], u64::MAX as int)) as u64
    } else {
        0
    }
}

/// The readings in the output of the metrics script.
pub open spec fn metrics_of(text: Seq<char>) -> MetricsView {
    let load = words_of(section(text, "load"@));
    let mem = lines_of(section(text, "mem"@));
    let disk = words_of(section(text, "disk"@));
    MetricsView {
        hostname: trimmed(section(text, "host"@)),
        uptime: trimmed(section(text, "uptime"@)),
        cores: or_zero(unsigned(trimmed(section(text, "nproc"@)), usize::MAX as int)) as usize,
        cpu: ticks_between(section(text, "stat1"@), section(text, "stat2"@)),
        load: if load.len() > 3 {
            load.take(3)
        } else {
            load
        },
        mem_total: mem_bytes(mem, "MemTotal"@) as u64,
        mem_available: mem_bytes(mem, "MemAvailable"@) as u64,
        swap_total: mem_bytes(mem, "SwapTotal"@) as u64,
        swap_free: mem_bytes(mem, "SwapFree"@) as u64,
        disk_total: disk_bytes(disk, 1),
        disk_used: disk_bytes(disk, 2),
    }
}

/// All the readings fit in 64 bits.
pub open spec fn metrics_fit(text: Seq<char>) -> bool {
    let mem = lines_of(section(text, "mem"@));
    &&& ticks_fit(section(text, "stat1"@), section(text, "stat2"@))
    &&& forall|i: int| 0 <= i < mem.len() ==> !mem_too_large(#[trigger] mem[i])
}

/// The four figures that are read from `/proc/meminfo`, in bytes.
struct Memory {
    mem_total: u64,
    mem_available: u64,
    swap_total: u64,
    swap_free: u64,
}

impl Memory {
    spec fn shows(&self, lines: Seq<Seq<char>>) -> bool {
        &&& self.mem_total == mem_bytes(lines, "MemTotal"@)
        &&& self.mem_available == mem_bytes(lines, "MemAvailable"@)
        &&& self.swap_total == mem_bytes(lines, "SwapTotal"@)
        &&& self.swap_free == mem_bytes(lines, "SwapFree"@)
    }
}

/// The names that are read differ.
proof fn lemma_mem_keys()
    ensures
        forall|i: int, j: int| 0 <= i < j < 4 ==> #[trigger] mem_keys()[i] != #[trigger] mem_keys()[j],
{
    reveal_strlit("MemTotal");
    reveal_strlit("MemAvailable");
    reveal_strlit("SwapTotal");
    reveal_strlit("SwapFree");
    assert("MemTotal"@.len() == 8);
    assert("MemAvailable"@.len() == 12);
    assert("SwapTotal"@.len() == 9);
    assert("SwapFree"@.len() == 8);
    assert("MemTotal"@[0] == 'M');
    assert("SwapFree"@[0] == 'S');
}

/// Takes one more line of `/proc/meminfo`; `false` where its size does not fit.
fn read_mem_line(m: &mut Memory, line: &[char], Ghost(before): Ghost<Seq<Seq<char>>>) -> (r: bool)
    requires
        old(m).shows(before),
    ensures
        r == !mem_too_large(line@),
        r ==> final(m).shows(before.push(line@)),
{
    let ghost after = before.push(line@);
    proof {
        assert(after.drop_last() =~= before);
        assert(after.last() == line@);
        lemma_mem_keys();
        let k = mem_keys();
        assert(k[0] == "MemTotal"@ && k[1] == "MemAvailable"@ && k[2] == "SwapTotal"@ && k[3]
            == "SwapFree"@);
        lemma_first_at(line@, ':');
    }
    let at = find(line, ':');
    if at == line.len() {
        return true;
    }
    let key = text_of(slice_subrange(line, 0, at));
    let rest = slice_subrange(line, at + 1, line.len());
    assert(key@ =~= line@.take(at as int));
    assert(rest@ =~= line@.skip(at + 1));
    let cut = words(rest);
    assert(cut@.len() > 0 ==> words_of(rest@)[0] == cut@[0]@);
    assert(cut@.len() == words_of(rest@).len());
    let kb: u64 = if cut.len() > 0 {
        match read_unsigned(cut[0], u64::MAX) {
            Some(n) => n,
            None => 0,
        }
    } else {
        0
    };
    let total = same(key.as_str(), "MemTotal");
    let available = same(key.as_str(), "MemAvailable");
    let swap = same(key.as_str(), "SwapTotal");
    let free = same(key.as_str(), "SwapFree");
    proof {
        let k = mem_keys();
        if total || available || swap || free {
            assert(k.contains(key@)) by {
                let i = if total {
                    0int
                } else if available {
                    1
                } else if swap {
                    2
                } else {
                    3
                };
                assert(k[i] == key@);
            }
        } else {
            assert(!k.contains(key@));
        }
    }
    if !total && !available && !swap && !free {
        return true;
    }
    match kb.checked_mul(1024) {
        None => false,
        Some(bytes) => {
            if total {
                m.mem_total = bytes;
            } else if available {
                m.mem_available = bytes;
            } else if swap {
                m.swap_total = bytes;
            } else {
                m.swap_free = bytes;
            }
            true
        },
    }
}

fn read_mem(text: &str) -> (r: Option<Memory>)
    ensures
        match r {
            Some(m) => m.shows(lines_of(text@)) && forall|i: int|
                0 <= i < lines_of(text@).len() ==> !mem_too_large(#[trigger] lines_of(text@)[i]),
            None => exists|i: int|
                0 <= i < lines_of(text@).len() && mem_too_large(#[trigger] lines_of(text@)[i]),
        },
{
    let all = chars_of(text);
    let cut = lines(all.as_slice());
    let ghost seen = lines_of(text@);
    let mut m = Memory { mem_total: 0, mem_available: 0, swap_total: 0, swap_free: 0 };
    let mut i: usize = 0;
    assert(seen.take(0) =~= Seq::empty());
    while i < cut.len()
        invariant
            i <= cut.len(),
            runs(cut@) == seen,
            seen == lines_of(text@),
            m.shows(seen.take(i as int)),
            forall|j: int| 0 <= j < i ==> !mem_too_large(#[trigger] seen[j]),
        decreases cut.len() - i,
    {
        assert(seen[i as int] == cut@[i as int]@);
        assert(seen.take(i + 1) =~= seen.take(i as int).push(seen[i as int]));
        if !read_mem_line(&mut m, cut[i], Ghost(seen.take(i as int))) {
            return None;
        }
        i += 1;
    }
    assert(seen.take(i as int) =~= seen);
    Some(m)
}

/// A number among the words, or 0.
fn column(cut: &Vec<&[char]>, i: usize) -> (r: u64)
    requires
        i == 1 || i == 2,
    ensures
        r == disk_bytes(runs(cut@), i as int),
{
    let ghost seen = runs(cut@);
    assert(seen.len() == cut@.len());
    if cut.len() < 3 {
        return 0;
    }
    assert(seen[i as int] == cut@[i as int]@);
    match read_unsigned(cut[i], u64::MAX) {
        Some(n) => n,
        None => 0,
    }
}

/// The first words of `text`, three at most.
fn first_three(text: &str) -> (r: Vec<String>)
    ensures
        texts(r@) == (if words_of(text@).len() > 3 {
            words_of(text@).take(3)
        } else {
            words_of(text@)
        }),
{
    let all = chars_of(text);
    let cut = words(all.as_slice());
    let ghost seen = words_of(text@);
    let mut out: Vec<String> = Vec::new();
    let mut i: usize = 0;
    while i < cut.len() && i < 3
        invariant
            i <= cut.len(),
            i <= 3,
            runs(cut@) == seen,
            out@.len() == i,
            forall|j: int| 0 <= j < i ==> #[trigger] out@[j]@ == seen[j],
        decreases cut.len() - i,
    {
        assert(seen[i as int] == cut@[i as int]@);
        out.push(text_of(cut[i]));
        i += 1;
    }
    assert(seen.len() == cut@.len());
    assert(texts(out@) =~= seen.take(i as int));
    assert(i == seen.len() ==> seen.take(i as int) =~= seen);
    out
}

/// The readings in the output of the metrics script, where they fit.
fn read_readings(out: &str) -> (r: Option<Metrics>)
    ensures
        match r {
            Some(m) => metrics_fit(out@) && m@ == metrics_of(out@),
            None => !metrics_fit(out@),
        },
{
    let s = Sections::parse(out);
    let cpu = match compare_ticks(s.get("stat1"), s.get("stat2")) {
        Some(cpu) => cpu,
        None => {
            return None;
        },
    };
    let mem = match read_mem(s.get("mem")) {
        Some(mem) => mem,
        None => {
            return None;
        },
    };
    let count = chars_of(s.get("nproc"));
    let cores: usize = match read_unsigned(trim(count.as_slice()), usize::MAX as u64) {
        Some(n) => n as usize,
        None => 0,
    };
    let blocks = chars_of(s.get("disk"));
    let disk = words(blocks.as_slice());
    let m = Metrics {
        hostname: trimmed_text(s.get("host")),
        uptime: trimmed_text(s.get("uptime")),
        cores,
        cpu,
        load: first_three(s.get("load")),
        mem_total: mem.mem_total,
        mem_available: mem.mem_available,
        swap_total: mem.swap_total,
        swap_free: mem.swap_free,
        disk_total: column(&disk, 1),
        disk_used: column(&disk, 2),
    };
    Some(m)
}

/// Whether the readings in the output of the metrics script fit in 64 bits.
pub fn metrics_readable(out: &str) -> (r: bool)
    ensures
        r == metrics_fit(out@),
{
    read_readings(out).is_some()
}

/// The readings in the output of the metrics script. Whatever is missing or no number
/// reads as nothing or 0.
pub fn metrics(out: &str) -> (r: Metrics)
    requires
        metrics_fit(out@),
    ensures
        r@ == metrics_of(out@),
{
    match read_readings(out) {
        Some(m) => m,
        None => Metrics::default(),
    }
}

// ---------------------------------------------------------------------------
// Units
// ---------------------------------------------------------------------------
/// The units with the states that `systemctl is-active` printed, line by line.
pub open spec fn states_of(units: Seq<Seq<char>>, out: Seq<char>) -> Seq<ServiceView> {
    Seq::new(
        units.len(),
        |i: int|
            ServiceView {
                name: units[i],
                state: if i < lines_of(out).len() {
                    trimmed(lines_of(out)[i])
                } else {
                    "unknown"@
                },
            },
    )
}

/// The states of the units, in order. A unit without a line is `unknown`.
pub fn service_states(units: &Vec<String>, out: &str) -> (r: Vec<ServiceStatus>)
    ensures
        service_views(r@) == states_of(texts(units@), out@),
{
    let all = chars_of(out);
    let cut = lines(all.as_slice());
    let ghost seen = lines_of(out@);
    let ghost want = states_of(texts(units@), out@);
    let mut states: Vec<ServiceStatus> = Vec::new();
    let mut i: usize = 0;
    assert(seen.len() == cut@.len());
    while i < units.len()
        invariant
            i <= units.len(),
            runs(cut@) == seen,
            seen == lines_of(out@),
            seen.len() == cut@.len(),
            want == states_of(texts(units@), out@),
            states@.len() == i,
            forall|j: int| 0 <= j < i ==> #[trigger] states@[j]@ == want[j],
        decreases units.len() - i,
    {
        let state = if i < cut.len() {
            assert(seen[i as int] == cut@[i as int]@);
            text_of(trim(cut[i]))
        } else {
            "unknown".to_owned()
        };
        states.push(ServiceStatus { name: units[i].clone(), state });
        i += 1;
    }
    assert(service_views(states@) =~= want);
    states
}

// ---------------------------------------------------------------------------
// Players
// ---------------------------------------------------------------------------
/// The player on a row: its first three fields.
pub open spec fn player_of(row: Seq<char>) -> PlayerView {
    let f = pieces_of(row, ',');
    PlayerView {
        name: f[0],
        playeruid: if f.len() > 1 {
            f[1]
        } else {
            ""@
        },
        steamid: if f.len() > 2 {
            f[2]
        } else {
            ""@
        },
    }
}

/// The players on the rows: empty rows and rows without a name are none, and neither
/// is the heading, which is the first row with text on it where it starts like one.
/// `heading` tells whether it may still come.
pub open spec fn players_on(lines: Seq<Seq<char>>, heading: bool) -> Seq<PlayerView>
    decreases lines.len(),
{
    if lines.len() == 0 {
        Seq::empty()
    } else {
        let row = trimmed(lines[0]);
        let rest = lines.drop_first();
        if row.len() == 0 {
            players_on(rest, heading)
        } else if (heading && starts(row, "name,"@)) || player_of(row).name.len() == 0 {
            players_on(rest, false)
        } else {
            seq![player_of(row)] + players_on(rest, false)
        }
    }
}

/// The players in the output of RCON `ShowPlayers`.
pub open spec fn players_of(out: Seq<char>) -> Seq<PlayerView> {
    players_on(lines_of(out), true)
}

/// Every listed player has a name.
pub proof fn no_player_is_a_phantom(out: Seq<char>)
    ensures
        forall|i: int| 0 <= i < players_of(out).len() ==> (#[trigger] players_of(out)[i]).name.len() > 0,
{
    lemma_named(lines_of(out), true);
}

proof fn lemma_named(lines: Seq<Seq<char>>, heading: bool)
    ensures
        forall|i: int|
            0 <= i < players_on(lines, heading).len() ==> (#[trigger] players_on(
                lines,
                heading,
            )[i]).name.len() > 0,
    decreases lines.len(),
{
    if lines.len() > 0 {
        lemma_named(lines.drop_first(), heading);
        lemma_named(lines.drop_first(), false);
        let row = trimmed(lines[0]);
        let all = players_on(lines, heading);
        let rest = players_on(lines.drop_first(), false);
        if row.len() == 0 {
            assert(all == players_on(lines.drop_first(), heading));
        } else if (heading && starts(row, "name,"@)) || player_of(row).name.len() == 0 {
            assert(all == rest);
        } else {
            assert(all == seq![player_of(row)] + rest);
            assert forall|i: int| 0 <= i < all.len() implies (#[trigger] all[i]).name.len() > 0 by {
                if i > 0 {
                    assert(all[i] == rest[i - 1]);
                }
            }
        }
    }
}

/// A heading alone, whatever empty rows are around it, lists nobody.
pub proof fn a_heading_is_no_player(out: Seq<char>, k: int)
    requires
        0 <= k < lines_of(out).len(),
        starts(trimmed(lines_of(out)[k]), "name,"@),
        forall|i: int|
            0 <= i < lines_of(out).len() && i != k ==> trimmed(#[trigger] lines_of(out)[i]).len()
                == 0,
    ensures
        players_of(out) == Seq::<PlayerView>::empty(),
{
    lemma_heading_alone(lines_of(out), k);
}

proof fn lemma_heading_alone(lines: Seq<Seq<char>>, k: int)
    requires
        0 <= k < lines.len(),
        starts(trimmed(lines[k]), "name,"@),
        forall|i: int|
            0 <= i < lines.len() && i != k ==> trimmed(#[trigger] lines[i]).len() == 0,
    ensures
        players_on(lines, true) == Seq::<PlayerView>::empty(),
    decreases lines.len(),
{
    let rest = lines.drop_first();
    assert forall|i: int| 0 <= i < rest.len() && i != k - 1 implies trimmed(
        #[trigger] rest[i],
    ).len() == 0 by {
        assert(rest[i] == lines[i + 1]);
    }
    reveal_strlit("name,");
    if k == 0 {
        lemma_empty_rows(rest);
    } else {
        assert(rest[k - 1] == lines[k]);
        assert(trimmed(lines[0]).len() == 0);
        lemma_heading_alone(rest, k - 1);
    }
}

proof fn lemma_empty_rows(lines: Seq<Seq<char>>)
    requires
        forall|i: int| 0 <= i < lines.len() ==> trimmed(#[trigger] lines[i]).len() == 0,
    ensures
        players_on(lines, false) == Seq::<PlayerView>::empty(),
    decreases lines.len(),
{
    if lines.len() > 0 {
        let rest = lines.drop_first();
        assert forall|i: int| 0 <= i < rest.len() implies trimmed(#[trigger] rest[i]).len()
            == 0 by {
            assert(rest[i] == lines[i + 1]);
        }
        assert(trimmed(lines[0]).len() == 0);
        lemma_empty_rows(rest);
    }
}

/// Below the heading each row with a name on it is a player, whatever that name is.
pub proof fn every_named_row_is_a_player(out: Seq<char>)
    requires
        lines_of(out).len() > 0,
        starts(trimmed(lines_of(out)[0]), "name,"@),
        forall|i: int|
            0 < i < lines_of(out).len() ==> trimmed(#[trigger] lines_of(out)[i]).len() > 0
                && player_of(trimmed(lines_of(out)[i])).name.len() > 0,
    ensures
        players_of(out) == Seq::new(
            (lines_of(out).len() - 1) as nat,
            |i: int| player_of(trimmed(lines_of(out)[i + 1])),
        ),
{
    let lines = lines_of(out);
    let rest = lines.drop_first();
    assert forall|i: int| 0 <= i < rest.len() implies trimmed(#[trigger] rest[i]).len() > 0
        && player_of(trimmed(rest[i])).name.len() > 0 by {
        assert(rest[i] == lines[i + 1]);
    }
    reveal_strlit("name,");
    lemma_named_rows(rest);
    assert(players_of(out) =~= Seq::new(
        (lines.len() - 1) as nat,
        |i: int| player_of(trimmed(lines[i + 1])),
    ));
}

proof fn lemma_named_rows(lines: Seq<Seq<char>>)
    requires
        forall|i: int|
            0 <= i < lines.len() ==> trimmed(#[trigger] lines[i]).len() > 0 && player_of(
                trimmed(lines[i]),
            ).name.len() > 0,
    ensures
        players_on(lines, false) == Seq::new(
            lines.len(),
            |i: int| player_of(trimmed(lines[i])),
        ),
    decreases lines.len(),
{
    if lines.len() > 0 {
        let rest = lines.drop_first();
        assert forall|i: int| 0 <= i < rest.len() implies trimmed(#[trigger] rest[i]).len() > 0
            && player_of(trimmed(rest[i])).name.len() > 0 by {
            assert(rest[i] == lines[i + 1]);
        }
        assert(trimmed(lines[0]).len() > 0);
        lemma_named_rows(rest);
    }
    assert(players_on(lines, false) =~= Seq::new(
        lines.len(),
        |i: int| player_of(trimmed(lines[i])),
    ));
}

fn read_player(row: &[char]) -> (r: Player)
    ensures
        r@ == player_of(row@),
{
    let cut = pieces(row, ',');
    let ghost seen = pieces_of(row@, ',');
    assert(seen.len() == cut@.len());
    assert(seen.len() > 0);
    assert(forall|i: int| 0 <= i < seen.len() ==> #[trigger] seen[i] == cut@[i]@);
    let name = text_of(cut[0]);
    let playeruid = if cut.len() > 1 {
        text_of(cut[1])
    } else {
        "".to_owned()
    };
    let steamid = if cut.len() > 2 {
        text_of(cut[2])
    } else {
        "".to_owned()
    };
    Player { name, playeruid, steamid }
}

/// RCON `ShowPlayers` prints `name,playeruid,steamid` and then one row per player.
pub fn parse_players(out: &str) -> (r: Vec<Player>)
    ensures
        player_views(r@) == players_of(out@),
{
    let all = chars_of(out);
    let cut = lines(all.as_slice());
    let ghost seen = lines_of(out@);
    let mut players: Vec<Player> = Vec::new();
    let mut heading = true;
    let mut i: usize = 0;
    assert(seen.skip(0) =~= seen);
    assert(player_views(players@) + players_of(out@) =~= players_of(out@));
    while i < cut.len()
        invariant
            i <= cut.len(),
            runs(cut@) == seen,
            player_views(players@) + players_on(seen.skip(i as int), heading) == players_of(out@),
        decreases cut.len() - i,
    {
        let ghost rest = seen.skip(i as int);
        let ghost before = player_views(players@);
        assert(rest[0] == cut@[i as int]@);
        assert(rest.drop_first() =~= seen.skip(i + 1));
        let row = trim(cut[i]);
        if row.len() == 0 {
        } else if heading && starts_with(row, "name,") {
            heading = false;
        } else {
            heading = false;
            let p = read_player(row);
            let ghost one = p@;
            if p.name.as_str().is_empty() {
            } else {
                players.push(p);
                assert(player_views(players@) =~= before.push(one));
                assert(before.push(one) + players_on(seen.skip(i + 1), false) =~= before + (
                seq![one] + players_on(seen.skip(i + 1), false)));
            }
        }
        i += 1;
    }
    assert(player_views(players@) + players_on(seen.skip(i as int), heading) =~= player_views(
        players@,
    ));
    players
}

} // verus!
