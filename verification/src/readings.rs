//! What the host prints is read as what it printed.
use crate::chars::{
    first_at, is_trimmed, joined, lemma_first_at_is, lines_of, starts, trimmed, words_of,
};
use crate::cutting::{
    a_row, blank, blanks_behind_are_no_words, ended, lines_are_found, only_blanks_are_trimmed,
    pieces_are_found,
};
use crate::model::{CpuTicks, MetricsView, PlayerView};
use crate::numbers::{decimal, written_integers_are_read_back};
use crate::report::{
    counters, marker, mem_bytes, mem_kb, mem_key, metrics_of, numbers_of, player_of, players_on, printed,
    section, section_body, section_of, sections_are_read_back, sections_of, states_of, sum,
    ticks_between,
};
use vstd::prelude::*;

verus! {

// ---------------------------------------------------------------------------
// CPU time
// ---------------------------------------------------------------------------
/// The line holds the counters `user nice system idle iowait …` behind its name, each
/// within 64 bits.
pub open spec fn tells_counters(line: Seq<char>, ns: Seq<int>) -> bool {
    &&& forall|i: int| 0 <= i < ns.len() ==> 0 <= #[trigger] ns[i] <= u64::MAX
    &&& words_of(line) == seq!["cpu"@] + ns.map_values(|n: int| decimal(n as nat))
}

/// The counters at the chosen places, added up.
pub open spec fn added(ns: Seq<int>, chosen: spec_fn(int) -> bool) -> int
    decreases ns.len(),
{
    if ns.len() == 0 {
        0
    } else {
        added(ns.drop_last(), chosen) + if chosen(ns.len() - 1) {
            ns.last()
        } else {
            0
        }
    }
}

/// Every counter.
pub open spec fn anywhere() -> spec_fn(int) -> bool {
    |i: int| true
}

/// Every counter but the fourth, the time without work, and the fifth, the time spent
/// waiting for the disk.
pub open spec fn at_work() -> spec_fn(int) -> bool {
    |i: int| i != 3 && i != 4
}

proof fn lemma_numbers(ns: Seq<int>)
    requires
        forall|i: int| 0 <= i < ns.len() ==> 0 <= #[trigger] ns[i] <= u64::MAX,
    ensures
        numbers_of(ns.map_values(|n: int| decimal(n as nat))) == ns,
    decreases ns.len(),
{
    let words = ns.map_values(|n: int| decimal(n as nat));
    if ns.len() == 0 {
        assert(numbers_of(words) =~= ns);
    } else {
        let t = ns.drop_first();
        assert forall|i: int| 0 <= i < t.len() implies 0 <= #[trigger] t[i] <= u64::MAX by {
            assert(t[i] == ns[i + 1]);
        }
        lemma_numbers(t);
        assert(0 <= ns[0] <= u64::MAX);
        written_integers_are_read_back(ns[0], 0, u64::MAX as int);
        assert(words[0] == decimal(ns[0] as nat));
        assert(words.drop_first() =~= t.map_values(|n: int| decimal(n as nat)));
        assert(numbers_of(words) =~= ns);
    }
}

proof fn lemma_no_less(ns: Seq<int>)
    requires
        forall|i: int| 0 <= i < ns.len() ==> 0 <= #[trigger] ns[i] <= u64::MAX,
    ensures
        0 <= added(ns, anywhere()),
    decreases ns.len(),
{
    if ns.len() > 0 {
        let t = ns.drop_last();
        assert forall|i: int| 0 <= i < t.len() implies 0 <= #[trigger] t[i] <= u64::MAX by {
            assert(t[i] == ns[i]);
        }
        lemma_no_less(t);
        assert(0 <= ns[ns.len() - 1]);
    }
}

proof fn lemma_counters(line: Seq<char>, ns: Seq<int>)
    requires
        tells_counters(line, ns),
    ensures
        counters(line) == ns,
        0 <= added(ns, anywhere()),
{
    lemma_numbers(ns);
    lemma_no_less(ns);
    assert(words_of(line).drop_first() =~= ns.map_values(|n: int| decimal(n as nat)));
}

proof fn lemma_added(ns: Seq<int>)
    ensures
        sum(ns) == added(ns, anywhere()),
        sum(ns) == added(ns, at_work()) + (if ns.len() > 3 {
            ns[3]
        } else {
            0
        }) + (if ns.len() > 4 {
            ns[4]
        } else {
            0
        }),
    decreases ns.len(),
{
    if ns.len() > 0 {
        lemma_added(ns.drop_last());
    }
}

proof fn lemma_added_update(ns: Seq<int>, k: int, d: int, chosen: spec_fn(int) -> bool)
    requires
        0 <= k < ns.len(),
    ensures
        added(ns.update(k, ns[k] + d), chosen) == added(ns, chosen) + (if chosen(k) {
            d
        } else {
            0
        }),
    decreases ns.len(),
{
    let v = ns.update(k, ns[k] + d);
    if k == ns.len() - 1 {
        assert(v.drop_last() =~= ns.drop_last());
    } else {
        lemma_added_update(ns.drop_last(), k, d, chosen);
        assert(v.drop_last() =~= ns.drop_last().update(k, ns[k] + d));
    }
}

/// Between two looks at the counters, all that they grew by has passed, and what those
/// grew by that count neither idling nor waiting for the disk was work. There is no
/// answer where no time has passed, or where less time than before was idle.
pub proof fn work_is_what_is_not_idle(
    first: Seq<char>,
    second: Seq<char>,
    a: Seq<int>,
    b: Seq<int>,
)
    requires
        tells_counters(first, a),
        tells_counters(second, b),
        a.len() >= 5,
        b.len() >= 5,
        added(b, anywhere()) <= u64::MAX,
        added(b, at_work()) >= added(a, at_work()),
    ensures
        ({
            let passed = added(b, anywhere()) - added(a, anywhere());
            let rested = b[3] + b[4] - a[3] - a[4];
            match ticks_between(first, second) {
                Some(t) => passed > 0 && rested >= 0 && t.total == passed && t.busy == added(
                    b,
                    at_work(),
                ) - added(a, at_work()) && t.busy + rested == t.total,
                None => passed <= 0 || rested < 0,
            }
        }),
{
    lemma_counters(first, a);
    lemma_counters(second, b);
    lemma_added(a);
    lemma_added(b);
}

/// Lines with fewer than five counters tell nothing.
pub proof fn short_lines_tell_nothing(first: Seq<char>, second: Seq<char>, a: Seq<int>, b: Seq<int>)
    requires
        tells_counters(first, a),
        tells_counters(second, b),
        a.len() < 5 || b.len() < 5,
    ensures
        ticks_between(first, second) is None,
{
    lemma_counters(first, a);
    lemma_counters(second, b);
}

/// Time that is spent idle or waiting for the disk makes more time pass and no more
/// work; time that is spent on anything else makes as much more of both.
pub proof fn waiting_is_no_work(
    first: Seq<char>,
    second: Seq<char>,
    later: Seq<char>,
    a: Seq<int>,
    b: Seq<int>,
    k: int,
    d: int,
    t: CpuTicks,
)
    requires
        tells_counters(first, a),
        tells_counters(second, b),
        0 <= k < b.len(),
        d > 0,
        tells_counters(later, b.update(k, b[k] + d)),
        added(b, anywhere()) + d <= u64::MAX,
        added(b, at_work()) >= added(a, at_work()),
        ticks_between(first, second) == Some(t),
    ensures
        ticks_between(first, later) matches Some(u) && u.total == t.total + d && u.busy == t.busy
            + if k == 3 || k == 4 {
            0
        } else {
            d
        },
{
    let c = b.update(k, b[k] + d);
    lemma_counters(first, a);
    lemma_counters(second, b);
    lemma_counters(later, c);
    lemma_added_update(b, k, d, anywhere());
    lemma_added_update(b, k, d, at_work());
    work_is_what_is_not_idle(first, second, a, b);
    work_is_what_is_not_idle(first, later, a, c);
}

// ---------------------------------------------------------------------------
// Sections
// ---------------------------------------------------------------------------
/// A row that a section can hold: no marker, and on one line.
pub open spec fn plain_row(row: Seq<char>) -> bool {
    !starts(trimmed(row), "@@"@) && a_row(row)
}

proof fn lemma_section_body(rows: Seq<Seq<char>>)
    requires
        forall|i: int| 0 <= i < rows.len() ==> plain_row(#[trigger] rows[i]),
    ensures
        section_body(rows) == ended(rows, false),
    decreases rows.len(),
{
    if rows.len() > 0 {
        let t = rows.drop_first();
        assert forall|i: int| 0 <= i < t.len() implies plain_row(#[trigger] t[i]) by {
            assert(t[i] == rows[i + 1]);
        }
        lemma_section_body(t);
        assert(plain_row(rows[0]));
        assert(section_body(rows) =~= ended(rows, false));
    } else {
        assert(section_body(rows) =~= ended(rows, false));
    }
}

proof fn lemma_section_of(sections: Seq<(Seq<char>, Seq<char>)>, k: int)
    requires
        0 <= k < sections.len(),
        forall|i: int|
            0 <= i < sections.len() && i != k ==> (#[trigger] sections[i]).0 != sections[k].0,
    ensures
        section_of(sections, sections[k].0) == sections[k].1,
    decreases sections.len(),
{
    if k < sections.len() - 1 {
        let t = sections.drop_last();
        assert forall|i: int| 0 <= i < t.len() && i != k implies (#[trigger] t[i]).0
            != t[k].0 by {
            assert(t[i] == sections[i]);
        }
        assert(sections[sections.len() - 1].0 != sections[k].0);
        lemma_section_of(t, k);
    }
}

/// Output that is printed section by section.
pub open spec fn in_sections(text: Seq<char>, parts: Seq<(Seq<char>, Seq<Seq<char>>)>) -> bool {
    &&& lines_of(text) == printed(parts)
    &&& forall|i: int| 0 <= i < parts.len() ==> is_trimmed((#[trigger] parts[i]).0)
    &&& forall|i: int, j: int|
        0 <= i < j < parts.len() ==> (#[trigger] parts[i]).0 != (#[trigger] parts[j]).0
    &&& forall|i: int, j: int|
        0 <= i < parts.len() && 0 <= j < parts[i].1.len() ==> plain_row(#[trigger] parts[i].1[j])
}

/// Each section holds the rows that were printed under its name, and those only, to the
/// letter.
pub proof fn sections_hold_their_rows(
    text: Seq<char>,
    parts: Seq<(Seq<char>, Seq<Seq<char>>)>,
    k: int,
)
    requires
        in_sections(text, parts),
        0 <= k < parts.len(),
    ensures
        section(text, parts[k].0) == ended(parts[k].1, false),
        lines_of(section(text, parts[k].0)) == parts[k].1,
{
    assert forall|i: int, j: int| 0 <= i < parts.len() && 0 <= j < parts[i].1.len() implies marker(
        #[trigger] parts[i].1[j],
    ) is None by {
        assert(plain_row(parts[i].1[j]));
    }
    sections_are_read_back(parts);
    let all = sections_of(lines_of(text));
    let rows = parts[k].1;
    assert(all[k] == (parts[k].0, section_body(rows)));
    assert forall|i: int| 0 <= i < all.len() && i != k implies (#[trigger] all[i]).0
        != all[k].0 by {
        assert(all[i].0 == parts[i].0);
    }
    lemma_section_of(all, k);
    assert forall|i: int| 0 <= i < rows.len() implies plain_row(#[trigger] rows[i]) by {
        assert(plain_row(parts[k].1[i]));
    }
    lemma_section_body(rows);
    lines_are_found(rows, false);
}

// ---------------------------------------------------------------------------
// The host
// ---------------------------------------------------------------------------
/// The row of `/proc/meminfo` with that name tells so many kB.
pub open spec fn tells_kb(row: Seq<char>, key: Seq<char>, kb: nat) -> bool {
    &&& starts(row, key.push(':'))
    &&& words_of(row.skip(key.len() as int + 1)).len() > 0
    &&& words_of(row.skip(key.len() as int + 1))[0] == decimal(kb)
}

/// One of the rows alone has the name, and tells a size of so many bytes in kB; or none
/// has it, and the size is 0.
pub open spec fn tells_bytes(rows: Seq<Seq<char>>, key: Seq<char>, bytes: nat) -> bool {
    ||| bytes == 0 && forall|i: int|
        0 <= i < rows.len() ==> !starts(#[trigger] rows[i], key.push(':'))
    ||| exists|k: int, kb: nat|
        0 <= k < rows.len() && #[trigger] tells_kb(rows[k], key, kb) && bytes == 1024 * kb
            && forall|i: int|
            0 <= i < rows.len() && i != k ==> !starts(#[trigger] rows[i], key.push(':'))
}

proof fn lemma_mem_key(row: Seq<char>, key: Seq<char>)
    requires
        !key.contains(':'),
    ensures
        mem_key(row) == Some(key) <==> starts(row, key.push(':')),
        starts(row, key.push(':')) ==> first_at(row, ':') == key.len(),
{
    let n = key.len() as int;
    crate::chars::lemma_first_at(row, ':');
    if starts(row, key.push(':')) {
        let head = row.take(n + 1);
        assert(head == key.push(':'));
        assert forall|i: int| 0 <= i < n implies #[trigger] row[i] != ':' by {
            assert(head[i] == row[i]);
            assert(key.contains(key[i]));
            assert(key.push(':')[i] == key[i]);
        }
        assert(row[n] == ':') by {
            assert(head[n] == row[n]);
        }
        lemma_first_at_is(row, ':', n);
        assert(row.take(n) =~= key) by {
            assert forall|i: int| 0 <= i < n implies row[i] == key[i] by {
                assert(head[i] == row[i]);
                assert(key.push(':')[i] == key[i]);
            }
        }
    } else if mem_key(row) == Some(key) {
        let at = first_at(row, ':');
        assert(row.take(at) == key);
        assert(row.take(n + 1) =~= key.push(':'));
    }
}

proof fn lemma_mem_bytes(rows: Seq<Seq<char>>, key: Seq<char>, bytes: nat)
    requires
        !key.contains(':'),
        tells_bytes(rows, key, bytes),
        bytes <= u64::MAX,
    ensures
        mem_bytes(rows, key) == bytes,
    decreases rows.len(),
{
    if rows.len() > 0 {
        let last = rows.last();
        let t = rows.drop_last();
        assert(rows[rows.len() - 1] == last);
        assert(forall|i: int| 0 <= i < t.len() ==> #[trigger] t[i] == rows[i]);
        lemma_mem_key(last, key);
        if starts(last, key.push(':')) {
            let (k, kb) = choose|k: int, kb: nat|
                0 <= k < rows.len() && #[trigger] tells_kb(rows[k], key, kb) && bytes == 1024 * kb
                    && forall|i: int|
                    0 <= i < rows.len() && i != k ==> !starts(#[trigger] rows[i], key.push(':'));
            assert(k == rows.len() - 1);
            written_integers_are_read_back(kb as int, 0, u64::MAX as int);
            assert(mem_kb(last) == kb);
        } else {
            assert(tells_bytes(t, key, bytes)) by {
                if exists|k: int, kb: nat|
                    0 <= k < rows.len() && #[trigger] tells_kb(rows[k], key, kb) && bytes == 1024
                        * kb && forall|i: int|
                        0 <= i < rows.len() && i != k ==> !starts(#[trigger] rows[i], key.push(':')) {
                    let (k, kb) = choose|k: int, kb: nat|
                        0 <= k < rows.len() && #[trigger] tells_kb(rows[k], key, kb) && bytes
                            == 1024 * kb && forall|i: int|
                            0 <= i < rows.len() && i != k ==> !starts(
                                #[trigger] rows[i],
                                key.push(':'),
                            );
                    assert(tells_kb(t[k], key, kb));
                }
            }
            lemma_mem_bytes(t, key, bytes);
        }
    }
}

/// What the metrics script prints on a host: a row for each reading, and those of
/// `/proc/meminfo`.
pub open spec fn host_parts(
    hostname: Seq<char>,
    uptime: Seq<char>,
    cores: nat,
    load: Seq<char>,
    stat1: Seq<char>,
    stat2: Seq<char>,
    mem: Seq<Seq<char>>,
    disk: Seq<char>,
) -> Seq<(Seq<char>, Seq<Seq<char>>)> {
    seq![
        ("host"@, seq![hostname]),
        ("uptime"@, seq![uptime]),
        ("nproc"@, seq![decimal(cores)]),
        ("load"@, seq![load]),
        ("stat1"@, seq![stat1]),
        ("stat2"@, seq![stat2]),
        ("mem"@, mem),
        ("disk"@, seq![disk]),
    ]
}

proof fn lemma_one_row(row: Seq<char>)
    ensures
        ended(seq![row], false) == row + seq!['\n'],
        words_of(row + seq!['\n']) == words_of(row),
        is_trimmed(row) ==> trimmed(row + seq!['\n']) == row,
{
    let feed = seq!['\n'];
    assert(seq![row].drop_first() =~= Seq::empty());
    assert(ended(seq![row], false) =~= row + feed) by {
        assert(ended(Seq::empty(), false) =~= Seq::empty());
    }
    assert(blank(feed));
    blanks_behind_are_no_words(row, feed);
    if is_trimmed(row) {
        let none = Seq::<char>::empty();
        only_blanks_are_trimmed(none, row, feed);
        assert(none + row + feed =~= row + feed);
    }
}

/// The readings are what the host printed: its name, its uptime and its cores as they
/// are, the first three words of its load, the work between the first look at its
/// counters and the second, and its memory and disk in bytes, each by its own name or
/// column.
pub proof fn the_host_is_read_as_printed(
    text: Seq<char>,
    hostname: Seq<char>,
    uptime: Seq<char>,
    cores: nat,
    load: Seq<char>,
    stat1: Seq<char>,
    stat2: Seq<char>,
    mem: Seq<Seq<char>>,
    disk: Seq<char>,
    sizes: MetricsView,
)
    requires
        in_sections(text, host_parts(hostname, uptime, cores, load, stat1, stat2, mem, disk)),
        is_trimmed(hostname),
        is_trimmed(uptime),
        cores <= usize::MAX,
        tells_bytes(mem, "MemTotal"@, sizes.mem_total as nat),
        tells_bytes(mem, "MemAvailable"@, sizes.mem_available as nat),
        tells_bytes(mem, "SwapTotal"@, sizes.swap_total as nat),
        tells_bytes(mem, "SwapFree"@, sizes.swap_free as nat),
        words_of(disk).len() >= 3,
        words_of(disk)[1] == decimal(sizes.disk_total as nat),
        words_of(disk)[2] == decimal(sizes.disk_used as nat),
    ensures
        ({
            let m = metrics_of(text);
            &&& m.hostname == hostname
            &&& m.uptime == uptime
            &&& m.cores == cores
            &&& m.load == if words_of(load).len() > 3 {
                seq![words_of(load)[0], words_of(load)[1], words_of(load)[2]]
            } else {
                words_of(load)
            }
            &&& m.cpu == ticks_between(stat1, stat2)
            &&& m.mem_total == sizes.mem_total
            &&& m.mem_available == sizes.mem_available
            &&& m.swap_total == sizes.swap_total
            &&& m.swap_free == sizes.swap_free
            &&& m.disk_total == sizes.disk_total
            &&& m.disk_used == sizes.disk_used
        }),
{
    let parts = host_parts(hostname, uptime, cores, load, stat1, stat2, mem, disk);
    sections_hold_their_rows(text, parts, 0);
    sections_hold_their_rows(text, parts, 1);
    sections_hold_their_rows(text, parts, 2);
    sections_hold_their_rows(text, parts, 3);
    sections_hold_their_rows(text, parts, 4);
    sections_hold_their_rows(text, parts, 5);
    sections_hold_their_rows(text, parts, 6);
    sections_hold_their_rows(text, parts, 7);
    lemma_one_row(hostname);
    lemma_one_row(uptime);
    lemma_one_row(decimal(cores));
    lemma_one_row(load);
    lemma_one_row(stat1);
    lemma_one_row(stat2);
    lemma_one_row(disk);
    crate::numbers::lemma_decimal(cores);
    written_integers_are_read_back(cores as int, 0, usize::MAX as int);
    written_integers_are_read_back(sizes.disk_total as int, 0, u64::MAX as int);
    written_integers_are_read_back(sizes.disk_used as int, 0, u64::MAX as int);
    assert(is_trimmed(decimal(cores)));
    reveal_strlit("MemTotal");
    reveal_strlit("MemAvailable");
    reveal_strlit("SwapTotal");
    reveal_strlit("SwapFree");
    lemma_mem_bytes(mem, "MemTotal"@, sizes.mem_total as nat);
    lemma_mem_bytes(mem, "MemAvailable"@, sizes.mem_available as nat);
    lemma_mem_bytes(mem, "SwapTotal"@, sizes.swap_total as nat);
    lemma_mem_bytes(mem, "SwapFree"@, sizes.swap_free as nat);
    assert(words_of(load).len() > 3 ==> words_of(load).take(3) =~= seq![
        words_of(load)[0],
        words_of(load)[1],
        words_of(load)[2],
    ]);
}

// ---------------------------------------------------------------------------
// Units and players
// ---------------------------------------------------------------------------
/// Every unit is listed under its name with the state on its own line, and as unknown
/// where the host printed fewer lines.
pub proof fn units_have_their_own_states(
    units: Seq<Seq<char>>,
    states: Seq<Seq<char>>,
    cr: bool,
    i: int,
)
    requires
        forall|j: int| 0 <= j < states.len() ==> a_row(#[trigger] states[j]) && is_trimmed(states[j]),
        0 <= i < units.len(),
    ensures
        ({
            let listed = states_of(units, ended(states, cr));
            &&& listed.len() == units.len()
            &&& listed[i].name == units[i]
            &&& listed[i].state == if i < states.len() {
                states[i]
            } else {
                "unknown"@
            }
        }),
{
    lines_are_found(states, cr);
    if i < states.len() {
        assert(is_trimmed(states[i]));
        crate::chars::lemma_trimmed(states[i]);
    }
}

/// A player has the name, the user id and the Steam id of the row, in this order.
pub proof fn a_row_tells_a_player(name: Seq<char>, uid: Seq<char>, steam: Seq<char>)
    requires
        !name.contains(','),
        !uid.contains(','),
        !steam.contains(','),
    ensures
        player_of(name + seq![','] + uid + seq![','] + steam) == (PlayerView {
            name,
            playeruid: uid,
            steamid: steam,
        }),
        player_of(name + seq![','] + uid) == (PlayerView { name, playeruid: uid, steamid: ""@ }),
        player_of(name) == (PlayerView { name, playeruid: ""@, steamid: ""@ }),
{
    let c = seq![','];
    let three = seq![name, uid, steam];
    let two = seq![name, uid];
    let one = seq![name];
    pieces_are_found(three, ',');
    pieces_are_found(two, ',');
    pieces_are_found(one, ',');
    reveal_with_fuel(joined, 4);
    assert(three.drop_first() =~= seq![uid, steam]);
    assert(three.drop_first().drop_first() =~= seq![steam]);
    assert(two.drop_first() =~= seq![uid]);
    assert(joined(three, c) =~= name + c + uid + c + steam);
    assert(joined(two, c) =~= name + c + uid);
    assert(joined(one, c) =~= name);
}

// ---------------------------------------------------------------------------
// Figures that fit
// ---------------------------------------------------------------------------
/// Of several sections of one name the last counts, and a name without a section has
/// nothing.
pub proof fn the_last_section_counts(
    sections: Seq<(Seq<char>, Seq<char>)>,
    name: Seq<char>,
    other: Seq<char>,
    body: Seq<char>,
)
    requires
        other != name,
    ensures
        section_of(sections.push((name, body)), name) == body,
        section_of(sections.push((other, body)), name) == section_of(sections, name),
        section_of(Seq::empty(), name) == Seq::<char>::empty(),
{
    assert(sections.push((name, body)).drop_last() =~= sections);
    assert(sections.push((other, body)).drop_last() =~= sections);
}

/// Counters that add up within 64 bits, and of which those that count work do not go
/// back, can be compared.
pub proof fn counters_that_fit_are_compared(
    first: Seq<char>,
    second: Seq<char>,
    a: Seq<int>,
    b: Seq<int>,
)
    requires
        tells_counters(first, a),
        tells_counters(second, b),
        added(a, anywhere()) <= u64::MAX,
        added(b, anywhere()) <= u64::MAX,
        added(a, at_work()) <= added(b, at_work()),
    ensures
        crate::report::ticks_fit(first, second),
{
    lemma_counters(first, a);
    lemma_counters(second, b);
    lemma_added(a);
    lemma_added(b);
}

/// A host whose counters can be compared and whose sizes fit in 64 bits is read.
pub proof fn sizes_that_fit_are_read(text: Seq<char>)
    requires
        crate::report::ticks_fit(section(text, "stat1"@), section(text, "stat2"@)),
        forall|i: int|
            0 <= i < lines_of(section(text, "mem"@)).len() ==> mem_kb(
                #[trigger] lines_of(section(text, "mem"@))[i],
            ) * 1024 <= u64::MAX,
    ensures
        crate::report::metrics_fit(text),
{
    let mem = lines_of(section(text, "mem"@));
    assert forall|i: int| 0 <= i < mem.len() implies !crate::report::mem_too_large(
        #[trigger] mem[i],
    ) by {
        assert(mem_kb(lines_of(section(text, "mem"@))[i]) * 1024 <= u64::MAX);
    }
}

/// A number that is larger than asked for is none, and neither is a text with anything
/// in it but digits.
pub proof fn numbers_that_do_not_fit_are_refused(n: nat, max: int, s: Seq<char>, k: int)
    requires
        n > max,
        0 < k < s.len(),
        !crate::numbers::is_digit(s[k]),
    ensures
        crate::numbers::unsigned(decimal(n), max) is None,
        crate::numbers::unsigned(s, max) is None,
        crate::numbers::unsigned(Seq::empty(), max) is None,
        crate::numbers::signed(s, -max, max) is None,
{
    crate::numbers::lemma_decimal(n);
    let t = s.drop_first();
    assert(t[k - 1] == s[k]);
}

/// Numbers are written without leading zeros.
pub proof fn numbers_have_no_leading_zeros(n: nat)
    ensures
        n > 0 ==> decimal(n)[0] != '0',
        n == 0 ==> decimal(n) == seq!['0'],
    decreases n,
{
    if n >= 10 {
        numbers_have_no_leading_zeros(n / 10);
        crate::numbers::lemma_decimal(n / 10);
        assert(decimal(n)[0] == decimal(n / 10)[0]);
    }
}

/// A disk line without a size and a use reads as 0, and so does a number of cores that is
/// none.
pub proof fn what_is_missing_reads_as_nothing(text: Seq<char>)
    ensures
        words_of(section(text, "disk"@)).len() < 3 ==> metrics_of(text).disk_total == 0
            && metrics_of(text).disk_used == 0,
        section(text, "nproc"@).len() == 0 ==> metrics_of(text).cores == 0,
        section(text, "host"@).len() == 0 ==> metrics_of(text).hostname.len() == 0,
        section(text, "uptime"@).len() == 0 ==> metrics_of(text).uptime.len() == 0,
        section(text, "load"@).len() == 0 ==> metrics_of(text).load.len() == 0,
{
}

/// The players on some rows and then on others are those on all of them, in order.
pub proof fn players_are_listed_row_by_row(first: Seq<Seq<char>>, rest: Seq<Seq<char>>)
    ensures
        players_on(first + rest, false) == players_on(first, false) + players_on(rest, false),
    decreases first.len(),
{
    if first.len() == 0 {
        assert(first + rest =~= rest);
        assert(players_on(first, false) + players_on(rest, false) =~= players_on(rest, false));
    } else {
        players_are_listed_row_by_row(first.drop_first(), rest);
        assert((first + rest).drop_first() =~= first.drop_first() + rest);
        assert(players_on(first + rest, false) =~= players_on(first, false) + players_on(
            rest,
            false,
        ));
    }
}

} // verus!
