use vwatch::model::CpuTicks;
use vwatch::report::{
    cpu_delta, metrics, metrics_readable, parse_players, service_states, ticks_comparable, Sections,
    METRICS_SCRIPT,
};

/// Busy per cent.
fn percent(t: CpuTicks) -> f32 {
    (t.busy as f64 / t.total as f64 * 100.0) as f32
}

#[test]
fn cpu_delta_from_two_proc_stat_lines() {
    // 100 ticks elapsed, 25 of them idle -> 75% busy.
    let a = "cpu  100 0 100 700 100 0 0 0 0 0";
    let b = "cpu  150 0 125 725 100 0 0 0 0 0";
    assert!(ticks_comparable(a, b));
    let pct = percent(cpu_delta(a, b).unwrap());
    assert!((pct - 75.0).abs() < 0.01, "got {pct}");
    assert_eq!(cpu_delta(a, b), Some(CpuTicks { busy: 75, total: 100 }));
}

#[test]
fn cpu_delta_survives_a_counter_that_did_not_move() {
    let line = "cpu  1 2 3 4 5 0 0 0 0 0";
    assert_eq!(cpu_delta(line, line), None);
}

#[test]
fn lines_that_cannot_be_compared_give_no_reading() {
    let a = "cpu 10 10 10 10 10";
    assert_eq!(cpu_delta(a, "cpu 10 10 10 10"), None);
    assert_eq!(cpu_delta("", a), None);
    // The total went backwards, then the idle time.
    assert_eq!(cpu_delta(a, "cpu 1 10 10 10 10"), None);
    assert_eq!(cpu_delta(a, "cpu 50 10 10 9 10"), None);
    // What is no number does not count.
    assert_eq!(
        cpu_delta(a, "cpu x 20 10 10 10 10"),
        Some(CpuTicks { busy: 10, total: 10 })
    );
    let big = format!("cpu {} 1 1 1 1", u64::MAX);
    assert!(!ticks_comparable(a, &big));
    // More idle time than time at all.
    assert!(!ticks_comparable("cpu 10 0 0 0 0", "cpu 0 0 0 11 0"));
}

#[test]
fn players_skips_the_csv_header() {
    // A multibyte name must survive: Palworld players routinely use them.
    let out = "name,playeruid,steamid\nplayer1,AAAA1111,76561190000000001\nプレイヤー2,BBBB2222,76561190000000002\n";
    let players = parse_players(out);
    assert_eq!(players.len(), 2);
    assert_eq!(players[0].name, "player1");
    assert_eq!(players[1].name, "プレイヤー2");
    assert_eq!(players[1].steamid, "76561190000000002");
}

#[test]
fn empty_player_list_is_not_a_phantom_player() {
    assert!(parse_players("name,playeruid,steamid\n").is_empty());
    assert!(parse_players("").is_empty());
}

#[test]
fn rows_without_a_name_are_no_players() {
    let players = parse_players("\n name,playeruid,steamid\n,1,2\n\na\nname,9\n");
    let all: Vec<_> = players
        .iter()
        .map(|p| (p.name.as_str(), p.playeruid.as_str(), p.steamid.as_str()))
        .collect();
    assert_eq!(all, [("a", "", ""), ("name", "9", "")]);
}

#[test]
fn a_player_may_be_called_name() {
    let players =
        parse_players("name,playeruid,steamid\nname,AAAA1111,76561190000000001\nname,,\n");
    let all: Vec<_> = players
        .iter()
        .map(|p| (p.name.as_str(), p.playeruid.as_str(), p.steamid.as_str()))
        .collect();
    assert_eq!(
        all,
        [("name", "AAAA1111", "76561190000000001"), ("name", "", "")]
    );
}

#[test]
fn sections_split_on_markers() {
    let s = Sections::parse("@@a\n1\n2\n@@b\n3\n");
    assert_eq!(s.get("a"), "1\n2\n");
    assert_eq!(s.get("b"), "3\n");
    assert_eq!(s.get("missing"), "");
}

#[test]
fn the_last_section_of_a_name_counts() {
    let s = Sections::parse("lost\n  @@a  \nx\r\n@@b\n@@a\ny");
    assert_eq!(s.get("a"), "y\n");
    assert_eq!(s.get("b"), "");
    assert_eq!(Sections::parse("  @@a  \nx\r\n").get("a"), "x\n");
}

const OUT: &str = "@@host\nvps-1\n@@uptime\nup 3 days\n@@nproc\n4\n@@load\n0.52 0.40 0.31 1/234 5678\n\
@@stat1\ncpu  100 0 100 700 100 0 0 0 0 0\n@@stat2\ncpu  150 0 125 725 100 0 0 0 0 0\n\
@@mem\nMemTotal:       8000 kB\nMemFree: 1 kB\nMemAvailable:   2000 kB\nSwapTotal: 10 kB\nSwapFree: 4 kB\nno colon\n\
@@disk\n/dev/sda1 1000 400 600 40% /\n";

#[test]
fn the_host_is_read_from_the_sections() {
    assert!(metrics_readable(OUT));
    let m = metrics(OUT);
    assert_eq!(m.hostname, "vps-1");
    assert_eq!(m.uptime, "up 3 days");
    assert_eq!(m.cores, 4);
    assert_eq!(m.load, ["0.52", "0.40", "0.31"]);
    assert_eq!(m.cpu, Some(CpuTicks { busy: 75, total: 100 }));
    assert_eq!((m.mem_total, m.mem_available), (8192000, 2048000));
    assert_eq!((m.swap_total, m.swap_free), (10240, 4096));
    assert_eq!((m.disk_total, m.disk_used), (1000, 400));
    assert_eq!(m.mem_used(), 6144000);
}

#[test]
fn what_is_missing_reads_as_nothing() {
    let m = metrics("@@nproc\nfour\n@@mem\nMemTotal:\nMemTotal: 1\nMemTotal: x\n@@disk\n/ 5\n");
    assert_eq!(m.hostname, "");
    assert_eq!(m.cores, 0);
    assert_eq!(m.cpu, None);
    assert!(m.load.is_empty());
    assert_eq!((m.mem_total, m.disk_total), (0, 0));
    assert!(!metrics_readable("@@mem\nSwapFree: 18014398509481984 kB\n"));
    assert!(metrics_readable("@@mem\nOther: 18014398509481984 kB\n"));
    assert!(METRICS_SCRIPT.contains("sleep 0.4\n"));
    for name in ["host", "uptime", "nproc", "load", "stat1", "stat2", "mem", "disk"] {
        assert!(METRICS_SCRIPT.contains(&format!("\necho '@@{name}';")));
    }
}

#[test]
fn units_without_a_line_are_unknown() {
    let units = vec!["a".to_owned(), "b".to_owned(), "c".to_owned()];
    let all: Vec<_> = service_states(&units, " active \ninactive\n")
        .into_iter()
        .map(|s| (s.name, s.state))
        .collect();
    let want = [("a", "active"), ("b", "inactive"), ("c", "unknown")];
    assert_eq!(all.len(), 3);
    for (got, (name, state)) in all.iter().zip(want) {
        assert_eq!((got.0.as_str(), got.1.as_str()), (name, state));
    }
    assert!(service_states(&Vec::new(), "active").is_empty());
}
