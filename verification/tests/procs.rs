use vwatch::model::{ClaudeSession, Proc};
use vwatch::procs::{
    claude_sessions, process_table, processes, processes_command, processes_readable, procs_with,
    sessions_countable, sort_by_cpu, tick_map, TICKS,
};

const OUT: &str = "@@hz\n100\n@@e1\n10.25\n@@t1\n7 100\n8 50\n9 5\n@@e2\n10.75\n@@t2\n7 140\n8 40\n10 9\n\
@@ps\n    7     1 steam   2048  60 PalServer-Linux\n    8     7 root   10 5 agent helper x\n\
bad 1 root 1 1 x\n 9 1 root 1\n   10  zz root  zz zz node\n@@cwd\n8 /home/a b\n";

#[test]
fn the_process_script_never_asks_for_arguments() {
    let script = processes_command("agent");
    assert!(script.contains("ps -eo pid=,ppid=,user:24=,rss=,etimes=,comm=\n"));
    assert!(!script.contains("args") && !script.contains("cmdline"));
    assert!(script.contains("$(pgrep -x 'agent' 2>/dev/null)"));
    assert_eq!(script.matches(TICKS).count(), 2);
    for name in ["hz", "e1", "t1", "e2", "t2", "ps", "cwd"] {
        assert!(script.contains(&format!("\necho '@@{name}';")));
    }
}

#[test]
fn ticks_are_read_line_by_line() {
    let map = tick_map("1 10\n2\n x 5\n3 -1\n1 12\n 4 9 extra\n");
    assert_eq!(map.len(), 2);
    assert_eq!(map.get(&1), Some(&12));
    assert_eq!(map.get(&4), Some(&9));
}

#[test]
fn rows_carry_the_busy_ticks() {
    assert!(processes_readable(OUT));
    let r = processes(OUT);
    assert_eq!((r.hz.as_str(), r.start.as_str(), r.end.as_str()), ("100", "10.25", "10.75"));
    assert_eq!(r.cwds, "8 /home/a b\n");
    let rows: Vec<_> = r
        .rows
        .iter()
        .map(|x| (x.pid, x.ppid, x.user.as_str(), x.busy, x.rss, x.uptime, x.comm.as_str()))
        .collect();
    assert_eq!(
        rows,
        [
            (7, 1, "steam", 40, 2097152, 60, "PalServer-Linux"),
            (8, 7, "root", 0, 10240, 5, "agent helper x"),
            (10, 0, "root", 0, 0, 0, "node"),
        ]
    );
    assert!(!processes_readable("@@ps\n1 1 u 18014398509481984 1 c\n"));
}

fn proc(pid: i32, ppid: i32, comm: &str, cpu: f32, rss: u64) -> Proc {
    Proc {
        pid,
        ppid,
        user: "u".to_owned(),
        cpu_bits: cpu.to_bits(),
        rss,
        uptime: 1,
        comm: comm.to_owned(),
    }
}

#[test]
fn processes_are_sorted_by_total_order() {
    let values = [
        1.5,
        -0.0,
        0.0,
        f32::NAN,
        -f32::NAN,
        f32::INFINITY,
        f32::NEG_INFINITY,
        99.9,
        1.5,
        f32::MIN_POSITIVE,
        -2.0,
        0.0,
    ];
    let make = || -> Vec<Proc> {
        values
            .iter()
            .enumerate()
            .map(|(i, v)| proc(i as i32, 1, "c", *v, 0))
            .collect()
    };
    let mut want = make();
    want.sort_by(|a, b| f32::from_bits(b.cpu_bits).total_cmp(&f32::from_bits(a.cpu_bits)));
    let got = sort_by_cpu(make());
    let pids = |v: &[Proc]| v.iter().map(|p| p.pid).collect::<Vec<_>>();
    assert_eq!(pids(&got), pids(&want));
    assert!(sort_by_cpu(Vec::new()).is_empty());
}

fn total(s: &ClaudeSession) -> f32 {
    let mut sum = f32::from_bits(s.cpu_parts[0]);
    for bits in &s.cpu_parts[1..] {
        sum += f32::from_bits(*bits);
    }
    sum
}

#[test]
fn a_session_rolls_up_its_tree() {
    // 30 and 20 are sessions; 20 has two children, one of which has a child.
    let procs = vec![
        proc(30, 1, "agent", 1.0, 1),
        proc(20, 1, "agent", 2.0, 10),
        proc(21, 20, "node", 4.0, 100),
        proc(22, 20, "node", 8.0, 1000),
        proc(23, 21, "chrome", 16.0, 10000),
        proc(40, 1, "agentd", 32.0, 5),
    ];
    assert!(sessions_countable(&procs, "agent"));
    let all = claude_sessions(&procs, "agent", "20 /old\n20 /srv/a b\nx /y\n 31\n");
    assert_eq!(all.len(), 2);
    assert_eq!((all[0].pid, all[0].descendants, all[0].rss), (20, 3, 11110));
    assert_eq!(all[0].cwd, "/srv/a b");
    let parts: Vec<f32> = all[0].cpu_parts.iter().map(|b| f32::from_bits(*b)).collect();
    assert_eq!(parts, [2.0, 4.0, 8.0, 16.0]);
    assert_eq!(total(&all[0]), 30.0);
    assert_eq!((all[1].pid, all[1].descendants, all[1].rss), (30, 0, 1));
    assert_eq!(all[1].cwd, "-");
    assert!(claude_sessions(&procs, "nobody", "").is_empty());
}

#[test]
fn a_tree_that_does_not_end_is_refused() {
    let procs = vec![proc(5, 5, "agent", 0.0, 0)];
    assert!(!sessions_countable(&procs, "agent"));
    assert!(sessions_countable(&procs, "other"));
    let procs = vec![proc(5, 6, "agent", 0.0, 0), proc(6, 5, "x", 0.0, 0)];
    assert!(!sessions_countable(&procs, "agent"));
    let procs = vec![proc(5, 1, "agent", 0.0, u64::MAX), proc(6, 5, "x", 0.0, 1)];
    assert!(!sessions_countable(&procs, "agent"));
    // A chain as long as the list of processes.
    let chain: Vec<Proc> = (1..200).map(|i| proc(i + 1, i, if i == 1 { "agent" } else { "x" }, 0.0, 1)).collect();
    assert!(sessions_countable(&chain, "agent"));
    assert_eq!(claude_sessions(&chain, "agent", "")[0].descendants, 198);
}

#[test]
fn the_table_is_sorted_and_the_sessions_are_found_in_it() {
    let reading = processes("@@ps\n7 1 a 1 1 agent\n8 7 a 1 1 x\n9 1 a 1 1 y\n@@cwd\n7 /w\n");
    let cpu = vec![1.0f32.to_bits(), 3.0f32.to_bits(), 2.0f32.to_bits()];
    assert!(sessions_countable(&procs_with(&reading.rows, &cpu), "agent"));
    let (procs, sessions) = process_table(&reading, &cpu, "agent");
    assert_eq!(procs.iter().map(|p| p.pid).collect::<Vec<_>>(), [8, 9, 7]);
    assert_eq!(sessions.len(), 1);
    assert_eq!((sessions[0].pid, sessions[0].cwd.as_str(), sessions[0].rss), (7, "/w", 2048));
}
