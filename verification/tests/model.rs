use vwatch::model::{
    human_bytes, human_secs, Metrics, Pm2App, Proc, ServiceStatus, Share, Snapshot,
};

fn reference(n: u64) -> String {
    let units = ["B", "KB", "MB", "GB", "TB"];
    let mut v = n as f64;
    let mut i = 0;
    while v >= 1024.0 && i < units.len() - 1 {
        v /= 1024.0;
        i += 1;
    }
    if i == 0 {
        format!("{n} B")
    } else {
        format!("{v:.1} {}", units[i])
    }
}

#[test]
fn sizes_are_written_for_people() {
    assert_eq!(human_bytes(0), "0 B");
    assert_eq!(human_bytes(1023), "1023 B");
    assert_eq!(human_bytes(1024), "1.0 KB");
    assert_eq!(human_bytes(1536), "1.5 KB");
    assert_eq!(human_bytes(1048575), "1024.0 KB");
    assert_eq!(human_bytes(8589934592), "8.0 GB");
    assert_eq!(human_bytes(u64::MAX), "16777216.0 TB");
}

#[test]
fn sizes_agree_with_double_precision() {
    let mut n: u64 = 1;
    for k in 0..64_u32 {
        for d in 0..300_u64 {
            for x in [(1_u64 << k).wrapping_add(d), (1_u64 << k).wrapping_sub(d), (1_u64 << k) / 10 * d] {
                assert_eq!(human_bytes(x), reference(x), "{x}");
            }
        }
        n = n.wrapping_mul(6364136223846793005).wrapping_add(1442695040888963407);
        assert_eq!(human_bytes(n), reference(n), "{n}");
        assert_eq!(human_bytes(n >> k), reference(n >> k), "{n}");
    }
    for x in 0..200_000_u64 {
        assert_eq!(human_bytes(x), reference(x));
    }
}

#[test]
fn durations_are_written_for_people() {
    assert_eq!(human_secs(0), "0秒");
    assert_eq!(human_secs(59), "59秒");
    assert_eq!(human_secs(60), "1分");
    assert_eq!(human_secs(3599), "59分");
    assert_eq!(human_secs(3600), "1時間0分");
    assert_eq!(human_secs(90061), "25時間1分");
}

#[test]
fn used_is_total_less_free_and_never_negative() {
    let mut m = Metrics::default();
    assert_eq!(m.mem_percent(), Share { used: 0, total: 0 });
    m.mem_total = 100;
    m.mem_available = 30;
    m.swap_total = 5;
    m.swap_free = 9;
    m.disk_total = 8;
    m.disk_used = 3;
    assert_eq!(m.mem_used(), 70);
    assert_eq!(m.mem_percent(), Share { used: 70, total: 100 });
    assert_eq!(m.swap_used(), 0);
    assert_eq!(m.swap_percent(), Share { used: 0, total: 5 });
    assert_eq!(m.disk_percent(), Share { used: 3, total: 8 });
}

fn proc(pid: i32, ppid: i32, comm: &str) -> Proc {
    Proc {
        pid,
        ppid,
        user: "root".to_owned(),
        cpu_bits: 0,
        rss: 0,
        uptime: 0,
        comm: comm.to_owned(),
    }
}

#[test]
fn states_are_told_by_their_words() {
    let s = |state: &str| ServiceStatus { name: "x".to_owned(), state: state.to_owned() };
    assert!(s("active").is_active());
    assert!(!s("activating").is_active());
    let a = |status: &str| Pm2App {
        name: "x".to_owned(),
        status: status.to_owned(),
        cpu_bits: 0,
        memory: 0,
        restarts: 0,
    };
    assert!(a("online").is_online());
    assert!(!a("stopped").is_online());
    let none = Pm2App::default();
    assert_eq!((none.name.as_str(), none.status.as_str()), ("", ""));
    assert_eq!((none.cpu_bits, none.memory, none.restarts), (0, 0, 0));
    assert!(proc(2, 0, "kthreadd").is_kernel_thread());
    assert!(proc(17, 2, "kworker/0:1").is_kernel_thread());
    assert!(!proc(17, 1, "sshd").is_kernel_thread());
}

#[test]
fn the_first_process_of_a_name_is_found() {
    let snap = Snapshot {
        procs: vec![proc(1, 0, "init"), proc(7, 1, "sshd"), proc(9, 1, "sshd")],
        ..Snapshot::default()
    };
    assert_eq!(snap.proc_by_comm("sshd").map(|p| p.pid), Some(7));
    assert!(snap.proc_by_comm("nginx").is_none());
}
