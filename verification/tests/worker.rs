use vwatch::apply::Happened;
use vwatch::config::Config;
use vwatch::model::{CpuTicks, Sample, Share};
use vwatch::palworld::PalIni;
use vwatch::pm2::PM2_COMMAND;
use vwatch::report::METRICS_SCRIPT;
use vwatch::shell::Reply;
use vwatch::worker::{
    diff, Action, Cmd, Conn, Event, Level, LogEntry, Shared, Worker, HISTORY_LEN, LOG_LEN,
};

const HOST: &str = "@@host\nvps\n@@stat1\ncpu 0 0 0 0 0\n@@stat2\ncpu 3 0 0 1 0\n@@mem\nMemTotal: 4 kB\nMemAvailable: 1 kB\n";
const FILE: &str = "OptionSettings=(ExpRate=1.000000)\n";

fn config() -> Config {
    let mut cfg = Config::first("/k".to_owned());
    cfg.ssh.host = "h".to_owned();
    cfg.ssh.user = "u".to_owned();
    cfg.services = vec!["palworld".to_owned()];
    cfg.palworld.players_command = "rcon ShowPlayers".to_owned();
    cfg.palworld.ini_path = "/p".to_owned();
    cfg
}

fn ran(status: u32, stdout: &str) -> Event {
    Event::Happened(Happened::Replied(Reply::Ran {
        status,
        stdout: stdout.to_owned(),
        stderr: "oops".to_owned(),
    }))
}

fn ok(stdout: &str) -> Event {
    ran(0, stdout)
}

fn connect(cfg: Config) -> Event {
    Event::Cmd(Cmd::Connect(Box::new(cfg)))
}

struct Desk {
    worker: Worker,
    shared: Shared,
}

impl Desk {
    fn new() -> Self {
        Desk { worker: Worker::new(), shared: Shared::default() }
    }

    fn step(&mut self, event: Event) -> Action {
        assert!(self.worker.accepts(&event), "{event:?}");
        self.worker.step(&mut self.shared, event, 3, 500)
    }

    fn runs(&mut self, event: Event, cmd: &str) {
        match self.step(event) {
            Action::Run(got) => assert_eq!(got, cmd),
            other => panic!("{other:?}"),
        }
    }

    fn waits(&mut self, event: Event) {
        let got = self.step(event);
        assert!(matches!(got, Action::Wait), "{got:?}");
    }

    /// Everything a refresh asks, with a running server.
    fn refresh_with(&mut self, event: Event, file: &str) {
        self.runs(event, METRICS_SCRIPT);
        self.finish_refresh(file);
    }

    fn finish_refresh(&mut self, file: &str) {
        self.runs(ok(HOST), "systemctl is-active 'palworld'");
        self.runs(ok("active\n"), PM2_COMMAND);
        self.runs(ok("[]"), "sudo -n cat '/p'");
        self.runs(ok(file), "rcon ShowPlayers");
        self.waits(ok("name,playeruid,steamid\na,1,2\n"));
    }

    fn connected() -> Self {
        let mut d = Desk::new();
        d.step(connect(config()));
        d.refresh_with(Event::Connected, FILE);
        d
    }

    fn last(&self) -> (Level, String) {
        let e = self.shared.log.back().unwrap();
        (e.level, e.text.clone())
    }
}

#[test]
fn connecting_reads_the_host() {
    let mut d = Desk::new();
    let mut cfg = config();
    cfg.poll_interval_secs = 1000;
    match d.step(connect(cfg)) {
        Action::Connect(plan, every) => {
            assert_eq!((plan.host.as_str(), plan.user.as_str()), ("h", "u"));
            assert_eq!(every, Some(300));
        }
        other => panic!("{other:?}"),
    }
    assert!(d.shared.conn == Conn::Connecting);
    assert_eq!(d.last(), (Level::Info, "u@h に接続しています…".to_owned()));
    d.refresh_with(Event::Connected, FILE);
    assert!(d.worker.is_linked());
    assert!(d.shared.conn == Conn::Connected);
    assert_eq!(d.last(), (Level::Success, "接続しました".to_owned()));
    let snap = &d.shared.snap;
    assert_eq!(snap.metrics.hostname, "vps");
    assert_eq!(snap.services[0].state, "active");
    assert_eq!(snap.players.as_ref().map(Vec::len), Some(1));
    assert_eq!(snap.palworld_ini.as_ref().and_then(|i| i.get("ExpRate")), Some("1.000000"));
    assert_eq!(d.shared.pal_revision, 1);
    assert_eq!(d.shared.history.len(), 1);
    let s = d.shared.history[0];
    assert_eq!((s.secs, s.nanos), (3, 500));
    assert_eq!(s.cpu, Some(CpuTicks { busy: 3, total: 4 }));
    assert_eq!(s.mem, Share { used: 3072, total: 4096 });
}

#[test]
fn the_interval_is_clamped() {
    for (asked, given) in [(0, 1), (1, 1), (7, 7), (300, 300), (301, 300)] {
        let mut cfg = config();
        cfg.poll_interval_secs = asked;
        match Desk::new().step(connect(cfg)) {
            Action::Connect(_, every) => assert_eq!(every, Some(given)),
            other => panic!("{other:?}"),
        }
    }
}

#[test]
fn a_session_that_cannot_be_opened_is_reported() {
    let mut d = Desk::new();
    d.step(connect(config()));
    d.waits(Event::ConnectFailed("refused".to_owned()));
    assert!(!d.worker.is_linked());
    assert!(d.shared.conn == Conn::Failed("SSH connect to u@h: refused".to_owned()));
    assert_eq!(
        d.last(),
        (Level::Error, "接続に失敗しました: SSH connect to u@h: refused".to_owned())
    );
    d.waits(Event::Tick);
}

#[test]
fn a_tick_refreshes_over_a_session() {
    let mut d = Desk::new();
    d.waits(Event::Tick);
    let mut d = Desk::connected();
    d.refresh_with(Event::Tick, FILE);
    d.refresh_with(Event::Cmd(Cmd::Refresh), FILE);
    assert_eq!(d.shared.history.len(), 3);
    // The same file is no new revision; another is.
    assert_eq!(d.shared.pal_revision, 1);
    d.refresh_with(Event::Tick, "OptionSettings=(ExpRate=2.000000)\n");
    assert_eq!(d.shared.pal_revision, 2);
}

#[test]
fn every_refresh_adds_one_sample_and_the_oldest_leave_first() {
    let mut d = Desk::connected();
    let other = HOST.replace("MemAvailable: 1 kB", "MemAvailable: 2 kB");
    for n in 2..=HISTORY_LEN + 2 {
        d.runs(Event::Tick, METRICS_SCRIPT);
        d.runs(ok(&other), "systemctl is-active 'palworld'");
        d.runs(ok("inactive\n"), PM2_COMMAND);
        d.runs(ok("[]"), "sudo -n cat '/p'");
        d.waits(ok(FILE));
        assert_eq!(d.shared.history.len(), n.min(HISTORY_LEN));
        assert_eq!(d.shared.history.back().unwrap().mem, Share { used: 2048, total: 4096 });
        let first = if n <= HISTORY_LEN { 3072 } else { 2048 };
        assert_eq!(d.shared.history.front().unwrap().mem.used, first);
        // The unit is not running: there is no telling who plays.
        assert!(d.shared.snap.players.is_none());
        assert_eq!(d.shared.pal_revision, 1);
    }
}

#[test]
fn a_failed_refresh_drops_the_session_and_the_next_tick_reconnects() {
    let mut d = Desk::connected();
    d.runs(Event::Tick, METRICS_SCRIPT);
    d.waits(Event::Happened(Happened::Replied(Reply::Lost("eof".to_owned()))));
    assert!(!d.worker.is_linked());
    let why = format!("exec `{METRICS_SCRIPT}`: eof");
    assert!(d.shared.conn == Conn::Failed(why.clone()));
    assert_eq!(d.last(), (Level::Error, format!("取得に失敗しました: {why}")));
    assert_eq!(d.shared.snap.metrics.hostname, "vps");
    match d.step(Event::Tick) {
        Action::Connect(plan, every) => {
            assert_eq!(plan.host, "h");
            assert_eq!(every, None);
        }
        other => panic!("{other:?}"),
    }
    d.refresh_with(Event::Connected, FILE);
    assert!(d.worker.is_linked());
    // One try only, where that fails too.
    d.runs(Event::Tick, METRICS_SCRIPT);
    d.waits(ran(1, ""));
    d.step(Event::Tick);
    d.waits(Event::ConnectFailed("refused".to_owned()));
    d.waits(Event::Tick);
}

#[test]
fn only_what_is_configured_is_asked_for() {
    let mut d = Desk::new();
    let mut cfg = config();
    cfg.services.clear();
    cfg.show_pm2 = false;
    cfg.palworld.enabled = false;
    d.step(connect(cfg.clone()));
    d.runs(Event::Connected, METRICS_SCRIPT);
    d.waits(ok(HOST));
    assert!(d.shared.snap.players.is_none() && d.shared.snap.palworld_ini.is_none());
    assert_eq!(d.shared.pal_revision, 0);

    // A stopped server is not asked for players; failures leave things out.
    cfg.palworld.enabled = true;
    cfg.services = vec!["palworld".to_owned(), "b".to_owned()];
    d.step(connect(cfg.clone()));
    d.runs(Event::Connected, METRICS_SCRIPT);
    d.runs(ok(HOST), "systemctl is-active 'palworld' 'b'");
    d.runs(ran(3, "inactive\nactive\n"), "sudo -n cat '/p'");
    d.waits(ran(1, ""));
    assert!(d.shared.snap.players.is_none() && d.shared.snap.palworld_ini.is_none());
    assert_eq!(d.shared.snap.services[0].state, "inactive");

    // Without a command there are no players to list.
    cfg.palworld.players_command = "  ".to_owned();
    d.step(connect(cfg));
    d.runs(Event::Connected, METRICS_SCRIPT);
    d.runs(ok(HOST), "systemctl is-active 'palworld' 'b'");
    d.runs(ok("active\nactive\n"), "sudo -n cat '/p'");
    d.waits(ok(FILE));
    assert_eq!(d.shared.snap.players.as_ref().map(Vec::len), Some(0));
}

#[test]
fn disconnecting_clears_the_screen() {
    let mut d = Desk::connected();
    d.waits(Event::Cmd(Cmd::Disconnect));
    assert!(!d.worker.is_linked());
    assert!(d.shared.conn == Conn::Disconnected);
    assert!(d.shared.snap.services.is_empty());
    assert_eq!(d.last(), (Level::Info, "切断しました".to_owned()));
    d.waits(Event::Tick);
    d.waits(Event::Cmd(Cmd::Refresh));
    d.waits(Event::Cmd(Cmd::Service { unit: "x".to_owned(), action: "stop".to_owned() }));
    d.waits(Event::Cmd(Cmd::ApplyPalworld(Vec::new())));
    assert_eq!(d.shared.history.len(), 1);
}

#[test]
fn a_unit_is_acted_on_and_the_host_read_again() {
    let mut d = Desk::connected();
    let cmd = || Event::Cmd(Cmd::Service { unit: "web".to_owned(), action: "restart".to_owned() });
    d.runs(cmd(), "sudo -n systemctl 'restart' 'web'");
    assert_eq!(d.shared.busy.as_deref(), Some("web を restart しています…"));
    d.runs(ok(""), METRICS_SCRIPT);
    assert!(d.shared.busy.is_none());
    assert_eq!(d.last(), (Level::Success, "web: restart を実行しました".to_owned()));
    d.finish_refresh(FILE);
    d.runs(cmd(), "sudo -n systemctl 'restart' 'web'");
    d.runs(ran(5, ""), METRICS_SCRIPT);
    assert_eq!(
        d.last(),
        (
            Level::Error,
            "web: restart に失敗 — command failed (exit 5): sudo -n systemctl 'restart' 'web'\noops".to_owned()
        )
    );
}

#[test]
fn settings_are_applied_and_the_host_read_again() {
    let mut d = Desk::connected();
    let changes = vec![
        ("ExpRate".to_owned(), "2.000000".to_owned()),
        ("A".to_owned(), "1".to_owned()),
    ];
    d.runs(Event::Cmd(Cmd::ApplyPalworld(changes)), "rcon Save");
    assert_eq!(
        d.last(),
        (Level::Warn, "Palworld 設定を適用します: ExpRate=2.000000, A=1".to_owned())
    );
    assert_eq!(d.shared.busy.as_deref(), Some("ワールドをセーブしています…"));
    d.runs(ok(""), "sudo -n systemctl stop 'palworld'");
    d.runs(ok(""), "systemctl is-active 'palworld'");
    assert_eq!(d.shared.busy.as_deref(), Some("Palworld を停止しています…"));
    assert!(matches!(d.step(ok("active")), Action::Sleep));
    assert!(!d.worker.accepts(&ok("")));
    d.runs(Event::Happened(Happened::Slept), "systemctl is-active 'palworld'");
    d.runs(ok("inactive"), "sudo -n cat '/p'");
    d.runs(ok(FILE), "sudo -n cp '/p' '/p'.vwatch.bak");
    d.step(ok(""));
    d.runs(ok(""), "sudo -n systemctl start 'palworld'");
    d.runs(ok(""), METRICS_SCRIPT);
    assert!(d.shared.busy.is_none());
    assert_eq!(d.last(), (Level::Success, "適用してサーバーを再起動しました".to_owned()));
    assert_eq!(d.shared.pal_revision, 2);
    let ini = d.shared.snap.palworld_ini.as_ref().unwrap();
    assert_eq!((ini.get("ExpRate"), ini.get("A")), (Some("2.000000"), Some("1")));
}

#[test]
fn settings_that_cannot_be_applied_are_reported() {
    let mut d = Desk::connected();
    d.step(Event::Cmd(Cmd::ApplyPalworld(Vec::new())));
    d.step(ok(""));
    d.runs(ran(1, ""), METRICS_SCRIPT);
    assert_eq!(
        d.last(),
        (
            Level::Error,
            "適用に失敗しました: command failed (exit 1): sudo -n systemctl stop 'palworld'\noops".to_owned()
        )
    );
    assert_eq!(d.shared.pal_revision, 1);
    assert!(d.shared.busy.is_none());
}

#[test]
fn events_out_of_turn_are_not_accepted() {
    let mut d = Desk::new();
    assert!(!d.worker.accepts(&Event::Connected));
    assert!(!d.worker.accepts(&ok("")));
    d.step(connect(config()));
    assert!(!d.worker.accepts(&Event::Tick));
    assert!(!d.worker.accepts(&ok("")));
    d.step(Event::Connected);
    assert!(!d.worker.accepts(&ok("@@mem\nMemTotal: 18014398509481984 kB\n")));
    assert!(d.worker.accepts(&ran(1, "@@mem\nMemTotal: 18014398509481984 kB\n")));
    assert!(!d.worker.accepts(&Event::Happened(Happened::Slept)));
}

#[test]
fn the_log_keeps_the_newest_lines() {
    let mut s = Shared::default();
    for i in 0..LOG_LEN + 5 {
        s.push_entry(format!("t{i}"), Level::Info, i.to_string());
    }
    assert_eq!(s.log.len(), LOG_LEN);
    let first: &LogEntry = s.log.front().unwrap();
    assert_eq!((first.at.as_str(), first.text.as_str()), ("t5", "5"));
    s.push_log(Level::Warn, "now".to_owned());
    let last = s.log.back().unwrap().clone();
    assert_eq!((last.level, last.text.as_str()), (Level::Warn, "now"));
    assert_eq!(last.at.len(), 8);
    assert!(chrono::NaiveTime::parse_from_str(&last.at, "%H:%M:%S").is_ok());
    assert_eq!(s.log.len(), LOG_LEN);
}

#[test]
fn the_history_keeps_the_newest_samples() {
    let mut s = Shared::default();
    for i in 0..HISTORY_LEN as u64 + 3 {
        s.push_sample(Sample { secs: i, nanos: 0, cpu: None, mem: Share { used: 0, total: 0 } });
    }
    assert_eq!(s.history.len(), HISTORY_LEN);
    assert_eq!(s.history.front().unwrap().secs, 3);
    assert_eq!(s.history.back().unwrap().secs, HISTORY_LEN as u64 + 2);
}

#[test]
fn only_edited_settings_are_sent() {
    let original = PalIni::parse("OptionSettings=(A=1,B=2,C=3)").unwrap();
    let mut edited = original.clone();
    assert!(diff(&original, &edited).is_empty());
    edited.set("B", "9");
    edited.set("D", "4");
    let changes = diff(&original, &edited);
    assert_eq!(
        changes,
        [("B".to_owned(), "9".to_owned()), ("D".to_owned(), "4".to_owned())]
    );
    let mut server = original;
    for (k, v) in &changes {
        server.set(k, v);
    }
    for key in ["A", "B", "C", "D"] {
        assert_eq!(server.get(key), edited.get(key));
    }
}

#[test]
fn states_of_the_session_are_told_apart() {
    let all = [
        Conn::Disconnected,
        Conn::Connecting,
        Conn::Connected,
        Conn::Failed("a".to_owned()),
        Conn::Failed("b".to_owned()),
    ];
    for (i, a) in all.iter().enumerate() {
        for (j, b) in all.iter().enumerate() {
            assert_eq!(a == b, i == j);
            assert_eq!(*a == b.clone(), i == j);
        }
    }
    assert!(Conn::default() == Conn::Disconnected);
}
