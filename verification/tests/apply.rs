use vwatch::apply::{ApplyRun, Do, Happened, CHECKS};
use vwatch::config::{Config, PalworldConfig};
use vwatch::palworld::PalIni;
use vwatch::shell::Reply;

const FILE: &str = "[/Script/Pal.PalGameWorldSettings]\nOptionSettings=(ExpRate=1.000000,ServerName=\"x\")\n\n\n";

fn pal() -> PalworldConfig {
    let mut pal = Config::first(String::new()).palworld;
    pal.ini_path = "/p".to_owned();
    pal.players_command = "rcon ShowPlayers".to_owned();
    pal
}

fn changes() -> Vec<(String, String)> {
    vec![
        ("ExpRate".to_owned(), "2.000000".to_owned()),
        ("New".to_owned(), "7".to_owned()),
    ]
}

fn ok(stdout: &str) -> Happened {
    Happened::Replied(Reply::Ran { status: 0, stdout: stdout.to_owned(), stderr: String::new() })
}

fn bad() -> Happened {
    Happened::Replied(Reply::Ran { status: 1, stdout: String::new(), stderr: "denied\n".to_owned() })
}

fn lost() -> Happened {
    Happened::Replied(Reply::Lost("gone".to_owned()))
}

fn command(next: Do) -> String {
    match next {
        Do::Run(cmd) => cmd,
        other => panic!("{other:?}"),
    }
}

/// Runs up to the command that the given replies lead to.
fn after(replies: Vec<Happened>) -> (ApplyRun, Do) {
    let (mut run, first) = ApplyRun::begin(pal(), changes());
    let mut next = first.next;
    for r in replies {
        assert!(!run.is_over());
        next = run.next(r).next;
    }
    (run, next)
}

fn failure(replies: Vec<Happened>) -> String {
    let (run, next) = after(replies);
    assert!(run.is_over());
    match next {
        Do::Finish(Err(why)) => why,
        other => panic!("{other:?}"),
    }
}

#[test]
fn settings_are_changed_in_the_only_safe_order() {
    let (mut run, first) = ApplyRun::begin(pal(), changes());
    assert_eq!(first.progress, Some("ワールドをセーブしています…"));
    assert_eq!(command(first.next), "rcon Save");
    // Saving is best-effort.
    let m = run.next(lost());
    assert_eq!(m.progress, Some("Palworld を停止しています…"));
    assert_eq!(command(m.next), "sudo -n systemctl stop 'palworld'");
    let m = run.next(ok(""));
    assert_eq!(m.progress, None);
    assert_eq!(command(m.next), "systemctl is-active 'palworld'");
    let m = run.next(ok("active\n"));
    assert!(matches!(m.next, Do::Sleep));
    assert!(run.is_pausing());
    let m = run.next(Happened::Slept);
    assert_eq!(command(m.next), "systemctl is-active 'palworld'");
    let m = run.next(ok("inactive\n"));
    assert_eq!(m.progress, Some("設定ファイルを読み直しています…"));
    assert_eq!(command(m.next), "sudo -n cat '/p'");
    let m = run.next(ok(FILE));
    assert_eq!(m.progress, Some("バックアップを取得しています…"));
    assert_eq!(command(m.next), "sudo -n cp '/p' '/p'.vwatch.bak");
    let m = run.next(ok(""));
    assert_eq!(m.progress, Some("設定を書き込んでいます…"));
    assert_eq!(
        command(m.next),
        "sudo -n tee '/p' > /dev/null <<'VWATCH_EOF'\n[/Script/Pal.PalGameWorldSettings]\n\
OptionSettings=(ExpRate=2.000000,ServerName=\"x\",New=7)\n\n\nVWATCH_EOF"
    );
    let m = run.next(ok(""));
    assert_eq!(m.progress, Some("Palworld を起動しています…"));
    assert_eq!(command(m.next), "sudo -n systemctl start 'palworld'");
    let m = run.next(ok(""));
    assert!(run.is_over());
    match m.next {
        Do::Finish(Ok(ini)) => {
            assert_eq!(ini.get("ExpRate"), Some("2.000000"));
            assert_eq!(ini.get("New"), Some("7"));
        }
        other => panic!("{other:?}"),
    }
}

#[test]
fn the_written_file_reads_back() {
    let (_, next) = after(vec![ok(""), ok(""), ok("failed"), ok(FILE), ok("")]);
    let cmd = command(next);
    let body = cmd
        .split_once("<<'VWATCH_EOF'\n")
        .and_then(|(_, rest)| rest.strip_suffix("VWATCH_EOF"))
        .unwrap();
    let again = PalIni::parse(body).unwrap();
    assert_eq!(again.options().len(), 3);
    assert_eq!(again.get("ExpRate"), Some("2.000000"));
    assert_eq!(again.lines().len(), 4);
    assert_eq!(again.lines()[0], "[/Script/Pal.PalGameWorldSettings]");
    assert_eq!(again.lines()[2], "");
    assert_eq!(again.lines()[3], "");
}

#[test]
fn a_server_that_stays_up_is_left_alone() {
    let mut replies = vec![ok(""), ok("")];
    for _ in 0..CHECKS {
        replies.push(ok("active"));
        replies.push(Happened::Slept);
    }
    assert_eq!(
        failure(replies),
        "Palworld が 60 秒以内に停止しませんでした。設定は変更していません。"
    );
    let mut replies = vec![ok(""), ok("")];
    for _ in 0..CHECKS - 1 {
        replies.push(ok("active"));
        replies.push(Happened::Slept);
    }
    replies.push(ok("inactive"));
    let (_, next) = after(replies);
    assert_eq!(command(next), "sudo -n cat '/p'");
}

#[test]
fn a_server_that_is_shutting_down_is_waited_for() {
    for state in ["deactivating\n", "reloading", "activating", " active "] {
        let (run, next) = after(vec![ok(""), ok(""), ok(state)]);
        assert!(matches!(next, Do::Sleep), "{state}");
        assert!(run.is_pausing());
        let mut replies = vec![ok(""), ok("")];
        for _ in 0..CHECKS {
            replies.push(ok(state));
            replies.push(Happened::Slept);
        }
        assert_eq!(
            failure(replies),
            "Palworld が 60 秒以内に停止しませんでした。設定は変更していません。"
        );
    }
    for state in ["inactive", "failed\n", "unknown"] {
        let replies = vec![ok(""), ok(""), ok("deactivating"), Happened::Slept, ok(state)];
        let (_, next) = after(replies);
        assert_eq!(command(next), "sudo -n cat '/p'", "{state}");
    }
}

#[test]
fn every_step_can_fail() {
    let stop = "command failed (exit 1): sudo -n systemctl stop 'palworld'\ndenied";
    assert_eq!(failure(vec![ok(""), bad()]), stop);
    assert_eq!(
        failure(vec![ok(""), ok(""), lost()]),
        "exec `systemctl is-active 'palworld'`: gone"
    );
    assert_eq!(
        failure(vec![ok(""), ok(""), ok("inactive"), bad()]),
        "command failed (exit 1): sudo -n cat '/p'\ndenied"
    );
    assert_eq!(
        failure(vec![ok(""), ok(""), ok("inactive"), ok("nothing here")]),
        "no `OptionSettings=(...)` line found in PalWorldSettings.ini"
    );
    assert_eq!(
        failure(vec![ok(""), ok(""), ok(""), ok(FILE), bad()]),
        "command failed (exit 1): sudo -n cp '/p' '/p'.vwatch.bak\ndenied"
    );
    let why = failure(vec![ok(""), ok(""), ok(""), ok(FILE), ok(""), bad()]);
    assert!(why.starts_with(
        "設定ファイルの書き込みに失敗しました（バックアップ: .vwatch.bak）: command failed (exit 1): sudo -n tee '/p'"
    ));
    assert_eq!(
        failure(vec![ok(""), ok(""), ok(""), ok(FILE), ok(""), ok(""), bad()]),
        "command failed (exit 1): sudo -n systemctl start 'palworld'\ndenied"
    );
}

#[test]
fn a_stopped_unit_that_exits_nonzero_counts_as_stopped() {
    let stopped = Happened::Replied(Reply::Ran {
        status: 3,
        stdout: "inactive\n".to_owned(),
        stderr: String::new(),
    });
    let (_, next) = after(vec![ok(""), ok(""), stopped]);
    assert_eq!(command(next), "sudo -n cat '/p'");
}
