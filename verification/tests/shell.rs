use vwatch::config::{Auth, Config};
use vwatch::shell::{
    address_text, backup_command, connect_failure, connect_plan, kill_command, lists_players,
    palworld_ini_command, run, run_lenient, save_command, service_action_command, services_command, shq,
    state_command, unit_command, write_command, Login, Reply,
};

#[test]
fn shell_quoting_neutralises_a_quote_in_the_path() {
    assert_eq!(shq("/tmp/a b"), "'/tmp/a b'");
    assert_eq!(shq("it's"), r"'it'\''s'");
}

#[test]
fn quoting_survives_anything() {
    assert_eq!(shq(""), "''");
    assert_eq!(shq("'"), r"''\'''");
    assert_eq!(shq("$(rm) `x` \\ \n"), "'$(rm) `x` \\ \n'");
}

fn config() -> Config {
    let mut cfg = Config::first("/k".to_owned());
    cfg.ssh.host = "h".to_owned();
    cfg.ssh.user = "u".to_owned();
    cfg
}

#[test]
fn a_session_is_planned_from_the_configuration() {
    let mut cfg = config();
    let plan = connect_plan(&cfg);
    assert_eq!((plan.host.as_str(), plan.port, plan.user.as_str()), ("h", 22, "u"));
    assert!(!plan.check_host_key);
    assert!(matches!(&plan.login, Login::KeyFile { path, passphrase: None } if path == "/k"));
    cfg.ssh.auth = Auth::Key { path: "/k".to_owned(), passphrase: "pp".to_owned() };
    cfg.ssh.strict_host_key = true;
    let plan = connect_plan(&cfg);
    assert!(plan.check_host_key);
    assert!(matches!(&plan.login, Login::KeyFile { passphrase: Some(p), .. } if p == "pp"));
    cfg.ssh.auth = Auth::Password { password: "pw".to_owned() };
    assert!(matches!(&connect_plan(&cfg).login, Login::Password { password } if password == "pw"));
    assert_eq!(connect_failure(&connect_plan(&cfg), "timed out"), "SSH connect to u@h: timed out");
    assert_eq!(address_text("u", "h"), "u@h");
}

fn ran(status: u32, stdout: &str, stderr: &str) -> Reply {
    Reply::Ran { status, stdout: stdout.to_owned(), stderr: stderr.to_owned() }
}

#[test]
fn a_failed_command_carries_its_error_output() {
    assert_eq!(run("c", ran(0, "out", "err")), Ok("out".to_owned()));
    assert_eq!(
        run("c", ran(3, "out", " no such file\n")),
        Err("command failed (exit 3): c\nno such file".to_owned())
    );
    assert_eq!(run_lenient("c", ran(3, "out", "err")), Ok("out".to_owned()));
    let lost = || Reply::Lost("broken pipe".to_owned());
    assert_eq!(run("c", lost()), Err("exec `c`: broken pipe".to_owned()));
    assert_eq!(run_lenient("c", lost()), Err("exec `c`: broken pipe".to_owned()));
}

#[test]
fn command_lines_quote_their_arguments() {
    let mut pal = config().palworld;
    pal.ini_path = "/a b".to_owned();
    pal.service = "pal's".to_owned();
    assert_eq!(services_command(&vec!["a".to_owned(), "b c".to_owned()]), "systemctl is-active 'a' 'b c'");
    assert_eq!(palworld_ini_command(&pal), "sudo -n cat '/a b'");
    assert_eq!(
        service_action_command("x", "restart", true),
        "sudo -n systemctl 'restart' 'x'"
    );
    assert_eq!(service_action_command("x", "stop", false), "systemctl 'stop' 'x'");
    assert_eq!(unit_command(&pal, "stop"), r"sudo -n systemctl stop 'pal'\''s'");
    assert_eq!(state_command(&pal), r"systemctl is-active 'pal'\''s'");
    assert_eq!(backup_command(&pal), "sudo -n cp '/a b' '/a b'.vwatch.bak");
    assert_eq!(
        write_command(&pal, "x\ny"),
        "sudo -n tee '/a b' > /dev/null <<'VWATCH_EOF'\nx\ny\nVWATCH_EOF"
    );
    pal.sudo = false;
    assert_eq!(palworld_ini_command(&pal), "cat '/a b'");
    assert!(!lists_players(&pal));
    pal.players_command = " ".to_owned();
    assert!(!lists_players(&pal));
    pal.players_command = "rcon ShowPlayers".to_owned();
    assert!(lists_players(&pal));
    assert_eq!(save_command(&pal), "rcon Save");
}

#[test]
fn neither_init_nor_a_group_can_be_ended() {
    for pid in [1, 0, -1, i32::MIN] {
        assert_eq!(kill_command(pid, true), Err(format!("pid {pid} は終了できません")));
    }
    assert_eq!(
        kill_command(42, false),
        Ok("kill -TERM 42 2>/dev/null || sudo -n kill -TERM 42".to_owned())
    );
    assert_eq!(
        kill_command(42, true),
        Ok("kill -KILL 42 2>/dev/null || sudo -n kill -KILL 42".to_owned())
    );
}
