//! The command lines that are run on the host, and what their outcome means.
use crate::chars::{
    chars_of, join, joined, replace, replaced, swap, swapped, texts, trim, trimmed, trimmed_text,
};
use crate::config::{Auth, AuthView, Config, ConfigView, PalworldConfig, PalworldView};
use crate::numbers::{decimal, decimal_int, decimal_text, integer_text};
use vstd::prelude::*;

verus! {

// ---------------------------------------------------------------------------
// Quoting
// ---------------------------------------------------------------------------
/// `s` in single quotes, with each single quote in it written outside of them.
pub open spec fn quoted(s: Seq<char>) -> Seq<char> {
    seq!['\''] + swapped(s, '\'', seq!['\'', '\\', '\'', '\'']) + seq!['\'']
}

/// Wraps a value so the remote shell sees it as one literal argument.
pub fn shq(s: &str) -> (r: String)
    ensures
        r@ == quoted(s@),
{
    let mut out = String::new();
    out.push('\'');
    proof {
        reveal_strlit("'\\''");
        assert("'\\''"@ =~= seq!['\'', '\\', '\'', '\'']);
    }
    out.append(swap(s, '\'', "'\\''").as_str());
    out.push('\'');
    assert(out@ =~= quoted(s@));
    out
}

// ---------------------------------------------------------------------------
// Connecting
// ---------------------------------------------------------------------------
/// How to log in to the host.
#[derive(Debug)]
pub enum Login {
    KeyFile { path: String, passphrase: Option<String> },
    Password { password: String },
}

pub enum LoginView {
    KeyFile { path: Seq<char>, passphrase: Option<Seq<char>> },
    Password { password: Seq<char> },
}

impl View for Login {
    type V = LoginView;

    open spec fn view(&self) -> LoginView {
        match self {
            Login::KeyFile { path, passphrase } => LoginView::KeyFile {
                path: path@,
                passphrase: match passphrase {
                    Some(p) => Some(p@),
                    None => None,
                },
            },
            Login::Password { password } => LoginView::Password { password: password@ },
        }
    }
}

/// Everything needed to open a session.
#[derive(Debug)]
pub struct ConnectPlan {
    pub host: String,
    pub port: u16,
    pub user: String,
    pub login: Login,
    /// Compare the host key with the known hosts.
    pub check_host_key: bool,
}

pub struct ConnectView {
    pub host: Seq<char>,
    pub port: u16,
    pub user: Seq<char>,
    pub login: LoginView,
    pub check_host_key: bool,
}

impl View for ConnectPlan {
    type V = ConnectView;

    open spec fn view(&self) -> ConnectView {
        ConnectView {
            host: self.host@,
            port: self.port,
            user: self.user@,
            login: self.login@,
            check_host_key: self.check_host_key,
        }
    }
}

/// The session that a configuration asks for. An empty passphrase is none.
pub open spec fn plan_for(cfg: ConfigView) -> ConnectView {
    ConnectView {
        host: cfg.ssh.host,
        port: cfg.ssh.port,
        user: cfg.ssh.user,
        login: match cfg.ssh.auth {
            AuthView::Key { path, passphrase } => LoginView::KeyFile {
                path,
                passphrase: if passphrase.len() > 0 {
                    Some(passphrase)
                } else {
                    None
                },
            },
            AuthView::Password { password } => LoginView::Password { password },
        },
        check_host_key: cfg.ssh.strict_host_key,
    }
}

/// The session that a configuration asks for.
pub fn connect_plan(cfg: &Config) -> (r: ConnectPlan)
    ensures
        r@ == plan_for(cfg@),
{
    let login = match &cfg.ssh.auth {
        Auth::Key { path, passphrase } => Login::KeyFile {
            path: path.clone(),
            passphrase: if passphrase.as_str().is_empty() {
                None
            } else {
                Some(passphrase.clone())
            },
        },
        Auth::Password { password } => Login::Password { password: password.clone() },
    };
    ConnectPlan {
        host: cfg.ssh.host.clone(),
        port: cfg.ssh.port,
        user: cfg.ssh.user.clone(),
        login,
        check_host_key: cfg.ssh.strict_host_key,
    }
}

/// `user@host`.
pub open spec fn address(user: Seq<char>, host: Seq<char>) -> Seq<char> {
    user + "@"@ + host
}

/// Why no session could be opened.
pub open spec fn connect_failure_text(plan: ConnectView, cause: Seq<char>) -> Seq<char> {
    "SSH connect to "@ + address(plan.user, plan.host) + ": "@ + cause
}

/// `user@host`.
pub fn address_text(user: &str, host: &str) -> (r: String)
    ensures
        r@ == address(user@, host@),
{
    let mut out = user.to_owned();
    out.append("@");
    out.append(host);
    out
}

/// Why no session could be opened.
pub fn connect_failure(plan: &ConnectPlan, cause: &str) -> (r: String)
    ensures
        r@ == connect_failure_text(plan@, cause@),
{
    let mut out = "SSH connect to ".to_owned();
    out.append(address_text(plan.user.as_str(), plan.host.as_str()).as_str());
    out.append(": ");
    out.append(cause);
    out
}

// ---------------------------------------------------------------------------
// Running a command
// ---------------------------------------------------------------------------
/// What became of a command.
#[derive(Debug)]
pub enum Reply {
    /// It ran.
    Ran { status: u32, stdout: String, stderr: String },
    /// It could not be run, and why.
    Lost(String),
}

pub enum ReplyView {
    Ran { status: u32, stdout: Seq<char>, stderr: Seq<char> },
    Lost(Seq<char>),
}

impl View for Reply {
    type V = ReplyView;

    open spec fn view(&self) -> ReplyView {
        match self {
            Reply::Ran { status, stdout, stderr } => ReplyView::Ran {
                status: *status,
                stdout: stdout@,
                stderr: stderr@,
            },
            Reply::Lost(cause) => ReplyView::Lost(cause@),
        }
    }
}

/// The message for a command that could not be run.
pub open spec fn lost_text(cmd: Seq<char>, cause: Seq<char>) -> Seq<char> {
    "exec `"@ + cmd + "`: "@ + cause
}

/// The message for a command that failed: its exit code, itself, and what it wrote to
/// its error output.
pub open spec fn failed_text(cmd: Seq<char>, status: u32, stderr: Seq<char>) -> Seq<char> {
    "command failed (exit "@ + decimal(status as nat) + "): "@ + cmd + "\n"@ + trimmed(stderr)
}

/// The output of a command whose exit code must be zero.
pub open spec fn strict_output(cmd: Seq<char>, reply: ReplyView) -> Result<Seq<char>, Seq<char>> {
    match reply {
        ReplyView::Lost(cause) => Err(lost_text(cmd, cause)),
        ReplyView::Ran { status, stdout, stderr } => if status == 0 {
            Ok(stdout)
        } else {
            Err(failed_text(cmd, status, stderr))
        },
    }
}

/// The output of a command whose exit code does not matter.
pub open spec fn lenient_output(cmd: Seq<char>, reply: ReplyView) -> Result<Seq<char>, Seq<char>> {
    match reply {
        ReplyView::Lost(cause) => Err(lost_text(cmd, cause)),
        ReplyView::Ran { status, stdout, stderr } => Ok(stdout),
    }
}

/// A result by the texts it holds.
pub open spec fn result_texts(r: Result<String, String>) -> Result<Seq<char>, Seq<char>> {
    match r {
        Ok(s) => Ok(s@),
        Err(e) => Err(e@),
    }
}

fn lost(cmd: &str, cause: &str) -> (r: String)
    ensures
        r@ == lost_text(cmd@, cause@),
{
    let mut out = "exec `".to_owned();
    out.append(cmd);
    out.append("`: ");
    out.append(cause);
    out
}

/// Takes the output of a command; non-zero exit is an error carrying stderr.
pub fn run(cmd: &str, reply: Reply) -> (r: Result<String, String>)
    ensures
        result_texts(r) == strict_output(cmd@, reply@),
{
    match reply {
        Reply::Lost(cause) => Err(lost(cmd, cause.as_str())),
        Reply::Ran { status, stdout, stderr } => {
            if status == 0 {
                Ok(stdout)
            } else {
                let mut out = "command failed (exit ".to_owned();
                out.append(decimal_text(status as u64).as_str());
                out.append("): ");
                out.append(cmd);
                out.append("\n");
                out.append(trimmed_text(stderr.as_str()).as_str());
                Err(out)
            }
        },
    }
}

/// Takes the output of a command, tolerating non-zero exit (e.g. `systemctl
/// is-active` on a stopped unit exits 3).
pub fn run_lenient(cmd: &str, reply: Reply) -> (r: Result<String, String>)
    ensures
        result_texts(r) == lenient_output(cmd@, reply@),
{
    match reply {
        Reply::Lost(cause) => Err(lost(cmd, cause.as_str())),
        Reply::Ran { status: _, stdout, stderr: _ } => Ok(stdout),
    }
}

// ---------------------------------------------------------------------------
// Command lines
// ---------------------------------------------------------------------------
/// What privileged commands begin with.
pub open spec fn sudo_prefix(sudo: bool) -> Seq<char> {
    if sudo {
        "sudo -n "@
    } else {
        ""@
    }
}

fn sudo_text(sudo: bool) -> (r: &'static str)
    ensures
        r@ == sudo_prefix(sudo),
{
    if sudo {
        "sudo -n "
    } else {
        ""
    }
}

/// Each text as a shell argument.
pub open spec fn all_quoted(v: Seq<Seq<char>>) -> Seq<Seq<char>> {
    v.map_values(|s: Seq<char>| quoted(s))
}

/// Asks for the state of several units.
pub open spec fn services_line(units: Seq<Seq<char>>) -> Seq<char> {
    "systemctl is-active "@ + joined(all_quoted(units), " "@)
}

/// Prints the settings file.
pub open spec fn read_ini_line(pal: PalworldView) -> Seq<char> {
    sudo_prefix(pal.sudo) + "cat "@ + quoted(pal.ini_path)
}

/// Starts, stops or restarts a unit.
pub open spec fn action_line(unit: Seq<char>, action: Seq<char>, sudo: bool) -> Seq<char> {
    sudo_prefix(sudo) + "systemctl "@ + quoted(action) + " "@ + quoted(unit)
}

/// The signal that ends a process.
pub open spec fn signal(force: bool) -> Seq<char> {
    if force {
        "KILL"@
    } else {
        "TERM"@
    }
}

/// Ends a process, with sudo where it belongs to someone else.
pub open spec fn kill_line(pid: i32, force: bool) -> Seq<char> {
    "kill -"@ + signal(force) + " "@ + decimal_int(pid as int) + " 2>/dev/null || sudo -n kill -"@
        + signal(force) + " "@ + decimal_int(pid as int)
}

/// Asks for the state of several units.
pub fn services_command(units: &Vec<String>) -> (r: String)
    ensures
        r@ == services_line(texts(units@)),
{
    let mut args: Vec<String> = Vec::new();
    let mut i: usize = 0;
    while i < units.len()
        invariant
            i <= units.len(),
            args@.len() == i,
            forall|j: int| 0 <= j < i ==> #[trigger] args@[j]@ == quoted(units@[j]@),
        decreases units.len() - i,
    {
        args.push(shq(units[i].as_str()));
        i += 1;
    }
    assert(texts(args@) =~= all_quoted(texts(units@)));
    let mut out = "systemctl is-active ".to_owned();
    out.append(join(&args, " ").as_str());
    out
}

/// Prints the settings file.
pub fn palworld_ini_command(pal: &PalworldConfig) -> (r: String)
    ensures
        r@ == read_ini_line(pal@),
{
    let mut out = sudo_text(pal.sudo).to_owned();
    out.append("cat ");
    out.append(shq(pal.ini_path.as_str()).as_str());
    out
}

/// Starts, stops or restarts a unit.
pub fn service_action_command(unit: &str, action: &str, sudo: bool) -> (r: String)
    ensures
        r@ == action_line(unit@, action@, sudo),
{
    let mut out = sudo_text(sudo).to_owned();
    out.append("systemctl ");
    out.append(shq(action).as_str());
    out.append(" ");
    out.append(shq(unit).as_str());
    out
}

/// The command that ends a process. Neither `init` nor a group of processes can be
/// ended.
pub open spec fn kill_outcome(pid: i32, force: bool) -> Result<Seq<char>, Seq<char>> {
    if pid <= 1 {
        Err("pid "@ + decimal_int(pid as int) + " は終了できません"@)
    } else {
        Ok(kill_line(pid, force))
    }
}

/// TERMs (or KILLs) a process. Falls back to sudo for processes owned by another
/// user — Palworld runs as `steam`, the tunnels as root. Neither `init` nor a group
/// of processes can be ended.
pub fn kill_command(pid: i32, force: bool) -> (r: Result<String, String>)
    ensures
        result_texts(r) == kill_outcome(pid, force),
{
    let number = integer_text(pid as i64);
    if pid <= 1 {
        let mut out = "pid ".to_owned();
        out.append(number.as_str());
        out.append(" は終了できません");
        return Err(out);
    }
    let sig = if force {
        "KILL"
    } else {
        "TERM"
    };
    let mut out = "kill -".to_owned();
    out.append(sig);
    out.append(" ");
    out.append(number.as_str());
    out.append(" 2>/dev/null || sudo -n kill -");
    out.append(sig);
    out.append(" ");
    out.append(number.as_str());
    Ok(out)
}

/// Whether a command for listing players is configured.
pub fn lists_players(pal: &PalworldConfig) -> (r: bool)
    ensures
        r == (trimmed(pal@.players_command).len() > 0),
{
    trim(chars_of(pal.players_command.as_str()).as_slice()).len() > 0
}

// ---------------------------------------------------------------------------
// The commands around a change of settings
// ---------------------------------------------------------------------------
/// Saves the world: the command that lists the players, with `Save` for
/// `ShowPlayers`.
pub open spec fn save_line(pal: PalworldView) -> Seq<char> {
    replaced(pal.players_command, "ShowPlayers"@, "Save"@)
}

/// `stop` or `start` for the server's unit.
pub open spec fn unit_line(pal: PalworldView, verb: Seq<char>) -> Seq<char> {
    sudo_prefix(pal.sudo) + "systemctl "@ + verb + " "@ + quoted(pal.service)
}

/// Asks whether the server is up.
pub open spec fn state_line(pal: PalworldView) -> Seq<char> {
    "systemctl is-active "@ + quoted(pal.service)
}

/// Copies the settings file aside.
pub open spec fn backup_line(pal: PalworldView) -> Seq<char> {
    sudo_prefix(pal.sudo) + "cp "@ + quoted(pal.ini_path) + " "@ + quoted(pal.ini_path)
        + ".vwatch.bak"@
}

/// Writes the settings file. `tee` truncates the existing file in place, so
/// ownership is preserved.
pub open spec fn write_line(pal: PalworldView, body: Seq<char>) -> Seq<char> {
    sudo_prefix(pal.sudo) + "tee "@ + quoted(pal.ini_path) + " > /dev/null <<'VWATCH_EOF'\n"@ + body
        + "\nVWATCH_EOF"@
}

/// Saves the world.
pub fn save_command(pal: &PalworldConfig) -> (r: String)
    ensures
        r@ == save_line(pal@),
{
    proof {
        reveal_strlit("ShowPlayers");
    }
    replace(pal.players_command.as_str(), "ShowPlayers", "Save")
}

/// `stop` or `start` for the server's unit.
pub fn unit_command(pal: &PalworldConfig, verb: &str) -> (r: String)
    ensures
        r@ == unit_line(pal@, verb@),
{
    let mut out = sudo_text(pal.sudo).to_owned();
    out.append("systemctl ");
    out.append(verb);
    out.append(" ");
    out.append(shq(pal.service.as_str()).as_str());
    out
}

/// Asks whether the server is up.
pub fn state_command(pal: &PalworldConfig) -> (r: String)
    ensures
        r@ == state_line(pal@),
{
    let mut out = "systemctl is-active ".to_owned();
    out.append(shq(pal.service.as_str()).as_str());
    out
}

/// Copies the settings file aside.
pub fn backup_command(pal: &PalworldConfig) -> (r: String)
    ensures
        r@ == backup_line(pal@),
{
    let path = shq(pal.ini_path.as_str());
    let mut out = sudo_text(pal.sudo).to_owned();
    out.append("cp ");
    out.append(path.as_str());
    out.append(" ");
    out.append(path.as_str());
    out.append(".vwatch.bak");
    out
}

/// Writes the settings file.
pub fn write_command(pal: &PalworldConfig, body: &str) -> (r: String)
    ensures
        r@ == write_line(pal@, body@),
{
    let mut out = sudo_text(pal.sudo).to_owned();
    out.append("tee ");
    out.append(shq(pal.ini_path.as_str()).as_str());
    out.append(" > /dev/null <<'VWATCH_EOF'\n");
    out.append(body);
    out.append("\nVWATCH_EOF");
    out
}

} // verus!
