//! Connection settings: what they are, what they are by default, and how the
//! settings form changes them. Where they are stored is the program's affair.
use crate::chars::{chars_of, copy_texts, texts, trim, trimmed};
use vstd::prelude::*;

verus! {

/// Everything the user configures.
#[derive(Debug)]
pub struct Config {
    pub ssh: SshConfig,
    pub palworld: PalworldConfig,
    pub services: Vec<String>,
    pub poll_interval_secs: u64,
    pub show_pm2: bool,
}

/// How to reach the host.
#[derive(Debug)]
pub struct SshConfig {
    pub host: String,
    pub port: u16,
    pub user: String,
    pub auth: Auth,
    /// Verify the host key against `~/.ssh/known_hosts`. Off by default so a
    /// fresh Windows box can connect without a pre-seeded known_hosts file.
    pub strict_host_key: bool,
}

/// How to log in.
#[derive(Debug)]
pub enum Auth {
    /// Private key file, e.g. `C:\Users\you\.ssh\id_ed25519`.
    Key { path: String, passphrase: String },
    /// Stored in plaintext — prefer `Key`.
    Password { password: String },
}

/// The Palworld integration.
#[derive(Debug)]
pub struct PalworldConfig {
    pub enabled: bool,
    pub ini_path: String,
    pub service: String,
    /// Remote command printing the RCON `ShowPlayers` CSV on stdout. A config
    /// knob because how you reach RCON is host-specific.
    pub players_command: String,
    /// Prefix privileged commands with `sudo -n`.
    pub sudo: bool,
}

// ---------------------------------------------------------------------------
// Models
// ---------------------------------------------------------------------------
pub enum AuthView {
    Key { path: Seq<char>, passphrase: Seq<char> },
    Password { password: Seq<char> },
}

pub struct SshView {
    pub host: Seq<char>,
    pub port: u16,
    pub user: Seq<char>,
    pub auth: AuthView,
    pub strict_host_key: bool,
}

pub struct PalworldView {
    pub enabled: bool,
    pub ini_path: Seq<char>,
    pub service: Seq<char>,
    pub players_command: Seq<char>,
    pub sudo: bool,
}

pub struct ConfigView {
    pub ssh: SshView,
    pub palworld: PalworldView,
    pub services: Seq<Seq<char>>,
    pub poll_interval_secs: u64,
    pub show_pm2: bool,
}

impl View for Auth {
    type V = AuthView;

    open spec fn view(&self) -> AuthView {
        match self {
            Auth::Key { path, passphrase } => AuthView::Key {
                path: path@,
                passphrase: passphrase@,
            },
            Auth::Password { password } => AuthView::Password { password: password@ },
        }
    }
}

impl View for SshConfig {
    type V = SshView;

    open spec fn view(&self) -> SshView {
        SshView {
            host: self.host@,
            port: self.port,
            user: self.user@,
            auth: self.auth@,
            strict_host_key: self.strict_host_key,
        }
    }
}

impl View for PalworldConfig {
    type V = PalworldView;

    open spec fn view(&self) -> PalworldView {
        PalworldView {
            enabled: self.enabled,
            ini_path: self.ini_path@,
            service: self.service@,
            players_command: self.players_command@,
            sudo: self.sudo,
        }
    }
}

impl View for Config {
    type V = ConfigView;

    open spec fn view(&self) -> ConfigView {
        ConfigView {
            ssh: self.ssh@,
            palworld: self.palworld@,
            services: texts(self.services@),
            poll_interval_secs: self.poll_interval_secs,
            show_pm2: self.show_pm2,
        }
    }
}

impl Clone for Auth {
    fn clone(&self) -> (r: Self)
        ensures
            r@ == self@,
    {
        match self {
            Auth::Key { path, passphrase } => Auth::Key {
                path: path.clone(),
                passphrase: passphrase.clone(),
            },
            Auth::Password { password } => Auth::Password { password: password.clone() },
        }
    }
}

impl Clone for SshConfig {
    fn clone(&self) -> (r: Self)
        ensures
            r@ == self@,
    {
        SshConfig {
            host: self.host.clone(),
            port: self.port,
            user: self.user.clone(),
            auth: self.auth.clone(),
            strict_host_key: self.strict_host_key,
        }
    }
}

impl Clone for PalworldConfig {
    fn clone(&self) -> (r: Self)
        ensures
            r@ == self@,
    {
        PalworldConfig {
            enabled: self.enabled,
            ini_path: self.ini_path.clone(),
            service: self.service.clone(),
            players_command: self.players_command.clone(),
            sudo: self.sudo,
        }
    }
}

impl Clone for Config {
    fn clone(&self) -> (r: Self)
        ensures
            r@ == self@,
    {
        Config {
            ssh: self.ssh.clone(),
            palworld: self.palworld.clone(),
            services: copy_texts(&self.services),
            poll_interval_secs: self.poll_interval_secs,
            show_pm2: self.show_pm2,
        }
    }
}

// ---------------------------------------------------------------------------
// Defaults
// ---------------------------------------------------------------------------
/// A file name of ASCII letters, digits, `_` and `.` that ends in a letter or digit.
pub open spec fn plain_name(s: Seq<char>) -> bool {
    &&& s.len() > 0
    &&& s.last() != '.'
    &&& s.last() != '_'
    &&& forall|i: int|
        0 <= i < s.len() ==> {
            let c = #[trigger] s[i];
            'a' <= c <= 'z' || 'A' <= c <= 'Z' || '0' <= c <= '9' || c == '_' || c == '.'
        }
}

/// What a path has between `base` and the next name: a separator, or nothing where
/// `base` is empty or ends in what parts it from the name already.
pub open spec fn parts_from(base: Seq<char>, sep: Seq<char>) -> bool {
    ||| sep == seq!['/']
    ||| sep == seq!['\\']
    ||| sep.len() == 0 && (base.len() == 0 || base.last() == '/' || base.last() == '\\' || base.last()
        == ':')
}

/// A Windows path with the prefix `\\?\`, whose other parts are rewritten when a name is
/// joined to it.
pub open spec fn verbatim(path: Seq<char>) -> bool {
    path.len() >= 4 && path.take(4) == seq!['\\', '\\', '?', '\\']
}

/// `path` is `base` and the name `name` behind it.
pub open spec fn behind_base(path: Seq<char>, base: Seq<char>, name: Seq<char>) -> bool {
    exists|sep: Seq<char>| #[trigger] parts_from(base, sep) && path == base + sep + name
}

/// `path` names `name` in the directory `base`. Of a verbatim directory only the prefix is
/// told.
pub open spec fn names_in(path: Seq<char>, base: Seq<char>, name: Seq<char>) -> bool {
    if verbatim(base) {
        verbatim(path)
    } else {
        behind_base(path, base, name)
    }
}

/// `directories::UserDirs::new` and its `home_dir`: the user's home directory, `None`
/// where the system names none. Which directory it is, is the system's.
#[verifier::external_body]
fn home_dir() -> (r: Option<String>) {
    directories::UserDirs::new().map(|u| u.home_dir().display().to_string())
}

/// `std::path::Path::join` with a plain name: the name behind the path, parted from it
/// by the system's separator unless the path ends in one, or is empty. A verbatim path
/// of Windows keeps its prefix and is normalised, and what becomes of the rest of it is
/// left unsaid.
#[verifier::external_body]
fn join_path(base: &str, name: &str) -> (r: String)
    requires
        plain_name(name@),
    ensures
        names_in(r@, base@, name@),
{
    std::path::Path::new(base).join(name).display().to_string()
}

/// The port SSH listens on unless told otherwise.
pub fn default_port() -> (r: u16)
    ensures
        r == 22,
{
    22
}

/// What is on unless switched off.
pub fn default_true() -> (r: bool)
    ensures
        r,
{
    true
}

/// Seconds between two polls.
pub fn default_poll() -> (r: u64)
    ensures
        r == 5,
{
    5
}

/// The services watched by default.
pub open spec fn usual_services() -> Seq<Seq<char>> {
    seq!["palworld"@, "playit"@, "cloudflared"@]
}

/// The services watched by default.
pub fn default_services() -> (r: Vec<String>)
    ensures
        texts(r@) == usual_services(),
{
    let r: Vec<String> = vec!["palworld".to_owned(), "playit".to_owned(), "cloudflared".to_owned()];
    assert(texts(r@) =~= usual_services());
    r
}

/// `path` is `.ssh/id_ed25519` in that home directory.
pub open spec fn key_in(home: Seq<char>, path: Seq<char>) -> bool {
    exists|dir: Seq<char>|
        #[trigger] names_in(dir, home, ".ssh"@) && names_in(path, dir, "id_ed25519"@)
}

/// The usual place of a private key, for what the system says of the home directory:
/// `.ssh/id_ed25519` in it, or nowhere.
pub open spec fn key_place(home: Option<Seq<char>>, path: Seq<char>) -> bool {
    match home {
        Some(dir) => key_in(dir, path),
        None => path.len() == 0,
    }
}

/// The usual place of a private key, wherever the home directory is.
pub open spec fn usual_key_path(path: Seq<char>) -> bool {
    exists|home: Option<Seq<char>>| #[trigger] key_place(home, path)
}

pub open spec fn home_view(home: Option<String>) -> Option<Seq<char>> {
    match home {
        Some(h) => Some(h@),
        None => None,
    }
}

/// The usual place of a private key in that home directory.
pub fn key_path_in(home: Option<String>) -> (r: String)
    ensures
        key_place(home_view(home), r@),
{
    match home {
        Some(base) => {
            proof {
                reveal_strlit(".ssh");
                reveal_strlit("id_ed25519");
            }
            let dir = join_path(base.as_str(), ".ssh");
            let path = join_path(dir.as_str(), "id_ed25519");
            assert(key_in(base@, path@)) by {
                assert(names_in(dir@, base@, ".ssh"@));
            }
            path
        },
        None => String::new(),
    }
}

/// The usual place of the user's private key.
pub fn default_key_path() -> (r: String)
    ensures
        usual_key_path(r@),
{
    let home = home_dir();
    let ghost at = home_view(home);
    let r = key_path_in(home);
    assert(key_place(at, r@));
    r
}

impl Auth {
    /// Log in with the key at `path`, which has no passphrase.
    pub fn with_key(path: String) -> (r: Auth)
        ensures
            r@ == (AuthView::Key { path: path@, passphrase: Seq::empty() }),
    {
        Auth::Key { path, passphrase: String::new() }
    }
}

impl Default for Auth {
    fn default() -> (r: Self)
        ensures
            r@ matches AuthView::Key { path, passphrase } && usual_key_path(path)
                && passphrase.len() == 0,
    {
        Auth::with_key(default_key_path())
    }
}

/// The settings of a first run, with the key at `key_path`.
pub open spec fn first_config(key_path: Seq<char>) -> ConfigView {
    ConfigView {
        ssh: SshView {
            host: Seq::empty(),
            port: 22,
            user: Seq::empty(),
            auth: AuthView::Key { path: key_path, passphrase: Seq::empty() },
            strict_host_key: false,
        },
        palworld: PalworldView {
            enabled: true,
            ini_path:
                "/home/steam/palworld/Pal/Saved/Config/LinuxServer/PalWorldSettings.ini"@,
            service: "palworld"@,
            players_command: Seq::empty(),
            sudo: true,
        },
        services: usual_services(),
        poll_interval_secs: 5,
        show_pm2: true,
    }
}

impl Config {
    /// The settings of a first run, with the key at `key_path`.
    pub fn first(key_path: String) -> (r: Config)
        ensures
            r@ == first_config(key_path@),
    {
        Config {
            ssh: SshConfig {
                host: String::new(),
                port: default_port(),
                user: String::new(),
                auth: Auth::with_key(key_path),
                strict_host_key: false,
            },
            palworld: PalworldConfig {
                enabled: true,
                ini_path:
                    "/home/steam/palworld/Pal/Saved/Config/LinuxServer/PalWorldSettings.ini".to_owned(),
                service: "palworld".to_owned(),
                players_command: String::new(),
                sudo: true,
            },
            services: default_services(),
            poll_interval_secs: default_poll(),
            show_pm2: default_true(),
        }
    }

    /// Whether there is a host and a user to connect with.
    pub fn is_connectable(&self) -> (r: bool)
        ensures
            r == connectable(self@),
    {
        trim(chars_of(self.ssh.host.as_str()).as_slice()).len() > 0 && trim(
            chars_of(self.ssh.user.as_str()).as_slice(),
        ).len() > 0
    }
}

/// Host and user are filled in.
pub open spec fn connectable(cfg: ConfigView) -> bool {
    trimmed(cfg.ssh.host).len() > 0 && trimmed(cfg.ssh.user).len() > 0
}

impl Default for Config {
    fn default() -> (r: Self)
        ensures
            exists|path: Seq<char>| #[trigger] usual_key_path(path) && r@ == first_config(path),
    {
        let path = default_key_path();
        let ghost text = path@;
        let r = Config::first(path);
        assert(usual_key_path(text) && r@ == first_config(text));
        r
    }
}

} // verus!
