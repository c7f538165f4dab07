//! The scripts that are run on the host, the settings of a first run, and the messages for
//! files that cannot be read.
use crate::arguments::shell_words;
use crate::chars::{rows_of, starts, trimmed_start};
use crate::config::{
    connectable, first_config, key_place, names_in, parts_from, verbatim, AuthView, ConfigView,
};
use crate::palworld::{fault_text, is_option_line, read_ini, IniFault};
use crate::pm2::PM2_COMMAND;
use crate::procs::{processes_script, TICKS};
use crate::report::METRICS_SCRIPT;
use crate::shell::quoted;
use vstd::prelude::*;

verus! {

/// A row of a script that prints a marker and runs a command behind it.
pub open spec fn marked(name: Seq<char>, gap: Seq<char>, command: Seq<char>) -> Seq<char> {
    "echo '@@"@ + name + "';"@ + gap + command
}

/// The metrics script prints, under a marker each: the name of the host, its uptime, its
/// cores, its load, the counters of its CPU twice with a pause of 0.4 seconds between,
/// its memory, and the size and use of its root file system in bytes.
pub proof fn the_metrics_script()
    ensures
        METRICS_SCRIPT@ == "\n"@ + marked("host"@, "    "@, "hostname\n"@) + marked(
            "uptime"@,
            "  "@,
            "uptime -p 2>/dev/null || uptime\n"@,
        ) + marked("nproc"@, "   "@, "nproc\n"@) + marked("load"@, "    "@, "cat /proc/loadavg\n"@)
            + marked("stat1"@, "   "@, "grep '^cpu ' /proc/stat\n"@) + "sleep 0.4\n"@ + marked(
            "stat2"@,
            "   "@,
            "grep '^cpu ' /proc/stat\n"@,
        ) + marked("mem"@, "     "@, "cat /proc/meminfo\n"@) + marked(
            "disk"@,
            "    "@,
            "df -B1 / | tail -1\n"@,
        ),
{
    reveal_strlit(
        "
echo '@@host';    hostname
echo '@@uptime';  uptime -p 2>/dev/null || uptime
echo '@@nproc';   nproc
echo '@@load';    cat /proc/loadavg
echo '@@stat1';   grep '^cpu ' /proc/stat
sleep 0.4
echo '@@stat2';   grep '^cpu ' /proc/stat
echo '@@mem';     cat /proc/meminfo
echo '@@disk';    df -B1 / | tail -1
",
    );
    reveal_strlit("\n");
    reveal_strlit("echo '@@");
    reveal_strlit("';");
    reveal_strlit("host");
    reveal_strlit("    ");
    reveal_strlit("hostname\n");
    reveal_strlit("uptime");
    reveal_strlit("  ");
    reveal_strlit("uptime -p 2>/dev/null || uptime\n");
    reveal_strlit("nproc");
    reveal_strlit("   ");
    reveal_strlit("nproc\n");
    reveal_strlit("load");
    reveal_strlit("cat /proc/loadavg\n");
    reveal_strlit("stat1");
    reveal_strlit("grep '^cpu ' /proc/stat\n");
    reveal_strlit("sleep 0.4\n");
    reveal_strlit("stat2");
    reveal_strlit("mem");
    reveal_strlit("     ");
    reveal_strlit("cat /proc/meminfo\n");
    reveal_strlit("disk");
    reveal_strlit("df -B1 / | tail -1\n");
}

/// The process script prints, under a marker each: the ticks per second, the clock and
/// the ticks of every process twice with a pause of 0.4 seconds between, the processes
/// without their arguments, and the working directories of those of that command. The
/// ticks are those of user and system time, counted behind the last `") "` of a line.
pub proof fn the_process_script(comm: Seq<char>)
    ensures
        processes_script(comm) == "\necho '@@hz';   getconf CLK_TCK\necho '@@e1';   date +%s.%N\necho '@@t1';   "@
            + TICKS@ + "\nsleep 0.4\necho '@@e2';   date +%s.%N\necho '@@t2';   "@ + TICKS@
            + "\necho '@@ps';   ps -eo pid=,ppid=,user:24=,rss=,etimes=,comm=\necho '@@cwd';  for p in $(pgrep -x "@
            + quoted(comm)
            + " 2>/dev/null); do printf '%s %s\\n' \"$p\" \"$(readlink /proc/$p/cwd 2>/dev/null || echo -)\"; done\n"@,
        shell_words(quoted(comm)) == Some(seq![comm]),
        TICKS@
            == "awk '{s=$0;sub(/^.*[)] /,\"\",s);split(s,a,\" \");split(FILENAME,f,\"/\");print f[3], a[12]+a[13]}' /proc/[0-9]*/stat 2>/dev/null"@,
        PM2_COMMAND@ == "command -v pm2 >/dev/null 2>&1 && pm2 jlist 2>/dev/null || echo '[]'"@,
{
    crate::arguments::quoting_is_literal(comm);
}

/// A first run has no host and no user yet, so that it cannot connect; it logs in by key
/// on port 22 without checking the host's key, watches the usual units every five
/// seconds, and has the Palworld integration on, with `sudo`.
pub proof fn a_first_run(key: Seq<char>)
    ensures
        ({
            let c = first_config(key);
            &&& !connectable(c)
            &&& c.ssh.host.len() == 0 && c.ssh.user.len() == 0
            &&& c.ssh.port == 22
            &&& c.ssh.auth == (AuthView::Key { path: key, passphrase: Seq::empty() })
            &&& !c.ssh.strict_host_key
            &&& c.services == seq!["palworld"@, "playit"@, "cloudflared"@]
            &&& c.poll_interval_secs == 5
            &&& c.show_pm2
            &&& c.palworld.enabled && c.palworld.sudo
            &&& c.palworld.service == "palworld"@
            &&& c.palworld.players_command.len() == 0
            &&& c.palworld.ini_path
                == "/home/steam/palworld/Pal/Saved/Config/LinuxServer/PalWorldSettings.ini"@
        }),
{
}

/// A connection needs a host and a user.
pub proof fn a_connection_needs_both(cfg: ConfigView)
    ensures
        connectable(cfg) ==> cfg.ssh.host.len() > 0 && cfg.ssh.user.len() > 0,
{
    crate::chars::lemma_trimmed_start(cfg.ssh.host);
    crate::chars::lemma_trimmed_end(crate::chars::trimmed_start(cfg.ssh.host));
    crate::chars::lemma_trimmed_start(cfg.ssh.user);
    crate::chars::lemma_trimmed_end(crate::chars::trimmed_start(cfg.ssh.user));
}

/// In a home directory that is no verbatim path and does not end in what parts names, the
/// key is `id_ed25519` in `.ssh`; without a home directory there is no place for it.
pub proof fn the_key_is_in_the_home_directory(home: Seq<char>, path: Seq<char>)
    requires
        home.len() > 0,
        !verbatim(home) && home != seq!['\\', '\\', '?'],
        home.last() != '/' && home.last() != '\\' && home.last() != ':',
    ensures
        key_place(Some(home), path) ==> exists|a: Seq<char>, b: Seq<char>|
            (a == seq!['/'] || a == seq!['\\']) && (b == seq!['/'] || b == seq!['\\']) && path
                == #[trigger] (home + a + ".ssh"@ + b) + "id_ed25519"@,
        key_place(None, path) ==> path.len() == 0,
{
    if key_place(Some(home), path) {
        reveal_strlit(".ssh");
        let dir = choose|dir: Seq<char>|
            #[trigger] names_in(dir, home, ".ssh"@) && names_in(path, dir, "id_ed25519"@);
        let a = choose|sep: Seq<char>| #[trigger] parts_from(home, sep) && dir == home + sep
            + ".ssh"@;
        assert(dir.last() == 'h');
        assert(!verbatim(dir)) by {
            let mark = seq!['\\', '\\', '?', '\\'];
            if verbatim(dir) {
                let head = dir.take(4);
                assert(head == mark);
                assert(head[0] == dir[0] && head[1] == dir[1] && head[2] == dir[2]);
                if home.len() >= 4 {
                    assert(home.take(4) =~= head);
                } else if home.len() == 3 {
                    assert(home =~= seq!['\\', '\\', '?']);
                } else {
                    assert(home.last() == dir[home.len() - 1]);
                }
            }
        }
        let b = choose|sep: Seq<char>| #[trigger] parts_from(dir, sep) && path == dir + sep
            + "id_ed25519"@;
        assert(path == (home + a + ".ssh"@ + b) + "id_ed25519"@);
    }
}

// ---------------------------------------------------------------------------
// Files that cannot be read
// ---------------------------------------------------------------------------
/// A file is refused without a row that begins with `OptionSettings=`, and where the
/// first such row has no list in parentheses. Each is told in its own words.
pub proof fn files_without_settings_are_refused(text: Seq<char>, k: int, field: Seq<char>)
    requires
        0 <= k <= rows_of(text).len(),
        forall|i: int|
            0 <= i < k ==> !starts(trimmed_start(#[trigger] rows_of(text)[i]), "OptionSettings="@),
        k < rows_of(text).len() ==> starts(trimmed_start(rows_of(text)[k]), "OptionSettings="@),
    ensures
        k == rows_of(text).len() ==> read_ini(text) is Err && fault_text(read_ini(text)->Err_0)
            == "no `OptionSettings=(...)` line found in PalWorldSettings.ini"@,
        k < rows_of(text).len() && !rows_of(text)[k].contains('(') ==> read_ini(text) is Err
            && fault_text(read_ini(text)->Err_0) == "OptionSettings line has no opening `(`"@,
        k < rows_of(text).len() && rows_of(text)[k].contains('(') && !rows_of(text)[k].contains(
            ')',
        ) ==> read_ini(text) is Err && fault_text(read_ini(text)->Err_0)
            == "OptionSettings line has no closing `)`"@,
        read_ini(text) matches Ok(ini) ==> k < rows_of(text).len() && ini.option_line == k
            && ini.lines == rows_of(text),
        fault_text(IniFault::Malformed(field)) == "malformed OptionSettings entry: `"@ + field
            + "`"@,
{
    let rows = rows_of(text);
    assert forall|i: int| 0 <= i < k implies !is_option_line(#[trigger] rows[i]) by {
        assert(!starts(trimmed_start(rows_of(text)[i]), "OptionSettings="@));
    }
    crate::palworld::lemma_option_line_is(rows, k);
    if k < rows.len() {
        crate::chars::lemma_first_at(rows[k], '(');
        crate::chars::lemma_last_at(rows[k], ')');
    }
}

} // verus!
