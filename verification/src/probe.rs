//! The headless report: the lines that tell what the screens would show. Percentages and
//! the load come as the texts they are printed as.
use crate::chars::{pad, padded, texts};
use crate::model::{
    bytes_text, human_bytes, less, player_views, Metrics, MetricsView, Player, PlayerView, Pm2App,
    Pm2View, ServiceStatus, ServiceView,
};
use crate::numbers::{decimal, decimal_text};
use crate::palworld::{lookup, PalIni};
use vstd::prelude::*;

verus! {

/// A name, and a part of a whole in bytes and per cent.
pub open spec fn share_line(name: Seq<char>, used: u64, total: u64, percent: Seq<char>) -> Seq<
    char,
> {
    name + bytes_text(used as nat) + " / "@ + bytes_text(total as nat) + "  ("@ + percent + "%)"@
}

/// The readings of the host.
pub open spec fn host_lines(
    m: MetricsView,
    cpu: Seq<char>,
    load: Seq<char>,
    mem: Seq<char>,
    disk: Seq<char>,
) -> Seq<Seq<char>> {
    seq![
        "host      "@ + m.hostname + " ("@ + m.uptime + ")"@,
        "cpu       "@ + cpu + "%  ("@ + decimal(m.cores as nat) + " cores, load "@ + load + ")"@,
        share_line("memory    "@, less(m.mem_total, m.mem_available), m.mem_total, mem),
        share_line("disk      "@, m.disk_used, m.disk_total, disk),
    ]
}

fn share_text(name: &str, used: u64, total: u64, percent: &str) -> (r: String)
    ensures
        r@ == share_line(name@, used, total, percent@),
{
    let mut out = name.to_owned();
    out.append(human_bytes(used).as_str());
    out.append(" / ");
    out.append(human_bytes(total).as_str());
    out.append("  (");
    out.append(percent);
    out.append("%)");
    out
}

/// The readings of the host: `cpu`, `mem` and `disk` in per cent, and the load over the
/// last minute.
pub fn host_report(m: &Metrics, cpu: &str, load: &str, mem: &str, disk: &str) -> (r: Vec<String>)
    ensures
        texts(r@) == host_lines(m@, cpu@, load@, mem@, disk@),
{
    let mut host = "host      ".to_owned();
    host.append(m.hostname.as_str());
    host.append(" (");
    host.append(m.uptime.as_str());
    host.append(")");
    let mut busy = "cpu       ".to_owned();
    busy.append(cpu);
    busy.append("%  (");
    busy.append(decimal_text(m.cores as u64).as_str());
    busy.append(" cores, load ");
    busy.append(load);
    busy.append(")");
    let r = vec![
        host,
        busy,
        share_text("memory    ", m.mem_used(), m.mem_total, mem),
        share_text("disk      ", m.disk_used, m.disk_total, disk),
    ];
    assert(texts(r@) =~= host_lines(m@, cpu@, load@, mem@, disk@));
    r
}

/// A unit and its state, in columns.
pub open spec fn service_line(s: ServiceView) -> Seq<char> {
    "  "@ + padded(s.name, 14) + " "@ + s.state
}

/// A unit and its state, in columns.
pub fn service_report(s: &ServiceStatus) -> (r: String)
    ensures
        r@ == service_line(s@),
{
    let mut out = "  ".to_owned();
    out.append(pad(s.name.as_str(), 14).as_str());
    out.append(" ");
    out.append(s.state.as_str());
    out
}

/// An app with its state and memory, in columns.
pub open spec fn pm2_line(a: Pm2View) -> Seq<char> {
    "  "@ + padded(a.name, 26) + " "@ + padded(a.status, 8) + " "@ + bytes_text(a.memory as nat)
}

/// An app with its state and memory, in columns.
pub fn pm2_report(a: &Pm2App) -> (r: String)
    ensures
        r@ == pm2_line(a@),
{
    let mut out = "  ".to_owned();
    out.append(pad(a.name.as_str(), 26).as_str());
    out.append(" ");
    out.append(pad(a.status.as_str(), 8).as_str());
    out.append(" ");
    out.append(human_bytes(a.memory).as_str());
    out
}

/// A setting, in columns.
pub open spec fn setting_line(options: Seq<(Seq<char>, Seq<char>)>, key: Seq<char>) -> Seq<char> {
    "    "@ + padded(key, 20) + " "@ + (match lookup(options, key) {
        Some(v) => v,
        None => "(absent)"@,
    })
}

/// How many settings there are, and some of them.
pub open spec fn ini_lines(options: Seq<(Seq<char>, Seq<char>)>) -> Seq<Seq<char>> {
    seq![
        "  "@ + decimal(options.len()) + " settings parsed"@,
        setting_line(options, "ExpRate"@),
        setting_line(options, "CollectionDropRate"@),
        setting_line(options, "EnemyDropItemRate"@),
        setting_line(options, "ServerName"@),
    ]
}

fn setting_text(ini: &PalIni, key: &str) -> (r: String)
    ensures
        r@ == setting_line(ini@.options, key@),
{
    let mut out = "    ".to_owned();
    out.append(pad(key, 20).as_str());
    out.append(" ");
    match ini.get(key) {
        Some(v) => {
            out.append(v);
        },
        None => {
            out.append("(absent)");
        },
    }
    out
}

/// How many settings there are, and some of them.
pub fn ini_report(ini: &PalIni) -> (r: Vec<String>)
    ensures
        texts(r@) == ini_lines(ini@.options),
{
    let all = ini.options();
    assert(ini@.options.len() == all@.len());
    let mut count = "  ".to_owned();
    count.append(decimal_text(all.len() as u64).as_str());
    count.append(" settings parsed");
    let r = vec![
        count,
        setting_text(ini, "ExpRate"),
        setting_text(ini, "CollectionDropRate"),
        setting_text(ini, "EnemyDropItemRate"),
        setting_text(ini, "ServerName"),
    ];
    assert(texts(r@) =~= ini_lines(ini@.options));
    r
}

/// Who plays.
pub open spec fn player_lines(players: Seq<PlayerView>) -> Seq<Seq<char>> {
    if players.len() == 0 {
        seq!["  no players online"@]
    } else {
        players.map_values(|p: PlayerView| "    "@ + p.name + " ("@ + p.steamid + ")"@)
    }
}

/// Who plays.
pub fn players_report(players: &Vec<Player>) -> (r: Vec<String>)
    ensures
        texts(r@) == player_lines(player_views(players@)),
{
    let ghost want = player_lines(player_views(players@));
    if players.len() == 0 {
        let r = vec!["  no players online".to_owned()];
        assert(texts(r@) =~= want);
        return r;
    }
    let mut out: Vec<String> = Vec::new();
    let mut i: usize = 0;
    while i < players.len()
        invariant
            i <= players.len(),
            players@.len() > 0,
            want == player_lines(player_views(players@)),
            out@.len() == i,
            forall|j: int| 0 <= j < i ==> #[trigger] out@[j]@ == want[j],
        decreases players.len() - i,
    {
        let mut text = "    ".to_owned();
        text.append(players[i].name.as_str());
        text.append(" (");
        text.append(players[i].steamid.as_str());
        text.append(")");
        assert(text@ =~= want[i as int]);
        out.push(text);
        i += 1;
    }
    assert(texts(out@) =~= want);
    out
}

} // verus!
