//! What the user is shown is what the host told.
use crate::catalog::SpecView;
use crate::chars::{lines_of, padded};
use crate::config::{AuthView, ConfigView};
use crate::model::{
    as_double, bytes_text, double_gap, less, nearest, secs_text, MetricsView, PlayerView, Pm2View,
    ServiceView,
};
use crate::numbers::{decimal, digit};
use crate::palworld::{lookup, IniView};
use crate::probe::{host_lines, ini_lines, player_lines, pm2_line, service_line};
use crate::screen::{
    action_names, answered, app_row_of, apply_bar_of, asked_about, bar_item_of, by_password,
    change_lines_of, discarded, edits_of, first_tab_of, form_rows, gauges_of, load_text,
    log_tone_of, offline_lines_of, palworld_page_of, players_line_of, restart_warning_of,
    server_line_of, status_of, synced, unit_row_of, AppRowView, BarItemView, EditorView, LineView,
    PalworldPage, RowShown, Tab, Tone,
};
use crate::worker::{mem_share, ConnState, Level};
use vstd::arithmetic::div_mod::lemma_fundamental_div_mod;
use vstd::prelude::*;

verus! {

// ---------------------------------------------------------------------------
// Sizes and durations
// ---------------------------------------------------------------------------
/// A duration is told in hours and minutes, in minutes where it is under an hour, and in
/// seconds where it is under a minute.
pub proof fn durations_are_told(h: nat, m: nat, s: nat)
    requires
        m < 60,
        s < 60,
    ensures
        h > 0 ==> secs_text(3600 * h + 60 * m + s) == decimal(h) + "時間"@ + decimal(m) + "分"@,
        m > 0 ==> secs_text(60 * m + s) == decimal(m) + "分"@,
        secs_text(s) == decimal(s) + "秒"@,
{
    let n = 3600 * h + 60 * m + s;
    assert(n / 3600 == h && (n % 3600) / 60 == m);
}

/// `t` tenths of a unit are nearest to `n` bytes, and the even ones of two that are as
/// near. `slack` is what the rounding may miss, in twentieths of a byte.
pub open spec fn rounds(n: nat, unit: nat, t: nat, slack: int) -> bool {
    let off = 2 * (t * unit) - 20 * n;
    &&& -(unit + slack) <= off <= unit + slack
    &&& slack == 0 && (off == unit || off == -unit) ==> t % 2 == 0
}

/// `n` bytes are told with one decimal in a unit of that size and name.
pub open spec fn told_in(n: nat, unit: nat, name: Seq<char>, slack: int) -> bool {
    exists|t: nat|
        #[trigger] rounds(n, unit, t, slack) && bytes_text(n) == decimal(t / 10) + seq![
            '.',
            digit((t % 10) as int),
            ' ',
        ] + name
}

proof fn lemma_nearest(n: nat, d: nat)
    requires
        d > 0,
    ensures
        -d <= 2 * (nearest(n, d) * d) - 2 * n <= d,
        2 * (nearest(n, d) * d) - 2 * n == d || 2 * (nearest(n, d) * d) - 2 * n == -d ==> nearest(
            n,
            d,
        ) % 2 == 0,
{
    lemma_fundamental_div_mod(n as int, d as int);
    let q = n / d;
    let r = n % d;
    assert(n == d * q + r);
    assert(q * d == d * q) by (nonlinear_arith);
    assert((q + 1) * d == d * q + d) by (nonlinear_arith);
}

proof fn lemma_double(n: nat)
    requires
        n <= u64::MAX,
    ensures
        n < 0x20_0000_0000_0000 ==> as_double(n) == n,
        -1024 <= as_double(n) - n <= 1024,
{
    vstd::arithmetic::power2::lemma2_to64();
    lemma_gap(n, 12);
    lemma_nearest(n, double_gap(n));
    if n < 0x20_0000_0000_0000 {
        lemma_fundamental_div_mod(n as int, 1);
        assert(nearest(n, 1) == n);
    }
}

proof fn lemma_gap(n: nat, k: nat)
    requires
        k <= 12,
        n < 0x10_0000_0000_0000 * vstd::arithmetic::power2::pow2(k),
    ensures
        1 <= double_gap(n) <= 2048,
        k > 0 ==> double_gap(n) <= vstd::arithmetic::power2::pow2((k - 1) as nat),
    decreases k,
{
    vstd::arithmetic::power2::lemma2_to64();
    if n >= 0x20_0000_0000_0000 {
        if k >= 2 {
            vstd::arithmetic::power2::lemma_pow2_unfold(k);
            vstd::arithmetic::power2::lemma_pow2_unfold((k - 1) as nat);
            lemma_gap(n / 2, (k - 1) as nat);
        }
    }
    vstd::arithmetic::power2::lemma_pow2_pos((k - 1) as nat);
}

/// A size is told in bytes below 1024 of them, and otherwise with one decimal in the
/// largest unit that it is at least one of, to the nearest tenth. From 2^53 bytes on, a
/// size is as exact as a double-precision number.
pub proof fn sizes_are_rounded(n: nat)
    requires
        n <= u64::MAX,
    ensures
        n < 1024 ==> bytes_text(n) == decimal(n) + " B"@,
        1024 <= n < 0x10_0000 ==> told_in(n, 1024, "KB"@, 0),
        0x10_0000 <= n < 0x4000_0000 ==> told_in(n, 0x10_0000, "MB"@, 0),
        0x4000_0000 <= n < 0x100_0000_0000 ==> told_in(n, 0x4000_0000, "GB"@, 0),
        0x100_0000_0000 <= n < 0x20_0000_0000_0000 ==> told_in(n, 0x100_0000_0000, "TB"@, 0),
        n >= 0x20_0000_0000_0000 ==> told_in(n, 0x100_0000_0000, "TB"@, 20480),
{
    lemma_double(n);
    let v = as_double(n);
    if v >= 1024 {
        let (unit, name) = crate::model::size_unit(v);
        let t = nearest(10 * v, unit);
        lemma_nearest(10 * v, unit);
        let slack: int = if n < 0x20_0000_0000_0000 {
            0
        } else {
            20480
        };
        assert(rounds(n, unit, t, slack));
    }
}

/// What is used and what is free make the whole; where more is free than there is,
/// nothing is used.
pub proof fn used_and_free_make_the_whole(total: u64, free: u64)
    ensures
        free <= total ==> less(total, free) + free == total,
        free > total ==> less(total, free) == 0,
{
}

// ---------------------------------------------------------------------------
// The host
// ---------------------------------------------------------------------------
/// The gauges show what is used: of the memory and the swap all that is not free, and of
/// the disk what the host counts. Each tells the used part and the whole in words.
pub proof fn gauges_show_what_is_used(m: MetricsView)
    ensures
        ({
            let g = gauges_of(m);
            &&& g.len() == if m.swap_total > 0 {
                3int
            } else {
                2
            }
            &&& g[0].label == "メモリ"@
            &&& g[0].share.total == m.mem_total
            &&& m.mem_available <= m.mem_total ==> g[0].share.used + m.mem_available == m.mem_total
            &&& m.mem_available > m.mem_total ==> g[0].share.used == 0
            &&& g[1].label == "ディスク"@
            &&& g[1].share.total == m.disk_total
            &&& g[1].share.used == m.disk_used
            &&& m.swap_total > 0 ==> {
                &&& g[2].label == "スワップ"@
                &&& g[2].share.total == m.swap_total
                &&& m.swap_free <= m.swap_total ==> g[2].share.used + m.swap_free == m.swap_total
                &&& m.swap_free > m.swap_total ==> g[2].share.used == 0
            }
            &&& forall|i: int|
                0 <= i < g.len() ==> (#[trigger] g[i]).detail == bytes_text(g[i].share.used as nat)
                    + " / "@ + bytes_text(g[i].share.total as nat)
        }),
{
}

/// The samples behind the graphs hold the memory that is not free.
pub proof fn samples_show_what_is_used(m: MetricsView)
    ensures
        mem_share(m).total == m.mem_total,
        m.mem_available <= m.mem_total ==> mem_share(m).used + m.mem_available == m.mem_total,
        m.mem_available > m.mem_total ==> mem_share(m).used == 0,
{
}

/// The report tells the host as it is: its name and uptime, its cores and load, and of
/// memory and disk what is used and the whole.
pub proof fn the_report_tells_what_is_used(
    m: MetricsView,
    cpu: Seq<char>,
    load: Seq<char>,
    mem: Seq<char>,
    disk: Seq<char>,
    used: nat,
)
    requires
        used + m.mem_available == m.mem_total,
    ensures
        host_lines(m, cpu, load, mem, disk) == seq![
            "host      "@ + m.hostname + " ("@ + m.uptime + ")"@,
            "cpu       "@ + cpu + "%  ("@ + decimal(m.cores as nat) + " cores, load "@ + load + ")"@,
            "memory    "@ + bytes_text(used) + " / "@ + bytes_text(m.mem_total as nat) + "  (" @ + mem
                + "%)"@,
            "disk      "@ + bytes_text(m.disk_used as nat) + " / "@ + bytes_text(
                m.disk_total as nat,
            ) + "  ("@ + disk + "%)"@,
        ],
{
}

/// The three load averages are told from the shortest to the longest, with the cores.
pub proof fn the_load_is_told_in_order(a: Seq<char>, b: Seq<char>, c: Seq<char>, cores: nat)
    ensures
        load_text(a, b, c, cores) == "load "@ + a + " / "@ + b + " / "@ + c + "  ("@ + decimal(cores)
            + " コア)"@,
{
}

// ---------------------------------------------------------------------------
// The session
// ---------------------------------------------------------------------------
/// The top bar tells the state of the session: good over one, of a failure its first
/// line.
pub proof fn the_bar_tells_the_session(why: Seq<char>)
    ensures
        status_of(ConnState::Connected) == (LineView { tone: Tone::Good, text: "● 接続中"@ }),
        status_of(ConnState::Connecting) == (LineView {
            tone: Tone::Warn,
            text: "◐ 接続しています…"@,
        }),
        status_of(ConnState::Disconnected) == (LineView { tone: Tone::Dim, text: "○ 未接続"@ }),
        status_of(ConnState::Failed(why)) == (LineView {
            tone: Tone::Bad,
            text: "● 失敗: "@ + if lines_of(why).len() > 0 {
                lines_of(why)[0]
            } else {
                why
            },
        }),
{
}

/// Over a session nothing stands in place of the host. Without one a notice does, and
/// the whole reason behind it where there is one.
pub proof fn no_session_is_told(conn: ConnState)
    ensures
        conn is Connected <==> offline_lines_of(conn).len() == 0,
        !(conn is Connected) ==> offline_lines_of(conn)[0] == (LineView {
            tone: Tone::Dim,
            text: "VPS に接続していません"@,
        }),
        conn matches ConnState::Failed(why) ==> offline_lines_of(conn).len() == 2
            && offline_lines_of(conn)[1] == (LineView { tone: Tone::Bad, text: why }),
        !(conn is Failed) ==> offline_lines_of(conn).len() <= 1,
{
}

/// A host and a user are filled in: neither is white space alone.
pub open spec fn filled_in(cfg: ConfigView) -> bool {
    &&& exists|i: int| 0 <= i < cfg.ssh.host.len() && !crate::chars::white(#[trigger] cfg.ssh.host[i])
    &&& exists|i: int| 0 <= i < cfg.ssh.user.len() && !crate::chars::white(#[trigger] cfg.ssh.user[i])
}

proof fn lemma_filled_in(s: Seq<char>)
    ensures
        crate::chars::trimmed(s).len() > 0 <==> exists|i: int|
            0 <= i < s.len() && !crate::chars::white(#[trigger] s[i]),
{
    crate::chars::lemma_trimmed_start(s);
    let n = crate::chars::white_prefix(s) as int;
    let t = crate::chars::trimmed_start(s);
    crate::chars::lemma_trimmed_end(t);
    if n < s.len() {
        assert(!crate::chars::white(s[n]));
        assert(t[0] == s[n]);
    }
}

/// The program opens on the overview where a host and a user are filled in, and on the
/// settings where not; saving them connects exactly then.
pub proof fn a_host_must_be_filled_in(cfg: ConfigView, path: Seq<char>, why: Seq<char>)
    ensures
        filled_in(cfg) <==> first_tab_of(cfg) == Tab::Overview,
        !filled_in(cfg) <==> first_tab_of(cfg) == Tab::Settings,
        crate::screen::after_save_of(cfg, Ok(path)) == ("保存しました: "@ + path, filled_in(cfg)),
        crate::screen::after_save_of(cfg, Err(why)) == ("保存に失敗: "@ + why, false),
{
    lemma_filled_in(cfg.ssh.host);
    lemma_filled_in(cfg.ssh.user);
}

/// While something is in flight the top bar tells it and offers nothing. Otherwise it
/// offers to refresh over a session, and to connect where there is none and a host and
/// a user are filled in.
pub proof fn the_bar_offers_what_can_be_done(
    conn: ConnState,
    busy: Option<Seq<char>>,
    cfg: ConfigView,
)
    ensures
        busy matches Some(text) ==> bar_item_of(conn, busy, cfg) == BarItemView::Busy(text),
        busy is None && conn is Connected ==> bar_item_of(conn, busy, cfg) is Refresh,
        busy is None && !(conn is Connected) && filled_in(cfg) ==> bar_item_of(
            conn,
            busy,
            cfg,
        ) is Connect,
        busy is None && !(conn is Connected) && !filled_in(cfg) ==> bar_item_of(
            conn,
            busy,
            cfg,
        ) is Nothing,
{
    lemma_filled_in(cfg.ssh.host);
    lemma_filled_in(cfg.ssh.user);
}

/// Failures are told in the colour of what is bad, successes in that of what is good.
pub proof fn the_log_is_coloured(level: Level)
    ensures
        log_tone_of(level) == Tone::Bad <==> level == Level::Error,
        log_tone_of(level) == Tone::Good <==> level == Level::Success,
        log_tone_of(level) == Tone::Warn <==> level == Level::Warn,
        log_tone_of(level) == Tone::Dim <==> level == Level::Info,
{
}

/// A login that is changed to a password keeps the password in use, and has none yet
/// where a key was used.
pub proof fn a_password_in_use_stays(auth: AuthView)
    ensures
        by_password(auth) is Password,
        auth is Password ==> by_password(auth) == auth,
        auth is Key ==> by_password(auth)->password == ""@,
{
}

// ---------------------------------------------------------------------------
// Units and apps
// ---------------------------------------------------------------------------
/// A unit has a dot where the host says that it is active, and a ring whatever else the
/// host says. Its name and its state are told as they are, and its buttons work unless
/// something is in flight.
pub proof fn units_are_marked_by_their_state(s: ServiceView, busy: bool)
    ensures
        ({
            let row = unit_row_of(s, busy);
            &&& s.state == "active"@ ==> row.mark == (LineView { tone: Tone::Good, text: "●"@ })
            &&& s.state != "active"@ ==> row.mark == (LineView { tone: Tone::Bad, text: "○"@ })
            &&& row.name == s.name
            &&& row.state == s.state
            &&& row.enabled <==> !busy
        }),
        service_line(s) == "  "@ + padded(s.name, 14) + " "@ + s.state,
{
}

/// A unit can be started, stopped and restarted.
pub proof fn units_can_be_acted_on()
    ensures
        action_names() == seq!["start"@, "stop"@, "restart"@],
{
}

/// An app has a dot where PM2 says that it is online, and a ring otherwise. Its name,
/// its CPU reading, its memory and its restarts are told as they are.
pub proof fn apps_are_marked_by_their_status(a: Pm2View)
    ensures
        app_row_of(a) == (AppRowView {
            mark: if a.status == "online"@ {
                LineView { tone: Tone::Good, text: "●"@ }
            } else {
                LineView { tone: Tone::Bad, text: "○"@ }
            },
            name: a.name,
            cpu_bits: a.cpu_bits,
            memory: bytes_text(a.memory as nat),
            restarts: decimal(a.restarts as nat),
        }),
        pm2_line(a) == "  "@ + padded(a.name, 26) + " "@ + padded(a.status, 8) + " "@ + bytes_text(
            a.memory as nat,
        ),
{
}

/// Filling up to a width keeps the text in front and adds blanks only, as many as it
/// takes.
pub proof fn filling_up_keeps_the_text(s: Seq<char>, width: nat)
    ensures
        padded(s, width).len() == if s.len() < width {
            width
        } else {
            s.len()
        },
        padded(s, width).take(s.len() as int) == s,
        forall|i: int| s.len() <= i < padded(s, width).len() ==> #[trigger] padded(s, width)[i] == ' ',
{
    assert(padded(s, width).take(s.len() as int) =~= s);
}

// ---------------------------------------------------------------------------
// The server
// ---------------------------------------------------------------------------
/// The server is shown as running exactly where a unit of its name is listed as active:
/// one that failed, that is only starting, or that nothing is known of, has stopped.
pub proof fn only_an_active_server_runs(services: Seq<ServiceView>, service: Seq<char>)
    ensures
        (exists|i: int|
            0 <= i < services.len() && (#[trigger] services[i]).name == service && services[i].state
                == "active"@) ==> server_line_of(services, service) == (LineView {
            tone: Tone::Good,
            text: "● 稼働中"@,
        }),
        (forall|i: int|
            0 <= i < services.len() && (#[trigger] services[i]).name == service
                ==> services[i].state != "active"@) ==> server_line_of(services, service) == (
        LineView { tone: Tone::Bad, text: "○ 停止中"@ }),
{
}

/// The screen counts the players. Without any, nobody is disconnected by a restart; with
/// some, a restart is warned of.
pub proof fn players_are_counted(p: Seq<PlayerView>)
    ensures
        p.len() > 0 ==> players_line_of(Some(p)) == (LineView {
            tone: Tone::Warn,
            text: decimal(p.len()) + " 人がプレイ中"@,
        }),
        p.len() > 0 ==> restart_warning_of(Some(p)) == (LineView {
            tone: Tone::Bad,
            text: "⚠ "@ + decimal(p.len()) + " 人がプレイ中です。再起動すると全員が切断されます。"@,
        }),
        p.len() == 0 ==> players_line_of(Some(p)) == (LineView {
            tone: Tone::Dim,
            text: "オンラインのプレイヤーはいません（今なら誰も切断せずに再起動できます）"@,
        }),
        p.len() == 0 ==> restart_warning_of(Some(p)).tone == Tone::Good,
        restart_warning_of(None) == (LineView {
            tone: Tone::Good,
            text: "オンラインのプレイヤーはいません。誰も切断されません。"@,
        }),
        players_line_of(None) == (LineView {
            tone: Tone::Dim,
            text: "プレイヤー情報なし（サーバー停止中、または RCON コマンド未設定）"@,
        }),
        p.len() == 0 ==> restart_warning_of(Some(p)) == restart_warning_of(None),
        p.len() == 0 ==> player_lines(p) == seq!["  no players online"@],
        p.len() > 0 ==> player_lines(p).len() == p.len() && forall|i: int|
            0 <= i < p.len() ==> #[trigger] player_lines(p)[i] == "    "@ + p[i].name + " ("@
                + p[i].steamid + ")"@,
{
}

/// The settings are editable where the integration is enabled, the server has told its
/// file, and there is a copy of it.
pub proof fn the_form_needs_a_file(enabled: bool, ini: Option<IniView>, editor: EditorView)
    ensures
        palworld_page_of(enabled, ini, editor) == PalworldPage::Disabled <==> !enabled,
        palworld_page_of(enabled, ini, editor) == PalworldPage::Unreadable <==> enabled && ini is None,
        palworld_page_of(enabled, ini, editor) == PalworldPage::Nothing <==> enabled && ini is Some
            && editor.edit is None,
        palworld_page_of(enabled, ini, editor) == PalworldPage::Form <==> enabled && ini is Some
            && editor.edit is Some,
{
}

// ---------------------------------------------------------------------------
// The form
// ---------------------------------------------------------------------------
/// The form has a row for each setting of the group that the file has, and for no other,
/// marked where it is among the changes.
pub proof fn the_form_has_what_the_file_has(
    specs: Seq<SpecView>,
    options: Seq<(Seq<char>, Seq<char>)>,
    changes: Seq<(Seq<char>, Seq<char>)>,
    row: RowShown,
)
    ensures
        form_rows(specs, options, changes).contains(row) <==> {
            &&& specs.contains(row.spec)
            &&& exists|i: int| 0 <= i < options.len() && (#[trigger] options[i]).0 == row.spec.key
            &&& row.dirty <==> exists|i: int|
                0 <= i < changes.len() && (#[trigger] changes[i]).0 == row.spec.key
        },
    decreases specs.len(),
{
    let rows = form_rows(specs, options, changes);
    crate::palworld::lemma_key_at(options, row.spec.key);
    if specs.len() > 0 {
        let t = specs.drop_first();
        let rest = form_rows(t, options, changes);
        the_form_has_what_the_file_has(t, options, changes, row);
        assert(specs.contains(row.spec) <==> specs[0] == row.spec || t.contains(row.spec)) by {
            if t.contains(row.spec) {
                let i = choose|i: int| 0 <= i < t.len() && t[i] == row.spec;
                assert(specs[i + 1] == row.spec);
            }
            if specs.contains(row.spec) && specs[0] != row.spec {
                let i = choose|i: int| 0 <= i < specs.len() && specs[i] == row.spec;
                assert(t[i - 1] == row.spec);
            }
        }
        if lookup(options, specs[0].key) is Some {
            let one = rows[0];
            assert(rows =~= seq![one] + rest);
            assert(rows.contains(row) <==> one == row || rest.contains(row)) by {
                if rest.contains(row) {
                    let i = choose|i: int| 0 <= i < rest.len() && rest[i] == row;
                    assert(rows[i + 1] == row);
                }
                if rows.contains(row) && one != row {
                    let i = choose|i: int| 0 <= i < rows.len() && rows[i] == row;
                    assert(rest[i - 1] == row);
                }
            }
            assert(one.spec == specs[0]);
            assert(one == row ==> one.spec == row.spec);
        }
    }
}

/// Edits can be discarded where there are any, and applied where nothing is in flight
/// besides. They are counted.
pub proof fn edits_can_be_applied_when_idle(edits: nat, busy: bool)
    ensures
        apply_bar_of(edits, busy).can_apply <==> edits > 0 && !busy,
        apply_bar_of(edits, busy).can_discard <==> edits > 0,
        edits > 0 ==> apply_bar_of(edits, busy).line == (LineView {
            tone: Tone::Warn,
            text: decimal(edits) + " 件の変更"@,
        }),
        edits == 0 ==> apply_bar_of(edits, busy).line == (LineView {
            tone: Tone::Dim,
            text: "変更はありません"@,
        }),
{
}

/// The user is told every change, its key and its value, in order.
pub proof fn every_change_is_told(changes: Seq<(Seq<char>, Seq<char>)>, i: int)
    requires
        0 <= i < changes.len(),
    ensures
        change_lines_of(changes).len() == changes.len(),
        change_lines_of(changes)[i] == "  "@ + changes[i].0 + " = "@ + changes[i].1,
{
}

/// The changes that the user was asked about are applied where the answer is yes, and
/// nothing is where it is no; the copy being edited stays, and the question is gone.
pub proof fn asking_and_answering(
    editor: EditorView,
    changes: Seq<(Seq<char>, Seq<char>)>,
    yes: bool,
)
    ensures
        ({
            let asked = asked_about(editor, changes);
            let (after, apply) = answered(asked, yes);
            &&& asked.edit == editor.edit
            &&& after.edit == editor.edit
            &&& after.seen_revision == editor.seen_revision
            &&& after.confirm is None
            &&& yes ==> apply == Some(changes)
            &&& !yes ==> apply is None
        }),
{
}

/// A copy of the settings is taken anew where the revision is another, and left alone
/// where it is the same. Discarding takes it anew at any time. Neither touches what the
/// user is being asked.
pub proof fn copies_are_taken_anew(editor: EditorView, revision: u64, ini: Option<IniView>)
    ensures
        revision == editor.seen_revision ==> synced(editor, revision, ini) == editor,
        revision != editor.seen_revision ==> synced(editor, revision, ini).edit == ini,
        synced(editor, revision, ini).seen_revision == revision,
        synced(editor, revision, ini).confirm == editor.confirm,
        discarded(editor, ini).edit == ini,
        discarded(editor, ini).seen_revision == editor.seen_revision,
        discarded(editor, ini).confirm == editor.confirm,
{
}

/// Right after the server's copy was taken nothing counts as edited.
pub proof fn a_fresh_copy_is_no_edit(editor: EditorView, ini: IniView)
    requires
        crate::laws::distinct_keys(ini.options),
    ensures
        edits_of(discarded(editor, Some(ini)), ini.options) == Seq::<(Seq<char>, Seq<char>)>::empty(),
{
    crate::laws::no_edit_no_change(ini.options);
}

/// The report counts the settings and tells some of them by name, as they stand in the
/// file.
pub proof fn settings_are_reported(options: Seq<(Seq<char>, Seq<char>)>, key: Seq<char>)
    ensures
        ini_lines(options).len() == 5,
        ini_lines(options)[0] == "  "@ + decimal(options.len()) + " settings parsed"@,
        key == "ExpRate"@ ==> ini_lines(options)[1] == crate::probe::setting_line(options, key),
        key == "CollectionDropRate"@ ==> ini_lines(options)[2] == crate::probe::setting_line(
            options,
            key,
        ),
        key == "EnemyDropItemRate"@ ==> ini_lines(options)[3] == crate::probe::setting_line(
            options,
            key,
        ),
        key == "ServerName"@ ==> ini_lines(options)[4] == crate::probe::setting_line(options, key),
        crate::probe::setting_line(options, key) == "    "@ + padded(key, 20) + " "@ + (match lookup(
            options,
            key,
        ) {
            Some(v) => v,
            None => "(absent)"@,
        }),
{
}

// ---------------------------------------------------------------------------
// Notices and lists
// ---------------------------------------------------------------------------
/// Notices tell what they are about.
pub proof fn notices_tell_the_reason(why: Seq<char>, path: Seq<char>)
    ensures
        crate::screen::load_notice_of(why) == "設定の読み込みに失敗: "@ + why,
        crate::screen::font_line_of(Some(path)) == "日本語フォント: "@ + path,
        crate::screen::font_line_of(None)
            == "日本語フォントが見つかりません（日本語が □ で表示されます）"@,
{
}

/// A unit that is added comes last and has no name yet; one that is removed leaves the
/// others in their order.
pub proof fn units_are_added_and_removed(services: Seq<Seq<char>>, i: int, j: int)
    requires
        0 <= i < services.len(),
        0 <= j < services.len(),
    ensures
        ({
            let more = crate::screen::with_one_more(services);
            let less = crate::screen::with_one_less(services, i);
            &&& more.len() == services.len() + 1
            &&& more.last() == ""@
            &&& more[j] == services[j]
            &&& less.len() == services.len() - 1
            &&& j < i ==> less[j] == services[j]
            &&& j > i ==> less[j - 1] == services[j]
        }),
{
}

/// The kernel's threads are the children of the process 2, which is one of them.
pub proof fn kernel_threads_are_told(p: crate::model::ProcView)
    ensures
        crate::model::of_the_kernel(p) <==> p.ppid == 2 || p.pid == 2,
{
}

/// The form has the groups in their order, each under its title, and the rows of a group
/// in the order of its settings: those of the first settings, and then those of the
/// others.
pub proof fn the_form_keeps_the_order(
    first: Seq<SpecView>,
    rest: Seq<SpecView>,
    options: Seq<(Seq<char>, Seq<char>)>,
    changes: Seq<(Seq<char>, Seq<char>)>,
    g: int,
)
    requires
        0 <= g < crate::catalog::group_table().len(),
    ensures
        crate::screen::form_of(options, changes).len() == crate::catalog::group_table().len(),
        crate::screen::form_of(options, changes)[g].title == crate::catalog::group_table()[g].title,
        crate::screen::form_of(options, changes)[g].rows == form_rows(
            crate::catalog::group_table()[g].specs,
            options,
            changes,
        ),
        form_rows(first + rest, options, changes) == form_rows(first, options, changes) + form_rows(
            rest,
            options,
            changes,
        ),
{
    lemma_form_rows(first, rest, options, changes);
}

proof fn lemma_form_rows(
    first: Seq<SpecView>,
    rest: Seq<SpecView>,
    options: Seq<(Seq<char>, Seq<char>)>,
    changes: Seq<(Seq<char>, Seq<char>)>,
)
    ensures
        form_rows(first + rest, options, changes) == form_rows(first, options, changes) + form_rows(
            rest,
            options,
            changes,
        ),
    decreases first.len(),
{
    if first.len() == 0 {
        assert(first + rest =~= rest);
        assert(form_rows(first, options, changes) + form_rows(rest, options, changes) =~= form_rows(
            rest,
            options,
            changes,
        ));
    } else {
        lemma_form_rows(first.drop_first(), rest, options, changes);
        assert((first + rest).drop_first() =~= first.drop_first() + rest);
        assert(form_rows(first + rest, options, changes) =~= form_rows(first, options, changes)
            + form_rows(rest, options, changes));
    }
}

/// A login that is changed to a key keeps the key in use; from a password it changes to
/// the usual key, without a passphrase.
pub proof fn a_key_in_use_stays(before: AuthView, after: AuthView)
    requires
        crate::screen::is_by_key(before, after),
    ensures
        after is Key,
        before is Key ==> after == before,
        before is Password ==> after->passphrase.len() == 0 && crate::config::usual_key_path(
            after->path,
        ),
{
}

/// The lists have a row for each unit and each app, in order.
pub proof fn every_unit_and_app_has_its_row(
    services: Seq<ServiceView>,
    apps: Seq<Pm2View>,
    busy: bool,
    i: int,
)
    ensures
        crate::screen::unit_rows_of(services, busy).len() == services.len(),
        0 <= i < services.len() ==> crate::screen::unit_rows_of(services, busy)[i] == unit_row_of(
            services[i],
            busy,
        ),
        crate::screen::app_rows_of(apps).len() == apps.len(),
        0 <= i < apps.len() ==> crate::screen::app_rows_of(apps)[i] == app_row_of(apps[i]),
{
}

} // verus!
