use vwatch::config::{Auth, Config};
use vwatch::model::{Metrics, Player, Pm2App, ServiceStatus, Share};
use vwatch::palworld::PalIni;
use vwatch::screen::{
    add_service, after_save, app_rows, apply_bar, bar_item, change_lines, changes_key, first_line, first_tab,
    font_line, form, gauges, load_line, load_notice, log_tone, mark, offline_lines, palworld_page, players_line,
    remove_service, restart_warning, server_line, status, unit_actions, unit_rows, use_key, use_password,
    BarItem, Editor, PalworldPage, Tab, Tone,
};
use vwatch::worker::{Conn, Level};

fn config() -> Config {
    let mut cfg = Config::first("/k".to_owned());
    cfg.ssh.host = "h".to_owned();
    cfg.ssh.user = "u".to_owned();
    cfg
}

fn players(n: usize) -> Option<Vec<Player>> {
    let one = Player { name: "a".to_owned(), playeruid: String::new(), steamid: String::new() };
    Some(vec![one; n])
}

fn changes() -> Vec<(String, String)> {
    vec![("ExpRate".to_owned(), "2".to_owned())]
}

#[test]
fn the_settings_open_where_no_host_is_configured() {
    assert_eq!(first_tab(&Config::first(String::new())), Tab::Settings);
    assert_eq!(first_tab(&config()), Tab::Overview);
}

#[test]
fn the_top_bar_tells_the_state() {
    let s = |c: Conn| {
        let l = status(&c);
        (l.tone, l.text)
    };
    assert_eq!(s(Conn::Connected), (Tone::Good, "● 接続中".to_owned()));
    assert_eq!(s(Conn::Connecting), (Tone::Warn, "◐ 接続しています…".to_owned()));
    assert_eq!(s(Conn::Disconnected), (Tone::Dim, "○ 未接続".to_owned()));
    assert_eq!(
        s(Conn::Failed("a\r\nb".to_owned())),
        (Tone::Bad, "● 失敗: a".to_owned())
    );
    assert_eq!(first_line(""), "");
    assert_eq!(first_line("\nx"), "");
}

#[test]
fn the_top_bar_offers_what_can_be_done() {
    let cfg = config();
    assert!(matches!(bar_item(&Conn::Connected, &None, &cfg), BarItem::Refresh));
    assert!(matches!(bar_item(&Conn::Disconnected, &None, &cfg), BarItem::Connect));
    let none = Config::first(String::new());
    assert!(matches!(bar_item(&Conn::Disconnected, &None, &none), BarItem::Nothing));
    let busy = Some("x".to_owned());
    assert!(matches!(bar_item(&Conn::Connected, &busy, &cfg), BarItem::Busy(t) if t == "x"));
}

#[test]
fn swap_is_shown_where_there_is_any() {
    let mut m = Metrics { mem_total: 2048, mem_available: 1024, disk_total: 10, disk_used: 3, ..Metrics::default() };
    let all = gauges(&m);
    assert_eq!(all.len(), 2);
    assert_eq!((all[0].label, all[0].detail.as_str()), ("メモリ", "1.0 KB / 2.0 KB"));
    assert_eq!((all[1].label, all[1].detail.as_str()), ("ディスク", "3 B / 10 B"));
    assert_eq!(all[1].share, Share { used: 3, total: 10 });
    m.swap_total = 4;
    m.swap_free = 1;
    let all = gauges(&m);
    assert_eq!((all[2].label, all[2].detail.as_str()), ("スワップ", "3 B / 4 B"));
}

#[test]
fn lines_have_their_colours() {
    assert_eq!((mark(true).tone, mark(true).text.as_str()), (Tone::Good, "●"));
    assert_eq!((mark(false).tone, mark(false).text.as_str()), (Tone::Bad, "○"));
    assert_eq!(unit_actions(), ["start", "stop", "restart"]);
    let tones = [Level::Info, Level::Success, Level::Warn, Level::Error].map(log_tone);
    assert_eq!(tones, [Tone::Dim, Tone::Good, Tone::Warn, Tone::Bad]);
}

#[test]
fn the_server_is_up_where_its_unit_is_active() {
    let s = |name: &str, state: &str| ServiceStatus { name: name.to_owned(), state: state.to_owned() };
    let units = vec![s("a", "active"), s("palworld", "inactive")];
    assert_eq!(server_line(&units, "palworld").text, "○ 停止中");
    assert_eq!(server_line(&units, "a").text, "● 稼働中");
    assert_eq!(server_line(&units, "b").tone, Tone::Bad);
}

#[test]
fn players_are_counted() {
    assert_eq!(players_line(&players(3)).text, "3 人がプレイ中");
    assert!(players_line(&players(0)).text.starts_with("オンラインのプレイヤーはいません"));
    assert!(players_line(&None).text.starts_with("プレイヤー情報なし"));
    let w = restart_warning(&players(2));
    assert_eq!(
        (w.tone, w.text.as_str()),
        (Tone::Bad, "⚠ 2 人がプレイ中です。再起動すると全員が切断されます。")
    );
    assert_eq!(restart_warning(&None).tone, Tone::Good);
    assert_eq!(restart_warning(&players(0)).tone, Tone::Good);
}

#[test]
fn the_form_shows_what_the_file_has() {
    let edit = PalIni::parse("OptionSettings=(ExpRate=1,Unknown=2,bIsPvP=True)").unwrap();
    let all = form(&edit, &changes());
    assert_eq!(all.len(), 12);
    let rows: Vec<_> = all
        .iter()
        .flat_map(|g| g.rows.iter().map(|r| (g.title, r.spec.key, r.dirty)))
        .collect();
    assert_eq!(rows.len(), 2);
    assert!(rows.contains(&("レート", "ExpRate", true)));
    assert!(rows.iter().any(|r| r.1 == "bIsPvP" && !r.2));
    assert!(changes_key(&changes(), "ExpRate"));
    assert!(!changes_key(&changes(), "Exp"));
}

#[test]
fn edits_can_be_applied_when_nothing_is_in_flight() {
    let none = Vec::new();
    let b = apply_bar(&changes(), false);
    assert!(b.can_apply && b.can_discard);
    assert_eq!(b.line.text, "1 件の変更");
    let b = apply_bar(&changes(), true);
    assert!(!b.can_apply && b.can_discard);
    let b = apply_bar(&none, false);
    assert!(!b.can_apply && !b.can_discard);
    assert_eq!(b.line.text, "変更はありません");
    assert_eq!(change_lines(&changes()), ["  ExpRate = 2"]);
}

#[test]
fn a_refresh_does_not_clobber_an_edit() {
    let first = Some(PalIni::parse("OptionSettings=(A=1)").unwrap());
    let second = Some(PalIni::parse("OptionSettings=(A=2)").unwrap());
    let mut e = Editor::new();
    e.sync(0, &first);
    assert!(e.edit.is_none());
    assert!(e.changes(first.as_ref().unwrap()).is_empty());
    e.sync(1, &first);
    e.edit.as_mut().unwrap().set("A", "9");
    e.sync(1, &second);
    assert_eq!(e.edit.as_ref().unwrap().get("A"), Some("9"));
    assert_eq!(e.changes(first.as_ref().unwrap()), [("A".to_owned(), "9".to_owned())]);
    e.sync(2, &second);
    assert_eq!(e.edit.as_ref().unwrap().get("A"), Some("2"));
    e.discard(&first);
    assert_eq!(e.edit.as_ref().unwrap().get("A"), Some("1"));
    e.sync(3, &None);
    assert!(e.edit.is_none());
}

#[test]
fn changes_are_applied_after_a_yes() {
    let mut e = Editor::new();
    assert!(e.answer(true).is_none());
    e.ask(&changes());
    assert!(e.confirm.is_some());
    assert!(e.answer(false).is_none());
    assert!(e.confirm.is_none());
    e.ask(&changes());
    assert_eq!(e.answer(true), Some(changes()));
    assert!(e.confirm.is_none());
}

#[test]
fn switching_the_login_keeps_what_is_in_use() {
    let mut auth = Auth::Key { path: "/mine".to_owned(), passphrase: "p".to_owned() };
    use_key(&mut auth);
    assert!(matches!(&auth, Auth::Key { path, .. } if path == "/mine"));
    use_password(&mut auth);
    assert!(matches!(&auth, Auth::Password { password } if password.is_empty()));
    auth = Auth::Password { password: "x".to_owned() };
    use_password(&mut auth);
    assert!(matches!(&auth, Auth::Password { password } if password == "x"));
    use_key(&mut auth);
    assert!(matches!(&auth, Auth::Key { passphrase, .. } if passphrase.is_empty()));
}

#[test]
fn saving_reconnects_where_a_host_is_configured() {
    let s = after_save(&config(), Ok("/c.toml".to_owned()));
    assert_eq!((s.notice.as_str(), s.connect), ("保存しました: /c.toml", true));
    let s = after_save(&Config::first(String::new()), Ok("/c.toml".to_owned()));
    assert!(!s.connect);
    let s = after_save(&config(), Err("disk full".to_owned()));
    assert_eq!((s.notice.as_str(), s.connect), ("保存に失敗: disk full", false));
    assert_eq!(load_notice("bad"), "設定の読み込みに失敗: bad");
    assert_eq!(font_line(&Some("/f.ttc".to_owned())), "日本語フォント: /f.ttc");
    assert!(font_line(&None).starts_with("日本語フォントが見つかりません"));
}

#[test]
fn an_offline_host_has_its_reason() {
    assert!(offline_lines(&Conn::Connected).is_empty());
    for conn in [Conn::Disconnected, Conn::Connecting] {
        let all = offline_lines(&conn);
        assert_eq!(all.len(), 1);
        assert_eq!((all[0].tone, all[0].text.as_str()), (Tone::Dim, "VPS に接続していません"));
    }
    let all = offline_lines(&Conn::Failed("a\nb".to_owned()));
    assert_eq!((all[1].tone, all[1].text.as_str()), (Tone::Bad, "a\nb"));
    assert_eq!(load_line("0.52", "0.40", "0.31", 4), "load 0.52 / 0.40 / 0.31  (4 コア)");
}

#[test]
fn units_and_apps_are_listed() {
    let units = vec![
        ServiceStatus { name: "a".to_owned(), state: "active".to_owned() },
        ServiceStatus { name: "b".to_owned(), state: "failed".to_owned() },
    ];
    let rows = unit_rows(&units, true);
    assert_eq!((rows[0].mark.tone, rows[0].name.as_str(), rows[0].state.as_str()), (Tone::Good, "a", "active"));
    assert_eq!((rows[1].mark.tone, rows[1].enabled), (Tone::Bad, false));
    assert!(unit_rows(&units, false)[0].enabled);
    let apps = vec![Pm2App {
        name: "web".to_owned(),
        status: "online".to_owned(),
        cpu_bits: 7,
        memory: 1536,
        restarts: 12,
    }];
    let rows = app_rows(&apps);
    assert_eq!((rows[0].mark.text.as_str(), rows[0].name.as_str(), rows[0].cpu_bits), ("●", "web", 7));
    assert_eq!((rows[0].memory.as_str(), rows[0].restarts.as_str()), ("1.5 KB", "12"));
}

#[test]
fn the_palworld_screen_shows_what_it_can() {
    let ini = Some(PalIni::parse("OptionSettings=(A=1)").unwrap());
    let mut e = Editor::new();
    assert_eq!(palworld_page(false, &ini, &e), PalworldPage::Disabled);
    assert_eq!(palworld_page(true, &None, &e), PalworldPage::Unreadable);
    assert_eq!(palworld_page(true, &ini, &e), PalworldPage::Nothing);
    e.sync(1, &ini);
    assert_eq!(palworld_page(true, &ini, &e), PalworldPage::Form);
}

#[test]
fn units_are_added_and_removed() {
    let mut units = vec!["a".to_owned(), "b".to_owned()];
    add_service(&mut units);
    assert_eq!(units, ["a", "b", ""]);
    remove_service(&mut units, 0);
    assert_eq!(units, ["b", ""]);
}
