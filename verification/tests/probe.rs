use vwatch::model::{Metrics, Player, Pm2App, ServiceStatus};
use vwatch::palworld::PalIni;
use vwatch::probe::{host_report, ini_report, players_report, pm2_report, service_report};

#[test]
fn the_report_has_its_columns() {
    let m = Metrics {
        hostname: "vps".to_owned(),
        uptime: "up 1 day".to_owned(),
        cores: 4,
        mem_total: 2048,
        mem_available: 1024,
        disk_total: 4096,
        disk_used: 1024,
        ..Metrics::default()
    };
    assert_eq!(
        host_report(&m, "12.5", "0.52", "50", "25"),
        [
            "host      vps (up 1 day)",
            "cpu       12.5%  (4 cores, load 0.52)",
            "memory    1.0 KB / 2.0 KB  (50%)",
            "disk      1.0 KB / 4.0 KB  (25%)",
        ]
    );
    let s = ServiceStatus { name: "palworld".to_owned(), state: "active".to_owned() };
    assert_eq!(service_report(&s), format!("  {:<14} {}", "palworld", "active"));
    let a = Pm2App {
        name: "島".to_owned(),
        status: "online".to_owned(),
        cpu_bits: 0,
        memory: 1536,
        restarts: 0,
    };
    assert_eq!(pm2_report(&a), format!("  {:<26} {:<8} {}", "島", "online", "1.5 KB"));
}

#[test]
fn the_report_shows_some_settings() {
    let ini = PalIni::parse("OptionSettings=(ExpRate=5.000000,ServerName=\"x\",C=1)").unwrap();
    assert_eq!(
        ini_report(&ini),
        [
            "  3 settings parsed".to_owned(),
            format!("    {:<20} {}", "ExpRate", "5.000000"),
            format!("    {:<20} {}", "CollectionDropRate", "(absent)"),
            format!("    {:<20} {}", "EnemyDropItemRate", "(absent)"),
            format!("    {:<20} {}", "ServerName", "\"x\""),
        ]
    );
}

#[test]
fn the_report_lists_players() {
    assert_eq!(players_report(&Vec::new()), ["  no players online"]);
    let p = Player { name: "a".to_owned(), playeruid: "u".to_owned(), steamid: "7".to_owned() };
    assert_eq!(players_report(&vec![p]), ["    a (7)"]);
}
