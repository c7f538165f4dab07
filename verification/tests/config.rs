use vwatch::config::{
    default_key_path, default_poll, default_port, default_services, default_true, key_path_in, Auth, Config,
};

#[test]
fn a_first_run_has_the_usual_settings() {
    let cfg = Config::first("/k".to_owned());
    assert_eq!(cfg.ssh.host, "");
    assert_eq!(cfg.ssh.port, 22);
    assert!(!cfg.ssh.strict_host_key);
    assert!(matches!(&cfg.ssh.auth, Auth::Key { path, passphrase } if path == "/k" && passphrase.is_empty()));
    assert!(cfg.palworld.enabled && cfg.palworld.sudo && cfg.show_pm2);
    assert_eq!(cfg.palworld.service, "palworld");
    assert_eq!(
        cfg.palworld.ini_path,
        "/home/steam/palworld/Pal/Saved/Config/LinuxServer/PalWorldSettings.ini"
    );
    assert_eq!(cfg.palworld.players_command, "");
    assert_eq!(cfg.services, ["palworld", "playit", "cloudflared"]);
    assert_eq!(cfg.poll_interval_secs, 5);
    assert_eq!((default_port(), default_poll(), default_true()), (22, 5, true));
    assert_eq!(default_services(), cfg.services);
}

#[test]
fn the_key_is_looked_for_at_home() {
    let path = default_key_path();
    match directories::UserDirs::new() {
        Some(u) => assert_eq!(
            path,
            u.home_dir().join(".ssh").join("id_ed25519").display().to_string()
        ),
        None => assert_eq!(path, ""),
    }
    assert!(matches!(Auth::default(), Auth::Key { path: p, passphrase } if p == path && passphrase.is_empty()));
    assert!(matches!(Config::default().ssh.auth, Auth::Key { path: p, .. } if p == path));
    assert_eq!(key_path_in(None), "");
    for home in ["/home/u", "/", "x", ""] {
        let want = std::path::Path::new(home).join(".ssh").join("id_ed25519");
        assert_eq!(key_path_in(Some(home.to_owned())), want.display().to_string());
    }
}

#[test]
fn host_and_user_make_a_configuration_connectable() {
    let mut cfg = Config::first(String::new());
    assert!(!cfg.is_connectable());
    cfg.ssh.host = "example.org".to_owned();
    assert!(!cfg.is_connectable());
    cfg.ssh.user = " \t".to_owned();
    assert!(!cfg.is_connectable());
    cfg.ssh.user = "steam".to_owned();
    assert!(cfg.is_connectable());
}
