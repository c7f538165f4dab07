use vwatch::pm2::{pm2, pm2_app, pm2_json, Pm2Fields, PM2_COMMAND};

#[test]
fn apps_are_read_from_the_list() {
    let out = "PM2 notice\n>>>> [{\"name\":\"web\",\"pm2_env\":{\"status\":\"online\",\"restart_time\":3},\
\"monit\":{\"cpu\":12.5,\"memory\":1048576}},{\"name\":\"島\",\"monit\":{\"cpu\":7}}]\n";
    let apps = pm2(out);
    assert_eq!(apps.len(), 2);
    assert_eq!((apps[0].name.as_str(), apps[0].status.as_str()), ("web", "online"));
    assert!(apps[0].is_online());
    assert_eq!(f64::from_bits(apps[0].cpu_bits), 12.5);
    assert_eq!((apps[0].memory, apps[0].restarts), (1048576, 3));
    assert_eq!((apps[1].name.as_str(), apps[1].status.as_str()), ("島", "?"));
    assert_eq!(f64::from_bits(apps[1].cpu_bits), 7.0);
    assert_eq!((apps[1].memory, apps[1].restarts), (0, 0));
}

#[test]
fn fields_of_another_type_are_missing() {
    let out = "[{\"name\":5,\"pm2_env\":[1],\"monit\":{\"cpu\":\"9\",\"memory\":-1}},null,{\"monit\":{\"cpu\":-2.5,\"memory\":1.5}}]";
    let apps = pm2(out);
    assert_eq!(apps.len(), 3);
    for app in &apps {
        assert_eq!((app.name.as_str(), app.status.as_str()), ("?", "?"));
        assert_eq!((app.memory, app.restarts), (0, 0));
    }
    assert_eq!(apps[0].cpu_bits, 0);
    assert_eq!(f64::from_bits(apps[2].cpu_bits), -2.5);
}

#[test]
fn what_is_no_list_lists_no_apps() {
    for out in ["", "[]", "[", "{\"a\":1}", "not json", "\"x\"", "[1"] {
        assert!(pm2(out).is_empty(), "{out}");
    }
    assert_eq!(pm2("{\"a\":[]}").len(), 0);
    assert!(PM2_COMMAND.ends_with("|| echo '[]'"));
}

#[test]
fn the_json_begins_at_the_first_bracket() {
    assert_eq!(pm2_json("  x [1] y\n"), "[1] y");
    assert_eq!(pm2_json(" {} "), "{}");
}

#[test]
fn missing_fields_have_their_defaults() {
    let app = pm2_app(Pm2Fields {
        name: None,
        status: Some("stopped".to_owned()),
        cpu_bits: None,
        memory: Some(9),
        restarts: None,
    });
    assert_eq!((app.name.as_str(), app.status.as_str()), ("?", "stopped"));
    assert_eq!((app.cpu_bits, app.memory, app.restarts), (0, 9, 0));
}
