use vwatch::fields::{edit_choice, edit_raw, edit_switch, edit_text, edit_whole, field, Field};
use vwatch::palworld::{groups, PalIni, Spec};

const FILE: &str = "OptionSettings=(ExpRate=2.500000,RCONPort=x,DropItemMaxNum=3000,bIsPvP=True,DeathPenalty=All,ServerName=\"島, 1\",AdminPassword=\"pw\",CrossplayPlatforms=(Steam,Xbox))\n";

fn spec(key: &str) -> Spec {
    groups().into_iter().flat_map(|g| g.specs).find(|s| s.key == key).unwrap()
}

#[test]
fn settings_are_shown_by_their_kind() {
    let ini = PalIni::parse(FILE).unwrap();
    let f = |key: &str| field(&ini, &spec(key));
    assert!(matches!(f("ExpRate"), Field::Rate { written: Some(w), min_tenths: 1, max_tenths: 200 } if w == "2.500000"));
    assert!(matches!(f("WorkSpeedRate"), Field::Rate { written: None, .. }));
    // What is no number is shown as the least value.
    assert!(matches!(f("RCONPort"), Field::Whole { current: 1, min: 1, max: 65535 }));
    assert!(matches!(f("DropItemMaxNum"), Field::Whole { current: 3000, .. }));
    assert!(matches!(f("bIsPvP"), Field::Switch(true)));
    assert!(matches!(f("bHardcore"), Field::Switch(false)));
    assert!(matches!(f("DeathPenalty"), Field::Choice { selected, options } if selected == "All" && options.contains(&"Item")));
    assert!(matches!(f("ServerName"), Field::Text(s) if s == "島, 1"));
    assert!(matches!(f("AdminPassword"), Field::Secret(s) if s == "pw"));
    assert!(matches!(f("CrossplayPlatforms"), Field::Raw(s) if s == "(Steam,Xbox)"));
}

#[test]
fn edits_are_written_by_their_kind() {
    let mut ini = PalIni::parse(FILE).unwrap();
    edit_whole(&mut ini, "RCONPort", -25575);
    edit_switch(&mut ini, "bIsPvP", false);
    edit_choice(&mut ini, "DeathPenalty", "Item");
    edit_text(&mut ini, "ServerName", "a \"b\", (c");
    edit_raw(&mut ini, "CrossplayPlatforms", "(PS5)");
    assert_eq!(ini.get("RCONPort"), Some("-25575"));
    assert_eq!(ini.get("bIsPvP"), Some("False"));
    assert_eq!(ini.get("DeathPenalty"), Some("Item"));
    assert_eq!(ini.get("ServerName"), Some("\"a b, (c\""));
    assert_eq!(ini.get("CrossplayPlatforms"), Some("(PS5)"));
    let again = PalIni::parse(&ini.render()).unwrap();
    assert_eq!(again.options(), ini.options());
    assert_eq!(again.get_str("ServerName"), Some("a b, (c"));
    assert_eq!(again.get_i64("RCONPort"), Some(-25575));
    assert_eq!(again.get_bool("bIsPvP"), Some(false));
    edit_switch(&mut ini, "bIsPvP", true);
    assert!(matches!(field(&ini, &spec("bIsPvP")), Field::Switch(true)));
}

#[test]
fn a_choice_that_stays_is_not_written() {
    let mut ini = PalIni::parse(FILE).unwrap();
    let before = ini.clone();
    edit_choice(&mut ini, "DeathPenalty", "All");
    edit_choice(&mut ini, "LogFormatType", "");
    assert!(ini == before);
    edit_choice(&mut ini, "LogFormatType", "Json");
    assert_eq!(ini.get("LogFormatType"), Some("Json"));
}
