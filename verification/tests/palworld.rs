use vwatch::palworld::{IniError, PalIni};

/// Shaped like the real file on the VPS, including the Japanese server name
/// and a comma inside a quoted value — the case naive splitting gets wrong.
const SAMPLE: &str = "[/Script/Pal.PalGameWorldSettings]\nOptionSettings=(Difficulty=None,DayTimeSpeedRate=1.000000,ExpRate=5.000000,ServerName=\"アルカトラズ島, 第2区画\",CollectionDropRate=5.000000,EnemyDropItemRate=5.000000,DropItemMaxNum=3000,bIsPvP=False,DeathPenalty=All,Nested=(A=1,B=2))\n";

/// Numeric read that tolerates Palworld's `1.000000` formatting.
fn get_f32(ini: &PalIni, key: &str) -> Option<f32> {
    ini.get(key)?.parse().ok()
}

/// Palworld writes floats as `5.000000`.
fn fmt_f32(v: f32) -> String {
    format!("{v:.6}")
}

#[test]
fn parses_quoted_comma_without_splitting_it() {
    let ini = PalIni::parse(SAMPLE).unwrap();
    assert_eq!(ini.get_str("ServerName"), Some("アルカトラズ島, 第2区画"));
}

#[test]
fn parses_nested_parens_as_one_value() {
    let ini = PalIni::parse(SAMPLE).unwrap();
    assert_eq!(ini.get("Nested"), Some("(A=1,B=2)"));
}

#[test]
fn reads_typed_values() {
    let ini = PalIni::parse(SAMPLE).unwrap();
    assert_eq!(get_f32(&ini, "ExpRate"), Some(5.0));
    assert_eq!(ini.get_i64("DropItemMaxNum"), Some(3000));
    assert_eq!(ini.get_bool("bIsPvP"), Some(false));
    assert_eq!(ini.get("DeathPenalty"), Some("All"));
}

#[test]
fn set_then_render_round_trips_and_preserves_unknown_keys() {
    let mut ini = PalIni::parse(SAMPLE).unwrap();
    ini.set("ExpRate", &fmt_f32(2.5));
    let rendered = ini.render();

    let reparsed = PalIni::parse(&rendered).unwrap();
    assert_eq!(get_f32(&reparsed, "ExpRate"), Some(2.5));
    // Everything we never touched must survive the round-trip verbatim.
    assert_eq!(
        reparsed.get_str("ServerName"),
        Some("アルカトラズ島, 第2区画")
    );
    assert_eq!(reparsed.get("Nested"), Some("(A=1,B=2)"));
    assert_eq!(reparsed.get("Difficulty"), Some("None"));
    assert_eq!(reparsed.options().len(), ini.options().len());
}

#[test]
fn render_keeps_the_section_header_line() {
    let ini = PalIni::parse(SAMPLE).unwrap();
    assert!(
        ini.render()
            .starts_with("[/Script/Pal.PalGameWorldSettings]\n")
    );
}

#[test]
fn set_appends_a_key_palworld_omitted() {
    let mut ini = PalIni::parse(SAMPLE).unwrap();
    assert_eq!(ini.get("BrandNewSetting"), None);
    ini.set("BrandNewSetting", "7");
    let reparsed = PalIni::parse(&ini.render()).unwrap();
    assert_eq!(reparsed.get("BrandNewSetting"), Some("7"));
}

#[test]
fn missing_option_line_is_an_error_not_a_panic() {
    assert!(PalIni::parse("[/Script/Pal.PalGameWorldSettings]\n").is_err());
}

#[test]
fn carriage_returns_of_other_lines_survive() {
    let text = "[/Script/Pal.PalGameWorldSettings]\r\n; note\r\nOptionSettings=(A=1,B=2)\r\n\r\nlast";
    let ini = PalIni::parse(text).unwrap();
    assert_eq!(
        ini.render(),
        "[/Script/Pal.PalGameWorldSettings]\r\n; note\r\nOptionSettings=(A=1,B=2)\n\r\nlast\n"
    );
}

#[test]
fn every_fault_has_its_sentence() {
    let why = |text: &str| PalIni::parse(text).unwrap_err().message();
    assert_eq!(
        why("[x]\n"),
        "no `OptionSettings=(...)` line found in PalWorldSettings.ini"
    );
    assert_eq!(why("OptionSettings=A=1)"), "OptionSettings line has no opening `(`");
    assert_eq!(why("OptionSettings=(A=1"), "OptionSettings line has no closing `)`");
    assert_eq!(why("OptionSettings=)A=1("), "OptionSettings line has `)` before `(`");
    assert_eq!(
        why("OptionSettings=(A=1, B ,C=2)"),
        "malformed OptionSettings entry: `B`"
    );
    assert!(matches!(PalIni::parse(""), Err(IniError::NoOptionLine)));
    assert!(matches!(PalIni::parse("OptionSettings=(x)"), Err(IniError::Malformed(f)) if f == "x"));
}

#[test]
fn entries_are_cut_at_their_first_equals_sign_and_trimmed() {
    let ini = PalIni::parse("  OptionSettings=( A = a=b , , B=\"x)\" ,C=(1,(2,3)),)").unwrap();
    let all: Vec<_> = ini.options().iter().map(|(k, v)| (k.as_str(), v.as_str())).collect();
    assert_eq!(all, [("A", "a=b"), ("B", "\"x)\""), ("C", "(1,(2,3))")]);
    assert_eq!(ini.render(), "OptionSettings=(A=a=b,B=\"x)\",C=(1,(2,3)))\n");
}

#[test]
fn the_first_of_two_settings_counts() {
    let mut ini = PalIni::parse("OptionSettings=(A=1,B=2,A=3)").unwrap();
    assert_eq!(ini.get("A"), Some("1"));
    ini.set("A", "9");
    assert_eq!(ini.render(), "OptionSettings=(A=9,B=2,A=3)\n");
    assert_eq!(ini.get("B"), Some("2"));
    assert_eq!(ini.get("C"), None);
}

#[test]
fn typed_reads_refuse_what_they_cannot_read() {
    let ini = PalIni::parse("OptionSettings=(A=true,B=1,C=yes,D=\"q\",E=+5,F=)").unwrap();
    assert_eq!(ini.get_bool("A"), Some(true));
    assert_eq!(ini.get_bool("B"), None);
    assert_eq!(ini.get_bool("C"), None);
    assert_eq!(ini.get_i64("E"), Some(5));
    assert_eq!(ini.get_i64("D"), None);
    assert_eq!(ini.get_i64("F"), None);
    assert_eq!(ini.get_str("D"), Some("q"));
    assert_eq!(ini.get_str("F"), Some(""));
    assert_eq!(ini.get_str("Z"), None);
}

#[test]
fn what_was_written_is_read_back() {
    let ini = PalIni::parse(SAMPLE).unwrap();
    let again = PalIni::parse(&ini.render()).unwrap();
    assert_eq!(again, ini);
    assert_eq!(again.clone(), ini);
    let mut other = again.clone();
    other.set("ExpRate", "1");
    assert!(other != ini);
    assert_eq!(other.lines(), ini.lines());
}

#[test]
fn an_unbalanced_value_does_not_come_back() {
    let mut ini = PalIni::parse("OptionSettings=(A=1,B=2)").unwrap();
    ini.set("A", "(x");
    let again = PalIni::parse(&ini.render()).unwrap();
    assert_eq!(again.get("A"), Some("(x,B=2"));
}
