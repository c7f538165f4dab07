use vwatch::chars::{
    chars_of, find, is_white, join, lines, pad, pieces, replace, rfind, rows, same, starts_with, strip, swap,
    text_of, trim, words,
};

fn texts(v: Vec<&[char]>) -> Vec<String> {
    v.into_iter().map(|s| s.iter().collect()).collect()
}

/// Texts with the characters that line, word and trim rules turn on.
fn samples() -> Vec<String> {
    let parts = ["", "a", " ", "\t", "\n", "\r", "\r\n", "\u{3000}", "\u{a0}", "b,c", "é", "島"];
    let mut out = Vec::new();
    for x in parts {
        for y in parts {
            for z in parts {
                out.push(format!("{x}{y}{z}"));
                out.push(format!("{x}q{y}{z}w{x}"));
            }
        }
    }
    out
}

#[test]
fn white_space_is_what_unicode_says() {
    for n in 0..=0x10ffff_u32 {
        if let Some(c) = char::from_u32(n) {
            assert_eq!(is_white(c), c.is_whitespace(), "{n:x}");
        }
    }
}

#[test]
fn lines_and_words_are_cut_as_std_cuts_them() {
    for s in samples() {
        let all = chars_of(&s);
        assert_eq!(texts(lines(&all)), s.lines().collect::<Vec<_>>(), "{s:?}");
        assert_eq!(texts(words(&all)), s.split_whitespace().collect::<Vec<_>>(), "{s:?}");
        assert_eq!(texts(pieces(&all, ',')), s.split(',').collect::<Vec<_>>(), "{s:?}");
        assert_eq!(text_of(trim(&all)), s.trim(), "{s:?}");
    }
}

#[test]
fn rows_keep_carriage_returns() {
    let all = chars_of("a\r\n\r\nb\r");
    assert_eq!(texts(rows(&all)), ["a\r", "\r", "b\r"]);
    assert_eq!(texts(lines(&all)), ["a", "", "b\r"]);
    assert!(rows(&chars_of("")).is_empty());
    assert_eq!(texts(rows(&chars_of("\n"))), [""]);
}

#[test]
fn searching_and_replacing_agree_with_std() {
    let all = chars_of("a(b)(c)");
    assert_eq!(find(&all, '('), 1);
    assert_eq!(find(&all, 'x'), 7);
    assert_eq!(rfind(&all, ')'), Some(6));
    assert_eq!(rfind(&all, 'x'), None);
    assert!(starts_with(&all, "a("));
    assert!(!starts_with(&all, "a(b)(c)d"));
    assert!(same("島", "島"));
    assert!(!same("島", "鳥"));
    assert!(!same("ab", "a"));
    for s in ["", "x", "aaa", "aaaa", "baab", "ShowPlayers; ShowPlayersX"] {
        assert_eq!(replace(s, "aa", "a"), s.replace("aa", "a"));
        assert_eq!(replace(s, "ShowPlayers", "Save"), s.replace("ShowPlayers", "Save"));
        assert_eq!(swap(s, 'a', "bb"), s.replace('a', "bb"));
        assert_eq!(strip(s, 'a'), s.trim_matches('a'));
    }
}

#[test]
fn joining_and_padding_agree_with_std() {
    let parts = vec!["a".to_owned(), String::new(), "島".to_owned()];
    assert_eq!(join(&parts, ", "), parts.join(", "));
    assert_eq!(join(&Vec::new(), ", "), "");
    for s in ["", "ab", "島国", "abcdefgh"] {
        assert_eq!(pad(s, 5), format!("{s:<5}"));
    }
}
