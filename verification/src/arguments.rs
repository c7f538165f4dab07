//! What the remote shell makes of the command lines: which arguments a command gets.
use crate::chars::{joined, swapped};
use crate::config::PalworldView;
use crate::shell::{
    action_line, all_quoted, backup_line, quoted, read_ini_line, services_line, state_line, sudo_prefix,
    unit_line,
};
use vstd::prelude::*;

verus! {

/// A character that means itself to a shell wherever it stands.
pub open spec fn plain_char(c: char) -> bool {
    'a' <= c <= 'z' || 'A' <= c <= 'Z' || '0' <= c <= '9' || c == '-' || c == '.' || c == '_' || c
        == '/'
}

/// The word that was begun, or an empty one.
pub open spec fn begun(word: Option<Seq<char>>) -> Seq<char> {
    match word {
        Some(w) => w,
        None => Seq::empty(),
    }
}

/// The words that a POSIX shell reads from `s`, where `word` is the one that was begun,
/// and `inside` tells whether a single quote is open: words are parted by spaces, single
/// quotes make everything between them literal, and a backslash the character behind
/// it. `None` where a quote stays open or where anything else stands that a shell might
/// give a meaning to.
pub open spec fn words_from(word: Option<Seq<char>>, inside: bool, s: Seq<char>) -> Option<
    Seq<Seq<char>>,
>
    decreases s.len(),
{
    if inside {
        if s.len() == 0 {
            None
        } else if s[0] == '\'' {
            words_from(word, false, s.drop_first())
        } else {
            words_from(Some(begun(word).push(s[0])), true, s.drop_first())
        }
    } else if s.len() == 0 {
        Some(
            match word {
                Some(w) => seq![w],
                None => Seq::empty(),
            },
        )
    } else if s[0] == '\'' {
        words_from(Some(begun(word)), true, s.drop_first())
    } else if s[0] == '\\' && s.len() > 1 && s[1] != '\n' {
        words_from(Some(begun(word).push(s[1])), false, s.skip(2))
    } else if s[0] == ' ' {
        match words_from(None, false, s.drop_first()) {
            Some(rest) => Some(
                match word {
                    Some(w) => seq![w] + rest,
                    None => rest,
                },
            ),
            None => None,
        }
    } else if plain_char(s[0]) {
        words_from(Some(begun(word).push(s[0])), false, s.drop_first())
    } else {
        None
    }
}

/// The words of a command line: the command and its arguments.
pub open spec fn shell_words(line: Seq<char>) -> Option<Seq<Seq<char>>> {
    words_from(None, false, line)
}

/// What stands between the quotes becomes part of the word, and the quote is closed.
proof fn lemma_inside(word: Seq<char>, s: Seq<char>, t: Seq<char>)
    ensures
        words_from(
            Some(word),
            true,
            swapped(s, '\'', seq!['\'', '\\', '\'', '\'']) + seq!['\''] + t,
        ) == words_from(Some(word + s), false, t),
    decreases s.len(),
{
    let escape = seq!['\'', '\\', '\'', '\''];
    let text = swapped(s, '\'', escape) + seq!['\''] + t;
    if s.len() == 0 {
        assert(text =~= seq!['\''] + t);
        assert(text.drop_first() =~= t);
        assert(word + s =~= word);
    } else {
        let r = s.drop_first();
        let later = swapped(r, '\'', escape) + seq!['\''] + t;
        let more = word.push(s[0]);
        lemma_inside(more, r, t);
        assert(more + r =~= word + s);
        if s[0] == '\'' {
            assert(text =~= escape + later);
            let a = text.drop_first();
            assert(text[0] == '\'' && a[0] == '\\' && a[1] == '\'');
            let b = a.skip(2);
            assert(b[0] == '\'');
            assert(b.drop_first() =~= later);
            assert(begun(Some(word)).push(a[1]) == more);
            assert(words_from(Some(more), false, b) == words_from(Some(more), true, later));
            assert(words_from(Some(word), false, a) == words_from(Some(more), false, b));
        } else {
            assert(text =~= seq![s[0]] + later);
            assert(text.drop_first() =~= later);
        }
    }
}

/// A quoted value becomes part of one word, letter for letter.
proof fn lemma_quoted(word: Option<Seq<char>>, s: Seq<char>, t: Seq<char>)
    ensures
        words_from(word, false, quoted(s) + t) == words_from(Some(begun(word) + s), false, t),
{
    let text = quoted(s) + t;
    let inner = swapped(s, '\'', seq!['\'', '\\', '\'', '\'']) + seq!['\''] + t;
    assert(text =~= seq!['\''] + inner);
    assert(text.drop_first() =~= inner);
    lemma_inside(begun(word), s, t);
}

/// Plain characters become part of the word.
proof fn lemma_plain(word: Option<Seq<char>>, s: Seq<char>, t: Seq<char>)
    requires
        s.len() > 0,
        forall|i: int| 0 <= i < s.len() ==> plain_char(#[trigger] s[i]),
    ensures
        words_from(word, false, s + t) == words_from(Some(begun(word) + s), false, t),
    decreases s.len(),
{
    let text = s + t;
    let more = begun(word).push(s[0]);
    assert(plain_char(s[0]));
    assert(text[0] == s[0]);
    let r = s.drop_first();
    assert(text.drop_first() =~= r + t);
    assert(words_from(word, false, text) == words_from(Some(more), false, r + t));
    if r.len() == 0 {
        assert(r + t =~= t);
        assert(begun(word) + s =~= more);
    } else {
        assert forall|i: int| 0 <= i < r.len() implies plain_char(#[trigger] r[i]) by {
            assert(r[i] == s[i + 1]);
        }
        lemma_plain(Some(more), r, t);
        assert(more + r =~= begun(word) + s);
    }
}

/// A space ends the word.
proof fn lemma_space(word: Seq<char>, t: Seq<char>)
    requires
        words_from(None, false, t) is Some,
    ensures
        words_from(Some(word), false, seq![' '] + t) == Some(
            seq![word] + words_from(None, false, t)->Some_0,
        ),
{
    let text = seq![' '] + t;
    assert(text.drop_first() =~= t);
}

/// A plain word and a space in front of other words.
proof fn lemma_plain_word(s: Seq<char>, t: Seq<char>)
    requires
        s.len() > 0,
        forall|i: int| 0 <= i < s.len() ==> plain_char(#[trigger] s[i]),
        shell_words(t) is Some,
    ensures
        shell_words(s + seq![' '] + t) == Some(seq![s] + shell_words(t)->Some_0),
{
    assert(s + seq![' '] + t =~= s + (seq![' '] + t));
    lemma_plain(None, s, seq![' '] + t);
    assert(Seq::<char>::empty() + s =~= s);
    lemma_space(s, t);
}

/// The remote shell sees a quoted value as one argument, letter for letter.
pub proof fn quoting_is_literal(s: Seq<char>)
    ensures
        shell_words(quoted(s)) == Some(seq![s]),
{
    lemma_quoted(None, s, Seq::empty());
    assert(quoted(s) + Seq::empty() =~= quoted(s));
    assert(Seq::<char>::empty() + s =~= s);
}

/// A quoted value in front of other arguments.
proof fn lemma_quoted_word(s: Seq<char>, t: Seq<char>)
    requires
        shell_words(t) is Some,
    ensures
        shell_words(quoted(s) + seq![' '] + t) == Some(seq![s] + shell_words(t)->Some_0),
{
    assert(quoted(s) + seq![' '] + t =~= quoted(s) + (seq![' '] + t));
    lemma_quoted(None, s, seq![' '] + t);
    assert(Seq::<char>::empty() + s =~= s);
    lemma_space(s, t);
}

/// The words of a command, behind those that give it privileges.
pub open spec fn privileged(sudo: bool, words: Seq<Seq<char>>) -> Seq<Seq<char>> {
    if sudo {
        seq!["sudo"@, "-n"@] + words
    } else {
        words
    }
}

proof fn lemma_sudo(sudo: bool, t: Seq<char>)
    requires
        shell_words(t) is Some,
    ensures
        shell_words(sudo_prefix(sudo) + t) == Some(privileged(sudo, shell_words(t)->Some_0)),
{
    let words = shell_words(t)->Some_0;
    reveal_strlit("sudo -n ");
    reveal_strlit("sudo");
    reveal_strlit("-n");
    reveal_strlit("");
    if sudo {
        let n = "-n"@ + seq![' '] + t;
        lemma_plain_word("-n"@, t);
        lemma_plain_word("sudo"@, n);
        assert(sudo_prefix(sudo) + t =~= "sudo"@ + seq![' '] + n);
        assert(seq!["sudo"@] + (seq!["-n"@] + words) =~= privileged(sudo, words));
    } else {
        assert(sudo_prefix(sudo) + t =~= t);
    }
}

/// `systemctl` gets the action and the unit, whatever they are.
pub proof fn a_unit_is_acted_on_by_name(unit: Seq<char>, action: Seq<char>, sudo: bool)
    ensures
        shell_words(action_line(unit, action, sudo)) == Some(
            privileged(sudo, seq!["systemctl"@, action, unit]),
        ),
{
    let tail = quoted(action) + seq![' '] + quoted(unit);
    quoting_is_literal(unit);
    lemma_quoted_word(action, quoted(unit));
    reveal_strlit("systemctl ");
    reveal_strlit("systemctl");
    reveal_strlit(" ");
    lemma_plain_word("systemctl"@, tail);
    let line = "systemctl"@ + seq![' '] + tail;
    lemma_sudo(sudo, line);
    assert(action_line(unit, action, sudo) =~= sudo_prefix(sudo) + line);
    assert(seq!["systemctl"@] + (seq![action] + seq![unit]) =~= seq!["systemctl"@, action, unit]);
}

/// The server's own unit is stopped and started, and asked for, whatever its name.
pub proof fn the_server_is_named(pal: PalworldView)
    ensures
        shell_words(unit_line(pal, "stop"@)) == Some(
            privileged(pal.sudo, seq!["systemctl"@, "stop"@, pal.service]),
        ),
        shell_words(unit_line(pal, "start"@)) == Some(
            privileged(pal.sudo, seq!["systemctl"@, "start"@, pal.service]),
        ),
        shell_words(state_line(pal)) == Some(seq!["systemctl"@, "is-active"@, pal.service]),
{
    reveal_strlit("systemctl ");
    reveal_strlit("systemctl is-active ");
    reveal_strlit("systemctl");
    reveal_strlit("is-active");
    reveal_strlit("stop");
    reveal_strlit("start");
    reveal_strlit(" ");
    let unit = quoted(pal.service);
    quoting_is_literal(pal.service);
    lemma_plain_word("stop"@, unit);
    lemma_plain_word("start"@, unit);
    lemma_plain_word("is-active"@, unit);
    let stop = "stop"@ + seq![' '] + unit;
    let start = "start"@ + seq![' '] + unit;
    let ask = "is-active"@ + seq![' '] + unit;
    lemma_plain_word("systemctl"@, stop);
    lemma_plain_word("systemctl"@, start);
    lemma_plain_word("systemctl"@, ask);
    let (a, b, c) = (
        "systemctl"@ + seq![' '] + stop,
        "systemctl"@ + seq![' '] + start,
        "systemctl"@ + seq![' '] + ask,
    );
    lemma_sudo(pal.sudo, a);
    lemma_sudo(pal.sudo, b);
    assert(unit_line(pal, "stop"@) =~= sudo_prefix(pal.sudo) + a);
    assert(unit_line(pal, "start"@) =~= sudo_prefix(pal.sudo) + b);
    assert(state_line(pal) =~= c);
    assert(seq!["systemctl"@] + (seq!["stop"@] + seq![pal.service]) =~= seq![
        "systemctl"@,
        "stop"@,
        pal.service,
    ]);
    assert(seq!["systemctl"@] + (seq!["start"@] + seq![pal.service]) =~= seq![
        "systemctl"@,
        "start"@,
        pal.service,
    ]);
    assert(seq!["systemctl"@] + (seq!["is-active"@] + seq![pal.service]) =~= seq![
        "systemctl"@,
        "is-active"@,
        pal.service,
    ]);
}

/// The settings file is read, and copied beside itself, whatever its path.
pub proof fn the_file_is_named(pal: PalworldView)
    ensures
        shell_words(read_ini_line(pal)) == Some(privileged(pal.sudo, seq!["cat"@, pal.ini_path])),
        shell_words(backup_line(pal)) == Some(
            privileged(pal.sudo, seq!["cp"@, pal.ini_path, pal.ini_path + ".vwatch.bak"@]),
        ),
{
    reveal_strlit("cat ");
    reveal_strlit("cat");
    reveal_strlit("cp ");
    reveal_strlit("cp");
    reveal_strlit(" ");
    reveal_strlit(".vwatch.bak");
    let path = quoted(pal.ini_path);
    let none = Seq::<char>::empty();
    quoting_is_literal(pal.ini_path);
    lemma_plain_word("cat"@, path);
    let read = "cat"@ + seq![' '] + path;
    lemma_sudo(pal.sudo, read);
    assert(read_ini_line(pal) =~= sudo_prefix(pal.sudo) + read);
    assert(seq!["cat"@] + seq![pal.ini_path] =~= seq!["cat"@, pal.ini_path]);

    let aside = path + ".vwatch.bak"@;
    lemma_quoted(None, pal.ini_path, ".vwatch.bak"@);
    assert(none + pal.ini_path =~= pal.ini_path);
    lemma_plain(Some(pal.ini_path), ".vwatch.bak"@, none);
    assert(".vwatch.bak"@ + none =~= ".vwatch.bak"@);
    assert(shell_words(aside) == Some(seq![pal.ini_path + ".vwatch.bak"@]));
    lemma_quoted_word(pal.ini_path, aside);
    let both = path + seq![' '] + aside;
    lemma_plain_word("cp"@, both);
    let copy = "cp"@ + seq![' '] + both;
    lemma_sudo(pal.sudo, copy);
    assert(backup_line(pal) =~= sudo_prefix(pal.sudo) + copy);
    assert(seq!["cp"@] + (seq![pal.ini_path] + seq![pal.ini_path + ".vwatch.bak"@]) =~= seq![
        "cp"@,
        pal.ini_path,
        pal.ini_path + ".vwatch.bak"@,
    ]);
}

/// What writes its input into the settings file.
pub open spec fn tee_line(pal: PalworldView) -> Seq<char> {
    sudo_prefix(pal.sudo) + "tee "@ + quoted(pal.ini_path)
}

/// The settings file is written by `tee`, whatever its path.
pub proof fn the_file_is_written_by_name(pal: PalworldView)
    ensures
        shell_words(tee_line(pal)) == Some(privileged(pal.sudo, seq!["tee"@, pal.ini_path])),
{
    reveal_strlit("tee ");
    reveal_strlit("tee");
    let path = quoted(pal.ini_path);
    quoting_is_literal(pal.ini_path);
    lemma_plain_word("tee"@, path);
    let write = "tee"@ + seq![' '] + path;
    lemma_sudo(pal.sudo, write);
    assert(tee_line(pal) =~= sudo_prefix(pal.sudo) + write);
    assert(seq!["tee"@] + seq![pal.ini_path] =~= seq!["tee"@, pal.ini_path]);
}

/// `systemctl` is asked for every unit, in order, whatever their names.
pub proof fn every_unit_is_asked_for(units: Seq<Seq<char>>)
    requires
        units.len() > 0,
    ensures
        shell_words(services_line(units)) == Some(seq!["systemctl"@, "is-active"@] + units),
{
    reveal_strlit("systemctl is-active ");
    reveal_strlit("systemctl");
    reveal_strlit("is-active");
    reveal_strlit(" ");
    let list = joined(all_quoted(units), " "@);
    lemma_list(units);
    lemma_plain_word("is-active"@, list);
    let ask = "is-active"@ + seq![' '] + list;
    lemma_plain_word("systemctl"@, ask);
    assert(services_line(units) =~= "systemctl"@ + seq![' '] + ask);
    assert(seq!["systemctl"@] + (seq!["is-active"@] + units) =~= seq!["systemctl"@, "is-active"@]
        + units);
}

proof fn lemma_list(units: Seq<Seq<char>>)
    requires
        units.len() > 0,
    ensures
        shell_words(joined(all_quoted(units), " "@)) == Some(units),
    decreases units.len(),
{
    reveal_strlit(" ");
    let all = all_quoted(units);
    assert(all[0] == quoted(units[0]));
    if units.len() == 1 {
        quoting_is_literal(units[0]);
        assert(units =~= seq![units[0]]);
    } else {
        let t = units.drop_first();
        lemma_list(t);
        assert(all.drop_first() =~= all_quoted(t));
        lemma_quoted_word(units[0], joined(all_quoted(t), " "@));
        assert(joined(all, " "@) =~= quoted(units[0]) + seq![' '] + joined(all_quoted(t), " "@));
        assert(seq![units[0]] + t =~= units);
    }
}

/// A word that needs no quotes.
pub open spec fn plain_word(s: Seq<char>) -> bool {
    s.len() > 0 && forall|i: int| 0 <= i < s.len() ==> plain_char(#[trigger] s[i])
}

/// Words that need no quotes are read as they stand.
pub proof fn plain_words_are_read(a: Seq<char>, b: Seq<char>, c: Seq<char>)
    requires
        plain_word(a),
        plain_word(b),
        plain_word(c),
    ensures
        shell_words(a + seq![' '] + (b + seq![' '] + c)) == Some(seq![a, b, c]),
{
    let none = Seq::<char>::empty();
    lemma_plain(None, c, none);
    assert(c + none =~= c);
    assert(none + c =~= c);
    lemma_plain_word(b, c);
    lemma_plain_word(a, b + seq![' '] + c);
    assert(seq![a] + (seq![b] + seq![c]) =~= seq![a, b, c]);
}

/// A command behind `sudo -n` is the same command.
pub proof fn sudo_words_are_read(line: Seq<char>)
    requires
        shell_words(line) is Some,
    ensures
        shell_words("sudo"@ + seq![' '] + ("-n"@ + seq![' '] + line)) == Some(
            seq!["sudo"@, "-n"@] + shell_words(line)->Some_0,
        ),
{
    lemma_sudo(true, line);
    reveal_strlit("sudo -n ");
    reveal_strlit("sudo");
    reveal_strlit("-n");
    assert(sudo_prefix(true) + line =~= "sudo"@ + seq![' '] + ("-n"@ + seq![' '] + line));
}

} // verus!
