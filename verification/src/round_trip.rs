//! What writing a settings file and reading it again keeps.
use crate::chars::{
    first_at, is_trimmed, joined, last_at, lemma_first_at, lemma_first_at_is, lemma_last_at,
    lemma_trimmed, lemma_trimmed_end, lemma_trimmed_start, rows_of, starts, trimmed, trimmed_end,
    trimmed_start, white, white_prefix,
};
use crate::palworld::{
    behind, entries, is_option_line, key_at, lemma_key_at, lemma_key_is, lemma_option_line_at,
    lemma_option_line_is, lemma_top_comma, lookup, option_line_at, option_text, read_fields,
    read_ini, read_options, rendered, step, top, top_comma, top_fields, with_option, with_setting,
    IniFault, IniView, Nesting,
};
use vstd::prelude::*;

verus! {

// ---------------------------------------------------------------------------
// Lines
// ---------------------------------------------------------------------------
/// No line of a text holds a line feed.
proof fn lemma_rows_hold_no_feed(s: Seq<char>)
    ensures
        forall|i: int| 0 <= i < rows_of(s).len() ==> !(#[trigger] rows_of(s)[i]).contains('\n'),
    decreases s.len(),
{
    if s.len() > 0 {
        lemma_first_at(s, '\n');
        let k = first_at(s, '\n');
        if k < s.len() {
            lemma_rows_hold_no_feed(s.skip(k + 1));
            assert forall|i: int| 0 <= i < rows_of(s).len() implies !(#[trigger] rows_of(
                s,
            )[i]).contains('\n') by {
                if i > 0 {
                    assert(rows_of(s)[i] == rows_of(s.skip(k + 1))[i - 1]);
                }
            }
        }
    }
}

/// Rows without line feeds, each ended by one, are read back as they were.
proof fn lemma_rows_of_joined(ls: Seq<Seq<char>>)
    requires
        forall|i: int| 0 <= i < ls.len() ==> !(#[trigger] ls[i]).contains('\n'),
        ls.len() > 0,
    ensures
        rows_of(joined(ls, seq!['\n']).push('\n')) == ls,
    decreases ls.len(),
{
    let text = joined(ls, seq!['\n']).push('\n');
    let l = ls[0];
    assert forall|i: int| 0 <= i < l.len() implies #[trigger] text[i] != '\n' by {
        assert(text[i] == l[i]);
        assert(l.contains(l[i]));
    }
    assert(text[l.len() as int] == '\n');
    lemma_first_at_is(text, '\n', l.len() as int);
    assert(text.take(l.len() as int) =~= l);
    let rest = text.skip(l.len() as int + 1);
    if ls.len() == 1 {
        assert(rest =~= Seq::empty());
        assert(rows_of(rest) =~= Seq::empty());
        assert(seq![l] + rows_of(rest) =~= ls);
    } else {
        let t = ls.drop_first();
        assert forall|i: int| 0 <= i < t.len() implies !(#[trigger] t[i]).contains('\n') by {
            assert(t[i] == ls[i + 1]);
        }
        lemma_rows_of_joined(t);
        assert(rest =~= joined(t, seq!['\n']).push('\n'));
        assert(seq![l] + t =~= ls);
    }
}

// ---------------------------------------------------------------------------
// Nesting
// ---------------------------------------------------------------------------
pub proof fn lemma_behind_concat(n: Nesting, a: Seq<char>, b: Seq<char>)
    ensures
        behind(n, a + b) == behind(behind(n, a), b),
    decreases a.len(),
{
    if a.len() == 0 {
        assert(a + b =~= b);
    } else {
        lemma_behind_concat(step(n, a[0]), a.drop_first(), b);
        assert((a + b).drop_first() =~= a.drop_first() + b);
    }
}

/// A text without a top-level comma, followed by `b`.
pub proof fn lemma_comma_concat(n: Nesting, a: Seq<char>, b: Seq<char>)
    ensures
        top_comma(n, a) == a.len() ==> top_comma(n, a + b) == a.len() + top_comma(behind(n, a), b),
        top_comma(n, a) < a.len() ==> top_comma(n, a + b) == top_comma(n, a),
    decreases a.len(),
{
    lemma_top_comma(n, a);
    if a.len() == 0 {
        assert(a + b =~= b);
    } else if !(a[0] == ',' && n == top()) {
        lemma_comma_concat(step(n, a[0]), a.drop_first(), b);
        lemma_top_comma(step(n, a[0]), a.drop_first());
        assert((a + b).drop_first() =~= a.drop_first() + b);
    }
}

/// White space neither nests nor separates.
pub proof fn lemma_white_is_neutral(n: Nesting, w: Seq<char>)
    requires
        forall|i: int| 0 <= i < w.len() ==> white(#[trigger] w[i]),
    ensures
        behind(n, w) == n,
        top_comma(n, w) == w.len(),
    decreases w.len(),
{
    if w.len() > 0 {
        let t = w.drop_first();
        assert forall|i: int| 0 <= i < t.len() implies white(#[trigger] t[i]) by {
            assert(t[i] == w[i + 1]);
        }
        assert(white(w[0]));
        lemma_white_is_neutral(n, t);
    }
}

/// `s` is a single field where it starts at nesting `n`.
pub open spec fn one_field(n: Nesting, s: Seq<char>) -> bool {
    top_comma(n, s) == s.len()
}

/// Trimming changes neither the nesting behind a text nor its being one field.
pub proof fn lemma_trim_is_neutral(n: Nesting, s: Seq<char>)
    ensures
        behind(n, trimmed(s)) == behind(n, s),
        one_field(n, s) ==> one_field(n, trimmed(s)),
{
    lemma_trimmed_start(s);
    let t = trimmed_start(s);
    lemma_trimmed_end(t);
    let u = trimmed_end(t);
    let front = s.take(white_prefix(s) as int);
    let back = t.skip(u.len() as int);
    assert(s =~= front + t);
    assert(t =~= u + back);
    assert forall|i: int| 0 <= i < back.len() implies white(#[trigger] back[i]) by {
        assert(back[i] == t[i + u.len()]);
    }
    lemma_white_is_neutral(n, front);
    lemma_white_is_neutral(behind(n, u), back);
    lemma_behind_concat(n, front, t);
    lemma_behind_concat(n, u, back);
    lemma_comma_concat(n, front, t);
    lemma_comma_concat(n, u, back);
    lemma_top_comma(n, u);
}

// ---------------------------------------------------------------------------
// Settings that survive
// ---------------------------------------------------------------------------
/// A text that the file can hold as a key or a value: it fits on a line and has no
/// white space at its ends.
pub open spec fn holdable(s: Seq<char>) -> bool {
    is_trimmed(s) && !s.contains('\n')
}

/// The entry for one setting.
pub open spec fn entry(key: Seq<char>, value: Seq<char>) -> Seq<char> {
    key + seq!['='] + value
}

/// A setting that reads back as written, where it stands last: key and value fit
/// into the file, the key has no `=`, and no comma of the entry is outside quotes
/// and parentheses.
pub open spec fn lasting(key: Seq<char>, value: Seq<char>) -> bool {
    &&& holdable(key)
    &&& holdable(value)
    &&& !key.contains('=')
    &&& one_field(top(), entry(key, value))
}

/// The quotes and parentheses of a setting are closed, so that another may follow.
pub open spec fn balanced(key: Seq<char>, value: Seq<char>) -> bool {
    behind(top(), entry(key, value)) == top()
}

/// Settings that read back as written.
pub open spec fn storable(options: Seq<(Seq<char>, Seq<char>)>) -> bool {
    &&& forall|i: int| 0 <= i < options.len() ==> lasting((#[trigger] options[i]).0, options[i].1)
    &&& forall|i: int|
        0 <= i < options.len() - 1 ==> balanced((#[trigger] options[i]).0, options[i].1)
}

/// The fields that a list of settings is written as are found again.
proof fn lemma_fields_of_joined(options: Seq<(Seq<char>, Seq<char>)>)
    requires
        storable(options),
    ensures
        top_fields(joined(entries(options), seq![','])) == entries(options),
    decreases options.len(),
{
    let fields = entries(options);
    let text = joined(fields, seq![',']);
    if options.len() > 0 {
        let f = fields[0];
        assert(f == entry(options[0].0, options[0].1));
        assert(lasting(options[0].0, options[0].1));
        assert(f.len() > 0);
        if options.len() == 1 {
            assert(fields =~= seq![f]);
        } else {
            assert(balanced(options[0].0, options[0].1));
            let rest = options.drop_first();
            assert forall|i: int| 0 <= i < rest.len() implies lasting(
                (#[trigger] rest[i]).0,
                rest[i].1,
            ) by {
                assert(rest[i] == options[i + 1]);
            }
            assert forall|i: int| 0 <= i < rest.len() - 1 implies balanced(
                (#[trigger] rest[i]).0,
                rest[i].1,
            ) by {
                assert(rest[i] == options[i + 1]);
            }
            lemma_fields_of_joined(rest);
            assert(fields.drop_first() =~= entries(rest));
            let later = joined(entries(rest), seq![',']);
            let tail = seq![','] + later;
            assert(text =~= f + tail);
            lemma_comma_concat(top(), f, tail);
            assert(top_comma(top(), tail) == 0);
            assert(text.take(f.len() as int) =~= f);
            assert(text.skip(f.len() as int + 1) =~= later);
            assert(seq![f] + entries(rest) =~= fields);
        }
    } else {
        assert(fields =~= Seq::empty());
    }
}

/// The settings are read back from the fields they are written as.
proof fn lemma_read_entries(options: Seq<(Seq<char>, Seq<char>)>)
    requires
        storable(options),
    ensures
        read_fields(entries(options)) == Ok::<Seq<(Seq<char>, Seq<char>)>, IniFault>(options),
    decreases options.len(),
{
    if options.len() > 0 {
        let (k, v) = options[0];
        let f = entry(k, v);
        let rest = options.drop_first();
        assert(lasting(options[0].0, options[0].1));
        assert forall|i: int| 0 <= i < rest.len() implies lasting(
            (#[trigger] rest[i]).0,
            rest[i].1,
        ) by {
            assert(rest[i] == options[i + 1]);
        }
        assert forall|i: int| 0 <= i < rest.len() - 1 implies balanced(
            (#[trigger] rest[i]).0,
            rest[i].1,
        ) by {
            assert(rest[i] == options[i + 1]);
        }
        lemma_read_entries(rest);
        assert(entries(options).drop_first() =~= entries(rest));
        assert(entries(options)[0] == f);
        assert(is_trimmed(f)) by {
            assert(f[0] == if k.len() > 0 {
                k[0]
            } else {
                '='
            });
            assert(f.last() == if v.len() > 0 {
                v.last()
            } else {
                '='
            });
        }
        lemma_trimmed(f);
        lemma_trimmed(k);
        lemma_trimmed(v);
        assert forall|i: int| 0 <= i < k.len() implies #[trigger] f[i] != '=' by {
            assert(f[i] == k[i]);
            assert(k.contains(k[i]));
        }
        assert(f[k.len() as int] == '=');
        lemma_first_at_is(f, '=', k.len() as int);
        assert(f.take(k.len() as int) =~= k);
        assert(f.skip(k.len() as int + 1) =~= v);
        assert(seq![(k, v)] + rest =~= options);
    } else {
        assert(options =~= Seq::empty());
    }
}

/// The text of an option line has its first `(` and its last `)` around the list.
proof fn lemma_option_text(options: Seq<(Seq<char>, Seq<char>)>)
    ensures
        is_option_line(option_text(options)),
        option_text(options).last() == ')',
        read_options(option_text(options)) == read_fields(
            top_fields(joined(entries(options), seq![','])),
        ),
{
    let list = joined(entries(options), seq![',']);
    let line = option_text(options);
    reveal_strlit("OptionSettings=(");
    reveal_strlit("OptionSettings=");
    let head = "OptionSettings=("@;
    assert(head.len() == 16);
    assert(line =~= head + list + seq![')']);
    assert forall|i: int| 0 <= i < 15 implies #[trigger] line[i] != '(' by {
        assert(line[i] == head[i]);
    }
    assert(line[15] == head[15]);
    lemma_first_at_is(line, '(', 15);
    assert(line.last() == ')');
    assert(last_at(line, ')') == line.len() - 1);
    assert(line.subrange(16, line.len() - 1) =~= list);
    assert(line[0] == head[0]);
    assert(!white(line[0]));
    assert(trimmed_start(line) == line);
    assert(line.take(15) =~= "OptionSettings="@);
}

/// A file that is written and read again: every line but the option line is there
/// as it was, the option line is the same one, and the settings are the same, in the
/// same order.
pub open spec fn reread(ini: IniView) -> IniView {
    IniView {
        lines: ini.lines.update(ini.option_line, option_text(ini.options)),
        ..ini
    }
}

/// A file is usable: its option line is the first such line, and no line holds a
/// line feed. Every file that was read is.
pub open spec fn usable(ini: IniView) -> bool {
    &&& 0 <= ini.option_line < ini.lines.len()
    &&& ini.option_line == option_line_at(ini.lines)
    &&& forall|i: int| 0 <= i < ini.lines.len() ==> !(#[trigger] ini.lines[i]).contains('\n')
}

/// Writing storable settings and reading the file again gives the settings back,
/// in order, and keeps every other line.
pub proof fn written_settings_are_read_back(ini: IniView)
    requires
        usable(ini),
        storable(ini.options),
    ensures
        read_ini(rendered(ini)) == Ok::<IniView, IniFault>(reread(ini)),
{
    let text = option_text(ini.options);
    let ls = ini.lines.update(ini.option_line, text);
    lemma_option_text(ini.options);
    lemma_fields_of_joined(ini.options);
    lemma_read_entries(ini.options);
    lemma_no_feed(ini.options);
    assert forall|i: int| 0 <= i < ls.len() implies !(#[trigger] ls[i]).contains('\n') by {
        if i != ini.option_line {
            assert(ls[i] == ini.lines[i]);
        }
    }
    lemma_rows_of_joined(ls);
    lemma_option_line_at(ini.lines);
    assert forall|i: int| 0 <= i < ini.option_line implies !is_option_line(#[trigger] ls[i]) by {
        assert(ls[i] == ini.lines[i]);
    }
    lemma_option_line_is(ls, ini.option_line);
}

/// No line feed comes into the option line.
proof fn lemma_no_feed(options: Seq<(Seq<char>, Seq<char>)>)
    requires
        storable(options),
    ensures
        !option_text(options).contains('\n'),
{
    lemma_no_feed_in_list(options);
    reveal_strlit("OptionSettings=(");
    let list = joined(entries(options), seq![',']);
    let line = option_text(options);
    if line.contains('\n') {
        let i = choose|i: int| 0 <= i < line.len() && line[i] == '\n';
        if 16 <= i < line.len() - 1 {
            assert(list[i - 16] == '\n');
            assert(list.contains('\n'));
        }
    }
}

proof fn lemma_no_feed_in_list(options: Seq<(Seq<char>, Seq<char>)>)
    requires
        forall|i: int| 0 <= i < options.len() ==> lasting((#[trigger] options[i]).0, options[i].1),
    ensures
        !joined(entries(options), seq![',']).contains('\n'),
    decreases options.len(),
{
    if options.len() > 0 {
        let (k, v) = options[0];
        let f = entry(k, v);
        assert(lasting(options[0].0, options[0].1));
        assert(entries(options)[0] == f);
        if f.contains('\n') {
            let i = choose|i: int| 0 <= i < f.len() && f[i] == '\n';
            if i < k.len() {
                assert(k[i] == '\n');
            } else if i > k.len() {
                assert(v[i - k.len() - 1] == '\n');
            }
        }
        if options.len() > 1 {
            let rest = options.drop_first();
            assert forall|i: int| 0 <= i < rest.len() implies lasting(
                (#[trigger] rest[i]).0,
                rest[i].1,
            ) by {
                assert(rest[i] == options[i + 1]);
            }
            lemma_no_feed_in_list(rest);
            assert(entries(options).drop_first() =~= entries(rest));
            let later = joined(entries(rest), seq![',']);
            let list = joined(entries(options), seq![',']);
            assert(list =~= f + seq![','] + later);
            if list.contains('\n') {
                let i = choose|i: int| 0 <= i < list.len() && list[i] == '\n';
                if i < f.len() {
                    assert(f[i] == '\n');
                } else if i > f.len() {
                    assert(later[i - f.len() - 1] == '\n');
                }
            }
        }
    }
}

// ---------------------------------------------------------------------------
// Settings that were read
// ---------------------------------------------------------------------------
/// What is known of the fields of an option list.
proof fn lemma_top_fields(s: Seq<char>)
    ensures
        forall|i: int|
            0 <= i < top_fields(s).len() ==> one_field(top(), #[trigger] top_fields(s)[i]),
        forall|i: int|
            0 <= i < top_fields(s).len() - 1 ==> behind(top(), #[trigger] top_fields(s)[i])
                == top(),
        forall|i: int, c: char|
            0 <= i < top_fields(s).len() && (#[trigger] top_fields(s)[i]).contains(c)
                ==> #[trigger] s.contains(c),
    decreases s.len(),
{
    if s.len() > 0 {
        lemma_top_comma(top(), s);
        let k = top_comma(top(), s);
        if k < s.len() {
            let t = s.skip(k + 1);
            lemma_top_fields(t);
            let fs = top_fields(s);
            assert forall|i: int| 0 <= i < fs.len() implies one_field(top(), #[trigger] fs[i]) by {
                if i > 0 {
                    assert(fs[i] == top_fields(t)[i - 1]);
                }
            }
            assert forall|i: int| 0 <= i < fs.len() - 1 implies behind(top(), #[trigger] fs[i])
                == top() by {
                if i > 0 {
                    assert(fs[i] == top_fields(t)[i - 1]);
                }
            }
            assert forall|i: int, c: char|
                0 <= i < fs.len() && (#[trigger] fs[i]).contains(c) implies #[trigger] s.contains(
                c,
            ) by {
                if i > 0 {
                    assert(fs[i] == top_fields(t)[i - 1]);
                    assert(t.contains(c));
                    let j = choose|j: int| 0 <= j < t.len() && t[j] == c;
                    assert(s[j + k + 1] == c);
                } else {
                    let j = choose|j: int| 0 <= j < fs[0].len() && fs[0][j] == c;
                    assert(s[j] == c);
                }
            }
        }
    }
}

/// The setting that a field stands for lasts, and is balanced where the field is.
proof fn lemma_field_lasts(f: Seq<char>)
    requires
        one_field(top(), f),
        !f.contains('\n'),
        first_at(trimmed(f), '=') < trimmed(f).len(),
    ensures
        ({
            let g = trimmed(f);
            let eq = first_at(g, '=');
            let k = trimmed(g.take(eq));
            let v = trimmed(g.skip(eq + 1));
            lasting(k, v) && behind(top(), entry(k, v)) == behind(top(), f)
        }),
{
    let g = trimmed(f);
    let eq = first_at(g, '=');
    let a = g.take(eq);
    let b = g.skip(eq + 1);
    let k = trimmed(a);
    let v = trimmed(b);
    lemma_first_at(g, '=');
    lemma_trimmed(f);
    lemma_trimmed(a);
    lemma_trimmed(b);
    lemma_trim_is_neutral(top(), f);
    let n = behind(top(), a);
    let e = seq!['='];
    assert(step(n, '=') == n);
    assert(e.drop_first() =~= Seq::empty());
    assert(behind(n, e) == n) by {
        assert(behind(n, e) == behind(step(n, e[0]), e.drop_first()));
    }
    assert(top_comma(n, e) == 1) by {
        assert(top_comma(n, e) == 1 + top_comma(step(n, e[0]), e.drop_first()));
        lemma_top_comma(n, e.drop_first());
    }
    assert(g =~= a + (e + b));
    lemma_comma_concat(top(), a, e + b);
    lemma_comma_concat(n, e, b);
    lemma_behind_concat(top(), a, e + b);
    lemma_behind_concat(n, e, b);
    lemma_top_comma(top(), a);
    lemma_top_comma(n, b);
    lemma_top_comma(n, e + b);
    lemma_trim_is_neutral(top(), a);
    lemma_trim_is_neutral(n, b);
    assert(entry(k, v) =~= k + (e + v));
    lemma_comma_concat(top(), k, e + v);
    lemma_comma_concat(n, e, v);
    lemma_behind_concat(top(), k, e + v);
    lemma_behind_concat(n, e, v);
    assert(!k.contains('=')) by {
        if k.contains('=') {
            assert(a.contains('='));
            let i = choose|i: int| 0 <= i < a.len() && a[i] == '=';
            assert(g[i] == '=');
        }
    }
    assert(!k.contains('\n')) by {
        if k.contains('\n') {
            assert(a.contains('\n'));
            let i = choose|i: int| 0 <= i < a.len() && a[i] == '\n';
            assert(g[i] == '\n');
            assert(g.contains('\n'));
        }
    }
    assert(!v.contains('\n')) by {
        if v.contains('\n') {
            assert(b.contains('\n'));
            let i = choose|i: int| 0 <= i < b.len() && b[i] == '\n';
            assert(g[i + eq + 1] == '\n');
            assert(g.contains('\n'));
        }
    }
}

/// Settings read from fields are storable.
proof fn lemma_read_fields_storable(fields: Seq<Seq<char>>)
    requires
        forall|i: int| 0 <= i < fields.len() ==> one_field(top(), #[trigger] fields[i]),
        forall|i: int| 0 <= i < fields.len() ==> !(#[trigger] fields[i]).contains('\n'),
        forall|i: int| 0 <= i < fields.len() - 1 ==> behind(top(), #[trigger] fields[i]) == top(),
    ensures
        read_fields(fields) matches Ok(options) ==> storable(options) && (fields.len() == 0
            ==> options.len() == 0),
    decreases fields.len(),
{
    if fields.len() > 0 {
        let rest = fields.drop_first();
        assert forall|i: int| 0 <= i < rest.len() implies one_field(top(), #[trigger] rest[i]) by {
            assert(rest[i] == fields[i + 1]);
        }
        assert forall|i: int| 0 <= i < rest.len() implies !(#[trigger] rest[i]).contains('\n') by {
            assert(rest[i] == fields[i + 1]);
        }
        assert forall|i: int| 0 <= i < rest.len() - 1 implies behind(top(), #[trigger] rest[i])
            == top() by {
            assert(rest[i] == fields[i + 1]);
        }
        lemma_read_fields_storable(rest);
        let f = trimmed(fields[0]);
        let eq = first_at(f, '=');
        lemma_first_at(f, '=');
        if f.len() > 0 && eq < f.len() && read_fields(rest) is Ok {
            lemma_field_lasts(fields[0]);
            let later = read_fields(rest)->Ok_0;
            let one = (trimmed(f.take(eq)), trimmed(f.skip(eq + 1)));
            let options = seq![one] + later;
            assert forall|i: int| 0 <= i < options.len() implies lasting(
                (#[trigger] options[i]).0,
                options[i].1,
            ) by {
                if i > 0 {
                    assert(options[i] == later[i - 1]);
                }
            }
            assert forall|i: int| 0 <= i < options.len() - 1 implies balanced(
                (#[trigger] options[i]).0,
                options[i].1,
            ) by {
                if i > 0 {
                    assert(options[i] == later[i - 1]);
                } else {
                    assert(fields.len() > 1);
                }
            }
        }
    }
}

/// Every file that was read is usable, and its settings are storable.
pub proof fn read_settings_are_storable(text: Seq<char>)
    ensures
        read_ini(text) matches Ok(ini) ==> usable(ini) && storable(ini.options),
{
    let lines = rows_of(text);
    lemma_rows_hold_no_feed(text);
    lemma_option_line_at(lines);
    if read_ini(text) is Ok {
        let at = option_line_at(lines);
        let line = lines[at];
        lemma_first_at(line, '(');
        lemma_last_at(line, ')');
        let open = first_at(line, '(');
        let close = last_at(line, ')');
        let inner = line.subrange(open + 1, close);
        lemma_top_fields(inner);
        let fields = top_fields(inner);
        assert(!inner.contains('\n')) by {
            if inner.contains('\n') {
                let i = choose|i: int| 0 <= i < inner.len() && inner[i] == '\n';
                assert(line[i + open + 1] == '\n');
            }
        }
        lemma_read_fields_storable(fields);
    }
}

/// A file that was read, written and read again holds the same settings in the same
/// order: nothing is dropped, whether the key is known or not.
pub proof fn read_write_read(text: Seq<char>)
    ensures
        read_ini(text) matches Ok(ini) ==> read_ini(rendered(ini)) == Ok::<IniView, IniFault>(
            reread(ini),
        ) && reread(ini).options == ini.options,
{
    read_settings_are_storable(text);
    if read_ini(text) is Ok {
        written_settings_are_read_back(read_ini(text)->Ok_0);
    }
}

/// The storable settings are exactly those that a written file gives back.
pub proof fn only_storable_settings_are_read_back(ini: IniView)
    requires
        usable(ini),
    ensures
        storable(ini.options) <==> (read_ini(rendered(ini)) matches Ok(again) && again.options
            == ini.options),
{
    if storable(ini.options) {
        written_settings_are_read_back(ini);
    }
    read_settings_are_storable(rendered(ini));
}

/// Every line but the option line is written as it was read, byte for byte.
pub proof fn other_lines_are_kept(text: Seq<char>, i: int)
    requires
        read_ini(text) is Ok,
        0 <= i < rows_of(text).len(),
        i != option_line_at(rows_of(text)),
    ensures
        reread(read_ini(text)->Ok_0).lines[i] == rows_of(text)[i],
        rows_of(rendered(read_ini(text)->Ok_0))[i] == rows_of(text)[i],
{
    read_write_read(text);
    read_settings_are_storable(text);
}

// ---------------------------------------------------------------------------
// Changing settings
// ---------------------------------------------------------------------------
/// Setting a key makes it read as the new value, leaves every other key alone and
/// every other setting where it was.
pub proof fn set_changes_one_key(
    options: Seq<(Seq<char>, Seq<char>)>,
    key: Seq<char>,
    value: Seq<char>,
    other: Seq<char>,
)
    ensures
        lookup(with_option(options, key, value), key) == Some(value),
        other != key ==> lookup(with_option(options, key, value), other) == lookup(options, other),
        forall|i: int|
            0 <= i < options.len() && i != key_at(options, key) ==> #[trigger] with_option(
                options,
                key,
                value,
            )[i] == options[i],
        with_option(options, key, value).len() == (if lookup(options, key) is Some {
            options.len()
        } else {
            options.len() + 1
        }),
{
    let changed = with_option(options, key, value);
    lemma_key_at(options, key);
    let k = key_at(options, key);
    assert forall|i: int| 0 <= i < k implies (#[trigger] changed[i]).0 != key by {
        assert(changed[i] == options[i]);
    }
    lemma_key_is(changed, key, k);
    if other != key {
        lemma_key_at(options, other);
        let o = key_at(options, other);
        if o < options.len() {
            assert forall|i: int| 0 <= i < o implies (#[trigger] changed[i]).0 != other by {
                if i != k {
                    assert(changed[i] == options[i]);
                }
            }
            assert(changed[o] == options[o]);
            lemma_key_is(changed, other, o);
        } else {
            assert forall|i: int| 0 <= i < changed.len() implies (#[trigger] changed[i]).0
                != other by {
                if i != k {
                    assert(changed[i] == options[i]);
                }
            }
            lemma_key_is(changed, other, changed.len() as int);
        }
    }
}

/// Settings stay storable when a lasting one is set: it must be balanced where
/// another follows it, and it must not follow an unbalanced one.
pub proof fn set_keeps_settings_storable(
    options: Seq<(Seq<char>, Seq<char>)>,
    key: Seq<char>,
    value: Seq<char>,
)
    requires
        storable(options),
        lasting(key, value),
        key_at(options, key) < options.len() - 1 ==> balanced(key, value),
        lookup(options, key) is None && options.len() > 0 ==> balanced(
            options.last().0,
            options.last().1,
        ),
    ensures
        storable(with_option(options, key, value)),
{
    let changed = with_option(options, key, value);
    lemma_key_at(options, key);
    let k = key_at(options, key);
    assert forall|i: int| 0 <= i < changed.len() implies lasting(
        (#[trigger] changed[i]).0,
        changed[i].1,
    ) by {
        if i != k {
            assert(changed[i] == options[i]);
        }
    }
    assert forall|i: int| 0 <= i < changed.len() - 1 implies balanced(
        (#[trigger] changed[i]).0,
        changed[i].1,
    ) by {
        if i != k {
            assert(changed[i] == options[i]);
            if i == options.len() - 1 {
                assert(options[i] == options.last());
            }
        }
    }
}

/// A setting that was set is read back from the written file.
pub proof fn set_write_read(ini: IniView, key: Seq<char>, value: Seq<char>)
    requires
        usable(ini),
        storable(ini.options),
        lasting(key, value),
        key_at(ini.options, key) < ini.options.len() - 1 ==> balanced(key, value),
        lookup(ini.options, key) is None && ini.options.len() > 0 ==> balanced(
            ini.options.last().0,
            ini.options.last().1,
        ),
    ensures
        read_ini(rendered(with_setting(ini, key, value))) == Ok::<IniView, IniFault>(
            reread(with_setting(ini, key, value)),
        ),
        lookup(reread(with_setting(ini, key, value)).options, key) == Some(value),
{
    set_keeps_settings_storable(ini.options, key, value);
    written_settings_are_read_back(with_setting(ini, key, value));
    set_changes_one_key(ini.options, key, value, key);
}

} // verus!
