//! How a setting is shown in a form, and what an edit writes.
use crate::catalog::{Kind, KindView, Spec};
use crate::chars::{same, stripped, stripped_end, stripped_start, swap, swapped, white};
use crate::numbers::{
    decimal, decimal_int, integer_text, lemma_decimal, signed, written_integers_are_read_back,
};
use crate::palworld::{
    behind, lookup, top, top_comma, truth, with_option, with_setting, IniView, Nesting, PalIni,
};
use crate::round_trip::{
    balanced, holdable, lasting, lemma_behind_concat, lemma_comma_concat, set_changes_one_key,
};
use vstd::prelude::*;

verus! {

/// A setting in the form.
#[derive(Debug)]
pub enum Field {
    /// A rate as the file has it, to be shown between two bounds in tenths.
    Rate { written: Option<String>, min_tenths: i64, max_tenths: i64 },
    Whole { current: i64, min: i64, max: i64 },
    Switch(bool),
    Choice { selected: String, options: Vec<&'static str> },
    /// What stands between the quotes.
    Text(String),
    /// The same, not to be shown by default.
    Secret(String),
    /// As it stands in the file.
    Raw(String),
}

pub enum FieldView {
    Rate { written: Option<Seq<char>>, min_tenths: int, max_tenths: int },
    Whole { current: int, min: int, max: int },
    Switch(bool),
    Choice { selected: Seq<char>, options: Seq<Seq<char>> },
    Text(Seq<char>),
    Secret(Seq<char>),
    Raw(Seq<char>),
}

impl View for Field {
    type V = FieldView;

    open spec fn view(&self) -> FieldView {
        match self {
            Field::Rate { written, min_tenths, max_tenths } => FieldView::Rate {
                written: match written {
                    Some(s) => Some(s@),
                    None => None,
                },
                min_tenths: *min_tenths as int,
                max_tenths: *max_tenths as int,
            },
            Field::Whole { current, min, max } => FieldView::Whole {
                current: *current as int,
                min: *min as int,
                max: *max as int,
            },
            Field::Switch(on) => FieldView::Switch(*on),
            Field::Choice { selected, options } => FieldView::Choice {
                selected: selected@,
                options: options@.map_values(|s: &'static str| s@),
            },
            Field::Text(s) => FieldView::Text(s@),
            Field::Secret(s) => FieldView::Secret(s@),
            Field::Raw(s) => FieldView::Raw(s@),
        }
    }
}

/// A text, or the empty one.
pub open spec fn or_empty(s: Option<Seq<char>>) -> Seq<char> {
    match s {
        Some(s) => s,
        None => ""@,
    }
}

/// The text inside the quotes of a setting.
pub open spec fn unquoted(value: Option<Seq<char>>) -> Seq<char> {
    match value {
        Some(v) => stripped(v, '"'),
        None => ""@,
    }
}

/// How a setting with that value is shown. What cannot be read is shown as the least
/// value, as off, or as nothing.
pub open spec fn shown_as(kind: KindView, value: Option<Seq<char>>) -> FieldView {
    match kind {
        KindView::Float { min_tenths, max_tenths } => FieldView::Rate {
            written: value,
            min_tenths,
            max_tenths,
        },
        KindView::Int { min, max } => FieldView::Whole {
            current: match value {
                Some(v) => match signed(v, i64::MIN as int, i64::MAX as int) {
                    Some(n) => n,
                    None => min,
                },
                None => min,
            },
            min,
            max,
        },
        KindView::Bool => FieldView::Switch(
            match value {
                Some(v) => truth(v) == Some(true),
                None => false,
            },
        ),
        KindView::Choice(options) => FieldView::Choice { selected: or_empty(value), options },
        KindView::Text => FieldView::Text(unquoted(value)),
        KindView::Secret => FieldView::Secret(unquoted(value)),
        KindView::Raw => FieldView::Raw(or_empty(value)),
    }
}

fn text_inside(ini: &PalIni, key: &str) -> (r: String)
    ensures
        r@ == unquoted(lookup(ini@.options, key@)),
{
    match ini.get_str(key) {
        Some(s) => s.to_owned(),
        None => "".to_owned(),
    }
}

fn text_as_is(ini: &PalIni, key: &str) -> (r: String)
    ensures
        r@ == or_empty(lookup(ini@.options, key@)),
{
    match ini.get(key) {
        Some(s) => s.to_owned(),
        None => "".to_owned(),
    }
}

fn copy_options(v: &Vec<&'static str>) -> (r: Vec<&'static str>)
    ensures
        r@ == v@,
{
    let mut out: Vec<&'static str> = Vec::new();
    let mut i: usize = 0;
    while i < v.len()
        invariant
            i <= v.len(),
            out@ == v@.take(i as int),
        decreases v.len() - i,
    {
        out.push(v[i]);
        i += 1;
        assert(out@ =~= v@.take(i as int));
    }
    assert(v@.take(i as int) =~= v@);
    out
}

/// How a setting is shown.
pub fn field(ini: &PalIni, spec: &Spec) -> (r: Field)
    ensures
        r@ == shown_as(spec@.kind, lookup(ini@.options, spec@.key)),
{
    match &spec.kind {
        Kind::Float { min_tenths, max_tenths } => Field::Rate {
            written: match ini.get(spec.key) {
                Some(s) => Some(s.to_owned()),
                None => None,
            },
            min_tenths: *min_tenths,
            max_tenths: *max_tenths,
        },
        Kind::Int { min, max } => Field::Whole {
            current: match ini.get_i64(spec.key) {
                Some(n) => n,
                None => *min,
            },
            min: *min,
            max: *max,
        },
        Kind::Bool => Field::Switch(
            match ini.get_bool(spec.key) {
                Some(on) => on,
                None => false,
            },
        ),
        Kind::Choice(options) => Field::Choice {
            selected: text_as_is(ini, spec.key),
            options: copy_options(options),
        },
        Kind::Text => Field::Text(text_inside(ini, spec.key)),
        Kind::Secret => Field::Secret(text_inside(ini, spec.key)),
        Kind::Raw => Field::Raw(text_as_is(ini, spec.key)),
    }
}

// ---------------------------------------------------------------------------
// Edits
// ---------------------------------------------------------------------------
/// A typed text as the file holds it: between quotes, and without any of its own.
pub open spec fn quoted_text(typed: Seq<char>) -> Seq<char> {
    seq!['"'] + swapped(typed, '"', Seq::empty()) + seq!['"']
}

/// A switch as the file holds it.
pub open spec fn switch_text(on: bool) -> Seq<char> {
    if on {
        "True"@
    } else {
        "False"@
    }
}

/// The file with an integer written to it.
pub open spec fn with_whole(ini: IniView, key: Seq<char>, n: int) -> IniView {
    with_setting(ini, key, decimal_int(n))
}

/// The file with a switch set in it.
pub open spec fn with_switch(ini: IniView, key: Seq<char>, on: bool) -> IniView {
    with_setting(ini, key, switch_text(on))
}

/// The file with a choice made in it, where it is another than before.
pub open spec fn with_choice(ini: IniView, key: Seq<char>, selected: Seq<char>) -> IniView {
    if or_empty(lookup(ini.options, key)) == selected {
        ini
    } else {
        with_setting(ini, key, selected)
    }
}

/// The file with a text written to it. Palworld stores these quoted; it stays that way.
pub open spec fn with_text(ini: IniView, key: Seq<char>, typed: Seq<char>) -> IniView {
    with_setting(ini, key, quoted_text(typed))
}

/// The file with a value written to it as typed.
pub open spec fn with_raw(ini: IniView, key: Seq<char>, typed: Seq<char>) -> IniView {
    with_setting(ini, key, typed)
}

/// Writes an integer.
pub fn edit_whole(ini: &mut PalIni, key: &str, n: i64)
    ensures
        final(ini)@ == with_whole(old(ini)@, key@, n as int),
{
    let text = integer_text(n);
    ini.set(key, text.as_str());
}

/// Writes a switch.
pub fn edit_switch(ini: &mut PalIni, key: &str, on: bool)
    ensures
        final(ini)@ == with_switch(old(ini)@, key@, on),
{
    ini.set(
        key,
        if on {
            "True"
        } else {
            "False"
        },
    );
}

/// Writes a choice, where it is another than before.
pub fn edit_choice(ini: &mut PalIni, key: &str, selected: &str)
    ensures
        final(ini)@ == with_choice(old(ini)@, key@, selected@),
{
    let current = text_as_is(ini, key);
    if !same(current.as_str(), selected) {
        ini.set(key, selected);
    }
}

/// Writes a text. Palworld stores these quoted; it stays that way.
pub fn edit_text(ini: &mut PalIni, key: &str, typed: &str)
    ensures
        final(ini)@ == with_text(old(ini)@, key@, typed@),
{
    proof {
        reveal_strlit("");
        assert(""@ =~= Seq::empty());
    }
    let mut text = String::new();
    text.push('"');
    text.append(swap(typed, '"', "").as_str());
    text.push('"');
    assert(text@ =~= quoted_text(typed@));
    ini.set(key, text.as_str());
}

/// Writes a value exactly as typed.
pub fn edit_raw(ini: &mut PalIni, key: &str, typed: &str)
    ensures
        final(ini)@ == with_raw(old(ini)@, key@, typed@),
{
    ini.set(key, typed);
}

// ---------------------------------------------------------------------------
// What an edit keeps
// ---------------------------------------------------------------------------
/// The character neither nests nor separates, and is no white space.
pub open spec fn plain_char(c: char) -> bool {
    c != '"' && c != '(' && c != ')' && c != ',' && c != '\n' && !white(c)
}

/// Made of plain characters.
pub open spec fn plain(s: Seq<char>) -> bool {
    forall|i: int| 0 <= i < s.len() ==> plain_char(#[trigger] s[i])
}

/// A key that can be written: plain, and without `=`.
pub open spec fn plain_key(key: Seq<char>) -> bool {
    plain(key) && !key.contains('=')
}

proof fn lemma_plain_nesting(n: Nesting, s: Seq<char>)
    requires
        plain(s),
    ensures
        behind(n, s) == n,
        top_comma(n, s) == s.len(),
    decreases s.len(),
{
    if s.len() > 0 {
        assert(plain_char(s[0]));
        let t = s.drop_first();
        assert forall|i: int| 0 <= i < t.len() implies plain_char(#[trigger] t[i]) by {
            assert(t[i] == s[i + 1]);
        }
        lemma_plain_nesting(n, t);
    }
}

/// Inside quotes nothing nests or separates.
proof fn lemma_quoted_nesting(n: Nesting, s: Seq<char>)
    requires
        n.quoted,
        !s.contains('"'),
    ensures
        behind(n, s) == n,
        top_comma(n, s) == s.len(),
    decreases s.len(),
{
    if s.len() > 0 {
        assert(s.contains(s[0]));
        let t = s.drop_first();
        assert(!t.contains('"')) by {
            if t.contains('"') {
                let i = choose|i: int| 0 <= i < t.len() && t[i] == '"';
                assert(s[i + 1] == '"');
            }
        }
        lemma_quoted_nesting(n, t);
    }
}

pub proof fn lemma_plain_holds(s: Seq<char>)
    requires
        plain(s),
    ensures
        holdable(s),
{
    if s.len() > 0 {
        assert(plain_char(s[0]));
        assert(plain_char(s[s.len() - 1]));
    }
    if s.contains('\n') {
        let i = choose|i: int| 0 <= i < s.len() && s[i] == '\n';
        assert(plain_char(s[i]));
    }
}

/// `=` nests nothing.
pub proof fn lemma_key_nesting(key: Seq<char>)
    requires
        plain_key(key),
    ensures
        behind(top(), key + seq!['=']) == top(),
        top_comma(top(), key + seq!['=']) == key.len() + 1,
{
    lemma_plain_nesting(top(), key);
    let eq = seq!['='];
    lemma_behind_concat(top(), key, eq);
    lemma_comma_concat(top(), key, eq);
    assert(eq.drop_first() =~= Seq::empty());
    reveal_with_fuel(behind, 2);
    reveal_with_fuel(top_comma, 2);
    assert(eq[0] == '=');
}

/// A plain value survives being written, wherever it stands.
pub proof fn plain_values_last(key: Seq<char>, value: Seq<char>)
    requires
        plain_key(key),
        plain(value),
    ensures
        lasting(key, value),
        balanced(key, value),
{
    lemma_plain_holds(key);
    lemma_plain_holds(value);
    lemma_key_nesting(key);
    lemma_plain_nesting(top(), value);
    lemma_behind_concat(top(), key + seq!['='], value);
    lemma_comma_concat(top(), key + seq!['='], value);
}

proof fn lemma_swapped(s: Seq<char>)
    ensures
        !swapped(s, '"', Seq::empty()).contains('"'),
        !s.contains('\n') ==> !swapped(s, '"', Seq::empty()).contains('\n'),
        !s.contains('"') ==> swapped(s, '"', Seq::empty()) == s,
    decreases s.len(),
{
    let w = swapped(s, '"', Seq::empty());
    if s.len() > 0 {
        let t = s.drop_first();
        lemma_swapped(t);
        let u = swapped(t, '"', Seq::empty());
        assert(forall|i: int| 0 <= i < t.len() ==> #[trigger] t[i] == s[i + 1]);
        assert(s.contains(s[0]));
        assert(t.contains('\n') ==> s.contains('\n'));
        assert(t.contains('"') ==> s.contains('"'));
        if s[0] == '"' {
            assert(w =~= u);
        } else {
            assert(w =~= seq![s[0]] + u);
            if w.contains('"') {
                let i = choose|i: int| 0 <= i < w.len() && w[i] == '"';
                assert(u[i - 1] == '"');
            }
            if w.contains('\n') && s[0] != '\n' {
                let i = choose|i: int| 0 <= i < w.len() && w[i] == '\n';
                assert(u[i - 1] == '\n');
            }
            if !s.contains('"') {
                assert(w =~= s);
            }
        }
    }
}

/// A typed text survives being written, whatever it is, as long as it is one line.
pub proof fn typed_texts_last(key: Seq<char>, typed: Seq<char>)
    requires
        plain_key(key),
        !typed.contains('\n'),
    ensures
        lasting(key, quoted_text(typed)),
        balanced(key, quoted_text(typed)),
{
    let w = swapped(typed, '"', Seq::empty());
    let value = quoted_text(typed);
    let q = seq!['"'];
    let head = key + seq!['='];
    let inside = Nesting { quoted: true, depth: 0 };
    lemma_swapped(typed);
    lemma_plain_holds(key);
    assert(value[0] == '"' && value.last() == '"');
    assert(!value.contains('\n')) by {
        if value.contains('\n') {
            let i = choose|i: int| 0 <= i < value.len() && value[i] == '\n';
            assert(w[i - 1] == '\n');
        }
    }
    lemma_key_nesting(key);
    lemma_quoted_nesting(inside, w);
    assert(q.drop_first() =~= Seq::empty());
    reveal_with_fuel(behind, 2);
    reveal_with_fuel(top_comma, 2);
    assert(q[0] == '"');
    assert(behind(top(), q) == inside);
    assert(top_comma(top(), q) == 1);
    assert(behind(inside, q) == top());
    assert(top_comma(inside, q) == 1);
    lemma_behind_concat(top(), q, w);
    lemma_comma_concat(top(), q, w);
    lemma_behind_concat(top(), q + w, q);
    lemma_comma_concat(top(), q + w, q);
    lemma_behind_concat(top(), head, value);
    lemma_comma_concat(top(), head, value);
}

/// A typed text is shown again as typed, but for the quotes in it.
pub proof fn typed_texts_are_shown_again(
    options: Seq<(Seq<char>, Seq<char>)>,
    key: Seq<char>,
    typed: Seq<char>,
)
    ensures
        ({
            let after = with_option(options, key, quoted_text(typed));
            let left = swapped(typed, '"', Seq::empty());
            &&& shown_as(KindView::Text, lookup(after, key)) == FieldView::Text(left)
            &&& shown_as(KindView::Secret, lookup(after, key)) == FieldView::Secret(left)
            &&& !typed.contains('"') ==> left == typed
        }),
{
    let w = swapped(typed, '"', Seq::empty());
    let value = quoted_text(typed);
    lemma_swapped(typed);
    set_changes_one_key(options, key, value, key);
    let rest = w + seq!['"'];
    assert(value.drop_first() =~= rest);
    assert(value[0] == '"');
    assert(stripped_start(value, '"') == stripped_start(rest, '"'));
    if w.len() == 0 {
        assert(rest =~= seq!['"']);
        assert(rest.drop_first() =~= Seq::empty());
        assert(stripped_start(rest, '"') == stripped_start(rest.drop_first(), '"'));
        assert(stripped(value, '"') =~= w);
    } else {
        assert(w.contains(w[0]));
        assert(rest[0] == w[0]);
        assert(stripped_start(rest, '"') == rest);
        assert(rest.drop_last() =~= w);
        assert(rest.last() == '"');
        assert(w.contains(w.last())) by {
            assert(w[w.len() - 1] == w.last());
        }
        assert(stripped_end(w, '"') == w);
        assert(stripped(value, '"') =~= w);
    }
}

/// An integer is shown again as written, and survives being written.
pub proof fn written_integers_are_shown_again(
    options: Seq<(Seq<char>, Seq<char>)>,
    key: Seq<char>,
    n: int,
    min: int,
    max: int,
)
    requires
        i64::MIN <= n <= i64::MAX,
    ensures
        shown_as(
            KindView::Int { min, max },
            lookup(with_option(options, key, decimal_int(n)), key),
        ) == (FieldView::Whole { current: n, min, max }),
        plain(decimal_int(n)),
{
    set_changes_one_key(options, key, decimal_int(n), key);
    written_integers_are_read_back(n, i64::MIN as int, i64::MAX as int);
    let m: nat = if n < 0 {
        (-n) as nat
    } else {
        n as nat
    };
    lemma_decimal(m);
    let text = decimal_int(n);
    assert forall|i: int| 0 <= i < text.len() implies plain_char(#[trigger] text[i]) by {
        if n < 0 {
            if i > 0 {
                assert(text[i] == decimal(m)[i - 1]);
            }
        }
    }
}

/// A switch is shown again as set, and survives being written.
pub proof fn set_switches_are_shown_again(
    options: Seq<(Seq<char>, Seq<char>)>,
    key: Seq<char>,
    on: bool,
)
    ensures
        shown_as(
            KindView::Bool,
            lookup(with_option(options, key, switch_text(on)), key),
        ) == FieldView::Switch(on),
        plain(switch_text(on)),
{
    set_changes_one_key(options, key, switch_text(on), key);
    reveal_strlit("True");
    reveal_strlit("true");
    reveal_strlit("False");
    reveal_strlit("false");
    assert("True"@.len() == 4 && "true"@.len() == 4 && "False"@.len() == 5 && "false"@.len() == 5);
}

/// What was typed raw, and what was chosen, is shown again as it is.
pub proof fn raw_values_are_shown_again(
    options: Seq<(Seq<char>, Seq<char>)>,
    key: Seq<char>,
    typed: Seq<char>,
    choices: Seq<Seq<char>>,
)
    ensures
        shown_as(KindView::Raw, lookup(with_option(options, key, typed), key)) == FieldView::Raw(
            typed,
        ),
        shown_as(KindView::Choice(choices), lookup(with_option(options, key, typed), key)) == (
        FieldView::Choice { selected: typed, options: choices }),
{
    set_changes_one_key(options, key, typed, key);
}

} // verus!
