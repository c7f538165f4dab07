//! Parse and patch `PalWorldSettings.ini`.
//!
//! The whole file matters only for one line:
//!
//! ```text
//! OptionSettings=(Difficulty=None,DayTimeSpeedRate=1.000000,ServerName="アルカトラズ島",...)
//! ```
//!
//! Every other line is kept byte-identical and only that one is rewritten,
//! preserving key order and any keys nobody here knows about: a future Palworld
//! update can add settings without VWatch silently dropping them.
pub use crate::catalog::{groups, Group, Kind, Spec};
use crate::chars::{
    chars_of, copy_texts, find, first_at, join, joined, last_at, rfind, rows, rows_of, runs, same,
    starts, starts_with, strip, stripped, text_of, texts, trim, trim_start, trimmed, trimmed_start,
};
use crate::numbers::{read_i64, signed};
use vstd::prelude::*;
use vstd::slice::slice_subrange;

verus! {

/// What a settings file holds: its lines, which of them is the
/// `OptionSettings` line, and the settings of that line in file order.
#[verifier::ext_equal]
pub struct IniView {
    pub lines: Seq<Seq<char>>,
    pub option_line: int,
    pub options: Seq<(Seq<char>, Seq<char>)>,
}

/// Why a settings file cannot be read, as the specifications see it.
pub enum IniFault {
    NoOptionLine,
    NoOpen,
    NoClose,
    CloseBeforeOpen,
    Malformed(Seq<char>),
}

/// Why a settings file cannot be read.
#[derive(Debug)]
pub enum IniError {
    /// No line starts with `OptionSettings=`.
    NoOptionLine,
    /// The `OptionSettings` line has no `(`.
    NoOpen,
    /// The `OptionSettings` line has no `)`.
    NoClose,
    /// Its last `)` stands before its first `(`.
    CloseBeforeOpen,
    /// An entry without `=`.
    Malformed(String),
}

impl View for IniError {
    type V = IniFault;

    open spec fn view(&self) -> IniFault {
        match self {
            IniError::NoOptionLine => IniFault::NoOptionLine,
            IniError::NoOpen => IniFault::NoOpen,
            IniError::NoClose => IniFault::NoClose,
            IniError::CloseBeforeOpen => IniFault::CloseBeforeOpen,
            IniError::Malformed(s) => IniFault::Malformed(s@),
        }
    }
}

/// The sentence that tells the user what is wrong with a file.
pub open spec fn fault_text(f: IniFault) -> Seq<char> {
    match f {
        IniFault::NoOptionLine =>
            "no `OptionSettings=(...)` line found in PalWorldSettings.ini"@,
        IniFault::NoOpen => "OptionSettings line has no opening `(`"@,
        IniFault::NoClose => "OptionSettings line has no closing `)`"@,
        IniFault::CloseBeforeOpen => "OptionSettings line has `)` before `(`"@,
        IniFault::Malformed(s) => "malformed OptionSettings entry: `"@ + s + "`"@,
    }
}

impl IniError {
    /// The sentence that tells the user what is wrong.
    pub fn message(&self) -> (r: String)
        ensures
            r@ == fault_text(self@),
    {
        match self {
            IniError::NoOptionLine =>
                "no `OptionSettings=(...)` line found in PalWorldSettings.ini".to_owned(),
            IniError::NoOpen => "OptionSettings line has no opening `(`".to_owned(),
            IniError::NoClose => "OptionSettings line has no closing `)`".to_owned(),
            IniError::CloseBeforeOpen => "OptionSettings line has `)` before `(`".to_owned(),
            IniError::Malformed(s) => {
                let mut out = "malformed OptionSettings entry: `".to_owned();
                out.append(s.as_str());
                out.append("`");
                out
            },
        }
    }
}

// ---------------------------------------------------------------------------
// The option list
// ---------------------------------------------------------------------------
/// Where a character stands: inside quotes or not, and within how many parentheses.
pub struct Nesting {
    pub quoted: bool,
    pub depth: nat,
}

/// Outside of everything.
pub open spec fn top() -> Nesting {
    Nesting { quoted: false, depth: 0 }
}

/// The nesting behind `c`, where `n` is the nesting in front of it. Parentheses
/// count outside quotes only, and a `)` too many is ignored.
pub open spec fn step(n: Nesting, c: char) -> Nesting {
    if c == '"' {
        Nesting { quoted: !n.quoted, ..n }
    } else if n.quoted {
        n
    } else if c == '(' {
        Nesting { depth: n.depth + 1, ..n }
    } else if c == ')' && n.depth > 0 {
        Nesting { depth: (n.depth - 1) as nat, ..n }
    } else {
        n
    }
}

/// The nesting behind `s`, where `n` is the nesting in front of it.
pub open spec fn behind(n: Nesting, s: Seq<char>) -> Nesting
    decreases s.len(),
{
    if s.len() == 0 {
        n
    } else {
        behind(step(n, s[0]), s.drop_first())
    }
}

/// The position of the first comma of `s` outside quotes and parentheses, where
/// `n` is the nesting in front of `s`; the length of `s` where there is none.
pub open spec fn top_comma(n: Nesting, s: Seq<char>) -> int
    decreases s.len(),
{
    if s.len() == 0 || (s[0] == ',' && n == top()) {
        0
    } else {
        1 + top_comma(step(n, s[0]), s.drop_first())
    }
}

pub proof fn lemma_top_comma(n: Nesting, s: Seq<char>)
    ensures
        0 <= top_comma(n, s) <= s.len(),
        top_comma(n, s) < s.len() ==> s[top_comma(n, s)] == ',',
        top_comma(n, s) < s.len() ==> behind(n, s.take(top_comma(n, s))) == top(),
        top_comma(n, s.take(top_comma(n, s))) == top_comma(n, s),
    decreases s.len(),
{
    if s.len() > 0 && !(s[0] == ',' && n == top()) {
        let t = s.drop_first();
        let m = step(n, s[0]);
        lemma_top_comma(m, t);
        let k = top_comma(n, s);
        assert(s.take(k).drop_first() =~= t.take(k - 1));
        assert(s.take(k)[0] == s[0]);
    } else {
        assert(s.take(0) =~= Seq::empty());
    }
}

/// The fields of an option list: what stands between the commas that are outside
/// quotes and parentheses. Behind the last comma there is a field only if it is
/// not empty.
pub open spec fn top_fields(s: Seq<char>) -> Seq<Seq<char>>
    decreases s.len(),
{
    if s.len() == 0 {
        Seq::empty()
    } else {
        proof {
            lemma_top_comma(top(), s);
        }
        let i = top_comma(top(), s);
        if i < s.len() {
            seq![s.take(i)] + top_fields(s.skip(i + 1))
        } else {
            seq![s]
        }
    }
}

/// The `key=value` pairs of a list of fields. Blank fields count for nothing; the
/// key ends at the first `=`, since a value may itself contain one.
pub open spec fn read_fields(fields: Seq<Seq<char>>) -> Result<
    Seq<(Seq<char>, Seq<char>)>,
    IniFault,
>
    decreases fields.len(),
{
    if fields.len() == 0 {
        Ok(Seq::empty())
    } else {
        let f = trimmed(fields[0]);
        let eq = first_at(f, '=');
        if f.len() == 0 {
            read_fields(fields.drop_first())
        } else if eq == f.len() {
            Err(IniFault::Malformed(f))
        } else {
            match read_fields(fields.drop_first()) {
                Ok(rest) => Ok(seq![(trimmed(f.take(eq)), trimmed(f.skip(eq + 1)))] + rest),
                Err(e) => Err(e),
            }
        }
    }
}

/// The settings of an `OptionSettings` line: those between its first `(` and its
/// last `)`.
pub open spec fn read_options(line: Seq<char>) -> Result<Seq<(Seq<char>, Seq<char>)>, IniFault> {
    let open = first_at(line, '(');
    let close = last_at(line, ')');
    if open == line.len() {
        Err(IniFault::NoOpen)
    } else if close < 0 {
        Err(IniFault::NoClose)
    } else if close <= open {
        Err(IniFault::CloseBeforeOpen)
    } else {
        read_fields(top_fields(line.subrange(open + 1, close)))
    }
}

/// `line` is an `OptionSettings` line.
pub open spec fn is_option_line(line: Seq<char>) -> bool {
    starts(trimmed_start(line), "OptionSettings="@)
}

/// The index of the first `OptionSettings` line, or the number of lines.
pub open spec fn option_line_at(lines: Seq<Seq<char>>) -> int
    decreases lines.len(),
{
    if lines.len() == 0 || is_option_line(lines[0]) {
        0
    } else {
        1 + option_line_at(lines.drop_first())
    }
}

/// What the settings file `text` holds, or why it cannot be read.
pub open spec fn read_ini(text: Seq<char>) -> Result<IniView, IniFault> {
    let lines = rows_of(text);
    let at = option_line_at(lines);
    if at == lines.len() {
        Err(IniFault::NoOptionLine)
    } else {
        match read_options(lines[at]) {
            Ok(options) => Ok(IniView { lines, option_line: at, options }),
            Err(e) => Err(e),
        }
    }
}

pub proof fn lemma_option_line_at(lines: Seq<Seq<char>>)
    ensures
        0 <= option_line_at(lines) <= lines.len(),
        option_line_at(lines) < lines.len() ==> is_option_line(lines[option_line_at(lines)]),
        forall|i: int| 0 <= i < option_line_at(lines) ==> !is_option_line(#[trigger] lines[i]),
    decreases lines.len(),
{
    if lines.len() > 0 && !is_option_line(lines[0]) {
        let t = lines.drop_first();
        lemma_option_line_at(t);
        assert forall|i: int| 0 <= i < option_line_at(lines) implies !is_option_line(
            #[trigger] lines[i],
        ) by {
            if i > 0 {
                assert(lines[i] == t[i - 1]);
            }
        }
    }
}

pub proof fn lemma_option_line_is(lines: Seq<Seq<char>>, k: int)
    requires
        0 <= k <= lines.len(),
        k < lines.len() ==> is_option_line(lines[k]),
        forall|i: int| 0 <= i < k ==> !is_option_line(#[trigger] lines[i]),
    ensures
        option_line_at(lines) == k,
{
    lemma_option_line_at(lines);
    let f = option_line_at(lines);
    if f < k {
        assert(!is_option_line(lines[f]));
    } else if k < f {
        assert(!is_option_line(lines[k]));
    }
}

/// Splits `a=1,b="x,y",c=(d=2)` into its fields. A plain split at the commas
/// would break `ServerName="ある,島"` and any value in parentheses.
pub fn split_top_level(s: &[char]) -> (r: Vec<&[char]>)
    ensures
        runs(r@) == top_fields(s@),
{
    let mut out: Vec<&[char]> = Vec::new();
    let mut start: usize = 0;
    let mut i: usize = 0;
    let mut quoted = false;
    let mut depth: usize = 0;
    assert(s@.skip(0) =~= s@);
    assert(runs(out@) + top_fields(s@) =~= top_fields(s@));
    while i < s.len()
        invariant
            start <= i <= s.len(),
            depth <= i,
            runs(out@) + top_fields(s@.skip(start as int)) == top_fields(s@),
            top_comma(top(), s@.skip(start as int)) == (i - start) + top_comma(
                (Nesting { quoted, depth: depth as nat }),
                s@.skip(i as int),
            ),
        decreases s.len() - i,
    {
        let c = s[i];
        let ghost n = Nesting { quoted, depth: depth as nat };
        let ghost rest = s@.skip(i as int);
        assert(rest[0] == c);
        assert(rest.drop_first() =~= s@.skip(i + 1));
        if c == ',' && !quoted && depth == 0 {
            let ghost before = runs(out@);
            let ghost field = s@.skip(start as int);
            assert(top_comma(top(), field) == i - start);
            let head = slice_subrange(s, start, i);
            assert(head@ =~= field.take(i - start));
            out.push(head);
            assert(runs(out@) =~= before.push(head@));
            assert(field.skip(i - start + 1) =~= s@.skip(i + 1));
            assert(before.push(head@) + top_fields(s@.skip(i + 1)) =~= before + (seq![head@]
                + top_fields(s@.skip(i + 1))));
            start = i + 1;
        } else if c == '"' {
            quoted = !quoted;
        } else if c == '(' && !quoted {
            depth += 1;
        } else if c == ')' && !quoted && depth > 0 {
            depth -= 1;
        }
        i += 1;
    }
    let ghost before = runs(out@);
    let ghost field = s@.skip(start as int);
    if start < s.len() {
        let tail = slice_subrange(s, start, s.len());
        assert(tail@ =~= field);
        out.push(tail);
        assert(runs(out@) =~= before.push(tail@));
        assert(before.push(tail@) =~= before + seq![tail@]);
    } else {
        assert(before + top_fields(field) =~= before);
    }
    out
}

/// The texts of a list of pairs of strings.
pub open spec fn pairs(v: Seq<(String, String)>) -> Seq<(Seq<char>, Seq<char>)> {
    v.map_values(|p: (String, String)| (p.0@, p.1@))
}

/// Reads the settings of an `OptionSettings` line.
pub fn parse_option_list(line: &[char]) -> (r: Result<Vec<(String, String)>, IniError>)
    ensures
        match r {
            Ok(options) => read_options(line@) == Ok::<Seq<(Seq<char>, Seq<char>)>, IniFault>(
                pairs(options@),
            ),
            Err(e) => read_options(line@) == Err::<Seq<(Seq<char>, Seq<char>)>, IniFault>(e@),
        },
{
    let open = find(line, '(');
    if open == line.len() {
        return Err(IniError::NoOpen);
    }
    let close = match rfind(line, ')') {
        Some(i) => i,
        None => {
            return Err(IniError::NoClose);
        },
    };
    if close <= open {
        return Err(IniError::CloseBeforeOpen);
    }
    let inner = slice_subrange(line, open + 1, close);
    let fields = split_top_level(inner);
    let mut out: Vec<(String, String)> = Vec::new();
    let mut i: usize = 0;
    let ghost all = read_fields(runs(fields@));
    assert(runs(fields@).skip(0) =~= runs(fields@));
    proof {
        match all {
            Ok(rest) => {
                assert(pairs(out@) + rest =~= rest);
            },
            Err(_) => {},
        }
    }
    while i < fields.len()
        invariant
            i <= fields.len(),
            all == (match read_fields(runs(fields@).skip(i as int)) {
                Ok(rest) => Ok::<Seq<(Seq<char>, Seq<char>)>, IniFault>(pairs(out@) + rest),
                Err(e) => Err(e),
            }),
            all == read_options(line@),
        decreases fields.len() - i,
    {
        let field = trim(fields[i]);
        let ghost rest = runs(fields@).skip(i as int);
        assert(rest[0] == fields@[i as int]@);
        assert(rest.drop_first() =~= runs(fields@).skip(i + 1));
        if field.len() > 0 {
            let eq = find(field, '=');
            if eq == field.len() {
                return Err(IniError::Malformed(text_of(field)));
            }
            let k = slice_subrange(field, 0, eq);
            let v = slice_subrange(field, eq + 1, field.len());
            assert(k@ =~= field@.take(eq as int));
            assert(v@ =~= field@.skip(eq + 1));
            let ghost before = pairs(out@);
            let pair = (text_of(trim(k)), text_of(trim(v)));
            out.push(pair);
            assert(pairs(out@) =~= before.push((pair.0@, pair.1@)));
            proof {
                match read_fields(rest.drop_first()) {
                    Ok(later) => {
                        assert(before.push((pair.0@, pair.1@)) + later =~= before + (seq![
                            (pair.0@, pair.1@),
                        ] + later));
                    },
                    Err(_) => {},
                }
            }
        }
        i += 1;
    }
    assert(pairs(out@) + Seq::empty() =~= pairs(out@));
    Ok(out)
}

// ---------------------------------------------------------------------------
// The file
// ---------------------------------------------------------------------------
/// The position of the first setting named `key`, or the number of settings.
pub open spec fn key_at(options: Seq<(Seq<char>, Seq<char>)>, key: Seq<char>) -> int
    decreases options.len(),
{
    if options.len() == 0 || options[0].0 == key {
        0
    } else {
        1 + key_at(options.drop_first(), key)
    }
}

/// The value of the first setting named `key`.
pub open spec fn lookup(options: Seq<(Seq<char>, Seq<char>)>, key: Seq<char>) -> Option<Seq<char>> {
    let i = key_at(options, key);
    if i < options.len() {
        Some(options[i].1)
    } else {
        None
    }
}

/// The settings with `key` set to `value`: in its place where it is listed, at the
/// end where it is not.
pub open spec fn with_option(
    options: Seq<(Seq<char>, Seq<char>)>,
    key: Seq<char>,
    value: Seq<char>,
) -> Seq<(Seq<char>, Seq<char>)> {
    let i = key_at(options, key);
    if i < options.len() {
        options.update(i, (key, value))
    } else {
        options.push((key, value))
    }
}

/// `key=value` for each setting.
pub open spec fn entries(options: Seq<(Seq<char>, Seq<char>)>) -> Seq<Seq<char>> {
    options.map_values(|p: (Seq<char>, Seq<char>)| p.0 + seq!['='] + p.1)
}

/// The `OptionSettings` line for a list of settings.
pub open spec fn option_text(options: Seq<(Seq<char>, Seq<char>)>) -> Seq<char> {
    "OptionSettings=("@ + joined(entries(options), seq![',']) + seq![')']
}

/// The whole file: the lines as they were read but for the `OptionSettings` line,
/// each ended by a line feed.
pub open spec fn rendered(ini: IniView) -> Seq<char> {
    joined(ini.lines.update(ini.option_line, option_text(ini.options)), seq!['\n']).push('\n')
}

/// The file with `key` set to `value`.
pub open spec fn with_setting(ini: IniView, key: Seq<char>, value: Seq<char>) -> IniView {
    IniView { options: with_option(ini.options, key, value), ..ini }
}

/// A setting read as a truth value.
pub open spec fn truth(value: Seq<char>) -> Option<bool> {
    if value == "True"@ || value == "true"@ {
        Some(true)
    } else if value == "False"@ || value == "false"@ {
        Some(false)
    } else {
        None
    }
}

pub proof fn lemma_key_at(options: Seq<(Seq<char>, Seq<char>)>, key: Seq<char>)
    ensures
        0 <= key_at(options, key) <= options.len(),
        key_at(options, key) < options.len() ==> options[key_at(options, key)].0 == key,
        forall|i: int| 0 <= i < key_at(options, key) ==> (#[trigger] options[i]).0 != key,
    decreases options.len(),
{
    if options.len() > 0 && options[0].0 != key {
        let t = options.drop_first();
        lemma_key_at(t, key);
        assert forall|i: int| 0 <= i < key_at(options, key) implies (#[trigger] options[i]).0
            != key by {
            if i > 0 {
                assert(options[i] == t[i - 1]);
            }
        }
    }
}

pub proof fn lemma_key_is(options: Seq<(Seq<char>, Seq<char>)>, key: Seq<char>, k: int)
    requires
        0 <= k <= options.len(),
        k < options.len() ==> options[k].0 == key,
        forall|i: int| 0 <= i < k ==> (#[trigger] options[i]).0 != key,
    ensures
        key_at(options, key) == k,
{
    lemma_key_at(options, key);
    let f = key_at(options, key);
    if f < k {
        assert(options[f].0 != key);
    } else if k < f {
        assert(options[k].0 != key);
    }
}

/// A settings file in memory.
#[derive(Debug)]
pub struct PalIni {
    lines: Vec<String>,
    option_line: usize,
    /// In file order; Palworld tolerates any order but a stable diff is nicer.
    options: Vec<(String, String)>,
}

impl View for PalIni {
    type V = IniView;

    closed spec fn view(&self) -> IniView {
        IniView {
            lines: texts(self.lines@),
            option_line: self.option_line as int,
            options: pairs(self.options@),
        }
    }
}

impl PalIni {
    /// The `OptionSettings` line is one of the lines.
    pub open spec fn wf(self) -> bool {
        0 <= self@.option_line < self@.lines.len()
    }

    /// Reads a settings file.
    pub fn parse(text: &str) -> (r: Result<PalIni, IniError>)
        ensures
            match r {
                Ok(ini) => read_ini(text@) == Ok::<IniView, IniFault>(ini@) && ini.wf(),
                Err(e) => read_ini(text@) == Err::<IniView, IniFault>(e@),
            },
    {
        let all = chars_of(text);
        let cut = rows(all.as_slice());
        let ghost seen = rows_of(text@);
        let mut at: usize = 0;
        while at < cut.len() && !starts_with(trim_start(cut[at]), "OptionSettings=")
            invariant
                at <= cut.len(),
                runs(cut@) == seen,
                forall|j: int| 0 <= j < at ==> !is_option_line(#[trigger] seen[j]),
            decreases cut.len() - at,
        {
            assert(seen[at as int] == cut@[at as int]@);
            at += 1;
        }
        proof {
            assert(seen.len() == cut@.len());
            assert(at < cut.len() ==> seen[at as int] == cut@[at as int]@);
            lemma_option_line_is(seen, at as int);
        }
        if at == cut.len() {
            return Err(IniError::NoOptionLine);
        }
        match parse_option_list(cut[at]) {
            Ok(options) => {
                let mut kept: Vec<String> = Vec::new();
                let mut i: usize = 0;
                while i < cut.len()
                    invariant
                        i <= cut.len(),
                        runs(cut@) == seen,
                        kept@.len() == i,
                        forall|j: int| 0 <= j < i ==> #[trigger] kept@[j]@ == seen[j],
                    decreases cut.len() - i,
                {
                    assert(seen[i as int] == cut@[i as int]@);
                    kept.push(text_of(cut[i]));
                    i += 1;
                }
                assert(texts(kept@) =~= seen);
                Ok(PalIni { lines: kept, option_line: at, options })
            },
            Err(e) => Err(e),
        }
    }

    /// The position of the first setting named `key`, or the number of settings.
    fn position(&self, key: &str) -> (r: usize)
        ensures
            r == key_at(self@.options, key@),
            r <= self.options@.len(),
    {
        let mut i: usize = 0;
        while i < self.options.len() && !same(self.options[i].0.as_str(), key)
            invariant
                i <= self.options.len(),
                forall|j: int| 0 <= j < i ==> (#[trigger] self@.options[j]).0 != key@,
            decreases self.options.len() - i,
        {
            i += 1;
        }
        proof {
            lemma_key_is(self@.options, key@, i as int);
        }
        i
    }

    /// The value of a setting, as it stands in the file.
    pub fn get(&self, key: &str) -> (r: Option<&str>)
        ensures
            match r {
                Some(v) => lookup(self@.options, key@) == Some(v@),
                None => lookup(self@.options, key@) is None,
            },
    {
        let i = self.position(key);
        if i < self.options.len() {
            Some(self.options[i].1.as_str())
        } else {
            None
        }
    }

    /// An integer setting.
    pub fn get_i64(&self, key: &str) -> (r: Option<i64>)
        ensures
            match (lookup(self@.options, key@), r) {
                (Some(v), Some(n)) => signed(v, i64::MIN as int, i64::MAX as int) == Some(n as int),
                (Some(v), None) => signed(v, i64::MIN as int, i64::MAX as int) is None,
                (None, _) => r is None,
            },
    {
        match self.get(key) {
            Some(v) => read_i64(chars_of(v).as_slice()),
            None => None,
        }
    }

    /// A truth-valued setting.
    pub fn get_bool(&self, key: &str) -> (r: Option<bool>)
        ensures
            r == (match lookup(self@.options, key@) {
                Some(v) => truth(v),
                None => None,
            }),
    {
        match self.get(key) {
            Some(v) => if same(v, "True") || same(v, "true") {
                Some(true)
            } else if same(v, "False") || same(v, "false") {
                Some(false)
            } else {
                None
            },
            None => None,
        }
    }

    /// Value of a quoted string setting, without the surrounding quotes.
    pub fn get_str(&self, key: &str) -> (r: Option<&str>)
        ensures
            match (lookup(self@.options, key@), r) {
                (Some(v), Some(s)) => s@ == stripped(v, '"'),
                (None, None) => true,
                _ => false,
            },
    {
        match self.get(key) {
            Some(v) => Some(strip(v, '"')),
            None => None,
        }
    }

    /// Overwrites an existing key, or appends it if Palworld didn't write it out.
    pub fn set(&mut self, key: &str, value: &str)
        ensures
            final(self)@ == with_setting(old(self)@, key@, value@),
    {
        let i = self.position(key);
        let ghost before = self@.options;
        let pair = (key.to_owned(), value.to_owned());
        if i < self.options.len() {
            self.options[i] = pair;
            assert(self@.options =~= before.update(i as int, (key@, value@)));
        } else {
            self.options.push(pair);
            assert(self@.options =~= before.push((key@, value@)));
        }
    }

    /// All settings, in file order.
    pub fn options(&self) -> (r: &[(String, String)])
        ensures
            pairs(r@) == self@.options,
    {
        self.options.as_slice()
    }

    /// The lines of the file, as they were read.
    pub fn lines(&self) -> (r: &Vec<String>)
        ensures
            texts(r@) == self@.lines,
    {
        &self.lines
    }

    /// The full file with the `OptionSettings` line regenerated.
    pub fn render(&self) -> (r: String)
        requires
            self.wf(),
        ensures
            r@ == rendered(self@),
    {
        let mut body: Vec<String> = Vec::new();
        let mut i: usize = 0;
        while i < self.options.len()
            invariant
                i <= self.options.len(),
                body@.len() == i,
                forall|j: int|
                    0 <= j < i ==> #[trigger] body@[j]@ == entries(self@.options)[j],
            decreases self.options.len() - i,
        {
            let mut entry = self.options[i].0.clone();
            entry.push('=');
            entry.append(self.options[i].1.as_str());
            assert(entry@ =~= entries(self@.options)[i as int]);
            body.push(entry);
            i += 1;
        }
        assert(texts(body@) =~= entries(self@.options));
        proof {
            reveal_strlit(",");
            assert(","@ =~= seq![',']);
        }
        let mut rebuilt = "OptionSettings=(".to_owned();
        rebuilt.append(join(&body, ",").as_str());
        rebuilt.push(')');
        assert(rebuilt@ =~= option_text(self@.options));
        let mut out = copy_texts(&self.lines);
        assert(texts(out@).len() == out@.len());
        assert(self@.lines.len() == self.lines@.len());
        out[self.option_line] = rebuilt;
        assert(texts(out@) =~= self@.lines.update(self@.option_line, option_text(self@.options)));
        proof {
            reveal_strlit("\n");
            assert("\n"@ =~= seq!['\n']);
        }
        let mut text = join(&out, "\n");
        text.push('\n');
        text
    }

    /// Whether two files hold the same lines and settings.
    pub fn same_as(&self, other: &PalIni) -> (r: bool)
        ensures
            r == (self@ == other@),
    {
        if self.option_line != other.option_line || self.lines.len() != other.lines.len()
            || self.options.len() != other.options.len() {
            assert(self@.option_line != other@.option_line || self@.lines.len()
                != other@.lines.len() || self@.options.len() != other@.options.len());
            return false;
        }
        let mut i: usize = 0;
        while i < self.lines.len()
            invariant
                i <= self.lines.len(),
                self.lines@.len() == other.lines@.len(),
                forall|j: int| 0 <= j < i ==> #[trigger] self@.lines[j] == other@.lines[j],
            decreases self.lines.len() - i,
        {
            if !same(self.lines[i].as_str(), other.lines[i].as_str()) {
                assert(self@.lines[i as int] != other@.lines[i as int]);
                return false;
            }
            i += 1;
        }
        assert(self@.lines =~= other@.lines);
        i = 0;
        while i < self.options.len()
            invariant
                i <= self.options.len(),
                self.options@.len() == other.options@.len(),
                forall|j: int| 0 <= j < i ==> #[trigger] self@.options[j] == other@.options[j],
            decreases self.options.len() - i,
        {
            if !same(self.options[i].0.as_str(), other.options[i].0.as_str()) || !same(
                self.options[i].1.as_str(),
                other.options[i].1.as_str(),
            ) {
                assert(self@.options[i as int] != other@.options[i as int]);
                return false;
            }
            i += 1;
        }
        assert(self@.options =~= other@.options);
        true
    }
}

impl PartialEq for PalIni {
    fn eq(&self, other: &PalIni) -> (r: bool) {
        self.same_as(other)
    }
}

impl vstd::std_specs::cmp::PartialEqSpecImpl for PalIni {
    open spec fn obeys_eq_spec() -> bool {
        true
    }

    open spec fn eq_spec(&self, other: &PalIni) -> bool {
        self@ == other@
    }
}

impl Clone for PalIni {
    fn clone(&self) -> (r: Self)
        ensures
            r@ == self@,
    {
        PalIni {
            lines: copy_texts(&self.lines),
            option_line: self.option_line,
            options: copy_pairs(&self.options),
        }
    }
}

/// A copy of a list of pairs of strings.
pub fn copy_pairs(v: &Vec<(String, String)>) -> (r: Vec<(String, String)>)
    ensures
        pairs(r@) == pairs(v@),
{
    let mut out: Vec<(String, String)> = Vec::new();
    let mut i: usize = 0;
    while i < v.len()
        invariant
            i <= v.len(),
            out@.len() == i,
            forall|j: int|
                0 <= j < i ==> (#[trigger] out@[j]).0@ == v@[j].0@ && out@[j].1@ == v@[j].1@,
        decreases v.len() - i,
    {
        out.push((v[i].0.clone(), v[i].1.clone()));
        i += 1;
    }
    assert(pairs(out@) =~= pairs(v@));
    out
}

} // verus!
