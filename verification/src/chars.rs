//! Sequences of characters: white space, trimming, searching, cutting a text
//! into lines, words and pieces, and putting texts together again.
//!
//! The specifications speak of `Seq<char>`, the view of `str` and `String`.
//! The executable half works on slices of characters, so that a cut costs
//! nothing and a position is an index.
use vstd::prelude::*;
use vstd::slice::slice_subrange;
use vstd::string::StringSliceAdditionalSpecFns;
use vstd::utf8::encode_utf8_decode_utf8;

verus! {

/// `String::push` adds the character at the end of the text.
pub assume_specification[ String::push ](s: &mut String, c: char)
    ensures
        final(s)@ == old(s)@.push(c),
;

// ---------------------------------------------------------------------------
// White space and trimming
// ---------------------------------------------------------------------------
/// The characters with Unicode's `White_Space` property.
pub open spec fn white(c: char) -> bool {
    ||| '\u{9}' <= c <= '\u{d}'
    ||| c == ' '
    ||| c == '\u{85}'
    ||| c == '\u{a0}'
    ||| c == '\u{1680}'
    ||| '\u{2000}' <= c <= '\u{200a}'
    ||| c == '\u{2028}'
    ||| c == '\u{2029}'
    ||| c == '\u{202f}'
    ||| c == '\u{205f}'
    ||| c == '\u{3000}'
}

/// Whether `c` is white space.
pub fn is_white(c: char) -> (r: bool)
    ensures
        r == white(c),
{
    ('\u{9}' <= c && c <= '\u{d}') || c == ' ' || c == '\u{85}' || c == '\u{a0}' || c == '\u{1680}'
        || ('\u{2000}' <= c && c <= '\u{200a}') || c == '\u{2028}' || c == '\u{2029}' || c
        == '\u{202f}' || c == '\u{205f}' || c == '\u{3000}'
}

/// `s` without its leading white space.
pub open spec fn trimmed_start(s: Seq<char>) -> Seq<char>
    decreases s.len(),
{
    if s.len() > 0 && white(s[0]) {
        trimmed_start(s.drop_first())
    } else {
        s
    }
}

/// `s` without its trailing white space.
pub open spec fn trimmed_end(s: Seq<char>) -> Seq<char>
    decreases s.len(),
{
    if s.len() > 0 && white(s.last()) {
        trimmed_end(s.drop_last())
    } else {
        s
    }
}

/// `s` without the white space at both its ends.
pub open spec fn trimmed(s: Seq<char>) -> Seq<char> {
    trimmed_end(trimmed_start(s))
}

/// Neither end of `s` is white space.
pub open spec fn is_trimmed(s: Seq<char>) -> bool {
    s.len() > 0 ==> !white(s[0]) && !white(s.last())
}

/// How many white characters `s` begins with.
pub open spec fn white_prefix(s: Seq<char>) -> nat
    decreases s.len(),
{
    if s.len() > 0 && white(s[0]) {
        1 + white_prefix(s.drop_first())
    } else {
        0
    }
}

pub proof fn lemma_trimmed_start(s: Seq<char>)
    ensures
        white_prefix(s) <= s.len(),
        trimmed_start(s) == s.skip(white_prefix(s) as int),
        forall|i: int| 0 <= i < white_prefix(s) ==> white(#[trigger] s[i]),
        white_prefix(s) < s.len() ==> !white(s[white_prefix(s) as int]),
    decreases s.len(),
{
    if s.len() > 0 && white(s[0]) {
        let t = s.drop_first();
        lemma_trimmed_start(t);
        assert(t.skip(white_prefix(t) as int) =~= s.skip(white_prefix(s) as int));
        assert forall|i: int| 0 <= i < white_prefix(s) implies white(#[trigger] s[i]) by {
            if i > 0 {
                assert(s[i] == t[i - 1]);
            }
        }
        if white_prefix(s) < s.len() {
            assert(s[white_prefix(s) as int] == t[white_prefix(t) as int]);
        }
    } else {
        assert(s.skip(0) =~= s);
    }
}

pub proof fn lemma_trimmed_end(s: Seq<char>)
    ensures
        trimmed_end(s).len() <= s.len(),
        trimmed_end(s) == s.take(trimmed_end(s).len() as int),
        trimmed_end(s).len() > 0 ==> !white(trimmed_end(s).last()),
        forall|i: int| trimmed_end(s).len() <= i < s.len() ==> white(#[trigger] s[i]),
    decreases s.len(),
{
    if s.len() > 0 && white(s.last()) {
        let t = s.drop_last();
        lemma_trimmed_end(t);
        assert(t.take(trimmed_end(t).len() as int) =~= s.take(trimmed_end(t).len() as int));
        assert forall|i: int| trimmed_end(s).len() <= i < s.len() implies white(
            #[trigger] s[i],
        ) by {
            if i < t.len() {
                assert(s[i] == t[i]);
            }
        }
    } else {
        assert(s.take(s.len() as int) =~= s);
    }
}

/// Trimming leaves a text whose ends are not white, and leaves such a text alone.
pub proof fn lemma_trimmed(s: Seq<char>)
    ensures
        is_trimmed(trimmed(s)),
        is_trimmed(s) ==> trimmed(s) == s,
        forall|c: char| trimmed(s).contains(c) ==> s.contains(c),
{
    lemma_trimmed_start(s);
    let t = trimmed_start(s);
    lemma_trimmed_end(t);
    if trimmed(s).len() > 0 {
        assert(trimmed(s)[0] == t[0]);
        assert(t[0] == s[white_prefix(s) as int]);
    }
    assert forall|c: char| trimmed(s).contains(c) implies s.contains(c) by {
        let i = choose|i: int| 0 <= i < trimmed(s).len() && trimmed(s)[i] == c;
        assert(s[i + white_prefix(s)] == c);
    }
}

/// `s` without leading white space.
pub fn trim_start(s: &[char]) -> (r: &[char])
    ensures
        r@ == trimmed_start(s@),
{
    let mut i: usize = 0;
    assert(s@.skip(0) =~= s@);
    while i < s.len() && is_white(s[i])
        invariant
            i <= s.len(),
            trimmed_start(s@) == trimmed_start(s@.skip(i as int)),
        decreases s.len() - i,
    {
        assert(s@.skip(i as int).drop_first() =~= s@.skip(i + 1));
        i += 1;
    }
    assert(s@.subrange(i as int, s@.len() as int) =~= s@.skip(i as int));
    slice_subrange(s, i, s.len())
}

/// `s` without trailing white space.
pub fn trim_end(s: &[char]) -> (r: &[char])
    ensures
        r@ == trimmed_end(s@),
{
    let mut n: usize = s.len();
    assert(s@.take(s@.len() as int) =~= s@);
    while n > 0 && is_white(s[n - 1])
        invariant
            n <= s.len(),
            trimmed_end(s@) == trimmed_end(s@.take(n as int)),
        decreases n,
    {
        assert(s@.take(n as int).drop_last() =~= s@.take(n - 1));
        n -= 1;
    }
    assert(s@.subrange(0, n as int) =~= s@.take(n as int));
    slice_subrange(s, 0, n)
}

/// `s` without white space at its ends.
pub fn trim(s: &[char]) -> (r: &[char])
    ensures
        r@ == trimmed(s@),
{
    trim_end(trim_start(s))
}

// ---------------------------------------------------------------------------
// Characters in and out of `str`
// ---------------------------------------------------------------------------
/// The characters of `s`.
pub fn chars_of(s: &str) -> (r: Vec<char>)
    ensures
        r@ == s@,
{
    let mut out: Vec<char> = Vec::new();
    for c in it: s.chars()
        invariant
            out@ == it.seq().take(it.index()),
            it.seq() == s@,
    {
        out.push(c);
        assert(it.seq().take(it.index() + 1) =~= it.seq().take(it.index()).push(c));
    }
    out
}

/// The text made of the characters of `v`.
pub fn text_of(v: &[char]) -> (r: String)
    ensures
        r@ == v@,
{
    let mut out = String::new();
    let mut i: usize = 0;
    while i < v.len()
        invariant
            i <= v.len(),
            out@ == v@.take(i as int),
        decreases v.len() - i,
    {
        out.push(v[i]);
        i += 1;
    }
    out
}

/// A text without the white space at its ends.
pub fn trimmed_text(s: &str) -> (r: String)
    ensures
        r@ == trimmed(s@),
{
    text_of(trim(chars_of(s).as_slice()))
}

/// Whether two texts hold the same characters.
pub fn same(a: &str, b: &str) -> (r: bool)
    ensures
        r == (a@ == b@),
{
    let x = a.as_bytes();
    let y = b.as_bytes();
    if x.len() != y.len() {
        return false;
    }
    let mut i: usize = 0;
    while i < x.len()
        invariant
            i <= x.len(),
            x.len() == y.len(),
            x@ == a.spec_bytes(),
            y@ == b.spec_bytes(),
            forall|j: int| 0 <= j < i ==> x@[j] == y@[j],
        decreases x.len() - i,
    {
        if x[i] != y[i] {
            return false;
        }
        i += 1;
    }
    proof {
        assert(x@ =~= y@);
        encode_utf8_decode_utf8(a@);
        encode_utf8_decode_utf8(b@);
    }
    true
}

/// Whether two runs of characters are equal.
pub fn same_chars(a: &[char], b: &[char]) -> (r: bool)
    ensures
        r == (a@ == b@),
{
    if a.len() != b.len() {
        return false;
    }
    let mut i: usize = 0;
    while i < a.len()
        invariant
            i <= a.len(),
            a.len() == b.len(),
            forall|j: int| 0 <= j < i ==> a@[j] == b@[j],
        decreases a.len() - i,
    {
        if a[i] != b[i] {
            return false;
        }
        i += 1;
    }
    assert(a@ =~= b@);
    true
}

// ---------------------------------------------------------------------------
// Searching
// ---------------------------------------------------------------------------
/// The position of the first `c` in `s`, or the length of `s` where there is none.
pub open spec fn first_at(s: Seq<char>, c: char) -> int
    decreases s.len(),
{
    if s.len() == 0 || s[0] == c {
        0
    } else {
        1 + first_at(s.drop_first(), c)
    }
}

/// The position of the last `c` in `s`, or -1 where there is none.
pub open spec fn last_at(s: Seq<char>, c: char) -> int
    decreases s.len(),
{
    if s.len() == 0 {
        -1
    } else if s.last() == c {
        s.len() - 1
    } else {
        last_at(s.drop_last(), c)
    }
}

/// `s` begins with `p`.
pub open spec fn starts(s: Seq<char>, p: Seq<char>) -> bool {
    p.len() <= s.len() && s.take(p.len() as int) == p
}

pub proof fn lemma_first_at(s: Seq<char>, c: char)
    ensures
        0 <= first_at(s, c) <= s.len(),
        first_at(s, c) < s.len() ==> s[first_at(s, c)] == c,
        forall|i: int| 0 <= i < first_at(s, c) ==> #[trigger] s[i] != c,
        first_at(s, c) == s.len() <==> !s.contains(c),
    decreases s.len(),
{
    if s.len() > 0 && s[0] != c {
        let t = s.drop_first();
        lemma_first_at(t, c);
        assert forall|i: int| 0 <= i < first_at(s, c) implies #[trigger] s[i] != c by {
            if i > 0 {
                assert(s[i] == t[i - 1]);
            }
        }
    }
    if first_at(s, c) < s.len() {
        assert(s.contains(s[first_at(s, c)]));
    }
}

/// The first `c` of `s` is where a `c` stands with none before it.
pub proof fn lemma_first_at_is(s: Seq<char>, c: char, k: int)
    requires
        0 <= k <= s.len(),
        k < s.len() ==> s[k] == c,
        forall|i: int| 0 <= i < k ==> #[trigger] s[i] != c,
    ensures
        first_at(s, c) == k,
{
    lemma_first_at(s, c);
    let f = first_at(s, c);
    if f < k {
        assert(s[f] != c);
    } else if k < f {
        assert(s[k] != c);
    }
}

pub proof fn lemma_last_at(s: Seq<char>, c: char)
    ensures
        -1 <= last_at(s, c) < s.len(),
        last_at(s, c) >= 0 ==> s[last_at(s, c)] == c,
        forall|i: int| last_at(s, c) < i < s.len() ==> #[trigger] s[i] != c,
    decreases s.len(),
{
    if s.len() > 0 && s.last() != c {
        let t = s.drop_last();
        lemma_last_at(t, c);
        assert forall|i: int| last_at(s, c) < i < s.len() implies #[trigger] s[i] != c by {
            if i < t.len() {
                assert(s[i] == t[i]);
            }
        }
    }
}

/// Position of the first `c`, or the length.
pub fn find(s: &[char], c: char) -> (r: usize)
    ensures
        r == first_at(s@, c),
        r <= s@.len(),
{
    let mut i: usize = 0;
    while i < s.len() && s[i] != c
        invariant
            i <= s.len(),
            forall|j: int| 0 <= j < i ==> #[trigger] s@[j] != c,
        decreases s.len() - i,
    {
        i += 1;
    }
    proof {
        lemma_first_at_is(s@, c, i as int);
    }
    i
}

/// Position of the last `c`, if there is one.
pub fn rfind(s: &[char], c: char) -> (r: Option<usize>)
    ensures
        match r {
            Some(i) => i == last_at(s@, c) && i < s@.len(),
            None => last_at(s@, c) == -1,
        },
{
    let mut n: usize = s.len();
    assert(s@.take(s@.len() as int) =~= s@);
    while n > 0
        invariant
            n <= s.len(),
            last_at(s@, c) == last_at(s@.take(n as int), c),
        decreases n,
    {
        if s[n - 1] == c {
            return Some(n - 1);
        }
        assert(s@.take(n as int).drop_last() =~= s@.take(n - 1));
        n -= 1;
    }
    None
}

/// Whether `s` begins with `p`.
pub fn starts_with(s: &[char], p: &str) -> (r: bool)
    ensures
        r == starts(s@, p@),
{
    let q = chars_of(p);
    if q.len() > s.len() {
        return false;
    }
    assert(s@.subrange(0, p@.len() as int) =~= s@.take(p@.len() as int));
    same_chars(slice_subrange(s, 0, q.len()), q.as_slice())
}

// ---------------------------------------------------------------------------
// Cutting
// ---------------------------------------------------------------------------
/// The texts that a list of character runs stands for.
pub open spec fn runs(v: Seq<&[char]>) -> Seq<Seq<char>> {
    v.map_values(|s: &[char]| s@)
}

/// The texts of a list of strings.
pub open spec fn texts(v: Seq<String>) -> Seq<Seq<char>> {
    v.map_values(|s: String| s@)
}

/// A line as read: a carriage return in front of the line feed belongs to the ending.
pub open spec fn without_cr(s: Seq<char>) -> Seq<char> {
    if s.len() > 0 && s.last() == '\r' {
        s.drop_last()
    } else {
        s
    }
}

/// The lines of `s`. A line ends in a line feed or a carriage return and a line
/// feed; what follows the last line feed is a line of its own unless it is empty.
pub open spec fn lines_of(s: Seq<char>) -> Seq<Seq<char>>
    decreases s.len(),
{
    if s.len() == 0 {
        Seq::empty()
    } else {
        proof {
            lemma_first_at(s, '\n');
        }
        let i = first_at(s, '\n');
        if i < s.len() {
            seq![without_cr(s.take(i))] + lines_of(s.skip(i + 1))
        } else {
            seq![s]
        }
    }
}

/// The rows of `s`: what stands between its line feeds, to the letter. What follows the
/// last line feed is a row of its own unless it is empty.
pub open spec fn rows_of(s: Seq<char>) -> Seq<Seq<char>>
    decreases s.len(),
{
    if s.len() == 0 {
        Seq::empty()
    } else {
        proof {
            lemma_first_at(s, '\n');
        }
        let i = first_at(s, '\n');
        if i < s.len() {
            seq![s.take(i)] + rows_of(s.skip(i + 1))
        } else {
            seq![s]
        }
    }
}

/// The pieces of `s` between the separators `c`: one more than there are separators.
pub open spec fn pieces_of(s: Seq<char>, c: char) -> Seq<Seq<char>>
    decreases s.len(),
{
    proof {
        lemma_first_at(s, c);
    }
    let i = first_at(s, c);
    if i < s.len() {
        seq![s.take(i)] + pieces_of(s.skip(i + 1), c)
    } else {
        seq![s]
    }
}

/// How many characters `s` has before its first white one.
pub open spec fn word_len(s: Seq<char>) -> nat
    decreases s.len(),
{
    if s.len() > 0 && !white(s[0]) {
        1 + word_len(s.drop_first())
    } else {
        0
    }
}

pub proof fn lemma_word_len(s: Seq<char>)
    ensures
        word_len(s) <= s.len(),
    decreases s.len(),
{
    if s.len() > 0 {
        lemma_word_len(s.drop_first());
    }
}

/// The words of `s`: its longest runs without white space.
pub open spec fn words_of(s: Seq<char>) -> Seq<Seq<char>>
    decreases s.len(),
{
    proof {
        lemma_trimmed_start(s);
        lemma_word_len(trimmed_start(s));
    }
    let t = trimmed_start(s);
    if t.len() == 0 {
        Seq::empty()
    } else {
        seq![t.take(word_len(t) as int)] + words_of(t.skip(word_len(t) as int))
    }
}

/// The lines of `s`.
pub fn lines(s: &[char]) -> (r: Vec<&[char]>)
    ensures
        runs(r@) == lines_of(s@),
{
    let mut out: Vec<&[char]> = Vec::new();
    let mut at: usize = 0;
    assert(s@.skip(0) =~= s@);
    assert(runs(out@) + lines_of(s@) =~= lines_of(s@));
    while at < s.len()
        invariant
            at <= s.len(),
            runs(out@) + lines_of(s@.skip(at as int)) == lines_of(s@),
        decreases s.len() - at,
    {
        let rest = slice_subrange(s, at, s.len());
        assert(rest@ =~= s@.skip(at as int));
        let ghost before = runs(out@);
        let i = find(rest, '\n');
        if i < rest.len() {
            let mut n: usize = i;
            if n > 0 && rest[n - 1] == '\r' {
                n -= 1;
            }
            let line = slice_subrange(rest, 0, n);
            assert(line@ =~= without_cr(rest@.take(i as int)));
            out.push(line);
            assert(rest@.skip(i + 1) =~= s@.skip(at + i + 1));
            assert(runs(out@) =~= before.push(line@));
            assert(before.push(line@) + lines_of(rest@.skip(i + 1)) =~= before + (seq![line@]
                + lines_of(rest@.skip(i + 1))));
            at = at + i + 1;
        } else {
            out.push(rest);
            assert(runs(out@) =~= before.push(rest@));
            assert(before.push(rest@) =~= before + seq![rest@]);
            at = s.len();
            assert(runs(out@) + lines_of(s@.skip(at as int)) =~= runs(out@));
        }
    }
    assert(runs(out@) + lines_of(s@.skip(at as int)) =~= runs(out@));
    out
}

/// The rows of `s`, line endings other than the line feed kept.
pub fn rows(s: &[char]) -> (r: Vec<&[char]>)
    ensures
        runs(r@) == rows_of(s@),
{
    let mut out: Vec<&[char]> = Vec::new();
    let mut at: usize = 0;
    assert(s@.skip(0) =~= s@);
    assert(runs(out@) + rows_of(s@) =~= rows_of(s@));
    while at < s.len()
        invariant
            at <= s.len(),
            runs(out@) + rows_of(s@.skip(at as int)) == rows_of(s@),
        decreases s.len() - at,
    {
        let rest = slice_subrange(s, at, s.len());
        assert(rest@ =~= s@.skip(at as int));
        let ghost before = runs(out@);
        let i = find(rest, '\n');
        if i < rest.len() {
            let row = slice_subrange(rest, 0, i);
            assert(row@ =~= rest@.take(i as int));
            out.push(row);
            assert(rest@.skip(i + 1) =~= s@.skip(at + i + 1));
            assert(runs(out@) =~= before.push(row@));
            assert(before.push(row@) + rows_of(rest@.skip(i + 1)) =~= before + (seq![row@]
                + rows_of(rest@.skip(i + 1))));
            at = at + i + 1;
        } else {
            out.push(rest);
            assert(runs(out@) =~= before.push(rest@));
            assert(before.push(rest@) =~= before + seq![rest@]);
            at = s.len();
            assert(runs(out@) + rows_of(s@.skip(at as int)) =~= runs(out@));
        }
    }
    assert(runs(out@) + rows_of(s@.skip(at as int)) =~= runs(out@));
    out
}

/// The pieces of `s` between the separators `c`.
pub fn pieces(s: &[char], c: char) -> (r: Vec<&[char]>)
    ensures
        runs(r@) == pieces_of(s@, c),
{
    let mut out: Vec<&[char]> = Vec::new();
    let mut rest: &[char] = s;
    assert(runs(out@) + pieces_of(s@, c) =~= pieces_of(s@, c));
    loop
        invariant
            runs(out@) + pieces_of(rest@, c) == pieces_of(s@, c),
        decreases rest@.len(),
    {
        let ghost before = runs(out@);
        let i = find(rest, c);
        if i < rest.len() {
            let head = slice_subrange(rest, 0, i);
            let tail = slice_subrange(rest, i + 1, rest.len());
            assert(head@ =~= rest@.take(i as int));
            assert(tail@ =~= rest@.skip(i + 1));
            out.push(head);
            assert(runs(out@) =~= before.push(head@));
            assert(before.push(head@) + pieces_of(tail@, c) =~= before + (seq![head@] + pieces_of(
                tail@,
                c,
            )));
            rest = tail;
        } else {
            out.push(rest);
            assert(runs(out@) =~= before.push(rest@));
            assert(before.push(rest@) =~= before + seq![rest@]);
            return out;
        }
    }
}

/// The words of `s`.
pub fn words(s: &[char]) -> (r: Vec<&[char]>)
    ensures
        runs(r@) == words_of(s@),
{
    let mut out: Vec<&[char]> = Vec::new();
    let mut rest: &[char] = s;
    assert(runs(out@) + words_of(s@) =~= words_of(s@));
    loop
        invariant
            runs(out@) + words_of(rest@) == words_of(s@),
        decreases rest@.len(),
    {
        let ghost before = runs(out@);
        let t = trim_start(rest);
        proof {
            lemma_trimmed_start(rest@);
        }
        if t.len() == 0 {
            assert(runs(out@) + words_of(rest@) =~= runs(out@));
            return out;
        }
        let mut n: usize = 0;
        assert(t@.skip(0) =~= t@);
        while n < t.len() && !is_white(t[n])
            invariant
                n <= t.len(),
                word_len(t@) == n + word_len(t@.skip(n as int)),
            decreases t.len() - n,
        {
            assert(t@.skip(n as int).drop_first() =~= t@.skip(n + 1));
            n += 1;
        }
        let head = slice_subrange(t, 0, n);
        let tail = slice_subrange(t, n, t.len());
        assert(head@ =~= t@.take(n as int));
        assert(tail@ =~= t@.skip(n as int));
        assert(n > 0);
        out.push(head);
        assert(runs(out@) =~= before.push(head@));
        assert(before.push(head@) + words_of(tail@) =~= before + (seq![head@] + words_of(tail@)));
        rest = tail;
    }
}

// ---------------------------------------------------------------------------
// Stripping, replacing, joining, padding
// ---------------------------------------------------------------------------
/// `s` without its leading `c`s.
pub open spec fn stripped_start(s: Seq<char>, c: char) -> Seq<char>
    decreases s.len(),
{
    if s.len() > 0 && s[0] == c {
        stripped_start(s.drop_first(), c)
    } else {
        s
    }
}

/// `s` without its trailing `c`s.
pub open spec fn stripped_end(s: Seq<char>, c: char) -> Seq<char>
    decreases s.len(),
{
    if s.len() > 0 && s.last() == c {
        stripped_end(s.drop_last(), c)
    } else {
        s
    }
}

/// `s` without the `c`s at both its ends.
pub open spec fn stripped(s: Seq<char>, c: char) -> Seq<char> {
    stripped_end(stripped_start(s, c), c)
}

/// `s` with `with` in the place of every `c`.
pub open spec fn swapped(s: Seq<char>, c: char, with: Seq<char>) -> Seq<char>
    decreases s.len(),
{
    if s.len() == 0 {
        s
    } else {
        (if s[0] == c {
            with
        } else {
            seq![s[0]]
        }) + swapped(s.drop_first(), c, with)
    }
}

/// `s` with `to` in the place of every `from`, looked for from the left.
pub open spec fn replaced(s: Seq<char>, from: Seq<char>, to: Seq<char>) -> Seq<char>
    recommends
        from.len() > 0,
    decreases s.len(),
{
    if s.len() == 0 || from.len() == 0 {
        s
    } else if starts(s, from) {
        to + replaced(s.skip(from.len() as int), from, to)
    } else {
        seq![s[0]] + replaced(s.drop_first(), from, to)
    }
}

/// The texts of `parts` one after the other, with `sep` between them.
pub open spec fn joined(parts: Seq<Seq<char>>, sep: Seq<char>) -> Seq<char>
    decreases parts.len(),
{
    if parts.len() == 0 {
        Seq::empty()
    } else if parts.len() == 1 {
        parts[0]
    } else {
        parts[0] + sep + joined(parts.drop_first(), sep)
    }
}

/// `s` filled up with blanks on the right to at least `width` characters.
pub open spec fn padded(s: Seq<char>, width: nat) -> Seq<char> {
    if s.len() < width {
        s + Seq::new((width - s.len()) as nat, |i: int| ' ')
    } else {
        s
    }
}

pub proof fn lemma_joined_push(parts: Seq<Seq<char>>, sep: Seq<char>, x: Seq<char>)
    ensures
        joined(parts.push(x), sep) == (if parts.len() == 0 {
            x
        } else {
            joined(parts, sep) + sep + x
        }),
    decreases parts.len(),
{
    if parts.len() == 0 {
        assert(parts.push(x) =~= seq![x]);
    } else {
        let t = parts.drop_first();
        lemma_joined_push(t, sep, x);
        assert(parts.push(x).drop_first() =~= t.push(x));
        if parts.len() == 1 {
            assert(t.push(x) =~= seq![x]);
        } else {
            assert(parts[0] + sep + (joined(t, sep) + sep + x) =~= parts[0] + sep + joined(t, sep)
                + sep + x);
        }
    }
}

/// `s` without the `c`s at its ends.
pub fn strip(s: &str, c: char) -> (r: &str)
    ensures
        r@ == stripped(s@, c),
{
    let v = chars_of(s);
    let mut i: usize = 0;
    assert(v@.skip(0) =~= v@);
    while i < v.len() && v[i] == c
        invariant
            i <= v.len(),
            stripped_start(v@, c) == stripped_start(v@.skip(i as int), c),
        decreases v.len() - i,
    {
        assert(v@.skip(i as int).drop_first() =~= v@.skip(i + 1));
        i += 1;
    }
    let ghost t = v@.skip(i as int);
    let mut n: usize = v.len();
    assert(v@.subrange(i as int, n as int) =~= t);
    while n > i && v[n - 1] == c
        invariant
            i <= n <= v.len(),
            stripped_end(t, c) == stripped_end(v@.subrange(i as int, n as int), c),
        decreases n,
    {
        assert(v@.subrange(i as int, n as int).drop_last() =~= v@.subrange(i as int, n - 1));
        n -= 1;
    }
    s.substring_char(i, n)
}

/// `s` with `with` in the place of every `c`.
pub fn swap(s: &str, c: char, with: &str) -> (r: String)
    ensures
        r@ == swapped(s@, c, with@),
{
    let v = chars_of(s);
    let mut out = String::new();
    let mut i: usize = 0;
    assert(v@.skip(0) =~= v@);
    assert(out@ + swapped(v@, c, with@) =~= swapped(v@, c, with@));
    while i < v.len()
        invariant
            i <= v.len(),
            out@ + swapped(v@.skip(i as int), c, with@) == swapped(v@, c, with@),
        decreases v.len() - i,
    {
        let ghost before = out@;
        let ghost rest = swapped(v@.skip(i + 1), c, with@);
        assert(v@.skip(i as int).drop_first() =~= v@.skip(i + 1));
        if v[i] == c {
            out.append(with);
            assert(before + with@ + rest =~= before + (with@ + rest));
        } else {
            out.push(v[i]);
            assert(before.push(v@[i as int]) + rest =~= before + (seq![v@[i as int]] + rest));
        }
        i += 1;
    }
    assert(out@ + swapped(v@.skip(i as int), c, with@) =~= out@);
    out
}

/// `s` with `to` in the place of every `from`.
pub fn replace(s: &str, from: &str, to: &str) -> (r: String)
    requires
        from@.len() > 0,
    ensures
        r@ == replaced(s@, from@, to@),
{
    let v = chars_of(s);
    let width = chars_of(from).len();
    let mut out = String::new();
    let mut i: usize = 0;
    assert(v@.skip(0) =~= v@);
    assert(out@ + replaced(v@, from@, to@) =~= replaced(v@, from@, to@));
    while i < v.len()
        invariant
            i <= v.len(),
            width == from@.len(),
            width > 0,
            out@ + replaced(v@.skip(i as int), from@, to@) == replaced(v@, from@, to@),
        decreases v.len() - i,
    {
        let ghost before = out@;
        let rest = slice_subrange(v.as_slice(), i, v.len());
        assert(rest@ =~= v@.skip(i as int));
        if starts_with(rest, from) {
            out.append(to);
            let ghost later = replaced(v@.skip(i + width), from@, to@);
            assert(rest@.skip(width as int) =~= v@.skip(i + width));
            assert(before + to@ + later =~= before + (to@ + later));
            i += width;
        } else {
            let c = v[i];
            out.push(c);
            let ghost later = replaced(v@.skip(i + 1), from@, to@);
            assert(rest@.drop_first() =~= v@.skip(i + 1));
            assert(before.push(c) + later =~= before + (seq![c] + later));
            i += 1;
        }
    }
    assert(out@ + replaced(v@.skip(i as int), from@, to@) =~= out@);
    out
}

/// The texts of `parts` with `sep` between them.
pub fn join(parts: &Vec<String>, sep: &str) -> (r: String)
    ensures
        r@ == joined(texts(parts@), sep@),
{
    let mut out = String::new();
    let mut i: usize = 0;
    assert(texts(parts@).take(0) =~= Seq::empty());
    while i < parts.len()
        invariant
            i <= parts.len(),
            out@ == joined(texts(parts@).take(i as int), sep@),
        decreases parts.len() - i,
    {
        if i > 0 {
            out.append(sep);
        }
        out.append(parts[i].as_str());
        proof {
            let done = texts(parts@).take(i as int);
            lemma_joined_push(done, sep@, parts@[i as int]@);
            assert(texts(parts@).take(i + 1) =~= done.push(parts@[i as int]@));
            if i == 0 {
                assert(joined(done, sep@) + parts@[0]@ =~= parts@[0]@);
            }
        }
        i += 1;
    }
    assert(texts(parts@).take(i as int) =~= texts(parts@));
    out
}

/// `s` filled up with blanks to `width` characters.
pub fn pad(s: &str, width: usize) -> (r: String)
    ensures
        r@ == padded(s@, width as nat),
{
    let mut out = s.to_owned();
    let mut n: usize = s.unicode_len();
    while n < width
        invariant
            s@.len() <= n,
            n <= width || n == s@.len(),
            out@ == s@ + Seq::new((n - s@.len()) as nat, |i: int| ' '),
        decreases width - n,
    {
        out.push(' ');
        n += 1;
        assert(out@ =~= s@ + Seq::new((n - s@.len()) as nat, |i: int| ' '));
    }
    assert(s@.len() >= width ==> out@ =~= s@);
    out
}

/// A copy of a list of strings.
pub fn copy_texts(v: &Vec<String>) -> (r: Vec<String>)
    ensures
        texts(r@) == texts(v@),
{
    let mut out: Vec<String> = Vec::new();
    let mut i: usize = 0;
    while i < v.len()
        invariant
            i <= v.len(),
            out@.len() == i,
            forall|j: int| 0 <= j < i ==> #[trigger] out@[j]@ == v@[j]@,
        decreases v.len() - i,
    {
        out.push(v[i].clone());
        i += 1;
    }
    assert(texts(out@) =~= texts(v@));
    out
}

} // verus!
