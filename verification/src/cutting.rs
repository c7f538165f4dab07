//! Texts that are taken apart give what they were put together from.
use crate::chars::{
    first_at, is_trimmed, joined, lemma_first_at_is, lemma_trimmed_start, lemma_word_len, lines_of,
    pieces_of, rows_of, trimmed, trimmed_end, trimmed_start, white, without_cr, word_len, words_of,
};
use vstd::prelude::*;

verus! {

/// A word: not empty, and without white space.
pub open spec fn a_word(s: Seq<char>) -> bool {
    s.len() > 0 && forall|i: int| 0 <= i < s.len() ==> !white(#[trigger] s[i])
}

/// White space alone.
pub open spec fn blank(s: Seq<char>) -> bool {
    forall|i: int| 0 <= i < s.len() ==> white(#[trigger] s[i])
}

/// Words with white space in front of each, and `end` behind them.
pub open spec fn spread(parts: Seq<(Seq<char>, Seq<char>)>, end: Seq<char>) -> Seq<char>
    decreases parts.len(),
{
    if parts.len() == 0 {
        end
    } else {
        parts[0].0 + parts[0].1 + spread(parts.drop_first(), end)
    }
}

proof fn lemma_blank_front(g: Seq<char>, t: Seq<char>)
    requires
        blank(g),
    ensures
        trimmed_start(g + t) == trimmed_start(t),
        words_of(g + t) == words_of(t),
    decreases g.len(),
{
    if g.len() == 0 {
        assert(g + t =~= t);
    } else {
        let h = g.drop_first();
        assert forall|i: int| 0 <= i < h.len() implies white(#[trigger] h[i]) by {
            assert(h[i] == g[i + 1]);
        }
        lemma_blank_front(h, t);
        assert(white(g[0]));
        assert((g + t).drop_first() =~= h + t);
    }
}

proof fn lemma_word_len_is(w: Seq<char>, t: Seq<char>)
    requires
        forall|i: int| 0 <= i < w.len() ==> !white(#[trigger] w[i]),
        t.len() > 0 ==> white(t[0]),
    ensures
        word_len(w + t) == w.len(),
    decreases w.len(),
{
    if w.len() == 0 {
        assert(w + t =~= t);
    } else {
        let v = w.drop_first();
        assert forall|i: int| 0 <= i < v.len() implies !white(#[trigger] v[i]) by {
            assert(v[i] == w[i + 1]);
        }
        lemma_word_len_is(v, t);
        assert(!white(w[0]));
        assert((w + t).drop_first() =~= v + t);
    }
}

proof fn lemma_word_front(w: Seq<char>, t: Seq<char>)
    requires
        a_word(w),
        t.len() > 0 ==> white(t[0]),
    ensures
        words_of(w + t) == seq![w] + words_of(t),
{
    let s = w + t;
    assert(!white(w[0]));
    assert(s[0] == w[0]);
    assert(trimmed_start(s) == s);
    lemma_word_len_is(w, t);
    assert(s.take(w.len() as int) =~= w);
    assert(s.skip(w.len() as int) =~= t);
}

/// The words of a text are those it was made of, however much white space there is
/// between them.
pub proof fn words_are_found(parts: Seq<(Seq<char>, Seq<char>)>, end: Seq<char>)
    requires
        forall|i: int|
            0 <= i < parts.len() ==> blank((#[trigger] parts[i]).0) && a_word(parts[i].1) && (i > 0
                ==> parts[i].0.len() > 0),
        blank(end),
    ensures
        words_of(spread(parts, end)) == Seq::new(parts.len(), |i: int| parts[i].1),
    decreases parts.len(),
{
    if parts.len() == 0 {
        lemma_blank_front(end, Seq::empty());
        assert(end + Seq::empty() =~= end);
        assert(words_of(Seq::<char>::empty()) =~= Seq::empty());
        assert(words_of(end) =~= Seq::new(parts.len(), |i: int| parts[i].1));
    } else {
        let (g, w) = parts[0];
        let t = parts.drop_first();
        assert forall|i: int| 0 <= i < t.len() implies blank((#[trigger] t[i]).0) && a_word(
            t[i].1,
        ) && (i > 0 ==> t[i].0.len() > 0) by {
            assert(t[i] == parts[i + 1]);
        }
        words_are_found(t, end);
        let rest = spread(t, end);
        assert(blank(g) && a_word(w)) by {
            assert(parts[0] == (g, w));
        }
        assert(rest.len() > 0 ==> white(rest[0])) by {
            if t.len() > 0 {
                assert(t[0] == parts[1]);
                assert(parts[1].0.len() > 0);
                assert(white(t[0].0[0]));
                assert(rest[0] == t[0].0[0]);
            } else if rest.len() > 0 {
                assert(white(end[0]));
            }
        }
        assert(g + w + rest =~= g + (w + rest));
        lemma_blank_front(g, w + rest);
        lemma_word_front(w, rest);
        assert(words_of(spread(parts, end)) =~= Seq::new(parts.len(), |i: int| parts[i].1));
    }
}

/// Rows, each ended by a line feed, behind a carriage return where `cr` says so.
pub open spec fn ended(rows: Seq<Seq<char>>, cr: bool) -> Seq<char>
    decreases rows.len(),
{
    if rows.len() == 0 {
        Seq::empty()
    } else {
        rows[0] + (if cr {
            seq!['\r', '\n']
        } else {
            seq!['\n']
        }) + ended(rows.drop_first(), cr)
    }
}

/// A row as a line can hold it.
pub open spec fn a_row(s: Seq<char>) -> bool {
    !s.contains('\n') && (s.len() > 0 ==> s.last() != '\r')
}

/// The lines of a text are the rows it was made of, whichever way they end.
pub proof fn lines_are_found(rows: Seq<Seq<char>>, cr: bool)
    requires
        forall|i: int| 0 <= i < rows.len() ==> a_row(#[trigger] rows[i]),
    ensures
        lines_of(ended(rows, cr)) == rows,
    decreases rows.len(),
{
    let text = ended(rows, cr);
    if rows.len() == 0 {
        assert(lines_of(text) =~= rows);
    } else {
        let row = rows[0];
        let t = rows.drop_first();
        assert forall|i: int| 0 <= i < t.len() implies a_row(#[trigger] t[i]) by {
            assert(t[i] == rows[i + 1]);
        }
        lines_are_found(t, cr);
        assert(a_row(rows[0]));
        let line = if cr {
            row.push('\r')
        } else {
            row
        };
        let k = line.len() as int;
        assert(text =~= line + seq!['\n'] + ended(t, cr));
        assert forall|i: int| 0 <= i < k implies #[trigger] text[i] != '\n' by {
            if i < row.len() {
                assert(row.contains(row[i]));
                assert(text[i] == row[i]);
            } else {
                assert(text[i] == '\r');
            }
        }
        assert(text[k] == '\n');
        lemma_first_at_is(text, '\n', k);
        assert(text.take(k) =~= line);
        assert(text.skip(k + 1) =~= ended(t, cr));
        assert(without_cr(line) =~= row);
        assert(lines_of(text) =~= rows);
    }
}

/// The pieces of a text are those that it was joined from.
pub proof fn pieces_are_found(parts: Seq<Seq<char>>, c: char)
    requires
        parts.len() > 0,
        forall|i: int| 0 <= i < parts.len() ==> !(#[trigger] parts[i]).contains(c),
    ensures
        pieces_of(joined(parts, seq![c]), c) == parts,
    decreases parts.len(),
{
    let text = joined(parts, seq![c]);
    let p = parts[0];
    let k = p.len() as int;
    assert(!parts[0].contains(c));
    assert forall|i: int| 0 <= i < k implies #[trigger] text[i] != c by {
        assert(p.contains(p[i]));
        assert(text[i] == p[i]);
    }
    lemma_first_at_is(text, c, k);
    if parts.len() > 1 {
        let t = parts.drop_first();
        assert forall|i: int| 0 <= i < t.len() implies !(#[trigger] t[i]).contains(c) by {
            assert(t[i] == parts[i + 1]);
        }
        pieces_are_found(t, c);
        assert(text.take(k) =~= p);
        assert(text.skip(k + 1) =~= joined(t, seq![c]));
        assert(first_at(text, c) == k);
        assert(text.len() > k);
        assert(pieces_of(text, c) =~= parts);
    } else {
        assert(pieces_of(text, c) =~= parts);
    }
}

proof fn lemma_blank_end(s: Seq<char>, h: Seq<char>)
    requires
        blank(h),
    ensures
        trimmed_end(s + h) == trimmed_end(s),
    decreases h.len(),
{
    if h.len() == 0 {
        assert(s + h =~= s);
    } else {
        let g = h.drop_last();
        assert forall|i: int| 0 <= i < g.len() implies white(#[trigger] g[i]) by {
            assert(g[i] == h[i]);
        }
        lemma_blank_end(s, g);
        assert(white(h[h.len() - 1]));
        assert((s + h).last() == h.last());
        assert((s + h).drop_last() =~= s + g);
    }
}

/// Trimming takes the white space at both ends away, and nothing else.
pub proof fn only_blanks_are_trimmed(g: Seq<char>, s: Seq<char>, h: Seq<char>)
    requires
        blank(g),
        blank(h),
        is_trimmed(s),
    ensures
        trimmed(g + s + h) == s,
{
    assert(g + s + h =~= g + (s + h));
    lemma_blank_front(g, s + h);
    if s.len() > 0 {
        assert((s + h)[0] == s[0]);
        assert(trimmed_start(s + h) == s + h);
        lemma_blank_end(s, h);
        assert(trimmed_end(s) == s);
    } else {
        assert(s + h =~= h);
        lemma_trimmed_start(h);
        let t = trimmed_start(h);
        lemma_blank_front(h, Seq::empty());
        assert(h + Seq::empty() =~= h);
        assert(trimmed_start(Seq::<char>::empty()) =~= Seq::empty());
        assert(t =~= Seq::empty());
        assert(trimmed_end(t) =~= s);
    }
}

/// Of the ASCII characters, the blank, the tabs and the ends of lines and pages are white.
pub proof fn ascii_white_space(c: char)
    requires
        c < '\u{80}',
    ensures
        white(c) <==> c == ' ' || c == '\t' || c == '\n' || c == '\u{b}' || c == '\u{c}' || c == '\r',
{
}

/// White space behind a text adds no word to it.
pub proof fn blanks_behind_are_no_words(s: Seq<char>, h: Seq<char>)
    requires
        blank(h),
    ensures
        words_of(s + h) == words_of(s),
    decreases s.len(),
{
    lemma_trimmed_start(s);
    let t = trimmed_start(s);
    let n = s.len() - t.len();
    let g = s.take(n);
    assert(s.skip(n) =~= t);
    assert(blank(g)) by {
        assert forall|i: int| 0 <= i < g.len() implies white(#[trigger] g[i]) by {
            assert(g[i] == s[i]);
        }
    }
    assert(s =~= g + t);
    assert(s + h =~= g + (t + h));
    lemma_blank_front(g, t + h);
    lemma_blank_front(g, t);
    if t.len() == 0 {
        assert(t + h =~= h);
        lemma_blank_front(h, Seq::empty());
        assert(h + Seq::empty() =~= h);
        assert(words_of(h) == words_of(t)) by {
            assert(t =~= Seq::empty());
        }
    } else {
        lemma_word_len(t);
        let k = word_len(t) as int;
        let w = t.take(k);
        let rest = t.skip(k);
        lemma_first_word(t);
        assert(t =~= w + rest);
        assert(t + h =~= w + (rest + h));
        assert(k > 0) by {
            assert(!white(t[0]));
        }
        assert((rest + h).len() > 0 ==> white((rest + h)[0])) by {
            if rest.len() == 0 && h.len() > 0 {
                assert((rest + h)[0] == h[0]);
            }
        }
        lemma_word_front(w, rest + h);
        lemma_word_front(w, rest);
        blanks_behind_are_no_words(rest, h);
    }
}

/// The first word of a text that begins with one.
proof fn lemma_first_word(t: Seq<char>)
    ensures
        word_len(t) <= t.len(),
        forall|i: int| 0 <= i < word_len(t) ==> !white(#[trigger] t.take(word_len(t) as int)[i]),
        word_len(t) < t.len() ==> white(t.skip(word_len(t) as int)[0]),
    decreases t.len(),
{
    if t.len() > 0 && !white(t[0]) {
        let u = t.drop_first();
        lemma_first_word(u);
        let k = word_len(t) as int;
        assert forall|i: int| 0 <= i < k implies !white(#[trigger] t.take(k)[i]) by {
            if i > 0 {
                assert(u.take(k - 1)[i - 1] == t[i]);
            }
        }
        if k < t.len() {
            assert(u.skip(k - 1)[0] == t.skip(k)[0]);
        }
    }
}

/// The rows of a text are those it was made of, to the letter: a carriage return in
/// front of a line feed stays.
pub proof fn rows_are_found(rows: Seq<Seq<char>>, cr: bool)
    requires
        forall|i: int| 0 <= i < rows.len() ==> !(#[trigger] rows[i]).contains('\n'),
    ensures
        rows_of(ended(rows, cr)) == Seq::new(
            rows.len(),
            |i: int|
                if cr {
                    rows[i].push('\r')
                } else {
                    rows[i]
                },
        ),
    decreases rows.len(),
{
    let text = ended(rows, cr);
    let want = Seq::new(
        rows.len(),
        |i: int|
            if cr {
                rows[i].push('\r')
            } else {
                rows[i]
            },
    );
    if rows.len() == 0 {
        assert(rows_of(text) =~= want);
    } else {
        let row = rows[0];
        let t = rows.drop_first();
        assert forall|i: int| 0 <= i < t.len() implies !(#[trigger] t[i]).contains('\n') by {
            assert(t[i] == rows[i + 1]);
        }
        rows_are_found(t, cr);
        let line = if cr {
            row.push('\r')
        } else {
            row
        };
        let k = line.len() as int;
        assert(text =~= line + seq!['\n'] + ended(t, cr));
        assert forall|i: int| 0 <= i < k implies #[trigger] text[i] != '\n' by {
            if i < row.len() {
                assert(row.contains(row[i]));
                assert(text[i] == row[i]);
            } else {
                assert(text[i] == '\r');
            }
        }
        assert(text[k] == '\n');
        lemma_first_at_is(text, '\n', k);
        assert(text.take(k) =~= line);
        assert(text.skip(k + 1) =~= ended(t, cr));
        assert(rows_of(text) =~= want);
    }
}

} // verus!
