//! Decimal numbers: writing them down and reading them back.
use vstd::prelude::*;
use vstd::slice::slice_subrange;

verus! {

/// The digit for a value below ten.
pub open spec fn digit(d: int) -> char {
    ('0' as int + d) as char
}

/// The decimal digits of `n`, without leading zeros.
pub open spec fn decimal(n: nat) -> Seq<char>
    decreases n,
{
    if n < 10 {
        seq![digit(n as int)]
    } else {
        decimal(n / 10).push(digit((n % 10) as int))
    }
}

/// An integer in decimal, with a minus sign where it is negative.
pub open spec fn decimal_int(i: int) -> Seq<char> {
    if i < 0 {
        seq!['-'] + decimal((-i) as nat)
    } else {
        decimal(i as nat)
    }
}

/// `c` is one of the ten ASCII digits.
pub open spec fn is_digit(c: char) -> bool {
    '0' <= c <= '9'
}

/// A non-empty run of digits.
pub open spec fn digits(s: Seq<char>) -> bool {
    s.len() > 0 && forall|i: int| 0 <= i < s.len() ==> is_digit(#[trigger] s[i])
}

/// The number that a run of digits stands for.
pub open spec fn value(s: Seq<char>) -> int
    decreases s.len(),
{
    if s.len() == 0 {
        0
    } else {
        10 * value(s.drop_last()) + (s.last() as int - '0' as int)
    }
}

/// `s` read as an integer without a sign or with a plus sign, at most `max`.
pub open spec fn unsigned(s: Seq<char>, max: int) -> Option<int> {
    let d = if s.len() > 0 && s[0] == '+' {
        s.drop_first()
    } else {
        s
    };
    if digits(d) && value(d) <= max {
        Some(value(d))
    } else {
        None
    }
}

/// `s` read as an integer with an optional sign, from `min` to `max`.
pub open spec fn signed(s: Seq<char>, min: int, max: int) -> Option<int> {
    if s.len() > 0 && s[0] == '-' {
        let d = s.drop_first();
        if digits(d) && min <= -value(d) {
            Some(-value(d))
        } else {
            None
        }
    } else {
        unsigned(s, max)
    }
}

/// A figure that may be missing: zero where it cannot be read.
pub open spec fn or_zero(n: Option<int>) -> int {
    match n {
        Some(v) => v,
        None => 0,
    }
}

pub proof fn lemma_value_grows(s: Seq<char>, i: int)
    requires
        forall|j: int| 0 <= j < s.len() ==> is_digit(#[trigger] s[j]),
        0 <= i <= s.len(),
    ensures
        0 <= value(s.take(i)) <= value(s),
    decreases s.len(),
{
    if i == s.len() {
        assert(s.take(i) =~= s);
        if s.len() > 0 {
            let t = s.drop_last();
            assert forall|j: int| 0 <= j < t.len() implies is_digit(#[trigger] t[j]) by {
                assert(t[j] == s[j]);
            }
            lemma_value_grows(t, i - 1);
            assert(t.take(i - 1) =~= t);
        }
    } else {
        let t = s.drop_last();
        assert forall|j: int| 0 <= j < t.len() implies is_digit(#[trigger] t[j]) by {
            assert(t[j] == s[j]);
        }
        lemma_value_grows(t, i);
        assert(t.take(i) =~= s.take(i));
        assert(is_digit(s[s.len() - 1]));
    }
}

/// Reading the decimal digits of a number gives the number.
pub proof fn lemma_decimal(n: nat)
    ensures
        digits(decimal(n)),
        value(decimal(n)) == n,
        decimal(n)[0] != '+',
        decimal(n)[0] != '-',
    decreases n,
{
    if n < 10 {
        let s = seq![digit(n as int)];
        assert(s.drop_last() =~= Seq::empty());
        assert(value(s.drop_last()) == 0);
        assert(value(s) == 10 * value(s.drop_last()) + (s.last() as int - '0' as int));
    } else {
        lemma_decimal(n / 10);
        let s = decimal(n);
        let t = decimal(n / 10);
        assert(s.drop_last() =~= t);
        assert forall|i: int| 0 <= i < s.len() implies is_digit(#[trigger] s[i]) by {
            if i < t.len() {
                assert(s[i] == t[i]);
            }
        }
        assert(s[0] == t[0]);
    }
}

/// What is written in decimal is read back as the same integer.
pub proof fn written_integers_are_read_back(i: int, min: int, max: int)
    requires
        min <= i <= max,
    ensures
        signed(decimal_int(i), min, max) == Some(i),
        i >= 0 ==> unsigned(decimal_int(i), max) == Some(i),
{
    if i < 0 {
        lemma_decimal((-i) as nat);
        assert(decimal_int(i).drop_first() =~= decimal((-i) as nat));
    } else {
        lemma_decimal(i as nat);
    }
}

/// Writes `n` in decimal at the end of `out`.
pub fn push_decimal(out: &mut String, n: u64)
    ensures
        final(out)@ == old(out)@ + decimal(n as nat),
    decreases n,
{
    let ghost before = out@;
    if n >= 10 {
        push_decimal(out, n / 10);
    }
    let c = (48u8 + (n % 10) as u8) as char;
    out.push(c);
    proof {
        assert(c == digit((n % 10) as int));
        assert(out@ =~= before + decimal(n as nat));
    }
}

/// `n` in decimal.
pub fn decimal_text(n: u64) -> (r: String)
    ensures
        r@ == decimal(n as nat),
{
    let mut out = String::new();
    push_decimal(&mut out, n);
    assert(Seq::<char>::empty() + decimal(n as nat) =~= decimal(n as nat));
    out
}

/// `i` in decimal.
pub fn integer_text(i: i64) -> (r: String)
    ensures
        r@ == decimal_int(i as int),
{
    if i < 0 {
        let mut out = String::new();
        out.push('-');
        let n: u64 = if i == i64::MIN {
            0x8000_0000_0000_0000
        } else {
            (-i) as u64
        };
        push_decimal(&mut out, n);
        assert(Seq::<char>::empty().push('-') + decimal(n as nat) =~= decimal_int(i as int));
        out
    } else {
        decimal_text(i as u64)
    }
}

/// The value of a run of digits, where it is one and is at most `max`.
fn read_digits(s: &[char], max: u64) -> (r: Option<u64>)
    ensures
        match r {
            Some(v) => digits(s@) && value(s@) == v && v <= max,
            None => !digits(s@) || value(s@) > max,
        },
{
    if s.len() == 0 {
        return None;
    }
    let mut acc: u64 = 0;
    let mut i: usize = 0;
    while i < s.len()
        invariant
            i <= s.len(),
            acc == value(s@.take(i as int)),
            acc <= max,
            forall|j: int| 0 <= j < i ==> is_digit(#[trigger] s@[j]),
        decreases s.len() - i,
    {
        let c = s[i];
        if !('0' <= c && c <= '9') {
            assert(!is_digit(s@[i as int]));
            return None;
        }
        let d: u64 = (c as u32 - '0' as u32) as u64;
        assert(s@.take(i + 1).drop_last() =~= s@.take(i as int));
        assert(value(s@.take(i + 1)) == 10 * acc + d);
        if d > max || acc > max / 10 || acc * 10 > max - d {
            proof {
                assert(value(s@.take(i + 1)) > max);
                if digits(s@) {
                    lemma_value_grows(s@, i + 1);
                }
            }
            return None;
        }
        acc = acc * 10 + d;
        i += 1;
    }
    assert(s@.take(i as int) =~= s@);
    Some(acc)
}

/// Reads an unsigned integer of at most `max`.
pub fn read_unsigned(s: &[char], max: u64) -> (r: Option<u64>)
    ensures
        match r {
            Some(v) => unsigned(s@, max as int) == Some(v as int) && v <= max,
            None => unsigned(s@, max as int) is None,
        },
{
    if s.len() > 0 && s[0] == '+' {
        let d = slice_subrange(s, 1, s.len());
        assert(d@ =~= s@.drop_first());
        read_digits(d, max)
    } else {
        read_digits(s, max)
    }
}

/// Reads a signed 64-bit integer.
pub fn read_i64(s: &[char]) -> (r: Option<i64>)
    ensures
        match r {
            Some(v) => signed(s@, i64::MIN as int, i64::MAX as int) == Some(v as int),
            None => signed(s@, i64::MIN as int, i64::MAX as int) is None,
        },
{
    if s.len() > 0 && s[0] == '-' {
        let d = slice_subrange(s, 1, s.len());
        assert(d@ =~= s@.drop_first());
        match read_digits(d, 0x8000_0000_0000_0000) {
            Some(v) => if v == 0x8000_0000_0000_0000 {
                Some(i64::MIN)
            } else {
                Some(-(v as i64))
            },
            None => None,
        }
    } else {
        match read_unsigned(s, 0x7fff_ffff_ffff_ffff) {
            Some(v) => Some(v as i64),
            None => None,
        }
    }
}

/// Reads a signed 32-bit integer.
pub fn read_i32(s: &[char]) -> (r: Option<i32>)
    ensures
        match r {
            Some(v) => signed(s@, i32::MIN as int, i32::MAX as int) == Some(v as int),
            None => signed(s@, i32::MIN as int, i32::MAX as int) is None,
        },
{
    match read_i64(s) {
        Some(v) => if -0x8000_0000 <= v && v <= 0x7fff_ffff {
            Some(v as i32)
        } else {
            proof {
                let d = if s@.len() > 0 && (s@[0] == '-' || s@[0] == '+') {
                    s@.drop_first()
                } else {
                    s@
                };
                lemma_value_grows(d, 0);
                assert(d.take(0) =~= Seq::empty());
            }
            None
        },
        None => None,
    }
}

} // verus!
