//! Decimal digits: scanning, evaluation, and rendering.
//!
//! The schedule grammar and the endpoint weights are written as runs of
//! decimal digits, and the measurement-tool command line carries a duration
//! rendered back into decimal. The spec functions here give both directions a
//! single mathematical meaning.

use vstd::prelude::*;

verus! {

/// A decimal digit character.
pub open spec fn is_digit_char(c: char) -> bool {
    48 <= c as u32 <= 57
}

/// Numeric value of a decimal digit character.
pub open spec fn digit_val(c: char) -> nat {
    (c as u32 - 48) as nat
}

/// The digit predicate, as a function value shared by specs and proofs.
pub open spec fn digit_pred() -> spec_fn(char) -> bool {
    |c: char| is_digit_char(c)
}

/// Number of consecutive characters of `s` satisfying `p`, starting at `i`.
pub open spec fn count_from(s: Seq<char>, i: int, p: spec_fn(char) -> bool) -> nat
    decreases s.len() - i,
{
    if i < 0 || i >= s.len() || !p(s[i]) {
        0
    } else {
        1 + count_from(s, i + 1, p)
    }
}

/// A scan that sees `p` hold on all of `[i, j)` and fail at `j` (or hit the
/// end of `s` there) has counted exactly `j - i` characters.
pub proof fn lemma_count_from(s: Seq<char>, i: int, j: int, p: spec_fn(char) -> bool)
    requires
        0 <= i <= j <= s.len(),
        forall|m: int| i <= m < j ==> p(s[m]),
        j == s.len() || !p(s[j]),
    ensures
        count_from(s, i, p) == j - i,
    decreases j - i,
{
    if i < j {
        lemma_count_from(s, i + 1, j, p);
    }
}

/// A scan that stops strictly inside `s` (at a character failing `p`) is
/// unchanged by whatever follows: it counts the same in any extension of
/// `s`.
pub proof fn lemma_count_from_prefix(s: Seq<char>, t: Seq<char>, i: int, p: spec_fn(char) -> bool)
    requires
        0 <= i <= s.len(),
        s.len() <= t.len(),
        forall|k: int| 0 <= k < s.len() ==> s[k] == t[k],
        i + count_from(s, i, p) < s.len(),
    ensures
        count_from(t, i, p) == count_from(s, i, p),
    decreases s.len() - i,
{
    if i < s.len() && p(s[i]) {
        lemma_count_from_prefix(s, t, i + 1, p);
    }
}

/// A scan depends only on the characters from its start to the end: it
/// counts the same over equal suffixes.
pub proof fn lemma_count_from_shift(
    s: Seq<char>,
    t: Seq<char>,
    i: int,
    j: int,
    p: spec_fn(char) -> bool,
)
    requires
        0 <= i <= s.len(),
        0 <= j <= t.len(),
        s.len() - i == t.len() - j,
        forall|k: int| 0 <= k < s.len() - i ==> #[trigger] s[i + k] == t[j + k],
    ensures
        count_from(t, j, p) == count_from(s, i, p),
    decreases s.len() - i,
{
    if i < s.len() {
        assert(s[i] == t[j]) by {
            assert(s[i + 0] == t[j + 0]);
        }
        if p(s[i]) {
            assert forall|k: int| 0 <= k < s.len() - (i + 1) implies #[trigger] s[i + 1 + k] == t[
                j + 1 + k] by {
                assert(s[i + (k + 1)] == t[j + (k + 1)]);
            }
            lemma_count_from_shift(s, t, i + 1, j + 1, p);
        }
    }
}

/// Value of the digit run `s[lo..hi]`, most significant digit first.
pub open spec fn dec_val_range(s: Seq<char>, lo: int, hi: int) -> nat
    decreases hi - lo,
{
    if hi <= lo {
        0
    } else {
        dec_val_range(s, lo, hi - 1) * 10 + digit_val(s[hi - 1])
    }
}

/// A digit run evaluates the same in any sequence that carries the same
/// characters at the same positions.
pub proof fn lemma_dec_val_range_same(s: Seq<char>, t: Seq<char>, lo: int, hi: int)
    requires
        0 <= lo,
        hi <= s.len(),
        hi <= t.len(),
        forall|m: int| lo <= m < hi ==> s[m] == t[m],
    ensures
        dec_val_range(s, lo, hi) == dec_val_range(t, lo, hi),
    decreases hi - lo,
{
    if lo < hi {
        lemma_dec_val_range_same(s, t, lo, hi - 1);
    }
}

/// A digit run's value depends only on its characters: shifting the run to
/// other positions over the same characters keeps the value.
pub proof fn lemma_dec_val_range_shift(s: Seq<char>, t: Seq<char>, lo: int, hi: int, lo2: int)
    requires
        0 <= lo <= hi <= s.len(),
        0 <= lo2,
        lo2 + (hi - lo) <= t.len(),
        forall|k: int| 0 <= k < hi - lo ==> #[trigger] s[lo + k] == t[lo2 + k],
    ensures
        dec_val_range(t, lo2, lo2 + (hi - lo)) == dec_val_range(s, lo, hi),
    decreases hi - lo,
{
    if lo < hi {
        assert(s[hi - 1] == t[lo2 + (hi - 1 - lo)]) by {
            assert(s[lo + (hi - 1 - lo)] == t[lo2 + (hi - 1 - lo)]);
        }
        lemma_dec_val_range_shift(s, t, lo, hi - 1, lo2);
    }
}

/// Decimal rendering of a natural number, most significant digit first and
/// without leading zeros (`0` renders as "0").
pub open spec fn dec_str(n: nat) -> Seq<char>
    decreases n,
{
    if n < 10 {
        seq![digit_char(n)]
    } else {
        dec_str(n / 10) + seq![digit_char(n % 10)]
    }
}

/// Decimal rendering of an integer: a minus sign before the magnitude.
pub open spec fn int_str(i: int) -> Seq<char> {
    if i < 0 {
        seq!['-'] + dec_str((-i) as nat)
    } else {
        dec_str(i as nat)
    }
}

/// The digit character with value `n` (for `n < 10`).
pub open spec fn digit_char(n: nat) -> char
    recommends
        n < 10,
{
    ((n + 48) as u8) as char
}

/// Is the character at `j` a decimal digit?
pub(crate) fn char_at_is_digit(s: &str, j: usize) -> (r: bool)
    requires
        j < s@.len(),
    ensures
        r == is_digit_char(s@[j as int]),
{
    let c = s.get_char(j);
    let v = c as u32;
    48 <= v && v <= 57
}

/// Scans the digit run starting at `from`; returns its end, and its value
/// when that value fits in `u64`.
pub(crate) fn scan_number(s: &str, from: usize, n: usize) -> (r: (usize, Option<u64>))
    requires
        n == s@.len(),
        from <= n,
    ensures
        from <= r.0 <= n,
        r.0 as int == from + count_from(s@, from as int, digit_pred()),
        match r.1 {
            Some(v) => v as nat == dec_val_range(s@, from as int, r.0 as int),
            None => dec_val_range(s@, from as int, r.0 as int) > u64::MAX,
        },
{
    let mut j = from;
    let mut val: u64 = 0;
    let mut over = false;
    while j < n && char_at_is_digit(s, j)
        invariant
            from <= j <= n,
            n == s@.len(),
            forall|m: int| from <= m < j ==> is_digit_char(s@[m]),
            !over ==> val as nat == dec_val_range(s@, from as int, j as int),
            over ==> dec_val_range(s@, from as int, j as int) > u64::MAX,
        decreases n - j,
    {
        let c = s.get_char(j);
        let d = (c as u32) - 48;
        proof {
            assert(dec_val_range(s@, from as int, j + 1) == dec_val_range(
                s@,
                from as int,
                j as int,
            ) * 10 + digit_val(s@[j as int]));
            assert(digit_val(s@[j as int]) == d as nat);
        }
        if !over {
            let grown = val.checked_mul(10);
            match grown {
                Some(v10) => {
                    let summed = v10.checked_add(d as u64);
                    match summed {
                        Some(v) => {
                            val = v;
                        },
                        None => {
                            over = true;
                        },
                    }
                },
                None => {
                    over = true;
                },
            }
        }
        j += 1;
    }
    proof {
        lemma_count_from(s@, from as int, j as int, digit_pred());
    }
    (j, if over {
        None
    } else {
        Some(val)
    })
}

/// One-character string holding the digit of value `d`.
fn digit_string(d: u64) -> (r: &'static str)
    requires
        d < 10,
    ensures
        r@ =~= seq![digit_char(d as nat)],
{
    proof {
        reveal_strlit("0");
        reveal_strlit("1");
        reveal_strlit("2");
        reveal_strlit("3");
        reveal_strlit("4");
        reveal_strlit("5");
        reveal_strlit("6");
        reveal_strlit("7");
        reveal_strlit("8");
        reveal_strlit("9");
    }
    match d {
        0 => "0",
        1 => "1",
        2 => "2",
        3 => "3",
        4 => "4",
        5 => "5",
        6 => "6",
        7 => "7",
        8 => "8",
        _ => "9",
    }
}

/// Renders `n` in decimal.
pub fn u64_to_string(n: u64) -> (r: String)
    ensures
        r@ == dec_str(n as nat),
    decreases n,
{
    if n < 10 {
        digit_string(n).to_owned()
    } else {
        let prefix = u64_to_string(n / 10);
        let r = prefix.concat(digit_string(n % 10));
        proof {
            assert(r@ =~= dec_str(n as nat));
        }
        r
    }
}

/// Renders `n` in decimal, with a leading minus sign when `n` is negative.
pub fn i64_to_string(n: i64) -> (r: String)
    requires
        n > i64::MIN,
    ensures
        r@ == int_str(n as int),
{
    if n < 0 {
        proof {
            reveal_strlit("-");
        }
        let minus: String = "-".to_owned();
        let magnitude: u64 = (-n) as u64;
        let r = minus.concat(u64_to_string(magnitude).as_str());
        proof {
            assert(r@ =~= int_str(n as int));
        }
        r
    } else {
        u64_to_string(n as u64)
    }
}

} // verus!
