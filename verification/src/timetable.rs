//! The schedule: a line-oriented text format, one daily time window per line.
//!
//! A line has the shape `<start_hour>-<end_hour> <value><unit>` with `unit`
//! one of `s`, `m`, `h`; leading spaces and tabs before the hour span are
//! ignored, and at least one space or tab separates the span from the period.
//! An `end_hour` of `0` is normalized to `24` (midnight expressed as the end
//! of the day); a start hour above 23 or an end hour above 24 does not
//! parse. The whole document either parses — one window per line, in line
//! order — or fails as a unit: a single malformed line yields an error
//! and no windows. A trailing line ending after the last window is accepted.
//!
//! A window is valid when its sampling period, in whole hours, fits inside
//! the hour span. Validation is all-or-nothing as well: every invalid window
//! is collected and reported together, and one invalid window rejects the
//! whole schedule.

use vstd::prelude::*;

use crate::digits::{
    count_from, dec_val_range, digit_pred, lemma_count_from, lemma_count_from_prefix, lemma_count_from_shift, lemma_dec_val_range_same,
    lemma_dec_val_range_shift, scan_number,
};

verus! {

/// One daily recurring time window: measurements run every
/// `duration_seconds` while the wall-clock hour lies in
/// `start_hour..end_hour`.
#[derive(Debug, Clone, Copy, PartialEq, Eq, Structural)]
pub struct Table {
    pub start_hour: u8,
    pub end_hour: u8,
    pub duration_seconds: u64,
}

/// How a schedule can be refused.
#[derive(Debug, Clone, PartialEq, Eq)]
pub enum ScheduleError {
    /// Some line does not match the grammar (or the document is empty).
    Syntax,
    /// Windows whose period does not fit their span, in source order.
    Semantic(Vec<Table>),
}

impl Table {
    /// The sampling period, in whole hours, fits inside the window's span.
    pub open spec fn spec_valid(self) -> bool {
        self.end_hour - self.start_hour >= self.duration_seconds / 3600
    }

    /// Decides validity, exactly as [`Table::spec_valid`] states it.
    pub fn is_valid(&self) -> (r: bool)
        ensures
            r == self.spec_valid(),
    {
        let hours: u64 = self.duration_seconds / 3600;
        self.end_hour >= self.start_hour && (self.end_hour - self.start_hour) as u64 >= hours
    }

    /// The window scheduler's hourly test: a measurement is due at `hour`
    /// exactly when the hour lies inside the window.
    pub open spec fn spec_gate(self, hour: u8) -> bool {
        self.start_hour <= hour < self.end_hour
    }

    /// Decides whether a measurement is due, per [`Table::spec_gate`].
    pub fn should_run(&self, hour: u8) -> (r: bool)
        ensures
            r == self.spec_gate(hour),
    {
        hour >= self.start_hour && hour < self.end_hour
    }
}

/// Space or tab: the blanks accepted inside a schedule line.
pub open spec fn is_space_char(c: char) -> bool {
    c == ' ' || c == '\t'
}

/// The blank predicate, as a function value shared by specs and proofs.
pub open spec fn space_pred() -> spec_fn(char) -> bool {
    |c: char| is_space_char(c)
}

/// Parses one window starting at position `i` of `s`: optional blanks, the
/// hour span `<digits>-<digits>`, blanks, and the period `<digits><unit>`.
/// Yields the window and the position just past the unit character, or
/// `None` when the text does not match or a value is out of range: the
/// start hour is at most 23, the end hour at most 24 (with `0` standing for
/// 24), and the period in seconds must fit in `u64`.
pub open spec fn spec_line_at(s: Seq<char>, i: int) -> Option<(Table, int)> {
    let a = i + count_from(s, i, space_pred());
    let d1 = count_from(s, a, digit_pred());
    let v1 = dec_val_range(s, a, a + d1);
    if d1 == 0 || v1 > 23 || a + d1 >= s.len() || s[a + d1] != '-' {
        None
    } else {
        let b = a + d1 + 1;
        let d2 = count_from(s, b, digit_pred());
        let v2 = dec_val_range(s, b, b + d2);
        if d2 == 0 || v2 > 24 {
            None
        } else {
            let sp = count_from(s, b + d2, space_pred());
            let e0 = b + d2 + sp;
            let d3 = count_from(s, e0, digit_pred());
            let v3 = dec_val_range(s, e0, e0 + d3);
            if sp == 0 || d3 == 0 || v3 > u64::MAX || e0 + d3 >= s.len() {
                None
            } else {
                let u = s[e0 + d3];
                let mult: nat = if u == 's' {
                    1
                } else if u == 'm' {
                    60
                } else if u == 'h' {
                    3600
                } else {
                    0
                };
                if mult == 0 || v3 * mult > u64::MAX {
                    None
                } else {
                    Some(
                        (
                            Table {
                                start_hour: v1 as u8,
                                end_hour: if v2 == 0 {
                                    24
                                } else {
                                    v2 as u8
                                },
                                duration_seconds: (v3 * mult) as u64,
                            },
                            e0 + d3 + 1,
                        ),
                    )
                }
            }
        }
    }
}

/// Parses windows from position `i` to the end of `s`: each window per
/// [`spec_line_at`], each followed by the end of the input, `\n`, or `\r\n`.
pub open spec fn spec_parse_from(s: Seq<char>, i: int) -> Option<Seq<Table>>
    decreases s.len() - i,
{
    if i >= s.len() {
        Some(Seq::empty())
    } else {
        match spec_line_at(s, i) {
            None => None,
            Some((t, e)) => if e >= s.len() {
                Some(seq![t])
            } else if s[e] == '\n' {
                match spec_parse_from(s, e + 1) {
                    None => None,
                    Some(rest) => Some(seq![t] + rest),
                }
            } else if s[e] == '\r' && e + 1 < s.len() && s[e + 1] == '\n' {
                match spec_parse_from(s, e + 2) {
                    None => None,
                    Some(rest) => Some(seq![t] + rest),
                }
            } else {
                None
            },
        }
    }
}

/// The whole-document grammar: at least one window (an empty document is an
/// error), one per line, in line order; a single mismatching line makes the
/// whole document fail.
pub open spec fn spec_parse(s: Seq<char>) -> Option<Seq<Table>> {
    if s.len() == 0 {
        None
    } else {
        spec_parse_from(s, 0)
    }
}

/// A line that parses is read from its own characters alone: extending the
/// document past the end does not change how the line is read.
proof fn lemma_line_at_prefix(s: Seq<char>, t: Seq<char>, i: int)
    requires
        0 <= i <= s.len(),
        s.len() <= t.len(),
        forall|k: int| 0 <= k < s.len() ==> s[k] == t[k],
        spec_line_at(s, i) is Some,
    ensures
        spec_line_at(t, i) == spec_line_at(s, i),
{
    let a = i + count_from(s, i, space_pred());
    let d1 = count_from(s, a, digit_pred()) as int;
    let b = a + d1 + 1;
    let d2 = count_from(s, b, digit_pred()) as int;
    let sp = count_from(s, b + d2, space_pred()) as int;
    let e0 = b + d2 + sp;
    let d3 = count_from(s, e0, digit_pred()) as int;
    assert(d1 >= 1 && a + d1 < s.len());
    assert(d2 >= 1 && sp >= 1 && d3 >= 1 && e0 + d3 < s.len());
    assert(a < s.len());
    assert(b < s.len() && b + d2 < s.len() && e0 < s.len());
    lemma_count_from_prefix(s, t, i, space_pred());
    lemma_count_from_prefix(s, t, a, digit_pred());
    lemma_dec_val_range_same(s, t, a, a + d1);
    lemma_count_from_prefix(s, t, b, digit_pred());
    lemma_dec_val_range_same(s, t, b, b + d2);
    lemma_count_from_prefix(s, t, b + d2, space_pred());
    lemma_count_from_prefix(s, t, e0, digit_pred());
    lemma_dec_val_range_same(s, t, e0, e0 + d3);
}

/// A line that parses is read the same at any position over the same
/// suffix: only the characters from the line's start onward matter.
proof fn lemma_line_at_shift(s: Seq<char>, t: Seq<char>, i: int, j: int, w: Table, e: int)
    requires
        0 <= i <= s.len(),
        0 <= j <= t.len(),
        s.len() - i == t.len() - j,
        forall|k: int| 0 <= k < s.len() - i ==> #[trigger] s[i + k] == t[j + k],
        spec_line_at(s, i) == Some((w, e)),
    ensures
        spec_line_at(t, j) == Some((w, e - i + j)),
{
    let a = i + count_from(s, i, space_pred());
    let d1 = count_from(s, a, digit_pred()) as int;
    let b = a + d1 + 1;
    let d2 = count_from(s, b, digit_pred()) as int;
    let sp = count_from(s, b + d2, space_pred()) as int;
    let e0 = b + d2 + sp;
    let d3 = count_from(s, e0, digit_pred()) as int;
    assert(d1 >= 1 && a + d1 < s.len());
    assert(d2 >= 1 && sp >= 1 && d3 >= 1 && e0 + d3 < s.len());
    assert(a < s.len() && b < s.len() && b + d2 < s.len() && e0 < s.len());
    let delta = j - i;
    lemma_count_from_shift(s, t, i, j, space_pred());
    assert forall|k: int| 0 <= k < s.len() - a implies #[trigger] s[a + k] == t[(a + delta) + k] by {
        assert(s[i + (a - i + k)] == t[j + (a - i + k)]);
    }
    lemma_count_from_shift(s, t, a, a + delta, digit_pred());
    lemma_dec_val_range_shift(s, t, a, a + d1, a + delta);
    assert forall|k: int| 0 <= k < s.len() - b implies #[trigger] s[b + k] == t[(b + delta) + k] by {
        assert(s[i + (b - i + k)] == t[j + (b - i + k)]);
    }
    lemma_count_from_shift(s, t, b, b + delta, digit_pred());
    lemma_dec_val_range_shift(s, t, b, b + d2, b + delta);
    assert forall|k: int| 0 <= k < s.len() - (b + d2) implies #[trigger] s[b + d2 + k] == t[(b + d2
        + delta) + k] by {
        assert(s[i + (b + d2 - i + k)] == t[j + (b + d2 - i + k)]);
    }
    lemma_count_from_shift(s, t, b + d2, b + d2 + delta, space_pred());
    assert forall|k: int| 0 <= k < s.len() - e0 implies #[trigger] s[e0 + k] == t[(e0 + delta) + k] by {
        assert(s[i + (e0 - i + k)] == t[j + (e0 - i + k)]);
    }
    lemma_count_from_shift(s, t, e0, e0 + delta, digit_pred());
    lemma_dec_val_range_shift(s, t, e0, e0 + d3, e0 + delta);
    assert(s[a + d1] == t[a + d1 + delta]) by {
        assert(s[i + (a + d1 - i)] == t[j + (a + d1 - i)]);
    }
    assert(s[e0 + d3] == t[e0 + d3 + delta]) by {
        assert(s[i + (e0 + d3 - i)] == t[j + (e0 + d3 - i)]);
    }
}

/// A document tail that parses still parses, to the same windows, when the
/// same characters stand at another position of another document.
proof fn lemma_parse_from_shift(s: Seq<char>, t: Seq<char>, i: int, j: int, u: Seq<Table>)
    requires
        0 <= i <= s.len(),
        0 <= j <= t.len(),
        s.len() - i == t.len() - j,
        forall|k: int| 0 <= k < s.len() - i ==> #[trigger] s[i + k] == t[j + k],
        spec_parse_from(s, i) == Some(u),
    ensures
        spec_parse_from(t, j) == Some(u),
    decreases s.len() - i,
{
    if i >= s.len() {
        assert(u =~= Seq::<Table>::empty());
    } else {
        let (w, e) = spec_line_at(s, i)->Some_0;
        lemma_line_at_shift(s, t, i, j, w, e);
        let e2 = e - i + j;
        if e >= s.len() {
        } else if s[e] == '\n' {
            assert(t[e2] == s[e]) by {
                assert(s[i + (e - i)] == t[j + (e - i)]);
            }
            let rest = spec_parse_from(s, e + 1)->Some_0;
            assert forall|k: int| 0 <= k < s.len() - (e + 1) implies #[trigger] s[e + 1 + k] == t[e2 + 1
                + k] by {
                assert(s[i + (e + 1 - i + k)] == t[j + (e + 1 - i + k)]);
            }
            lemma_parse_from_shift(s, t, e + 1, e2 + 1, rest);
        } else {
            assert(t[e2] == s[e]) by {
                assert(s[i + (e - i)] == t[j + (e - i)]);
            }
            assert(t[e2 + 1] == s[e + 1]) by {
                assert(s[i + (e + 1 - i)] == t[j + (e + 1 - i)]);
            }
            let rest = spec_parse_from(s, e + 2)->Some_0;
            assert forall|k: int| 0 <= k < s.len() - (e + 2) implies #[trigger] s[e + 2 + k] == t[e2 + 2
                + k] by {
                assert(s[i + (e + 2 - i + k)] == t[j + (e + 2 - i + k)]);
            }
            lemma_parse_from_shift(s, t, e + 2, e2 + 2, rest);
        }
    }
}

/// The inductive core of [`lemma_parse_concat`]: from any line start of the
/// first document.
proof fn lemma_parse_from_concat(
    s1: Seq<char>,
    s2: Seq<char>,
    i: int,
    u: Seq<Table>,
    w2: Seq<Table>,
)
    requires
        0 <= i < s1.len(),
        s1[s1.len() - 1] != '\n',
        spec_parse_from(s1, i) == Some(u),
        spec_parse_from(s2, 0) == Some(w2),
    ensures
        spec_parse_from(s1 + seq!['\n'] + s2, i) == Some(u + w2),
    decreases s1.len() - i,
{
    let ext = s1 + seq!['\n'] + s2;
    let ln = s1.len() as int;
    assert(forall|k: int| 0 <= k < s1.len() ==> s1[k] == ext[k]);
    assert(ext[ln] == '\n');
    let (w, e) = spec_line_at(s1, i)->Some_0;
    lemma_line_at_prefix(s1, ext, i);
    if e >= s1.len() {
        assert(e == ln);
        assert forall|k: int| 0 <= k < s2.len() implies #[trigger] s2[k] == ext[ln + 1 + k] by {}
        lemma_parse_from_shift(s2, ext, 0, ln + 1, w2);
        assert(spec_parse_from(ext, i) == Some(seq![w] + w2));
        assert(seq![w] + w2 =~= u + w2);
    } else if s1[e] == '\n' {
        assert(e + 1 < s1.len());
        let rest = spec_parse_from(s1, e + 1)->Some_0;
        lemma_parse_from_concat(s1, s2, e + 1, rest, w2);
        assert(spec_parse_from(ext, i) == Some(seq![w] + (rest + w2)));
        assert(seq![w] + (rest + w2) =~= u + w2);
    } else {
        assert(s1[e] == '\r' && e + 1 < s1.len() && s1[e + 1] == '\n');
        assert(e + 2 < s1.len());
        let rest = spec_parse_from(s1, e + 2)->Some_0;
        lemma_parse_from_concat(s1, s2, e + 2, rest, w2);
        assert(spec_parse_from(ext, i) == Some(seq![w] + (rest + w2)));
        assert(seq![w] + (rest + w2) =~= u + w2);
    }
}

/// Parsing goes line by line, in order: joining two well-formed schedules
/// with a line ending parses to the first schedule's windows followed by
/// the second's — every line contributes exactly its own window, in line
/// order, however the documents are split.
pub proof fn lemma_parse_concat(s1: Seq<char>, s2: Seq<char>, w1: Seq<Table>, w2: Seq<Table>)
    requires
        spec_parse(s1) == Some(w1),
        spec_parse(s2) == Some(w2),
        s1[s1.len() - 1] != '\n',
    ensures
        spec_parse(s1 + seq!['\n'] + s2) == Some(w1 + w2),
{
    lemma_parse_from_concat(s1, s2, 0, w1, w2);
}

/// The inductive core of [`lemma_parse_hours_in_range`].
proof fn lemma_parse_from_hours(s: Seq<char>, i: int, ws: Seq<Table>)
    requires
        0 <= i,
        spec_parse_from(s, i) == Some(ws),
    ensures
        forall|k: int|
            0 <= k < ws.len() ==> (#[trigger] ws[k]).start_hour <= 23 && 1 <= ws[k].end_hour
                <= 24,
    decreases s.len() - i,
{
    if i < s.len() {
        let (w, e) = spec_line_at(s, i)->Some_0;
        assert(w.start_hour <= 23 && 1 <= w.end_hour <= 24);
        if e >= s.len() {
        } else if s[e] == '\n' {
            lemma_parse_from_hours(s, e + 1, spec_parse_from(s, e + 1)->Some_0);
        } else {
            lemma_parse_from_hours(s, e + 2, spec_parse_from(s, e + 2)->Some_0);
        }
    }
}

/// The data model's hour bounds hold of every window a schedule parses to:
/// the start hour lies in 0..=23 and the end hour in 1..=24.
pub proof fn lemma_parse_hours_in_range(s: Seq<char>, ws: Seq<Table>)
    requires
        spec_parse(s) == Some(ws),
    ensures
        forall|k: int|
            0 <= k < ws.len() ==> (#[trigger] ws[k]).start_hour <= 23 && 1 <= ws[k].end_hour
                <= 24,
{
    lemma_parse_from_hours(s, 0, ws);
}

/// Is the character at `j` a blank (space or tab)?
fn char_at_is_space(s: &str, j: usize) -> (r: bool)
    requires
        j < s@.len(),
    ensures
        r == is_space_char(s@[j as int]),
{
    let c = s.get_char(j);
    c == ' ' || c == '\t'
}

/// Skips blanks from `from`; returns the first non-blank position.
fn scan_spaces(s: &str, from: usize, n: usize) -> (r: usize)
    requires
        n == s@.len(),
        from <= n,
    ensures
        from <= r <= n,
        r as int == from + count_from(s@, from as int, space_pred()),
{
    let mut j = from;
    while j < n && char_at_is_space(s, j)
        invariant
            from <= j <= n,
            n == s@.len(),
            forall|m: int| from <= m < j ==> is_space_char(s@[m]),
        decreases n - j,
    {
        j += 1;
    }
    proof {
        lemma_count_from(s@, from as int, j as int, space_pred());
    }
    j
}

/// Parses one schedule line starting at `i`, exactly as [`spec_line_at`]
/// reads it.
fn parse_line_at(s: &str, i: usize, n: usize) -> (r: Option<(Table, usize)>)
    requires
        n == s@.len(),
        i <= n,
    ensures
        match r {
            Some(te) => spec_line_at(s@, i as int) == Some((te.0, te.1 as int)) && i < te.1 <= n,
            None => spec_line_at(s@, i as int) is None,
        },
{
    let a = scan_spaces(s, i, n);
    let (b, v1_opt) = scan_number(s, a, n);
    if b == a {
        return None;
    }
    let v1 = match v1_opt {
        Some(v) => v,
        None => {
            return None;
        },
    };
    if v1 > 23 {
        return None;
    }
    if b == n {
        return None;
    }
    if s.get_char(b) != '-' {
        return None;
    }
    let (c0, v2_opt) = scan_number(s, b + 1, n);
    if c0 == b + 1 {
        return None;
    }
    let v2 = match v2_opt {
        Some(v) => v,
        None => {
            return None;
        },
    };
    if v2 > 24 {
        return None;
    }
    let e0 = scan_spaces(s, c0, n);
    if e0 == c0 {
        return None;
    }
    let (e1, v3_opt) = scan_number(s, e0, n);
    if e1 == e0 {
        return None;
    }
    let v3 = match v3_opt {
        Some(v) => v,
        None => {
            return None;
        },
    };
    if e1 == n {
        return None;
    }
    let u = s.get_char(e1);
    let mult: u64 = if u == 's' {
        1
    } else if u == 'm' {
        60
    } else if u == 'h' {
        3600
    } else {
        return None;
    };
    let secs = match v3.checked_mul(mult) {
        Some(x) => x,
        None => {
            return None;
        },
    };
    Some(
        (
            Table {
                start_hour: v1 as u8,
                end_hour: if v2 == 0 {
                    24
                } else {
                    v2 as u8
                },
                duration_seconds: secs,
            },
            e1 + 1,
        ),
    )
}

/// Parses a whole schedule document, per [`spec_parse`]: either one window
/// per line, in line order, or a syntax error and no windows at all.
pub fn parse(content: &str) -> (r: Result<Vec<Table>, ScheduleError>)
    ensures
        match r {
            Ok(v) => spec_parse(content@) == Some(v@),
            Err(e) => spec_parse(content@) is None && e == ScheduleError::Syntax,
        },
{
    let n = content.unicode_len();
    if n == 0 {
        return Err(ScheduleError::Syntax);
    }
    let mut out: Vec<Table> = Vec::new();
    let mut i: usize = 0;
    proof {
        match spec_parse_from(content@, 0) {
            Some(rest) => {
                assert(out@ + rest =~= rest);
            },
            None => {},
        }
    }
    while i < n
        invariant
            i <= n,
            n == content@.len(),
            spec_parse_from(content@, 0) == (match spec_parse_from(content@, i as int) {
                None => None::<Seq<Table>>,
                Some(rest) => Some(out@ + rest),
            }),
        decreases n - i,
    {
        match parse_line_at(content, i, n) {
            None => {
                return Err(ScheduleError::Syntax);
            },
            Some((t, e)) => {
                let ghost prev = out@;
                out.push(t);
                if e == n {
                    proof {
                        assert(prev + seq![t] =~= out@);
                        assert(out@ + Seq::<Table>::empty() =~= out@);
                    }
                    i = n;
                } else {
                    let c = content.get_char(e);
                    if c == '\n' {
                        proof {
                            match spec_parse_from(content@, e + 1) {
                                Some(rest) => {
                                    assert(prev + (seq![t] + rest) =~= out@ + rest);
                                },
                                None => {},
                            }
                        }
                        i = e + 1;
                    } else if c == '\r' && e + 1 < n && content.get_char(e + 1) == '\n' {
                        proof {
                            match spec_parse_from(content@, e + 2) {
                                Some(rest) => {
                                    assert(prev + (seq![t] + rest) =~= out@ + rest);
                                },
                                None => {},
                            }
                        }
                        i = e + 2;
                    } else {
                        return Err(ScheduleError::Syntax);
                    }
                }
            },
        }
    }
    Ok(out)
}

/// Windows whose period does not fit their span.
pub open spec fn invalid_pred() -> spec_fn(Table) -> bool {
    |t: Table| !t.spec_valid()
}

/// Validates a parsed schedule, all-or-nothing: `Ok` exactly when every
/// window is valid; otherwise every invalid window, in source order, comes
/// back in the error and nothing is scheduled.
pub fn validate(tables: &Vec<Table>) -> (r: Result<(), ScheduleError>)
    ensures
        match r {
            Ok(()) => forall|k: int| 0 <= k < tables@.len() ==> tables@[k].spec_valid(),
            Err(e) => e matches ScheduleError::Semantic(v) && v@ == tables@.filter(invalid_pred())
                && v@.len() > 0,
        },
{
    broadcast use vstd::seq_lib::group_filter_ensures;

    let mut invalid: Vec<Table> = Vec::new();
    let mut k: usize = 0;
    proof {
        assert(tables@.take(0).filter(invalid_pred()) =~= invalid@);
    }
    while k < tables.len()
        invariant
            k <= tables@.len(),
            invalid@ == tables@.take(k as int).filter(invalid_pred()),
        decreases tables@.len() - k,
    {
        let t = tables[k];
        proof {
            assert(tables@.take(k as int).push(tables@[k as int]) =~= tables@.take(k + 1));
            tables@.take(k as int).lemma_filter_push(tables@[k as int], invalid_pred());
        }
        if !t.is_valid() {
            invalid.push(t);
        }
        k += 1;
    }
    proof {
        assert(tables@.take(tables@.len() as int) =~= tables@);
    }
    if invalid.len() == 0 {
        proof {
            assert forall|j: int| 0 <= j < tables@.len() implies tables@[j].spec_valid() by {
                if !tables@[j].spec_valid() {
                    tables@.lemma_filter_contains(invalid_pred(), j);
                }
            }
        }
        Ok(())
    } else {
        Err(ScheduleError::Semantic(invalid))
    }
}

} // verus!
