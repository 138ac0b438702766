//! The size of the terminal window, and how the terminal reports where its cursor is.
use vstd::prelude::*;
use vstd::utf8::valid_utf8;
use crate::text::decimal;

verus! {

/// The text area of the terminal: its rows and columns.
pub struct Screen {
    pub zero: usize,
    pub rows: usize,
    pub cols: usize,
}

impl Screen {
    /// A text area of `rows` rows and `cols` columns.
    pub fn new(rows: usize, cols: usize) -> (r: Screen)
        ensures
            r.zero == 0,
            r.rows == rows,
            r.cols == cols,
    {
        Screen { zero: 0, rows, cols }
    }

    pub fn zero(&self) -> (r: usize)
        ensures
            r == self.zero,
    {
        self.zero
    }

    pub fn rows(&self) -> (r: usize)
        ensures
            r == self.rows,
    {
        self.rows
    }

    pub fn cols(&self) -> (r: usize)
        ensures
            r == self.cols,
    {
        self.cols
    }
}


/// Why the terminal's report of its cursor position could not be read.
#[derive(Debug, Clone, Copy, PartialEq, Eq, Structural)]
pub enum ReportError {
    /// The report is not UTF-8 text.
    NotUtf8,
    /// The report has no `;` between the row and the column.
    NoSeparator,
    /// The row is not a number, or too large.
    BadRows,
    /// The column is not a number, or too large.
    BadCols,
}

/// The value of the decimal digits `d`.
pub open spec fn digits_value(d: Seq<u8>) -> nat
    decreases d.len(),
{
    if d.len() == 0 {
        0
    } else {
        digits_value(d.drop_last()) * 10 + (d.last() - 48) as nat
    }
}

pub open spec fn is_digit(b: u8) -> bool {
    48 <= b <= 57
}

/// `s` without a leading `+`.
pub open spec fn digits_part(s: Seq<u8>) -> Seq<u8> {
    if s.len() > 0 && s[0] == 43 { s.skip(1) } else { s }
}

/// Whether every byte of `d` is a decimal digit.
pub open spec fn all_digits(d: Seq<u8>) -> bool {
    forall|i: int| 0 <= i < d.len() ==> is_digit(#[trigger] d[i])
}

/// The number written in `s` as the standard library reads an unsigned integer: decimal
/// digits, at least one, after an optional `+`.
pub open spec fn unsigned_value(s: Seq<u8>) -> Option<nat> {
    let d = digits_part(s);
    if d.len() > 0 && all_digits(d) {
        Some(digits_value(d))
    } else {
        None
    }
}

/// Where the first `;` of `s` stands, if it has one.
pub open spec fn first_semicolon(s: Seq<u8>) -> Option<int> {
    if exists|i: int| 0 <= i < s.len() && s[i] == 59 {
        Some(choose|i: int| 0 <= i < s.len() && s[i] == 59 && forall|j: int| 0 <= j < i ==> s[j] != 59)
    } else {
        None
    }
}

/// What the report `report` says: after its first two bytes (the escape and the bracket),
/// the row and the column, split at the first `;`, each no larger than `limit`.
pub open spec fn report_value(report: Seq<u8>, limit: nat) -> Result<(nat, nat), ReportError> {
    let body = report.skip(2);
    if !valid_utf8(body) {
        Err(ReportError::NotUtf8)
    } else {
        match first_semicolon(body) {
            None => Err(ReportError::NoSeparator),
            Some(k) => {
                let rows = unsigned_value(body.take(k));
                let cols = unsigned_value(body.skip(k + 1));
                if rows is None || rows->0 > limit {
                    Err(ReportError::BadRows)
                } else if cols is None || cols->0 > limit {
                    Err(ReportError::BadCols)
                } else {
                    Ok((rows->0, cols->0))
                }
            },
        }
    }
}

/// Whether `bytes` are UTF-8 text, as `std::str::from_utf8` decides.
///
/// Trusted: `from_utf8` succeeds exactly on well-formed UTF-8, which is what `valid_utf8`
/// states.
#[verifier::external_body]
fn is_utf8(bytes: &[u8]) -> (r: bool)
    ensures
        r == valid_utf8(bytes@),
{
    std::str::from_utf8(bytes).is_ok()
}

proof fn digits_value_monotone(d: Seq<u8>, i: int, j: int)
    requires
        0 <= i <= j <= d.len(),
    ensures
        digits_value(d.take(i)) <= digits_value(d.take(j)),
    decreases j - i,
{
    if i < j {
        digits_value_monotone(d, i, j - 1);
        assert(d.take(j).drop_last() == d.take(j - 1));
    }
}

/// Reads an unsigned number no larger than `limit` from `s`, as `unsigned_value` says.
fn parse_unsigned(s: &[u8], limit: usize) -> (r: Option<usize>)
    ensures
        match r {
            Some(v) => unsigned_value(s@) == Some(v as nat) && v <= limit,
            None => unsigned_value(s@) is None || unsigned_value(s@)->0 > limit,
        },
{
    let n = s.len();
    let start: usize = if n > 0 && s[0] == 43 { 1 } else { 0 };
    let ghost d = if s@.len() > 0 && s@[0] == 43 { s@.skip(1) } else { s@ };
    assert(d == s@.skip(start as int));
    assert(d == digits_part(s@));
    if start == n {
        return None;
    }
    let mut acc: usize = 0;
    let mut i: usize = start;
    while i < n
        invariant
            n == s@.len(),
            start <= i <= n,
            start < n,
            d == s@.skip(start as int),
            d == digits_part(s@),
            forall|j: int| start <= j < i ==> is_digit(#[trigger] s@[j]),
            acc as nat == digits_value(d.take(i - start)),
            acc <= limit,
        decreases n - i,
    {
        let b = s[i];
        if !(48 <= b && b <= 57) {
            proof {
                assert(d[i - start] == b);
                assert(!is_digit(d[i - start]));
                assert(!all_digits(d));
                assert(unsigned_value(s@) is None);
            }
            return None;
        }
        proof {
            assert(d.take(i - start + 1).drop_last() == d.take(i - start));
            assert(d.take(i - start + 1).last() == b);
        }
        let digit = (b - 48) as usize;
        if digit > limit || acc > (limit - digit) / 10 {
            proof {
                assert(digits_value(d.take(i - start + 1)) == acc * 10 + digit);
                if digit <= limit {
                    let q = (limit - digit) as int;
                    assert(acc * 10 + digit > limit) by (nonlinear_arith)
                        requires acc > q / 10, q == limit - digit, q >= 0;
                }
                digits_value_monotone(d, i - start + 1, d.len() as int);
                assert(d.take(d.len() as int) == d);
                if unsigned_value(s@) is Some {
                    assert(unsigned_value(s@)->0 == digits_value(d));
                }
            }
            return None;
        }
        proof {
            let q = (limit - digit) as int;
            assert(acc * 10 + digit <= limit) by (nonlinear_arith)
                requires acc <= q / 10, q == limit - digit, q >= 0;
        }
        acc = acc * 10 + digit;
        i = i + 1;
    }
    proof {
        assert(d.take(n - start) == d);
        assert forall|j: int| 0 <= j < d.len() implies is_digit(#[trigger] d[j]) by {
            assert(d[j] == s@[start + j]);
        }
    }
    Some(acc)
}

/// Reads the terminal's report of its cursor position, the bytes it sent before the final
/// `R`: the row and the column, each no larger than `limit`.
pub fn parse_cursor_report(report: &[u8], limit: usize) -> (r: Result<(usize, usize), ReportError>)
    requires
        report@.len() >= 2,
    ensures
        match r {
            Ok((rows, cols)) => report_value(report@, limit as nat) == Ok::<(nat, nat), ReportError>((rows as nat, cols as nat)),
            Err(e) => report_value(report@, limit as nat) == Err::<(nat, nat), ReportError>(e),
        },
{
    let body = vstd::slice::slice_subrange(report, 2, report.len());
    assert(body@ == report@.skip(2));
    if !is_utf8(body) {
        return Err(ReportError::NotUtf8);
    }
    let n = body.len();
    let mut k: usize = 0;
    while k < n && body[k] != 59
        invariant
            n == body@.len(),
            k <= n,
            forall|j: int| 0 <= j < k ==> body@[j] != 59,
        decreases n - k,
    {
        k = k + 1;
    }
    if k == n {
        return Err(ReportError::NoSeparator);
    }
    proof {
        let c = choose|i: int| 0 <= i < body@.len() && body@[i] == 59 && forall|j: int| 0 <= j < i ==> body@[j] != 59;
        assert(0 <= k < body@.len() && body@[k as int] == 59);
        assert(c == k as int);
    }
    let rows_part = vstd::slice::slice_subrange(body, 0, k);
    let cols_part = vstd::slice::slice_subrange(body, k + 1, n);
    assert(rows_part@ == body@.take(k as int));
    assert(cols_part@ == body@.skip(k + 1));
    let rows = match parse_unsigned(rows_part, limit) {
        Some(v) => v,
        None => return Err(ReportError::BadRows),
    };
    let cols = match parse_unsigned(cols_part, limit) {
        Some(v) => v,
        None => return Err(ReportError::BadCols),
    };
    Ok((rows, cols))
}

proof fn ascii_is_utf8(bytes: Seq<u8>)
    requires
        forall|i: int| 0 <= i < bytes.len() ==> #[trigger] bytes[i] < 0x80,
    ensures
        valid_utf8(bytes),
    decreases bytes.len(),
{
    if bytes.len() > 0 {
        let b = bytes[0];
        assert(b < 0x80);
        assert((b & 0x7f) as u32 <= 0x7f) by (bit_vector);
        let rest = bytes.subrange(1, bytes.len() as int);
        assert forall|i: int| 0 <= i < rest.len() implies #[trigger] rest[i] < 0x80 by {
            assert(rest[i] == bytes[i + 1]);
        }
        ascii_is_utf8(rest);
        assert(vstd::utf8::pop_first_scalar(bytes) == rest);
    }
}

proof fn decimal_digits(n: nat)
    ensures
        decimal(n).len() >= 1,
        all_digits(decimal(n)),
        digits_value(decimal(n)) == n,
    decreases n,
{
    if n >= 10 {
        decimal_digits(n / 10);
        let d = decimal(n);
        assert(d.drop_last() == decimal(n / 10));
        assert forall|i: int| 0 <= i < d.len() implies is_digit(#[trigger] d[i]) by {
            if i < d.len() - 1 {
                assert(d[i] == decimal(n / 10)[i]);
            }
        }
        assert(d.last() == (48 + n % 10) as u8);
        assert(d.last() as int == 48 + n % 10);
        assert(digits_value(d) == digits_value(decimal(n / 10)) * 10 + (n % 10));
        assert(n == (n / 10) * 10 + n % 10) by (nonlinear_arith);
    } else {
        let d = decimal(n);
        assert(d.drop_last() =~= Seq::<u8>::empty());
        assert(d.last() == (48 + n) as u8);
        assert(d.last() as int == 48 + n);
        assert(digits_value(d) == digits_value(d.drop_last()) * 10 + n);
        assert(digits_value(d.drop_last()) == 0);
    }
}

/// The terminal reports its cursor as the escape byte, `[`, the row in decimal, `;` and the
/// column in decimal: such a report reads back as that row and column, where both are no
/// larger than the limit.
pub proof fn report_reads_back(rows: nat, cols: nat, limit: nat)
    requires
        rows <= limit,
        cols <= limit,
    ensures
        report_value(seq![0x1bu8, 0x5bu8] + decimal(rows) + seq![59u8] + decimal(cols), limit)
            == Ok::<(nat, nat), ReportError>((rows, cols)),
{
    let report = seq![0x1bu8, 0x5bu8] + decimal(rows) + seq![59u8] + decimal(cols);
    let dr = decimal(rows);
    let dc = decimal(cols);
    decimal_digits(rows);
    decimal_digits(cols);
    let body = report.skip(2);
    assert(body =~= dr + seq![59u8] + dc);
    let k = dr.len() as int;
    assert forall|i: int| 0 <= i < body.len() implies #[trigger] body[i] < 0x80 by {
        if i < k {
            assert(body[i] == dr[i] && is_digit(dr[i]));
        } else if i > k {
            assert(body[i] == dc[i - k - 1] && is_digit(dc[i - k - 1]));
        }
    }
    ascii_is_utf8(body);
    assert(body[k] == 59);
    assert forall|j: int| 0 <= j < k implies body[j] != 59 by {
        assert(body[j] == dr[j] && is_digit(dr[j]));
    }
    let c = choose|i: int| 0 <= i < body.len() && body[i] == 59 && forall|j: int| 0 <= j < i ==> body[j] != 59;
    assert(c == k) by {
        if c < k {
            assert(body[c] == dr[c] && is_digit(dr[c]));
        }
    }
    assert(first_semicolon(body) == Some(k));
    assert(body.take(k) =~= dr);
    assert(body.skip(k + 1) =~= dc);
    assert(is_digit(dr[0]) && is_digit(dc[0]));
    assert(digits_part(dr) == dr);
    assert(digits_part(dc) == dc);
}
} // verus!
