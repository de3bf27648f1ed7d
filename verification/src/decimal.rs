//! Real quantities carried as decimal literals.
//!
//! Positions, lattice vectors and masses are double-precision numbers. The
//! library never computes with them: it keeps each one as the text of a
//! decimal literal, hands that text to the caller and takes it back. The
//! caller does the arithmetic and the rounding to a fixed number of places.

use vstd::prelude::*;
use vstd::string::*;

verus! {

/// Whether `c` is one of `0` to `9`.
pub open spec fn is_digit(c: char) -> bool {
    '0' <= c && c <= '9'
}

/// The index just behind the longest run of digits of `s` that starts at `from`.
pub open spec fn digits_end(s: Seq<char>, from: int) -> int
    decreases s.len() - from,
{
    if 0 <= from < s.len() && is_digit(s[from]) {
        digits_end(s, from + 1)
    } else {
        from
    }
}

/// Whether `c` is a sign.
pub open spec fn is_sign(c: char) -> bool {
    c == '-' || c == '+'
}

/// Whether `s[from..]` is an exponent: `e` or `E`, an optional sign, and at
/// least one digit up to the end of `s`.
pub open spec fn is_exponent(s: Seq<char>, from: int) -> bool {
    &&& 0 <= from < s.len()
    &&& (s[from] == 'e' || s[from] == 'E')
    &&& {
        let start = if from + 1 < s.len() && is_sign(s[from + 1]) {
            from + 2
        } else {
            from + 1
        };
        digits_end(s, start) > start && digits_end(s, start) == s.len()
    }
}

/// Whether `s` is a finite real literal: an optional sign; digits, with an
/// optional `.` among, before or behind them, at least one digit in all; and
/// an optional exponent. `12`, `-9.465`, `1.`, `.5` and `2.5e-3` are; the
/// empty text, `-`, `.`, `e5` and `1e` are not.
pub open spec fn is_real_literal(s: Seq<char>) -> bool {
    let start: int = if s.len() > 0 && is_sign(s[0]) { 1 } else { 0 };
    let int_end = digits_end(s, start);
    let frac_start = int_end + 1;
    let has_dot = int_end < s.len() && s[int_end] == '.';
    let mantissa_end = if has_dot { digits_end(s, frac_start) } else { int_end };
    let digit_count = if has_dot {
        (int_end - start) + (mantissa_end - frac_start)
    } else {
        int_end - start
    };
    &&& digit_count > 0
    &&& (mantissa_end == s.len() || is_exponent(s, mantissa_end))
}

/// Whether `s` is written in fixed notation with exactly `places` digits
/// behind the point: an optional `-`, at least one digit, and then, unless
/// `places` is zero, a `.` and `places` digits. `16.395` has three places.
pub open spec fn is_fixed(s: Seq<char>, places: nat) -> bool {
    let start: int = if s.len() > 0 && s[0] == '-' { 1 } else { 0 };
    let int_end = digits_end(s, start);
    &&& int_end > start
    &&& if places == 0 {
        int_end == s.len()
    } else {
        &&& int_end < s.len()
        &&& s[int_end] == '.'
        &&& digits_end(s, int_end + 1) == s.len()
        &&& s.len() - (int_end + 1) == places
    }
}

/// Walks over the digits of `s` from `from` on.
fn scan_digits(s: &str, len: usize, from: usize) -> (end: usize)
    requires
        len == s@.len(),
        from <= len,
    ensures
        end == digits_end(s@, from as int),
        from <= end <= len,
{
    let mut i = from;
    while i < len
        invariant
            len == s@.len(),
            from <= i <= len,
            digits_end(s@, from as int) == digits_end(s@, i as int),
        decreases len - i,
    {
        let c = s.get_char(i);
        if !('0' <= c && c <= '9') {
            return i;
        }
        i = i + 1;
    }
    i
}

/// Decides whether `s` is a finite real literal.
pub fn is_real_literal_str(s: &str) -> (ok: bool)
    ensures
        ok == is_real_literal(s@),
{
    let len = s.unicode_len();
    let mut start: usize = 0;
    if len > 0 {
        let c = s.get_char(0);
        if c == '-' || c == '+' {
            start = 1;
        }
    }
    let int_end = scan_digits(s, len, start);
    let mut mantissa_end = int_end;
    let mut digit_count = int_end - start;
    if int_end < len && s.get_char(int_end) == '.' {
        mantissa_end = scan_digits(s, len, int_end + 1);
        digit_count = digit_count + (mantissa_end - (int_end + 1));
    }
    if digit_count == 0 {
        return false;
    }
    if mantissa_end == len {
        return true;
    }
    let e = s.get_char(mantissa_end);
    if !(e == 'e' || e == 'E') {
        return false;
    }
    let mut exp_start = mantissa_end + 1;
    if exp_start < len {
        let c = s.get_char(exp_start);
        if c == '-' || c == '+' {
            exp_start = exp_start + 1;
        }
    }
    let exp_end = scan_digits(s, len, exp_start);
    exp_end > exp_start && exp_end == len
}

/// A finite real number, kept as the text of its literal.
#[derive(Debug)]
pub struct Decimal {
    text: String,
}

impl View for Decimal {
    type V = Seq<char>;

    closed spec fn view(&self) -> Seq<char> {
        self.text@
    }
}

impl Clone for Decimal {
    fn clone(&self) -> (r: Self)
        ensures
            r@ == self@,
    {
        Decimal { text: self.text.clone() }
    }
}

impl Decimal {
    /// The text is a real literal.
    pub open spec fn wf(&self) -> bool {
        is_real_literal(self@)
    }

    /// Takes `text` as a number if it is a real literal.
    pub fn parse(text: &str) -> (r: Option<Decimal>)
        ensures
            r.is_some() == is_real_literal(text@),
            r matches Some(d) ==> d@ == text@ && d.wf(),
    {
        if is_real_literal_str(text) {
            Some(Decimal { text: String::from_str(text) })
        } else {
            None
        }
    }

    /// Whether the number is written in fixed notation with `places` digits
    /// behind the point.
    pub fn has_places(&self, places: usize) -> (ok: bool)
        ensures
            ok == is_fixed(self@, places as nat),
    {
        let s = self.text.as_str();
        let len = s.unicode_len();
        let mut start: usize = 0;
        if len > 0 && s.get_char(0) == '-' {
            start = 1;
        }
        let int_end = scan_digits(s, len, start);
        if int_end == start {
            return false;
        }
        if places == 0 {
            return int_end == len;
        }
        if int_end >= len || s.get_char(int_end) != '.' {
            return false;
        }
        let end = scan_digits(s, len, int_end + 1);
        end == len && len - (int_end + 1) == places
    }

    /// The literal.
    pub fn as_str(&self) -> (r: &str)
        ensures
            r@ == self@,
    {
        self.text.as_str()
    }
}

} // verus!
