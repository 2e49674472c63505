//! Error codes, which are either integers or strings, and their conversions
//! to and from Rust integers.

use vstd::prelude::*;
use crate::text::{all_digits, dec_int, dec_nat, decimal_literal_value, digit_value, digits_value, i128_to_string, i64_to_string, is_digit, lemma_dec_nat_nonempty, lemma_dec_nat_roundtrip, str_eq, str_to_string, u128_to_string, u64_to_string};

verus! {

/// An error code that is either an integer or a string.
#[derive(Debug, Clone)]
pub enum ErrorCode {
    Integer(i64),
    String(String),
}

/// Why an error code could not be read as an integer of some type.
#[derive(Debug, Clone, Copy, PartialEq, Eq, Structural)]
pub enum ErrorCodeIntError {
    /// The string form is not a decimal integer (or lies outside the
    /// 128-bit range it is parsed in).
    InvalidIntegerString,
    /// The value does not fit the target type.
    OutOfRange,
}

/// The plain value of an error code.
pub enum ErrorCodeView {
    Integer(int),
    Text(Seq<char>),
}

impl View for ErrorCode {
    type V = ErrorCodeView;

    open spec fn view(&self) -> ErrorCodeView {
        match self {
            ErrorCode::Integer(v) => ErrorCodeView::Integer(*v as int),
            ErrorCode::String(s) => ErrorCodeView::Text(s@),
        }
    }
}

/// How an error code renders: the decimal integer, or the string itself.
pub open spec fn error_code_text(c: ErrorCodeView) -> Seq<char> {
    match c {
        ErrorCodeView::Integer(v) => dec_int(v),
        ErrorCodeView::Text(s) => s,
    }
}

/// The error code an integer becomes: the integer itself when it fits `i64`,
/// its decimal string otherwise.
pub open spec fn error_code_of_int(v: int) -> ErrorCodeView {
    if i64::MIN <= v && v <= i64::MAX {
        ErrorCodeView::Integer(v)
    } else {
        ErrorCodeView::Text(dec_int(v))
    }
}

/// The integer an error code stands for, before narrowing to a target type.
/// Integers stand for themselves; strings are parsed as decimal literals
/// (`-` allowed only for signed targets) within the 128-bit range of the
/// target's signedness.
pub open spec fn error_code_int_value(c: ErrorCodeView, signed: bool) -> Result<int, ErrorCodeIntError> {
    match c {
        ErrorCodeView::Integer(v) => Ok(v),
        ErrorCodeView::Text(s) => match decimal_literal_value(s, signed) {
            Some(v) => if (signed && i128::MIN <= v && v <= i128::MAX) || (!signed && 0 <= v && v <= u128::MAX) {
                Ok(v)
            } else {
                Err(ErrorCodeIntError::InvalidIntegerString)
            },
            None => Err(ErrorCodeIntError::InvalidIntegerString),
        },
    }
}

/// The result of reading an error code as an integer in `lo..=hi`.
pub open spec fn error_code_to_int(c: ErrorCodeView, signed: bool, lo: int, hi: int) -> Result<int, ErrorCodeIntError> {
    match error_code_int_value(c, signed) {
        Ok(v) => if lo <= v && v <= hi { Ok(v) } else { Err(ErrorCodeIntError::OutOfRange) },
        Err(e) => Err(e),
    }
}

/// Reads a prefix of digits: the value of `s.take(j)` is at least that of
/// `s.take(i)` for `i <= j`.
proof fn lemma_digits_value_monotone(s: Seq<char>, i: int, j: int)
    requires
        0 <= i <= j <= s.len(),
    ensures
        digits_value(s.take(i)) <= digits_value(s.take(j)),
    decreases j - i,
{
    if i < j {
        lemma_digits_value_monotone(s, i, j - 1);
        assert(s.take(j).drop_last() =~= s.take(j - 1));
    }
}

/// The value of a digit run extended by one digit.
proof fn lemma_digits_value_step(s: Seq<char>, i: int)
    requires
        0 <= i < s.len(),
    ensures
        digits_value(s.take(i + 1)) == digits_value(s.take(i)) * 10 + digit_value(s[i]),
{
    assert(s.take(i + 1).drop_last() =~= s.take(i));
}

fn char_digit_value(c: char) -> (r: u128)
    requires
        is_digit(c),
    ensures
        r == digit_value(c),
{
    if c == '0' { 0 }
    else if c == '1' { 1 }
    else if c == '2' { 2 }
    else if c == '3' { 3 }
    else if c == '4' { 4 }
    else if c == '5' { 5 }
    else if c == '6' { 6 }
    else if c == '7' { 7 }
    else if c == '8' { 8 }
    else { 9 }
}

/// Reads the digits of `s` from index `start` on as a number no larger than
/// `bound`; `None` when a character is not a digit, there are no digits, or
/// the value exceeds `bound`.
fn parse_digits(s: &str, start: usize, bound: u128) -> (r: Option<u128>)
    requires
        start <= s@.len(),
    ensures
        r matches Some(v) ==> all_digits(s@.skip(start as int)) && v == digits_value(s@.skip(start as int)) && v <= bound,
        r is None ==> !all_digits(s@.skip(start as int)) || digits_value(s@.skip(start as int)) > bound,
{
    let n = s.unicode_len();
    if start >= n {
        return None;
    }
    let ghost t = s@.skip(start as int);
    let mut acc: u128 = 0;
    let mut i: usize = start;
    while i < n
        invariant
            n == s@.len(),
            start < n,
            start <= i <= n,
            t == s@.skip(start as int),
            acc == digits_value(t.take(i - start)),
            acc <= bound,
            forall|k: int| 0 <= k < i - start ==> #[trigger] is_digit(t[k]),
        decreases n - i,
    {
        let c = s.get_char(i);
        proof {
            assert(t[i - start] == c);
        }
        if !('0' <= c && c <= '9') {
            proof {
                assert(!is_digit(t[i - start]));
            }
            return None;
        }
        let d = char_digit_value(c);
        proof {
            lemma_digits_value_step(t, i - start);
        }
        let next = match acc.checked_mul(10) {
            Some(m) => m.checked_add(d),
            None => None,
        };
        match next {
            Some(v) => {
                if v > bound {
                    proof {
                        lemma_digits_value_monotone(t, i - start + 1, t.len() as int);
                        assert(t.take(t.len() as int) =~= t);
                    }
                    return None;
                }
                acc = v;
            },
            None => {
                proof {
                    lemma_digits_value_monotone(t, i - start + 1, t.len() as int);
                    assert(t.take(t.len() as int) =~= t);
                }
                return None;
            },
        }
        i = i + 1;
    }
    proof {
        assert(t.take(n - start) =~= t);
    }
    Some(acc)
}

/// Parses a decimal `i128` the way `str::parse::<i128>` does: `None` for
/// anything but an optional sign and one or more digits, or a value outside
/// the `i128` range.
pub fn parse_i128(s: &str) -> (r: Option<i128>)
    ensures
        r matches Some(v) ==> decimal_literal_value(s@, true) == Some(v as int),
        r is None ==> match decimal_literal_value(s@, true) {
            Some(v) => v < i128::MIN || v > i128::MAX,
            None => true,
        },
{
    let n = s.unicode_len();
    if n == 0 {
        return None;
    }
    let first = s.get_char(0);
    if first == '-' {
        match parse_digits(s, 1, 170141183460469231731687303715884105728u128) {
            Some(m) => {
                if m == 170141183460469231731687303715884105728u128 {
                    Some(i128::MIN)
                } else {
                    Some(-(m as i128))
                }
            },
            None => None,
        }
    } else if first == '+' {
        match parse_digits(s, 1, 170141183460469231731687303715884105727u128) {
            Some(m) => Some(m as i128),
            None => None,
        }
    } else {
        proof {
            assert(s@.skip(0) =~= s@);
        }
        match parse_digits(s, 0, 170141183460469231731687303715884105727u128) {
            Some(m) => Some(m as i128),
            None => None,
        }
    }
}

/// Parses a decimal `u128` the way `str::parse::<u128>` does: `None` for
/// anything but an optional `+` and one or more digits, or a value above
/// `u128::MAX`.
pub fn parse_u128(s: &str) -> (r: Option<u128>)
    ensures
        r matches Some(v) ==> decimal_literal_value(s@, false) == Some(v as int),
        r is None ==> match decimal_literal_value(s@, false) {
            Some(v) => v < 0 || v > u128::MAX,
            None => true,
        },
{
    let n = s.unicode_len();
    if n == 0 {
        return None;
    }
    let first = s.get_char(0);
    if first == '-' {
        None
    } else if first == '+' {
        parse_digits(s, 1, u128::MAX)
    } else {
        proof {
            assert(s@.skip(0) =~= s@);
        }
        parse_digits(s, 0, u128::MAX)
    }
}

impl ErrorCode {
    /// The code as an `i128` for signed targets, before narrowing.
    fn signed_value(&self) -> (r: Result<i128, ErrorCodeIntError>)
        ensures
            r matches Ok(v) ==> error_code_int_value(self@, true) == Ok::<int, ErrorCodeIntError>(v as int),
            r matches Err(e) ==> error_code_int_value(self@, true) == Err::<int, ErrorCodeIntError>(e),
    {
        match self {
            ErrorCode::Integer(v) => Ok(*v as i128),
            ErrorCode::String(s) => match parse_i128(s.as_str()) {
                Some(v) => Ok(v),
                None => Err(ErrorCodeIntError::InvalidIntegerString),
            },
        }
    }

    /// The code as a `u128` for unsigned targets, before narrowing.
    fn unsigned_value(&self) -> (r: Result<u128, ErrorCodeIntError>)
        ensures
            r matches Ok(v) ==> error_code_int_value(self@, false) == Ok::<int, ErrorCodeIntError>(v as int),
            r matches Err(e) ==> (match error_code_int_value(self@, false) {
                Err(e2) => e2 == e,
                Ok(v) => v < 0 && e == ErrorCodeIntError::OutOfRange,
            }),
    {
        match self {
            ErrorCode::Integer(v) => {
                if *v < 0 {
                    Err(ErrorCodeIntError::OutOfRange)
                } else {
                    Ok(*v as u128)
                }
            },
            ErrorCode::String(s) => match parse_u128(s.as_str()) {
                Some(v) => Ok(v),
                None => Err(ErrorCodeIntError::InvalidIntegerString),
            },
        }
    }

    /// Reads the code as an `i8`.
    pub fn to_i8(&self) -> (r: Result<i8, ErrorCodeIntError>)
        ensures
            r matches Ok(x) ==> error_code_to_int(self@, true, i8::MIN as int, i8::MAX as int) == Ok::<int, ErrorCodeIntError>(x as int),
            r matches Err(e) ==> error_code_to_int(self@, true, i8::MIN as int, i8::MAX as int) == Err::<int, ErrorCodeIntError>(e),
    {
        match self.signed_value() {
            Ok(v) => if i8::MIN as i128 <= v && v <= i8::MAX as i128 { Ok(v as i8) } else { Err(ErrorCodeIntError::OutOfRange) },
            Err(e) => Err(e),
        }
    }

    /// Reads the code as an `i16`.
    pub fn to_i16(&self) -> (r: Result<i16, ErrorCodeIntError>)
        ensures
            r matches Ok(x) ==> error_code_to_int(self@, true, i16::MIN as int, i16::MAX as int) == Ok::<int, ErrorCodeIntError>(x as int),
            r matches Err(e) ==> error_code_to_int(self@, true, i16::MIN as int, i16::MAX as int) == Err::<int, ErrorCodeIntError>(e),
    {
        match self.signed_value() {
            Ok(v) => if i16::MIN as i128 <= v && v <= i16::MAX as i128 { Ok(v as i16) } else { Err(ErrorCodeIntError::OutOfRange) },
            Err(e) => Err(e),
        }
    }

    /// Reads the code as an `i32`.
    pub fn to_i32(&self) -> (r: Result<i32, ErrorCodeIntError>)
        ensures
            r matches Ok(x) ==> error_code_to_int(self@, true, i32::MIN as int, i32::MAX as int) == Ok::<int, ErrorCodeIntError>(x as int),
            r matches Err(e) ==> error_code_to_int(self@, true, i32::MIN as int, i32::MAX as int) == Err::<int, ErrorCodeIntError>(e),
    {
        match self.signed_value() {
            Ok(v) => if i32::MIN as i128 <= v && v <= i32::MAX as i128 { Ok(v as i32) } else { Err(ErrorCodeIntError::OutOfRange) },
            Err(e) => Err(e),
        }
    }

    /// Reads the code as an `i64`.
    pub fn to_i64(&self) -> (r: Result<i64, ErrorCodeIntError>)
        ensures
            r matches Ok(x) ==> error_code_to_int(self@, true, i64::MIN as int, i64::MAX as int) == Ok::<int, ErrorCodeIntError>(x as int),
            r matches Err(e) ==> error_code_to_int(self@, true, i64::MIN as int, i64::MAX as int) == Err::<int, ErrorCodeIntError>(e),
    {
        match self.signed_value() {
            Ok(v) => if i64::MIN as i128 <= v && v <= i64::MAX as i128 { Ok(v as i64) } else { Err(ErrorCodeIntError::OutOfRange) },
            Err(e) => Err(e),
        }
    }

    /// Reads the code as an `i128`.
    pub fn to_i128(&self) -> (r: Result<i128, ErrorCodeIntError>)
        ensures
            r matches Ok(x) ==> error_code_to_int(self@, true, i128::MIN as int, i128::MAX as int) == Ok::<int, ErrorCodeIntError>(x as int),
            r matches Err(e) ==> error_code_to_int(self@, true, i128::MIN as int, i128::MAX as int) == Err::<int, ErrorCodeIntError>(e),
    {
        self.signed_value()
    }

    /// Reads the code as an `isize`.
    pub fn to_isize(&self) -> (r: Result<isize, ErrorCodeIntError>)
        ensures
            r matches Ok(x) ==> error_code_to_int(self@, true, isize::MIN as int, isize::MAX as int) == Ok::<int, ErrorCodeIntError>(x as int),
            r matches Err(e) ==> error_code_to_int(self@, true, isize::MIN as int, isize::MAX as int) == Err::<int, ErrorCodeIntError>(e),
    {
        match self.signed_value() {
            Ok(v) => if isize::MIN as i128 <= v && v <= isize::MAX as i128 { Ok(v as isize) } else { Err(ErrorCodeIntError::OutOfRange) },
            Err(e) => Err(e),
        }
    }

    /// Reads the code as a `u8`.
    pub fn to_u8(&self) -> (r: Result<u8, ErrorCodeIntError>)
        ensures
            r matches Ok(x) ==> error_code_to_int(self@, false, 0, u8::MAX as int) == Ok::<int, ErrorCodeIntError>(x as int),
            r matches Err(e) ==> error_code_to_int(self@, false, 0, u8::MAX as int) == Err::<int, ErrorCodeIntError>(e),
    {
        match self.unsigned_value() {
            Ok(v) => if v <= u8::MAX as u128 { Ok(v as u8) } else { Err(ErrorCodeIntError::OutOfRange) },
            Err(e) => Err(e),
        }
    }

    /// Reads the code as a `u16`.
    pub fn to_u16(&self) -> (r: Result<u16, ErrorCodeIntError>)
        ensures
            r matches Ok(x) ==> error_code_to_int(self@, false, 0, u16::MAX as int) == Ok::<int, ErrorCodeIntError>(x as int),
            r matches Err(e) ==> error_code_to_int(self@, false, 0, u16::MAX as int) == Err::<int, ErrorCodeIntError>(e),
    {
        match self.unsigned_value() {
            Ok(v) => if v <= u16::MAX as u128 { Ok(v as u16) } else { Err(ErrorCodeIntError::OutOfRange) },
            Err(e) => Err(e),
        }
    }

    /// Reads the code as a `u32`.
    pub fn to_u32(&self) -> (r: Result<u32, ErrorCodeIntError>)
        ensures
            r matches Ok(x) ==> error_code_to_int(self@, false, 0, u32::MAX as int) == Ok::<int, ErrorCodeIntError>(x as int),
            r matches Err(e) ==> error_code_to_int(self@, false, 0, u32::MAX as int) == Err::<int, ErrorCodeIntError>(e),
    {
        match self.unsigned_value() {
            Ok(v) => if v <= u32::MAX as u128 { Ok(v as u32) } else { Err(ErrorCodeIntError::OutOfRange) },
            Err(e) => Err(e),
        }
    }

    /// Reads the code as a `u64`.
    pub fn to_u64(&self) -> (r: Result<u64, ErrorCodeIntError>)
        ensures
            r matches Ok(x) ==> error_code_to_int(self@, false, 0, u64::MAX as int) == Ok::<int, ErrorCodeIntError>(x as int),
            r matches Err(e) ==> error_code_to_int(self@, false, 0, u64::MAX as int) == Err::<int, ErrorCodeIntError>(e),
    {
        match self.unsigned_value() {
            Ok(v) => if v <= u64::MAX as u128 { Ok(v as u64) } else { Err(ErrorCodeIntError::OutOfRange) },
            Err(e) => Err(e),
        }
    }

    /// Reads the code as a `u128`.
    pub fn to_u128(&self) -> (r: Result<u128, ErrorCodeIntError>)
        ensures
            r matches Ok(x) ==> error_code_to_int(self@, false, 0, u128::MAX as int) == Ok::<int, ErrorCodeIntError>(x as int),
            r matches Err(e) ==> error_code_to_int(self@, false, 0, u128::MAX as int) == Err::<int, ErrorCodeIntError>(e),
    {
        self.unsigned_value()
    }

    /// Reads the code as a `usize`.
    pub fn to_usize(&self) -> (r: Result<usize, ErrorCodeIntError>)
        ensures
            r matches Ok(x) ==> error_code_to_int(self@, false, 0, usize::MAX as int) == Ok::<int, ErrorCodeIntError>(x as int),
            r matches Err(e) ==> error_code_to_int(self@, false, 0, usize::MAX as int) == Err::<int, ErrorCodeIntError>(e),
    {
        match self.unsigned_value() {
            Ok(v) => if v <= usize::MAX as u128 { Ok(v as usize) } else { Err(ErrorCodeIntError::OutOfRange) },
            Err(e) => Err(e),
        }
    }

    /// The code of a signed integer.
    pub fn from_i64(v: i64) -> (r: ErrorCode)
        ensures
            r@ == error_code_of_int(v as int),
    {
        ErrorCode::Integer(v)
    }

    /// The code of an unsigned integer: the integer when it fits `i64`,
    /// its decimal string otherwise.
    pub fn from_u64(v: u64) -> (r: ErrorCode)
        ensures
            r@ == error_code_of_int(v as int),
    {
        if v <= i64::MAX as u64 {
            ErrorCode::Integer(v as i64)
        } else {
            ErrorCode::String(u64_to_string(v))
        }
    }

    /// The code of a 128-bit signed integer: the integer when it fits `i64`,
    /// its decimal string otherwise.
    pub fn from_i128(v: i128) -> (r: ErrorCode)
        ensures
            r@ == error_code_of_int(v as int),
    {
        if i64::MIN as i128 <= v && v <= i64::MAX as i128 {
            ErrorCode::Integer(v as i64)
        } else {
            ErrorCode::String(i128_to_string(v))
        }
    }

    /// The code of a 128-bit unsigned integer: the integer when it fits
    /// `i64`, its decimal string otherwise.
    pub fn from_u128(v: u128) -> (r: ErrorCode)
        ensures
            r@ == error_code_of_int(v as int),
    {
        if v <= i64::MAX as u128 {
            ErrorCode::Integer(v as i64)
        } else {
            ErrorCode::String(u128_to_string(v))
        }
    }

    /// The code of an owned string.
    pub fn from_string(s: String) -> (r: ErrorCode)
        ensures
            r@ == ErrorCodeView::Text(s@),
    {
        ErrorCode::String(s)
    }

    /// The code of a string.
    pub fn from_str_code(s: &str) -> (r: ErrorCode)
        ensures
            r@ == ErrorCodeView::Text(s@),
    {
        ErrorCode::String(str_to_string(s))
    }

    /// The rendering of the code: the decimal integer or the string.
    pub fn to_code_string(&self) -> (r: String)
        ensures
            r@ == error_code_text(self@),
    {
        match self {
            ErrorCode::Integer(v) => i64_to_string(*v),
            ErrorCode::String(s) => s.clone(),
        }
    }

    /// Whether two codes are the same integer or the same string.
    pub fn same_as(&self, other: &ErrorCode) -> (r: bool)
        ensures
            r == (self@ == other@),
    {
        match (self, other) {
            (ErrorCode::Integer(a), ErrorCode::Integer(b)) => *a == *b,
            (ErrorCode::String(a), ErrorCode::String(b)) => str_eq(a.as_str(), b.as_str()),
            _ => false,
        }
    }
}

/// An integer made into an error code and read back as an `i64` gives the
/// integer again, for every integer that fits `i64`; one that does not fit
/// reads back through its decimal string and is out of range.
pub proof fn lemma_error_code_int_roundtrip(v: int)
    requires
        i128::MIN <= v <= i128::MAX,
    ensures
        i64::MIN <= v <= i64::MAX ==> error_code_to_int(error_code_of_int(v), true, i64::MIN as int, i64::MAX as int) == Ok::<int, ErrorCodeIntError>(v),
        !(i64::MIN <= v <= i64::MAX) ==> error_code_int_value(error_code_of_int(v), true) == Ok::<int, ErrorCodeIntError>(v),
{
    if !(i64::MIN <= v <= i64::MAX) {
        lemma_decimal_literal_roundtrip(v);
    }
}

/// The decimal representation of an integer parses back to the integer.
pub proof fn lemma_decimal_literal_roundtrip(v: int)
    ensures
        decimal_literal_value(dec_int(v), true) == Some(v),
        v >= 0 ==> decimal_literal_value(dec_int(v), false) == Some(v),
{
    if v < 0 {
        let m = (-v) as nat;
        lemma_dec_nat_roundtrip(m);
        lemma_dec_nat_nonempty(m);
        let s = dec_int(v);
        assert(s.skip(1) =~= dec_nat(m));
        assert(s[0] == '-');
    } else {
        let m = v as nat;
        lemma_dec_nat_roundtrip(m);
        lemma_dec_nat_nonempty(m);
        let s = dec_int(v);
        assert(is_digit(s[0]));
    }
}

} // verus!
