use vstd::prelude::*;

use crate::error::{ErrorKind, ParseError};

verus! {

pub open spec fn is_digit(c: char) -> bool {
    '0' <= c <= '9'
}

pub open spec fn digit_value(c: char) -> int {
    c as int - '0' as int
}

/// The two-digit number at positions `i` and `i + 1` of `s`.
pub open spec fn num2(s: Seq<char>, i: int) -> int {
    10 * digit_value(s[i]) + digit_value(s[i + 1])
}

pub open spec fn is_leap_year(y: int) -> bool {
    (y % 4 == 0 && y % 100 != 0) || y % 400 == 0
}

pub open spec fn days_in_month(y: int, m: int) -> int {
    if m == 2 {
        if is_leap_year(y) { 29 } else { 28 }
    } else if m == 4 || m == 6 || m == 9 || m == 11 {
        30
    } else {
        31
    }
}

/// Positions of `YYYY-MM-DDTHH:MM:SS` that hold digits.
pub open spec fn is_digit_position(i: int) -> bool {
    0 <= i < 19 && i != 4 && i != 7 && i != 10 && i != 13 && i != 16
}

/// `YYYY-MM-DDTHH:MM:SS`: a year from 1000 to 9999, a day that exists in its
/// month (February 29 only in leap years), hour 00-23, minute and second 00-59.
pub open spec fn is_date_time(s: Seq<char>) -> bool {
    &&& s.len() >= 19
    &&& forall|i: int| is_digit_position(i) ==> #[trigger] is_digit(s[i])
    &&& s[4] == '-' && s[7] == '-' && s[10] == 'T' && s[13] == ':' && s[16] == ':'
    &&& s[0] != '0'
    &&& 1 <= num2(s, 5) <= 12
    &&& 1 <= num2(s, 8) <= days_in_month(100 * num2(s, 0) + num2(s, 2), num2(s, 5))
    &&& num2(s, 11) <= 23
    &&& num2(s, 14) <= 59
    &&& num2(s, 17) <= 59
}

/// `Z`, or a sign followed by `HH:MM` with hour 00-19 and minute 00-59,
/// starting at position 19.
pub open spec fn is_offset(s: Seq<char>) -> bool {
    ||| s.len() == 20 && s[19] == 'Z'
    ||| {
        &&& s.len() == 25
        &&& s[19] == '+' || s[19] == '-'
        &&& is_digit(s[20]) && is_digit(s[21]) && s[22] == ':' && is_digit(s[23]) && is_digit(s[24])
        &&& num2(s, 20) <= 19
        &&& num2(s, 23) <= 59
    }
}

/// The accepted timestamp grammar: an extended ISO-8601 date and time with a
/// `Z` or `+HH:MM` / `-HH:MM` offset, and nothing else.
pub open spec fn is_timestamp(s: Seq<char>) -> bool {
    is_date_time(s) && is_offset(s)
}

fn digit_at(s: &Vec<char>, i: usize) -> (r: Option<u32>)
    requires
        i < s@.len(),
    ensures
        is_digit(s@[i as int]) <==> r is Some,
        r matches Some(d) ==> d == digit_value(s@[i as int]),
{
    let c = s[i];
    if '0' <= c && c <= '9' {
        Some((c as u32) - ('0' as u32))
    } else {
        None
    }
}

fn num2_at(s: &Vec<char>, i: usize) -> (r: Option<u32>)
    requires
        i < 30,
        i + 1 < s@.len(),
    ensures
        (is_digit(s@[i as int]) && is_digit(s@[i + 1])) <==> r is Some,
        r matches Some(n) ==> n == num2(s@, i as int),
{
    match (digit_at(s, i), digit_at(s, i + 1)) {
        (Some(a), Some(b)) => Some(10 * a + b),
        _ => None,
    }
}

fn check_date_time(s: &Vec<char>) -> (r: bool)
    ensures
        r == is_date_time(s@),
{
    if s.len() < 19 {
        return false;
    }
    let mut i: usize = 0;
    while i < 19
        invariant
            i <= 19 <= s@.len(),
            forall|j: int| 0 <= j < i && is_digit_position(j) ==> #[trigger] is_digit(s@[j]),
        decreases 19 - i,
    {
        if i != 4 && i != 7 && i != 10 && i != 13 && i != 16 {
            let c = s[i];
            if !('0' <= c && c <= '9') {
                assert(is_digit_position(i as int) && !is_digit(s@[i as int]));
                return false;
            }
        }
        i = i + 1;
    }
    if !(s[4] == '-' && s[7] == '-' && s[10] == 'T' && s[13] == ':' && s[16] == ':') {
        return false;
    }
    if s[0] == '0' {
        return false;
    }
    assert(is_digit(s@[0]) && is_digit(s@[1]) && is_digit(s@[2]) && is_digit(s@[3]));
    assert(is_digit(s@[5]) && is_digit(s@[6]) && is_digit(s@[8]) && is_digit(s@[9]));
    assert(is_digit(s@[11]) && is_digit(s@[12]) && is_digit(s@[14]) && is_digit(s@[15]));
    assert(is_digit(s@[17]) && is_digit(s@[18]));
    let century = num2_at(s, 0).unwrap();
    let year2 = num2_at(s, 2).unwrap();
    let month = num2_at(s, 5).unwrap();
    let day = num2_at(s, 8).unwrap();
    let hour = num2_at(s, 11).unwrap();
    let minute = num2_at(s, 14).unwrap();
    let second = num2_at(s, 17).unwrap();
    let year: u32 = 100 * century + year2;
    let leap = (year % 4 == 0 && year % 100 != 0) || year % 400 == 0;
    let days: u32 = if month == 2 {
        if leap { 29 } else { 28 }
    } else if month == 4 || month == 6 || month == 9 || month == 11 {
        30
    } else {
        31
    };
    1 <= month && month <= 12 && 1 <= day && day <= days && hour <= 23 && minute <= 59 && second <= 59
}

fn check_offset(s: &Vec<char>) -> (r: bool)
    requires
        s@.len() >= 19,
    ensures
        r == is_offset(s@),
{
    if s.len() == 20 {
        s[19] == 'Z'
    } else if s.len() == 25 {
        if !(s[19] == '+' || s[19] == '-') || s[22] != ':' {
            return false;
        }
        match (num2_at(s, 20), num2_at(s, 23)) {
            (Some(h), Some(m)) => h <= 19 && m <= 59,
            _ => false,
        }
    } else {
        false
    }
}

/// Whether `s` follows the timestamp grammar.
pub fn is_valid_timestamp(s: &Vec<char>) -> (r: bool)
    ensures
        r == is_timestamp(s@),
{
    check_date_time(s) && check_offset(s)
}

/// A timestamp that follows the accepted grammar, kept verbatim.
#[derive(Clone, Debug)]
pub struct Timestamp {
    text: String,
}

impl Timestamp {
    pub closed spec fn view(&self) -> Seq<char> {
        self.text@
    }

    /// Accepts `s` exactly when it follows the timestamp grammar; the error
    /// carries `s`.
    pub fn parse(s: &str) -> (r: Result<Timestamp, ParseError>)
        ensures
            is_timestamp(s@) <==> r is Ok,
            r matches Ok(t) ==> t@ == s@,
            r matches Err(e) ==> e@ == (ErrorKind::InvalidTimestamp, s@),
    {
        let v = crate::text::chars_of(s);
        Self::from_chars(&v)
    }

    /// As `parse`, on the characters of a timestamp.
    pub fn from_chars(v: &Vec<char>) -> (r: Result<Timestamp, ParseError>)
        ensures
            is_timestamp(v@) <==> r is Ok,
            r matches Ok(t) ==> t@ == v@,
            r matches Err(e) ==> e@ == (ErrorKind::InvalidTimestamp, v@),
    {
        let text = crate::text::string_from_chars(v);
        if is_valid_timestamp(v) {
            Ok(Timestamp { text })
        } else {
            Err(ParseError { kind: ErrorKind::InvalidTimestamp, text })
        }
    }

    /// The timestamp text, exactly as it was given.
    pub fn as_str(&self) -> (r: &str)
        ensures
            r@ == self@,
    {
        self.text.as_str()
    }
}

} // verus!
