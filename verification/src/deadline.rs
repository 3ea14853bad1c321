//! The optional deadline input: an optional raw string in the user-facing
//! format `%Y-%m-%d %H` (year, month, day and hour, hour granularity only),
//! resolved to unix-epoch seconds at the top of that hour.

use vstd::prelude::*;
use crate::app_error::{AppError, AppResult, UnixTime};
use crate::calendar::{
    deadline_in_bounds_def, timestamp_exec, timestamp_of, valid_date, valid_date_exec,
};
use crate::text::{trim_spec, trim_str};

verus! {

/// The user-facing pattern a deadline string must match after trimming.
pub const USER_DATE_TIME_FORMAT: &'static str = "%Y-%m-%d %H";

pub open spec fn is_digit(c: char) -> bool {
    48 <= c as u32 <= 57
}

pub open spec fn dv(c: char) -> int {
    c as u32 - 48
}

/// Whether a trimmed deadline string has the exact shape `YYYY-MM-DD HH`.
pub open spec fn well_formed(t: Seq<char>) -> bool {
    &&& t.len() == 13
    &&& is_digit(t[0]) && is_digit(t[1]) && is_digit(t[2]) && is_digit(t[3])
    &&& t[4] == '-'
    &&& is_digit(t[5]) && is_digit(t[6])
    &&& t[7] == '-'
    &&& is_digit(t[8]) && is_digit(t[9])
    &&& t[10] == ' '
    &&& is_digit(t[11]) && is_digit(t[12])
}

pub open spec fn year_of(t: Seq<char>) -> int {
    dv(t[0]) * 1000 + dv(t[1]) * 100 + dv(t[2]) * 10 + dv(t[3])
}

pub open spec fn month_of(t: Seq<char>) -> int {
    dv(t[5]) * 10 + dv(t[6])
}

pub open spec fn day_of(t: Seq<char>) -> int {
    dv(t[8]) * 10 + dv(t[9])
}

pub open spec fn hour_of(t: Seq<char>) -> int {
    dv(t[11]) * 10 + dv(t[12])
}

/// Whether a trimmed deadline string is well formed and names a real
/// calendar date and hour.
pub open spec fn deadline_ok(t: Seq<char>) -> bool {
    well_formed(t) && valid_date(year_of(t), month_of(t), day_of(t), hour_of(t))
}

/// The unix timestamp a valid trimmed deadline string resolves to.
pub open spec fn deadline_ts(t: Seq<char>) -> int {
    timestamp_of(year_of(t), month_of(t), day_of(t), hour_of(t))
}

fn is_digit_exec(c: char) -> (b: bool)
    ensures
        b == is_digit(c),
{
    let u = c as u32;
    48 <= u && u <= 57
}

fn digit_of(c: char) -> (r: i64)
    requires
        is_digit(c),
    ensures
        r == dv(c),
{
    (c as u32 - 48) as i64
}

/// An optional raw deadline string, as supplied by a caller. Its view is the
/// optional character sequence of the raw string, untrimmed.
#[derive(Clone)]
pub struct OptionalDeadlineInput {
    raw: Option<String>,
}

impl View for OptionalDeadlineInput {
    type V = Option<Seq<char>>;

    closed spec fn view(&self) -> Option<Seq<char>> {
        match self.raw {
            Option::Some(ref s) => Option::Some(s@),
            Option::None => Option::None,
        }
    }
}

impl OptionalDeadlineInput {
    /// An absent deadline input.
    pub fn none() -> (r: Self)
        ensures
            r@ is None,
    {
        OptionalDeadlineInput { raw: None }
    }

    /// A present deadline input holding the given raw text.
    pub fn some(s: &str) -> (r: Self)
        ensures
            r@ matches Some(v) && v == s@,
    {
        OptionalDeadlineInput { raw: Some(s.to_owned()) }
    }

    /// Wraps an optional raw deadline string.
    pub fn new(raw: Option<String>) -> (r: Self)
        ensures
            raw matches Some(s) ==> (r@ matches Some(v) && v == s@),
            raw is None ==> r@ is None,
    {
        OptionalDeadlineInput { raw }
    }

    /// Whether a raw deadline string is present at all.
    pub fn is_some(&self) -> (b: bool)
        ensures
            b == (self@ is Some),
    {
        self.raw.is_some()
    }

    /// Resolves the input: absent input resolves to no deadline; a present
    /// string is trimmed and must name a real calendar date and hour in the
    /// `%Y-%m-%d %H` shape, and resolves to the unix time of the top of that
    /// hour.
    pub fn unix_time(&self) -> (r: AppResult<Option<UnixTime>>)
        ensures
            self@ is None ==> r == AppResult::<Option<UnixTime>>::Ok(None),
            self@ matches Some(s) ==> {
                &&& deadline_ok(trim_spec(s)) ==> (r matches Ok(d) && d matches Some(ts) && ts
                    == deadline_ts(trim_spec(s)))
                &&& !deadline_ok(trim_spec(s)) ==> (r matches Err(
                    AppError::DateTimeParseError { input, expected_format },
                ) && input@ == s && expected_format@ == USER_DATE_TIME_FORMAT@)
            },
            r matches Ok(d) ==> (d matches Some(ts) ==> deadline_in_bounds_def(ts)),
    {
        match &self.raw {
            None => Ok(None),
            Some(s) => {
                let t = trim_str(s.as_str());
                if t.unicode_len() != 13 {
                    return Err(Self::parse_error(s));
                }
                let c0 = t.get_char(0);
                let c1 = t.get_char(1);
                let c2 = t.get_char(2);
                let c3 = t.get_char(3);
                let c4 = t.get_char(4);
                let c5 = t.get_char(5);
                let c6 = t.get_char(6);
                let c7 = t.get_char(7);
                let c8 = t.get_char(8);
                let c9 = t.get_char(9);
                let c10 = t.get_char(10);
                let c11 = t.get_char(11);
                let c12 = t.get_char(12);
                let shape_ok = is_digit_exec(c0) && is_digit_exec(c1) && is_digit_exec(c2)
                    && is_digit_exec(c3) && c4 == '-' && is_digit_exec(c5) && is_digit_exec(c6)
                    && c7 == '-' && is_digit_exec(c8) && is_digit_exec(c9) && c10 == ' '
                    && is_digit_exec(c11) && is_digit_exec(c12);
                if !shape_ok {
                    return Err(Self::parse_error(s));
                }
                let y = digit_of(c0) * 1000 + digit_of(c1) * 100 + digit_of(c2) * 10 + digit_of(c3);
                let mo = digit_of(c5) * 10 + digit_of(c6);
                let d = digit_of(c8) * 10 + digit_of(c9);
                let h = digit_of(c11) * 10 + digit_of(c12);
                if !valid_date_exec(y, mo, d, h) {
                    return Err(Self::parse_error(s));
                }
                Ok(Some(timestamp_exec(y, mo, d, h)))
            },
        }
    }

    fn parse_error(s: &String) -> (e: AppError)
        ensures
            e matches AppError::DateTimeParseError { input, expected_format } && input@ == s@
                && expected_format@ == USER_DATE_TIME_FORMAT@,
    {
        AppError::DateTimeParseError {
            input: s.clone(),
            expected_format: USER_DATE_TIME_FORMAT.to_owned(),
        }
    }
}

} // verus!
