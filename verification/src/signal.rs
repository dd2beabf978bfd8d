//! Signal strength: from the percentage that the scan reports to a level
//! in dBm.

use crate::number::{decimal, digits_of_reads_back, parse_i32, parse_of_decimal, parsed_i32};
use crate::text::{copy_range, trim, trimmed};
use vstd::prelude::*;

verus! {

/// The level, in dBm, recorded for a signal whose percentage cannot be read.
pub const UNREADABLE_DBM: i32 = -100;

/// `s` without the percent sign that may end it.
pub open spec fn without_percent(s: Seq<char>) -> Seq<char> {
    if s.len() > 0 && s.last() == '%' {
        s.drop_last()
    } else {
        s
    }
}

/// Half of `p`, rounded toward zero.
pub open spec fn half_toward_zero(p: int) -> int {
    if p >= 0 {
        p / 2
    } else {
        -((-p) / 2)
    }
}

/// The level in dBm for a signal quality of `p` percent.
pub open spec fn dbm_of_percent(p: int) -> int {
    half_toward_zero(p) - 100
}

/// The percentage written in `value`: the integer that is left when the
/// surrounding white space and then one trailing percent sign are taken
/// away, if that is an integer.
pub open spec fn percent_in(value: Seq<char>) -> Option<int> {
    parsed_i32(without_percent(trimmed(value)))
}

/// The level in dBm for the text `value` of a signal line: converted from
/// the percentage where one can be read, `UNREADABLE_DBM` where none can.
pub open spec fn signal_dbm(value: Seq<char>) -> int {
    match percent_in(value) {
        Some(p) => dbm_of_percent(p),
        None => UNREADABLE_DBM as int,
    }
}

/// Converts a signal quality in percent to a level in dBm.
pub fn percent_to_dbm(p: i32) -> (dbm: i32)
    ensures
        dbm == dbm_of_percent(p as int),
        0 <= p ==> dbm == p / 2 - 100,
{
    let half: i32 = if p >= 0 {
        p / 2
    } else {
        let m: i64 = -(p as i64);
        (-(m / 2)) as i32
    };
    half - 100
}

/// The level in dBm for the text of a signal line.
pub fn signal_level(value: &[char]) -> (dbm: i32)
    ensures
        dbm == signal_dbm(value@),
{
    let text = trim(value);
    let n = text.len();
    let digits = if n > 0 && text[n - 1] == '%' {
        copy_range(text.as_slice(), 0, n - 1)
    } else {
        text
    };
    match parse_i32(digits.as_slice()) {
        Some(p) => percent_to_dbm(p),
        None => UNREADABLE_DBM,
    }
}

/// A percentage `p` written in decimal, with or without a percent sign
/// after it and with any white space around it, gives half of `p`, rounded
/// toward zero, less one hundred. From 0 to 100 that is `p / 2 - 100`.
pub proof fn signal_of_percentage(value: Seq<char>, p: int)
    requires
        i32::MIN <= p <= i32::MAX,
        trimmed(value) == decimal(p) || trimmed(value) == decimal(p).push('%'),
    ensures
        signal_dbm(value) == dbm_of_percent(p),
        0 <= p ==> signal_dbm(value) == p / 2 - 100,
        0 <= p <= 100 ==> -100 <= signal_dbm(value) <= -50,
{
    parse_of_decimal(p);
    digits_of_reads_back(if p < 0 { (-p) as nat } else { p as nat });
    if trimmed(value) != decimal(p) {
        assert(decimal(p).push('%').drop_last() =~= decimal(p));
    }
}

/// Text in which no percentage can be read gives `UNREADABLE_DBM`.
pub proof fn signal_of_unreadable(value: Seq<char>)
    requires
        percent_in(value).is_none(),
    ensures
        signal_dbm(value) == -100,
{
}

} // verus!
