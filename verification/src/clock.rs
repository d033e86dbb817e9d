//! The time of day that stands in front of every line of the log.
use std::time::{Duration, SystemTime, SystemTimeError, UNIX_EPOCH};
use vstd::prelude::*;

use crate::text::{decimal, digit, to_two_digits, two_digits};

verus! {

/// A time of day in hours, minutes and seconds, of a number of seconds since midnight of some day.
pub open spec fn hms_text(secs: nat) -> Seq<char> {
    two_digits(secs / 3600 % 24) + ":"@ + two_digits(secs / 60 % 60) + ":"@ + two_digits(secs % 60)
}

/// A time of day in hours, minutes and seconds.
pub fn hms(secs: u64) -> (r: String)
    ensures
        r@ == hms_text(secs as nat),
{
    let mut r: String = to_two_digits(secs / 3600 % 24);
    r.append(":");
    r.append(to_two_digits(secs / 60 % 60).as_str());
    r.append(":");
    r.append(to_two_digits(secs % 60).as_str());
    r
}

/// The time of day at so many seconds since midnight of some day, or midnight itself where that is
/// not known.
pub fn hms_since(secs: Option<u64>) -> (r: String)
    ensures
        r@ == hms_text(
            match secs {
                Some(n) => n as nat,
                None => 0,
            },
        ),
{
    match secs {
        Some(n) => hms(n),
        None => hms(0),
    }
}

/// `std::time::SystemTime`: a moment of the system's clock.
#[verifier::external_type_specification]
#[verifier::external_body]
pub struct ExSystemTime(SystemTime);

/// `std::time::SystemTimeError`: how far one moment lies before another.
#[verifier::external_type_specification]
#[verifier::external_body]
pub struct ExSystemTimeError(SystemTimeError);

/// `SystemTime::now`: the current time. Nothing is claimed of it.
pub assume_specification[ SystemTime::now ]() -> SystemTime
;

/// `Duration::as_secs`: the whole seconds of a span of time. Nothing is claimed of the number,
/// since a span is opaque here.
pub assume_specification[ Duration::as_secs ](span: &Duration) -> u64
;

/// `SystemTime::duration_since` with the start of 1970: the span from there to a moment, or an
/// error where the moment lies before. Nothing is claimed of the result.
#[verifier::external_body]
fn since_1970(t: SystemTime) -> Result<Duration, SystemTimeError> {
    t.duration_since(UNIX_EPOCH)
}

/// The current time of day (in UTC), or midnight for a clock that stands before 1970.
pub fn hms_now() -> (r: String)
    ensures
        exists|secs: u64| r@ == #[trigger] hms_text(secs as nat),
{
    let secs: Option<u64> = match since_1970(SystemTime::now()) {
        Ok(span) => Some(span.as_secs()),
        Err(_) => None,
    };
    assert(hms_text(0u64 as nat) == hms_text(0));
    hms_since(secs)
}

/// A line of the log: the time of day in brackets, and the message.
pub open spec fn line_text(time: Seq<char>, message: Seq<char>) -> Seq<char> {
    "["@ + time + "] "@ + message
}

/// A line of the log at a time of day.
pub fn log_line(time: &str, message: &str) -> (r: String)
    ensures
        r@ == line_text(time@, message@),
{
    let mut r: String = "[".to_owned();
    r.append(time);
    r.append("] ");
    r.append(message);
    r
}

/// The line of the log for a message of now.
pub fn dsh_log(message: &str) -> (r: String)
    ensures
        exists|secs: u64| r@ == line_text(#[trigger] hms_text(secs as nat), message@),
{
    log_line(hms_now().as_str(), message)
}

/// A number below a hundred has two digits, for its tens and its ones.
proof fn lemma_two_digits(n: nat)
    requires
        n < 100,
    ensures
        two_digits(n) == seq![digit(n / 10), digit(n % 10)],
{
    reveal_with_fuel(decimal, 2);
    assert(two_digits(n) =~= seq![digit(n / 10), digit(n % 10)]);
}

/// The time of day is always of the form `HH:MM:SS`.
pub proof fn time_of_day_has_a_fixed_form(secs: nat)
    ensures
        ({
            let h = secs / 3600 % 24;
            let m = secs / 60 % 60;
            let s = secs % 60;
            hms_text(secs) == seq![
                digit(h / 10),
                digit(h % 10),
                ':',
                digit(m / 10),
                digit(m % 10),
                ':',
                digit(s / 10),
                digit(s % 10),
            ]
        }),
{
    reveal_strlit(":");
    lemma_two_digits(secs / 3600 % 24);
    lemma_two_digits(secs / 60 % 60);
    lemma_two_digits(secs % 60);
    assert(":"@ == seq![':']);
}

/// The time of day is the same a day later.
pub proof fn time_of_day_comes_round(secs: nat)
    ensures
        hms_text(secs + 86400) == hms_text(secs),
{
    let later = secs + 86400;
    assert(later / 3600 == secs / 3600 + 24);
    assert(later / 3600 % 24 == secs / 3600 % 24);
    assert(later / 60 == secs / 60 + 1440);
    assert(later / 60 % 60 == secs / 60 % 60);
    assert(later % 60 == secs % 60);
}

/// A line of the log begins with the time in brackets, and then holds the message whole.
pub proof fn line_holds_time_and_message(time: Seq<char>, message: Seq<char>)
    ensures
        line_text(time, message) == seq!['['] + time + seq![']', ' '] + message,
{
    reveal_strlit("[");
    reveal_strlit("] ");
    assert("["@ =~= seq!['[']);
    assert("] "@ =~= seq![']', ' ']);
}

} // verus!
