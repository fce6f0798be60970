//! The `datefmt` and `timefmt` template filters: read a date or a time
//! with the first of the given `strptime` patterns that fits (or with
//! `jiff`'s own parser), then print it with a `strftime` format (or in
//! `jiff`'s default form).
use vstd::prelude::*;

verus! {

/// A calendar date, as `jiff::civil::Date` holds it.
#[derive(Clone, Copy, Debug, PartialEq, Eq, Structural)]
pub struct DateValue {
    pub year: i16,
    pub month: i8,
    pub day: i8,
}

/// A time of day, as `jiff::civil::Time` holds it.
#[derive(Clone, Copy, Debug, PartialEq, Eq, Structural)]
pub struct TimeValue {
    pub hour: i8,
    pub minute: i8,
    pub second: i8,
    pub subsec_nanosecond: i32,
}

pub open spec fn is_leap_year(y: int) -> bool {
    y % 4 == 0 && (y % 100 != 0 || y % 400 == 0)
}

pub open spec fn days_in_month(y: int, m: int) -> int {
    if m == 2 {
        if is_leap_year(y) { 29 } else { 28 }
    } else if m == 4 || m == 6 || m == 9 || m == 11 {
        30
    } else {
        31
    }
}

/// The dates `jiff` can hold, as its documentation lists them.
pub open spec fn valid_date(d: DateValue) -> bool {
    &&& -9999 <= d.year <= 9999
    &&& 1 <= d.month <= 12
    &&& 1 <= d.day <= days_in_month(d.year as int, d.month as int)
}

/// The times `jiff` can hold, as its documentation lists them.
pub open spec fn valid_time(t: TimeValue) -> bool {
    &&& 0 <= t.hour <= 23
    &&& 0 <= t.minute <= 59
    &&& 0 <= t.second <= 59
    &&& 0 <= t.subsec_nanosecond <= 999_999_999
}

/// The date `jiff` reads from `input` with the `strptime` pattern `format`.
pub uninterp spec fn date_strptime(format: Seq<char>, input: Seq<char>) -> Option<DateValue>;

/// The date `jiff`'s own parser reads from `input`, or its error message.
pub uninterp spec fn date_parse(input: Seq<char>) -> Result<DateValue, Seq<char>>;

/// A date printed with the `strftime` format `format`.
pub uninterp spec fn date_strftime(d: DateValue, format: Seq<char>) -> Seq<char>;

/// The digit `n` (0 to 9) as a character.
pub open spec fn digit_char(n: int) -> char {
    (n + 48) as char
}

/// The last `k` decimal digits of `n` (at least 0), with leading zeros.
pub open spec fn fixed_digits(n: int, k: nat) -> Seq<char>
    decreases k,
{
    if k == 0 {
        Seq::empty()
    } else {
        fixed_digits(n / 10, (k - 1) as nat).push(digit_char(n % 10))
    }
}

/// A text with its trailing `0`s removed.
pub open spec fn trim_zeros(s: Seq<char>) -> Seq<char>
    decreases s.len(),
{
    if s.len() > 0 && s.last() == '0' {
        trim_zeros(s.drop_last())
    } else {
        s
    }
}

/// A date in `jiff`'s default form, as its printer writes it: the year in
/// four digits (after `-00` when it is negative), then the month and the
/// day in two digits each, joined by `-`.
pub open spec fn date_display(d: DateValue) -> Seq<char> {
    let year = if d.year < 0 { -d.year } else { d.year as int };
    (if d.year < 0 { seq!['-', '0', '0'] } else { Seq::empty() }) + fixed_digits(year, 4) + seq!['-'] + fixed_digits(
        d.month as int,
        2,
    ) + seq!['-'] + fixed_digits(d.day as int, 2)
}

/// The time `jiff` reads from `input` with the `strptime` pattern `format`.
pub uninterp spec fn time_strptime(format: Seq<char>, input: Seq<char>) -> Option<TimeValue>;

/// The time `jiff`'s own parser reads from `input`, or its error message.
pub uninterp spec fn time_parse(input: Seq<char>) -> Result<TimeValue, Seq<char>>;

/// A time printed with the `strftime` format `format`.
pub uninterp spec fn time_strftime(t: TimeValue, format: Seq<char>) -> Seq<char>;

/// A time in `jiff`'s default form, as its printer writes it: the hour,
/// minute and second in two digits each, joined by `:`, then, when the
/// fraction of a second is not zero, `.` and its nine digits without the
/// trailing zeros.
pub open spec fn time_display(t: TimeValue) -> Seq<char> {
    fixed_digits(t.hour as int, 2) + seq![':'] + fixed_digits(t.minute as int, 2) + seq![':'] + fixed_digits(
        t.second as int,
        2,
    ) + if t.subsec_nanosecond == 0 {
        Seq::<char>::empty()
    } else {
        seq!['.'] + trim_zeros(fixed_digits(t.subsec_nanosecond as int, 9))
    }
}

/// Calls `jiff::civil::Date::strptime` and keeps the date when it succeeds;
/// a date `jiff` hands out is one it can hold.
#[verifier::external_body]
fn strptime_date(format: &str, input: &str) -> (r: Option<DateValue>)
    ensures
        r == date_strptime(format@, input@),
        r matches Some(d) ==> valid_date(d),
{
    jiff::civil::Date::strptime(format, input).ok().map(|d| DateValue { year: d.year(), month: d.month(), day: d.day() })
}

/// Calls `str::parse::<jiff::civil::Date>`.
#[verifier::external_body]
fn parse_date(input: &str) -> (r: Result<DateValue, String>)
    ensures
        (match r {
            Ok(d) => Ok(d),
            Err(e) => Err(e@),
        }) == date_parse(input@),
        r matches Ok(d) ==> valid_date(d),
{
    input.parse::<jiff::civil::Date>().map(|d| DateValue { year: d.year(), month: d.month(), day: d.day() }).map_err(|e| e.to_string())
}

/// Calls `jiff::civil::Date::strftime` on the date and prints the result.
#[verifier::external_body]
fn strftime_date(d: DateValue, format: &str) -> (r: String)
    requires
        valid_date(d),
    ensures
        r@ == date_strftime(d, format@),
{
    jiff::civil::date(d.year, d.month, d.day).strftime(format).to_string()
}

/// Prints a `jiff::civil::Date` with its `Display` impl, which writes the
/// date with `jiff`'s default printer; the contract states the form that
/// printer writes (`print_date`).
#[verifier::external_body]
fn display_date(d: DateValue) -> (r: String)
    requires
        valid_date(d),
    ensures
        r@ == date_display(d),
{
    jiff::civil::date(d.year, d.month, d.day).to_string()
}

/// Calls `jiff::civil::Time::strptime` and keeps the time when it succeeds;
/// a time `jiff` hands out is one it can hold.
#[verifier::external_body]
fn strptime_time(format: &str, input: &str) -> (r: Option<TimeValue>)
    ensures
        r == time_strptime(format@, input@),
        r matches Some(t) ==> valid_time(t),
{
    jiff::civil::Time::strptime(format, input).ok().map(|t| TimeValue {
        hour: t.hour(),
        minute: t.minute(),
        second: t.second(),
        subsec_nanosecond: t.subsec_nanosecond(),
    })
}

/// Calls `str::parse::<jiff::civil::Time>`.
#[verifier::external_body]
fn parse_time(input: &str) -> (r: Result<TimeValue, String>)
    ensures
        (match r {
            Ok(t) => Ok(t),
            Err(e) => Err(e@),
        }) == time_parse(input@),
        r matches Ok(t) ==> valid_time(t),
{
    input.parse::<jiff::civil::Time>().map(|t| TimeValue {
        hour: t.hour(),
        minute: t.minute(),
        second: t.second(),
        subsec_nanosecond: t.subsec_nanosecond(),
    }).map_err(|e| e.to_string())
}

/// Calls `jiff::civil::Time::strftime` on the time and prints the result.
#[verifier::external_body]
fn strftime_time(t: TimeValue, format: &str) -> (r: String)
    requires
        valid_time(t),
    ensures
        r@ == time_strftime(t, format@),
{
    jiff::civil::time(t.hour, t.minute, t.second, t.subsec_nanosecond).strftime(format).to_string()
}

/// Prints a `jiff::civil::Time` with its `Display` impl, which, with no
/// precision asked for, writes the time with `jiff`'s default printer; the
/// contract states the form that printer writes (`print_time`, with the
/// fraction's trailing zeros dropped by `write_fraction`).
#[verifier::external_body]
fn display_time(t: TimeValue) -> (r: String)
    requires
        valid_time(t),
    ensures
        r@ == time_display(t),
{
    jiff::civil::time(t.hour, t.minute, t.second, t.subsec_nanosecond).to_string()
}

/// The date read by the first of `patterns[k ..]` that fits `input`.
pub open spec fn first_date_match(patterns: Seq<Seq<char>>, k: int, input: Seq<char>) -> Option<DateValue>
    decreases patterns.len() - k,
{
    if k < 0 || k >= patterns.len() {
        None
    } else {
        match date_strptime(patterns[k], input) {
            Some(d) => Some(d),
            None => first_date_match(patterns, k + 1, input),
        }
    }
}

/// The time read by the first of `patterns[k ..]` that fits `input`.
pub open spec fn first_time_match(patterns: Seq<Seq<char>>, k: int, input: Seq<char>) -> Option<TimeValue>
    decreases patterns.len() - k,
{
    if k < 0 || k >= patterns.len() {
        None
    } else {
        match time_strptime(patterns[k], input) {
            Some(t) => Some(t),
            None => first_time_match(patterns, k + 1, input),
        }
    }
}

pub open spec fn strings(v: Vec<String>) -> Seq<Seq<char>> {
    v@.map_values(|s: String| s@)
}

pub open spec fn opt_str(s: Option<&str>) -> Option<Seq<char>> {
    match s {
        Some(x) => Some(x@),
        None => None,
    }
}

/// The message given when the filtered value is not a string.
pub open spec fn not_a_string_message() -> Seq<char> {
    "could not parse value as a string"@
}

/// What `datefmt` gives for a value, a format and a list of patterns.
pub open spec fn datefmt_result(
    value: Option<Seq<char>>,
    format: Option<Seq<char>>,
    patterns: Seq<Seq<char>>,
) -> Result<Seq<char>, Seq<char>> {
    match value {
        None => Err(not_a_string_message()),
        Some(s) => {
            let date = match first_date_match(patterns, 0, s) {
                Some(d) => Ok(d),
                None => date_parse(s),
            };
            match date {
                Ok(d) => Ok(
                    match format {
                        Some(f) => date_strftime(d, f),
                        None => date_display(d),
                    },
                ),
                Err(e) => Err(e),
            }
        },
    }
}

/// What `timefmt` gives for a value, a format and a list of patterns.
pub open spec fn timefmt_result(
    value: Option<Seq<char>>,
    format: Option<Seq<char>>,
    patterns: Seq<Seq<char>>,
) -> Result<Seq<char>, Seq<char>> {
    match value {
        None => Err(not_a_string_message()),
        Some(s) => {
            let time = match first_time_match(patterns, 0, s) {
                Some(t) => Ok(t),
                None => time_parse(s),
            };
            match time {
                Ok(t) => Ok(
                    match format {
                        Some(f) => time_strftime(t, f),
                        None => time_display(t),
                    },
                ),
                Err(e) => Err(e),
            }
        },
    }
}

/// The date read by the first pattern that fits, trying them in order.
fn find_date(patterns: &Vec<String>, input: &str) -> (r: Option<DateValue>)
    ensures
        r == first_date_match(strings(*patterns), 0, input@),
        r matches Some(d) ==> valid_date(d),
{
    let mut k: usize = 0;
    while k < patterns.len()
        invariant
            k <= patterns.len(),
            first_date_match(strings(*patterns), 0, input@) == first_date_match(strings(*patterns), k as int, input@),
        decreases patterns.len() - k,
    {
        match strptime_date(patterns[k].as_str(), input) {
            Some(d) => { return Some(d); },
            None => {},
        }
        k = k + 1;
    }
    None
}

/// The time read by the first pattern that fits, trying them in order.
fn find_time(patterns: &Vec<String>, input: &str) -> (r: Option<TimeValue>)
    ensures
        r == first_time_match(strings(*patterns), 0, input@),
        r matches Some(t) ==> valid_time(t),
{
    let mut k: usize = 0;
    while k < patterns.len()
        invariant
            k <= patterns.len(),
            first_time_match(strings(*patterns), 0, input@) == first_time_match(strings(*patterns), k as int, input@),
        decreases patterns.len() - k,
    {
        match strptime_time(patterns[k].as_str(), input) {
            Some(t) => { return Some(t); },
            None => {},
        }
        k = k + 1;
    }
    None
}

/// Reads `value` as a date with the first of `patterns` that fits, or with
/// `jiff`'s own parser when none does (or none are given), and prints it
/// with `format`, or in `jiff`'s default form when no format is given. The
/// error is the message of the failure.
pub fn datefmt(value: Option<&str>, format: Option<&str>, patterns: Option<Vec<String>>) -> (r: Result<String, String>)
    ensures
        (match r {
            Ok(s) => Ok(s@),
            Err(e) => Err(e@),
        }) == datefmt_result(
            opt_str(value),
            opt_str(format),
            match patterns {
                Some(p) => strings(p),
                None => Seq::empty(),
            },
        ),
{
    let patterns = match patterns {
        Some(p) => p,
        None => Vec::new(),
    };
    let date = match value {
        Some(s) => {
            match find_date(&patterns, s) {
                Some(d) => d,
                None => match parse_date(s) {
                    Ok(d) => d,
                    Err(e) => { return Err(e); },
                },
            }
        },
        None => { return Err("could not parse value as a string".to_owned()); },
    };
    match format {
        Some(f) => Ok(strftime_date(date, f)),
        None => Ok(display_date(date)),
    }
}

/// Reads `value` as a time with the first of `patterns` that fits, or with
/// `jiff`'s own parser when none does (or none are given), and prints it
/// with `format`, or in `jiff`'s default form when no format is given. The
/// error is the message of the failure.
pub fn timefmt(value: Option<&str>, format: Option<&str>, patterns: Option<Vec<String>>) -> (r: Result<String, String>)
    ensures
        (match r {
            Ok(s) => Ok(s@),
            Err(e) => Err(e@),
        }) == timefmt_result(
            opt_str(value),
            opt_str(format),
            match patterns {
                Some(p) => strings(p),
                None => Seq::empty(),
            },
        ),
{
    let patterns = match patterns {
        Some(p) => p,
        None => Vec::new(),
    };
    let time = match value {
        Some(s) => {
            match find_time(&patterns, s) {
                Some(t) => t,
                None => match parse_time(s) {
                    Ok(t) => t,
                    Err(e) => { return Err(e); },
                },
            }
        },
        None => { return Err("could not parse value as a string".to_owned()); },
    };
    match format {
        Some(f) => Ok(strftime_time(time, f)),
        None => Ok(display_time(time)),
    }
}


/// Trying patterns from the second one on is trying the patterns that
/// follow the first.
pub proof fn lemma_first_date_match_shift(patterns: Seq<Seq<char>>, k: int, input: Seq<char>)
    requires
        0 <= k,
        patterns.len() > 0,
    ensures
        first_date_match(patterns, k + 1, input) == first_date_match(patterns.drop_first(), k, input),
    decreases patterns.len() - k,
{
    if k + 1 < patterns.len() {
        assert(patterns[k + 1] == patterns.drop_first()[k]);
        lemma_first_date_match_shift(patterns, k + 1, input);
    }
}

/// How `datefmt` reads and prints a value, stated pattern by pattern:
/// - the first pattern that reads the value decides the date, which is
///   printed with the format when one is given (whatever patterns there
///   are) and in `jiff`'s default form otherwise;
/// - a first pattern that does not read the value is passed over, as if
///   it had not been given;
/// - with no patterns at all, `jiff`'s own parser reads the value, and its
///   error is the result when it fails;
/// - so when no pattern reads the value, the result is what it is with no
///   patterns;
/// - a value that is not a string is refused with the same message
///   whatever the format and patterns.
pub proof fn law_datefmt_reads_then_prints(
    s: Seq<char>,
    format: Option<Seq<char>>,
    patterns: Seq<Seq<char>>,
)
    ensures
        patterns.len() > 0 ==> (date_strptime(patterns[0], s) matches Some(x) ==> datefmt_result(Some(s), format, patterns)
            == Ok::<Seq<char>, Seq<char>>(
            match format {
                Some(f) => date_strftime(x, f),
                None => date_display(x),
            },
        )),
        patterns.len() > 0 && date_strptime(patterns[0], s) is None ==> datefmt_result(Some(s), format, patterns)
            == datefmt_result(Some(s), format, patterns.drop_first()),
        datefmt_result(Some(s), format, Seq::empty()) == match date_parse(s) {
            Ok(x) => Ok(
                match format {
                    Some(f) => date_strftime(x, f),
                    None => date_display(x),
                },
            ),
            Err(e) => Err(e),
        },
        first_date_match(patterns, 0, s) is None ==> datefmt_result(Some(s), format, patterns) == datefmt_result(
            Some(s),
            format,
            Seq::empty(),
        ),
        datefmt_result(None, format, patterns) == Err::<Seq<char>, Seq<char>>(not_a_string_message()),
{
    if patterns.len() > 0 {
        lemma_first_date_match_shift(patterns, 0, s);
    }
}

/// Trying patterns from the second one on is trying the patterns that
/// follow the first.
pub proof fn lemma_first_time_match_shift(patterns: Seq<Seq<char>>, k: int, input: Seq<char>)
    requires
        0 <= k,
        patterns.len() > 0,
    ensures
        first_time_match(patterns, k + 1, input) == first_time_match(patterns.drop_first(), k, input),
    decreases patterns.len() - k,
{
    if k + 1 < patterns.len() {
        assert(patterns[k + 1] == patterns.drop_first()[k]);
        lemma_first_time_match_shift(patterns, k + 1, input);
    }
}

/// How `timefmt` reads and prints a value, stated pattern by pattern:
/// - the first pattern that reads the value decides the time, which is
///   printed with the format when one is given (whatever patterns there
///   are) and in `jiff`'s default form otherwise;
/// - a first pattern that does not read the value is passed over, as if
///   it had not been given;
/// - with no patterns at all, `jiff`'s own parser reads the value, and its
///   error is the result when it fails;
/// - so when no pattern reads the value, the result is what it is with no
///   patterns;
/// - a value that is not a string is refused with the same message
///   whatever the format and patterns.
pub proof fn law_timefmt_reads_then_prints(
    s: Seq<char>,
    format: Option<Seq<char>>,
    patterns: Seq<Seq<char>>,
)
    ensures
        patterns.len() > 0 ==> (time_strptime(patterns[0], s) matches Some(x) ==> timefmt_result(Some(s), format, patterns)
            == Ok::<Seq<char>, Seq<char>>(
            match format {
                Some(f) => time_strftime(x, f),
                None => time_display(x),
            },
        )),
        patterns.len() > 0 && time_strptime(patterns[0], s) is None ==> timefmt_result(Some(s), format, patterns)
            == timefmt_result(Some(s), format, patterns.drop_first()),
        timefmt_result(Some(s), format, Seq::empty()) == match time_parse(s) {
            Ok(x) => Ok(
                match format {
                    Some(f) => time_strftime(x, f),
                    None => time_display(x),
                },
            ),
            Err(e) => Err(e),
        },
        first_time_match(patterns, 0, s) is None ==> timefmt_result(Some(s), format, patterns) == timefmt_result(
            Some(s),
            format,
            Seq::empty(),
        ),
        timefmt_result(None, format, patterns) == Err::<Seq<char>, Seq<char>>(not_a_string_message()),
{
    if patterns.len() > 0 {
        lemma_first_time_match_shift(patterns, 0, s);
    }
}

} // verus!
