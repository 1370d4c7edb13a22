//! The logger handle and the text of the log lines.

use vstd::prelude::*;
use std::sync::Arc;
use std::sync::Mutex;
use crate::text::decimal;
use crate::text::digits_value;
use crate::text::is_digit;
use crate::text::law_decimal_digits;
use crate::text::law_decimal_reads_back;
use crate::text::push_decimal;

verus! {

/// `std::sync::Mutex`, a lock around a value.
#[verifier::external_type_specification]
#[verifier::external_body]
#[verifier::reject_recursive_types(T)]
pub struct ExMutex<T: ?Sized>(Mutex<T>);

/// What a logger lock holds: the log file and the log level of each logger
/// in it (a lock holds exactly one). This is the contents put in by
/// `Mutex::new`; a change made later through the lock's guard, which no
/// function of this library makes, is not followed.
pub uninterp spec fn lock_contents(lock: Mutex<Logger>) -> Seq<(Seq<char>, u8)>;

/// Calls `std::sync::Mutex::new`, which puts `logger` in a new, unlocked
/// lock; the contract states that the lock holds that logger.
#[verifier::external_body]
pub(crate) fn new_mutex(logger: Logger) -> (lock: Mutex<Logger>)
    ensures
        lock_contents(lock) == seq![(logger.file_view(), logger.level())],
{
    Mutex::new(logger)
}

/// Calls `Clone::clone` on an `Arc`, which returns a second handle to the
/// same shared value; the contract states that the handle equals the one
/// cloned.
#[verifier::external_body]
fn clone_arc<T>(handle: &Arc<T>) -> (copy: Arc<T>)
    ensures
        copy == *handle,
{
    Arc::clone(handle)
}

/// Where log lines go and at which level.
#[derive(Clone)]
pub struct Logger {
    file: String,
    log_level: u8,
}

impl Logger {
    /// The path of the log file.
    pub closed spec fn file_view(&self) -> Seq<char> {
        self.file@
    }

    /// The log level.
    pub closed spec fn level(&self) -> u8 {
        self.log_level
    }

    /// A logger for the file at `file_path`.
    pub fn new(file_path: &str, log_level: u8) -> (logger: Logger)
        ensures
            logger.file_view() == file_path@,
            logger.level() == log_level,
    {
        Logger { file: String::from_str(file_path), log_level }
    }

    /// The path of the log file.
    pub fn file(&self) -> (file: &str)
        ensures
            file@ == self.file_view(),
    {
        self.file.as_str()
    }

    /// The log level.
    pub fn log_level(&self) -> (level: u8)
        ensures
            level == self.level(),
    {
        self.log_level
    }
}

/// The logger as seen by the request/response hooks of the server.
pub struct FairingLogger {
    logger: Arc<Mutex<Logger>>,
}

impl FairingLogger {
    /// The shared logger the hooks write to.
    pub closed spec fn handle(&self) -> Arc<Mutex<Logger>> {
        self.logger
    }

    /// Hooks writing to the shared `logger`.
    pub fn new(logger: Arc<Mutex<Logger>>) -> (fairing: FairingLogger)
        ensures
            fairing.handle() == logger,
    {
        FairingLogger { logger }
    }

    /// A second handle to the shared logger.
    pub fn logger(&self) -> (logger: Arc<Mutex<Logger>>)
        ensures
            logger == self.handle(),
    {
        clone_arc(&self.logger)
    }
}

/// A local date and time, as a calendar reports it.
pub struct LocalTime {
    /// The year (proleptic Gregorian; may be negative).
    pub year: i32,
    /// The month, 1 to 12.
    pub month: u32,
    /// The day of the month, from 1.
    pub day: u32,
    /// The hour, 0 to 23.
    pub hour: u32,
    /// The minute, 0 to 59.
    pub minute: u32,
    /// The second, 0 to 60 (60 for a leap second).
    pub second: u32,
}

/// `n` in decimal, padded with zeros on the left to two digits.
pub open spec fn two_digits(n: nat) -> Seq<char> {
    if n < 10 {
        "0"@ + decimal(n)
    } else {
        decimal(n)
    }
}

/// `n` in decimal, padded with zeros on the left to four digits.
pub open spec fn four_digits(n: nat) -> Seq<char> {
    if n < 10 {
        "000"@ + decimal(n)
    } else if n < 100 {
        "00"@ + decimal(n)
    } else if n < 1000 {
        "0"@ + decimal(n)
    } else {
        decimal(n)
    }
}

/// A year as the log writes it: four digits with leading zeros for years 0
/// to 9999; any other year has a sign (`-` or `+`) before its four or more
/// digits.
pub open spec fn year_text(y: int) -> Seq<char> {
    if 0 <= y <= 9999 {
        four_digits(y as nat)
    } else if y < 0 {
        "-"@ + four_digits((-y) as nat)
    } else {
        "+"@ + four_digits(y as nat)
    }
}

/// The time stamp of a log line: `year/month/day hour:minute:second`, each
/// part but the year on two digits.
pub open spec fn timestamp_text(t: LocalTime) -> Seq<char> {
    year_text(t.year as int) + "/"@ + two_digits(t.month as nat) + "/"@ + two_digits(t.day as nat)
        + " "@ + two_digits(t.hour as nat) + ":"@ + two_digits(t.minute as nat) + ":"@
        + two_digits(t.second as nat)
}

fn push_two_digits(s: &mut String, n: u32)
    ensures
        final(s)@ == old(s)@ + two_digits(n as nat),
{
    if n < 10 {
        s.append("0");
    }
    push_decimal(s, n as u64);
}

fn push_four_digits(s: &mut String, n: u64)
    ensures
        final(s)@ == old(s)@ + four_digits(n as nat),
{
    if n < 10 {
        s.append("000");
    } else if n < 100 {
        s.append("00");
    } else if n < 1000 {
        s.append("0");
    }
    push_decimal(s, n);
}

/// Appends the time stamp of `t` to `s`.
fn push_timestamp(s: &mut String, t: &LocalTime)
    ensures
        final(s)@ == old(s)@ + timestamp_text(*t),
{
    let y: i64 = t.year as i64;
    if 0 <= y && y <= 9999 {
        push_four_digits(s, y as u64);
    } else if y < 0 {
        s.append("-");
        push_four_digits(s, (-y) as u64);
    } else {
        s.append("+");
        push_four_digits(s, y as u64);
    }
    s.append("/");
    push_two_digits(s, t.month);
    s.append("/");
    push_two_digits(s, t.day);
    s.append(" ");
    push_two_digits(s, t.hour);
    s.append(":");
    push_two_digits(s, t.minute);
    s.append(":");
    push_two_digits(s, t.second);
}

/// The time stamp of a log line for `t` (see `timestamp_text`).
pub fn format_time(t: &LocalTime) -> (text: String)
    ensures
        text@ == timestamp_text(*t),
{
    let mut text = String::new();
    push_timestamp(&mut text, t);
    text
}

/// A leading zero does not change what a digit string denotes.
proof fn lemma_leading_zero(x: Seq<char>)
    ensures
        digits_value(seq!['0'] + x) == digits_value(x),
    decreases x.len(),
{
    let z = seq!['0'] + x;
    if x.len() == 0 {
        assert(z.drop_last() =~= Seq::<char>::empty());
        assert(digits_value(Seq::<char>::empty()) == 0);
        assert(digits_value(z) == digits_value(z.drop_last()) * 10 + 0);
    } else {
        lemma_leading_zero(x.drop_last());
        assert(z.drop_last() =~= seq!['0'] + x.drop_last());
        assert(z.last() == x.last());
        assert(digits_value(z) == digits_value(z.drop_last()) * 10 + crate::text::char_value(
            z.last(),
        ));
        assert(digits_value(x) == digits_value(x.drop_last()) * 10 + crate::text::char_value(
            x.last(),
        ));
    }
}

/// How many digits `decimal(n)` has, for numbers below ten thousand.
proof fn lemma_decimal_len(n: nat)
    ensures
        n < 10 ==> decimal(n).len() == 1,
        10 <= n < 100 ==> decimal(n).len() == 2,
        100 <= n < 1000 ==> decimal(n).len() == 3,
        1000 <= n < 10000 ==> decimal(n).len() == 4,
    decreases n,
{
    if n >= 10 {
        lemma_decimal_len(n / 10);
        assert(decimal(n).len() == decimal(n / 10).len() + 1);
    }
}

/// Pads of zeros in front of a digit string keep it a digit string of the
/// same value.
proof fn lemma_zero_pad(k: nat, x: Seq<char>)
    requires
        forall|i: int| 0 <= i < x.len() ==> is_digit(#[trigger] x[i]),
    ensures
        ({
            let p = Seq::new(k, |i: int| '0') + x;
            &&& p.len() == k + x.len()
            &&& digits_value(p) == digits_value(x)
            &&& forall|i: int| 0 <= i < p.len() ==> is_digit(#[trigger] p[i])
        }),
    decreases k,
{
    let p = Seq::new(k, |i: int| '0') + x;
    if k > 0 {
        lemma_zero_pad((k - 1) as nat, x);
        let q = Seq::new((k - 1) as nat, |i: int| '0') + x;
        assert(p =~= seq!['0'] + q);
        lemma_leading_zero(q);
        assert forall|i: int| 0 <= i < p.len() implies is_digit(#[trigger] p[i]) by {
            if i > 0 {
                assert(p[i] == q[i - 1]);
            }
        }
    } else {
        assert(p =~= x);
    }
}

/// A number below 100 is written on exactly two digits that read back as it.
pub proof fn law_two_digits(n: nat)
    requires
        n < 100,
    ensures
        two_digits(n).len() == 2,
        forall|i: int| 0 <= i < 2 ==> is_digit(#[trigger] two_digits(n)[i]),
        digits_value(two_digits(n)) == n,
{
    law_decimal_digits(n);
    law_decimal_reads_back(n);
    lemma_decimal_len(n);
    reveal_strlit("0");
    if n < 10 {
        lemma_zero_pad(1, decimal(n));
        assert("0"@ =~= Seq::new(1, |i: int| '0'));
    }
}

/// A number below 10000 is written on exactly four digits that read back as
/// it.
pub proof fn law_four_digits(n: nat)
    requires
        n < 10000,
    ensures
        four_digits(n).len() == 4,
        forall|i: int| 0 <= i < 4 ==> is_digit(#[trigger] four_digits(n)[i]),
        digits_value(four_digits(n)) == n,
{
    law_decimal_digits(n);
    law_decimal_reads_back(n);
    lemma_decimal_len(n);
    reveal_strlit("0");
    reveal_strlit("00");
    reveal_strlit("000");
    if n < 10 {
        lemma_zero_pad(3, decimal(n));
        assert("000"@ =~= Seq::new(3, |i: int| '0'));
    } else if n < 100 {
        lemma_zero_pad(2, decimal(n));
        assert("00"@ =~= Seq::new(2, |i: int| '0'));
    } else if n < 1000 {
        lemma_zero_pad(1, decimal(n));
        assert("0"@ =~= Seq::new(1, |i: int| '0'));
    }
}

/// The layout of a time stamp for a year from 0 to 9999 and parts below 100:
/// 19 characters, `YYYY/MM/DD HH:MM:SS`, where each field reads back as the
/// corresponding part of `t`.
pub proof fn law_timestamp_layout(t: LocalTime)
    requires
        0 <= t.year <= 9999,
        t.month < 100,
        t.day < 100,
        t.hour < 100,
        t.minute < 100,
        t.second < 100,
    ensures
        ({
            let s = timestamp_text(t);
            &&& s.len() == 19
            &&& s[4] == '/' && s[7] == '/' && s[10] == ' ' && s[13] == ':' && s[16] == ':'
            &&& digits_value(s.subrange(0, 4)) == t.year
            &&& digits_value(s.subrange(5, 7)) == t.month
            &&& digits_value(s.subrange(8, 10)) == t.day
            &&& digits_value(s.subrange(11, 13)) == t.hour
            &&& digits_value(s.subrange(14, 16)) == t.minute
            &&& digits_value(s.subrange(17, 19)) == t.second
        }),
{
    law_four_digits(t.year as nat);
    law_two_digits(t.month as nat);
    law_two_digits(t.day as nat);
    law_two_digits(t.hour as nat);
    law_two_digits(t.minute as nat);
    law_two_digits(t.second as nat);
    reveal_strlit("/");
    reveal_strlit(" ");
    reveal_strlit(":");
    let y = four_digits(t.year as nat);
    let mo = two_digits(t.month as nat);
    let d = two_digits(t.day as nat);
    let h = two_digits(t.hour as nat);
    let mi = two_digits(t.minute as nat);
    let se = two_digits(t.second as nat);
    let s = timestamp_text(t);
    assert(s =~= y + "/"@ + mo + "/"@ + d + " "@ + h + ":"@ + mi + ":"@ + se);
    assert(s.subrange(0, 4) =~= y);
    assert(s.subrange(5, 7) =~= mo);
    assert(s.subrange(8, 10) =~= d);
    assert(s.subrange(11, 13) =~= h);
    assert(s.subrange(14, 16) =~= mi);
    assert(s.subrange(17, 19) =~= se);
}

/// The log line written when the server has started, at time `time`.
pub open spec fn liftoff_line(time: Seq<char>) -> Seq<char> {
    time + " - Server started successfully\n"@
}

/// The log line written when the server shuts down, at time `time`.
pub open spec fn shutdown_line(time: Seq<char>) -> Seq<char> {
    time + " - Server shutting down\n"@
}

/// The log line for the server start at local time `time`.
pub fn liftoff_message(time: &LocalTime) -> (line: String)
    ensures
        line@ == liftoff_line(timestamp_text(*time)),
{
    let mut line = format_time(time);
    line.append(" - Server started successfully\n");
    line
}

/// The log line for the server shutdown at local time `time`.
pub fn shutdown_message(time: &LocalTime) -> (line: String)
    ensures
        line@ == shutdown_line(timestamp_text(*time)),
{
    let mut line = format_time(time);
    line.append(" - Server shutting down\n");
    line
}

/// What the response log line reports of one handled request.
pub struct ResponseSummary {
    /// The request method, such as `GET`.
    pub method: String,
    /// The `X-USER-NAME` header, if the request has one.
    pub user_name: Option<String>,
    /// The client's IP address, if known.
    pub ip: Option<String>,
    /// The request URI.
    pub uri: String,
    /// The status code of the response.
    pub status: u16,
    /// The `X-API-KEY` header, if the request has one.
    pub api_key: Option<String>,
    /// The `X-Response-Time` header of the response, if set.
    pub response_time: Option<String>,
}

/// The text of `o`, or `default` when there is none.
pub open spec fn text_or(o: Option<String>, default: Seq<char>) -> Seq<char> {
    match o {
        Some(s) => s@,
        None => default,
    }
}

/// The log line for a handled request at time `time`. A 401 response is
/// reported as an invalid API key, with the key that was sent; any other
/// status as a valid one.
pub open spec fn response_line(time: Seq<char>, r: ResponseSummary) -> Seq<char> {
    time + " - "@ + r.method@ + " Request received from user "@ + text_or(
        r.user_name,
        "No user name"@,
    ) + " ip: "@ + text_or(r.ip, "Unknown IP"@) + " to uri \""@ + r.uri@ + "\""@ + (if r.status
        == 401 {
        " - Invalid API key : "@ + text_or(r.api_key, "No API key provided"@)
    } else {
        " - Valid API key"@
    }) + " - Status "@ + decimal(r.status as nat) + " - Response time : "@ + text_or(
        r.response_time,
        "Unknown"@,
    ) + "\n"@
}

fn append_or(line: &mut String, o: &Option<String>, default: &str)
    ensures
        final(line)@ == old(line)@ + text_or(*o, default@),
{
    match o {
        Some(s) => line.append(s.as_str()),
        None => line.append(default),
    }
}

/// The log line for a handled request answered at local time `time`.
pub fn response_message(time: &LocalTime, r: &ResponseSummary) -> (line: String)
    ensures
        line@ == response_line(timestamp_text(*time), *r),
{
    let mut line = format_time(time);
    line.append(" - ");
    line.append(r.method.as_str());
    line.append(" Request received from user ");
    append_or(&mut line, &r.user_name, "No user name");
    line.append(" ip: ");
    append_or(&mut line, &r.ip, "Unknown IP");
    line.append(" to uri \"");
    line.append(r.uri.as_str());
    line.append("\"");
    if r.status == 401 {
        line.append(" - Invalid API key : ");
        append_or(&mut line, &r.api_key, "No API key provided");
    } else {
        line.append(" - Valid API key");
    }
    line.append(" - Status ");
    push_decimal(&mut line, r.status as u64);
    line.append(" - Response time : ");
    append_or(&mut line, &r.response_time, "Unknown");
    line.append("\n");
    line
}

/// A response other than 401 is logged as a valid key and the key itself
/// stays out of the log: two summaries that differ only in the `X-API-KEY`
/// header give the same line, and that line reports the status after
/// " - Valid API key".
pub proof fn law_valid_response_hides_key(time: Seq<char>, r1: ResponseSummary, r2: ResponseSummary)
    requires
        r1.status != 401,
        r1.method == r2.method,
        r1.user_name == r2.user_name,
        r1.ip == r2.ip,
        r1.uri == r2.uri,
        r1.status == r2.status,
        r1.response_time == r2.response_time,
    ensures
        response_line(time, r1) == response_line(time, r2),
        exists|a: Seq<char>, b: Seq<char>|
            response_line(time, r1) == a + " - Valid API key - Status "@ + decimal(
                r1.status as nat,
            ) + b,
{
    let a = time + " - "@ + r1.method@ + " Request received from user "@ + text_or(
        r1.user_name,
        "No user name"@,
    ) + " ip: "@ + text_or(r1.ip, "Unknown IP"@) + " to uri \""@ + r1.uri@ + "\""@;
    let b = " - Response time : "@ + text_or(r1.response_time, "Unknown"@) + "\n"@;
    reveal_strlit(" - Valid API key");
    reveal_strlit(" - Status ");
    reveal_strlit(" - Valid API key - Status ");
    assert(" - Valid API key - Status "@ =~= " - Valid API key"@ + " - Status "@);
    assert(response_line(time, r1) =~= a + " - Valid API key - Status "@ + decimal(
        r1.status as nat,
    ) + b);
}

/// A 401 response is logged as an invalid key, with the key that was sent
/// (or "No API key provided"), followed by the status.
pub proof fn law_unauthorized_response_shows_key(time: Seq<char>, r: ResponseSummary)
    requires
        r.status == 401,
    ensures
        exists|a: Seq<char>, b: Seq<char>|
            response_line(time, r) == a + " - Invalid API key : "@ + text_or(
                r.api_key,
                "No API key provided"@,
            ) + " - Status 401"@ + b,
{
    let a = time + " - "@ + r.method@ + " Request received from user "@ + text_or(
        r.user_name,
        "No user name"@,
    ) + " ip: "@ + text_or(r.ip, "Unknown IP"@) + " to uri \""@ + r.uri@ + "\""@;
    let b = " - Response time : "@ + text_or(r.response_time, "Unknown"@) + "\n"@;
    reveal_strlit(" - Status ");
    reveal_strlit(" - Status 401");
    reveal_with_fuel(decimal, 4);
    assert(decimal(401) =~= seq!['4', '0', '1']);
    assert(" - Status 401"@ =~= " - Status "@ + decimal(401));
    assert(response_line(time, r) =~= a + " - Invalid API key : "@ + text_or(
        r.api_key,
        "No API key provided"@,
    ) + " - Status 401"@ + b);
}

} // verus!
