//! NTP messages and the clock offset and round-trip delay computed from an exchange.
use byteorder::{BigEndian, ReadBytesExt};
use vstd::prelude::*;
use vstd::string::StringExecFns;

verus! {

/// The length in bytes of an NTP message.
pub const NTP_MESSAGE_LENGTH: usize = 48;

/// Seconds from the NTP epoch (1900-01-01) to the Unix epoch (1970-01-01).
pub const NTP_TO_UNIX_SECONDS: i64 = 2_208_988_800;

/// The first second that a UTC date-time of `chrono` can hold, as a Unix timestamp.
pub const MIN_UTC_SECS: i64 = -8_334_601_315_200;

/// The last second that a UTC date-time of `chrono` can hold, as a Unix timestamp.
pub const MAX_UTC_SECS: i64 = 8_210_266_876_799;

#[verifier::external_type_specification]
#[verifier::external_body]
pub struct ExIoError(std::io::Error);

/// An NTP timestamp: seconds since 1900 and a binary fraction of a second.
#[derive(Debug, Clone, Copy, PartialEq, Eq, Structural)]
pub struct NTPTimestamp {
    pub seconds: u32,
    pub fraction: u32,
}

/// An instant in UTC: whole seconds since the Unix epoch and nanoseconds into that second.
#[derive(Debug, Clone, Copy, PartialEq, Eq, Structural)]
pub struct UtcTime {
    pub secs: i64,
    pub nanos: u32,
}

/// The timestamps of one NTP exchange: request sent (`t1`, local clock), request
/// received (`t2`, server), reply sent (`t3`, server), reply received (`t4`, local).
#[derive(Debug, Clone, Copy)]
pub struct NTPResult {
    pub t1: UtcTime,
    pub t2: UtcTime,
    pub t3: UtcTime,
    pub t4: UtcTime,
}

/// An NTP message as it goes over the wire.
pub struct NTPMessage {
    pub data: [u8; NTP_MESSAGE_LENGTH],
}

impl UtcTime {
    /// An instant that a `chrono` UTC date-time can hold: nanoseconds from one
    /// billion on mark a leap second, which only the 59th second of a minute has.
    pub open spec fn wf(self) -> bool {
        &&& MIN_UTC_SECS <= self.secs <= MAX_UTC_SECS
        &&& self.nanos < 2_000_000_000
        &&& self.nanos >= 1_000_000_000 ==> self.second_of_day() % 60 == 59
    }

    /// The day since the Unix epoch that the instant falls on.
    pub open spec fn day(self) -> int {
        (self.secs as int) / 86_400
    }

    /// The second within its day.
    pub open spec fn second_of_day(self) -> int {
        (self.secs as int) % 86_400
    }
}

/// `a - b` in nanoseconds, as `chrono` subtracts UTC date-times: the days apart,
/// the seconds of the day apart (counting the leap second that the later one has
/// passed), and the nanoseconds apart.
pub open spec fn nanos_between(a: UtcTime, b: UtcTime) -> int {
    let sa = a.second_of_day();
    let sb = b.second_of_day();
    let leap = if sa > sb && b.nanos >= 1_000_000_000 {
        1
    } else if sa < sb && a.nanos >= 1_000_000_000 {
        -1int
    } else {
        0
    };
    ((a.day() - b.day()) * 86_400 + (sa - sb) + leap) * 1_000_000_000 + (a.nanos - b.nanos)
}

/// Integer division that rounds toward zero, as Rust's `/` does on signed integers.
pub open spec fn div_toward_zero(a: int, b: int) -> int
    recommends
        b > 0,
{
    if a >= 0 {
        a / b
    } else {
        -((-a) / b)
    }
}

/// Whole milliseconds in a span of `nanos` nanoseconds, rounded toward zero.
pub open spec fn millis_of(nanos: int) -> int {
    div_toward_zero(nanos, 1_000_000)
}

impl NTPResult {
    /// All four instants are well formed.
    pub open spec fn wf(self) -> bool {
        self.t1.wf() && self.t2.wf() && self.t3.wf() && self.t4.wf()
    }

    /// The clock offset: half the whole milliseconds of `(t2 - t1) + (t4 - t3)`,
    /// each step rounded toward zero.
    pub open spec fn spec_offset(self) -> int {
        div_toward_zero(
            millis_of(
                nanos_between(self.t2, self.t1) + nanos_between(self.t4, self.t3),
            ),
            2,
        )
    }

    /// The round-trip delay: the whole milliseconds of `(t4 - t1) - (t3 - t2)`.
    pub open spec fn spec_delay(self) -> int {
        millis_of(
            nanos_between(self.t4, self.t1) - nanos_between(self.t3, self.t2),
        )
    }

    /// The clock offset in milliseconds.
    pub fn offset(&self) -> (ms: i64)
        requires
            self.wf(),
        ensures
            ms == self.spec_offset(),
    {
        let span = span_nanos(self.t2, self.t1) + span_nanos(self.t4, self.t3);
        let ms = millis_toward_zero(span);
        if ms >= 0 {
            ms / 2
        } else {
            -((-ms) / 2)
        }
    }

    /// The round-trip delay in milliseconds.
    pub fn delay(&self) -> (ms: i64)
        requires
            self.wf(),
        ensures
            ms == self.spec_delay(),
    {
        let span = span_nanos(self.t4, self.t1) - span_nanos(self.t3, self.t2);
        millis_toward_zero(span)
    }
}

/// The day and the second within the day of a timestamp.
fn split_day(secs: i64) -> (r: (i64, i64))
    requires
        MIN_UTC_SECS <= secs <= MAX_UTC_SECS,
    ensures
        r.0 == (secs as int) / 86_400,
        r.1 == (secs as int) % 86_400,
        (MIN_UTC_SECS as int) / 86_400 <= r.0 <= (MAX_UTC_SECS as int) / 86_400,
{
    if secs >= 0 {
        let day = secs / 86_400;
        let second = secs % 86_400;
        proof {
            vstd::arithmetic::div_mod::lemma_fundamental_div_mod_converse(
                secs as int,
                86_400,
                day as int,
                second as int,
            );
            vstd::arithmetic::div_mod::lemma_div_is_ordered(secs as int, MAX_UTC_SECS as int, 86_400);
        }
        (day, second)
    } else {
        let q = (-(secs + 1)) / 86_400;
        let day = -q - 1;
        let second = secs + (q + 1) * 86_400;
        proof {
            let n = -(secs + 1);
            assert(n == q * 86_400 + n % 86_400) by {
                vstd::arithmetic::div_mod::lemma_fundamental_div_mod(n as int, 86_400);
            }
            assert(0 <= n % 86_400 < 86_400) by {
                vstd::arithmetic::div_mod::lemma_mod_bound(n as int, 86_400);
            }
            assert(second == 86_400 - 1 - n % 86_400);
            vstd::arithmetic::div_mod::lemma_fundamental_div_mod_converse(
                secs as int,
                86_400,
                day as int,
                second as int,
            );
            vstd::arithmetic::div_mod::lemma_div_is_ordered(MIN_UTC_SECS as int, secs as int, 86_400);
        }
        (day, second)
    }
}

/// `a - b` in nanoseconds, as `chrono` computes it.
fn span_nanos(a: UtcTime, b: UtcTime) -> (n: i128)
    requires
        a.wf(),
        b.wf(),
    ensures
        n == nanos_between(a, b),
        -16_600_000_000_000_000_000_000 <= n <= 16_600_000_000_000_000_000_000,
{
    let (day_a, sec_a) = split_day(a.secs);
    let (day_b, sec_b) = split_day(b.secs);
    let leap: i128 = if sec_a > sec_b && b.nanos >= 1_000_000_000 {
        1
    } else if sec_a < sec_b && a.nanos >= 1_000_000_000 {
        -1
    } else {
        0
    };
    let days = (day_a as i128) - (day_b as i128);
    assert(-192_000_000 <= days <= 192_000_000);
    let secs = days * 86_400 + ((sec_a as i128) - (sec_b as i128)) + leap;
    assert(-16_590_000_000_000 <= secs <= 16_590_000_000_000);
    secs * 1_000_000_000 + ((a.nanos as i128) - (b.nanos as i128))
}

fn millis_toward_zero(span: i128) -> (ms: i64)
    requires
        -40_000_000_000_000_000_000_000 <= span <= 40_000_000_000_000_000_000_000,
    ensures
        ms == millis_of(span as int),
{
    if span >= 0 {
        (span / 1_000_000) as i64
    } else {
        -(((-span) / 1_000_000) as i64)
    }
}

/// The value of four bytes read as a big-endian unsigned integer.
pub open spec fn be_u32(b: Seq<u8>) -> int {
    b[0] * 16_777_216 + b[1] * 65_536 + b[2] * 256 + b[3]
}

/// Calls `byteorder::ReadBytesExt::read_u32::<BigEndian>` on `bytes`. Claimed:
/// with at least four bytes it returns the first four read as a big-endian
/// number; with fewer it returns an error (that of `Read::read_exact`).
#[verifier::external_body]
fn read_u32_big_endian(bytes: &[u8]) -> (r: Result<u32, std::io::Error>)
    ensures
        bytes@.len() >= 4 ==> r is Ok && r.unwrap() == be_u32(bytes@),
        bytes@.len() < 4 ==> r is Err,
{
    let mut reader = bytes;
    reader.read_u32::<BigEndian>()
}

impl NTPTimestamp {
    /// Whole seconds since the Unix epoch of this timestamp.
    pub fn unix_seconds(&self) -> (secs: i64)
        ensures
            secs == self.seconds - NTP_TO_UNIX_SECONDS,
    {
        self.seconds as i64 - NTP_TO_UNIX_SECONDS
    }

    /// The timestamp for `secs` seconds after the Unix epoch and the given
    /// fraction; the seconds since 1900 are kept modulo 2^32, as NTP does.
    pub fn from_unix_seconds(secs: i64, fraction: u32) -> (ts: NTPTimestamp)
        requires
            MIN_UTC_SECS <= secs <= MAX_UTC_SECS,
        ensures
            ts.seconds == (secs + NTP_TO_UNIX_SECONDS) as u32,
            ts.fraction == fraction,
    {
        let ntp_secs = secs + NTP_TO_UNIX_SECONDS;
        NTPTimestamp { seconds: ntp_secs as u32, fraction }
    }
}

impl NTPMessage {
    /// A message of zero bytes.
    pub fn new() -> (msg: NTPMessage)
        ensures
            forall|i: int| 0 <= i < 48 ==> msg.data[i] == 0,
    {
        NTPMessage { data: [0u8; NTP_MESSAGE_LENGTH] }
    }

    /// A client request: protocol version 3, mode 3 (client), all else zero.
    pub fn client() -> (msg: NTPMessage)
        ensures
            msg.data[0] == 0b00_011_011u8,
            forall|i: int| 1 <= i < 48 ==> msg.data[i] == 0,
    {
        let version: u8 = 0b00_011_000;
        let mode: u8 = 0b00_000_011;
        let mut msg = NTPMessage::new();
        msg.data[0] |= version;
        msg.data[0] |= mode;
        assert(msg.data[0] == 0b00_011_011u8) by {
            assert((0u8 | 0b00_011_000u8) | 0b00_000_011u8 == 0b00_011_011u8) by (bit_vector);
        }
        msg
    }

    /// The timestamp stored in the eight bytes at offset `i`: seconds then fraction,
    /// both big-endian.
    pub fn parse_timestamp(&self, i: usize) -> (ts: Result<NTPTimestamp, std::io::Error>)
        requires
            i + 8 <= 48,
        ensures
            ts matches Ok(t) && t.seconds == be_u32(self.data@.subrange(i as int, i + 4))
                && t.fraction == be_u32(self.data@.subrange(i + 4, i + 8)),
    {
        let bytes = self.data.as_slice();
        let seconds = read_u32_big_endian(vstd::slice::slice_subrange(bytes, i, i + 4))?;
        let fraction = read_u32_big_endian(vstd::slice::slice_subrange(bytes, i + 4, i + 8))?;
        Ok(NTPTimestamp { seconds, fraction })
    }

    /// The server's receive timestamp (bytes 32 to 39).
    pub fn rx_time(&self) -> (ts: Result<NTPTimestamp, std::io::Error>)
        ensures
            ts matches Ok(t) && t.seconds == be_u32(self.data@.subrange(32, 36)) && t.fraction
                == be_u32(self.data@.subrange(36, 40)),
    {
        self.parse_timestamp(32)
    }

    /// The server's transmit timestamp (bytes 40 to 47).
    pub fn tx_time(&self) -> (ts: Result<NTPTimestamp, std::io::Error>)
        ensures
            ts matches Ok(t) && t.seconds == be_u32(self.data@.subrange(40, 44)) && t.fraction
                == be_u32(self.data@.subrange(44, 48)),
    {
        self.parse_timestamp(40)
    }
}

/// The text forms of a date-time that the clock reads and writes.
#[derive(Debug, Clone, Copy, PartialEq, Eq, Structural)]
pub enum TimeFormat {
    /// Seconds since the Unix epoch.
    Timestamp,
    /// As in RFC 2822, e.g. `Wed, 18 Feb 2015 23:16:09 +0000`.
    Rfc2822,
    /// As in RFC 3339, e.g. `1996-12-19T16:39:57-08:00`.
    Rfc3339,
}

/// The format named `timestamp`, `rfc2822` or `rfc3339`; `None` for any other name.
pub fn time_format(name: &str) -> (f: Option<TimeFormat>)
    ensures
        name@ == "timestamp"@ ==> f == Some(TimeFormat::Timestamp),
        name@ == "rfc2822"@ ==> f == Some(TimeFormat::Rfc2822),
        name@ == "rfc3339"@ ==> f == Some(TimeFormat::Rfc3339),
        name@ != "timestamp"@ && name@ != "rfc2822"@ && name@ != "rfc3339"@ ==> f is None,
{
    proof {
        reveal_strlit("timestamp");
        reveal_strlit("rfc2822");
        reveal_strlit("rfc3339");
        assert("timestamp"@.len() == 9 && "rfc2822"@.len() == 7 && "rfc3339"@.len() == 7);
        assert("rfc2822"@[3] != "rfc3339"@[3]);
    }
    let name = name.to_string();
    if name == String::from_str("timestamp") {
        Some(TimeFormat::Timestamp)
    } else if name == String::from_str("rfc2822") {
        Some(TimeFormat::Rfc2822)
    } else if name == String::from_str("rfc3339") {
        Some(TimeFormat::Rfc3339)
    } else {
        None
    }
}

/// The instant (Unix seconds and nanoseconds) that `chrono` reads from the RFC 3339
/// text `text`, whatever its UTC offset; `None` when it does not parse.
pub uninterp spec fn rfc3339_instant(text: Seq<char>) -> Option<(i64, u32)>;

/// The instant (Unix seconds and nanoseconds) that `chrono` reads from the RFC 2822
/// text `text`, whatever its UTC offset; `None` when it does not parse.
pub uninterp spec fn rfc2822_instant(text: Seq<char>) -> Option<(i64, u32)>;

/// Calls `chrono::DateTime::parse_from_rfc3339` and takes the instant of the
/// result (`timestamp`, `timestamp_subsec_nanos`). Claimed: the outcome is
/// `rfc3339_instant(text)`.
#[verifier::external_body]
fn parse_rfc3339(text: &str) -> (r: Option<UtcTime>)
    ensures
        r is Some <==> rfc3339_instant(text@) is Some,
        r matches Some(t) ==> rfc3339_instant(text@) == Some((t.secs, t.nanos)),
{
    match chrono::DateTime::parse_from_rfc3339(text) {
        Ok(dt) => Some(UtcTime { secs: dt.timestamp(), nanos: dt.timestamp_subsec_nanos() }),
        Err(_) => None,
    }
}

/// Calls `chrono::DateTime::parse_from_rfc2822` and takes the instant of the
/// result (`timestamp`, `timestamp_subsec_nanos`). Claimed: the outcome is
/// `rfc2822_instant(text)`.
#[verifier::external_body]
fn parse_rfc2822(text: &str) -> (r: Option<UtcTime>)
    ensures
        r is Some <==> rfc2822_instant(text@) is Some,
        r matches Some(t) ==> rfc2822_instant(text@) == Some((t.secs, t.nanos)),
{
    match chrono::DateTime::parse_from_rfc2822(text) {
        Ok(dt) => Some(UtcTime { secs: dt.timestamp(), nanos: dt.timestamp_subsec_nanos() }),
        Err(_) => None,
    }
}

/// The instant that the clock is to be set to, read from `datetime` in `format`
/// (RFC 3339 or RFC 2822); `None` when the text does not parse.
pub fn set_time_instant(format: TimeFormat, datetime: &str) -> (r: Option<UtcTime>)
    requires
        format != TimeFormat::Timestamp,
    ensures
        format == TimeFormat::Rfc3339 ==> (r is Some <==> rfc3339_instant(datetime@) is Some),
        format == TimeFormat::Rfc3339 ==> (r matches Some(t) ==> rfc3339_instant(datetime@)
            == Some((t.secs, t.nanos))),
        format == TimeFormat::Rfc2822 ==> (r is Some <==> rfc2822_instant(datetime@) is Some),
        format == TimeFormat::Rfc2822 ==> (r matches Some(t) ==> rfc2822_instant(datetime@)
            == Some((t.secs, t.nanos))),
{
    match format {
        TimeFormat::Rfc3339 => parse_rfc3339(datetime),
        TimeFormat::Rfc2822 => parse_rfc2822(datetime),
        TimeFormat::Timestamp => None,
    }
}

/// The character of a decimal digit.
pub open spec fn digit_char(d: nat) -> char {
    if d == 0 {
        '0'
    } else if d == 1 {
        '1'
    } else if d == 2 {
        '2'
    } else if d == 3 {
        '3'
    } else if d == 4 {
        '4'
    } else if d == 5 {
        '5'
    } else if d == 6 {
        '6'
    } else if d == 7 {
        '7'
    } else if d == 8 {
        '8'
    } else {
        '9'
    }
}

/// The decimal digits of `n`, most significant first, without leading zeros.
pub open spec fn spec_digits(n: nat) -> Seq<char>
    decreases n,
{
    if n < 10 {
        seq![digit_char(n)]
    } else {
        spec_digits(n / 10).push(digit_char(n % 10))
    }
}

/// An integer written in decimal, with a leading `-` when it is negative.
pub open spec fn spec_decimal(n: int) -> Seq<char> {
    if n < 0 {
        seq!['-'] + spec_digits((-n) as nat)
    } else {
        spec_digits(n as nat)
    }
}

fn digit(d: u64) -> (c: char)
    requires
        d < 10,
    ensures
        c == digit_char(d as nat),
{
    if d == 0 {
        '0'
    } else if d == 1 {
        '1'
    } else if d == 2 {
        '2'
    } else if d == 3 {
        '3'
    } else if d == 4 {
        '4'
    } else if d == 5 {
        '5'
    } else if d == 6 {
        '6'
    } else if d == 7 {
        '7'
    } else if d == 8 {
        '8'
    } else {
        '9'
    }
}

fn push_digits(n: u64, s: &mut String)
    ensures
        final(s)@ == old(s)@ + spec_digits(n as nat),
    decreases n,
{
    if n >= 10 {
        push_digits(n / 10, s);
    }
    crate::lines::push_char(s, digit(n % 10));
    proof {
        if n < 10 {
            assert(n % 10 == n);
        }
    }
    assert(s@ =~= old(s)@ + spec_digits(n as nat));
}

/// `n` written in decimal, as `i64`'s `Display` writes it.
pub fn decimal_text(n: i64) -> (r: String)
    ensures
        r@ == spec_decimal(n as int),
{
    let mut s = String::new();
    if n < 0 {
        crate::lines::push_char(&mut s, '-');
        let size: u64 = (-(n as i128)) as u64;
        push_digits(size, &mut s);
    } else {
        push_digits(n as u64, &mut s);
    }
    s
}

/// The first Unix second of the year 0: RFC 2822 writes only the years 0 to 9999.
pub const RFC2822_FIRST_SECS: i64 = -62_167_219_200;

/// The first Unix second of the year 10000.
pub const RFC2822_END_SECS: i64 = 253_402_300_800;

/// The RFC 2822 text that `chrono` writes for the instant `(secs, nanos)` seen at
/// `offset` seconds east of UTC.
pub uninterp spec fn rfc2822_text(secs: i64, nanos: u32, offset: i32) -> Seq<char>;

/// The RFC 3339 text that `chrono` writes for the instant `(secs, nanos)` seen at
/// `offset` seconds east of UTC.
pub uninterp spec fn rfc3339_text(secs: i64, nanos: u32, offset: i32) -> Seq<char>;

/// Calls `chrono::DateTime::to_rfc2822` on the instant `t` (`DateTime::from_timestamp`)
/// taken to the fixed offset `offset` (`FixedOffset::east_opt`, `with_timezone`).
/// Claimed: the text is `rfc2822_text(t.secs, t.nanos, offset)`. `to_rfc2822`
/// panics on a local year outside 0..=9999, which `requires` leaves out.
#[verifier::external_body]
fn format_rfc2822(t: UtcTime, offset: i32) -> (r: String)
    requires
        t.wf(),
        -86_400 < offset < 86_400,
        RFC2822_FIRST_SECS <= t.secs + offset < RFC2822_END_SECS,
    ensures
        r@ == rfc2822_text(t.secs, t.nanos, offset),
{
    let zone = chrono::FixedOffset::east_opt(offset).unwrap();
    chrono::DateTime::from_timestamp(t.secs, t.nanos).unwrap().with_timezone(&zone).to_rfc2822()
}

/// Calls `chrono::DateTime::to_rfc3339` on the instant `t` (`DateTime::from_timestamp`)
/// taken to the fixed offset `offset` (`FixedOffset::east_opt`, `with_timezone`).
/// Claimed: the text is `rfc3339_text(t.secs, t.nanos, offset)`.
#[verifier::external_body]
fn format_rfc3339(t: UtcTime, offset: i32) -> (r: String)
    requires
        t.wf(),
        -86_400 < offset < 86_400,
    ensures
        r@ == rfc3339_text(t.secs, t.nanos, offset),
{
    let zone = chrono::FixedOffset::east_opt(offset).unwrap();
    chrono::DateTime::from_timestamp(t.secs, t.nanos).unwrap().with_timezone(&zone).to_rfc3339()
}

/// What the clock prints for the instant `t` in `format`, seen at `offset` seconds
/// east of UTC: the Unix timestamp in decimal, or the RFC 2822 or RFC 3339 text.
pub open spec fn spec_time_text(format: TimeFormat, t: UtcTime, offset: i32) -> Seq<char> {
    match format {
        TimeFormat::Timestamp => spec_decimal(t.secs as int),
        TimeFormat::Rfc2822 => rfc2822_text(t.secs, t.nanos, offset),
        TimeFormat::Rfc3339 => rfc3339_text(t.secs, t.nanos, offset),
    }
}

/// The text of the instant `t` in `format`, for a clock `offset` seconds east of UTC.
pub fn time_text(format: TimeFormat, t: UtcTime, offset: i32) -> (r: String)
    requires
        t.wf(),
        -86_400 < offset < 86_400,
        format == TimeFormat::Rfc2822 ==> RFC2822_FIRST_SECS <= t.secs + offset
            < RFC2822_END_SECS,
    ensures
        r@ == spec_time_text(format, t, offset),
{
    match format {
        TimeFormat::Timestamp => decimal_text(t.secs),
        TimeFormat::Rfc2822 => format_rfc2822(t, offset),
        TimeFormat::Rfc3339 => format_rfc3339(t, offset),
    }
}

/// The correction to apply to the local clock for a measured offset: the offset's
/// sign times its size capped at 200 ms, divided by 5 (rounded toward zero).
pub open spec fn spec_adjustment(offset: int) -> int {
    let size = if offset >= 0 {
        offset
    } else {
        -offset
    };
    let capped = if size <= 200 {
        size
    } else {
        200
    };
    if offset > 0 {
        capped / 5
    } else if offset < 0 {
        -(capped / 5)
    } else {
        0
    }
}

/// The correction in milliseconds for a measured clock offset (in milliseconds).
pub fn adjustment_ms(offset: isize) -> (adjust: isize)
    requires
        offset != isize::MIN,
    ensures
        adjust == spec_adjustment(offset as int),
        0 <= offset <= 200 ==> adjust == offset / 5,
        -200 <= offset < 0 ==> adjust == -((-offset) / 5),
        offset > 200 ==> adjust == 40,
        offset < -200 ==> adjust == -40,
{
    let size = if offset >= 0 {
        offset
    } else {
        -offset
    };
    let capped = if size <= 200 {
        size
    } else {
        200
    };
    let signed = if offset > 0 {
        capped
    } else if offset < 0 {
        -capped
    } else {
        0
    };
    if signed >= 0 {
        signed / 5
    } else {
        -((-signed) / 5)
    }
}

/// The correction is a fifth of the offset (rounded toward zero) while the offset
/// is within 200 ms either way, and 40 ms in the offset's direction beyond that.
pub proof fn lemma_adjustment_fifth(offset: int)
    ensures
        0 <= offset <= 200 ==> spec_adjustment(offset) == offset / 5,
        -200 <= offset < 0 ==> spec_adjustment(offset) == -((-offset) / 5),
        offset > 200 ==> spec_adjustment(offset) == 40,
        offset < -200 ==> spec_adjustment(offset) == -40,
{
}

/// A correction never exceeds 40 ms either way and never points away from the offset.
pub proof fn lemma_adjustment_bounded(offset: int)
    ensures
        -40 <= spec_adjustment(offset) <= 40,
        offset >= 0 ==> spec_adjustment(offset) >= 0,
        offset <= 0 ==> spec_adjustment(offset) <= 0,
{
}

/// The version number carried in the first byte of an NTP message.
pub open spec fn ntp_version(first: u8) -> u8 {
    (first >> 3u8) & 0b111u8
}

/// The mode carried in the first byte of an NTP message.
pub open spec fn ntp_mode(first: u8) -> u8 {
    first & 0b111u8
}

/// A client request announces NTP version 3 and the client mode (3).
pub proof fn lemma_client_header()
    ensures
        ntp_version(0b00_011_011u8) == 3,
        ntp_mode(0b00_011_011u8) == 3,
{
    assert(((0b00_011_011u8 >> 3u8) & 0b111u8) == 3u8) by (bit_vector);
    assert((0b00_011_011u8 & 0b111u8) == 3u8) by (bit_vector);
}

/// When the server holds the request no longer than the whole round trip took,
/// the round-trip delay is never negative.
pub proof fn lemma_delay_nonnegative(r: NTPResult)
    requires
        nanos_between(r.t3, r.t2) <= nanos_between(r.t4, r.t1),
    ensures
        r.spec_delay() >= 0,
{
}

/// When the two legs cancel, `t2 - t1 == -(t4 - t3)`, the offset is zero.
pub proof fn lemma_offset_balanced(r: NTPResult)
    requires
        nanos_between(r.t2, r.t1) == -nanos_between(r.t4, r.t3),
    ensures
        r.spec_offset() == 0,
{
}

} // verus!
