use vstd::prelude::*;
use crate::decimal::digit_char;
use crate::text::ascii_lowercase;

verus! {

/// The mathematical value of a zoned occurrence time.
pub struct ZonedTimeView {
    /// Nanoseconds since the Unix epoch.
    pub instant: int,
    /// The RFC 9557 text of the time, with its offset and time-zone annotation.
    pub text: Seq<char>,
    /// The IANA name of its time zone, where it has one.
    pub zone: Option<Seq<char>>,
}

/// A precise instant together with its original time zone, as read from its text form.
///
/// Two values compare by their instant alone.
#[derive(Debug)]
pub struct ZonedTime {
    instant: i128,
    text: String,
    zone: Option<String>,
}

/// A civil date and time without a time zone.
#[derive(Debug, Clone, Copy, PartialEq, Eq)]
pub struct CivilTime {
    pub year: i16,
    pub month: i8,
    pub day: i8,
    pub hour: i8,
    pub minute: i8,
    pub second: i8,
    pub subsec_nanosecond: i32,
}

/// A number as exactly `width` decimal digits, with leading zeros.
pub open spec fn padded_digits(value: nat, width: nat) -> Seq<char>
    decreases width,
{
    if width == 0 {
        Seq::empty()
    } else {
        padded_digits(value / 10, (width - 1) as nat).push(digit_char((value % 10) as int))
    }
}

/// The ISO 8601 text `YYYY-MM-DDTHH:MM:SS` of a civil time.
pub open spec fn civil_text(civil: CivilTime) -> Seq<char> {
    padded_digits(civil.year as nat, 4) + seq!['-'] + padded_digits(civil.month as nat, 2) + seq!['-']
        + padded_digits(civil.day as nat, 2) + seq!['T'] + padded_digits(civil.hour as nat, 2) + seq![':']
        + padded_digits(civil.minute as nat, 2) + seq![':'] + padded_digits(civil.second as nat, 2)
}

/// Whether a civil time is a whole second of a day that every month has, in years 1 to
/// 9999.
pub open spec fn plain_civil(civil: CivilTime) -> bool {
    &&& 1 <= civil.year <= 9999
    &&& 1 <= civil.month <= 12
    &&& 1 <= civil.day <= 28
    &&& 0 <= civil.hour < 24
    &&& 0 <= civil.minute < 60
    &&& 0 <= civil.second < 60
    &&& civil.subsec_nanosecond == 0
}

/// Days from 1970-01-01 to a date of the proleptic Gregorian calendar.
pub open spec fn days_from_civil(year: int, month: int, day: int) -> int {
    let y = if month <= 2 {
        year - 1
    } else {
        year
    };
    let era = y / 400;
    let year_of_era = y - era * 400;
    let shifted_month = if month > 2 {
        month - 3
    } else {
        month + 9
    };
    let day_of_year = (153 * shifted_month + 2) / 5 + day - 1;
    let day_of_era = year_of_era * 365 + year_of_era / 4 - year_of_era / 100 + day_of_year;
    era * 146097 + day_of_era - 719468
}

/// Nanoseconds from the Unix epoch to a civil time read as UTC.
pub open spec fn civil_utc_nanos(civil: CivilTime) -> int {
    (days_from_civil(civil.year as int, civil.month as int, civil.day as int) * 86400 + civil.hour * 3600
        + civil.minute * 60 + civil.second) * 1_000_000_000 + civil.subsec_nanosecond
}

/// The largest offset from UTC that a time zone can have, 25:59:59, in nanoseconds.
pub open spec fn max_offset_nanos() -> int {
    93599int * 1_000_000_000int
}

/// Whether an instant is a civil time in some time zone: it lies within the largest
/// offset of that civil time read as UTC.
pub open spec fn near_civil(instant: int, civil: CivilTime) -> bool {
    civil_utc_nanos(civil) - max_offset_nanos() <= instant <= civil_utc_nanos(civil) + max_offset_nanos()
}

/// The civil time whose text `YYYY-MM-DDTHH:MM:SS` a text is, where it is a plain one.
pub open spec fn plain_civil_text(text: Seq<char>) -> Option<CivilTime> {
    if exists|civil: CivilTime| #[trigger] plain_civil(civil) && text == civil_text(civil) {
        Some(choose|civil: CivilTime| #[trigger] plain_civil(civil) && text == civil_text(civil))
    } else {
        None
    }
}

/// Ten to the power `width`.
pub open spec fn ten_pow(width: nat) -> nat
    decreases width,
{
    if width == 0 {
        1
    } else {
        10 * ten_pow((width - 1) as nat)
    }
}

proof fn lemma_padded_len(value: nat, width: nat)
    ensures
        padded_digits(value, width).len() == width,
    decreases width,
{
    if width > 0 {
        lemma_padded_len(value / 10, (width - 1) as nat);
    }
}

proof fn lemma_padded_injective(a: nat, b: nat, width: nat)
    requires
        a < ten_pow(width),
        b < ten_pow(width),
        padded_digits(a, width) == padded_digits(b, width),
    ensures
        a == b,
    decreases width,
{
    if width > 0 {
        let rest = (width - 1) as nat;
        let pa = padded_digits(a, width);
        let pb = padded_digits(b, width);
        assert(pa.last() == digit_char((a % 10) as int));
        assert(pb.last() == digit_char((b % 10) as int));
        assert(pa.drop_last() =~= padded_digits(a / 10, rest));
        assert(pb.drop_last() =~= padded_digits(b / 10, rest));
        assert(a % 10 == b % 10);
        let t = ten_pow(rest);
        assert(a / 10 < t && b / 10 < t) by (nonlinear_arith)
            requires
                a < 10 * t,
                b < 10 * t,
        ;
        lemma_padded_injective(a / 10, b / 10, rest);
        assert(a == 10 * (a / 10) + a % 10);
        assert(b == 10 * (b / 10) + b % 10);
    }
}

proof fn lemma_civil_text_injective(a: CivilTime, b: CivilTime)
    requires
        plain_civil(a),
        plain_civil(b),
        civil_text(a) == civil_text(b),
    ensures
        a == b,
{
    reveal_with_fuel(ten_pow, 5);
    lemma_padded_len(a.year as nat, 4);
    lemma_padded_len(a.month as nat, 2);
    lemma_padded_len(a.day as nat, 2);
    lemma_padded_len(a.hour as nat, 2);
    lemma_padded_len(a.minute as nat, 2);
    lemma_padded_len(a.second as nat, 2);
    lemma_padded_len(b.year as nat, 4);
    lemma_padded_len(b.month as nat, 2);
    lemma_padded_len(b.day as nat, 2);
    lemma_padded_len(b.hour as nat, 2);
    lemma_padded_len(b.minute as nat, 2);
    lemma_padded_len(b.second as nat, 2);
    let ta = civil_text(a);
    let tb = civil_text(b);
    assert(ta.subrange(0, 4) =~= padded_digits(a.year as nat, 4));
    assert(tb.subrange(0, 4) =~= padded_digits(b.year as nat, 4));
    assert(ta.subrange(5, 7) =~= padded_digits(a.month as nat, 2));
    assert(tb.subrange(5, 7) =~= padded_digits(b.month as nat, 2));
    assert(ta.subrange(8, 10) =~= padded_digits(a.day as nat, 2));
    assert(tb.subrange(8, 10) =~= padded_digits(b.day as nat, 2));
    assert(ta.subrange(11, 13) =~= padded_digits(a.hour as nat, 2));
    assert(tb.subrange(11, 13) =~= padded_digits(b.hour as nat, 2));
    assert(ta.subrange(14, 16) =~= padded_digits(a.minute as nat, 2));
    assert(tb.subrange(14, 16) =~= padded_digits(b.minute as nat, 2));
    assert(ta.subrange(17, 19) =~= padded_digits(a.second as nat, 2));
    assert(tb.subrange(17, 19) =~= padded_digits(b.second as nat, 2));
    lemma_padded_injective(a.year as nat, b.year as nat, 4);
    lemma_padded_injective(a.month as nat, b.month as nat, 2);
    lemma_padded_injective(a.day as nat, b.day as nat, 2);
    lemma_padded_injective(a.hour as nat, b.hour as nat, 2);
    lemma_padded_injective(a.minute as nat, b.minute as nat, 2);
    lemma_padded_injective(a.second as nat, b.second as nat, 2);
}

/// A plain civil time's text is the plain text of that civil time.
pub proof fn lemma_plain_civil_text(civil: CivilTime)
    requires
        plain_civil(civil),
    ensures
        plain_civil_text(civil_text(civil)) == Some(civil),
{
    let text = civil_text(civil);
    assert(plain_civil(civil) && text == civil_text(civil));
    let chosen = choose|other: CivilTime| #[trigger] plain_civil(other) && text == civil_text(other);
    lemma_civil_text_injective(chosen, civil);
}

/// An offset from UTC in minutes, as `+HH:MM` or `-HH:MM`; a zero offset is `+00:00`.
pub open spec fn offset_text(minutes: int) -> Seq<char> {
    let magnitude = if minutes < 0 {
        -minutes
    } else {
        minutes
    };
    seq![if minutes < 0 {
        '-'
    } else {
        '+'
    }] + padded_digits((magnitude / 60) as nat, 2) + seq![':'] + padded_digits((magnitude % 60) as nat, 2)
}

/// Whether a civil time is a whole second with fields in their ranges, in years 0 to 9999.
pub open spec fn zoned_civil(civil: CivilTime) -> bool {
    &&& 0 <= civil.year <= 9999
    &&& 1 <= civil.month <= 12
    &&& 1 <= civil.day <= 31
    &&& 0 <= civil.hour < 24
    &&& 0 <= civil.minute < 60
    &&& 0 <= civil.second < 60
    &&& civil.subsec_nanosecond == 0
}

/// Whether a bracketed annotation names a time zone: it starts with an ASCII letter and
/// holds no bracket and no `=`.
pub open spec fn zone_annotation(zone: Seq<char>) -> bool {
    &&& zone.len() > 0
    &&& (('a' <= zone[0] && zone[0] <= 'z') || ('A' <= zone[0] && zone[0] <= 'Z'))
    &&& forall|i: int| 0 <= i < zone.len() ==> #[trigger] zone[i] != '[' && zone[i] != ']' && zone[i] != '='
}

/// The text `YYYY-MM-DDTHH:MM:SS+HH:MM[ZONE]` of a civil time, an offset in minutes and a
/// time-zone name.
pub open spec fn zoned_text(civil: CivilTime, offset_minutes: int, zone: Seq<char>) -> Seq<char> {
    civil_text(civil) + offset_text(offset_minutes) + seq!['['] + zone + seq![']']
}

/// The civil time, offset in minutes and time-zone name that a text writes, where it has
/// the shape `YYYY-MM-DDTHH:MM:SS+HH:MM[ZONE]`.
pub open spec fn zoned_text_parts(text: Seq<char>) -> Option<(CivilTime, int, Seq<char>)> {
    if exists|civil: CivilTime, offset: int, zone: Seq<char>|
        zoned_civil(civil) && -1559 <= offset <= 1559 && zone_annotation(zone) && text == #[trigger] zoned_text(
            civil,
            offset,
            zone,
        ) {
        Some(
            choose|civil: CivilTime, offset: int, zone: Seq<char>|
                zoned_civil(civil) && -1559 <= offset <= 1559 && zone_annotation(zone) && text
                    == #[trigger] zoned_text(civil, offset, zone),
        )
    } else {
        None
    }
}

/// Whether a time's zone is the named one: its IANA name equals the name up to ASCII
/// case. The name `Etc/Unknown` names the unknown zone, which has no IANA name.
pub open spec fn zone_is(zone: Option<Seq<char>>, name: Seq<char>) -> bool {
    ascii_lowercase(name) == "etc/unknown"@ || (zone matches Some(found) && ascii_lowercase(found)
        == ascii_lowercase(name))
}

/// The instant that a civil time and an offset in minutes write: the civil time read as
/// UTC, less the offset.
pub open spec fn written_instant(civil: CivilTime, offset_minutes: int) -> int {
    civil_utc_nanos(civil) - offset_minutes * 60_000_000_000
}

/// Whether a time is what a zoned text writes, where it has the shape
/// `YYYY-MM-DDTHH:MM:SS+HH:MM[ZONE]`: its instant is the written one, up to the seconds
/// by which the zone's true offset may differ from the whole minutes written (at most
/// 30), and its zone is the named one.
pub open spec fn reads_as_written(text: Seq<char>, time: ZonedTimeView) -> bool {
    match zoned_text_parts(text) {
        None => true,
        Some(parts) => {
            &&& written_instant(parts.0, parts.1) - 30_000_000_000 <= time.instant
            &&& time.instant <= written_instant(parts.0, parts.1) + 30_000_000_000
            &&& zone_is(time.zone, parts.2)
        },
    }
}

/// Whether a timestamp reading can be what parsing a text gave: a text without a
/// bracketed time zone is refused, and a time that was read is what the text writes.
pub open spec fn reading_of_text(text: Seq<char>, reading: TimeReading) -> bool {
    &&& !text.contains('[') ==> reading is Err
    &&& reading matches Ok(time) ==> reads_as_written(text, time)
}

/// Whether a time is a civil time in a named zone: it is within the largest offset of the
/// civil time read as UTC, and its zone is the named one.
pub open spec fn civil_in_zone(time: ZonedTimeView, civil: CivilTime, name: Seq<char>) -> bool {
    near_civil(time.instant, civil) && zone_is(time.zone, name)
}

/// What `jiff::civil::DateTime` parses a text as, by its fields.
pub uninterp spec fn civil_reading(text: Seq<char>) -> Option<CivilTime>;

/// What came of reading a timestamp: the time, or the reason it was refused.
pub type TimeReading = Result<ZonedTimeView, Seq<char>>;

/// The view of a timestamp reading.
pub open spec fn reading_view(reading: Result<ZonedTime, String>) -> TimeReading {
    match reading {
        Ok(time) => Ok(time@),
        Err(message) => Err(message@),
    }
}

pub open spec fn option_text_view(value: Option<String>) -> Option<Seq<char>> {
    match value {
        Some(text) => Some(text@),
        None => None,
    }
}

impl View for ZonedTime {
    type V = ZonedTimeView;

    closed spec fn view(&self) -> ZonedTimeView {
        ZonedTimeView {
            instant: self.instant as int,
            text: self.text@,
            zone: option_text_view(self.zone),
        }
    }
}

/// Calls `<jiff::Zoned as FromStr>::from_str` and reads the parsed value's instant in
/// nanoseconds, its display text and its IANA time-zone name. jiff requires a time-zone
/// annotation in square brackets, so a text without `[` is refused. Its default parser
/// refuses an offset that the zone does not have at that civil time (comparing a zone
/// offset with seconds to the written minutes after rounding it), and looks the zone up
/// without regard to ASCII case, so a text `YYYY-MM-DDTHH:MM:SS+HH:MM[ZONE]` that is read
/// gives the civil time less the offset, within 30 seconds, in that zone. Whether it is
/// read at all depends on the time-zone database on disk.
#[verifier::external_body]
fn parse_zoned_text(text: &str) -> (r: Result<ZonedTime, String>)
    ensures
        !text@.contains('[') ==> r is Err,
        r matches Ok(time) ==> reads_as_written(text@, time@),
{
    let zoned = text.parse::<jiff::Zoned>().map_err(|error| error.to_string())?;
    let zone = zoned.time_zone().iana_name().map(String::from);
    Ok(ZonedTime { instant: zoned.timestamp().as_nanosecond(), text: zoned.to_string(), zone })
}

/// Calls `<jiff::civil::DateTime as FromStr>::from_str` and reads the parsed value's
/// fields; the result depends on the text alone. A text `YYYY-MM-DDTHH:MM:SS` of a
/// second that every month has, in years 1 to 9999, reads as those fields.
#[verifier::external_body]
pub(crate) fn parse_civil_date_time(text: &str) -> (r: Result<CivilTime, String>)
    ensures
        r is Ok <==> civil_reading(text@) is Some,
        r matches Ok(civil) ==> civil_reading(text@) == Some(civil),
        plain_civil_text(text@) is Some ==> r is Ok,
        r matches Ok(civil) ==> (plain_civil_text(text@) is Some ==> plain_civil_text(text@) == Some(civil)),
{
    let l = text.parse::<jiff::civil::DateTime>().map_err(|error| error.to_string())?;
    let (year, month, day) = (l.year(), l.month(), l.day());
    let (hour, minute, second, subsec_nanosecond) = (l.hour(), l.minute(), l.second(), l.subsec_nanosecond());
    Ok(CivilTime { year, month, day, hour, minute, second, subsec_nanosecond })
}

/// Why a civil time could not be read in a named time zone.
pub enum ZoneProblem {
    /// The time-zone database has no zone of that name.
    UnknownZone(String),
    /// The civil time does not exist there, or exists twice.
    Unresolved(String),
}

/// Calls `jiff::tz::TimeZone::get` on the name, `jiff::civil::DateTime::new` on the
/// fields, then `TimeZone::to_ambiguous_zoned` and `AmbiguousZoned::unambiguous`, which
/// refuses local times in a gap or a fold, and reads the result as `parse_zoned_text`
/// does. The lookup ignores ASCII case and the zone found carries the name it was found
/// under; which offset applies depends on the time-zone rules on disk, and every offset
/// jiff allows lies within 25:59:59 of UTC.
#[verifier::external_body]
pub(crate) fn resolve_in_zone(name: &str, local: &CivilTime) -> (r: Result<ZonedTime, ZoneProblem>)
    ensures
        r matches Ok(time) ==> civil_in_zone(time@, *local, name@),
{
    let zone = jiff::tz::TimeZone::get(name).map_err(|error| ZoneProblem::UnknownZone(error.to_string()))?;
    let l = local;
    let civil = jiff::civil::DateTime::new(l.year, l.month, l.day, l.hour, l.minute, l.second, l.subsec_nanosecond)
        .map_err(|error| ZoneProblem::Unresolved(error.to_string()))?;
    let zoned = zone.to_ambiguous_zoned(civil).unambiguous().map_err(|error| ZoneProblem::Unresolved(error.to_string()))?;
    let found = zoned.time_zone().iana_name().map(String::from);
    Ok(ZonedTime { instant: zoned.timestamp().as_nanosecond(), text: zoned.to_string(), zone: found })
}

/// How `jiff::Timestamp` displays an instant given in nanoseconds since the Unix epoch,
/// where jiff can hold it.
pub uninterp spec fn timestamp_display(nanos: int) -> Option<Seq<char>>;

/// Calls `jiff::Timestamp::from_nanosecond` and displays the timestamp (RFC 3339 in UTC);
/// `None` where the instant lies outside the range jiff supports. The text depends on
/// the number alone.
#[verifier::external_body]
pub(crate) fn utc_timestamp_text(nanos: i128) -> (r: Option<String>)
    ensures
        option_text_view(r) == timestamp_display(nanos as int),
{
    match jiff::Timestamp::from_nanosecond(nanos) {
        Ok(timestamp) => Some(timestamp.to_string()),
        Err(_) => None,
    }
}

impl ZonedTime {
    /// Parses a complete zoned timestamp such as `2026-08-20T10:00:00+08:00[Asia/Shanghai]`.
    /// A text without a bracketed time-zone annotation is refused, and a time read from a
    /// text of that shape is the civil time less the offset, in the named zone.
    pub fn parse(text: &str) -> (r: Result<ZonedTime, String>)
        ensures
            reading_of_text(text@, reading_view(r)),
    {
        parse_zoned_text(text)
    }

    /// Nanoseconds since the Unix epoch.
    pub fn timestamp_nanos(&self) -> (r: i128)
        ensures
            r as int == self@.instant,
    {
        self.instant
    }

    /// The RFC 9557 text of this time.
    pub fn as_str(&self) -> (r: &str)
        ensures
            r@ == self@.text,
    {
        self.text.as_str()
    }

    /// The IANA name of this time's zone, where it has one.
    pub fn time_zone_name(&self) -> (r: Option<&str>)
        ensures
            match r {
                Some(name) => self@.zone == Some(name@),
                None => self@.zone is None,
            },
    {
        match &self.zone {
            Some(name) => Some(name.as_str()),
            None => None,
        }
    }

    /// Whether this time is strictly earlier than `other`.
    pub fn is_before(&self, other: &ZonedTime) -> (r: bool)
        ensures
            r == (self@.instant < other@.instant),
    {
        self.instant < other.instant
    }

    /// Whether both times denote the same instant.
    pub fn same_instant(&self, other: &ZonedTime) -> (r: bool)
        ensures
            r == (self@.instant == other@.instant),
    {
        self.instant == other.instant
    }

    /// A copy of this time.
    pub fn duplicate(&self) -> (r: ZonedTime)
        ensures
            r@ == self@,
    {
        let zone = match &self.zone {
            Some(name) => Some(name.clone()),
            None => None,
        };
        ZonedTime { instant: self.instant, text: self.text.clone(), zone }
    }
}

impl Clone for ZonedTime {
    fn clone(&self) -> (r: Self)
        ensures
            r@ == self@,
    {
        self.duplicate()
    }
}

impl PartialEq for ZonedTime {
    fn eq(&self, other: &Self) -> (r: bool) {
        self.instant == other.instant
    }
}

impl vstd::std_specs::cmp::PartialEqSpecImpl for ZonedTime {
    open spec fn obeys_eq_spec() -> bool {
        true
    }

    open spec fn eq_spec(&self, other: &Self) -> bool {
        self@.instant == other@.instant
    }
}

impl Eq for ZonedTime {}

impl std::str::FromStr for ZonedTime {
    type Err = String;

    fn from_str(text: &str) -> (r: Result<ZonedTime, String>)
        ensures
            reading_of_text(text@, reading_view(r)),
    {
        ZonedTime::parse(text)
    }
}

} // verus!
