//! Capture-date resolution: parsing of the fixed, ordered list of
//! timestamp string formats, and the fallback chain over embedded image
//! tags, container creation tags and filesystem timestamps.

use vstd::prelude::*;
use crate::strutil::{spec_trim, str_to_chars, trim_chars};

verus! {

/// Which rule of the fallback chain produced a resolved date.
#[derive(Debug, Clone, Copy, PartialEq, Eq, Structural)]
pub enum DateSource {
    ExifDateTimeOriginal,
    ExifDateTimeDigitized,
    ExifDateTime,
    QuickTimeCreationDate,
    QuickTimeMediaCreateDate,
    FilesystemCreated,
    FilesystemModified,
}

/// A resolved calendar timestamp with its provenance, or the absence of
/// one.
#[derive(Debug, Clone, Copy, PartialEq, Eq, Structural)]
pub enum DateExtracted {
    Found { year: u16, month: u8, day: u8, hour: u8, minute: u8, second: u8, source: DateSource },
    NotFound,
}

/// The manifest tag recorded for each provenance rule.
pub fn date_source_string(source: &DateSource) -> (r: &'static str)
    ensures
        r@ == match source {
            DateSource::ExifDateTimeOriginal => "exif_datetime_original"@,
            DateSource::ExifDateTimeDigitized => "exif_datetime_digitized"@,
            DateSource::ExifDateTime => "exif_datetime"@,
            DateSource::QuickTimeCreationDate => "quicktime_creation_date"@,
            DateSource::QuickTimeMediaCreateDate => "quicktime_media_create_date"@,
            DateSource::FilesystemCreated => "filesystem_created"@,
            DateSource::FilesystemModified => "filesystem_modified"@,
        },
{
    match source {
        DateSource::ExifDateTimeOriginal => "exif_datetime_original",
        DateSource::ExifDateTimeDigitized => "exif_datetime_digitized",
        DateSource::ExifDateTime => "exif_datetime",
        DateSource::QuickTimeCreationDate => "quicktime_creation_date",
        DateSource::QuickTimeMediaCreateDate => "quicktime_media_create_date",
        DateSource::FilesystemCreated => "filesystem_created",
        DateSource::FilesystemModified => "filesystem_modified",
    }
}

// ---------------------------------------------------------------------
// Timestamp string parsing
// ---------------------------------------------------------------------

pub open spec fn is_digit(c: char) -> bool {
    48 <= c as u32 && c as u32 <= 57
}

pub open spec fn digit_val(c: char) -> int {
    c as u32 - 48
}

/// Two consecutive digits starting at `i`.
pub open spec fn digits2(s: Seq<char>, i: int) -> bool {
    is_digit(s[i]) && is_digit(s[i + 1])
}

pub open spec fn digits4(s: Seq<char>, i: int) -> bool {
    digits2(s, i) && digits2(s, i + 2)
}

pub open spec fn num2(s: Seq<char>, i: int) -> int {
    digit_val(s[i]) * 10 + digit_val(s[i + 1])
}

pub open spec fn num4(s: Seq<char>, i: int) -> int {
    num2(s, i) * 100 + num2(s, i + 2)
}

pub open spec fn is_leap_year(y: int) -> bool {
    y % 4 == 0 && (y % 100 != 0 || y % 400 == 0)
}

pub open spec fn days_in_month(y: int, m: int) -> int {
    if m == 1 || m == 3 || m == 5 || m == 7 || m == 8 || m == 10 || m == 12 {
        31
    } else if m == 4 || m == 6 || m == 9 || m == 11 {
        30
    } else if is_leap_year(y) {
        29
    } else {
        28
    }
}

/// A real calendar date and time of day, leap years included.
pub open spec fn valid_civil(y: int, mo: int, d: int, h: int, mi: int, s: int) -> bool {
    &&& 1 <= mo <= 12
    &&& 1 <= d <= days_in_month(y, mo)
    &&& 0 <= h <= 23
    &&& 0 <= mi <= 59
    &&& 0 <= s <= 59
}

/// The shape `YYYYsMMsDD` at the start of `s`, with separator `dsep`.
pub open spec fn date_shape(s: Seq<char>, dsep: char) -> bool {
    &&& s.len() >= 10
    &&& digits4(s, 0)
    &&& s[4] == dsep
    &&& digits2(s, 5)
    &&& s[7] == dsep
    &&& digits2(s, 8)
}

/// How much of a time of day a format carries: none, hours and minutes,
/// or hours, minutes and seconds.
pub ghost enum TimeShape {
    DateOnly,
    HourMinute,
    Full { zulu: bool },
}

/// The expected total length of a format.
pub open spec fn shape_len(t: TimeShape) -> int {
    match t {
        TimeShape::DateOnly => 10,
        TimeShape::HourMinute => 16,
        TimeShape::Full { zulu } => if zulu {
            20
        } else {
            19
        },
    }
}

/// Whether `s` matches one fixed format: date part with separator
/// `dsep`, then (if the shape has a time) `tsep`, two-digit hour,
/// `':'`, two-digit minute, and for full shapes `':'`, two-digit
/// second, and for zulu shapes a trailing `'Z'`.
pub open spec fn format_shape(s: Seq<char>, dsep: char, tsep: char, t: TimeShape) -> bool {
    &&& s.len() == shape_len(t)
    &&& date_shape(s, dsep)
    &&& (t is HourMinute || t is Full ==> s[10] == tsep && digits2(s, 11) && s[13] == ':'
        && digits2(s, 14))
    &&& (t is Full ==> s[16] == ':' && digits2(s, 17))
    &&& (match t {
        TimeShape::Full { zulu } => zulu ==> s[19] == 'Z',
        _ => true,
    })
}

/// The fields read from a matching string; absent time components are
/// zero.
pub open spec fn format_fields(s: Seq<char>, t: TimeShape) -> (int, int, int, int, int, int) {
    (
        num4(s, 0),
        num2(s, 5),
        num2(s, 8),
        if t is DateOnly {
            0
        } else {
            num2(s, 11)
        },
        if t is DateOnly {
            0
        } else {
            num2(s, 14)
        },
        if t is Full {
            num2(s, 17)
        } else {
            0
        },
    )
}

/// One format of the fixed list: `Some` exactly when the string has the
/// format's shape and its fields form a real calendar timestamp.
pub open spec fn spec_try_format(s: Seq<char>, dsep: char, tsep: char, t: TimeShape) -> Option<
    (u16, u8, u8, u8, u8, u8),
> {
    if format_shape(s, dsep, tsep, t) {
        let (y, mo, d, h, mi, sec) = format_fields(s, t);
        if valid_civil(y, mo, d, h, mi, sec) {
            Some((y as u16, mo as u8, d as u8, h as u8, mi as u8, sec as u8))
        } else {
            None
        }
    } else {
        None
    }
}

/// The ordered format list; the first format that parses wins.
pub open spec fn spec_parse_date(s: Seq<char>) -> Option<(u16, u8, u8, u8, u8, u8)> {
    if spec_try_format(s, ':', ' ', TimeShape::Full { zulu: false }) is Some {
        spec_try_format(s, ':', ' ', TimeShape::Full { zulu: false })
    } else if spec_try_format(s, '-', ' ', TimeShape::Full { zulu: false }) is Some {
        spec_try_format(s, '-', ' ', TimeShape::Full { zulu: false })
    } else if spec_try_format(s, '/', ' ', TimeShape::Full { zulu: false }) is Some {
        spec_try_format(s, '/', ' ', TimeShape::Full { zulu: false })
    } else if spec_try_format(s, ':', 'T', TimeShape::Full { zulu: false }) is Some {
        spec_try_format(s, ':', 'T', TimeShape::Full { zulu: false })
    } else if spec_try_format(s, '-', 'T', TimeShape::Full { zulu: false }) is Some {
        spec_try_format(s, '-', 'T', TimeShape::Full { zulu: false })
    } else if spec_try_format(s, '-', 'T', TimeShape::Full { zulu: true }) is Some {
        spec_try_format(s, '-', 'T', TimeShape::Full { zulu: true })
    } else if spec_try_format(s, ':', ' ', TimeShape::HourMinute) is Some {
        spec_try_format(s, ':', ' ', TimeShape::HourMinute)
    } else if spec_try_format(s, '-', ' ', TimeShape::DateOnly) is Some {
        spec_try_format(s, '-', ' ', TimeShape::DateOnly)
    } else {
        None
    }
}

fn is_digit_c(c: char) -> (r: bool)
    ensures
        r == is_digit(c),
{
    let u = c as u32;
    48 <= u && u <= 57
}

fn digit_value(c: char) -> (r: u8)
    requires
        is_digit(c),
    ensures
        r as int == digit_val(c),
{
    ((c as u32) - 48) as u8
}

fn read2(v: &Vec<char>, i: usize) -> (r: Option<u8>)
    requires
        i + 2 <= v@.len(),
    ensures
        match r {
            Some(n) => digits2(v@, i as int) && n as int == num2(v@, i as int),
            None => !digits2(v@, i as int),
        },
{
    let n = v.len();
    let c0 = v[i];
    let c1 = v[i + 1];
    if is_digit_c(c0) && is_digit_c(c1) {
        Some(digit_value(c0) * 10 + digit_value(c1))
    } else {
        None
    }
}

fn read4(v: &Vec<char>, i: usize) -> (r: Option<u16>)
    requires
        i + 4 <= v@.len(),
    ensures
        match r {
            Some(n) => digits4(v@, i as int) && n as int == num4(v@, i as int),
            None => !digits4(v@, i as int),
        },
{
    let n = v.len();
    match (read2(v, i), read2(v, i + 2)) {
        (Some(a), Some(b)) => Some((a as u16) * 100 + (b as u16)),
        _ => None,
    }
}

fn is_leap_year_exec(y: u16) -> (r: bool)
    ensures
        r == is_leap_year(y as int),
{
    y % 4 == 0 && (y % 100 != 0 || y % 400 == 0)
}

fn days_in_month_exec(y: u16, m: u8) -> (r: u8)
    ensures
        r as int == days_in_month(y as int, m as int),
{
    if m == 1 || m == 3 || m == 5 || m == 7 || m == 8 || m == 10 || m == 12 {
        31
    } else if m == 4 || m == 6 || m == 9 || m == 11 {
        30
    } else if is_leap_year_exec(y) {
        29
    } else {
        28
    }
}

fn valid_civil_exec(y: u16, mo: u8, d: u8, h: u8, mi: u8, s: u8) -> (r: bool)
    ensures
        r == valid_civil(y as int, mo as int, d as int, h as int, mi as int, s as int),
{
    1 <= mo && mo <= 12 && 1 <= d && d <= days_in_month_exec(y, mo) && h <= 23 && mi <= 59 && s
        <= 59
}

/// Tries one format of the fixed list against a trimmed character
/// vector.
fn try_format(v: &Vec<char>, dsep: char, tsep: char, time_kind: u8, zulu: bool) -> (r: Option<
    (u16, u8, u8, u8, u8, u8),
>)
    requires
        time_kind <= 2,
        time_kind == 2 || !zulu,
    ensures
        r == spec_try_format(
            v@,
            dsep,
            tsep,
            if time_kind == 0 {
                TimeShape::DateOnly
            } else if time_kind == 1 {
                TimeShape::HourMinute
            } else {
                TimeShape::Full { zulu }
            },
        ),
{
    let ghost t = if time_kind == 0 {
        TimeShape::DateOnly
    } else if time_kind == 1 {
        TimeShape::HourMinute
    } else {
        TimeShape::Full { zulu }
    };
    let expected: usize = if time_kind == 0 {
        10
    } else if time_kind == 1 {
        16
    } else if zulu {
        20
    } else {
        19
    };
    if v.len() != expected {
        return None;
    }
    let y = match read4(v, 0) {
        Some(y) => y,
        None => {
            return None;
        },
    };
    if v[4] != dsep {
        return None;
    }
    let mo = match read2(v, 5) {
        Some(n) => n,
        None => {
            return None;
        },
    };
    if v[7] != dsep {
        return None;
    }
    let d = match read2(v, 8) {
        Some(n) => n,
        None => {
            return None;
        },
    };
    let mut h: u8 = 0;
    let mut mi: u8 = 0;
    let mut sec: u8 = 0;
    if time_kind >= 1 {
        if v[10] != tsep {
            return None;
        }
        h = match read2(v, 11) {
            Some(n) => n,
            None => {
                return None;
            },
        };
        if v[13] != ':' {
            return None;
        }
        mi = match read2(v, 14) {
            Some(n) => n,
            None => {
                return None;
            },
        };
    }
    if time_kind == 2 {
        if v[16] != ':' {
            return None;
        }
        sec = match read2(v, 17) {
            Some(n) => n,
            None => {
                return None;
            },
        };
        if zulu && v[19] != 'Z' {
            return None;
        }
    }
    proof {
        assert(format_shape(v@, dsep, tsep, t));
        assert(format_fields(v@, t) == (
            y as int,
            mo as int,
            d as int,
            h as int,
            mi as int,
            sec as int,
        ));
    }
    if valid_civil_exec(y, mo, d, h, mi, sec) {
        Some((y, mo, d, h, mi, sec))
    } else {
        None
    }
}

/// Parses a timestamp string against the fixed ordered list of format
/// patterns, after trimming ASCII whitespace; the first pattern that
/// parses successfully wins.  Fields are deliberately fixed-width —
/// four digits of year, two of month, day, hour, minute and second —
/// as embedded metadata writes them; a value is returned only for a
/// real calendar timestamp.
pub fn parse_date_string(s: &str) -> (r: Option<(u16, u8, u8, u8, u8, u8)>)
    ensures
        r == spec_parse_date(spec_trim(s@)),
{
    let chars = str_to_chars(s);
    let v = trim_chars(&chars);
    if let Some(x) = try_format(&v, ':', ' ', 2, false) {
        return Some(x);
    }
    if let Some(x) = try_format(&v, '-', ' ', 2, false) {
        return Some(x);
    }
    if let Some(x) = try_format(&v, '/', ' ', 2, false) {
        return Some(x);
    }
    if let Some(x) = try_format(&v, ':', 'T', 2, false) {
        return Some(x);
    }
    if let Some(x) = try_format(&v, '-', 'T', 2, false) {
        return Some(x);
    }
    if let Some(x) = try_format(&v, '-', 'T', 2, true) {
        return Some(x);
    }
    if let Some(x) = try_format(&v, ':', ' ', 1, false) {
        return Some(x);
    }
    if let Some(x) = try_format(&v, '-', ' ', 0, false) {
        return Some(x);
    }
    None
}

// ---------------------------------------------------------------------
// Epoch-second conversion (jiff)
// ---------------------------------------------------------------------

/// What jiff computes for an epoch-second value read in UTC: the civil
/// year, month, day, hour, minute and second, the year truncated to
/// `u16` as the resolved-date type stores it.
pub uninterp spec fn civil_utc_of(secs: int) -> (u16, u8, u8, u8, u8, u8);

/// The epoch-second window accepted by jiff's `Timestamp`, from its
/// published bounds.
pub open spec fn jiff_timestamp_range(secs: int) -> bool {
    -377705023201 <= secs <= 253402207200
}

/// Relies on jiff: `Timestamp::from_second` accepts exactly the
/// seconds inside jiff's timestamp window, `Timestamp::to_zoned` with
/// `TimeZone::UTC` exposes the corresponding civil datetime, and its
/// field accessors stay within the documented civil ranges (month
/// 1..=12, day 1..=31, hour 0..=23, minute and second 0..=59).  The
/// result is a function of the seconds value alone.
#[verifier::external_body]
pub(crate) fn civil_from_epoch_seconds(secs: i64) -> (r: Option<(u16, u8, u8, u8, u8, u8)>)
    ensures
        r is Some <==> jiff_timestamp_range(secs as int),
        match r {
            Some(c) => {
                &&& c == civil_utc_of(secs as int)
                &&& 1 <= c.1 <= 12
                &&& 1 <= c.2 <= 31
                &&& c.3 <= 23
                &&& c.4 <= 59
                &&& c.5 <= 59
            },
            None => true,
        },
{
    match jiff::Timestamp::from_second(secs) {
        Ok(ts) => {
            let dt = ts.to_zoned(jiff::tz::TimeZone::UTC).datetime();
            Some((
                dt.year() as u16,
                dt.month() as u8,
                dt.day() as u8,
                dt.hour() as u8,
                dt.minute() as u8,
                dt.second() as u8,
            ))
        },
        Err(_) => None,
    }
}

/// Relies on jiff: the fallible `Timestamp::try_from` on a
/// `std::time::SystemTime` accepts exactly the clock readings within
/// jiff's window, every timestamp lies within that window, and
/// `as_second` reads its seconds-since-epoch value.  A clock set
/// outside the window falls back to the epoch rather than aborting.
#[verifier::external_body]
pub(crate) fn now_epoch_seconds() -> (r: i64)
    ensures
        jiff_timestamp_range(r as int),
{
    match jiff::Timestamp::try_from(std::time::SystemTime::now()) {
        Ok(ts) => ts.as_second(),
        Err(_) => 0,
    }
}

// ---------------------------------------------------------------------
// The fallback chain
// ---------------------------------------------------------------------

/// The textual readings of one embedded metadata entry: the entry's
/// value as a rendered timestamp, and as a raw string.
pub struct EntryText {
    pub time_text: Option<String>,
    pub raw_text: Option<String>,
}

/// Everything the fallback chain reads about one file, as plain
/// values: the three embedded image tag entries, the two container
/// creation-tag entries, and the filesystem timestamps in seconds
/// since the epoch.
pub struct DateProbe {
    pub exif_datetime_original: Option<EntryText>,
    pub exif_create_date: Option<EntryText>,
    pub exif_modify_date: Option<EntryText>,
    pub qt_creation_date: Option<EntryText>,
    pub qt_media_create_date: Option<EntryText>,
    pub fs_created_epoch: Option<i64>,
    pub fs_modified_epoch: Option<i64>,
}

/// One entry's date: its rendered timestamp if that parses, else its
/// raw string if that parses.
pub open spec fn spec_entry_parse(e: EntryText) -> Option<(u16, u8, u8, u8, u8, u8)> {
    let from_time = match e.time_text {
        Some(t) => spec_parse_date(spec_trim(t@)),
        None => None,
    };
    if from_time is Some {
        from_time
    } else {
        match e.raw_text {
            Some(t) => spec_parse_date(spec_trim(t@)),
            None => None,
        }
    }
}

pub open spec fn spec_entry_opt(o: Option<EntryText>) -> Option<(u16, u8, u8, u8, u8, u8)> {
    match o {
        Some(e) => spec_entry_parse(e),
        None => None,
    }
}

/// A resolved date built from parsed fields and a provenance tag.
pub open spec fn spec_found(f: (u16, u8, u8, u8, u8, u8), source: DateSource) -> DateExtracted {
    DateExtracted::Found {
        year: f.0,
        month: f.1,
        day: f.2,
        hour: f.3,
        minute: f.4,
        second: f.5,
        source,
    }
}

/// The embedded image tag chain, in order: original, digitized,
/// generic.
pub open spec fn spec_try_exif(p: DateProbe) -> Option<DateExtracted> {
    if spec_entry_opt(p.exif_datetime_original) is Some {
        Some(
            spec_found(
                spec_entry_opt(p.exif_datetime_original)->0,
                DateSource::ExifDateTimeOriginal,
            ),
        )
    } else if spec_entry_opt(p.exif_create_date) is Some {
        Some(spec_found(spec_entry_opt(p.exif_create_date)->0, DateSource::ExifDateTimeDigitized))
    } else if spec_entry_opt(p.exif_modify_date) is Some {
        Some(spec_found(spec_entry_opt(p.exif_modify_date)->0, DateSource::ExifDateTime))
    } else {
        None
    }
}

/// The container creation-tag chain, in order: the vendor-specific
/// creation date, then the generic creation time.
pub open spec fn spec_try_quicktime(p: DateProbe) -> Option<DateExtracted> {
    if spec_entry_opt(p.qt_creation_date) is Some {
        Some(spec_found(spec_entry_opt(p.qt_creation_date)->0, DateSource::QuickTimeCreationDate))
    } else if spec_entry_opt(p.qt_media_create_date) is Some {
        Some(
            spec_found(
                spec_entry_opt(p.qt_media_create_date)->0,
                DateSource::QuickTimeMediaCreateDate,
            ),
        )
    } else {
        None
    }
}

/// The filesystem chain: creation time when present and convertible,
/// else modification time.
pub open spec fn spec_try_filesystem(created: Option<i64>, modified: Option<i64>) -> Option<
    DateExtracted,
> {
    if created is Some && jiff_timestamp_range(created->0 as int) {
        Some(spec_found(civil_utc_of(created->0 as int), DateSource::FilesystemCreated))
    } else if modified is Some && jiff_timestamp_range(modified->0 as int) {
        Some(spec_found(civil_utc_of(modified->0 as int), DateSource::FilesystemModified))
    } else {
        None
    }
}

/// The whole fallback chain: embedded image tags, then container tags,
/// then filesystem timestamps, else nothing.
pub open spec fn spec_extract_date(p: DateProbe) -> DateExtracted {
    if spec_try_exif(p) is Some {
        spec_try_exif(p)->0
    } else if spec_try_quicktime(p) is Some {
        spec_try_quicktime(p)->0
    } else if spec_try_filesystem(p.fs_created_epoch, p.fs_modified_epoch) is Some {
        spec_try_filesystem(p.fs_created_epoch, p.fs_modified_epoch)->0
    } else {
        DateExtracted::NotFound
    }
}

fn entry_to_fields(e: &EntryText) -> (r: Option<(u16, u8, u8, u8, u8, u8)>)
    ensures
        r == spec_entry_parse(*e),
{
    if let Some(t) = &e.time_text {
        if let Some(x) = parse_date_string(t.as_str()) {
            return Some(x);
        }
    }
    if let Some(t) = &e.raw_text {
        return parse_date_string(t.as_str());
    }
    None
}

fn entry_opt_to_date(o: &Option<EntryText>, source: DateSource) -> (r: Option<DateExtracted>)
    ensures
        r == match spec_entry_opt(*o) {
            Some(f) => Some(spec_found(f, source)),
            None => None::<DateExtracted>,
        },
{
    match o {
        Some(e) => match entry_to_fields(e) {
            Some(f) => Some(
                DateExtracted::Found {
                    year: f.0,
                    month: f.1,
                    day: f.2,
                    hour: f.3,
                    minute: f.4,
                    second: f.5,
                    source,
                },
            ),
            None => None,
        },
        None => None,
    }
}

/// Tries the embedded image tag group, first success winning.
pub fn try_exif_dates(p: &DateProbe) -> (r: Option<DateExtracted>)
    ensures
        r == spec_try_exif(*p),
{
    if let Some(d) = entry_opt_to_date(
        &p.exif_datetime_original,
        DateSource::ExifDateTimeOriginal,
    ) {
        return Some(d);
    }
    if let Some(d) = entry_opt_to_date(&p.exif_create_date, DateSource::ExifDateTimeDigitized) {
        return Some(d);
    }
    if let Some(d) = entry_opt_to_date(&p.exif_modify_date, DateSource::ExifDateTime) {
        return Some(d);
    }
    None
}

/// Tries the container-level creation tags, first success winning.
pub fn try_quicktime_dates(p: &DateProbe) -> (r: Option<DateExtracted>)
    ensures
        r == spec_try_quicktime(*p),
{
    if let Some(d) = entry_opt_to_date(&p.qt_creation_date, DateSource::QuickTimeCreationDate) {
        return Some(d);
    }
    if let Some(d) = entry_opt_to_date(
        &p.qt_media_create_date,
        DateSource::QuickTimeMediaCreateDate,
    ) {
        return Some(d);
    }
    None
}

/// Tries the filesystem timestamps: creation time when the platform
/// exposes one, else modification time.
pub fn try_filesystem_dates(created: Option<i64>, modified: Option<i64>) -> (r: Option<
    DateExtracted,
>)
    ensures
        r == spec_try_filesystem(created, modified),
{
    if let Some(secs) = created {
        if let Some(c) = civil_from_epoch_seconds(secs) {
            return Some(
                DateExtracted::Found {
                    year: c.0,
                    month: c.1,
                    day: c.2,
                    hour: c.3,
                    minute: c.4,
                    second: c.5,
                    source: DateSource::FilesystemCreated,
                },
            );
        }
    }
    if let Some(secs) = modified {
        if let Some(c) = civil_from_epoch_seconds(secs) {
            return Some(
                DateExtracted::Found {
                    year: c.0,
                    month: c.1,
                    day: c.2,
                    hour: c.3,
                    minute: c.4,
                    second: c.5,
                    source: DateSource::FilesystemModified,
                },
            );
        }
    }
    None
}

/// Resolves a capture date by the ordered fallback chain; the first
/// source that yields a parseable value wins, and its provenance tag is
/// recorded in the result.
pub fn extract_date(probe: &DateProbe) -> (r: DateExtracted)
    ensures
        r == spec_extract_date(*probe),
{
    if let Some(d) = try_exif_dates(probe) {
        return d;
    }
    if let Some(d) = try_quicktime_dates(probe) {
        return d;
    }
    if let Some(d) = try_filesystem_dates(probe.fs_created_epoch, probe.fs_modified_epoch) {
        return d;
    }
    DateExtracted::NotFound
}

} // verus!
