//! The log parser: one raw text line in, one structured record out.
//!
//! A line is first trimmed.  An empty line yields nothing.  A line
//! that is a JSON object yields a record assembled from its
//! `timestamp`/`time`/`ts`, `level`/`severity` and `message`/`msg`
//! keys, every remaining key becoming a free-form field; JSON that is
//! not an object yields nothing.  Any other line is scanned for a
//! `YYYY-MM-DD HH:MM:SS`-shaped timestamp and a level keyword, and
//! the whole trimmed line becomes the message.

use vstd::prelude::*;
use vstd::string::*;
use crate::level::{LogLevel, level_of_name};
use crate::text::{
    digit_val, eq_ignore_case_spec, is_digit_char, is_word_char, str_eq, lemma_filter_push,
    trim_str, trimmed, word_char,
};
use crate::timestamp::{
    civil_to_epoch_secs, epoch_secs_of_civil, month_len, valid_civil_date, valid_civil_time,
};

verus! {

/// One structured log record.  The timestamp is kept as milliseconds
/// since the Unix epoch; `fields` holds each non-standard key of a
/// JSON line with its value — the string content where the value was
/// a JSON string (marked `true`), its compact JSON text otherwise.
pub struct LogEntry {
    pub timestamp_millis: i64,
    pub service: String,
    pub level: LogLevel,
    pub message: String,
    pub fields: Vec<(String, String, bool)>,
    pub raw: String,
}

/// The mathematical shape of a record.
pub ghost struct LogEntryV {
    pub timestamp_millis: int,
    pub service: Seq<char>,
    pub level: LogLevel,
    pub message: Seq<char>,
    pub fields: Seq<(Seq<char>, Seq<char>, bool)>,
    pub raw: Seq<char>,
}

impl View for LogEntry {
    type V = LogEntryV;

    open spec fn view(&self) -> LogEntryV {
        LogEntryV {
            timestamp_millis: self.timestamp_millis as int,
            service: self.service@,
            level: self.level,
            message: self.message@,
            fields: self.fields.deep_view(),
            raw: self.raw@,
        }
    }
}

/// What serde_json decodes a line to: `None` when the line is not
/// JSON, `Some(None)` when it is JSON but not an object, otherwise
/// the object's fields.
pub uninterp spec fn json_decode_of(s: Seq<char>) -> Option<Option<Seq<(Seq<char>, Seq<char>, bool)>>>;

/// The instant an RFC 3339 date-time string denotes, in milliseconds
/// since the Unix epoch; `None` for anything else.
pub uninterp spec fn rfc3339_millis_of(s: Seq<char>) -> Option<i64>;

/// Relies on serde_json::from_str and on serde_json::Value's Display
/// impl.  Decodes one line: `None` when the text is not JSON,
/// `Some(None)` when it is JSON but not an object, and otherwise the
/// object's fields in serde_json's (sorted) key order.  A field's
/// second component is the string content when the value is a JSON
/// string and its compact JSON text otherwise; the third component
/// marks the string case.  serde_json's object map keeps keys unique.
#[verifier::external_body]
fn decode_json_line(line: &str) -> (r: Option<Option<Vec<(String, String, bool)>>>)
    ensures
        r.deep_view() == json_decode_of(line@),
        (match r {
            Some(Some(fs)) => forall|i: int, j: int|
                0 <= i < j < fs@.len() ==> fs@[i].0@ != fs@[j].0@,
            _ => true,
        }),
{
    match serde_json::from_str::<serde_json::Value>(line) {
        Err(_) => None,
        Ok(serde_json::Value::Object(obj)) => Some(Some(
            obj.into_iter()
                .map(|(k, v)| match v {
                    serde_json::Value::String(s) => (k, s, true),
                    v => {
                        let t = v.to_string();
                        (k, t, false)
                    },
                })
                .collect(),
        )),
        Ok(_) => Some(None),
    }
}

/// Relies on chrono::DateTime::parse_from_rfc3339 and
/// chrono::DateTime::timestamp_millis: the instant an RFC 3339 string
/// denotes, in milliseconds since the Unix epoch, or `None` when the
/// string is not an RFC 3339 date-time.
#[verifier::external_body]
fn parse_rfc3339_millis(s: &str) -> (r: Option<i64>)
    ensures
        r == rfc3339_millis_of(s@),
{
    match chrono::DateTime::parse_from_rfc3339(s) {
        Ok(dt) => Some(dt.timestamp_millis()),
        Err(_) => None,
    }
}

/// First field of `fs` whose key is `key`.
pub open spec fn find_field(
    fs: Seq<(Seq<char>, Seq<char>, bool)>,
    key: Seq<char>,
) -> Option<(Seq<char>, Seq<char>, bool)>
    decreases fs.len(),
{
    if fs.len() == 0 {
        None
    } else if fs[0].0 == key {
        Some(fs[0])
    } else {
        find_field(fs.drop_first(), key)
    }
}

proof fn lemma_find_field_hit(fs: Seq<(Seq<char>, Seq<char>, bool)>, key: Seq<char>, i: int)
    requires
        0 <= i < fs.len(),
        fs[i].0 == key,
        forall|j: int| 0 <= j < i ==> fs[j].0 != key,
    ensures
        find_field(fs, key) == Some(fs[i]),
    decreases i,
{
    if i > 0 {
        lemma_find_field_hit(fs.drop_first(), key, i - 1);
    }
}

proof fn lemma_find_field_miss(fs: Seq<(Seq<char>, Seq<char>, bool)>, key: Seq<char>)
    requires
        forall|j: int| 0 <= j < fs.len() ==> fs[j].0 != key,
    ensures
        find_field(fs, key) is None,
    decreases fs.len(),
{
    if fs.len() > 0 {
        lemma_find_field_miss(fs.drop_first(), key);
    }
}

/// Exec lookup of the first field with the given key, returning its
/// value and whether the value was a JSON string.
fn lookup_field(fs: &Vec<(String, String, bool)>, key: &str) -> (r: Option<(String, bool)>)
    ensures
        (match (r, find_field(fs.deep_view(), key@)) {
            (Some(rv), Some(fv)) => rv.0@ == fv.1 && rv.1 == fv.2,
            (None, None) => true,
            _ => false,
        }),
{
    let n = fs.len();
    for i in 0..n
        invariant
            n == fs.len(),
            forall|j: int| 0 <= j < i ==> fs.deep_view()[j].0 != key@,
    {
        let f = &fs[i];
        if str_eq(f.0.as_str(), key) {
            proof {
                lemma_find_field_hit(fs.deep_view(), key@, i as int);
            }
            return Some((f.1.clone(), f.2));
        }
    }
    proof {
        lemma_find_field_miss(fs.deep_view(), key@);
    }
    None
}

/// The timestamp key a JSON line is read from, in priority order.
pub open spec fn ts_key_of(fs: Seq<(Seq<char>, Seq<char>, bool)>) -> Option<Seq<char>> {
    if find_field(fs, "timestamp"@) is Some {
        Some("timestamp"@)
    } else if find_field(fs, "time"@) is Some {
        Some("time"@)
    } else if find_field(fs, "ts"@) is Some {
        Some("ts"@)
    } else {
        None
    }
}

/// The level key a JSON line is read from.
pub open spec fn level_key_of(fs: Seq<(Seq<char>, Seq<char>, bool)>) -> Option<Seq<char>> {
    if find_field(fs, "level"@) is Some {
        Some("level"@)
    } else if find_field(fs, "severity"@) is Some {
        Some("severity"@)
    } else {
        None
    }
}

/// The message key a JSON line is read from.
pub open spec fn msg_key_of(fs: Seq<(Seq<char>, Seq<char>, bool)>) -> Option<Seq<char>> {
    if find_field(fs, "message"@) is Some {
        Some("message"@)
    } else if find_field(fs, "msg"@) is Some {
        Some("msg"@)
    } else {
        None
    }
}

/// Timestamp of a JSON record: the chosen key's value when it is an
/// RFC 3339 string, the caller's clock otherwise.
pub open spec fn json_ts(fs: Seq<(Seq<char>, Seq<char>, bool)>, now: int) -> int {
    match ts_key_of(fs) {
        Some(k) => match find_field(fs, k) {
            Some(f) => if f.2 {
                match rfc3339_millis_of(f.1) {
                    Some(m) => m as int,
                    None => now,
                }
            } else {
                now
            },
            None => now,
        },
        None => now,
    }
}

/// Level of a JSON record: the chosen key's value when it is a
/// string, `Info` otherwise.
pub open spec fn json_level(fs: Seq<(Seq<char>, Seq<char>, bool)>) -> LogLevel {
    match level_key_of(fs) {
        Some(k) => match find_field(fs, k) {
            Some(f) => if f.2 {
                level_of_name(f.1)
            } else {
                LogLevel::Info
            },
            None => LogLevel::Info,
        },
        None => LogLevel::Info,
    }
}

/// Message of a JSON record: the chosen key's string value, else the
/// raw line.
pub open spec fn json_message(fs: Seq<(Seq<char>, Seq<char>, bool)>, raw: Seq<char>) -> Seq<char> {
    match msg_key_of(fs) {
        Some(k) => match find_field(fs, k) {
            Some(f) => if f.2 {
                f.1
            } else {
                raw
            },
            None => raw,
        },
        None => raw,
    }
}

/// The free-form fields of a JSON record: everything but the keys
/// consumed for the timestamp, level and message.
pub open spec fn json_rest(fs: Seq<(Seq<char>, Seq<char>, bool)>) -> Seq<(Seq<char>, Seq<char>, bool)> {
    let tk = ts_key_of(fs);
    let lk = level_key_of(fs);
    let mk = msg_key_of(fs);
    fs.filter(|f: (Seq<char>, Seq<char>, bool)| Some(f.0) != tk && Some(f.0) != lk && Some(f.0) != mk)
}

/// The record a JSON object line yields.
pub open spec fn json_entry(
    raw: Seq<char>,
    fs: Seq<(Seq<char>, Seq<char>, bool)>,
    service: Seq<char>,
    now: int,
) -> LogEntryV {
    LogEntryV {
        timestamp_millis: json_ts(fs, now),
        service: service,
        level: json_level(fs),
        message: json_message(fs, raw),
        fields: json_rest(fs),
        raw: raw,
    }
}

/// Build the record for a decoded JSON object line.  Public so that a
/// caller can check the parser's object handling on chosen fields.
pub fn entry_from_json_fields(
    raw: &str,
    fs: Vec<(String, String, bool)>,
    service: &str,
    now_millis: i64,
) -> (e: LogEntry)
    ensures
        e@ == json_entry(raw@, fs.deep_view(), service@, now_millis as int),
{
    let ghost gfs = fs.deep_view();
    let tv0 = lookup_field(&fs, "timestamp");
    let (tkey, tval): (Option<&str>, Option<(String, bool)>) = if tv0.is_some() {
        (Some("timestamp"), tv0)
    } else {
        let tv1 = lookup_field(&fs, "time");
        if tv1.is_some() {
            (Some("time"), tv1)
        } else {
            let tv2 = lookup_field(&fs, "ts");
            if tv2.is_some() {
                (Some("ts"), tv2)
            } else {
                (None, None)
            }
        }
    };
    let timestamp_millis: i64 = match &tval {
        Some(v) => {
            if v.1 {
                match parse_rfc3339_millis(v.0.as_str()) {
                    Some(m) => m,
                    None => now_millis,
                }
            } else {
                now_millis
            }
        },
        None => now_millis,
    };
    assert(timestamp_millis as int == json_ts(gfs, now_millis as int));

    let lv0 = lookup_field(&fs, "level");
    let (lkey, lval): (Option<&str>, Option<(String, bool)>) = if lv0.is_some() {
        (Some("level"), lv0)
    } else {
        let lv1 = lookup_field(&fs, "severity");
        if lv1.is_some() {
            (Some("severity"), lv1)
        } else {
            (None, None)
        }
    };
    let level: LogLevel = match &lval {
        Some(v) => {
            if v.1 {
                LogLevel::from_str(v.0.as_str())
            } else {
                LogLevel::Info
            }
        },
        None => LogLevel::Info,
    };
    assert(level == json_level(gfs));

    let mv0 = lookup_field(&fs, "message");
    let (mkey, mval): (Option<&str>, Option<(String, bool)>) = if mv0.is_some() {
        (Some("message"), mv0)
    } else {
        let mv1 = lookup_field(&fs, "msg");
        if mv1.is_some() {
            (Some("msg"), mv1)
        } else {
            (None, None)
        }
    };
    let message: String = match mval {
        Some(v) => {
            if v.1 {
                v.0
            } else {
                String::from_str(raw)
            }
        },
        None => String::from_str(raw),
    };
    assert(message@ == json_message(gfs, raw@));

    let ghost tk = ts_key_of(gfs);
    let ghost lk = level_key_of(gfs);
    let ghost mk = msg_key_of(gfs);
    let ghost keep = |f: (Seq<char>, Seq<char>, bool)| Some(f.0) != tk && Some(f.0) != lk
        && Some(f.0) != mk;
    let mut kept: Vec<(String, String, bool)> = Vec::new();
    let n = fs.len();
    assert(gfs.subrange(0, 0).filter(keep) =~= Seq::<(Seq<char>, Seq<char>, bool)>::empty());
    for i in 0..n
        invariant
            n == fs.len(),
            gfs == fs.deep_view(),
            tk == ts_key_of(gfs),
            lk == level_key_of(gfs),
            mk == msg_key_of(gfs),
            (keep == |f: (Seq<char>, Seq<char>, bool)| Some(f.0) != tk && Some(f.0) != lk
                && Some(f.0) != mk),
            (match tkey {
                Some(k) => tk == Some(k@),
                None => tk is None,
            }),
            (match lkey {
                Some(k) => lk == Some(k@),
                None => lk is None,
            }),
            (match mkey {
                Some(k) => mk == Some(k@),
                None => mk is None,
            }),
            kept.deep_view() == gfs.subrange(0, i as int).filter(keep),
    {
        let f = &fs[i];
        let hit_ts = match tkey {
            Some(k) => str_eq(f.0.as_str(), k),
            None => false,
        };
        let hit_lvl = match lkey {
            Some(k) => str_eq(f.0.as_str(), k),
            None => false,
        };
        let hit_msg = match mkey {
            Some(k) => str_eq(f.0.as_str(), k),
            None => false,
        };
        proof {
            lemma_filter_push(gfs.subrange(0, i as int), gfs[i as int], keep);
            assert(gfs.subrange(0, i + 1).drop_last() =~= gfs.subrange(0, i as int));
            assert(gfs.subrange(0, i + 1) =~= gfs.subrange(0, i as int).push(gfs[i as int]));
        }
        if !hit_ts && !hit_lvl && !hit_msg {
            kept.push((f.0.clone(), f.1.clone(), f.2));
        }
        assert(kept.deep_view() =~= gfs.subrange(0, i + 1).filter(keep));
    }
    assert(gfs.subrange(0, n as int) =~= gfs);
    assert(kept.deep_view() == json_rest(gfs));

    let e = LogEntry {
        timestamp_millis,
        service: String::from_str(service),
        level,
        message,
        fields: kept,
        raw: String::from_str(raw),
    };
    assert(e@ == json_entry(raw@, gfs, service@, now_millis as int));
    e
}

/// Character class at offset `j` of a `YYYY-MM-DD HH:MM:SS`-shaped
/// region (the date/time separator may be `T` or a space).
pub open spec fn ts_class_ok(j: int, c: char) -> bool {
    if j == 4 || j == 7 {
        c == '-'
    } else if j == 10 {
        c == 'T' || c == ' '
    } else if j == 13 || j == 16 {
        c == ':'
    } else {
        is_digit_char(c)
    }
}

/// A timestamp-shaped region starts at position `i`.
pub open spec fn ts_shape_at(s: Seq<char>, i: int) -> bool {
    0 <= i && i + 19 <= s.len() && forall|j: int| 0 <= j < 19 ==> ts_class_ok(j, #[trigger] s[i + j])
}

/// Leftmost timestamp-shaped region at or after position `i`.
pub open spec fn first_ts_from(s: Seq<char>, i: int) -> Option<int>
    decreases s.len() - i when 0 <= i
{
    if i + 19 > s.len() {
        None
    } else if ts_shape_at(s, i) {
        Some(i)
    } else {
        first_ts_from(s, i + 1)
    }
}

/// Epoch seconds encoded by the timestamp-shaped region at `i`, if
/// its digits make a calendar date in the supported range.
pub open spec fn ts_seconds_at(s: Seq<char>, i: int) -> Option<int> {
    let y = digit_val(s[i]) * 1000 + digit_val(s[i + 1]) * 100 + digit_val(s[i + 2]) * 10
        + digit_val(s[i + 3]);
    let mo = digit_val(s[i + 5]) * 10 + digit_val(s[i + 6]);
    let d = digit_val(s[i + 8]) * 10 + digit_val(s[i + 9]);
    let h = digit_val(s[i + 11]) * 10 + digit_val(s[i + 12]);
    let mi = digit_val(s[i + 14]) * 10 + digit_val(s[i + 15]);
    let sec = digit_val(s[i + 17]) * 10 + digit_val(s[i + 18]);
    if valid_civil_date(y, mo, d) && valid_civil_time(h, mi, sec) {
        Some(civil_to_epoch_secs(y, mo, d, h, mi, sec))
    } else {
        None
    }
}

/// Timestamp of a plain-text record: the first embedded timestamp
/// when one parses, the caller's clock otherwise.
pub open spec fn text_ts(s: Seq<char>, now: int) -> int {
    match first_ts_from(s, 0) {
        Some(i) => match ts_seconds_at(s, i) {
            Some(t) => t * 1000,
            None => now,
        },
        None => now,
    }
}

/// `kw` occurs at position `i` up to ASCII case.
pub open spec fn ci_occurs_at(hay: Seq<char>, kw: Seq<char>, i: int) -> bool {
    0 <= i && i + kw.len() <= hay.len() && eq_ignore_case_spec(
        hay.subrange(i, i + kw.len()),
        kw,
    )
}

/// `kw` occurs at position `i` as a whole word.
pub open spec fn kw_boundary_at(s: Seq<char>, kw: Seq<char>, i: int) -> bool {
    ci_occurs_at(s, kw, i) && (i == 0 || !is_word_char(s[i - 1])) && (i + kw.len() == s.len()
        || !is_word_char(s[i + kw.len()]))
}

/// The level keyword starting at position `i`, if any.
pub open spec fn level_match_at(s: Seq<char>, i: int) -> Option<LogLevel> {
    if kw_boundary_at(s, "TRACE"@, i) {
        Some(LogLevel::Trace)
    } else if kw_boundary_at(s, "DEBUG"@, i) {
        Some(LogLevel::Debug)
    } else if kw_boundary_at(s, "INFO"@, i) {
        Some(LogLevel::Info)
    } else if kw_boundary_at(s, "WARN"@, i) {
        Some(LogLevel::Warn)
    } else if kw_boundary_at(s, "WARNING"@, i) {
        Some(LogLevel::Warn)
    } else if kw_boundary_at(s, "ERROR"@, i) {
        Some(LogLevel::Error)
    } else {
        None
    }
}

/// Leftmost level keyword at or after position `i`.
pub open spec fn first_level_from(s: Seq<char>, i: int) -> Option<LogLevel>
    decreases s.len() - i when 0 <= i
{
    if i >= s.len() {
        None
    } else {
        match level_match_at(s, i) {
            Some(l) => Some(l),
            None => first_level_from(s, i + 1),
        }
    }
}

/// Level of a plain-text record.
pub open spec fn text_level(s: Seq<char>) -> LogLevel {
    match first_level_from(s, 0) {
        Some(l) => l,
        None => LogLevel::Info,
    }
}

/// The record a plain-text line yields.
pub open spec fn text_entry(t: Seq<char>, service: Seq<char>, now: int) -> LogEntryV {
    LogEntryV {
        timestamp_millis: text_ts(t, now),
        service: service,
        level: text_level(t),
        message: t,
        fields: Seq::empty(),
        raw: t,
    }
}

proof fn lemma_first_ts_hit(s: Seq<char>, a: int, k: int)
    requires
        0 <= a <= k,
        ts_shape_at(s, k),
        forall|j: int| a <= j < k ==> !ts_shape_at(s, j),
    ensures
        first_ts_from(s, a) == Some(k),
    decreases k - a,
{
    if a < k {
        lemma_first_ts_hit(s, a + 1, k);
    }
}

proof fn lemma_first_ts_miss(s: Seq<char>, a: int)
    requires
        0 <= a,
        forall|j: int| a <= j ==> !ts_shape_at(s, j),
    ensures
        first_ts_from(s, a) is None,
    decreases s.len() - a,
{
    if a + 19 <= s.len() {
        lemma_first_ts_miss(s, a + 1);
    }
}

proof fn lemma_first_level_hit(s: Seq<char>, a: int, k: int, l: LogLevel)
    requires
        0 <= a <= k < s.len(),
        level_match_at(s, k) == Some(l),
        forall|j: int| a <= j < k ==> level_match_at(s, j) is None,
    ensures
        first_level_from(s, a) == Some(l),
    decreases k - a,
{
    if a < k {
        lemma_first_level_hit(s, a + 1, k, l);
    }
}

proof fn lemma_first_level_miss(s: Seq<char>, a: int)
    requires
        0 <= a,
        forall|j: int| a <= j < s.len() ==> level_match_at(s, j) is None,
    ensures
        first_level_from(s, a) is None,
    decreases s.len() - a,
{
    if a < s.len() {
        lemma_first_level_miss(s, a + 1);
    }
}

/// Exec test of one character of a timestamp-shaped region.
fn ts_class_check(j: usize, c: char) -> (r: bool)
    ensures
        r == ts_class_ok(j as int, c),
{
    if j == 4 || j == 7 {
        c == '-'
    } else if j == 10 {
        c == 'T' || c == ' '
    } else if j == 13 || j == 16 {
        c == ':'
    } else {
        let u = c as u32;
        48 <= u && u <= 57
    }
}

/// Exec test of a timestamp-shaped region at `i`.
fn ts_shape_here(s: &str, i: usize) -> (r: bool)
    requires
        i + 19 <= s@.len(),
    ensures
        r == ts_shape_at(s@, i as int),
{
    let l = s.unicode_len();
    for j in 0..19usize
        invariant
            l == s@.len(),
            i + 19 <= l,
            forall|k: int| 0 <= k < j ==> ts_class_ok(k, #[trigger] s@[i + k]),
    {
        if !ts_class_check(j, s.get_char(i + j)) {
            return false;
        }
    }
    true
}

/// Exec scan for the leftmost timestamp-shaped region.
fn find_first_ts(s: &str) -> (r: Option<usize>)
    ensures
        (match r {
            Some(i) => first_ts_from(s@, 0) == Some(i as int) && ts_shape_at(s@, i as int),
            None => first_ts_from(s@, 0) is None,
        }),
{
    let len = s.unicode_len();
    if len < 19 {
        proof {
            lemma_first_ts_miss(s@, 0);
        }
        return None;
    }
    let last = len - 19;
    for i in 0..last + 1
        invariant
            len == s@.len(),
            19 <= len,
            last == len - 19,
            forall|j: int| 0 <= j < i ==> !ts_shape_at(s@, j),
    {
        if ts_shape_here(s, i) {
            proof {
                lemma_first_ts_hit(s@, 0, i as int);
            }
            return Some(i);
        }
    }
    proof {
        lemma_first_ts_miss(s@, 0);
    }
    None
}

/// Exec conversion of the timestamp-shaped region at `i` to epoch
/// seconds; `None` when the digits do not form a supported date.
fn civil_secs_at(s: &str, i: usize) -> (r: Option<i64>)
    requires
        ts_shape_at(s@, i as int),
    ensures
        (match r {
            Some(t) => ts_seconds_at(s@, i as int) == Some(t as int) && 0 <= t
                < 254100000000,
            None => ts_seconds_at(s@, i as int) is None,
        }),
{
    let l = s.unicode_len();
    let mut cs: Vec<char> = Vec::new();
    for j in 0..19usize
        invariant
            ts_shape_at(s@, i as int),
            l == s@.len(),
            i + 19 <= l,
            cs@.len() == j,
            forall|k: int| 0 <= k < j ==> cs@[k] == #[trigger] s@[i + k],
    {
        cs.push(s.get_char(i + j));
    }
    proof {
        assert forall|j: int| 0 <= j < 19 implies ts_class_ok(j, #[trigger] cs@[j]) by {
            assert(cs@[j] == s@[i + j]);
        }
        assert(cs@[0] == s@[i + 0] && s@[i + 0] == s@[i as int]);
        assert(cs@[1] == s@[i + 1]);
        assert(cs@[2] == s@[i + 2]);
        assert(cs@[3] == s@[i + 3]);
        assert(cs@[5] == s@[i + 5]);
        assert(cs@[6] == s@[i + 6]);
        assert(cs@[8] == s@[i + 8]);
        assert(cs@[9] == s@[i + 9]);
        assert(cs@[11] == s@[i + 11]);
        assert(cs@[12] == s@[i + 12]);
        assert(cs@[14] == s@[i + 14]);
        assert(cs@[15] == s@[i + 15]);
        assert(cs@[17] == s@[i + 17]);
        assert(cs@[18] == s@[i + 18]);
    }
    let d0 = (cs[0] as u32 - 48) as u64;
    let d1 = (cs[1] as u32 - 48) as u64;
    let d2 = (cs[2] as u32 - 48) as u64;
    let d3 = (cs[3] as u32 - 48) as u64;
    let y = d0 * 1000 + d1 * 100 + d2 * 10 + d3;
    let mo = (cs[5] as u32 - 48) as u64 * 10 + (cs[6] as u32 - 48) as u64;
    let d = (cs[8] as u32 - 48) as u64 * 10 + (cs[9] as u32 - 48) as u64;
    let h = (cs[11] as u32 - 48) as u64 * 10 + (cs[12] as u32 - 48) as u64;
    let mi = (cs[14] as u32 - 48) as u64 * 10 + (cs[15] as u32 - 48) as u64;
    let sec = (cs[17] as u32 - 48) as u64 * 10 + (cs[18] as u32 - 48) as u64;
    let date_ok = 1970 <= y && 1 <= mo && mo <= 12 && 1 <= d && {
        let ml = month_len(y, mo);
        d <= ml
    };
    let time_ok = h <= 23 && mi <= 59 && sec <= 59;
    if date_ok && time_ok {
        Some(epoch_secs_of_civil(y, mo, d, h, mi, sec))
    } else {
        None
    }
}

/// Exec test of a whole-word level keyword at `i`.
fn kw_bound_here(s: &str, kw: &str, i: usize) -> (r: bool)
    requires
        i < s@.len(),
    ensures
        r == kw_boundary_at(s@, kw@, i as int),
{
    let slen = s.unicode_len();
    let klen = kw.unicode_len();
    if klen > slen - i {
        return false;
    }
    if !crate::text::ci_occurs_here(s, kw, i) {
        return false;
    }
    if i > 0 && word_char(s.get_char(i - 1)) {
        return false;
    }
    if i + klen < slen && word_char(s.get_char(i + klen)) {
        return false;
    }
    true
}

/// Exec test of any level keyword at `i`.
fn level_here(s: &str, i: usize) -> (r: Option<LogLevel>)
    requires
        i < s@.len(),
    ensures
        r == level_match_at(s@, i as int),
{
    if kw_bound_here(s, "TRACE", i) {
        Some(LogLevel::Trace)
    } else if kw_bound_here(s, "DEBUG", i) {
        Some(LogLevel::Debug)
    } else if kw_bound_here(s, "INFO", i) {
        Some(LogLevel::Info)
    } else if kw_bound_here(s, "WARN", i) {
        Some(LogLevel::Warn)
    } else if kw_bound_here(s, "WARNING", i) {
        Some(LogLevel::Warn)
    } else if kw_bound_here(s, "ERROR", i) {
        Some(LogLevel::Error)
    } else {
        None
    }
}

/// Exec scan for the leftmost level keyword.
fn find_first_level(s: &str) -> (r: Option<LogLevel>)
    ensures
        (match r {
            Some(l) => first_level_from(s@, 0) == Some(l),
            None => first_level_from(s@, 0) is None,
        }),
{
    let len = s.unicode_len();
    for i in 0..len
        invariant
            len == s@.len(),
            forall|j: int| 0 <= j < i ==> level_match_at(s@, j) is None,
    {
        match level_here(s, i) {
            Some(l) => {
                proof {
                    lemma_first_level_hit(s@, 0, i as int, l);
                }
                return Some(l);
            },
            None => {},
        }
    }
    proof {
        lemma_first_level_miss(s@, 0);
    }
    None
}

/// Build the record for a plain-text line.  Public so that a caller
/// can check the text scanner on chosen lines.
pub fn entry_from_text(t: &str, service: &str, now_millis: i64) -> (e: LogEntry)
    ensures
        e@ == text_entry(t@, service@, now_millis as int),
{
    let timestamp_millis: i64 = match find_first_ts(t) {
        Some(i) => {
            match civil_secs_at(t, i) {
                Some(secs) => secs * 1000,
                None => now_millis,
            }
        },
        None => now_millis,
    };
    let level = match find_first_level(t) {
        Some(l) => l,
        None => LogLevel::Info,
    };
    let fields: Vec<(String, String, bool)> = Vec::new();
    assert(fields.deep_view() =~= Seq::<(Seq<char>, Seq<char>, bool)>::empty());
    LogEntry {
        timestamp_millis,
        service: String::from_str(service),
        level,
        message: String::from_str(t),
        fields,
        raw: String::from_str(t),
    }
}

/// The record, if any, one raw line yields.
pub open spec fn spec_parse_line(line: Seq<char>, service: Seq<char>, now: int) -> Option<
    LogEntryV,
> {
    let t = trimmed(line);
    if t.len() == 0 {
        None
    } else {
        match json_decode_of(t) {
            Some(decoded) => match decoded {
                Some(fs) => Some(json_entry(t, fs, service, now)),
                None => None,
            },
            None => Some(text_entry(t, service, now)),
        }
    }
}

/// Parse one raw log line for a service.  Empty and
/// whitespace-only lines, and JSON lines that are not objects, yield
/// nothing; everything else yields a record, with the caller's clock
/// `now_millis` as the fallback timestamp.
pub fn parse_line(line: &str, service: &str, now_millis: i64) -> (r: Option<LogEntry>)
    ensures
        (match r {
            Some(e) => spec_parse_line(line@, service@, now_millis as int) == Some(e@),
            None => spec_parse_line(line@, service@, now_millis as int) is None,
        }),
{
    let t = trim_str(line);
    if t.unicode_len() == 0 {
        return None;
    }
    match decode_json_line(t) {
        Some(decoded) => match decoded {
            Some(fs) => Some(entry_from_json_fields(t, fs, service, now_millis)),
            None => None,
        },
        None => Some(entry_from_text(t, service, now_millis)),
    }
}

impl Clone for LogEntry {
    /// A copy equal to the original at the view level.
    fn clone(&self) -> (r: Self)
        ensures
            r@ == self@,
    {
        let r = LogEntry {
            timestamp_millis: self.timestamp_millis,
            service: self.service.clone(),
            level: self.level,
            message: self.message.clone(),
            fields: crate::text::clone_triple_vec(&self.fields),
            raw: self.raw.clone(),
        };
        assert(r@ == self@);
        r
    }
}

} // verus!
