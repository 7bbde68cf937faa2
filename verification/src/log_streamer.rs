//! The log streamer: it aggregates the records the watchers produce,
//! applies the display filters, keeps tail semantics for one-shot
//! requests, and renders each record in the requested format.  The
//! caller owns the channel and the screen; the selection and the
//! rendering are decided here.

use vstd::prelude::*;
use vstd::string::*;
use crate::level::{LogLevel, level_name, severity};
use crate::log_parser::{LogEntry, LogEntryV};
use crate::numfmt::{
    dec_digits, digit_char, four_dec, push_three_dec, push_two_dec, push_four_dec, three_dec, two_dec,
    u64_to_dec,
};
use crate::text::{contains_seq, contains_sub, lemma_filter_push};
use crate::timestamp::{
    civil_of_days, civil_to_days, epoch_day_limit, valid_civil_date,
};

verus! {

/// Output format of one rendered record.
#[derive(Clone, Copy, Debug, PartialEq, Eq, Structural)]
pub enum LogFormat {
    Pretty,
    Json,
    Raw,
}

/// What a streaming request asks for.
pub struct LogStreamConfig {
    pub follow: bool,
    pub lines: Option<usize>,
    pub level_filter: Option<LogLevel>,
    pub service_filter: Option<String>,
    pub pattern_filter: Option<String>,
    pub format: LogFormat,
    pub buffer_size: usize,
}

impl Default for LogStreamConfig {
    /// One-shot dump of the last hundred lines, unfiltered, pretty.
    fn default() -> (c: LogStreamConfig)
        ensures
            c.follow == false,
            c.lines == Some(100usize),
            c.level_filter is None,
            c.service_filter is None,
            c.pattern_filter is None,
            c.format == LogFormat::Pretty,
            c.buffer_size == 8192,
    {
        LogStreamConfig {
            follow: false,
            lines: Some(100),
            level_filter: None,
            service_filter: None,
            pattern_filter: None,
            format: LogFormat::Pretty,
            buffer_size: 8192,
        }
    }
}

/// Whether a pattern, compiled as a regular expression, matches a
/// text; a pattern that does not compile matches nothing.
pub uninterp spec fn regex_match_of(pattern: Seq<char>, text: Seq<char>) -> bool;

/// Relies on regex::Regex::new and regex::Regex::is_match: whether
/// the pattern, compiled as a regular expression, matches somewhere
/// in the text.  A pattern that does not compile matches nothing.
/// The result is a function of the two strings alone.
#[verifier::external_body]
fn regex_is_match(pattern: &str, text: &str) -> (r: bool)
    ensures
        r == regex_match_of(pattern@, text@),
{
    match regex::Regex::new(pattern) {
        Ok(re) => re.is_match(text),
        Err(_) => false,
    }
}

/// Whether a record passes every configured filter: its level at
/// least the minimum, its service name containing the service
/// filter, and its message matching the pattern.
pub open spec fn passes_filters(e: LogEntryV, c: LogStreamConfig) -> bool {
    &&& (match c.level_filter {
        Some(min) => severity(e.level) >= severity(min),
        None => true,
    })
    &&& (match c.service_filter {
        Some(s) => contains_seq(e.service, s@),
        None => true,
    })
    &&& (match c.pattern_filter {
        Some(p) => regex_match_of(p@, e.message),
        None => true,
    })
}

/// The views of a sequence of records.
pub open spec fn entry_views(s: Seq<LogEntry>) -> Seq<LogEntryV> {
    s.map_values(|e: LogEntry| e@)
}

/// The last `lines` elements, or everything when no limit is set.
pub open spec fn tail_n<A>(s: Seq<A>, lines: Option<usize>) -> Seq<A> {
    match lines {
        Some(n) => if s.len() > n {
            s.skip(s.len() - n as int)
        } else {
            s
        },
        None => s,
    }
}

/// What a one-shot streaming request shows, in arrival order: the
/// records that pass every filter, limited to the last `lines`.
pub open spec fn selected_views(evs: Seq<LogEntryV>, c: LogStreamConfig) -> Seq<LogEntryV> {
    tail_n(evs.filter(|ev: LogEntryV| passes_filters(ev, c)), c.lines)
}

/// Exec test of the display filters for one record.
pub fn should_display(e: &LogEntry, c: &LogStreamConfig) -> (r: bool)
    ensures
        r == passes_filters(e@, *c),
{
    let level_ok = match &c.level_filter {
        Some(min) => e.level.at_least(*min),
        None => true,
    };
    if !level_ok {
        return false;
    }
    let service_ok = match &c.service_filter {
        Some(s) => contains_sub(e.service.as_str(), s.as_str()),
        None => true,
    };
    if !service_ok {
        return false;
    }
    match &c.pattern_filter {
        Some(p) => regex_is_match(p.as_str(), e.message.as_str()),
        None => true,
    }
}

/// The records a one-shot request shows, in arrival order: filter,
/// then keep the last `lines`.
pub fn select_entries(entries: &Vec<LogEntry>, c: &LogStreamConfig) -> (r: Vec<LogEntry>)
    ensures
        entry_views(r@) == selected_views(entry_views(entries@), *c),
{
    let ghost pred = |ev: LogEntryV| passes_filters(ev, *c);
    let mut kept: Vec<LogEntry> = Vec::new();
    let n = entries.len();
    let ghost evs = entry_views(entries@);
    assert(evs.subrange(0, 0).filter(pred) =~= Seq::<LogEntryV>::empty());
    for i in 0..n
        invariant
            n == entries@.len(),
            evs == entry_views(entries@),
            (pred == |ev: LogEntryV| passes_filters(ev, *c)),
            entry_views(kept@) =~~= evs.subrange(0, i as int).filter(pred),
    {
        proof {
            lemma_filter_push(evs.subrange(0, i as int), evs[i as int], pred);
            assert(evs.subrange(0, i + 1) =~= evs.subrange(0, i as int).push(evs[i as int]));
        }
        let ghost prevv = entry_views(kept@);
        if should_display(&entries[i], c) {
            kept.push(entries[i].clone());
            proof {
                assert(entry_views(kept@) =~~= prevv.push(entries@[i as int]@));
            }
        }
        assert(entry_views(kept@) =~~= evs.subrange(0, i + 1).filter(pred));
    }
    assert(evs.subrange(0, n as int) =~= evs);
    let klen = kept.len();
    let ghost fullv = entry_views(kept@);
    match c.lines {
        Some(limit) => {
            if klen > limit {
                let tail = kept.split_off(klen - limit);
                proof {
                    assert(entry_views(tail@) =~~= fullv.subrange(klen - limit, klen as int));
                    assert(fullv.skip(klen - limit) =~= fullv.subrange(klen - limit, klen as int));
                }
                assert(entry_views(tail@) =~~= selected_views(evs, *c));
                tail
            } else {
                assert(entry_views(kept@) =~~= selected_views(evs, *c));
                kept
            }
        },
        None => {
            assert(entry_views(kept@) =~~= selected_views(evs, *c));
            kept
        },
    }
}

} // verus!

verus! {

/// A hexadecimal digit.
pub open spec fn hex_digit(d: int) -> char
    recommends
        0 <= d < 16,
{
    if d < 10 {
        digit_char(d)
    } else if d == 10 { 'a' }
    else if d == 11 { 'b' }
    else if d == 12 { 'c' }
    else if d == 13 { 'd' }
    else if d == 14 { 'e' }
    else { 'f' }
}

/// The escape of one character inside a JSON string literal.
pub open spec fn esc_char(c: char) -> Seq<char> {
    if c == '"' {
        seq!['\\', '"']
    } else if c == '\\' {
        seq!['\\', '\\']
    } else if c == '\n' {
        seq!['\\', 'n']
    } else if c == '\r' {
        seq!['\\', 'r']
    } else if c == '\t' {
        seq!['\\', 't']
    } else if (c as int) < 32 {
        seq!['\\', 'u', '0', '0', hex_digit(c as int / 16), hex_digit(c as int % 16)]
    } else {
        seq![c]
    }
}

/// A character that needs no escaping.
pub open spec fn is_plain_char(c: char) -> bool {
    c != '"' && c != '\\' && (c as int) >= 32
}

/// The body of a JSON string literal for a text.
pub open spec fn json_escaped(s: Seq<char>) -> Seq<char>
    decreases s.len(),
{
    if s.len() == 0 {
        Seq::empty()
    } else {
        esc_char(s[0]) + json_escaped(s.drop_first())
    }
}

/// A run of plain characters escapes to itself.
proof fn lemma_esc_run(s: Seq<char>, i: int, j: int)
    requires
        0 <= i <= j <= s.len(),
        forall|k: int| i <= k < j ==> is_plain_char(#[trigger] s[k]),
    ensures
        json_escaped(s.subrange(i, s.len() as int)) == s.subrange(i, j) + json_escaped(
            s.subrange(j, s.len() as int),
        ),
    decreases j - i,
{
    if i < j {
        lemma_esc_run(s, i + 1, j);
        let whole = s.subrange(i, s.len() as int);
        assert(whole[0] == s[i]);
        assert(whole.drop_first() =~= s.subrange(i + 1, s.len() as int));
        assert(esc_char(s[i]) =~= seq![s[i]]);
        assert(seq![s[i]] + (s.subrange(i + 1, j) + json_escaped(s.subrange(j, s.len() as int)))
            =~= s.subrange(i, j) + json_escaped(s.subrange(j, s.len() as int)));
    } else {
        assert(s.subrange(i, j) =~= Seq::<char>::empty());
        assert(s.subrange(i, j) + json_escaped(s.subrange(j, s.len() as int)) =~= json_escaped(
            s.subrange(j, s.len() as int),
        ));
    }
}

/// One hexadecimal digit as a string slice.
fn hex_str(d: u64) -> (r: &'static str)
    requires
        d < 16,
    ensures
        r@ =~= seq![hex_digit(d as int)],
{
    proof {
        reveal_strlit("0");
        reveal_strlit("1");
        reveal_strlit("2");
        reveal_strlit("3");
        reveal_strlit("4");
        reveal_strlit("5");
        reveal_strlit("6");
        reveal_strlit("7");
        reveal_strlit("8");
        reveal_strlit("9");
        reveal_strlit("a");
        reveal_strlit("b");
        reveal_strlit("c");
        reveal_strlit("d");
        reveal_strlit("e");
        reveal_strlit("f");
    }
    if d == 0 { "0" }
    else if d == 1 { "1" }
    else if d == 2 { "2" }
    else if d == 3 { "3" }
    else if d == 4 { "4" }
    else if d == 5 { "5" }
    else if d == 6 { "6" }
    else if d == 7 { "7" }
    else if d == 8 { "8" }
    else if d == 9 { "9" }
    else if d == 10 { "a" }
    else if d == 11 { "b" }
    else if d == 12 { "c" }
    else if d == 13 { "d" }
    else if d == 14 { "e" }
    else { "f" }
}

/// Exec test of a character that needs no escaping.
fn plain_char(c: char) -> (r: bool)
    ensures
        r == is_plain_char(c),
{
    c != '"' && c != '\\' && c as u32 >= 32
}

/// Append the JSON-escaped form of `s` to `out`.
fn push_json_escaped(out: &mut String, s: &str)
    ensures
        final(out)@ == old(out)@ + json_escaped(s@),
{
    let len = s.unicode_len();
    let mut i: usize = 0;
    assert(s@.subrange(0, len as int) =~= s@);
    while i < len
        invariant
            len == s@.len(),
            0 <= i <= len,
            old(out)@ + json_escaped(s@) == out@ + json_escaped(s@.subrange(i as int, len as int)),
        decreases len - i,
    {
        let mut j: usize = i;
        while j < len && plain_char(s.get_char(j))
            invariant
                i <= j <= len,
                len == s@.len(),
                forall|k: int| i <= k < j ==> is_plain_char(#[trigger] s@[k]),
            decreases len - j,
        {
            j = j + 1;
        }
        proof {
            lemma_esc_run(s@, i as int, j as int);
        }
        if j > i {
            out.append(s.substring_char(i, j));
        }
        if j < len {
            let c = s.get_char(j);
            let ghost pre = out@;
            if c == '"' {
                out.append("\\\"");
                proof {
                    reveal_strlit("\\\"");
                    assert(out@ =~= pre + esc_char(c));
                }
            } else if c == '\\' {
                out.append("\\\\");
                proof {
                    reveal_strlit("\\\\");
                    assert(out@ =~= pre + esc_char(c));
                }
            } else if c == '\n' {
                out.append("\\n");
                proof {
                    reveal_strlit("\\n");
                    assert(out@ =~= pre + esc_char(c));
                }
            } else if c == '\r' {
                out.append("\\r");
                proof {
                    reveal_strlit("\\r");
                    assert(out@ =~= pre + esc_char(c));
                }
            } else if c == '\t' {
                out.append("\\t");
                proof {
                    reveal_strlit("\\t");
                    assert(out@ =~= pre + esc_char(c));
                }
            } else {
                out.append("\\u00");
                let u = c as u32;
                out.append(hex_str((u / 16) as u64));
                out.append(hex_str((u % 16) as u64));
                proof {
                    reveal_strlit("\\u00");
                    assert(out@ =~= pre + esc_char(c));
                }
            }
            proof {
                let whole = s@.subrange(j as int, len as int);
                assert(whole[0] == s@[j as int]);
                assert(whole.drop_first() =~= s@.subrange(j + 1, len as int));
            }
            i = j + 1;
        } else {
            i = j;
        }
    }
    proof {
        assert(s@.subrange(len as int, len as int) =~= Seq::<char>::empty());
    }
}

} // verus!

verus! {

/// Parts joined with a separator.
pub open spec fn join_with(parts: Seq<Seq<char>>, sep: Seq<char>) -> Seq<char>
    decreases parts.len(),
{
    if parts.len() == 0 {
        Seq::empty()
    } else if parts.len() == 1 {
        parts[0]
    } else {
        parts[0] + sep + join_with(parts.drop_first(), sep)
    }
}

/// Joining one more part appends a separator exactly when parts came
/// before it.
proof fn lemma_join_push(parts: Seq<Seq<char>>, x: Seq<char>, sep: Seq<char>)
    ensures
        join_with(parts.push(x), sep) == (if parts.len() == 0 {
            x
        } else {
            join_with(parts, sep) + sep + x
        }),
    decreases parts.len(),
{
    let all = parts.push(x);
    if parts.len() == 0 {
        assert(all.len() == 1);
        assert(join_with(all, sep) == all[0]);
        assert(all[0] == x);
    } else {
        assert(all.len() >= 2);
        assert(all[0] == parts[0]);
        assert(all.drop_first() =~= parts.drop_first().push(x));
        lemma_join_push(parts.drop_first(), x, sep);
        if parts.len() == 1 {
            assert(join_with(all, sep) == parts[0] + sep + x);
            assert(join_with(parts, sep) == parts[0]);
        } else {
            assert(join_with(all, sep) == parts[0] + sep + (join_with(
                parts.drop_first(),
                sep,
            ) + sep + x));
            assert(parts[0] + sep + (join_with(parts.drop_first(), sep) + sep + x) =~= (parts[0]
                + sep + join_with(parts.drop_first(), sep)) + sep + x);
        }
    }
}

/// The JSON rendering of one field value: a quoted, escaped string
/// literal for a string value, the stored JSON text otherwise.
pub open spec fn json_field_val(f: (Seq<char>, Seq<char>, bool)) -> Seq<char> {
    if f.2 {
        "\""@ + json_escaped(f.1) + "\""@
    } else {
        f.1
    }
}

/// The JSON rendering of one field: a quoted key and its value.
pub open spec fn json_field_pair(f: (Seq<char>, Seq<char>, bool)) -> Seq<char> {
    "\""@ + json_escaped(f.0) + "\":"@ + json_field_val(f)
}

/// The JSON rendering of a field mapping's body.
pub open spec fn fields_json(fs: Seq<(Seq<char>, Seq<char>, bool)>) -> Seq<char> {
    join_with(fs.map_values(|f: (Seq<char>, Seq<char>, bool)| json_field_pair(f)), ","@)
}

/// The decimal form of a signed integer.
pub open spec fn int_dec(n: int) -> Seq<char> {
    if n < 0 {
        "-"@ + dec_digits(-n)
    } else {
        dec_digits(n)
    }
}

/// The JSON rendering of one record.
pub open spec fn fmt_json(e: LogEntryV) -> Seq<char> {
    "{\"timestamp_millis\":"@ + int_dec(e.timestamp_millis) + ",\"service\":\""@ + json_escaped(
        e.service,
    ) + "\",\"level\":\""@ + level_name(e.level) + "\",\"message\":\""@ + json_escaped(e.message)
        + "\",\"fields\":{"@ + fields_json(e.fields) + "},\"raw\":\""@ + json_escaped(e.raw)
        + "\"}"@
}

/// Milliseconds into the day of an instant; instants before the
/// epoch render as midnight.
pub open spec fn tod_of(t: int) -> int {
    if t >= 0 {
        t % 86400000
    } else {
        0
    }
}

/// The level name padded to five columns.
pub open spec fn level_pad(l: LogLevel) -> Seq<char> {
    match l {
        LogLevel::Trace => "TRACE"@,
        LogLevel::Debug => "DEBUG"@,
        LogLevel::Info => "INFO "@,
        LogLevel::Warn => "WARN "@,
        LogLevel::Error => "ERROR"@,
    }
}

/// The plain rendering of one field: `key=value`.
pub open spec fn pretty_field_pair(f: (Seq<char>, Seq<char>, bool)) -> Seq<char> {
    f.0 + "="@ + json_field_val(f)
}

/// The plain rendering of a record's fields, space-separated.
pub open spec fn fields_pretty(fs: Seq<(Seq<char>, Seq<char>, bool)>) -> Seq<char> {
    join_with(fs.map_values(|f: (Seq<char>, Seq<char>, bool)| pretty_field_pair(f)), " "@)
}

/// The pretty rendering of one record: time of day, padded level,
/// service and message, with the fields on an indented second line
/// when there are any.
pub open spec fn fmt_pretty(e: LogEntryV) -> Seq<char> {
    let t = tod_of(e.timestamp_millis);
    two_dec(t / 3600000) + ":"@ + two_dec(t / 60000 % 60) + ":"@ + two_dec(t / 1000 % 60) + "."@
        + three_dec(t % 1000) + " "@ + level_pad(e.level) + " "@ + e.service + " "@ + e.message + (
    if e.fields.len() > 0 {
        "\n  "@ + fields_pretty(e.fields)
    } else {
        Seq::<char>::empty()
    })
}

/// The rendering of one record in a format.
pub open spec fn fmt_entry(e: LogEntryV, f: LogFormat) -> Seq<char> {
    match f {
        LogFormat::Pretty => fmt_pretty(e),
        LogFormat::Json => fmt_json(e),
        LogFormat::Raw => e.raw,
    }
}

/// Append the decimal form of a signed integer to `out`.
fn push_i64_dec(out: &mut String, n: i64)
    ensures
        final(out)@ == old(out)@ + int_dec(n as int),
{
    if n >= 0 {
        let d = u64_to_dec(n as u64);
        out.append(d.as_str());
    } else {
        out.append("-");
        let mag: u64 = ((-(n + 1)) as u64) + 1;
        assert(mag as int == -(n as int));
        let d = u64_to_dec(mag);
        out.append(d.as_str());
        assert(out@ =~= old(out)@ + int_dec(n as int));
    }
}

/// Append the JSON rendering of one field value to `out`.
fn push_field_val(out: &mut String, f: &(String, String, bool))
    ensures
        final(out)@ == old(out)@ + json_field_val((f.0@, f.1@, f.2)),
{
    if f.2 {
        out.append("\"");
        push_json_escaped(out, f.1.as_str());
        out.append("\"");
        assert(out@ =~= old(out)@ + json_field_val((f.0@, f.1@, f.2)));
    } else {
        out.append(f.1.as_str());
    }
}

/// Append the JSON rendering of a record's fields to `out`.
fn push_fields_json(out: &mut String, fs: &Vec<(String, String, bool)>)
    ensures
        final(out)@ == old(out)@ + fields_json(fs.deep_view()),
{
    let ghost fsv = fs.deep_view();
    let ghost parts = fsv.map_values(|f: (Seq<char>, Seq<char>, bool)| json_field_pair(f));
    let n = fs.len();
    assert(parts.subrange(0, 0) =~= Seq::<Seq<char>>::empty());
    for i in 0..n
        invariant
            n == fs@.len(),
            fsv == fs.deep_view(),
            (parts == fsv.map_values(|f: (Seq<char>, Seq<char>, bool)| json_field_pair(f))),
            out@ == old(out)@ + join_with(parts.subrange(0, i as int), ","@),
    {
        proof {
            lemma_join_push(parts.subrange(0, i as int), parts[i as int], ","@);
            assert(parts.subrange(0, i + 1) =~= parts.subrange(0, i as int).push(
                parts[i as int],
            ));
        }
        let ghost pre = out@;
        if i > 0 {
            out.append(",");
        }
        let f = &fs[i];
        out.append("\"");
        push_json_escaped(out, f.0.as_str());
        out.append("\":");
        push_field_val(out, f);
        proof {
            assert((f.0@, f.1@, f.2) == fsv[i as int]);
            if i == 0 {
                assert(out@ =~= pre + parts[i as int]);
            } else {
                assert(out@ =~= pre + ","@ + parts[i as int]);
            }
            assert(out@ =~= old(out)@ + join_with(parts.subrange(0, i + 1), ","@));
        }
    }
    assert(parts.subrange(0, n as int) =~= parts);
}

/// Append the plain rendering of a record's fields to `out`.
fn push_fields_pretty(out: &mut String, fs: &Vec<(String, String, bool)>)
    ensures
        final(out)@ == old(out)@ + fields_pretty(fs.deep_view()),
{
    let ghost fsv = fs.deep_view();
    let ghost parts = fsv.map_values(|f: (Seq<char>, Seq<char>, bool)| pretty_field_pair(f));
    let n = fs.len();
    assert(parts.subrange(0, 0) =~= Seq::<Seq<char>>::empty());
    for i in 0..n
        invariant
            n == fs@.len(),
            fsv == fs.deep_view(),
            (parts == fsv.map_values(|f: (Seq<char>, Seq<char>, bool)| pretty_field_pair(f))),
            out@ == old(out)@ + join_with(parts.subrange(0, i as int), " "@),
    {
        proof {
            lemma_join_push(parts.subrange(0, i as int), parts[i as int], " "@);
            assert(parts.subrange(0, i + 1) =~= parts.subrange(0, i as int).push(
                parts[i as int],
            ));
        }
        let ghost pre = out@;
        if i > 0 {
            out.append(" ");
        }
        let f = &fs[i];
        out.append(f.0.as_str());
        out.append("=");
        push_field_val(out, f);
        proof {
            assert((f.0@, f.1@, f.2) == fsv[i as int]);
            if i == 0 {
                assert(out@ =~= pre + parts[i as int]);
            } else {
                assert(out@ =~= pre + " "@ + parts[i as int]);
            }
            assert(out@ =~= old(out)@ + join_with(parts.subrange(0, i + 1), " "@));
        }
    }
    assert(parts.subrange(0, n as int) =~= parts);
}

/// Render one record in the requested format.
pub fn format_entry(e: &LogEntry, format: LogFormat) -> (r: String)
    ensures
        r@ == fmt_entry(e@, format),
{
    match format {
        LogFormat::Raw => e.raw.clone(),
        LogFormat::Json => {
            let mut out = String::from_str("{\"timestamp_millis\":");
            push_i64_dec(&mut out, e.timestamp_millis);
            out.append(",\"service\":\"");
            push_json_escaped(&mut out, e.service.as_str());
            out.append("\",\"level\":\"");
            out.append(e.level.name());
            out.append("\",\"message\":\"");
            push_json_escaped(&mut out, e.message.as_str());
            out.append("\",\"fields\":{");
            push_fields_json(&mut out, &e.fields);
            out.append("},\"raw\":\"");
            push_json_escaped(&mut out, e.raw.as_str());
            out.append("\"}");
            assert(out@ =~= fmt_json(e@));
            out
        },
        LogFormat::Pretty => {
            let t0 = e.timestamp_millis;
            let tod: i64 = if t0 >= 0 {
                t0 % 86400000
            } else {
                0
            };
            let mut out = String::new();
            push_two_dec(&mut out, (tod / 3600000) as u64);
            out.append(":");
            push_two_dec(&mut out, (tod / 60000 % 60) as u64);
            out.append(":");
            push_two_dec(&mut out, (tod / 1000 % 60) as u64);
            out.append(".");
            push_three_dec(&mut out, (tod % 1000) as u64);
            out.append(" ");
            out.append(match e.level {
                LogLevel::Trace => "TRACE",
                LogLevel::Debug => "DEBUG",
                LogLevel::Info => "INFO ",
                LogLevel::Warn => "WARN ",
                LogLevel::Error => "ERROR",
            });
            out.append(" ");
            out.append(e.service.as_str());
            out.append(" ");
            out.append(e.message.as_str());
            if e.fields.len() > 0 {
                out.append("\n  ");
                push_fields_pretty(&mut out, &e.fields);
            }
            assert(out@ =~= fmt_pretty(e@));
            out
        },
    }
}

/// The text of the marker line written when a service's log file is
/// created.
pub open spec fn marker_text(
    y: int,
    m: int,
    d: int,
    h: int,
    mi: int,
    s: int,
    service: Seq<char>,
) -> Seq<char> {
    four_dec(y) + "-"@ + two_dec(m) + "-"@ + two_dec(d) + " "@ + two_dec(h) + ":"@ + two_dec(mi)
        + ":"@ + two_dec(s) + " [INFO] Service '"@ + service + "' started"@
}

/// The instant a marker is stamped with: the caller's clock, or the
/// epoch itself when the clock is outside the supported calendar
/// range (before the epoch or past the year 9999).
pub open spec fn clamped_instant(now_millis: i64) -> int {
    if 0 <= now_millis && now_millis / 86400000 < civil_to_days(10000, 1, 1) {
        now_millis as int
    } else {
        0
    }
}

/// The marker line recording a service's start, stamped with the
/// caller's clock.
pub fn start_marker(service: &str, now_millis: i64) -> (r: String)
    ensures
        exists|y: int, m: int, d: int|
            {
                &&& valid_civil_date(y, m, d)
                &&& civil_to_days(y, m, d) == clamped_instant(now_millis) / 86400000
                &&& r@ == #[trigger] marker_text(
                    y,
                    m,
                    d,
                    tod_of(clamped_instant(now_millis)) / 3600000,
                    tod_of(clamped_instant(now_millis)) / 60000 % 60,
                    tod_of(clamped_instant(now_millis)) / 1000 % 60,
                    service@,
                )
            },
{
    let limit = epoch_day_limit();
    let t: i64 = if now_millis >= 0 && (now_millis / 86400000) < (limit as i64) {
        now_millis
    } else {
        0
    };
    proof {
        assert(civil_to_days(1970, 1, 1) == 0);
    }
    let days: u64 = (t / 86400000) as u64;
    let tod: i64 = t % 86400000;
    let (y, m, d) = civil_of_days(days);
    let mut out = String::new();
    push_four_dec(&mut out, y);
    out.append("-");
    push_two_dec(&mut out, m);
    out.append("-");
    push_two_dec(&mut out, d);
    out.append(" ");
    push_two_dec(&mut out, (tod / 3600000) as u64);
    out.append(":");
    push_two_dec(&mut out, (tod / 60000 % 60) as u64);
    out.append(":");
    push_two_dec(&mut out, (tod / 1000 % 60) as u64);
    out.append(" [INFO] Service '");
    out.append(service);
    out.append("' started");
    proof {
        assert(clamped_instant(now_millis) == t as int);
        assert(tod as int == tod_of(clamped_instant(now_millis)));
        assert(out@ =~= marker_text(
            y as int,
            m as int,
            d as int,
            tod_of(clamped_instant(now_millis)) / 3600000,
            tod_of(clamped_instant(now_millis)) / 60000 % 60,
            tod_of(clamped_instant(now_millis)) / 1000 % 60,
            service@,
        ));
    }
    out
}

} // verus!

verus! {

/// First index of the watcher registered for a service.
pub open spec fn find_watcher(s: Seq<(Seq<char>, Seq<char>, bool)>, service: Seq<char>) -> Option<
    int,
>
    decreases s.len(),
{
    if s.len() == 0 {
        None
    } else if s[0].0 == service {
        Some(0)
    } else {
        match find_watcher(s.drop_first(), service) {
            Some(i) => Some(i + 1),
            None => None,
        }
    }
}

proof fn lemma_find_watcher_hit(s: Seq<(Seq<char>, Seq<char>, bool)>, service: Seq<char>, i: int)
    requires
        0 <= i < s.len(),
        s[i].0 == service,
        forall|j: int| 0 <= j < i ==> s[j].0 != service,
    ensures
        find_watcher(s, service) == Some(i),
    decreases i,
{
    if i > 0 {
        lemma_find_watcher_hit(s.drop_first(), service, i - 1);
    }
}

proof fn lemma_find_watcher_miss(s: Seq<(Seq<char>, Seq<char>, bool)>, service: Seq<char>)
    requires
        forall|j: int| 0 <= j < s.len() ==> s[j].0 != service,
    ensures
        find_watcher(s, service) is None,
    decreases s.len(),
{
    if s.len() > 0 {
        lemma_find_watcher_miss(s.drop_first(), service);
    }
}

/// The aggregator: the registry of active watchers — one per
/// service, replaced when a service is registered again — and the
/// records that have arrived and not yet been shown.  The caller
/// runs the watcher tasks and feeds arriving records in.
pub struct LogStreamer {
    pub watchers: Vec<(String, String, bool)>,
    pub entries: Vec<LogEntry>,
}

impl LogStreamer {
    /// Unique watcher names.
    pub open spec fn wf(self) -> bool {
        forall|i: int, j: int|
            0 <= i < j < self.watchers@.len() ==> (#[trigger] self.watchers@[i].0@)
                != (#[trigger] self.watchers@[j].0@)
    }

    /// An empty streamer.
    pub fn new() -> (s: LogStreamer)
        ensures
            s.wf(),
            s.watchers@.len() == 0,
            s.entries@.len() == 0,
    {
        LogStreamer { watchers: Vec::new(), entries: Vec::new() }
    }

    /// Register a log file to watch for a service; registering a
    /// service again replaces its watcher entry (the previous task is
    /// abandoned, not stopped).  The watcher task itself is the
    /// caller's to run.
    pub fn add_log_file(&mut self, service: String, path: String, follow: bool)
        requires
            old(self).wf(),
        ensures
            final(self).wf(),
            final(self).entries@ == old(self).entries@,
            (match find_watcher(old(self).watchers.deep_view(), service@) {
                Some(i) => {
                    &&& final(self).watchers@.len() == old(self).watchers@.len()
                    &&& forall|j: int|
                        0 <= j < old(self).watchers@.len() && j != i
                            ==> #[trigger] final(self).watchers@[j] == old(self).watchers@[j]
                    &&& final(self).watchers@[i].0@ == service@
                    &&& final(self).watchers@[i].1@ == path@
                    &&& final(self).watchers@[i].2 == follow
                },
                None => {
                    &&& final(self).watchers@.len() == old(self).watchers@.len() + 1
                    &&& forall|j: int|
                        0 <= j < old(self).watchers@.len()
                            ==> #[trigger] final(self).watchers@[j] == old(self).watchers@[j]
                    &&& final(self).watchers@[old(self).watchers@.len() as int].0@ == service@
                    &&& final(self).watchers@[old(self).watchers@.len() as int].1@ == path@
                    &&& final(self).watchers@[old(self).watchers@.len() as int].2 == follow
                },
            }),
    {
        let n = self.watchers.len();
        let ghost wv = self.watchers.deep_view();
        let mut found: Option<usize> = None;
        for i in 0..n
            invariant
                n == self.watchers@.len(),
                wv == self.watchers.deep_view(),
                (match found {
                    Some(k) => k < n && wv[k as int].0 == service@ && forall|j: int|
                        0 <= j < k ==> (#[trigger] wv[j]).0 != service@,
                    None => forall|j: int| 0 <= j < i ==> (#[trigger] wv[j]).0 != service@,
                }),
        {
            if matches!(found, None) {
                if crate::text::str_eq(self.watchers[i].0.as_str(), service.as_str()) {
                    found = Some(i);
                }
            }
        }
        proof {
            match found {
                Some(k) => lemma_find_watcher_hit(wv, service@, k as int),
                None => lemma_find_watcher_miss(wv, service@),
            }
        }
        match found {
            Some(i) => {
                proof {
                    assert(wv[i as int].0 == old(self).watchers@[i as int].0@);
                }
                self.watchers.set(i, (service, path, follow));
                assert(self.watchers@[i as int].0@ == old(self).watchers@[i as int].0@);
            },
            None => {
                proof {
                    assert forall|j: int|
                        0 <= j < old(self).watchers@.len() implies (#[trigger] old(
                        self,
                    ).watchers@[j].0@) != service@ by {
                        assert(wv[j].0 == old(self).watchers@[j].0@);
                    }
                }
                self.watchers.push((service, path, follow));
            },
        }
    }

    /// Hand one arriving record to the streamer.
    pub fn push_entry(&mut self, e: LogEntry)
        requires
            old(self).wf(),
        ensures
            final(self).wf(),
            final(self).watchers@ == old(self).watchers@,
            final(self).entries@ == old(self).entries@.push(e),
    {
        self.entries.push(e);
    }

    /// Serve one streaming request from the buffered records, which
    /// are consumed: filter them, keep the last `lines` of the
    /// matches unless following (a follower wants the whole backlog
    /// before its live loop), and render each in the requested
    /// format, in arrival order.
    pub fn stream(&mut self, c: &LogStreamConfig) -> (r: Vec<String>)
        requires
            old(self).wf(),
        ensures
            final(self).wf(),
            final(self).watchers@ == old(self).watchers@,
            final(self).entries@.len() == 0,
            ({
                let shown = selected_views(
                    entry_views(old(self).entries@),
                    (if c.follow {
                        LogStreamConfig {
                            lines: None,
                            follow: c.follow,
                            level_filter: c.level_filter,
                            service_filter: c.service_filter,
                            pattern_filter: c.pattern_filter,
                            format: c.format,
                            buffer_size: c.buffer_size,
                        }
                    } else {
                        *c
                    }),
                );
                r.deep_view() == shown.map_values(|ev: LogEntryV| fmt_entry(ev, c.format))
            }),
    {
        let effective = LogStreamConfig {
            follow: c.follow,
            lines: if c.follow {
                None
            } else {
                c.lines
            },
            level_filter: c.level_filter,
            service_filter: match &c.service_filter {
                Some(s) => Some(s.clone()),
                None => None,
            },
            pattern_filter: match &c.pattern_filter {
                Some(p) => Some(p.clone()),
                None => None,
            },
            format: c.format,
            buffer_size: c.buffer_size,
        };
        let ghost spec_cfg = if c.follow {
            LogStreamConfig {
                lines: None,
                follow: c.follow,
                level_filter: c.level_filter,
                service_filter: c.service_filter,
                pattern_filter: c.pattern_filter,
                format: c.format,
                buffer_size: c.buffer_size,
            }
        } else {
            *c
        };
        proof {
            assert forall|ev: LogEntryV| #[trigger] passes_filters(ev, effective)
                == passes_filters(ev, spec_cfg) by {}
            assert(entry_views(old(self).entries@).filter(
                |ev: LogEntryV| passes_filters(ev, effective),
            ) =~= entry_views(old(self).entries@).filter(
                |ev: LogEntryV| passes_filters(ev, spec_cfg),
            ));
        }
        let selected = select_entries(&self.entries, &effective);
        self.entries = Vec::new();
        let mut out: Vec<String> = Vec::new();
        let m = selected.len();
        let ghost shown = entry_views(selected@);
        for i in 0..m
            invariant
                m == selected@.len(),
                shown == entry_views(selected@),
                c.format == spec_cfg.format,
                out@.len() == i,
                forall|k: int|
                    0 <= k < i ==> (#[trigger] out@[k])@ == fmt_entry(shown[k], c.format),
        {
            out.push(format_entry(&selected[i], c.format));
        }
        proof {
            assert(out.deep_view() =~~= shown.map_values(
                |ev: LogEntryV| fmt_entry(ev, c.format),
            ));
        }
        out
    }

    /// Forget every watcher; their tasks stop on their own.  Buffered
    /// records are kept.
    pub fn stop(&mut self)
        requires
            old(self).wf(),
        ensures
            final(self).wf(),
            final(self).watchers@.len() == 0,
            final(self).entries@ == old(self).entries@,
    {
        self.watchers = Vec::new();
    }
}

/// The log file a service writes to under a log directory.
pub fn log_file_path(service: &str, log_dir: &str) -> (r: String)
    ensures
        r@ == log_dir@ + "/"@ + service@ + ".log"@,
{
    let mut out = String::from_str(log_dir);
    out.append("/");
    out.append(service);
    out.append(".log");
    assert(out@ =~= log_dir@ + "/"@ + service@ + ".log"@);
    out
}

} // verus!

verus! {

/// With only a minimum-level filter configured and no line limit, a
/// one-shot selection shows exactly the records whose level is at or
/// above the minimum — no others — and keeps their arrival order:
/// it is the subsequence filter of the stream.
pub proof fn lemma_level_filter_exact(evs: Seq<LogEntryV>, c: LogStreamConfig, min: LogLevel)
    requires
        c.level_filter == Some(min),
        c.service_filter is None,
        c.pattern_filter is None,
        c.lines is None,
    ensures
        selected_views(evs, c) == evs.filter(
            |ev: LogEntryV| severity(ev.level) >= severity(min),
        ),
{
    let with_config = |ev: LogEntryV| passes_filters(ev, c);
    let by_level = |ev: LogEntryV| severity(ev.level) >= severity(min);
    assert forall|ev: LogEntryV| #[trigger] with_config(ev) == by_level(ev) by {}
    assert(with_config =~= by_level);
    assert(selected_views(evs, c) == evs.filter(with_config));
}

} // verus!
