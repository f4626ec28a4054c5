//! Entry lines: one logged event each.

use crate::clock::{clock_reading, read_clock, reading_time, time_from_reading, ClockTime};
use crate::error::ParseError;
use crate::pattern::{capture_groups, is_text, regex_groups};
use crate::text::{
    chars_of, has_prefix, is_space, lemma_leading_spaces, starts_with, string_of, trim,
    trim_bounds, trimmed,
};
use vstd::prelude::*;

verus! {

/// The marker of a line from the standard stream.
pub const OUT_MARK: &'static str = "[OUT]";

/// The marker of a line from the error stream.
pub const ERR_MARK: &'static str = "[ERR]";

/// An entry with a time stamp: the time, the thread and the executor in
/// square brackets, then optionally a colon and one white-space character,
/// then the payload.
pub const TIMED_PATTERN: &'static str =
    r"^\[(\d{2}:\d{2}:\d{2})] \[([^\]]+)] \[([^\]]+)]\:?\s?(.*)$";

/// An entry without a time stamp: the thread and the executor in square
/// brackets, a space, and a payload that is not empty.
pub const PLAIN_PATTERN: &'static str = r"^\[([^\]]+)] \[([^\]]+)] (.+)$";

/// How a time stamp is written: hour, minute and second, with colons.
pub const TIME_FORMAT: &'static str = "%H:%M:%S";

/// The stream that an entry came from.
#[derive(Debug, Clone, Copy, PartialEq, Eq)]
pub enum LogKind {
    /// The standard stream.
    Standard,
    /// The error stream.
    Error,
}

/// One entry of a log file.
#[derive(Debug, Clone, PartialEq, Eq)]
pub struct Log {
    pub log_line: usize,
    pub kind: LogKind,
    pub time: Option<ClockTime>,
    pub thread: String,
    pub executor: String,
    pub data: Vec<String>,
}

/// An entry with its texts as sequences of characters.
pub struct LogView {
    pub log_line: usize,
    pub kind: LogKind,
    pub time: Option<ClockTime>,
    pub thread: Seq<char>,
    pub executor: Seq<char>,
    pub data: Seq<Seq<char>>,
}

impl LogView {
    /// Whether the time, if there is one, is a time of day, and the payload
    /// holds at most one text, which is not empty.
    pub open spec fn is_valid(&self) -> bool {
        &&& self.time is Some ==> self.time->0.is_valid()
        &&& self.data.len() <= 1
        &&& self.data.len() == 1 ==> self.data[0].len() > 0
    }
}

impl View for Log {
    type V = LogView;

    open spec fn view(&self) -> LogView {
        LogView {
            log_line: self.log_line,
            kind: self.kind,
            time: self.time,
            thread: self.thread@,
            executor: self.executor@,
            data: self.data.deep_view(),
        }
    }
}

/// The stream whose marker `s` begins with.
pub open spec fn kind_of(s: Seq<char>) -> Option<LogKind> {
    if starts_with(s, OUT_MARK@) {
        Some(LogKind::Standard)
    } else if starts_with(s, ERR_MARK@) {
        Some(LogKind::Error)
    } else {
        None
    }
}

/// The marker of a stream.
pub open spec fn mark_of(kind: LogKind) -> Seq<char> {
    match kind {
        LogKind::Standard => OUT_MARK@,
        LogKind::Error => ERR_MARK@,
    }
}

/// The entry of a line that holds a marker and nothing else.
pub open spec fn bare(line: usize, kind: LogKind) -> LogView {
    LogView {
        log_line: line,
        kind,
        time: None,
        thread: Seq::empty(),
        executor: Seq::empty(),
        data: Seq::empty(),
    }
}

/// The entry of a line that continues the one before it: all of `content`
/// is payload.
pub open spec fn continuation(line: usize, kind: LogKind, content: Seq<char>) -> LogView {
    LogView {
        log_line: line,
        kind,
        time: None,
        thread: Seq::empty(),
        executor: Seq::empty(),
        data: seq![content],
    }
}

/// Whether `groups` is a match of the pattern with a time stamp: the whole
/// match, the time, the thread, the executor and the payload.
pub open spec fn timed_matched(groups: Option<Seq<Option<Seq<char>>>>) -> bool {
    &&& groups matches Some(g)
    &&& g.len() == 5
    &&& g[1] is Some
    &&& g[2] is Some
    &&& g[3] is Some
}

/// Whether `groups` is a match of the pattern without a time stamp: the
/// whole match, the thread, the executor and a payload that is not empty.
pub open spec fn plain_matched(groups: Option<Seq<Option<Seq<char>>>>) -> bool {
    &&& groups matches Some(g)
    &&& g.len() == 4
    &&& g[1] is Some
    &&& g[2] is Some
    &&& is_text(g[3])
}

/// The payload that `text` makes: none where it is empty.
pub open spec fn payload_of(text: Seq<char>) -> Seq<Seq<char>> {
    if text.len() == 0 {
        Seq::empty()
    } else {
        seq![text]
    }
}

/// The text that a group captured, empty where it captured none.
pub open spec fn text_of(group: Option<Seq<char>>) -> Seq<char> {
    match group {
        Some(t) => t,
        None => Seq::empty(),
    }
}

/// The entry that the content after the marker stands for, given what
/// matching it against the two patterns and reading its time stamp gave.
///
/// A match of the pattern with a time stamp decides first: the entry has
/// the time that `reading` stands for, and fails where it stands for none;
/// its payload is trimmed. Else a match of the pattern without a time stamp
/// gives thread, executor and payload as they are. Else the content is a
/// continuation.
pub open spec fn entry_of(
    line: usize,
    kind: LogKind,
    content: Seq<char>,
    timed: Option<Seq<Option<Seq<char>>>>,
    reading: Option<(u32, u32, u32, u32)>,
    plain: Option<Seq<Option<Seq<char>>>>,
) -> Result<LogView, ParseError> {
    if timed_matched(timed) {
        let g = timed->0;
        match reading_time(reading) {
            Some(time) => Ok(
                LogView {
                    log_line: line,
                    kind,
                    time: Some(time),
                    thread: g[2]->0,
                    executor: g[3]->0,
                    data: payload_of(trim(text_of(g[4]))),
                },
            ),
            None => Err(ParseError::InvalidTimestamp { line }),
        }
    } else if plain_matched(plain) {
        let g = plain->0;
        Ok(
            LogView {
                log_line: line,
                kind,
                time: None,
                thread: g[1]->0,
                executor: g[2]->0,
                data: seq![g[3]->0],
            },
        )
    } else {
        Ok(continuation(line, kind, content))
    }
}

/// What the content after the marker stands for.
pub open spec fn content_spec(line: usize, kind: LogKind, content: Seq<char>) -> Result<
    LogView,
    ParseError,
> {
    let timed = regex_groups(TIMED_PATTERN@, content);
    let reading = if timed_matched(timed) {
        clock_reading(timed->0[1]->0, TIME_FORMAT@)
    } else {
        None
    };
    entry_of(line, kind, content, timed, reading, regex_groups(PLAIN_PATTERN@, content))
}

/// What parsing `text` as the entry line number `line` gives.
pub open spec fn entry_spec(line: usize, text: Seq<char>) -> Result<LogView, ParseError> {
    let t = trim(text);
    if t.len() == 0 {
        Err(ParseError::EmptyLine { line })
    } else {
        match kind_of(t) {
            None => Err(ParseError::UnknownLogKind { line }),
            Some(kind) => {
                let content = trim(t.skip(mark_of(kind).len() as int));
                if content.len() == 0 {
                    Ok(bare(line, kind))
                } else {
                    content_spec(line, kind, content)
                }
            },
        }
    }
}

/// A parse result with the entry seen through its view.
pub open spec fn outcome(r: Result<Log, ParseError>) -> Result<LogView, ParseError> {
    match r {
        Ok(entry) => Ok(entry@),
        Err(e) => Err(e),
    }
}

/// The entry of a line that holds a marker and nothing else.
pub fn bare_entry(line: usize, kind: LogKind) -> (r: Log)
    ensures
        r@ == bare(line, kind),
{
    let r = Log {
        log_line: line,
        kind,
        time: None,
        thread: String::new(),
        executor: String::new(),
        data: Vec::new(),
    };
    assert(r.data.deep_view() =~= Seq::<Seq<char>>::empty());
    r
}

/// The payload made of `text`: empty where `text` is.
fn payload(text: String) -> (r: Vec<String>)
    ensures
        r.deep_view() == payload_of(text@),
{
    let mut data: Vec<String> = Vec::new();
    if !text.as_str().is_empty() {
        data.push(text);
    }
    data
}

/// The payload made of `text` alone.
fn single(text: String) -> (r: Vec<String>)
    ensures
        r.deep_view() == seq![text@],
{
    let mut data: Vec<String> = Vec::new();
    data.push(text);
    data
}

/// Whether `groups` is a match of the pattern with a time stamp.
pub fn is_timed_match(groups: &Option<Vec<Option<String>>>) -> (r: bool)
    ensures
        r == timed_matched(groups.deep_view()),
{
    match groups {
        None => false,
        Some(g) => {
            g.len() == 5 && g[1].is_some() && g[2].is_some() && g[3].is_some()
        },
    }
}

/// Whether `groups` is a match of the pattern without a time stamp.
pub fn is_plain_match(groups: &Option<Vec<Option<String>>>) -> (r: bool)
    ensures
        r == plain_matched(groups.deep_view()),
{
    match groups {
        None => false,
        Some(g) => {
            if g.len() != 4 {
                return false;
            }
            let payload_present = match &g[3] {
                Some(t) => !t.as_str().is_empty(),
                None => false,
            };
            g[1].is_some() && g[2].is_some() && payload_present
        },
    }
}

/// Builds the entry from the content after the marker and from what
/// matching it against the two patterns and reading its time stamp gave.
pub fn entry_from_matches(
    line: usize,
    kind: LogKind,
    content: &str,
    timed: &Option<Vec<Option<String>>>,
    reading: Option<(u32, u32, u32, u32)>,
    plain: &Option<Vec<Option<String>>>,
) -> (r: Result<Log, ParseError>)
    ensures
        outcome(r) == entry_of(
            line,
            kind,
            content@,
            timed.deep_view(),
            reading,
            plain.deep_view(),
        ),
        r matches Ok(entry) ==> (content@.len() > 0 ==> entry@.is_valid()),
{
    if is_timed_match(timed) {
        let g = timed.as_ref().unwrap();
        let time = match time_from_reading(reading) {
            Some(time) => time,
            None => {
                return Err(ParseError::InvalidTimestamp { line });
            },
        };
        let text = match &g[4] {
            Some(t) => trimmed(t.as_str()),
            None => String::new(),
        };
        Ok(
            Log {
                log_line: line,
                kind,
                time: Some(time),
                thread: g[2].as_ref().unwrap().clone(),
                executor: g[3].as_ref().unwrap().clone(),
                data: payload(text),
            },
        )
    } else if is_plain_match(plain) {
        let g = plain.as_ref().unwrap();
        let ghost v = g.deep_view();
        assert(v[1] == Some((g@[1]->0)@) && v[2] == Some((g@[2]->0)@) && v[3] == Some(
            (g@[3]->0)@,
        ));
        Ok(
            Log {
                log_line: line,
                kind,
                time: None,
                thread: g[1].as_ref().unwrap().clone(),
                executor: g[2].as_ref().unwrap().clone(),
                data: single(g[3].as_ref().unwrap().clone()),
            },
        )
    } else {
        Ok(
            Log {
                log_line: line,
                kind,
                time: None,
                thread: String::new(),
                executor: String::new(),
                data: single(content.to_owned()),
            },
        )
    }
}

/// Parses the content that follows the marker of an entry line.
fn parse_content(line: usize, kind: LogKind, content: &str) -> (r: Result<Log, ParseError>)
    ensures
        outcome(r) == content_spec(line, kind, content@),
        r matches Ok(entry) ==> (content@.len() > 0 ==> entry@.is_valid()),
{
    let timed = capture_groups(TIMED_PATTERN, content);
    if is_timed_match(&timed) {
        let reading = match &timed.as_ref().unwrap()[1] {
            Some(stamp) => read_clock(stamp.as_str(), TIME_FORMAT),
            None => None,
        };
        assert(timed.deep_view()->0[1] == Some((timed->0@[1]->0)@));
        entry_from_matches(line, kind, content, &timed, reading, &None)
    } else {
        let plain = capture_groups(PLAIN_PATTERN, content);
        entry_from_matches(line, kind, content, &timed, None, &plain)
    }
}

/// Parses one entry line. `line` is the line's index among the entry lines.
///
/// Fails with `EmptyLine` where the line holds nothing but white space,
/// with `UnknownLogKind` where it begins with neither marker, and with
/// `InvalidTimestamp` where its time stamp is no time of day. A line that
/// holds a marker alone gives an entry without thread, executor or payload.
pub fn parse(line: usize, log: &str) -> (r: Result<Log, ParseError>)
    ensures
        outcome(r) == entry_spec(line, log@),
        r matches Ok(entry) ==> entry@.is_valid() && entry.log_line == line,
{
    let cs = chars_of(log);
    let n = cs.len();
    proof {
        assert(cs@.subrange(0, n as int) =~= log@);
        reveal_strlit("[OUT]");
        reveal_strlit("[ERR]");
    }
    let (a, b) = trim_bounds(cs.as_slice(), 0, n);
    if a == b {
        return Err(ParseError::EmptyLine { line });
    }
    let kind = if has_prefix(cs.as_slice(), a, b, OUT_MARK) {
        LogKind::Standard
    } else if has_prefix(cs.as_slice(), a, b, ERR_MARK) {
        LogKind::Error
    } else {
        return Err(ParseError::UnknownLogKind { line });
    };
    proof {
        assert(cs@.subrange(a as int, b as int).skip(5) =~= cs@.subrange(a + 5, b as int));
    }
    let (c, d) = trim_bounds(cs.as_slice(), a + 5, b);
    if c == d {
        return Ok(bare_entry(line, kind));
    }
    let content = string_of(cs.as_slice(), c, d);
    parse_content(line, kind, content.as_str())
}

/// A line that holds a marker alone, white space around it aside, parses to
/// the entry of that stream without time, thread, executor or payload.
pub proof fn law_bare_marker(line: usize, text: Seq<char>, kind: LogKind)
    requires
        trim(text) == mark_of(kind),
    ensures
        entry_spec(line, text) == Ok::<LogView, ParseError>(bare(line, kind)),
{
    reveal_strlit("[OUT]");
    reveal_strlit("[ERR]");
    let t = trim(text);
    assert(t.take(5) =~= t);
    assert(kind_of(t) == Some(kind)) by {
        if kind == LogKind::Error {
            assert(t[1] != OUT_MARK@[1]);
        }
    }
}

/// A line of white space alone, or of nothing, is an empty line.
pub proof fn law_blank_line(line: usize, text: Seq<char>)
    requires
        forall|i: int| 0 <= i < text.len() ==> is_space(#[trigger] text[i]),
    ensures
        entry_spec(line, text) == Err::<LogView, ParseError>(ParseError::EmptyLine { line }),
{
    lemma_leading_spaces(text, text.len() as int);
}

/// A line that, once trimmed, is not empty and begins with neither marker
/// is of unknown kind.
pub proof fn law_unknown_kind(line: usize, text: Seq<char>)
    requires
        trim(text).len() > 0,
        !starts_with(trim(text), OUT_MARK@),
        !starts_with(trim(text), ERR_MARK@),
    ensures
        entry_spec(line, text) == Err::<LogView, ParseError>(ParseError::UnknownLogKind { line }),
{
}

/// An entry line fails in one of three ways only, and the failure names the
/// line: it is empty, it has no marker, or the pattern with a time stamp
/// matches it and the time stamp is no time of day.
pub proof fn law_entry_failures(line: usize, text: Seq<char>)
    requires
        entry_spec(line, text) is Err,
    ensures
        entry_spec(line, text)->Err_0 == (ParseError::EmptyLine { line }) || entry_spec(
            line,
            text,
        )->Err_0 == (ParseError::UnknownLogKind { line }) || entry_spec(line, text)->Err_0 == (
        ParseError::InvalidTimestamp { line }),
        entry_spec(line, text)->Err_0 == (ParseError::EmptyLine { line }) <==> trim(text).len()
            == 0,
        entry_spec(line, text)->Err_0 == (ParseError::UnknownLogKind { line }) <==> trim(
            text,
        ).len() > 0 && kind_of(trim(text)) is None,
{
}

/// An entry that a line parses to holds the line's index and is valid.
pub proof fn law_entry_is_valid(line: usize, text: Seq<char>)
    requires
        entry_spec(line, text) is Ok,
    ensures
        entry_spec(line, text)->Ok_0.log_line == line,
        entry_spec(line, text)->Ok_0.is_valid(),
{
    let t = trim(text);
    let kind = kind_of(t)->0;
    let content = trim(t.skip(mark_of(kind).len() as int));
    if content.len() > 0 {
        let timed = regex_groups(TIMED_PATTERN@, content);
    }
}

} // verus!
