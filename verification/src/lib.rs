//! Parser for the RFLog launcher log format.
//!
//! A log file is a header line followed by entry lines. [`parse`] reads a
//! whole body, [`info_line::parse`] the header and [`log::parse`] one entry.

pub mod clock;
pub mod decimal;
pub mod error;
pub mod info_line;
pub mod log;
pub mod pattern;
pub mod text;

use crate::error::ParseError;
use crate::info_line::{header_spec, InfoLineView, RFLogInfoLine};
use crate::log::{entry_spec, Log, LogView};
use crate::text::{lines, split_lines};
use vstd::prelude::*;

verus! {

/// A parsed log file: the header and the entries in the order of their lines.
#[derive(Debug, Clone, PartialEq, Eq)]
pub struct RFLogFile {
    pub info_line: RFLogInfoLine,
    pub logs: Vec<Log>,
}

/// A log file with its texts as sequences of characters.
pub struct FileView {
    pub info_line: InfoLineView,
    pub logs: Seq<LogView>,
}

impl FileView {
    /// Whether the header and every entry are valid and each entry holds
    /// the index of its own line.
    pub open spec fn is_valid(&self) -> bool {
        &&& self.info_line.is_valid()
        &&& forall|i: int|
            0 <= i < self.logs.len() ==> (#[trigger] self.logs[i]).is_valid() && self.logs[i].log_line
                == i
    }
}

/// The entries of `logs`, each seen through its view.
pub open spec fn logs_view(logs: Seq<Log>) -> Seq<LogView> {
    logs.map_values(|entry: Log| entry@)
}

impl View for RFLogFile {
    type V = FileView;

    open spec fn view(&self) -> FileView {
        FileView { info_line: self.info_line@, logs: logs_view(self.logs@) }
    }
}

/// What parsing `lines` as entry lines gives: every entry in order, or the
/// error of the first line that fails.
pub open spec fn entries_spec(lines: Seq<Seq<char>>) -> Result<Seq<LogView>, ParseError>
    decreases lines.len(),
{
    if lines.len() == 0 {
        Ok(Seq::empty())
    } else {
        match entries_spec(lines.drop_last()) {
            Err(e) => Err(e),
            Ok(entries) => match entry_spec((lines.len() - 1) as usize, lines.last()) {
                Err(e) => Err(e),
                Ok(entry) => Ok(entries.push(entry)),
            },
        }
    }
}

/// What parsing `body` gives. A body without a line has no header. The
/// lines after the first are entries; the first failure among them is the
/// body's, and where none fails, a failure of the header line is.
pub open spec fn file_spec(body: Seq<char>) -> Result<FileView, ParseError> {
    let lines = split_lines(body);
    if lines.len() == 0 {
        Err(ParseError::MissingHeaderLine)
    } else {
        match entries_spec(lines.skip(1)) {
            Err(e) => Err(e),
            Ok(logs) => match header_spec(lines[0]) {
                Err(e) => Err(e),
                Ok(info_line) => Ok(FileView { info_line, logs }),
            },
        }
    }
}

/// A parse result with the file seen through its view.
pub open spec fn outcome(r: Result<RFLogFile, ParseError>) -> Result<FileView, ParseError> {
    match r {
        Ok(file) => Ok(file@),
        Err(e) => Err(e),
    }
}

/// A failure among the first `k` lines is the failure of all the lines.
pub proof fn lemma_failure_stays(lines: Seq<Seq<char>>, k: int)
    requires
        0 <= k <= lines.len(),
        entries_spec(lines.take(k)) is Err,
    ensures
        entries_spec(lines) == entries_spec(lines.take(k)),
    decreases lines.len() - k,
{
    if k < lines.len() {
        assert(lines.take(k + 1).drop_last() =~= lines.take(k));
        lemma_failure_stays(lines, k + 1);
    } else {
        assert(lines.take(k) =~= lines);
    }
}

/// Where each of the first `k` lines parses, so do they together, to the
/// entries of the lines in order.
pub proof fn lemma_entries_in_order(lines: Seq<Seq<char>>, k: int)
    requires
        0 <= k <= lines.len(),
        forall|i: int| 0 <= i < k ==> (#[trigger] entry_spec(i as usize, lines[i])) is Ok,
    ensures
        entries_spec(lines.take(k)) is Ok,
        entries_spec(lines.take(k))->Ok_0.len() == k,
        forall|i: int|
            0 <= i < k ==> entry_spec(i as usize, lines[i]) == Ok::<LogView, ParseError>(
                #[trigger] entries_spec(lines.take(k))->Ok_0[i],
            ),
    decreases k,
{
    if k > 0 {
        lemma_entries_in_order(lines, k - 1);
        assert(lines.take(k).drop_last() =~= lines.take(k - 1));
    }
}

/// The entries fail with the error of the first line that fails.
pub proof fn law_first_failure(lines: Seq<Seq<char>>, k: int)
    requires
        0 <= k < lines.len(),
        forall|i: int| 0 <= i < k ==> (#[trigger] entry_spec(i as usize, lines[i])) is Ok,
        entry_spec(k as usize, lines[k]) is Err,
    ensures
        entries_spec(lines) == Err::<Seq<LogView>, ParseError>(
            entry_spec(k as usize, lines[k])->Err_0,
        ),
{
    lemma_entries_in_order(lines, k);
    assert(lines.take(k + 1).drop_last() =~= lines.take(k));
    lemma_failure_stays(lines, k + 1);
}

/// Where every line parses, the entries are those of the lines, in order.
pub proof fn law_all_entries(lines: Seq<Seq<char>>)
    requires
        forall|i: int|
            0 <= i < lines.len() ==> (#[trigger] entry_spec(i as usize, lines[i])) is Ok,
    ensures
        entries_spec(lines) is Ok,
        entries_spec(lines)->Ok_0.len() == lines.len(),
        forall|i: int|
            0 <= i < lines.len() ==> entry_spec(i as usize, lines[i]) == Ok::<LogView, ParseError>(
                #[trigger] entries_spec(lines)->Ok_0[i],
            ),
{
    lemma_entries_in_order(lines, lines.len() as int);
    assert(lines.take(lines.len() as int) =~= lines);
}

/// A body without a character has no header line.
pub proof fn law_empty_body()
    ensures
        file_spec(Seq::empty()) == Err::<FileView, ParseError>(ParseError::MissingHeaderLine),
{
}

/// A body whose second line does not parse as an entry fails with that
/// line's error, whatever its other lines hold.
pub proof fn law_second_line_failure(body: Seq<char>)
    requires
        split_lines(body).len() >= 2,
        entry_spec(0, split_lines(body)[1]) is Err,
    ensures
        file_spec(body) == Err::<FileView, ParseError>(
            entry_spec(0, split_lines(body)[1])->Err_0,
        ),
{
    let rest = split_lines(body).skip(1);
    law_first_failure(rest, 0);
}

/// A body whose entry lines all parse is the file of its header and of
/// those entries, or fails as its header line does.
pub proof fn law_file_of_good_entries(body: Seq<char>)
    requires
        split_lines(body).len() >= 1,
        forall|i: int|
            1 <= i < split_lines(body).len() ==> (#[trigger] entry_spec(
                (i - 1) as usize,
                split_lines(body)[i],
            )) is Ok,
    ensures
        header_spec(split_lines(body)[0]) is Err ==> file_spec(body) == Err::<
            FileView,
            ParseError,
        >(header_spec(split_lines(body)[0])->Err_0),
        header_spec(split_lines(body)[0]) is Ok ==> {
            &&& file_spec(body) is Ok
            &&& file_spec(body)->Ok_0.info_line == header_spec(split_lines(body)[0])->Ok_0
            &&& file_spec(body)->Ok_0.logs.len() == split_lines(body).len() - 1
            &&& forall|i: int|
                1 <= i < split_lines(body).len() ==> entry_spec(
                    (i - 1) as usize,
                    split_lines(body)[i],
                ) == Ok::<LogView, ParseError>(#[trigger] file_spec(body)->Ok_0.logs[i - 1])
        },
{
    let lines = split_lines(body);
    let rest = lines.skip(1);
    assert forall|i: int| 0 <= i < rest.len() implies (#[trigger] entry_spec(
        i as usize,
        rest[i],
    )) is Ok by {
        assert(rest[i] == lines[i + 1]);
        assert(entry_spec(((i + 1) - 1) as usize, lines[i + 1]) is Ok);
    }
    law_all_entries(rest);
    if header_spec(lines[0]) is Ok {
        assert forall|i: int| 1 <= i < lines.len() implies entry_spec(
            (i - 1) as usize,
            lines[i],
        ) == Ok::<LogView, ParseError>(#[trigger] file_spec(body)->Ok_0.logs[i - 1]) by {
            assert(entry_spec((i - 1) as usize, rest[i - 1]) == Ok::<LogView, ParseError>(
                entries_spec(rest)->Ok_0[i - 1],
            ));
        }
    }
}

/// Two results of parsing one body are equal: what [`parse`] returns
/// depends on the body alone.
pub proof fn law_same_body_same_file(
    body: Seq<char>,
    first: Result<RFLogFile, ParseError>,
    second: Result<RFLogFile, ParseError>,
)
    requires
        outcome(first) == file_spec(body),
        outcome(second) == file_spec(body),
    ensures
        outcome(first) == outcome(second),
        first is Ok <==> second is Ok,
        first is Ok ==> first->Ok_0@ == second->Ok_0@,
        first is Err ==> first->Err_0 == second->Err_0,
{
}

/// Parses a whole log file.
///
/// Fails with `MissingHeaderLine` where `body` has no line. Else the lines
/// after the first are parsed as entries, in order, and the first failure
/// ends the parse; then the first line is parsed as the header.
pub fn parse(body: String) -> (r: Result<RFLogFile, ParseError>)
    ensures
        outcome(r) == file_spec(body@),
        r matches Ok(file) ==> file@.is_valid(),
{
    let all = lines(body.as_str());
    if all.len() == 0 {
        return Err(ParseError::MissingHeaderLine);
    }
    let ghost rest = split_lines(body@).skip(1);
    let mut logs: Vec<Log> = Vec::new();
    let mut i: usize = 1;
    proof {
        assert(logs_view(logs@) =~= Seq::<LogView>::empty());
    }
    while i < all.len()
        invariant
            1 <= i <= all@.len(),
            all.deep_view() == split_lines(body@),
            rest == split_lines(body@).skip(1),
            logs@.len() == i - 1,
            entries_spec(rest.take(i - 1)) == Ok::<Seq<LogView>, ParseError>(logs_view(logs@)),
            forall|j: int|
                0 <= j < logs@.len() ==> (#[trigger] logs@[j])@.is_valid() && logs@[j].log_line
                    == j,
        decreases all@.len() - i,
    {
        let ghost before = logs_view(logs@);
        proof {
            assert(rest.take(i as int).drop_last() =~= rest.take(i - 1));
        }
        match log::parse(i - 1, all[i].as_str()) {
            Err(e) => {
                proof {
                    lemma_failure_stays(rest, i as int);
                }
                return Err(e);
            },
            Ok(entry) => {
                logs.push(entry);
                proof {
                    assert(logs_view(logs@) =~= before.push(entry@));
                }
            },
        }
        i = i + 1;
    }
    proof {
        assert(rest.take(i - 1) =~= rest);
        assert(split_lines(body@)[0] == all.deep_view()[0]);
    }
    let info_line = match info_line::parse(all[0].as_str()) {
        Err(e) => {
            return Err(e);
        },
        Ok(info_line) => info_line,
    };
    let file = RFLogFile { info_line, logs };
    proof {
        assert forall|j: int| 0 <= j < file@.logs.len() implies (#[trigger] file@.logs[j]).is_valid()
            && file@.logs[j].log_line == j by {
            assert(file@.logs[j] == logs@[j]@);
        }
    }
    Ok(file)
}

} // verus!
