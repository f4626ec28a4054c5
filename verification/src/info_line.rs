//! The header line: the launcher's version and the player's environment.

use crate::decimal::{lemma_u16_round_trip, numeral_of, parse_u16, push_numeral, u16_of};
use crate::error::{ParseError, VersionField};
use crate::pattern::{capture_groups, is_text, regex_groups};
use crate::text::{occurs_in, same_text};
use vstd::prelude::*;

verus! {

/// The banner that opens the header line of every log file.
pub const LOG_MARK: &'static str = "Riverfall Launcher Log Format";

/// The header line as a regular expression: the banner, a colon, and in
/// square brackets the three version numbers, separated by full stops, and
/// the four texts, separated by semicolons.
pub const HEADER_PATTERN: &'static str =
    r"([^:]+):\[(\d+)\.(\d+)\.(\d+);([^;]+);([^;]+);([^;]+);([^\]]+)\]";

/// A launcher version.
#[derive(Debug, Clone, Copy, PartialEq, Eq)]
pub struct Version {
    pub major: u16,
    pub minor: u16,
    pub patch: u16,
}

impl Version {
    /// The version as text: the three numbers with full stops between them.
    pub open spec fn text(&self) -> Seq<char> {
        numeral_of(self.major as nat).push('.') + numeral_of(self.minor as nat).push('.')
            + numeral_of(self.patch as nat)
    }

    /// Reads a version from the numerals of its three numbers.
    pub fn from_numerals(major: &str, minor: &str, patch: &str) -> (r: Result<Version, ParseError>)
        ensures
            r == version_of(major@, minor@, patch@),
    {
        let major = match parse_u16(major) {
            Some(n) => n,
            None => {
                return Err(ParseError::FieldOutOfRange { field: VersionField::Major });
            },
        };
        let minor = match parse_u16(minor) {
            Some(n) => n,
            None => {
                return Err(ParseError::FieldOutOfRange { field: VersionField::Minor });
            },
        };
        let patch = match parse_u16(patch) {
            Some(n) => n,
            None => {
                return Err(ParseError::FieldOutOfRange { field: VersionField::Patch });
            },
        };
        Ok(Version { major, minor, patch })
    }

    /// Writes the version as `major.minor.patch`.
    pub fn to_string(&self) -> (r: String)
        ensures
            r@ == self.text(),
    {
        let mut out = String::new();
        push_numeral(&mut out, self.major);
        out.push('.');
        push_numeral(&mut out, self.minor);
        out.push('.');
        push_numeral(&mut out, self.patch);
        out
    }
}

/// What the header line of a log file says.
#[derive(Debug, Clone, PartialEq, Eq)]
pub struct RFLogInfoLine {
    pub launcher_version: Version,
    pub player_nick: String,
    pub game_client: String,
    pub os: String,
    pub os_version: String,
}

/// A header with its texts as sequences of characters.
pub struct InfoLineView {
    pub launcher_version: Version,
    pub player_nick: Seq<char>,
    pub game_client: Seq<char>,
    pub os: Seq<char>,
    pub os_version: Seq<char>,
}

impl InfoLineView {
    /// Whether none of the four texts is empty.
    pub open spec fn is_valid(&self) -> bool {
        &&& self.player_nick.len() > 0
        &&& self.game_client.len() > 0
        &&& self.os.len() > 0
        &&& self.os_version.len() > 0
    }
}

impl View for RFLogInfoLine {
    type V = InfoLineView;

    open spec fn view(&self) -> InfoLineView {
        InfoLineView {
            launcher_version: self.launcher_version,
            player_nick: self.player_nick@,
            game_client: self.game_client@,
            os: self.os@,
            os_version: self.os_version@,
        }
    }
}

/// Whether `groups` is a match of the header pattern: the whole match and
/// eight captured texts, none of them empty.
pub open spec fn header_matched(groups: Option<Seq<Option<Seq<char>>>>) -> bool {
    &&& groups matches Some(g)
    &&& g.len() == 9
    &&& forall|i: int| 1 <= i < 9 ==> is_text(#[trigger] g[i])
}

/// The version that three numerals write, or the first of them that is not
/// a numeral of at most 65535.
pub open spec fn version_of(major: Seq<char>, minor: Seq<char>, patch: Seq<char>) -> Result<
    Version,
    ParseError,
> {
    if u16_of(major) is None {
        Err(ParseError::FieldOutOfRange { field: VersionField::Major })
    } else if u16_of(minor) is None {
        Err(ParseError::FieldOutOfRange { field: VersionField::Minor })
    } else if u16_of(patch) is None {
        Err(ParseError::FieldOutOfRange { field: VersionField::Patch })
    } else {
        Ok(Version { major: u16_of(major)->0, minor: u16_of(minor)->0, patch: u16_of(patch)->0 })
    }
}

/// The header that a match of the header pattern stands for, or the reason
/// why it stands for none.
pub open spec fn header_of(groups: Option<Seq<Option<Seq<char>>>>) -> Result<
    InfoLineView,
    ParseError,
> {
    if !header_matched(groups) {
        Err(ParseError::MalformedHeader)
    } else {
        let g = groups->0;
        if g[1]->0 != LOG_MARK@ {
            Err(ParseError::BannerMismatch)
        } else {
            match version_of(g[2]->0, g[3]->0, g[4]->0) {
                Ok(launcher_version) => Ok(
                    InfoLineView {
                        launcher_version,
                        player_nick: g[5]->0,
                        os: g[6]->0,
                        os_version: g[7]->0,
                        game_client: g[8]->0,
                    },
                ),
                Err(e) => Err(e),
            }
        }
    }
}

/// What parsing `line` as a header gives.
pub open spec fn header_spec(line: Seq<char>) -> Result<InfoLineView, ParseError> {
    header_of(regex_groups(HEADER_PATTERN@, line))
}

/// A parse result with the header seen through its view.
pub open spec fn outcome(r: Result<RFLogInfoLine, ParseError>) -> Result<InfoLineView, ParseError> {
    match r {
        Ok(header) => Ok(header@),
        Err(e) => Err(e),
    }
}

/// Whether `groups` holds nine items whose last eight are non-empty texts.
fn is_header_match(groups: &Option<Vec<Option<String>>>) -> (r: bool)
    ensures
        r == header_matched(groups.deep_view()),
{
    match groups {
        None => false,
        Some(g) => {
            if g.len() != 9 {
                return false;
            }
            let mut i: usize = 1;
            while i < 9
                invariant
                    1 <= i <= 9,
                    g@.len() == 9,
                    groups == Some(*g),
                    forall|j: int|
                        1 <= j < i ==> is_text(#[trigger] g.deep_view()[j]),
                decreases 9 - i,
            {
                let present = match &g[i] {
                    Some(t) => !t.as_str().is_empty(),
                    None => false,
                };
                if !present {
                    assert(!is_text(g.deep_view()[i as int]));
                    return false;
                }
                i = i + 1;
            }
            true
        },
    }
}

/// Builds the header from a match of the header pattern.
///
/// Fails with `MalformedHeader` where `groups` is no such match, with
/// `BannerMismatch` where the first captured text is not the banner, and
/// with `FieldOutOfRange` where a version number is not a numeral of at
/// most 65535; the failure names the first such number.
pub fn header_from_groups(groups: &Option<Vec<Option<String>>>) -> (r: Result<
    RFLogInfoLine,
    ParseError,
>)
    ensures
        outcome(r) == header_of(groups.deep_view()),
        r matches Ok(header) ==> header@.is_valid(),
{
    if !is_header_match(groups) {
        return Err(ParseError::MalformedHeader);
    }
    let g = groups.as_ref().unwrap();
    if !same_text(g[1].as_ref().unwrap().as_str(), LOG_MARK) {
        return Err(ParseError::BannerMismatch);
    }
    let launcher_version = match Version::from_numerals(
        g[2].as_ref().unwrap().as_str(),
        g[3].as_ref().unwrap().as_str(),
        g[4].as_ref().unwrap().as_str(),
    ) {
        Ok(version) => version,
        Err(e) => {
            return Err(e);
        },
    };
    Ok(
        RFLogInfoLine {
            launcher_version,
            player_nick: g[5].as_ref().unwrap().clone(),
            os: g[6].as_ref().unwrap().clone(),
            os_version: g[7].as_ref().unwrap().clone(),
            game_client: g[8].as_ref().unwrap().clone(),
        },
    )
}

/// Parses the header line of a log file.
///
/// The line is searched for the header pattern; what the search gives
/// decides the result as [`header_of`] says. The texts of a header that is
/// returned stand in `line` as they are.
pub fn parse(line: &str) -> (r: Result<RFLogInfoLine, ParseError>)
    ensures
        outcome(r) == header_spec(line@),
        r matches Ok(header) ==> {
            &&& header@.is_valid()
            &&& occurs_in(header.player_nick@, line@)
            &&& occurs_in(header.os@, line@)
            &&& occurs_in(header.os_version@, line@)
            &&& occurs_in(header.game_client@, line@)
        },
{
    let groups = capture_groups(HEADER_PATTERN, line);
    let r = header_from_groups(&groups);
    proof {
        if r is Ok {
            let g = groups->0;
            let v = g.deep_view();
            assert(v[5] is Some && v[6] is Some && v[7] is Some && v[8] is Some);
        }
    }
    r
}

/// A line in which the header pattern finds the banner and three numerals
/// of at most 65535 parses to the header that holds the values of the three
/// numerals and the four other captured texts, each as it was captured.
pub proof fn law_header_fields_are_kept(line: Seq<char>)
    requires
        header_matched(regex_groups(HEADER_PATTERN@, line)),
        regex_groups(HEADER_PATTERN@, line)->0[1]->0 == LOG_MARK@,
        u16_of(regex_groups(HEADER_PATTERN@, line)->0[2]->0) is Some,
        u16_of(regex_groups(HEADER_PATTERN@, line)->0[3]->0) is Some,
        u16_of(regex_groups(HEADER_PATTERN@, line)->0[4]->0) is Some,
    ensures
        header_spec(line) == Ok::<InfoLineView, ParseError>(
            InfoLineView {
                launcher_version: Version {
                    major: u16_of(regex_groups(HEADER_PATTERN@, line)->0[2]->0)->0,
                    minor: u16_of(regex_groups(HEADER_PATTERN@, line)->0[3]->0)->0,
                    patch: u16_of(regex_groups(HEADER_PATTERN@, line)->0[4]->0)->0,
                },
                player_nick: regex_groups(HEADER_PATTERN@, line)->0[5]->0,
                os: regex_groups(HEADER_PATTERN@, line)->0[6]->0,
                os_version: regex_groups(HEADER_PATTERN@, line)->0[7]->0,
                game_client: regex_groups(HEADER_PATTERN@, line)->0[8]->0,
            },
        ),
        header_spec(line)->Ok_0.is_valid(),
{
}

/// A header line whose three numerals are those that a version is written
/// with parses to that version.
pub proof fn law_version_reads_back(line: Seq<char>, version: Version)
    requires
        header_matched(regex_groups(HEADER_PATTERN@, line)),
        regex_groups(HEADER_PATTERN@, line)->0[1]->0 == LOG_MARK@,
        regex_groups(HEADER_PATTERN@, line)->0[2]->0 == numeral_of(version.major as nat),
        regex_groups(HEADER_PATTERN@, line)->0[3]->0 == numeral_of(version.minor as nat),
        regex_groups(HEADER_PATTERN@, line)->0[4]->0 == numeral_of(version.patch as nat),
    ensures
        header_spec(line) is Ok,
        header_spec(line)->Ok_0.launcher_version == version,
{
    lemma_u16_round_trip(version.major);
    lemma_u16_round_trip(version.minor);
    lemma_u16_round_trip(version.patch);
}

/// A line that the header pattern does not match is malformed, and one that
/// it matches under another banner is a banner mismatch, whatever else the
/// line holds.
pub proof fn law_header_rejections(line: Seq<char>)
    ensures
        !header_matched(regex_groups(HEADER_PATTERN@, line)) ==> header_spec(line) == Err::<
            InfoLineView,
            ParseError,
        >(ParseError::MalformedHeader),
        header_matched(regex_groups(HEADER_PATTERN@, line)) && regex_groups(
            HEADER_PATTERN@,
            line,
        )->0[1]->0 != LOG_MARK@ ==> header_spec(line) == Err::<InfoLineView, ParseError>(
            ParseError::BannerMismatch,
        ),
{
}

/// A header line fails in one of three ways only, and never as an entry
/// line does.
pub proof fn law_header_failures(line: Seq<char>)
    requires
        header_spec(line) is Err,
    ensures
        header_spec(line)->Err_0 == ParseError::MalformedHeader || header_spec(line)->Err_0
            == ParseError::BannerMismatch || header_spec(line)->Err_0 is FieldOutOfRange,
        header_spec(line)->Err_0.entry_line() is None,
{
}

} // verus!
