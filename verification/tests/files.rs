use rflog::clock::ClockTime;
use rflog::error::{ParseError, VersionField};
use rflog::info_line::Version;
use rflog::log::LogKind;
use rflog::parse;

const HEADER: &str = "Riverfall Launcher Log Format:[1.2.3;Steve;Windows;10;Vanilla 1.20]";

fn body(lines: &[&str]) -> String {
    lines.join("\n")
}

#[test]
fn empty_body_has_no_header() {
    assert_eq!(parse(String::new()), Err(ParseError::MissingHeaderLine));
}

#[test]
fn header_alone_is_a_file_without_entries() {
    let file = parse(HEADER.to_string()).unwrap();
    assert_eq!(file.info_line.launcher_version, Version { major: 1, minor: 2, patch: 3 });
    assert_eq!(file.info_line.player_nick, "Steve");
    assert!(file.logs.is_empty());
    assert_eq!(parse(format!("{}\n", HEADER)), Ok(file));
}

#[test]
fn entries_come_in_line_order() {
    let file = parse(body(&[
        HEADER,
        "[OUT] [12:30:45] [MainThread] [Loader]: Initialized",
        "[ERR] [WorkerThread] [Net] Connection failed",
        "[ERR] at some.stack.Frame",
        "[OUT]",
    ]))
    .unwrap();
    assert_eq!(file.logs.len(), 4);
    for (i, entry) in file.logs.iter().enumerate() {
        assert_eq!(entry.log_line, i);
    }
    assert_eq!(file.logs[0].kind, LogKind::Standard);
    assert_eq!(file.logs[0].time, Some(ClockTime { hour: 12, minute: 30, second: 45 }));
    assert_eq!(file.logs[0].data, vec!["Initialized".to_string()]);
    assert_eq!(file.logs[1].kind, LogKind::Error);
    assert_eq!(file.logs[1].thread, "WorkerThread");
    assert_eq!(file.logs[1].executor, "Net");
    assert_eq!(file.logs[2].data, vec!["at some.stack.Frame".to_string()]);
    assert_eq!(file.logs[3].data, Vec::<String>::new());
}

#[test]
fn carriage_returns_end_lines_too() {
    let unix = parse(body(&[HEADER, "[OUT] [T] [E] x", "[ERR] y"])).unwrap();
    let dos = parse(format!("{}\r\n[OUT] [T] [E] x\r\n[ERR] y\r\n", HEADER)).unwrap();
    assert_eq!(unix, dos);
}

#[test]
fn unparsable_second_line_fails_the_file() {
    assert_eq!(
        parse(body(&[HEADER, "no marker here", "[OUT] fine"])),
        Err(ParseError::UnknownLogKind { line: 0 })
    );
    assert_eq!(
        parse(body(&[HEADER, "[OUT] [25:00:00] [T] [E] x"])),
        Err(ParseError::InvalidTimestamp { line: 0 })
    );
}

#[test]
fn blank_entry_line_fails_the_file() {
    assert_eq!(
        parse(body(&[HEADER, "[OUT] a", "", "[OUT] b"])),
        Err(ParseError::EmptyLine { line: 1 })
    );
}

#[test]
fn first_failure_is_returned() {
    assert_eq!(
        parse(body(&[HEADER, "[OUT] a", "[OUT] b", "oops", "   ", "[OUT] [99:00:00] [T] [E]"])),
        Err(ParseError::UnknownLogKind { line: 2 })
    );
}

#[test]
fn header_failures_are_returned() {
    assert_eq!(parse(body(&["garbage", "[OUT] fine"])), Err(ParseError::MalformedHeader));
    assert_eq!(
        parse(body(&["Other:[1.2.3;a;b;c;d]", "[OUT] fine"])),
        Err(ParseError::BannerMismatch)
    );
    assert_eq!(
        parse(body(&["Riverfall Launcher Log Format:[1.2.65536;a;b;c;d]"])),
        Err(ParseError::FieldOutOfRange { field: VersionField::Patch })
    );
    assert_eq!(parse("\n".to_string()), Err(ParseError::MalformedHeader));
}

#[test]
fn entry_failure_comes_before_header_failure() {
    assert_eq!(
        parse(body(&["garbage", "[OUT] fine", "oops"])),
        Err(ParseError::UnknownLogKind { line: 1 })
    );
}

#[test]
fn parsing_twice_gives_equal_files() {
    let text = body(&[
        HEADER,
        "[OUT] [12:30:45] [MainThread] [Loader]: Initialized",
        "[ERR] [WorkerThread] [Net] Connection failed",
        "[OUT] some stray text",
    ]);
    assert_eq!(parse(text.clone()), parse(text.clone()));
    assert!(parse(text).is_ok());
    let bad = body(&[HEADER, "oops"]);
    assert_eq!(parse(bad.clone()), parse(bad));
}
