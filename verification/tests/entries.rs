use rflog::clock::ClockTime;
use rflog::error::ParseError;
use rflog::log::{
    bare_entry, entry_from_matches, is_plain_match, is_timed_match, parse, Log, LogKind,
};

fn groups(texts: &[&str]) -> Option<Vec<Option<String>>> {
    Some(texts.iter().map(|t| Some(t.to_string())).collect())
}

fn entry(
    log_line: usize,
    kind: LogKind,
    time: Option<(u8, u8, u8)>,
    thread: &str,
    executor: &str,
    data: &[&str],
) -> Log {
    Log {
        log_line,
        kind,
        time: time.map(|(hour, minute, second)| ClockTime { hour, minute, second }),
        thread: thread.to_string(),
        executor: executor.to_string(),
        data: data.iter().map(|d| d.to_string()).collect(),
    }
}

#[test]
fn bare_marker_gives_an_empty_entry() {
    assert_eq!(parse(0, "[OUT]"), Ok(entry(0, LogKind::Standard, None, "", "", &[])));
    assert_eq!(parse(4, "[ERR]"), Ok(entry(4, LogKind::Error, None, "", "", &[])));
    assert_eq!(parse(1, "  [OUT] \t "), Ok(entry(1, LogKind::Standard, None, "", "", &[])));
    assert_eq!(parse(2, "[ERR]\r"), Ok(entry(2, LogKind::Error, None, "", "", &[])));
}

#[test]
fn timed_entry_is_read_in_full() {
    assert_eq!(
        parse(0, "[OUT] [12:30:45] [MainThread] [Loader]: Initialized"),
        Ok(entry(0, LogKind::Standard, Some((12, 30, 45)), "MainThread", "Loader", &["Initialized"]))
    );
}

#[test]
fn untimed_entry_is_read_in_full() {
    assert_eq!(
        parse(0, "[ERR] [WorkerThread] [Net] Connection failed"),
        Ok(entry(0, LogKind::Error, None, "WorkerThread", "Net", &["Connection failed"]))
    );
}

#[test]
fn stray_text_is_a_continuation() {
    assert_eq!(
        parse(0, "[OUT] some stray text"),
        Ok(entry(0, LogKind::Standard, None, "", "", &["some stray text"]))
    );
}

#[test]
fn blank_line_is_empty() {
    assert_eq!(parse(0, ""), Err(ParseError::EmptyLine { line: 0 }));
    assert_eq!(parse(3, "   \t  "), Err(ParseError::EmptyLine { line: 3 }));
    assert_eq!(parse(5, "\u{a0}\u{3000}\r\n"), Err(ParseError::EmptyLine { line: 5 }));
}

#[test]
fn line_without_marker_is_of_unknown_kind() {
    assert_eq!(parse(0, "hello"), Err(ParseError::UnknownLogKind { line: 0 }));
    assert_eq!(parse(7, "[WARN] x"), Err(ParseError::UnknownLogKind { line: 7 }));
    assert_eq!(parse(1, "[OUT"), Err(ParseError::UnknownLogKind { line: 1 }));
    assert_eq!(parse(2, "[out] x"), Err(ParseError::UnknownLogKind { line: 2 }));
    assert_eq!(parse(2, "x [OUT]"), Err(ParseError::UnknownLogKind { line: 2 }));
}

#[test]
fn time_out_of_range_is_invalid() {
    assert_eq!(
        parse(0, "[OUT] [24:00:00] [T] [E] x"),
        Err(ParseError::InvalidTimestamp { line: 0 })
    );
    assert_eq!(
        parse(9, "[OUT] [12:60:00] [T] [E] x"),
        Err(ParseError::InvalidTimestamp { line: 9 })
    );
    assert_eq!(
        parse(2, "[ERR] [12:30:61] [T] [E] x"),
        Err(ParseError::InvalidTimestamp { line: 2 })
    );
    assert_eq!(
        parse(2, "[ERR] [99:99:99] [T] [E]"),
        Err(ParseError::InvalidTimestamp { line: 2 })
    );
}

#[test]
fn second_sixty_is_invalid() {
    assert_eq!(
        parse(0, "[OUT] [23:59:60] [T] [E] x"),
        Err(ParseError::InvalidTimestamp { line: 0 })
    );
    assert_eq!(
        parse(0, "[OUT] [12:30:60] [T] [E] x"),
        Err(ParseError::InvalidTimestamp { line: 0 })
    );
}

#[test]
fn time_in_other_digits_is_invalid() {
    assert_eq!(
        parse(0, "[OUT] [\u{0661}\u{0662}:30:45] [T] [E] x"),
        Err(ParseError::InvalidTimestamp { line: 0 })
    );
}

#[test]
fn time_limits_are_accepted() {
    assert_eq!(
        parse(0, "[OUT] [00:00:00] [T] [E] x"),
        Ok(entry(0, LogKind::Standard, Some((0, 0, 0)), "T", "E", &["x"]))
    );
    assert_eq!(
        parse(0, "[OUT] [23:59:59] [T] [E] x"),
        Ok(entry(0, LogKind::Standard, Some((23, 59, 59)), "T", "E", &["x"]))
    );
}

#[test]
fn timed_payload_is_trimmed_and_may_be_absent() {
    assert_eq!(
        parse(0, "[ERR] [01:02:03] [T] [E]"),
        Ok(entry(0, LogKind::Error, Some((1, 2, 3)), "T", "E", &[]))
    );
    assert_eq!(
        parse(0, "[ERR] [01:02:03] [T] [E]:"),
        Ok(entry(0, LogKind::Error, Some((1, 2, 3)), "T", "E", &[]))
    );
    assert_eq!(
        parse(0, "[ERR] [01:02:03] [T] [E]:    spaced   out  "),
        Ok(entry(0, LogKind::Error, Some((1, 2, 3)), "T", "E", &["spaced   out"]))
    );
    assert_eq!(
        parse(0, "[ERR] [01:02:03] [T] [E]no gap"),
        Ok(entry(0, LogKind::Error, Some((1, 2, 3)), "T", "E", &["no gap"]))
    );
    assert_eq!(
        parse(0, "[ERR] [01:02:03] [T] [E]:: two"),
        Ok(entry(0, LogKind::Error, Some((1, 2, 3)), "T", "E", &[": two"]))
    );
}

#[test]
fn untimed_payload_is_kept_as_it_is() {
    assert_eq!(
        parse(0, "[OUT] [T] [E]   wide"),
        Ok(entry(0, LogKind::Standard, None, "T", "E", &["  wide"]))
    );
    assert_eq!(
        parse(0, "[OUT] [T] [E] : colon"),
        Ok(entry(0, LogKind::Standard, None, "T", "E", &[": colon"]))
    );
}

#[test]
fn marker_needs_no_space_after_it() {
    assert_eq!(
        parse(0, "[OUT][12:30:45] [T] [E] x"),
        Ok(entry(0, LogKind::Standard, Some((12, 30, 45)), "T", "E", &["x"]))
    );
    assert_eq!(parse(0, "[ERR]text"), Ok(entry(0, LogKind::Error, None, "", "", &["text"])));
}

#[test]
fn short_time_is_read_as_a_thread() {
    assert_eq!(
        parse(0, "[OUT] [1:30:45] [T] [E] x"),
        Ok(entry(0, LogKind::Standard, None, "1:30:45", "T", &["[E] x"]))
    );
}

#[test]
fn brackets_without_payload_are_a_continuation() {
    assert_eq!(
        parse(0, "[ERR] [W] [Net] "),
        Ok(entry(0, LogKind::Error, None, "", "", &["[W] [Net]"]))
    );
    assert_eq!(
        parse(0, "[ERR] [] [Net] x"),
        Ok(entry(0, LogKind::Error, None, "", "", &["[] [Net] x"]))
    );
}

#[test]
fn payload_with_a_line_feed_is_a_continuation() {
    assert_eq!(
        parse(0, "[OUT] [12:30:45] [T] [E] a\nb"),
        Ok(entry(0, LogKind::Standard, None, "", "", &["[12:30:45] [T] [E] a\nb"]))
    );
}

#[test]
fn texts_may_be_non_ascii() {
    assert_eq!(
        parse(3, "[OUT] [08:09:10] [Поток] [Загрузчик]: Готово ✓"),
        Ok(entry(3, LogKind::Standard, Some((8, 9, 10)), "Поток", "Загрузчик", &["Готово ✓"]))
    );
}

#[test]
fn line_index_is_kept() {
    assert_eq!(parse(41, "[OUT] x").unwrap().log_line, 41);
    assert_eq!(parse(usize::MAX, "[OUT]").unwrap().log_line, usize::MAX);
}

#[test]
fn bare_entry_holds_nothing_but_kind_and_line() {
    assert_eq!(bare_entry(6, LogKind::Error), entry(6, LogKind::Error, None, "", "", &[]));
}

#[test]
fn match_shapes_are_told_apart() {
    let timed = groups(&["w", "12:30:45", "T", "E", "x"]);
    let plain = groups(&["w", "T", "E", "x"]);
    assert!(is_timed_match(&timed));
    assert!(!is_timed_match(&plain));
    assert!(!is_timed_match(&None));
    assert!(is_plain_match(&plain));
    assert!(!is_plain_match(&timed));
    assert!(!is_plain_match(&None));
    assert!(!is_plain_match(&groups(&["w", "T", "E", ""])));
    let mut holed = groups(&["w", "12:30:45", "T", "E", "x"]);
    holed.as_mut().unwrap()[2] = None;
    assert!(!is_timed_match(&holed));
    holed.as_mut().unwrap()[2] = Some("T".to_string());
    holed.as_mut().unwrap()[4] = None;
    assert!(is_timed_match(&holed));
}

#[test]
fn entry_from_matches_prefers_the_timed_form() {
    let timed = groups(&["w", "12:30:45", "T", "E", "  x  "]);
    let plain = groups(&["w", "P", "Q", "y"]);
    assert_eq!(
        entry_from_matches(2, LogKind::Standard, "c", &timed, Some((12, 30, 45, 0)), &plain),
        Ok(entry(2, LogKind::Standard, Some((12, 30, 45)), "T", "E", &["x"]))
    );
    assert_eq!(
        entry_from_matches(2, LogKind::Standard, "c", &None, Some((12, 30, 45, 0)), &plain),
        Ok(entry(2, LogKind::Standard, None, "P", "Q", &["y"]))
    );
    assert_eq!(
        entry_from_matches(2, LogKind::Error, "c", &None, None, &None),
        Ok(entry(2, LogKind::Error, None, "", "", &["c"]))
    );
}

#[test]
fn entry_from_matches_rejects_a_reading_that_is_no_time() {
    let timed = groups(&["w", "12:30:45", "T", "E", "x"]);
    let invalid = Err(ParseError::InvalidTimestamp { line: 8 });
    assert_eq!(entry_from_matches(8, LogKind::Standard, "c", &timed, None, &None), invalid);
    assert_eq!(
        entry_from_matches(8, LogKind::Standard, "c", &timed, Some((24, 0, 0, 0)), &None),
        invalid
    );
    assert_eq!(
        entry_from_matches(8, LogKind::Standard, "c", &timed, Some((0, 60, 0, 0)), &None),
        invalid
    );
    assert_eq!(
        entry_from_matches(8, LogKind::Standard, "c", &timed, Some((0, 0, 60, 0)), &None),
        invalid
    );
    assert_eq!(
        entry_from_matches(
            8,
            LogKind::Standard,
            "c",
            &timed,
            Some((23, 59, 59, 1_000_000_000)),
            &None
        ),
        invalid
    );
    assert_eq!(
        entry_from_matches(8, LogKind::Standard, "c", &timed, Some((300, 0, 0, 0)), &None),
        invalid
    );
}

#[test]
fn entry_from_matches_takes_a_missing_payload_as_empty() {
    let mut timed = groups(&["w", "12:30:45", "T", "E", "x"]);
    timed.as_mut().unwrap()[4] = None;
    assert_eq!(
        entry_from_matches(0, LogKind::Standard, "c", &timed, Some((1, 2, 3, 999_999_999)), &None),
        Ok(entry(0, LogKind::Standard, Some((1, 2, 3)), "T", "E", &[]))
    );
}
