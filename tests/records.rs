use std::str::FromStr;

use log_ingest::assemble::{
    assemble, classify_line, classify_line_at, Assembler, LogEntry, LogEvent, ParsedLine,
};
use log_ingest::header::{header_fields, is_whitespace};
use log_ingest::row::Row;
use log_ingest::timestamp::{parse_timestamp, replace_commas, Timestamp, TimestampError};

const SAMPLE: &str =
    "2022-03-16 01:25:11,194 DEBUG c.a.d.i.j.a.activities.DriveActivity - Change state from none to started.";

fn lines(text: &[&str]) -> Vec<String> {
    text.iter().map(|l| l.to_string()).collect()
}

fn unix_now() -> i64 {
    chrono::Utc::now().timestamp()
}

fn parse_log(p0: &str) -> Result<LogEntry, ()> {
    LogEntry::from_str(p0)
}

#[test]
fn parse_log_from_file_and_return_majority_element() {
    let expected_entry = LogEntry {
        timestamp: Timestamp { secs: 1647393911, millis: 194 },
        severity: "DEBUG".to_string(),
        logger: "c.a.d.i.j.a.activities.DriveActivity".to_string(),
        message: "Change state from none to started.".to_string(),
    };
    assert_eq!(parse_log(SAMPLE), Ok(expected_entry));
}

#[test]
fn test_parse_date_timestamp() {
    let timestamp_str = "2015-09-05 23:56:04,233";
    let expected = chrono::NaiveDate::from_ymd_opt(2015, 9, 5)
        .unwrap()
        .and_hms_milli_opt(23, 56, 4, 233)
        .unwrap()
        .and_utc();
    assert_eq!(
        parse_timestamp(timestamp_str),
        Ok(Timestamp { secs: expected.timestamp(), millis: expected.timestamp_subsec_millis() })
    );
    assert_eq!(parse_timestamp(timestamp_str), Ok(Timestamp { secs: 1441497364, millis: 233 }));
}

#[test]
fn period_separator_is_read_like_a_comma() {
    assert_eq!(
        parse_timestamp("2022-03-16 01:25:11.194"),
        Ok(Timestamp { secs: 1647393911, millis: 194 })
    );
}

#[test]
fn timestamp_before_the_epoch() {
    assert_eq!(parse_timestamp("1969-12-31 23:59:59,500"), Ok(Timestamp { secs: -1, millis: 500 }));
}

#[test]
fn short_fractions_are_read_as_tenths_and_hundredths() {
    assert_eq!(parse_timestamp("2022-03-16 01:25:11,1"), Ok(Timestamp { secs: 1647393911, millis: 100 }));
    assert_eq!(parse_timestamp("2022-03-16 01:25:11.07"), Ok(Timestamp { secs: 1647393911, millis: 70 }));
}

#[test]
fn long_fraction_is_malformed() {
    assert_eq!(parse_timestamp("2022-03-16 01:25:11,1945"), Err(TimestampError::MalformedTimestamp));
    assert_eq!(parse_timestamp("2022-03-16 01:25:11,"), Err(TimestampError::MalformedTimestamp));
}

#[test]
fn wrong_field_widths_are_malformed() {
    assert_eq!(parse_timestamp("2022-3-16 1:25:11,194"), Err(TimestampError::MalformedTimestamp));
    assert_eq!(parse_timestamp("2022-03-16 01:25: 1,194"), Err(TimestampError::MalformedTimestamp));
    assert_eq!(parse_timestamp("02022-03-16 01:25:11,194"), Err(TimestampError::MalformedTimestamp));
}

#[test]
fn non_numeric_fields_are_malformed() {
    assert_eq!(parse_timestamp("2022-03-16 01:2x:11,194"), Err(TimestampError::MalformedTimestamp));
    assert_eq!(parse_timestamp("2022-03-16T01:25:11,194"), Err(TimestampError::MalformedTimestamp));
    assert_eq!(parse_timestamp("2022-03-16 01:25:11;194"), Err(TimestampError::MalformedTimestamp));
}

#[test]
fn well_laid_out_but_invalid_date_is_malformed() {
    assert_eq!(parse_timestamp("2022-02-30 01:25:11,194"), Err(TimestampError::MalformedTimestamp));
}

#[test]
fn timestamp_without_fraction_is_malformed() {
    assert_eq!(parse_timestamp("2022-03-16 01:25:11"), Err(TimestampError::MalformedTimestamp));
}

#[test]
fn timestamp_with_bad_fields_is_malformed() {
    assert_eq!(parse_timestamp("2022-13-16 01:25:11,194"), Err(TimestampError::MalformedTimestamp));
    assert_eq!(parse_timestamp("2022-03-16 1:25:11,19x"), Err(TimestampError::MalformedTimestamp));
    assert_eq!(parse_timestamp(""), Err(TimestampError::MalformedTimestamp));
}

#[test]
fn commas_become_periods() {
    assert_eq!(replace_commas("a,b,,c."), "a.b..c.".to_string());
    assert_eq!(replace_commas(""), String::new());
}

#[test]
fn whitespace_classes() {
    assert!(is_whitespace(' '));
    assert!(is_whitespace('\t'));
    assert!(is_whitespace('\u{3000}'));
    assert!(!is_whitespace('-'));
    assert!(!is_whitespace('A'));
}

#[test]
fn header_fields_of_sample() {
    let h = header_fields(SAMPLE).unwrap();
    assert_eq!(h.timestamp, "2022-03-16 01:25:11,194");
    assert_eq!(h.severity, "DEBUG");
    assert_eq!(h.logger, "c.a.d.i.j.a.activities.DriveActivity");
    assert_eq!(h.message, "Change state from none to started.");
}

#[test]
fn runs_of_whitespace_separate_the_fields() {
    let h = header_fields("2022-03-16 01:25:11,194\t INFO   a.b\t-  \tthe  message ").unwrap();
    assert_eq!(h.timestamp, "2022-03-16 01:25:11,194");
    assert_eq!(h.severity, "INFO");
    assert_eq!(h.logger, "a.b");
    assert_eq!(h.message, "the  message ");
}

#[test]
fn empty_message_is_legal() {
    let h = header_fields("2022-03-16 01:25:11,194 INFO a.b - ").unwrap();
    assert_eq!(h.message, "");
}

#[test]
fn lines_that_are_not_headers() {
    assert_eq!(header_fields(""), None);
    assert_eq!(header_fields("at com.example.Foo.bar(Foo.java:42)"), None);
    assert_eq!(header_fields("2022-03-16 01:25:11,194 info a.b - lower case"), None);
    assert_eq!(header_fields("2022-03-16 01:25:11,194 INFO a.b -"), None);
    assert_eq!(header_fields("2022-03-16 01:25:11,194 INFO a.b msg"), None);
    assert_eq!(header_fields("2022-03-16  01:25:11,194 INFO a.b - two spaces"), None);
    assert_eq!(header_fields("2022-03-16 01:25:11,194 INFO1 a.b - digit"), None);
}

#[test]
fn classification_agrees_with_the_pattern_on_space_separated_lines() {
    let re = regex::Regex::new(
        r"^(?P<timestamp>[^ ]+ [^ ]+)(\s+)(?P<severity>[A-Z]+)(\s+)(?P<logger>[^ ]+)(\s+)-(\s+)(?P<message>.*)",
    )
    .unwrap();
    let samples = [
        SAMPLE,
        "2022-03-16 01:25:11,194 ERROR some.Logger - Exception occurred:",
        "at com.example.Foo.bar(Foo.java:42)",
        "2022-03-16 01:25:11,194 WARN x - - dash message",
        "2022-03-16 01:25:11,194 WARN - - logger is a dash",
        "2022-03-16 01:25:11,194 INFO a.b -",
        "2022-03-16 01:25:11,194 INFO a.b - ",
        "2022-03-16 01:25:11,194 Info a.b - mixed case",
        "one two THREE four - five",
        "",
        "   leading spaces",
    ];
    for line in samples {
        let ours = header_fields(line);
        match re.captures(line) {
            Some(c) => {
                let h = ours.unwrap();
                assert_eq!(h.timestamp, c.name("timestamp").unwrap().as_str());
                assert_eq!(h.severity, c.name("severity").unwrap().as_str());
                assert_eq!(h.logger, c.name("logger").unwrap().as_str());
                assert_eq!(h.message, c.name("message").unwrap().as_str());
            }
            None => assert_eq!(ours, None),
        }
    }
}

#[test]
fn classifying_twice_gives_the_same_result() {
    let now = Timestamp { secs: 7, millis: 8 };
    for line in [SAMPLE, "at x", "2022-99-16 01:25:11,194 INFO a - m"] {
        assert_eq!(classify_line_at(line, now), classify_line_at(line, now));
        assert_eq!(classify_line(line), classify_line(line));
    }
}

#[test]
fn continuation_keeps_its_whole_text() {
    assert_eq!(
        classify_line("  at Foo.bar"),
        ParsedLine::Continuation { text: "  at Foo.bar".to_string() }
    );
}

#[test]
fn header_only_lines_give_one_record_each_in_order() {
    let input = lines(&[
        "2022-03-16 01:25:11,194 INFO a.one - first",
        "2022-03-16 01:25:10,000 WARN b.two - second",
        "2022-03-16 01:25:12,001 ERROR c.three - third",
    ]);
    let out = assemble(&input);
    assert_eq!(out.records.len(), 3);
    assert!(out.events.is_empty());
    let loggers: Vec<&str> = out.records.iter().map(|r| r.logger.as_str()).collect();
    assert_eq!(loggers, vec!["a.one", "b.two", "c.three"]);
    let severities: Vec<&str> = out.records.iter().map(|r| r.severity.as_str()).collect();
    assert_eq!(severities, vec!["INFO", "WARN", "ERROR"]);
    assert_eq!(out.records[0].message, "first");
    assert_eq!(out.records[1].timestamp, Timestamp { secs: 1647393910, millis: 0 });
    assert_eq!(out.records[2].timestamp, Timestamp { secs: 1647393912, millis: 1 });
}

#[test]
fn continuations_are_appended_without_separator() {
    let input = lines(&[
        "2022-03-16 01:25:11,194 ERROR some.Logger - Boom:",
        "\tat a.B.c(B.java:1)",
        "\tat d.E.f(E.java:2)",
        "caused by nothing",
    ]);
    let out = assemble(&input);
    assert_eq!(out.records.len(), 1);
    assert_eq!(
        out.records[0].message,
        "Boom:\tat a.B.c(B.java:1)\tat d.E.f(E.java:2)caused by nothing"
    );
    assert!(out.events.is_empty());
}

#[test]
fn malformed_timestamp_falls_back_to_now() {
    let before = unix_now();
    let input = lines(&[
        "2022-03-16 01:25:11,194 INFO a.b - fine",
        "2022-03-16 25:61:99,194 INFO c.d - bad clock",
    ]);
    let out = assemble(&input);
    assert_eq!(out.records.len(), 2);
    assert_eq!(out.records[1].logger, "c.d");
    assert_eq!(out.records[1].message, "bad clock");
    assert!(out.records[1].timestamp.secs >= before);
    assert_eq!(out.events, vec![LogEvent::MalformedTimestamp { line: 1 }]);
}

#[test]
fn parse_log_entry_falls_back_to_now() {
    let before = unix_now();
    let (e, err) = LogEntry::parse_log_entry("not-a-date at INFO x - m").unwrap();
    assert!(e.timestamp.secs >= before);
    assert_eq!(e.severity, "INFO");
    assert_eq!(err, Some(TimestampError::MalformedTimestamp));
    let (e, err) = LogEntry::parse_log_entry(SAMPLE).unwrap();
    assert_eq!(err, None);
    assert_eq!(e.timestamp, Timestamp { secs: 1647393911, millis: 194 });
    assert_eq!(parse_log("not-a-date at INFO x - m").unwrap().logger, "x");
    assert_eq!(LogEntry::parse_log_entry("plain text"), None);
    assert_eq!(parse_log("plain text"), Err(()));
}

#[test]
fn orphan_continuation_is_reported_and_dropped() {
    let input = lines(&["orphan one", "orphan two", SAMPLE, "tail"]);
    let out = assemble(&input);
    assert_eq!(out.records.len(), 1);
    assert_eq!(out.records[0].message, "Change state from none to started.tail");
    assert_eq!(
        out.events,
        vec![
            LogEvent::UnattachableContinuation { line: 0 },
            LogEvent::UnattachableContinuation { line: 1 },
        ]
    );
}

#[test]
fn empty_input_gives_nothing() {
    let out = assemble(&Vec::new());
    assert!(out.records.is_empty());
    assert!(out.events.is_empty());
}

#[test]
fn sample_scenario() {
    let out = assemble(&lines(&[SAMPLE]));
    assert_eq!(
        out.records,
        vec![LogEntry {
            timestamp: Timestamp { secs: 1647393911, millis: 194 },
            severity: "DEBUG".to_string(),
            logger: "c.a.d.i.j.a.activities.DriveActivity".to_string(),
            message: "Change state from none to started.".to_string(),
        }]
    );
    assert!(out.events.is_empty());
}

#[test]
fn multi_line_scenario() {
    let out = assemble(&lines(&[
        "2022-03-16 01:25:11,194 ERROR some.Logger - Exception occurred:",
        "at com.example.Foo.bar(Foo.java:42)",
    ]));
    assert_eq!(out.records.len(), 1);
    assert_eq!(out.records[0].message, "Exception occurred:at com.example.Foo.bar(Foo.java:42)");
    assert_eq!(out.records[0].severity, "ERROR");
    assert_eq!(out.records[0].logger, "some.Logger");
}

#[test]
fn assembler_fed_by_hand() {
    let now = Timestamp { secs: 100, millis: 5 };
    let mut a = Assembler::new();
    a.push_line(classify_line_at("dangling", now));
    a.push_line(classify_line_at("bad-date x INFO l - m", now));
    a.push_line(classify_line_at(" more", now));
    a.push_line(classify_line_at(SAMPLE, now));
    assert_eq!(a.consumed(), 4);
    let out = a.finish();
    assert_eq!(out.records.len(), 2);
    assert_eq!(out.records[0].timestamp, now);
    assert_eq!(out.records[0].message, "m more");
    assert_eq!(out.records[1].timestamp, Timestamp { secs: 1647393911, millis: 194 });
    assert_eq!(
        out.events,
        vec![
            LogEvent::UnattachableContinuation { line: 0 },
            LogEvent::MalformedTimestamp { line: 1 },
        ]
    );
}

#[test]
fn row_values_by_column() {
    let row = Row { values: vec![3i64, 5, 8] };
    assert_eq!(row.get(0), 3);
    assert_eq!(row.get(2), 8);
}
