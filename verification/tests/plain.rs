//! Records as they are made with colours switched off. Every test here
//! switches them off, and none switches them on.

use colourful_logger::caller::{get_callee, CallSite};
use colourful_logger::clock::timestamp;
use colourful_logger::level::LogLevel;
use colourful_logger::logger::{Destination, Emission, Logger};

fn is_stamp(text: &str) -> bool {
    let b = text.as_bytes();
    b.len() == 21
        && b[0] == b'['
        && b[20] == b']'
        && b[5] == b'-'
        && b[8] == b'-'
        && b[11] == b' '
        && b[14] == b':'
        && b[17] == b':'
        && [1, 2, 3, 4, 6, 7, 9, 10, 12, 13, 15, 16, 18, 19].iter().all(|&i| b[i].is_ascii_digit())
}

fn to_stdout(e: &Emission) -> bool {
    matches!(e.destination, Destination::Stdout)
}

#[test]
fn tags_are_padded_to_six_columns_without_colours() {
    colored::control::set_override(false);
    assert_eq!(LogLevel::Fatal.get_tag(), "fatal:");
    assert_eq!(LogLevel::Warn.get_tag(), "warn: ");
    assert_eq!(LogLevel::Info.get_tag(), "info: ");
    assert_eq!(LogLevel::Silly.get_tag(), "silly:");
}

#[test]
fn the_note_on_a_known_place_without_colours() {
    colored::control::set_override(false);
    let place = CallSite { file: Some("a.rs".to_string()), line: Some(1), column: Some(2), function: Some("f".to_string()) };
    assert_eq!(get_callee(&Some(place)), "at a.rs:1:2 [f]");
}

#[test]
fn the_time_has_its_pattern() {
    colored::control::set_override(false);
    assert!(is_stamp(&timestamp()));
}

#[test]
fn an_error_with_a_payload_without_colours() {
    colored::control::set_override(false);
    let logger = Logger::new(LogLevel::Warn, None);
    let e = logger.error("boom", "X", false, Ok("{\"code\":7}".to_string())).unwrap();
    assert!(to_stdout(&e));
    let (stamp, rest) = e.text.split_at(21);
    assert!(is_stamp(stamp));
    assert_eq!(rest, format!(" error: ┏ [X] boom\n{} ┗ [1] {{\"code\":7}}", " ".repeat(28)));
}

#[test]
fn a_failed_serialization_is_written_as_the_placeholder() {
    colored::control::set_override(false);
    let logger = Logger::new(LogLevel::Info, Some("p.log"));
    let mut map = std::collections::BTreeMap::new();
    map.insert(vec![1u8], 1u8);
    let e = logger.info("m", "t", false, serde_json::to_string(&map)).unwrap();
    assert!(e.text.ends_with("┗ [1] Serialization error"));
}

#[test]
fn a_written_record_without_place_and_payload_is_a_single_line() {
    colored::control::set_override(false);
    let logger = Logger::new(LogLevel::Info, None);
    let a = logger.write("m", "t", false, LogLevel::Info, None).unwrap();
    assert_eq!(&a.text[21..], " info:  ▪ [t] m");
}
