//! Records as they are made with colours switched on. Every test here
//! switches them on, and none switches them off.

use colourful_logger::ansi::remove_ansi;
use colourful_logger::caller::{get_callee, CallSite, CallerSource};
use colourful_logger::clock::timestamp;
use colourful_logger::level::LogLevel;
use colourful_logger::logger::{Destination, Emission, Logger};

const ESC: char = '\u{1b}';

fn is_stamp(text: &str) -> bool {
    let b = text.as_bytes();
    b.len() == 21
        && b[0] == b'['
        && b[20] == b']'
        && b[5] == b'-'
        && b[8] == b'-'
        && b[11] == b' '
        && b[14] == b':'
        && b[17] == b':'
        && [1, 2, 3, 4, 6, 7, 9, 10, 12, 13, 15, 16, 18, 19].iter().all(|&i| b[i].is_ascii_digit())
}

fn to_stdout(e: &Emission) -> bool {
    matches!(e.destination, Destination::Stdout)
}

fn file_of(e: &Emission) -> Option<String> {
    match &e.destination {
        Destination::File(path) => Some(path.clone()),
        Destination::Stdout => None,
    }
}

#[test]
fn tags_are_wrapped_in_the_colour_of_the_level() {
    colored::control::set_override(true);
    assert_eq!(LogLevel::Fatal.get_tag(), "\u{1b}[31mfatal:\u{1b}[0m");
    assert_eq!(LogLevel::Error.get_tag(), "\u{1b}[91merror:\u{1b}[0m");
    assert_eq!(LogLevel::Warn.get_tag(), "\u{1b}[93mwarn: \u{1b}[0m");
    assert_eq!(LogLevel::Info.get_tag(), "\u{1b}[92minfo: \u{1b}[0m");
    assert_eq!(LogLevel::Debug.get_tag(), "\u{1b}[94mdebug:\u{1b}[0m");
    assert_eq!(LogLevel::Silly.get_tag(), "\u{1b}[95msilly:\u{1b}[0m");
}

#[test]
fn the_note_on_an_unknown_place() {
    colored::control::set_override(true);
    assert_eq!(get_callee(&None), "unknown");
}

#[test]
fn the_note_on_a_known_place_is_in_italics() {
    colored::control::set_override(true);
    let place = CallSite { file: Some("a.rs".to_string()), line: Some(1), column: Some(2), function: Some("f".to_string()) };
    assert_eq!(get_callee(&Some(place)), "\u{1b}[3mat a.rs:1:2 [f]\u{1b}[0m");
}

#[test]
fn the_time_is_dimmed() {
    colored::control::set_override(true);
    let shown = timestamp();
    assert!(shown.starts_with("\u{1b}[2m["));
    assert!(shown.ends_with("]\u{1b}[0m"));
    assert!(is_stamp(&remove_ansi(&shown)));
}

#[test]
fn an_error_with_a_payload_goes_to_stdout_in_colour() {
    colored::control::set_override(true);
    let logger = Logger::new(LogLevel::Warn, None);
    let payload = serde_json::to_string(&std::collections::BTreeMap::from([("code", 7)]));
    let e = logger.error("boom", "X", false, payload).unwrap();
    assert!(to_stdout(&e));
    let lines: Vec<&str> = e.text.split('\n').collect();
    assert_eq!(lines.len(), 2);
    assert!(lines[0].ends_with(" \u{1b}[91merror:\u{1b}[0m ┏ [\u{1b}[91mX\u{1b}[0m] \u{1b}[91mboom\u{1b}[0m"));
    assert_eq!(
        lines[1],
        format!("{} ┗ \u{1b}[2m[1]\u{1b}[0m \u{1b}[2m{{\"code\":7}}\u{1b}[0m", " ".repeat(28))
    );
    assert!(remove_ansi(&e.text).ends_with("[1] {\"code\":7}"));
    assert_eq!(e.line(), format!("{}\n", e.text));
}

#[test]
fn a_single_debug_line_in_a_file_has_no_escape() {
    colored::control::set_override(true);
    let logger = Logger::new(LogLevel::Silly, Some("out.log"));
    let e = logger.debug_single("hi", "T").unwrap();
    assert_eq!(file_of(&e), Some("out.log".to_string()));
    assert!(!e.text.contains(ESC));
    assert!(!e.text.contains('\n'));
    let (stamp, rest) = e.text.split_at(21);
    assert!(is_stamp(stamp));
    assert_eq!(rest, " debug: ▪ [T] hi");
    assert_eq!(e.line(), format!("{} debug: ▪ [T] hi\n", stamp));
}

#[test]
fn every_level_has_its_label_in_a_file() {
    colored::control::set_override(true);
    let logger = Logger::new(LogLevel::Silly, Some("all.log"));
    let out = [
        (logger.silly_single("m", "t"), "silly:"),
        (logger.debug_single("m", "t"), "debug:"),
        (logger.info_single("m", "t"), "info: "),
        (logger.warn_single("m", "t"), "warn: "),
        (logger.error_single("m", "t"), "error:"),
        (logger.fatal_single("m", "t"), "fatal:"),
    ];
    for (e, label) in out {
        let e = e.unwrap();
        assert_eq!(&e.text[21..], format!(" {} ▪ [t] m", label));
    }
    let out = [
        (logger.silly("m", "t", false, Ok("0".to_string())), "silly:"),
        (logger.debug("m", "t", false, Ok("0".to_string())), "debug:"),
        (logger.info("m", "t", false, Ok("0".to_string())), "info: "),
        (logger.warn("m", "t", false, Ok("0".to_string())), "warn: "),
        (logger.error("m", "t", false, Ok("0".to_string())), "error:"),
        (logger.fatal("m", "t", false, Ok("0".to_string())), "fatal:"),
    ];
    for (e, label) in out {
        let e = e.unwrap();
        assert_eq!(&e.text[21..], format!(" {} ┏ [t] m\n{} ┗ [1] 0", label, " ".repeat(28)));
    }
}

#[test]
fn an_unknown_place_is_written_before_the_payload() {
    colored::control::set_override(true);
    let mut logger = Logger::new(LogLevel::Info, Some("p.log"));
    logger.set_caller_source(CallerSource::Unavailable);
    let e = logger.warn("m", "t", true, Ok("[]".to_string())).unwrap();
    let margin = " ".repeat(28);
    assert_eq!(&e.text[21..], format!(" warn:  ┏ [t] m\n{m} ┃ unknown\n{m} ┗ [1] []", m = margin));
}

#[test]
fn an_unknown_place_is_the_last_line_without_a_payload() {
    colored::control::set_override(true);
    let mut logger = Logger::new(LogLevel::Info, None);
    logger.set_caller_source(CallerSource::Unavailable);
    let e = logger.write("m", "t", true, LogLevel::Fatal, None).unwrap();
    let lines: Vec<&str> = e.text.split('\n').collect();
    assert_eq!(lines.len(), 2);
    assert_eq!(lines[1], format!("{} ┗ \u{1b}[2munknown\u{1b}[0m", " ".repeat(28)));
}

#[test]
fn a_place_from_the_stack_gives_three_lines_without_escapes_in_a_file() {
    colored::control::set_override(true);
    let logger = Logger::new(LogLevel::Info, Some("p.log"));
    let e = logger.info("m", "t", true, Ok("1".to_string())).unwrap();
    assert!(!e.text.contains(ESC));
    let lines: Vec<&str> = e.text.split('\n').collect();
    assert_eq!(lines.len(), 3);
    assert!(lines[1].starts_with(&format!("{} ┃ ", " ".repeat(28))));
    let note = &lines[1][28 + 1 + "┃".len() + 1..];
    assert!(note == "unknown" || note.starts_with("at "));
}

#[test]
fn stripping_gives_the_plain_record_whatever_the_colours() {
    colored::control::set_override(true);
    let logger = Logger::new(LogLevel::Silly, None);
    let coloured = logger.silly("msg", "tag", false, Ok("{\"a\":[1,2]}".to_string())).unwrap();
    assert!(coloured.text.contains(ESC));
    assert_eq!(
        &remove_ansi(&coloured.text)[21..],
        format!(" silly: ┏ [tag] msg\n{} ┗ [1] {{\"a\":[1,2]}}", " ".repeat(28))
    );
}

#[test]
fn coloured_text_inside_a_message_is_stripped_too() {
    colored::control::set_override(true);
    let logger = Logger::new(LogLevel::Silly, Some("n.log"));
    let e = logger.info_single("a \u{1b}[1mbold\u{1b}[0m word", "t").unwrap();
    assert_eq!(&e.text[21..], " info:  ▪ [t] a bold word");
}

#[test]
fn a_lone_escape_in_a_tag_can_leave_a_sequence_in_the_file() {
    colored::control::set_override(true);
    let logger = Logger::new(LogLevel::Silly, Some("n.log"));
    let e = logger.info_single("hello", "\u{1b}").unwrap();
    assert_eq!(&e.text[21..], " info:  ▪ [\u{1b}] hello");
}

#[test]
fn records_appended_one_after_another_keep_their_order() {
    colored::control::set_override(true);
    let logger = Logger::new(LogLevel::Silly, Some("seq.log"));
    let mut file = String::new();
    let mut expected = String::new();
    for n in 0..5 {
        let message = format!("record {}", n);
        let e = if n % 2 == 0 {
            logger.info_single(&message, "t").unwrap()
        } else {
            logger.info(&message, "t", false, Ok(n.to_string())).unwrap()
        };
        file.push_str(&e.line());
        expected.push_str(&e.text);
        expected.push('\n');
    }
    assert_eq!(file, expected);
    let heads: Vec<&str> = file.lines().filter(|l| l.starts_with('[')).collect();
    assert_eq!(heads.len(), 5);
    for (n, head) in heads.iter().enumerate() {
        assert!(head.ends_with(&format!("record {}", n)));
    }
    assert_eq!(file.lines().count(), 5 + 2);
}

#[test]
fn a_style_is_put_in_again_after_a_reset_inside_the_message() {
    colored::control::set_override(true);
    let logger = Logger::new(LogLevel::Info, None);
    let e = logger.info_single("a\u{1b}[0mb", "t").unwrap();
    assert!(e.text.ends_with("] \u{1b}[92ma\u{1b}[0m\u{1b}[92mb\u{1b}[0m"));
    assert_eq!(&remove_ansi(&e.text)[21..], " info:  ▪ [t] ab");
}

fn logs_through_info(logger: &Logger) -> String {
    let e = logger.info("m", "t", true, Ok("1".to_string()));
    e.unwrap().text
}

fn logs_through_write(logger: &Logger) -> String {
    let e = logger.write("m", "t", true, LogLevel::Error, None);
    e.unwrap().text
}

fn logs_through_fatal(logger: &Logger) -> String {
    let e = logger.fatal("m", "t", true, Ok("1".to_string()));
    e.unwrap().text
}

#[test]
fn the_note_names_the_place_of_the_logging_call() {
    colored::control::set_override(true);
    let logger = Logger::new(LogLevel::Info, Some("p.log"));
    let cases: [(fn(&Logger) -> String, &str); 3] = [
        (logs_through_info, "logs_through_info"),
        (logs_through_write, "logs_through_write"),
        (logs_through_fatal, "logs_through_fatal"),
    ];
    for (call, name) in cases {
        let call = std::hint::black_box(call);
        let text = call(&logger);
        let lines: Vec<&str> = text.split('\n').collect();
        assert!(lines[1].contains(name), "{}", lines[1]);
    }
}

#[test]
fn a_found_place_is_in_italics_and_dimmed() {
    colored::control::set_override(true);
    let logger = Logger::new(LogLevel::Info, None);
    let place = CallSite { file: Some("a.rs".to_string()), line: Some(1), column: Some(2), function: Some("f".to_string()) };
    let e = logger.render("m", "t", LogLevel::Info, Some(Some(place)), None).unwrap();
    let lines: Vec<&str> = e.text.split('\n').collect();
    assert_eq!(lines.len(), 2);
    assert_eq!(
        lines[1],
        format!(
            "{} ┗ \u{1b}[2m\u{1b}[3mat a.rs:1:2 [f]\u{1b}[0m\u{1b}[2m\u{1b}[0m",
            " ".repeat(28)
        )
    );
    assert_eq!(remove_ansi(lines[1]), format!("{} ┗ at a.rs:1:2 [f]", " ".repeat(28)));
}
