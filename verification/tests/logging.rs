use colourful_logger::caller::{CallSite, CallerSource};
use colourful_logger::level::LogLevel;
use colourful_logger::logger::{Destination, Emission, Logger};

fn to_stdout(e: &Emission) -> bool {
    matches!(e.destination, Destination::Stdout)
}

fn file_of(e: &Emission) -> Option<String> {
    match &e.destination {
        Destination::File(path) => Some(path.clone()),
        Destination::Stdout => None,
    }
}

#[test]
fn below_the_threshold_nothing_is_emitted() {
    let logger = Logger::new(LogLevel::Warn, None);
    assert!(logger.info("quiet", "X", false, Ok("{}".to_string())).is_none());
    assert!(logger.info("quiet", "X", true, Ok("{}".to_string())).is_none());
    assert!(logger.info_single("quiet", "X").is_none());
    assert!(logger.debug_single("quiet", "X").is_none());
    assert!(logger.silly_single("quiet", "X").is_none());
    assert!(logger.warn_single("loud", "X").is_some());
    assert!(logger.error_single("loud", "X").is_some());
    assert!(logger.fatal_single("loud", "X").is_some());
}

#[test]
fn removing_the_file_restores_stdout() {
    let mut logger = Logger::new(LogLevel::Info, None);
    assert!(to_stdout(&logger.info_single("a", "t").unwrap()));
    logger.set_file("app.log");
    assert_eq!(logger.log_file(), "app.log");
    assert_eq!(file_of(&logger.info_single("b", "t").unwrap()), Some("app.log".to_string()));
    logger.remove_file();
    assert_eq!(logger.log_file(), "");
    assert!(to_stdout(&logger.info_single("c", "t").unwrap()));
    assert_eq!(logger.log_level(), LogLevel::Info);
}

#[test]
fn an_empty_file_name_means_stdout() {
    let mut logger = Logger::new(LogLevel::Info, Some(""));
    assert!(to_stdout(&logger.info_single("a", "t").unwrap()));
    logger.set_file("x.log");
    logger.set_file("");
    assert!(to_stdout(&logger.info_single("a", "t").unwrap()));
}

#[test]
fn the_threshold_can_be_changed() {
    let mut logger = Logger::new(LogLevel::Fatal, None);
    assert!(logger.error_single("a", "t").is_none());
    logger.set_log_level(LogLevel::Silly);
    assert_eq!(logger.log_level(), LogLevel::Silly);
    assert!(logger.silly_single("a", "t").is_some());
}

fn place() -> CallSite {
    CallSite {
        file: Some("/main.rs".to_string()),
        line: Some(12),
        column: Some(5),
        function: Some("demo::run".to_string()),
    }
}

#[test]
fn a_record_for_a_given_place_in_a_file() {
    let logger = Logger::new(LogLevel::Info, Some("r.log"));
    let e = logger
        .render("m", "t", LogLevel::Warn, Some(Some(place())), Some(Ok("{}".to_string())))
        .unwrap();
    let margin = " ".repeat(28);
    assert_eq!(
        &e.text[21..],
        format!(
            " warn:  ┏ [t] m\n{m} ┃ at main.rs:12:5 [demo::run]\n{m} ┗ [1] {{}}",
            m = margin
        )
    );
    assert_eq!(e.text.matches('\n').count(), 2);
    assert!(e.text.ends_with(&format!("\n{}┗ [1] {{}}", " ".repeat(29))));
}

#[test]
fn a_record_for_an_unknown_place_in_a_file() {
    let logger = Logger::new(LogLevel::Info, Some("r.log"));
    let e = logger.render("m", "t", LogLevel::Info, Some(None), None).unwrap();
    assert_eq!(&e.text[21..], format!(" info:  ┏ [t] m\n{} ┗ unknown", " ".repeat(28)));
    assert_eq!(e.text.matches('\n').count(), 1);
}

#[test]
fn a_record_without_a_place_in_a_file() {
    let logger = Logger::new(LogLevel::Info, Some("r.log"));
    let e = logger.render("m", "t", LogLevel::Fatal, None, None).unwrap();
    assert_eq!(&e.text[21..], " fatal: ▪ [t] m");
    assert!(logger.render("m", "t", LogLevel::Debug, Some(Some(place())), None).is_none());
}

#[test]
fn the_time_in_a_file_has_its_pattern() {
    let logger = Logger::new(LogLevel::Info, Some("r.log"));
    let e = logger.render("m", "t", LogLevel::Info, None, None).unwrap();
    let stamp = e.text[..21].as_bytes();
    assert_eq!(stamp[0], b'[');
    assert_eq!(stamp[20], b']');
    assert_eq!((stamp[5], stamp[8], stamp[11], stamp[14], stamp[17]), (b'-', b'-', b' ', b':', b':'));
    for i in [1, 2, 3, 4, 6, 7, 9, 10, 12, 13, 15, 16, 18, 19] {
        assert!(stamp[i].is_ascii_digit());
    }
}

#[test]
fn the_means_to_find_the_place_can_be_set() {
    let mut logger = Logger::new(LogLevel::Info, None);
    assert_eq!(logger.caller_source(), CallerSource::Stack);
    logger.set_caller_source(CallerSource::Unavailable);
    assert_eq!(logger.caller_source(), CallerSource::Unavailable);
    assert_eq!(logger.log_level(), LogLevel::Info);
}
