use colourful_logger::level::LogLevel;
use colourful_logger::logger::Logger;
use colourful_logger::style::Colour;

const ALL: [LogLevel; 6] = [
    LogLevel::Fatal,
    LogLevel::Error,
    LogLevel::Warn,
    LogLevel::Info,
    LogLevel::Debug,
    LogLevel::Silly,
];

#[test]
fn severity_runs_from_fatal_to_silly() {
    assert_eq!(LogLevel::Fatal.severity(), 0);
    assert_eq!(LogLevel::Error.severity(), 1);
    assert_eq!(LogLevel::Warn.severity(), 2);
    assert_eq!(LogLevel::Info.severity(), 3);
    assert_eq!(LogLevel::Debug.severity(), 4);
    assert_eq!(LogLevel::Silly.severity(), 5);
}

#[test]
fn a_record_is_emitted_iff_its_number_is_not_above_the_threshold() {
    for level in ALL {
        for threshold in ALL {
            let expected = level.severity() <= threshold.severity();
            assert_eq!(level.is_emitted_at(threshold), expected);
            let logger = Logger::new(threshold, None);
            assert_eq!(logger.write_single("m", "t", level).is_some(), expected);
            assert_eq!(logger.write("m", "t", false, level, Some(Ok("1".to_string()))).is_some(), expected);
        }
    }
}

#[test]
fn names_are_parsed_without_regard_to_case() {
    assert_eq!(LogLevel::parse("silly"), Some(LogLevel::Silly));
    assert_eq!(LogLevel::parse("DEBUG"), Some(LogLevel::Debug));
    assert_eq!(LogLevel::parse("Info"), Some(LogLevel::Info));
    assert_eq!(LogLevel::parse("wArN"), Some(LogLevel::Warn));
    assert_eq!(LogLevel::parse("error"), Some(LogLevel::Error));
    assert_eq!(LogLevel::parse("FATAL"), Some(LogLevel::Fatal));
}

#[test]
fn numbers_are_parsed_as_levels() {
    assert_eq!(LogLevel::parse("0"), Some(LogLevel::Fatal));
    assert_eq!(LogLevel::parse("1"), Some(LogLevel::Error));
    assert_eq!(LogLevel::parse("2"), Some(LogLevel::Warn));
    assert_eq!(LogLevel::parse("3"), Some(LogLevel::Info));
    assert_eq!(LogLevel::parse("4"), Some(LogLevel::Debug));
    assert_eq!(LogLevel::parse("5"), Some(LogLevel::Silly));
}

#[test]
fn other_texts_name_no_level() {
    assert_eq!(LogLevel::parse(""), None);
    assert_eq!(LogLevel::parse("6"), None);
    assert_eq!(LogLevel::parse("verbose"), None);
    assert_eq!(LogLevel::parse(" info"), None);
    assert_eq!(LogLevel::parse("info "), None);
    assert_eq!(LogLevel::parse("infö"), None);
    assert_eq!(LogLevel::parse("\u{130}nfo"), None);
}

#[test]
fn parsing_agrees_with_lowercasing_by_the_standard_library() {
    for name in ["SILLY", "Debug", "iNFO", "WARN", "Error", "fAtAl", "5", "x", "WARNING"] {
        let expected = match name.to_lowercase().as_str() {
            "silly" | "5" => Some(LogLevel::Silly),
            "debug" | "4" => Some(LogLevel::Debug),
            "info" | "3" => Some(LogLevel::Info),
            "warn" | "2" => Some(LogLevel::Warn),
            "error" | "1" => Some(LogLevel::Error),
            "fatal" | "0" => Some(LogLevel::Fatal),
            _ => None,
        };
        assert_eq!(LogLevel::parse(name), expected);
    }
}

#[test]
fn a_missing_or_unknown_setting_gives_info() {
    assert_eq!(LogLevel::from_setting(None), LogLevel::Info);
    assert_eq!(LogLevel::from_setting(Some("nonsense")), LogLevel::Info);
    assert_eq!(LogLevel::from_setting(Some("Silly")), LogLevel::Silly);
    assert_eq!(LogLevel::from_setting(Some("0")), LogLevel::Fatal);
    assert_eq!(Logger::from_setting(None).log_level(), LogLevel::Info);
    assert_eq!(Logger::from_setting(Some("WARN")).log_level(), LogLevel::Warn);
    assert_eq!(Logger::from_setting(Some("warn")).log_file(), "");
}

#[test]
fn labels_end_in_a_colon() {
    assert_eq!(LogLevel::Fatal.name(), "fatal:");
    assert_eq!(LogLevel::Error.name(), "error:");
    assert_eq!(LogLevel::Warn.name(), "warn:");
    assert_eq!(LogLevel::Info.name(), "info:");
    assert_eq!(LogLevel::Debug.name(), "debug:");
    assert_eq!(LogLevel::Silly.name(), "silly:");
}

#[test]
fn each_level_has_its_colour() {
    assert_eq!(LogLevel::Fatal.get_colour(), Colour::Red);
    assert_eq!(LogLevel::Error.get_colour(), Colour::BrightRed);
    assert_eq!(LogLevel::Warn.get_colour(), Colour::BrightYellow);
    assert_eq!(LogLevel::Info.get_colour(), Colour::BrightGreen);
    assert_eq!(LogLevel::Debug.get_colour(), Colour::BrightBlue);
    assert_eq!(LogLevel::Silly.get_colour(), Colour::BrightMagenta);
}
