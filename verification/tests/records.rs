use colourful_logger::caller::{append_decimal, strip_leading_slash, CallSite, CallerSource};
use colourful_logger::payload::serialize;
use colourful_logger::record::{compose, Connectors, Pieces};

fn pieces(site: Option<&str>, payload: Option<(&str, &str)>) -> Pieces {
    Pieces {
        stamp: "[2024-01-02 03:04:05]".to_string(),
        level: "info: ".to_string(),
        tag: "Main".to_string(),
        message: "hello".to_string(),
        site: site.map(|s| s.to_string()),
        payload: payload.map(|(i, b)| (i.to_string(), b.to_string())),
    }
}

#[test]
fn the_four_glyphs() {
    let glyphs = Connectors::default();
    assert_eq!(glyphs.single_line, "▪");
    assert_eq!(glyphs.start_line, "┏");
    assert_eq!(glyphs.line, "┃");
    assert_eq!(glyphs.end_line, "┗");
}

#[test]
fn a_record_of_one_line() {
    assert_eq!(compose(&pieces(None, None)), "[2024-01-02 03:04:05] info:  ▪ [Main] hello");
}

#[test]
fn a_record_with_a_payload() {
    let text = compose(&pieces(None, Some(("[1]", "{\"a\":1}"))));
    let margin = " ".repeat(21) + " " + &" ".repeat(6);
    assert_eq!(
        text,
        format!("[2024-01-02 03:04:05] info:  ┏ [Main] hello\n{} ┗ [1] {{\"a\":1}}", margin)
    );
}

#[test]
fn a_record_with_the_place_of_the_call() {
    let text = compose(&pieces(Some("unknown"), None));
    let margin = " ".repeat(28);
    assert_eq!(text, format!("[2024-01-02 03:04:05] info:  ┏ [Main] hello\n{} ┗ unknown", margin));
}

#[test]
fn a_record_with_both_lines() {
    let text = compose(&pieces(Some("at a.rs:1:2 [f]"), Some(("[1]", "7"))));
    let margin = " ".repeat(28);
    assert_eq!(
        text,
        format!(
            "[2024-01-02 03:04:05] info:  ┏ [Main] hello\n{m} ┃ at a.rs:1:2 [f]\n{m} ┗ [1] 7",
            m = margin
        )
    );
}

#[test]
fn a_payload_is_its_json() {
    assert_eq!(serialize(serde_json::to_string(&vec![1, 2, 3])), "[1,2,3]");
    assert_eq!(serialize(Ok("{\"k\":\"v\"}".to_string())), "{\"k\":\"v\"}");
}

#[test]
fn a_payload_that_cannot_be_serialized_gives_the_placeholder() {
    let mut map = std::collections::BTreeMap::new();
    map.insert((1, 2), 3);
    let outcome = serde_json::to_string(&map);
    assert!(outcome.is_err());
    assert_eq!(serialize(outcome), "Serialization error");
}

#[test]
fn decimal_digits() {
    for (n, expected) in [(0u32, "0"), (7, "7"), (10, "10"), (42, "42"), (1000, "1000"), (u32::MAX, "4294967295")] {
        let mut text = String::from("n=");
        append_decimal(&mut text, n);
        assert_eq!(text, format!("n={}", expected));
    }
}

#[test]
fn a_leading_slash_is_dropped() {
    assert_eq!(strip_leading_slash("/main.rs"), "main.rs");
    assert_eq!(strip_leading_slash("main.rs"), "main.rs");
    assert_eq!(strip_leading_slash("//x"), "/x");
    assert_eq!(strip_leading_slash(""), "");
    assert_eq!(strip_leading_slash("/"), "");
    assert_eq!(strip_leading_slash("é/"), "é/");
}

#[test]
fn a_place_is_described_in_words() {
    let place = CallSite {
        file: Some("main.rs".to_string()),
        line: Some(42),
        column: Some(9),
        function: Some("demo::main".to_string()),
    };
    assert_eq!(place.describe(), "at main.rs:42:9 [demo::main]");
}

#[test]
fn missing_parts_of_a_place_have_their_defaults() {
    let place = CallSite { file: None, line: None, column: None, function: None };
    assert_eq!(place.describe(), "at unknown:0:0 [top level]");
    let place = CallSite { file: Some("/lib.rs".to_string()), line: Some(120), column: None, function: None };
    assert_eq!(place.describe(), "at lib.rs:120:0 [top level]");
}

#[test]
fn nothing_is_located_without_the_means() {
    assert!(CallerSource::Unavailable.locate().is_none());
}

#[test]
fn a_located_place_can_be_described() {
    if let Some(place) = CallerSource::Stack.locate() {
        assert!(place.describe().starts_with("at "));
    }
}
