use terminal_server::recording::{looks_like_json, read_items, read_line, JsonItem, Line};

fn data_of(line: Line) -> Option<(i32, String)> {
    match line {
        Line::Data { pid, data } => Some((pid, data)),
        _ => None,
    }
}

fn number(n: i32) -> JsonItem {
    JsonItem { number: Some(n), text: None }
}

fn string(s: &str) -> JsonItem {
    JsonItem { number: None, text: Some(s.to_string()) }
}

#[test]
fn json_by_its_looks() {
    assert!(looks_like_json("{}"));
    assert!(looks_like_json(" \t[1, 2]\r\n"));
    assert!(looks_like_json("{not json}"));
    assert!(looks_like_json("[\u{e9}]"));
}

#[test]
fn no_json_by_its_looks() {
    assert!(!looks_like_json(""));
    assert!(!looks_like_json("{"));
    assert!(!looks_like_json("["));
    assert!(!looks_like_json("{]"));
    assert!(!looks_like_json("[}"));
    assert!(!looks_like_json("}{"));
    assert!(!looks_like_json("x{}"));
    assert!(!looks_like_json("\u{e9}"));
}

#[test]
fn line_with_data() {
    let line = "  [1.5, \"o\", \"a\\u001b]133;B\\u0007b\", 77]\r\n";
    assert_eq!(data_of(read_line(line)), Some((77, "a\x1b]133;B\x07b".to_string())));
    let longer = "[0, \"o\", \"x\", 1, {\"more\": [null]}]";
    assert_eq!(data_of(read_line(longer)), Some((1, "x".to_string())));
}

#[test]
fn process_number_in_other_notations() {
    for (text, pid) in [
        ("42.9", 42),
        ("-42.9", -42),
        ("1e3", 1000),
        ("3000000000", i32::MAX),
        ("-3000000000", i32::MIN),
        ("18446744073709551615", i32::MAX),
        ("1e300", i32::MAX),
    ] {
        let line = format!("[0, \"o\", \"x\", {text}]");
        assert_eq!(data_of(read_line(&line)), Some((pid, "x".to_string())), "{text}");
    }
}

#[test]
fn event_without_data() {
    for line in [
        "[]",
        "[0, \"o\", \"x\"]",
        "[0, \"o\", \"x\", \"77\"]",
        "[0, \"o\", 1, 77]",
        "[0, \"o\", null, null]",
    ] {
        assert!(matches!(read_line(line), Line::NoData), "{line}");
    }
}

#[test]
fn unknown_line() {
    for line in ["", "text", "{}", "{\"a\": 1}", "[0, \"o\", \"x\", 77", "[not json]", "[1 2]"] {
        assert!(matches!(read_line(line), Line::Unknown), "{line}");
    }
}

#[test]
fn line_by_its_items() {
    assert!(matches!(read_items(None), Line::Unknown));
    assert!(matches!(read_items(Some(vec![])), Line::NoData));
    let short = vec![number(0), string("o"), string("x")];
    assert!(matches!(read_items(Some(short)), Line::NoData));
    let swapped = vec![number(0), string("o"), number(7), string("x")];
    assert!(matches!(read_items(Some(swapped)), Line::NoData));
    let whole = vec![number(0), string("o"), string("x"), number(7)];
    assert_eq!(data_of(read_items(Some(whole))), Some((7, "x".to_string())));
}
