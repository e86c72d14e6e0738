use terminal_server::detail::Detail;
use terminal_server::filter::{
    compile_filters, install_filters, match_step_event, named_captures, RegexFilter,
};

fn filter(filter_type: &str, name: &str, pattern: &str) -> RegexFilter {
    RegexFilter {
        filter_type: filter_type.to_string(),
        name: name.to_string(),
        pattern: pattern.to_string(),
        detail: Some("detail of ".to_string() + name),
        regex: None,
    }
}

fn compiled(filters: Vec<RegexFilter>) -> Vec<RegexFilter> {
    match compile_filters(&filters) {
        Ok(filters) => filters,
        Err(pattern) => panic!("{pattern}"),
    }
}

fn sorted(detail: &Option<Detail>) -> Vec<(String, String)> {
    let mut entries = match detail {
        Some(detail) => detail.entries().clone(),
        None => Vec::new(),
    };
    entries.sort();
    entries
}

fn pair(name: &str, value: &str) -> (String, String) {
    (name.to_string(), value.to_string())
}

fn some(text: &str) -> Option<String> {
    Some(text.to_string())
}

#[test]
fn step_with_named_groups() {
    let filters = compiled(vec![filter(
        "step",
        "compile",
        r"Compiling (?<crate>\w+) v(?<version>[\d.]+)(?<path> \(.*\))?",
    )]);
    let (name, detail) = match_step_event("   Compiling regex v1.10.2", &filters);
    assert_eq!(name, "compile");
    assert_eq!(sorted(&detail), vec![pair("crate", "regex"), pair("version", "1.10.2")]);
}

#[test]
fn step_without_named_groups() {
    let filters = compiled(vec![filter("step", "done", r"(Finished)")]);
    let (name, detail) = match_step_event("Finished dev", &filters);
    assert_eq!(name, "done");
    assert!(detail.is_none());
}

#[test]
fn first_filter_that_matches() {
    let filters = compiled(vec![
        filter("other", "zero", "a"),
        filter("step", "one", "x"),
        filter("step", "two", "a"),
        filter("step", "three", "a"),
    ]);
    let (name, detail) = match_step_event("abc", &filters);
    assert_eq!(name, "two");
    assert!(detail.is_none());
}

#[test]
fn no_filter_that_matches() {
    let filters = compiled(vec![filter("other", "zero", "a"), filter("step", "one", "x")]);
    let (name, detail) = match_step_event("abc", &filters);
    assert_eq!(name, "");
    assert!(detail.is_none());
    assert_eq!(match_step_event("abc", &[]).0, "");
}

#[test]
fn filter_that_is_not_compiled() {
    let filters = vec![filter("step", "one", "a")];
    assert_eq!(match_step_event("abc", &filters).0, "");
}

#[test]
fn captures_by_name() {
    let names = vec![None, some("a"), None, some("b"), some("c"), some("d")];
    let groups = vec![some("whole"), some("1"), some("2"), None, some("")];
    let detail = named_captures(&names, &groups);
    assert_eq!(sorted(&detail), vec![pair("a", "1"), pair("c", "")]);
}

#[test]
fn no_captures_by_name() {
    assert!(named_captures(&vec![], &vec![]).is_none());
    assert!(named_captures(&vec![some("whole")], &vec![some("x")]).is_none());
    assert!(named_captures(&vec![None, None], &vec![some("x"), some("y")]).is_none());
    assert!(named_captures(&vec![None, some("a")], &vec![some("x"), None]).is_none());
}

#[test]
fn detail_keeps_the_last_value() {
    let mut detail = Detail::new();
    assert!(detail.is_empty());
    detail.insert("a".to_string(), "1".to_string());
    detail.insert("b".to_string(), "2".to_string());
    detail.insert("a".to_string(), "3".to_string());
    assert!(!detail.is_empty());
    assert_eq!(sorted(&Some(detail)), vec![pair("a", "3"), pair("b", "2")]);
}

#[test]
fn filters_are_replaced() {
    let mut current = compiled(vec![filter("step", "old", "a")]);
    let incoming = vec![filter("step", "one", "b"), filter("other", "two", "c")];
    let reply = install_filters(&mut current, compile_filters(&incoming));
    assert_eq!(reply.status, 200);
    assert_eq!(reply.body, "OK");
    assert_eq!(current.len(), 2);
    for (new, sent) in current.iter().zip(&incoming) {
        assert_eq!(new.filter_type, sent.filter_type);
        assert_eq!(new.name, sent.name);
        assert_eq!(new.pattern, sent.pattern);
        assert_eq!(new.detail, sent.detail);
        assert!(new.regex.is_some());
    }
    assert_eq!(match_step_event("ab", &current).0, "one");
}

#[test]
fn filters_that_are_refused() {
    let mut current = compiled(vec![filter("step", "old", "a")]);
    let incoming = vec![
        filter("step", "one", "b"),
        filter("step", "two", "(unclosed"),
        filter("step", "three", "[unclosed"),
    ];
    let reply = install_filters(&mut current, compile_filters(&incoming));
    assert_eq!(reply.status, 400);
    assert_eq!(reply.body, "Invalid regex: (unclosed");
    assert_eq!(current.len(), 1);
    assert_eq!(match_step_event("ab", &current).0, "old");
}

#[test]
fn empty_list_of_filters() {
    let mut current = compiled(vec![filter("step", "old", "a")]);
    let reply = install_filters(&mut current, compile_filters(&[]));
    assert_eq!(reply.status, 200);
    assert!(current.is_empty());
}

#[test]
fn pattern_that_is_too_large() {
    let huge = "step".to_string() + &"\\w{100}{100}{100}".to_string();
    match compile_filters(&[filter("step", "huge", &huge)]) {
        Ok(_) => panic!("accepted"),
        Err(pattern) => assert_eq!(pattern, huge),
    }
}

#[test]
fn series_of_requests() {
    let mut current: Vec<RegexFilter> = Vec::new();
    let refused = vec![filter("step", "bad", "(")];
    let accepted = vec![filter("step", "one", "a")];
    let last = vec![filter("step", "two", "b"), filter("step", "three", "c")];
    assert_eq!(install_filters(&mut current, compile_filters(&refused)).status, 400);
    assert!(current.is_empty());
    for requests in [&accepted, &refused, &last, &refused] {
        install_filters(&mut current, compile_filters(requests));
    }
    let names: Vec<&str> = current.iter().map(|filter| filter.name.as_str()).collect();
    assert_eq!(names, vec!["two", "three"]);
    assert!(current.iter().all(|filter| filter.regex.is_some()));
    assert_eq!(match_step_event("c", &current).0, "three");
}

#[test]
fn repeated_request() {
    for incoming in [vec![filter("step", "one", "a")], vec![filter("step", "bad", "(")]] {
        let mut current = compiled(vec![filter("step", "old", "b")]);
        let first = install_filters(&mut current, compile_filters(&incoming));
        let names: Vec<String> = current.iter().map(|filter| filter.name.clone()).collect();
        let second = install_filters(&mut current, compile_filters(&incoming));
        let again: Vec<String> = current.iter().map(|filter| filter.name.clone()).collect();
        assert_eq!(names, again);
        assert_eq!(first.status, second.status);
        assert_eq!(first.body, second.body);
    }
}

#[test]
fn filters_that_do_not_match_make_no_difference() {
    let later = compiled(vec![filter("step", "late", "a(?<x>.)")]);
    let all = compiled(vec![filter("step", "early", "z"), filter("step", "late", "a(?<x>.)")]);
    let (name, detail) = match_step_event("ab", &all);
    assert_eq!(name, "late");
    assert_eq!(match_step_event("ab", &later).0, name);
    assert_eq!(sorted(&match_step_event("ab", &later).1), sorted(&detail));
    assert_eq!(match_step_event("q", &all).0, match_step_event("q", &later).0);
}
