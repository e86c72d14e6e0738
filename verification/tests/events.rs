use terminal_server::event::{
    get_binary_mod_time, is_sent, prepare_event, text_or_epoch, EventPayload, ModTime,
};

fn payload(command: Option<&str>) -> EventPayload {
    EventPayload {
        event: "start".to_string(),
        command: command.map(|c| c.to_string()),
        command_id: Some("1N-2".to_string()),
        shell: None,
        username: Some("user".to_string()),
        directory: None,
        exit_code: Some(3),
        duration: Some(4),
        name: None,
        detail: None,
        should_end: Some(false),
        source_name: None,
        source_version: None,
    }
}

#[test]
fn event_of_a_command_is_sent() {
    assert!(is_sent(&payload(Some("ls"))));
    let sent = prepare_event(payload(Some("ls")), "v1".to_string()).unwrap();
    assert_eq!(sent.event, "start");
    assert_eq!(sent.command.as_deref(), Some("ls"));
    assert_eq!(sent.command_id.as_deref(), Some("1N-2"));
    assert_eq!(sent.username.as_deref(), Some("user"));
    assert_eq!(sent.exit_code, Some(3));
    assert_eq!(sent.duration, Some(4));
    assert_eq!(sent.should_end, Some(false));
    assert_eq!(sent.source_name.as_deref(), Some("Rust Terminal Server"));
    assert_eq!(sent.source_version.as_deref(), Some("v1"));
}

#[test]
fn event_without_command_is_not_sent() {
    assert!(!is_sent(&payload(None)));
    assert!(!is_sent(&payload(Some(""))));
    assert!(prepare_event(payload(None), "v1".to_string()).is_none());
    assert!(prepare_event(payload(Some("")), "v1".to_string()).is_none());
}

#[test]
fn version_by_time() {
    assert_eq!(get_binary_mod_time(ModTime::Seconds(0)), "1970-01-01T00:00:00+00:00");
    assert_eq!(get_binary_mod_time(ModTime::Seconds(1431648000)), "2015-05-15T00:00:00+00:00");
    assert_eq!(get_binary_mod_time(ModTime::Seconds(1709210096)), "2024-02-29T12:34:56+00:00");
}

#[test]
fn version_at_the_bounds_of_dates() {
    assert_eq!(
        get_binary_mod_time(ModTime::Seconds(8210266876799)),
        "+262142-12-31T23:59:59+00:00"
    );
    assert_eq!(
        get_binary_mod_time(ModTime::Seconds(8210266876800)),
        "1970-01-01T00:00:00+00:00"
    );
    assert_eq!(
        get_binary_mod_time(ModTime::Seconds(u64::MAX - 8334601228799)),
        "-262143-01-01T00:00:00+00:00"
    );
    assert_eq!(
        get_binary_mod_time(ModTime::Seconds(u64::MAX - 8334601228800)),
        "1970-01-01T00:00:00+00:00"
    );
    assert_eq!(get_binary_mod_time(ModTime::Seconds(u64::MAX)), "1969-12-31T23:59:59+00:00");
}

#[test]
fn version_without_time() {
    assert_eq!(get_binary_mod_time(ModTime::Unknown), "");
    assert_eq!(get_binary_mod_time(ModTime::BeforeEpoch), "1970-01-01T00:00:00+00:00");
}

#[test]
fn text_of_a_time_or_of_the_epoch() {
    assert_eq!(text_or_epoch(Some("x".to_string())), "x");
    assert_eq!(text_or_epoch(None), "1970-01-01T00:00:00+00:00");
}

#[test]
fn version_is_empty_only_without_time() {
    for seconds in [0, 1, 86399, 86400, 1709210096, u64::MAX] {
        let version = get_binary_mod_time(ModTime::Seconds(seconds));
        assert!(version.ends_with("+00:00"), "{version}");
        assert!(version.contains('T'), "{version}");
    }
    assert!(!get_binary_mod_time(ModTime::BeforeEpoch).is_empty());
    assert!(get_binary_mod_time(ModTime::Unknown).is_empty());
    assert_eq!(get_binary_mod_time(ModTime::Seconds(86399)), "1970-01-01T23:59:59+00:00");
}

#[test]
fn version_reads_back() {
    for seconds in [0, 59, 951782399, 951782400, 951868800, 1709210096, 4107542400, 253402300799] {
        let version = get_binary_mod_time(ModTime::Seconds(seconds));
        let time = chrono::DateTime::parse_from_rfc3339(&version).unwrap();
        assert_eq!(time.timestamp(), seconds as i64);
        assert_eq!(time.timestamp_subsec_nanos(), 0);
        assert_eq!(time.offset().local_minus_utc(), 0);
    }
}

#[test]
fn version_by_the_calendar() {
    for (seconds, version) in [
        (951782400, "2000-02-29T00:00:00+00:00"),
        (951868800, "2000-03-01T00:00:00+00:00"),
        (4107542399, "2100-02-28T23:59:59+00:00"),
        (4107542400, "2100-03-01T00:00:00+00:00"),
        (1735689599, "2024-12-31T23:59:59+00:00"),
        (253402300799, "9999-12-31T23:59:59+00:00"),
        (253402300800, "+10000-01-01T00:00:00+00:00"),
        (u64::MAX - 62167219199, "0000-01-01T00:00:00+00:00"),
        (u64::MAX - 62167219200, "-0001-12-31T23:59:59+00:00"),
    ] {
        assert_eq!(get_binary_mod_time(ModTime::Seconds(seconds)), version);
    }
}
