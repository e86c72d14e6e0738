use terminal_server::connection::{Connection, Step};
use terminal_server::detail::Detail;
use terminal_server::event::{is_sent, EventPayload};
use terminal_server::filter::{compile_filters, RegexFilter};
use terminal_server::recording::Line;
use terminal_server::session::{
    begins_command, format_command_id, Clock, Origin, SessionState, TerminalSession,
};
use terminal_server::terminals::{CastHeader, TerminalTable};

const START: &str = "$ \x1b]133;B\x07make all\x1b[K\r\n";
const END: &str = "\x1b]133;D;2\x07";

fn at(unix_secs: u64, millis: u64) -> Clock {
    Clock { unix_secs, nanos: millis * 1_000_000 }
}

fn origin() -> Origin {
    Origin {
        username: "ada".to_string(),
        directory: "/home/ada".to_string(),
        shell: "zsh".to_string(),
    }
}

fn filters() -> Vec<RegexFilter> {
    let step = RegexFilter {
        filter_type: "step".to_string(),
        name: "build".to_string(),
        pattern: r"building (?<target>\w+)".to_string(),
        detail: None,
        regex: None,
    };
    match compile_filters(&[step]) {
        Ok(filters) => filters,
        Err(pattern) => panic!("{pattern}"),
    }
}

fn command_of(event: &EventPayload) -> &str {
    event.command.as_deref().unwrap()
}

fn id_of(event: &EventPayload) -> &str {
    event.command_id.as_deref().unwrap()
}

fn header(username: &str, directory: &str, shell: Option<&str>) -> CastHeader<u32> {
    CastHeader {
        username: Some(username.to_string()),
        directory: Some(directory.to_string()),
        shell: shell.map(|shell| shell.to_string()),
        rest: 80,
    }
}

fn data(pid: i32, data: &str) -> Line {
    Line::Data { pid, data: data.to_string() }
}

#[test]
fn new_session_is_idle() {
    let session = TerminalSession::new(7);
    assert_eq!(session.pid, 7);
    assert_eq!(session.state, SessionState::Idle);
    assert!(session.command_buffer.is_empty());
    assert!(session.prompt_buffer.is_empty());
    assert_eq!(session.last_exit_code, 0);
    assert_eq!(session.command_string, "");
    assert_eq!(session.current_input, "");
    assert_eq!(session.start_time, None);
    assert_eq!(session.command_id, "");
    assert!(!session.expecting_command);
}

#[test]
fn command_identifiers() {
    assert_eq!(format_command_id(0, 0), "0N-0");
    assert_eq!(format_command_id(1700000000, 4321), "1700000000N-4321");
    assert_eq!(format_command_id(u64::MAX, i32::MIN), "18446744073709551615N--2147483648");
    assert_eq!(format_command_id(10, i32::MAX), "10N-2147483647");
    assert_ne!(format_command_id(1, 11), format_command_id(11, 1));
}

#[test]
fn command_from_start_to_end() {
    let mut session = TerminalSession::new(7);
    let filters = filters();

    assert!(begins_command(START));
    let start = session.handle_data(START, &at(1000, 50), &origin(), &filters).unwrap();
    assert_eq!(start.event, "start");
    assert_eq!(command_of(&start), "make all");
    assert_eq!(id_of(&start), "1000N-7");
    assert_eq!(start.username.as_deref(), Some("ada"));
    assert_eq!(start.directory.as_deref(), Some("/home/ada"));
    assert_eq!(start.shell.as_deref(), Some("zsh"));
    assert_eq!(start.exit_code, None);
    assert_eq!(start.duration, None);
    assert_eq!(start.name, None);
    assert!(start.detail.is_none());
    assert_eq!(start.should_end, None);
    assert_eq!(start.source_name, None);
    assert_eq!(start.source_version, None);
    assert_eq!(session.state, SessionState::Command);

    assert!(session.handle_data("\x1b]133;C\x07", &at(1001, 60), &origin(), &filters).is_none());
    assert!(session.handle_data("hello\r\n", &at(1001, 70), &origin(), &filters).is_none());
    let step = session.handle_data("building app", &at(1002, 80), &origin(), &filters).unwrap();
    assert_eq!(step.event, "step");
    assert_eq!(command_of(&step), "make all");
    assert_eq!(id_of(&step), "1000N-7");
    assert_eq!(step.name.as_deref(), Some("build"));
    let detail: Detail = step.detail.unwrap();
    assert_eq!(*detail.entries(), vec![("target".to_string(), "app".to_string())]);
    assert_eq!(step.should_end, Some(false));
    assert!(session.handle_data(" \r\n", &at(1002, 90), &origin(), &filters).is_none());
    assert_eq!(session.command_buffer, vec!["hello\r\n", "building app"]);

    let end = session.handle_data(END, &at(1003, 2550), &origin(), &filters).unwrap();
    assert_eq!(end.event, "end");
    assert_eq!(command_of(&end), "make all");
    assert_eq!(id_of(&end), "1000N-7");
    assert_eq!(end.exit_code, Some(2));
    assert_eq!(end.duration, Some(2500));
    assert_eq!(end.should_end, None);
    assert_eq!(session.state, SessionState::Prompt);
    assert_eq!(session.last_exit_code, 2);
    assert!(session.command_buffer.is_empty());
    assert_eq!(session.command_string, "");
    assert_eq!(session.start_time, None);
    assert_eq!(session.command_id, "1000N-7");
}

#[test]
fn prompt_is_kept_and_not_reported() {
    let mut session = TerminalSession::new(7);
    session.handle_data(START, &at(1000, 0), &origin(), &[]);
    session.handle_data(END, &at(1000, 0), &origin(), &[]);
    assert!(session.handle_data("$ ", &at(1000, 0), &origin(), &filters()).is_none());
    assert!(session.handle_data("building x", &at(1000, 0), &origin(), &filters()).is_none());
    assert_eq!(session.prompt_buffer, vec!["$ ", "building x"]);
}

#[test]
fn second_end_is_not_sent() {
    let mut session = TerminalSession::new(7);
    session.handle_data(START, &at(1000, 0), &origin(), &[]);
    let end = session.handle_data(END, &at(1000, 0), &origin(), &[]).unwrap();
    assert!(is_sent(&end));
    let again = session.handle_data(END, &at(1001, 0), &origin(), &[]).unwrap();
    assert!(!is_sent(&again));
    assert_eq!(again.duration, Some(100));
    assert_eq!(again.exit_code, Some(2));
}

#[test]
fn end_without_start() {
    let mut session = TerminalSession::new(7);
    let end = session.handle_data("\x1b]133;D\x07", &at(5, 5), &origin(), &[]).unwrap();
    assert_eq!(command_of(&end), "");
    assert_eq!(id_of(&end), "");
    assert_eq!(end.exit_code, Some(-1));
    assert_eq!(end.duration, Some(100));
    assert_eq!(session.last_exit_code, -1);
    assert_eq!(session.state, SessionState::Prompt);
}

#[test]
fn duration_in_whole_milliseconds() {
    let mut session = TerminalSession::new(7);
    let start = Clock { unix_secs: 1, nanos: 1 };
    session.handle_data(START, &start, &origin(), &[]);
    let stop = Clock { unix_secs: 1, nanos: 3_000_000 };
    let end = session.handle_data(END, &stop, &origin(), &[]).unwrap();
    assert_eq!(end.duration, Some(2));
}

#[test]
fn duration_is_not_negative() {
    let mut session = TerminalSession::new(7);
    session.handle_data(START, &at(1, 50), &origin(), &[]);
    let end = session.handle_data(END, &at(1, 40), &origin(), &[]).unwrap();
    assert_eq!(end.duration, Some(0));
}

#[test]
fn idle_process_is_not_reported() {
    let mut session = TerminalSession::new(7);
    assert!(session.handle_data("building x", &at(1, 1), &origin(), &filters()).is_none());
    assert_eq!(session.state, SessionState::Idle);
    assert!(session.command_buffer.is_empty());
    assert!(session.prompt_buffer.is_empty());
}

#[test]
fn command_after_the_mark() {
    let mut session = TerminalSession::new(7);
    let mark = session.handle_data("$ \x1b]133;B\x07", &at(1000, 10), &origin(), &[]);
    assert!(mark.is_none());
    assert!(session.expecting_command);
    assert_eq!(session.state, SessionState::Command);
    let line = " git status \x1b[K\x1b[K\r\n";
    let start = session.handle_data(line, &at(1005, 20), &origin(), &[]).unwrap();
    assert_eq!(start.event, "start");
    assert_eq!(command_of(&start), "git status ");
    assert_eq!(id_of(&start), "1000N-7");
    assert!(!session.expecting_command);
    let end = session.handle_data(END, &at(1006, 110), &origin(), &[]).unwrap();
    assert_eq!(command_of(&end), "git status ");
    assert_eq!(end.duration, Some(100));
}

#[test]
fn expected_command_that_does_not_come() {
    for line in ["no erase sequence", "\x1b[K", " \x1b[K\x1b[K", ""] {
        let mut session = TerminalSession::new(7);
        session.handle_data("\x1b]133;B\x07", &at(1000, 10), &origin(), &[]);
        assert!(session.handle_data(line, &at(1000, 10), &origin(), &[]).is_none(), "{line}");
        assert!(!session.expecting_command);
        assert_eq!(session.command_string, "");
        assert!(session.command_buffer.is_empty());
    }
}

#[test]
fn command_mark_goes_before_end_mark() {
    let mut session = TerminalSession::new(7);
    let both = "\x1b]133;D;0\x07$ \x1b]133;B\x07ls";
    let event = session.handle_data(both, &at(1, 1), &origin(), &[]).unwrap();
    assert_eq!(event.event, "start");
    assert_eq!(command_of(&event), "ls");
}

#[test]
fn session_by_parts() {
    let mut session = TerminalSession::new(-3);
    let start = session.command_mark("ls".to_string(), &at(9, 1), &origin()).unwrap();
    assert_eq!(id_of(&start), "9N--3");
    assert!(session.output("x", (String::new(), None), &origin()).is_none());
    let step = session.output("y", ("part".to_string(), None), &origin()).unwrap();
    assert_eq!(step.name.as_deref(), Some("part"));
    assert_eq!(session.command_buffer, vec!["x", "y"]);
    assert_eq!(session.end_mark(77, &at(9, 4), &origin()).exit_code, Some(77));
    assert!(session.command_mark(String::new(), &at(10, 5), &origin()).is_none());
    let echoed = session.echo("pwd\x1b[K", &origin()).unwrap();
    assert_eq!(command_of(&echoed), "pwd");
    assert_eq!(id_of(&echoed), "10N--3");
}

#[test]
fn header_is_taken_once() {
    let mut connection = Connection::new("c1".to_string());
    let mut table = TerminalTable::new();
    let line = " {\"version\": 3} ";
    assert!(connection.expects_header(line));
    assert!(!connection.expects_header("[1]"));
    assert!(matches!(connection.read_line(line), Step::ParseHeader));
    connection.take_header(header("ada", "/", None), &mut table);
    assert!(!connection.expects_header(line));
    match connection.read_line(line) {
        Step::Handle(again) => {
            assert!(matches!(again, Line::Unknown));
            assert!(connection.handle_line(&again, &at(1, 1), &[]).is_none());
        }
        Step::ParseHeader => panic!("parsed again"),
    }
    let start = connection.handle_data(1, START, &at(1, 1), &[]).unwrap();
    assert_eq!(start.username.as_deref(), Some("ada"));
    assert_eq!(start.directory.as_deref(), Some("/"));
    assert_eq!(start.shell.as_deref(), Some(""));
}

#[test]
fn events_before_the_header() {
    let mut connection = Connection::new("c1".to_string());
    match connection.read_line("[0, \"o\", \"x\", 5]") {
        Step::Handle(Line::Data { pid, data }) => {
            assert_eq!(pid, 5);
            assert!(connection.handle_data(pid, &data, &at(1, 1), &[]).is_none());
        }
        _ => panic!("no data"),
    }
    assert_eq!(connection.session(5).map(|session| session.pid), Some(5));
    assert!(connection.expects_header("{}"));
}

#[test]
fn directory_holds_for_all_processes() {
    let mut connection = Connection::new("c1".to_string());
    connection.take_header(header("ada", "/a", None), &mut TerminalTable::new());
    let start = connection.handle_data(1, START, &at(1, 1), &[]).unwrap();
    assert_eq!(start.directory.as_deref(), Some("/a"));
    let moving = "\x1b]1337;CurrentDir=/b\x07";
    assert!(connection.handle_data(2, moving, &at(1, 1), &[]).is_none());
    let end = connection.handle_data(1, END, &at(1, 1), &[]).unwrap();
    assert_eq!(end.directory.as_deref(), Some("/b"));
    let both = "\x1b]1337;CurrentDir=/c\x07\x1b]133;B\x07ls";
    let start = connection.handle_data(2, both, &at(1, 1), &[]).unwrap();
    assert_eq!(start.directory.as_deref(), Some("/c"));
}

#[test]
fn processes_are_kept_apart() {
    let mut connection = Connection::new("c1".to_string());
    connection.handle_data(1, START, &at(10, 0), &[]);
    connection.handle_data(2, "\x1b]133;B\x07other", &at(20, 5), &[]);
    connection.handle_data(2, "output", &at(20, 5), &[]);
    let end = connection.handle_data(1, END, &at(30, 10), &[]).unwrap();
    assert_eq!(command_of(&end), "make all");
    assert_eq!(id_of(&end), "10N-1");
    assert_eq!(end.duration, Some(10));
    let other = connection.session(2).unwrap();
    assert_eq!(other.state, SessionState::Command);
    assert_eq!(other.command_string, "other");
    assert_eq!(other.command_buffer, vec!["output"]);
    assert!(connection.session(3).is_none());
}

#[test]
fn user_and_shell_before_and_after_the_header() {
    let mut connection = Connection::new("c1".to_string());
    let early = connection.handle_line(&data(1, START), &at(1, 1), &[]).unwrap();
    assert_eq!(early.username.as_deref(), Some(""));
    assert_eq!(early.shell.as_deref(), Some(""));
    let mut table = TerminalTable::new();
    connection.take_header(header("ada", "/", Some("zsh")), &mut table);
    let moving = data(2, "\x1b]1337;CurrentDir=/b\x07");
    assert!(connection.handle_line(&moving, &at(1, 1), &[]).is_none());
    let late = connection.handle_line(&data(1, END), &at(1, 1), &[]).unwrap();
    assert_eq!(late.username.as_deref(), Some("ada"));
    assert_eq!(late.shell.as_deref(), Some("zsh"));
    assert_eq!(late.directory.as_deref(), Some("/b"));
}

#[test]
fn table_of_terminals() {
    let mut table = TerminalTable::new();
    let mut one = Connection::new("c1".to_string());
    let mut two = Connection::new("c2".to_string());
    assert!(table.header("c1").is_none());
    one.take_header(header("ada", "/", None), &mut table);
    two.take_header(header("bob", "/home", Some("fish")), &mut table);
    let kept = table.header("c1").unwrap();
    assert_eq!(kept.username.as_deref(), Some("ada"));
    assert_eq!(kept.directory.as_deref(), Some("/"));
    assert_eq!(kept.shell, None);
    assert_eq!(kept.rest, 80);
    two.close(&mut table);
    assert!(table.header("c2").is_none());
    assert!(table.header("c1").is_some());
    one.close(&mut table);
    assert!(table.header("c1").is_none());
    Connection::new("c3".to_string()).close(&mut table);
    assert!(table.header("c3").is_none());
}

#[test]
fn other_lines_change_nothing() {
    let mut connection = Connection::new("c1".to_string());
    connection.handle_line(&data(1, START), &at(1, 1), &[]);
    for line in ["", "text", "[1, 2", "[0, \"o\", \"x\"]", "[0, \"o\", 5, 6]", "[]"] {
        match connection.read_line(line) {
            Step::Handle(other) => {
                assert!(!matches!(other, Line::Data { .. }), "{line}");
                assert!(connection.handle_line(&other, &at(9, 9), &filters()).is_none());
            }
            Step::ParseHeader => panic!("{line}"),
        }
    }
    let session = connection.session(1).unwrap();
    assert_eq!(session.state, SessionState::Command);
    assert_eq!(session.command_string, "make all");
    assert!(session.command_buffer.is_empty());
    assert!(connection.expects_header("{}"));
    assert!(connection.session(6).is_none());
}

#[test]
fn end_follows_its_start() {
    let mut session = TerminalSession::new(7);
    let bare = "\x1b]133;B\x07";
    let mut sent: Vec<EventPayload> = Vec::new();
    for line in [END, START, "out", bare, "no command", END, END, bare, END, START, END] {
        match session.handle_data(line, &at(5, 5), &origin(), &[]) {
            Some(event) if is_sent(&event) => sent.push(event),
            _ => {}
        }
    }
    let kinds: Vec<&str> = sent.iter().map(|event| event.event.as_str()).collect();
    assert_eq!(kinds, vec!["start", "end", "start", "end"]);
    for pair in sent.chunks(2) {
        assert_eq!(pair[0].command, pair[1].command);
    }
}

#[test]
fn events_of_interleaved_processes() {
    let mut both = Connection::new("c1".to_string());
    let mut alone = Connection::new("c2".to_string());
    let filters = filters();
    for line in [START, "building x", "other", END] {
        both.handle_data(2, line, &at(3, 3), &filters);
        let mixed = both.handle_data(1, line, &at(4, 4), &filters);
        let own = alone.handle_data(1, line, &at(4, 4), &filters);
        assert_eq!(mixed.is_some(), own.is_some());
        if let (Some(mixed), Some(own)) = (mixed, own) {
            assert_eq!(mixed.event, own.event);
            assert_eq!(mixed.command, own.command);
            assert_eq!(mixed.command_id, own.command_id);
            assert_eq!(mixed.exit_code, own.exit_code);
            assert_eq!(mixed.duration, own.duration);
            assert_eq!(mixed.name, own.name);
        }
    }
}

#[test]
fn details_stand_in_the_data() {
    let mut connection = Connection::new("c1".to_string());
    connection.handle_line(&data(1, START), &at(1, 1), &[]);
    let line = "now building server";
    let step = connection.handle_line(&data(1, line), &at(1, 1), &filters()).unwrap();
    let detail = step.detail.unwrap();
    assert_eq!(detail.entries().len(), 1);
    for (name, value) in detail.entries() {
        assert_eq!(name, "target");
        assert_eq!(value, "server");
        assert!(line.contains(value.as_str()));
    }
}

#[test]
fn latest_directory_holds() {
    let mut connection = Connection::new("c1".to_string());
    let start = connection.handle_line(&data(1, START), &at(1, 1), &[]).unwrap();
    assert_eq!(start.directory.as_deref(), Some(""));
    connection.handle_line(&data(2, "\x1b]1337;CurrentDir=/b\x07"), &at(1, 1), &[]);
    let end = connection.handle_line(&data(1, END), &at(1, 1), &[]).unwrap();
    assert_eq!(end.directory.as_deref(), Some("/b"));
    connection.take_header(header("ada", "/home", None), &mut TerminalTable::new());
    let start = connection.handle_line(&data(1, START), &at(1, 1), &[]).unwrap();
    assert_eq!(start.directory.as_deref(), Some("/home"));
    connection.handle_line(&data(1, "\x1b]1337;CurrentDir=/c\x07"), &at(1, 1), &[]);
    connection.handle_line(&Line::Unknown, &at(1, 1), &[]);
    let end = connection.handle_line(&data(1, END), &at(1, 1), &[]).unwrap();
    assert_eq!(end.directory.as_deref(), Some("/c"));
}

#[test]
fn header_between_the_lines_of_a_process() {
    let mut mixed = Connection::new("c1".to_string());
    let mut alone = Connection::new("c2".to_string());
    let mut sent: Vec<EventPayload> = Vec::new();
    for (i, line) in [START, "out", END, END, START, END].into_iter().enumerate() {
        if i == 2 {
            mixed.take_header(header("ada", "/", None), &mut TerminalTable::new());
            alone.take_header(header("ada", "/", None), &mut TerminalTable::new());
        }
        mixed.handle_line(&data(2, START), &at(3, 3), &[]);
        let event = mixed.handle_line(&data(1, line), &at(4, 4), &[]);
        let own = alone.handle_line(&data(1, line), &at(4, 4), &[]);
        assert_eq!(event.is_some(), own.is_some());
        if let (Some(event), Some(own)) = (event, own) {
            assert_eq!(event.event, own.event);
            assert_eq!(event.command, own.command);
            assert_eq!(event.username, own.username);
            assert_eq!(event.directory, own.directory);
            if is_sent(&event) {
                sent.push(event);
            }
        }
    }
    let kinds: Vec<&str> = sent.iter().map(|event| event.event.as_str()).collect();
    assert_eq!(kinds, vec!["start", "end", "start", "end"]);
    assert_eq!(sent[0].username.as_deref(), Some(""));
    assert_eq!(sent[1].username.as_deref(), Some("ada"));
}
