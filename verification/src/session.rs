//! What is known of one process in a terminal: whether it is at a prompt or runs a command, and
//! which one.

use vstd::prelude::*;
use vstd::string::*;

use crate::detail::Detail;
use crate::event::{EventPayload, EventView, END_EVENT, START_EVENT, STEP_EVENT};
use crate::filter;
use crate::filter::{FilterView, RegexFilter};
use crate::number;
use crate::osc;
use crate::text;

verus! {

/// The duration of a command whose start was not seen, in milliseconds.
pub const UNKNOWN_DURATION: i64 = 100;

/// Stands between the time and the process in the identifier of a command.
pub const ID_SEPARATOR: &'static str = "N-";

/// A reading of the clocks.
#[derive(Clone, Copy)]
pub struct Clock {
    /// The seconds since the start of 1970.
    pub unix_secs: u64,
    /// The nanoseconds since some moment before the readings, by a clock that does not jump.
    pub nanos: u64,
}

/// Who uses the terminal, and where.
pub struct Origin {
    pub username: String,
    pub directory: String,
    pub shell: String,
}

/// Who uses the terminal, and where, as sequences of characters.
#[verifier::ext_equal]
pub struct OriginView {
    pub username: Seq<char>,
    pub directory: Seq<char>,
    pub shell: Seq<char>,
}

impl View for Origin {
    type V = OriginView;

    open spec fn view(&self) -> OriginView {
        OriginView {
            username: self.username@,
            directory: self.directory@,
            shell: self.shell@,
        }
    }
}

/// What a process is doing.
#[derive(Clone, Copy, Debug, PartialEq, Eq, Structural)]
pub enum SessionState {
    /// Nothing was seen of it yet.
    Idle,
    /// It waits at a prompt.
    Prompt,
    /// It runs a command, or reads one.
    Command,
}

/// What is known of one process in a terminal.
pub struct TerminalSession {
    pub pid: i32,
    pub state: SessionState,
    /// The output of the current command.
    pub command_buffer: Vec<String>,
    /// What was written at prompts.
    pub prompt_buffer: Vec<String>,
    pub last_exit_code: i64,
    pub command_string: String,
    pub current_input: String,
    /// When the current command started, in nanoseconds of the clock.
    pub start_time: Option<u64>,
    pub command_id: String,
    /// Whether the command mark came without a command, which is then in the next data.
    pub expecting_command: bool,
}

/// What is known of one process in a terminal, with its texts as sequences of characters.
#[verifier::ext_equal]
pub struct SessionView {
    pub pid: i32,
    pub state: SessionState,
    pub command_buffer: Seq<Seq<char>>,
    pub prompt_buffer: Seq<Seq<char>>,
    pub last_exit_code: i64,
    pub command_string: Seq<char>,
    pub current_input: Seq<char>,
    pub start_time: Option<u64>,
    pub command_id: Seq<char>,
    pub expecting_command: bool,
}

impl View for TerminalSession {
    type V = SessionView;

    open spec fn view(&self) -> SessionView {
        SessionView {
            pid: self.pid,
            state: self.state,
            command_buffer: self.command_buffer.deep_view(),
            prompt_buffer: self.prompt_buffer.deep_view(),
            last_exit_code: self.last_exit_code,
            command_string: self.command_string@,
            current_input: self.current_input@,
            start_time: self.start_time,
            command_id: self.command_id@,
            expecting_command: self.expecting_command,
        }
    }
}

/// A process of which nothing was seen yet.
pub open spec fn new_session(pid: i32) -> SessionView {
    SessionView {
        pid,
        state: SessionState::Idle,
        command_buffer: Seq::empty(),
        prompt_buffer: Seq::empty(),
        last_exit_code: 0,
        command_string: Seq::empty(),
        current_input: Seq::empty(),
        start_time: None,
        command_id: Seq::empty(),
        expecting_command: false,
    }
}

/// The identifier of the command that process `pid` starts at the given second.
pub open spec fn command_id(unix_secs: u64, pid: i32) -> Seq<char> {
    number::decimal(unix_secs as nat) + ID_SEPARATOR@ + number::signed_decimal(pid as int)
}

/// The identifier of the command that process `pid` starts at the given second.
pub fn format_command_id(unix_secs: u64, pid: i32) -> (r: String)
    ensures
        r@ == command_id(unix_secs, pid),
{
    number::format_u64(unix_secs).concat(ID_SEPARATOR).concat(number::format_i32(pid).as_str())
}

/// An event of a command, without the parts that only some events have.
pub open spec fn command_event(
    event: Seq<char>,
    command: Seq<char>,
    command_id: Seq<char>,
    origin: OriginView,
) -> EventView {
    EventView {
        event,
        command: Some(command),
        command_id: Some(command_id),
        shell: Some(origin.shell),
        username: Some(origin.username),
        directory: Some(origin.directory),
        exit_code: None,
        duration: None,
        name: None,
        detail: None,
        should_end: None,
        source_name: None,
        source_version: None,
    }
}

/// An event of a command, without the parts that only some events have.
fn new_event(event: &str, command: String, command_id: String, origin: &Origin) -> (r: EventPayload)
    ensures
        r@ == command_event(event@, command@, command_id@, origin@),
        r.detail is None,
{
    EventPayload {
        event: event.to_string(),
        command: Some(command),
        command_id: Some(command_id),
        shell: Some(origin.shell.clone()),
        username: Some(origin.username.clone()),
        directory: Some(origin.directory.clone()),
        exit_code: None,
        duration: None,
        name: None,
        detail: None,
        should_end: None,
        source_name: None,
        source_version: None,
    }
}

/// A command mark came: a command begins now, and its line, where it came with the mark, is
/// reported.
pub open spec fn on_command_mark(
    s: SessionView,
    command: Seq<char>,
    clock: Clock,
    origin: OriginView,
) -> (SessionView, Option<EventView>) {
    let begun = SessionView {
        state: SessionState::Command,
        command_buffer: Seq::empty(),
        start_time: Some(clock.nanos),
        command_id: command_id(clock.unix_secs, s.pid),
        ..s
    };
    if command.len() > 0 {
        (
            SessionView { command_string: command, expecting_command: false, ..begun },
            Some(command_event(START_EVENT@, command, begun.command_id, origin)),
        )
    } else {
        (SessionView { expecting_command: true, ..begun }, None)
    }
}

/// The milliseconds that a command took.
pub open spec fn duration(start_time: Option<u64>, clock: Clock) -> i64 {
    match start_time {
        Some(start) => if start <= clock.nanos {
            ((clock.nanos - start) / 1_000_000) as i64
        } else {
            0
        },
        None => UNKNOWN_DURATION,
    }
}

/// An end mark came: the command is over, and is reported with its exit code and duration.
pub open spec fn on_end_mark(
    s: SessionView,
    exit_code: i64,
    clock: Clock,
    origin: OriginView,
) -> (SessionView, Option<EventView>) {
    (
        SessionView {
            state: SessionState::Prompt,
            last_exit_code: exit_code,
            command_buffer: Seq::empty(),
            command_string: Seq::empty(),
            start_time: None,
            current_input: Seq::empty(),
            ..s
        },
        Some(
            EventView {
                exit_code: Some(exit_code),
                duration: Some(duration(s.start_time, clock)),
                ..command_event(END_EVENT@, s.command_string, s.command_id, origin)
            },
        ),
    )
}

/// The command in data that the shell echoes: what stands before the erase sequences that end it,
/// or nothing where none does.
pub open spec fn echoed_command(data: Seq<char>) -> Seq<char> {
    let line = text::trimmed(data);
    if text::occurs_at(line, osc::ERASE_TO_END@, line.len() - osc::ERASE_TO_END@.len()) {
        text::without_suffixes(line, osc::ERASE_TO_END@)
    } else {
        Seq::empty()
    }
}

/// Data came while the command was still expected: where it holds the command, that is reported.
pub open spec fn on_echo(s: SessionView, data: Seq<char>, origin: OriginView) -> (
    SessionView,
    Option<EventView>,
) {
    let command = echoed_command(data);
    if command.len() > 0 {
        (
            SessionView { command_string: command, expecting_command: false, ..s },
            Some(command_event(START_EVENT@, command, s.command_id, origin)),
        )
    } else {
        (SessionView { expecting_command: false, ..s }, None)
    }
}

/// Output of the command came: it is kept, and where it is a step that is reported.
pub open spec fn on_output(
    s: SessionView,
    data: Seq<char>,
    step: (Seq<char>, Option<Map<Seq<char>, Seq<char>>>),
    origin: OriginView,
) -> (SessionView, Option<EventView>) {
    (
        SessionView { command_buffer: s.command_buffer.push(data), ..s },
        if step.0.len() > 0 {
            Some(
                EventView {
                    name: Some(step.0),
                    detail: step.1,
                    should_end: Some(false),
                    ..command_event(STEP_EVENT@, s.command_string, s.command_id, origin)
                },
            )
        } else {
            None
        },
    )
}

/// What data makes of a session, and the event that is to be reported. A command mark goes before
/// an end mark, and other data is the command where that is still expected, output where a
/// command runs, and part of the prompt where none does.
pub open spec fn on_data(
    s: SessionView,
    data: Seq<char>,
    clock: Clock,
    origin: OriginView,
    filters: Seq<FilterView>,
) -> (SessionView, Option<EventView>) {
    if text::contains_text(data, osc::COMMAND_MARK@) {
        on_command_mark(s, osc::marked_command(data), clock, origin)
    } else if text::contains_text(data, osc::END_MARK@) {
        on_end_mark(s, osc::marked_exit_code(data), clock, origin)
    } else if s.expecting_command {
        on_echo(s, data, origin)
    } else {
        match s.state {
            SessionState::Idle => (s, None),
            SessionState::Prompt => (
                SessionView { prompt_buffer: s.prompt_buffer.push(data), ..s },
                None,
            ),
            SessionState::Command => if osc::is_output(data) {
                on_output(s, data, filter::step_in(filters, data), origin)
            } else {
                (s, None)
            },
        }
    }
}

/// Whether data ends a command: it holds an end mark and no command mark.
pub open spec fn ends_command(data: Seq<char>) -> bool {
    !text::contains_text(data, osc::COMMAND_MARK@) && text::contains_text(data, osc::END_MARK@)
}

/// Whether data begins a command: it holds a command mark.
pub fn begins_command(data: &str) -> (r: bool)
    ensures
        r == text::contains_text(data@, osc::COMMAND_MARK@),
{
    text::contains(data, osc::COMMAND_MARK)
}

impl TerminalSession {
    /// A process of which nothing was seen yet.
    pub fn new(pid: i32) -> (r: TerminalSession)
        ensures
            r@ == new_session(pid),
    {
        let r = TerminalSession {
            pid,
            state: SessionState::Idle,
            command_buffer: Vec::new(),
            prompt_buffer: Vec::new(),
            last_exit_code: 0,
            command_string: String::new(),
            current_input: String::new(),
            start_time: None,
            command_id: String::new(),
            expecting_command: false,
        };
        assert(r@ =~= new_session(pid));
        r
    }

    /// A command mark came, with the given command or, where that is empty, without one.
    pub fn command_mark(&mut self, command: String, clock: &Clock, origin: &Origin) -> (r: Option<
        EventPayload,
    >)
        ensures
            (final(self)@, r.deep_view()) == on_command_mark(
                old(self)@,
                command@,
                *clock,
                origin@,
            ),
            r matches Some(event) ==> event.wf(),
    {
        self.state = SessionState::Command;
        self.command_buffer.clear();
        self.start_time = Some(clock.nanos);
        self.command_id = format_command_id(clock.unix_secs, self.pid);
        self.expecting_command = command.as_str().is_empty();
        if self.expecting_command {
            None
        } else {
            self.command_string = command.clone();
            Some(new_event(START_EVENT, command, self.command_id.clone(), origin))
        }
    }

    /// An end mark came, with the given exit code.
    pub fn end_mark(&mut self, exit_code: i64, clock: &Clock, origin: &Origin) -> (r: EventPayload)
        ensures
            (final(self)@, Some(r@)) == on_end_mark(old(self)@, exit_code, *clock, origin@),
            r.wf(),
    {
        let duration = match self.start_time {
            Some(start) => if start <= clock.nanos {
                ((clock.nanos - start) / 1_000_000) as i64
            } else {
                0
            },
            None => UNKNOWN_DURATION,
        };
        let mut event = new_event(
            END_EVENT,
            self.command_string.clone(),
            self.command_id.clone(),
            origin,
        );
        event.exit_code = Some(exit_code);
        event.duration = Some(duration);
        self.state = SessionState::Prompt;
        self.last_exit_code = exit_code;
        self.command_buffer.clear();
        self.command_string = String::new();
        self.start_time = None;
        self.current_input = String::new();
        event
    }

    /// Data came while the command was still expected.
    pub fn echo(&mut self, data: &str, origin: &Origin) -> (r: Option<EventPayload>)
        ensures
            (final(self)@, r.deep_view()) == on_echo(old(self)@, data@, origin@),
            r matches Some(event) ==> event.wf(),
    {
        self.expecting_command = false;
        let line = data.trim();
        if !text::ends_with(line, osc::ERASE_TO_END) {
            return None;
        }
        let command = text::trim_end_matches(line, osc::ERASE_TO_END);
        if command.is_empty() {
            return None;
        }
        self.command_string = command.to_string();
        Some(new_event(START_EVENT, command.to_string(), self.command_id.clone(), origin))
    }

    /// Output of the command came, with the step that it is. The name of the step is empty where
    /// it is none.
    pub fn output(&mut self, data: &str, step: (String, Option<Detail>), origin: &Origin) -> (r:
        Option<EventPayload>)
        requires
            step.1 matches Some(detail) ==> detail.wf(),
        ensures
            (final(self)@, r.deep_view()) == on_output(
                old(self)@,
                data@,
                (step.0@, step.1.deep_view()),
                origin@,
            ),
            r matches Some(event) ==> event.wf(),
    {
        let (name, detail) = step;
        let event = if name.as_str().is_empty() {
            None
        } else {
            let mut event = new_event(
                STEP_EVENT,
                self.command_string.clone(),
                self.command_id.clone(),
                origin,
            );
            event.name = Some(name);
            event.detail = detail;
            event.should_end = Some(false);
            Some(event)
        };
        self.command_buffer.push(data.to_string());
        event
    }

    /// Data came: the session changes by it, and the event that it is, where it is one, is to be
    /// reported.
    pub fn handle_data(
        &mut self,
        data: &str,
        clock: &Clock,
        origin: &Origin,
        filters: &[RegexFilter],
    ) -> (r: Option<EventPayload>)
        ensures
            (final(self)@, r.deep_view()) == on_data(
                old(self)@,
                data@,
                *clock,
                origin@,
                filter::filter_views(filters@),
            ),
            ends_command(data@) ==> osc::is_exit_code_of(data@, final(self)@.last_exit_code),
            r matches Some(event) ==> event.wf(),
            r matches Some(event) ==> filter::values_stand_in(event@.detail, data@),
    {
        if begins_command(data) {
            self.command_mark(osc::extract_command_from_osc133b(data), clock, origin)
        } else if text::contains(data, osc::END_MARK) {
            Some(self.end_mark(osc::extract_exit_code(data), clock, origin))
        } else if self.expecting_command {
            self.echo(data, origin)
        } else {
            match self.state {
                SessionState::Idle => None,
                SessionState::Prompt => {
                    self.prompt_buffer.push(data.to_string());
                    None
                },
                SessionState::Command => if osc::is_real_output(data) {
                    self.output(data, filter::match_step_event(data, filters), origin)
                } else {
                    None
                },
            }
        }
    }
}

/// A process of which nothing was seen is idle and has nothing to report.
pub proof fn new_session_holds_nothing(pid: i32)
    ensures
        new_session(pid).pid == pid,
        new_session(pid).state == SessionState::Idle,
        new_session(pid).command_buffer.len() == 0,
        new_session(pid).prompt_buffer.len() == 0,
        new_session(pid).last_exit_code == 0,
        new_session(pid).command_string.len() == 0,
        new_session(pid).current_input.len() == 0,
        new_session(pid).start_time is None,
        new_session(pid).command_id.len() == 0,
        !new_session(pid).expecting_command,
{
}

/// Whether `id` is a second in `n` decimal digits and the number of a process in decimal notation,
/// with `N-` between them.
pub open spec fn names_second_and_process(id: Seq<char>, n: int, unix_secs: u64, pid: i32) -> bool {
    &&& 0 < n < id.len() - 2
    &&& number::all_digits(id.take(n))
    &&& n > 1 ==> id[0] != '0'
    &&& number::digits_value(id.take(n)) == unix_secs
    &&& id[n] == 'N' && id[n + 1] == '-'
    &&& number::parsed_integer(id.skip(n + 2)) == Some(pid as int)
    &&& id[n + 2] == '-' <==> pid < 0
    &&& id[n + 2] != '+'
    &&& pid != 0 ==> id[n + 2] != '0' && !(pid < 0 && id[n + 3] == '0')
    &&& pid == 0 ==> id.len() == n + 3
}

/// The identifier of a command is the second at which it was started and the number of its process,
/// both in decimal notation without zeros in front.
pub proof fn command_id_reads_back(unix_secs: u64, pid: i32)
    ensures
        exists|n: int| names_second_and_process(command_id(unix_secs, pid), n, unix_secs, pid),
{
    reveal_strlit("N-");
    let id = command_id(unix_secs, pid);
    let secs = number::decimal(unix_secs as nat);
    let process = number::signed_decimal(pid as int);
    let n = secs.len() as int;
    number::decimal_reads_back(unix_secs as nat);
    number::decimal_has_no_leading_zero(unix_secs as nat);
    number::signed_decimal_reads_back(pid as int);
    number::decimal_reads_back(
        (if pid < 0 {
            -pid
        } else {
            pid as int
        }) as nat,
    );
    assert(id.take(n) =~= secs);
    assert(id.skip(n + 2) =~= process);
    assert(id[n + 2] == process[0]);
    assert(pid < 0 ==> id[n + 3] == process[1]);
    assert(names_second_and_process(id, n, unix_secs, pid));
}

/// The duration of a command is the number of whole milliseconds between its start and its end; it
/// is 0 where the start is after the end, and 100 where the start is not known.
pub proof fn duration_is_the_time_between(start_time: Option<u64>, clock: Clock)
    ensures
        start_time matches Some(start) ==> start <= clock.nanos ==> {
            let d = duration(start_time, clock);
            d * 1_000_000 <= clock.nanos - start < (d + 1) * 1_000_000
        },
        start_time matches Some(start) ==> start > clock.nanos ==> duration(start_time, clock) == 0,
        start_time is None ==> duration(start_time, clock) == 100,
{
}

/// A command that the shell echoes is read back as it was typed, with any whitespace around the
/// line and however often the erase sequence stands behind it, where it does not itself begin with
/// whitespace or end with that sequence.
pub proof fn echoed_line_reads_back(a: Seq<char>, command: Seq<char>, n: nat, b: Seq<char>)
    requires
        text::is_blank(a),
        text::is_blank(b),
        command.len() > 0,
        !text::is_whitespace(command.first()),
        !text::occurs_at(
            command,
            osc::ERASE_TO_END@,
            command.len() - osc::ERASE_TO_END@.len(),
        ),
        n > 0,
    ensures
        echoed_command(a + (command + text::repeated(osc::ERASE_TO_END@, n)) + b) == command,
{
    reveal_strlit("\x1b[K");
    let erase = osc::ERASE_TO_END@;
    let line = command + text::repeated(erase, n);
    assert(line =~= command + text::repeated(erase, (n - 1) as nat) + erase);
    let k = line.len() - erase.len();
    assert(line.subrange(k, line.len() as int) =~= erase);
    assert(line.last() == erase.last());
    text::trimmed_between_blanks(a, line, b);
    text::suffixes_are_removed(command, erase, n);
}

/// Whitespace around an echoed line makes no difference. What is read from it is all that stands
/// before the erase sequences at its end, and nothing where there is none.
pub proof fn echoed_command_is_all_before_the_erasures(data: Seq<char>)
    ensures
        ({
            let line = text::trimmed(data);
            let erase = osc::ERASE_TO_END@;
            let command = echoed_command(data);
            &&& command == echoed_command(line)
            &&& !text::occurs_at(command, erase, command.len() - erase.len())
            &&& text::occurs_at(line, erase, line.len() - erase.len()) ==> exists|n: nat|
                n > 0 && line == command + #[trigger] text::repeated(erase, n)
            &&& !text::occurs_at(line, erase, line.len() - erase.len()) ==> command.len() == 0
        }),
{
    reveal_strlit("\x1b[K");
    let line = text::trimmed(data);
    let erase = osc::ERASE_TO_END@;
    let command = echoed_command(data);
    text::trimmed_twice(data);
    text::without_suffixes_is_a_prefix(line, erase);
    if text::occurs_at(line, erase, line.len() - erase.len()) {
        let n = choose|n: nat| line == command + #[trigger] text::repeated(erase, n);
        if n == 0 {
            assert(line =~= command);
        }
    }
}

/// Whether an event is of the given kind and command, reported for who uses the terminal and where,
/// and not yet told by which program.
pub open spec fn tells_of_command(
    event: EventView,
    kind: Seq<char>,
    command: Seq<char>,
    id: Seq<char>,
    origin: OriginView,
) -> bool {
    &&& event.event == kind
    &&& event.command == Some(command)
    &&& event.command_id == Some(id)
    &&& event.shell == Some(origin.shell)
    &&& event.username == Some(origin.username)
    &&& event.directory == Some(origin.directory)
    &&& event.source_name is None
    &&& event.source_version is None
}

/// Whether an event is the start of the given command, and tells nothing besides.
pub open spec fn tells_of_start(
    event: Option<EventView>,
    command: Seq<char>,
    id: Seq<char>,
    origin: OriginView,
) -> bool {
    &&& event matches Some(event)
    &&& tells_of_command(event, "start"@, command, id, origin)
    &&& event.exit_code is None
    &&& event.duration is None
    &&& event.name is None
    &&& event.detail is None
    &&& event.should_end is None
}

/// A command mark begins a command: its start is now, its identifier is new and its output is empty.
/// With a line, that is the command and is reported; without one, the command is expected, and
/// nothing is reported. All else stays.
pub proof fn command_mark_begins_a_command(
    s: SessionView,
    command: Seq<char>,
    clock: Clock,
    origin: OriginView,
)
    ensures
        ({
            let (t, event) = on_command_mark(s, command, clock, origin);
            &&& t.pid == s.pid
            &&& t.state == SessionState::Command
            &&& t.command_buffer.len() == 0
            &&& t.prompt_buffer == s.prompt_buffer
            &&& t.last_exit_code == s.last_exit_code
            &&& t.current_input == s.current_input
            &&& t.start_time == Some(clock.nanos)
            &&& t.command_id == command_id(clock.unix_secs, s.pid)
            &&& command.len() > 0 ==> {
                &&& t.command_string == command
                &&& !t.expecting_command
                &&& tells_of_start(event, command, t.command_id, origin)
            }
            &&& command.len() == 0 ==> {
                &&& t.command_string == s.command_string
                &&& t.expecting_command
                &&& event is None
            }
        }),
{
}

/// An end mark ends the command: it is reported with the exit code of the mark and its duration, and
/// nothing of it is left but its identifier. All else stays.
pub proof fn end_mark_ends_the_command(
    s: SessionView,
    exit_code: i64,
    clock: Clock,
    origin: OriginView,
)
    ensures
        ({
            let (t, event) = on_end_mark(s, exit_code, clock, origin);
            &&& t.pid == s.pid
            &&& t.state == SessionState::Prompt
            &&& t.command_buffer.len() == 0
            &&& t.prompt_buffer == s.prompt_buffer
            &&& t.last_exit_code == exit_code
            &&& t.command_string.len() == 0
            &&& t.current_input.len() == 0
            &&& t.start_time is None
            &&& t.command_id == s.command_id
            &&& t.expecting_command == s.expecting_command
            &&& event matches Some(event)
            &&& tells_of_command(event, "end"@, s.command_string, s.command_id, origin)
            &&& event.exit_code == Some(exit_code)
            &&& event.name is None
            &&& event.detail is None
            &&& event.should_end is None
            &&& event.duration matches Some(d)
            &&& s.start_time matches Some(start) ==> {
                &&& start <= clock.nanos ==> d * 1_000_000 <= clock.nanos - start < (d + 1)
                    * 1_000_000
                &&& start > clock.nanos ==> d == 0
            }
            &&& s.start_time is None ==> d == 100
        }),
{
    duration_is_the_time_between(s.start_time, clock);
}

/// The line after a bare command mark is the command, and is reported with the identifier that the
/// mark gave; where none is read from it nothing is reported. Either way none is expected any more,
/// and all else stays.
pub proof fn echo_gives_the_command(s: SessionView, data: Seq<char>, origin: OriginView)
    ensures
        ({
            let (t, event) = on_echo(s, data, origin);
            let command = echoed_command(data);
            &&& t.pid == s.pid
            &&& t.state == s.state
            &&& t.command_buffer == s.command_buffer
            &&& t.prompt_buffer == s.prompt_buffer
            &&& t.last_exit_code == s.last_exit_code
            &&& t.current_input == s.current_input
            &&& t.start_time == s.start_time
            &&& t.command_id == s.command_id
            &&& !t.expecting_command
            &&& command.len() > 0 ==> {
                &&& t.command_string == command
                &&& tells_of_start(event, command, s.command_id, origin)
            }
            &&& command.len() == 0 ==> t.command_string == s.command_string && event is None
        }),
{
}

/// Output is kept behind what the command wrote before, as it came, and where it is a step that is
/// reported of the command, with its name and its detail. All else stays.
pub proof fn output_is_kept(
    s: SessionView,
    data: Seq<char>,
    step: (Seq<char>, Option<Map<Seq<char>, Seq<char>>>),
    origin: OriginView,
)
    ensures
        ({
            let (t, event) = on_output(s, data, step, origin);
            &&& t.pid == s.pid
            &&& t.state == s.state
            &&& t.command_buffer.len() == s.command_buffer.len() + 1
            &&& t.command_buffer.drop_last() == s.command_buffer
            &&& t.command_buffer.last() == data
            &&& t.prompt_buffer == s.prompt_buffer
            &&& t.last_exit_code == s.last_exit_code
            &&& t.command_string == s.command_string
            &&& t.current_input == s.current_input
            &&& t.start_time == s.start_time
            &&& t.command_id == s.command_id
            &&& t.expecting_command == s.expecting_command
            &&& event is Some <==> step.0.len() > 0
            &&& event matches Some(event) ==> {
                &&& tells_of_command(event, "step"@, s.command_string, s.command_id, origin)
                &&& event.name == Some(step.0)
                &&& event.detail == step.1
                &&& event.should_end == Some(false)
                &&& event.exit_code is None
                &&& event.duration is None
            }
        }),
{
    let (t, _) = on_output(s, data, step, origin);
    assert(t.command_buffer.drop_last() =~= s.command_buffer);
}

/// Data is what its marks make it: with a command mark it begins the command that stands behind
/// that, and otherwise with an end mark it ends one with the exit code that stands in that.
pub proof fn marked_data(
    s: SessionView,
    data: Seq<char>,
    clock: Clock,
    origin: OriginView,
    filters: Seq<FilterView>,
)
    ensures
        text::contains_text(data, osc::COMMAND_MARK@) ==> on_data(s, data, clock, origin, filters)
            == on_command_mark(s, osc::marked_command(data), clock, origin),
        !text::contains_text(data, osc::COMMAND_MARK@) && text::contains_text(data, osc::END_MARK@)
            ==> on_data(s, data, clock, origin, filters) == on_end_mark(
            s,
            osc::marked_exit_code(data),
            clock,
            origin,
        ),
        ends_command(data) <==> !text::contains_text(data, osc::COMMAND_MARK@)
            && text::contains_text(data, osc::END_MARK@),
{
}

/// Data without a mark is the command where one is expected. Where none is, it is passed over while
/// nothing was seen of the process; at a prompt it is kept behind what was written there before, as
/// it came; and while a command runs it is output, or passed over where it is none.
pub proof fn unmarked_data(
    s: SessionView,
    data: Seq<char>,
    clock: Clock,
    origin: OriginView,
    filters: Seq<FilterView>,
)
    requires
        !text::contains_text(data, osc::COMMAND_MARK@),
        !text::contains_text(data, osc::END_MARK@),
    ensures
        ({
            let (t, event) = on_data(s, data, clock, origin, filters);
            &&& s.expecting_command ==> (t, event) == on_echo(s, data, origin)
            &&& !s.expecting_command && s.state == SessionState::Command && osc::is_output(data)
                ==> (t, event) == on_output(s, data, filter::step_in(filters, data), origin)
            &&& !s.expecting_command && s.state == SessionState::Command && !osc::is_output(data)
                ==> t == s && event is None
            &&& !s.expecting_command && s.state == SessionState::Idle ==> t == s && event is None
            &&& !s.expecting_command && s.state == SessionState::Prompt ==> {
                &&& event is None
                &&& t.pid == s.pid
                &&& t.state == s.state
                &&& t.command_buffer == s.command_buffer
                &&& t.prompt_buffer.len() == s.prompt_buffer.len() + 1
                &&& t.prompt_buffer.drop_last() == s.prompt_buffer
                &&& t.prompt_buffer.last() == data
                &&& t.last_exit_code == s.last_exit_code
                &&& t.command_string == s.command_string
                &&& t.current_input == s.current_input
                &&& t.start_time == s.start_time
                &&& t.command_id == s.command_id
                &&& t.expecting_command == s.expecting_command
            }
        }),
{
    let (t, _) = on_data(s, data, clock, origin, filters);
    if !s.expecting_command && s.state == SessionState::Prompt {
        assert(t.prompt_buffer.drop_last() =~= s.prompt_buffer);
    }
}

/// The view of a session shows each of its parts.
pub proof fn session_is_seen_whole(session: TerminalSession, origin: Origin)
    ensures
        session@.pid == session.pid,
        session@.state == session.state,
        session@.command_buffer == session.command_buffer.deep_view(),
        session@.prompt_buffer == session.prompt_buffer.deep_view(),
        session@.last_exit_code == session.last_exit_code,
        session@.command_string == session.command_string@,
        session@.current_input == session.current_input@,
        session@.start_time == session.start_time,
        session@.command_id == session.command_id@,
        session@.expecting_command == session.expecting_command,
        origin@.username == origin.username@,
        origin@.directory == origin.directory@,
        origin@.shell == origin.shell@,
{
}

} // verus!
