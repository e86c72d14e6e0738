//! What holds of a terminal over the whole course of its recording.

use vstd::prelude::*;

use crate::connection;
use crate::connection::ConnectionView;
use crate::event;
use crate::event::{EventView, END_EVENT, START_EVENT, STEP_EVENT};
use crate::filter::FilterView;
use crate::number;
use crate::osc;
use crate::recording;
use crate::session;
use crate::session::{Clock, OriginView, SessionState, SessionView};
use crate::terminals::HeaderView;
use crate::text;

verus! {

/// Data of a process, with what it is handled with.
pub struct Input {
    pub data: Seq<char>,
    pub clock: Clock,
    pub origin: OriginView,
    pub filters: Seq<FilterView>,
}

/// What one input makes of a session, and the event that is to be reported.
pub open spec fn handle(s: SessionView, input: Input) -> (SessionView, Option<EventView>) {
    session::on_data(s, input.data, input.clock, input.origin, input.filters)
}

/// What a series of inputs makes of a session.
pub open spec fn run(s: SessionView, inputs: Seq<Input>) -> SessionView
    decreases inputs.len(),
{
    if inputs.len() == 0 {
        s
    } else {
        handle(run(s, inputs.drop_last()), inputs.last()).0
    }
}

/// Whether data holds neither a command mark nor an end mark.
pub open spec fn is_plain(data: Seq<char>) -> bool {
    !text::contains_text(data, osc::COMMAND_MARK@) && !text::contains_text(data, osc::END_MARK@)
}

/// Whether all the inputs hold neither a command mark nor an end mark.
pub open spec fn all_plain(inputs: Seq<Input>) -> bool {
    forall|i: int| 0 <= i < inputs.len() ==> is_plain((#[trigger] inputs[i]).data)
}

/// Those of the inputs that are output of a command, in their order.
pub open spec fn outputs(inputs: Seq<Input>) -> Seq<Seq<char>>
    decreases inputs.len(),
{
    if inputs.len() == 0 {
        Seq::empty()
    } else {
        let rest = outputs(inputs.drop_last());
        if osc::is_output(inputs.last().data) {
            rest.push(inputs.last().data)
        } else {
            rest
        }
    }
}

/// A session stays that of its process, whatever comes.
pub proof fn process_never_changes(s: SessionView, inputs: Seq<Input>)
    ensures
        run(s, inputs).pid == s.pid,
    decreases inputs.len(),
{
    if inputs.len() > 0 {
        process_never_changes(s, inputs.drop_last());
    }
}

/// Until its end mark, a command stays the one that was started: what comes without a mark only
/// adds to its output, and every output is kept, in order.
pub proof fn command_runs_on(s: SessionView, inputs: Seq<Input>)
    requires
        s.state == SessionState::Command,
        !s.expecting_command,
        all_plain(inputs),
    ensures
        run(s, inputs) == (SessionView {
            command_buffer: s.command_buffer + outputs(inputs),
            ..s
        }),
    decreases inputs.len(),
{
    if inputs.len() == 0 {
        assert(s.command_buffer + outputs(inputs) =~= s.command_buffer);
    } else {
        let before = inputs.drop_last();
        assert forall|i: int| 0 <= i < before.len() implies is_plain(
            (#[trigger] before[i]).data,
        ) by {
            assert(before[i] == inputs[i]);
        }
        command_runs_on(s, before);
        assert(is_plain(inputs.last().data));
        if osc::is_output(inputs.last().data) {
            assert(s.command_buffer + outputs(before).push(inputs.last().data) =~= (
            s.command_buffer + outputs(before)).push(inputs.last().data));
        }
        assert(run(s, inputs) =~= SessionView {
            command_buffer: s.command_buffer + outputs(inputs),
            ..s
        });
    }
}

/// A command is reported from its start to its end: where its line comes with the command mark,
/// and its end mark comes after any data without marks, both events carry the same command and
/// the same identifier, and the second one the exit code and the time between the two marks.
pub proof fn start_and_end_belong_together(
    s: SessionView,
    start: Input,
    between: Seq<Input>,
    end: Input,
)
    requires
        text::contains_text(start.data, osc::COMMAND_MARK@),
        osc::marked_command(start.data).len() > 0,
        all_plain(between),
        session::ends_command(end.data),
    ensures
        ({
            let command = osc::marked_command(start.data);
            let id = session::command_id(start.clock.unix_secs, s.pid);
            let (begun, start_event) = handle(s, start);
            let (ended, end_event) = handle(run(begun, between), end);
            &&& start_event == Some(
                session::command_event(START_EVENT@, command, id, start.origin),
            )
            &&& end_event == Some(
                EventView {
                    exit_code: Some(osc::marked_exit_code(end.data)),
                    duration: Some(session::duration(Some(start.clock.nanos), end.clock)),
                    ..session::command_event(END_EVENT@, command, id, end.origin)
                },
            )
            &&& ended.state == SessionState::Prompt
            &&& ended.last_exit_code == osc::marked_exit_code(end.data)
            &&& ended.command_string.len() == 0
            &&& ended.command_buffer.len() == 0
        }),
{
    let (begun, _) = handle(s, start);
    command_runs_on(begun, between);
}

/// A command whose line comes only after the command mark is reported with the identifier and
/// the start time of the mark.
pub proof fn command_on_the_next_line(s: SessionView, mark: Input, line: Input)
    requires
        text::contains_text(mark.data, osc::COMMAND_MARK@),
        osc::marked_command(mark.data).len() == 0,
        is_plain(line.data),
        session::echoed_command(line.data).len() > 0,
    ensures
        handle(s, mark).1 is None,
        ({
            let command = session::echoed_command(line.data);
            let id = session::command_id(mark.clock.unix_secs, s.pid);
            let (begun, event) = handle(handle(s, mark).0, line);
            &&& event == Some(session::command_event(START_EVENT@, command, id, line.origin))
            &&& begun.state == SessionState::Command
            &&& !begun.expecting_command
            &&& begun.command_string == command
            &&& begun.command_id == id
            &&& begun.start_time == Some(mark.clock.nanos)
        }),
{
}

/// A command that the shell echoes behind the mark is read back as it was typed, without the
/// erase sequence behind it, where it begins with no whitespace and does not end with that
/// sequence itself.
pub proof fn echoed_command_reads_back(command: Seq<char>)
    requires
        command.len() > 0,
        !text::is_whitespace(command.first()),
        !text::occurs_at(
            command,
            osc::ERASE_TO_END@,
            command.len() - osc::ERASE_TO_END@.len(),
        ),
    ensures
        session::echoed_command(command + osc::ERASE_TO_END@) == command,
{
    reveal_strlit("\x1b[K");
    let erase = osc::ERASE_TO_END@;
    let s = command + erase;
    let n = command.len() as int;
    assert(s.last() == 'K');
    text::trimmed_without_whitespace_at_ends(s);
    assert(s.subrange(n, n + erase.len()) =~= erase);
    assert(s.take(n) =~= command);
    assert(text::without_suffixes(command, erase) == command);
}

/// Once a command has ended, nothing more is sent of it: until the next command mark, end marks
/// only give events without a command, which are not sent, and other data gives none.
pub proof fn ended_command_is_over(s: SessionView, end: Input, inputs: Seq<Input>, next: Input)
    requires
        !s.expecting_command,
        session::ends_command(end.data),
        forall|i: int|
            0 <= i < inputs.len() ==> !text::contains_text(
                (#[trigger] inputs[i]).data,
                osc::COMMAND_MARK@,
            ),
        !text::contains_text(next.data, osc::COMMAND_MARK@),
    ensures
        handle(run(handle(s, end).0, inputs), next).1 matches Some(event)
            ==> !event::has_command(event),
{
    prompt_stays(handle(s, end).0, inputs);
}

proof fn prompt_stays(s: SessionView, inputs: Seq<Input>)
    requires
        s.state == SessionState::Prompt,
        !s.expecting_command,
        s.command_string.len() == 0,
        forall|i: int|
            0 <= i < inputs.len() ==> !text::contains_text(
                (#[trigger] inputs[i]).data,
                osc::COMMAND_MARK@,
            ),
    ensures
        run(s, inputs).state == SessionState::Prompt,
        !run(s, inputs).expecting_command,
        run(s, inputs).command_string.len() == 0,
    decreases inputs.len(),
{
    if inputs.len() > 0 {
        let before = inputs.drop_last();
        assert forall|i: int| 0 <= i < before.len() implies !text::contains_text(
            (#[trigger] before[i]).data,
            osc::COMMAND_MARK@,
        ) by {
            assert(before[i] == inputs[i]);
        }
        prompt_stays(s, before);
        assert(!text::contains_text(inputs.last().data, osc::COMMAND_MARK@));
    }
}

/// Whether an event is sent, and tells where a command starts or ends.
pub open spec fn is_sent_boundary(event: EventView) -> bool {
    event::has_command(event) && (event.event == START_EVENT@ || event.event == END_EVENT@)
}

/// The last start or end that a series of inputs sends, where it sends any.
pub open spec fn last_boundary(s: SessionView, inputs: Seq<Input>) -> Option<EventView>
    decreases inputs.len(),
{
    if inputs.len() == 0 {
        None
    } else {
        let before = inputs.drop_last();
        match handle(run(s, before), inputs.last()).1 {
            Some(event) if is_sent_boundary(event) => Some(event),
            _ => last_boundary(s, before),
        }
    }
}

/// Every end that is sent belongs to a start: of all the starts and ends that are sent of the
/// process, the one right before it is the start of the same command.
pub proof fn end_follows_its_start(pid: i32, inputs: Seq<Input>, end: Input)
    ensures
        handle(run(session::new_session(pid), inputs), end).1 matches Some(event) ==> (
        event.event == END_EVENT@ && event::has_command(event) ==> {
            &&& last_boundary(session::new_session(pid), inputs) matches Some(start)
            &&& start.event == START_EVENT@
            &&& start.command == event.command
        }),
{
    reveal_strlit("start");
    reveal_strlit("end");
    reveal_strlit("step");
    assert("start"@.len() != "end"@.len());
    assert("step"@.len() != "end"@.len());
    current_command_was_started(pid, inputs);
}

proof fn current_command_was_started(pid: i32, inputs: Seq<Input>)
    ensures
        ({
            let s = run(session::new_session(pid), inputs);
            s.command_string.len() > 0 ==> {
                &&& last_boundary(session::new_session(pid), inputs) matches Some(start)
                &&& start.event == START_EVENT@
                &&& start.command == Some(s.command_string)
            }
        }),
    decreases inputs.len(),
{
    if inputs.len() > 0 {
        reveal_strlit("start");
        reveal_strlit("end");
        reveal_strlit("step");
        assert("start"@.len() != "step"@.len());
        assert("step"@.len() != "end"@.len());
        current_command_was_started(pid, inputs.drop_last());
    }
}

/// Of a process that has shown no mark, nothing is reported and nothing is kept.
pub proof fn nothing_before_the_first_mark(pid: i32, inputs: Seq<Input>, next: Input)
    requires
        all_plain(inputs),
        is_plain(next.data),
    ensures
        run(session::new_session(pid), inputs) == session::new_session(pid),
        handle(session::new_session(pid), next).1 is None,
    decreases inputs.len(),
{
    if inputs.len() > 0 {
        let before = inputs.drop_last();
        assert forall|i: int| 0 <= i < before.len() implies is_plain(
            (#[trigger] before[i]).data,
        ) by {
            assert(before[i] == inputs[i]);
        }
        nothing_before_the_first_mark(pid, before, next);
        assert(is_plain(inputs.last().data));
    }
}

/// Two commands with the same identifier were started by the same process in the same second.
pub proof fn command_ids_differ(secs1: u64, pid1: i32, secs2: u64, pid2: i32)
    requires
        session::command_id(secs1, pid1) == session::command_id(secs2, pid2),
    ensures
        secs1 == secs2,
        pid1 == pid2,
{
    reveal_strlit("N-");
    let a = number::decimal(secs1 as nat);
    let b = number::decimal(secs2 as nat);
    let x = session::command_id(secs1, pid1);
    let separator = session::ID_SEPARATOR@;
    number::decimal_reads_back(secs1 as nat);
    number::decimal_reads_back(secs2 as nat);
    assert(x[a.len() as int] == 'N');
    assert(x[b.len() as int] == 'N');
    if a.len() < b.len() {
        assert(x[a.len() as int] == b[a.len() as int]);
        assert(number::is_digit(b[a.len() as int]));
    } else if b.len() < a.len() {
        assert(x[b.len() as int] == a[b.len() as int]);
        assert(number::is_digit(a[b.len() as int]));
    }
    assert(x.take(a.len() as int) =~= a);
    assert(x.take(b.len() as int) =~= b);
    assert(x.skip((a.len() + separator.len()) as int) =~= number::signed_decimal(pid1 as int));
    assert(x.skip((b.len() + separator.len()) as int) =~= number::signed_decimal(pid2 as int));
    number::signed_decimal_is_injective(pid1 as int, pid2 as int);
}

/// A line of a recording, with what it is handled with. What it says as a header, where it is one,
/// is in `header`.
pub struct LineInput {
    pub line: Seq<char>,
    pub header: Option<HeaderView>,
    pub clock: Clock,
    pub filters: Seq<FilterView>,
}

/// Whether a line is a header.
pub open spec fn is_header(input: LineInput) -> bool {
    recording::object_like(input.line) && input.header is Some
}

/// What one line makes of a terminal, and the event that is to be reported.
pub open spec fn handle_line(c: ConnectionView, input: LineInput) -> (
    ConnectionView,
    Option<EventView>,
) {
    connection::on_line(c, input.line, input.header, input.clock, input.filters)
}

/// What a series of lines makes of a terminal.
pub open spec fn run_lines(c: ConnectionView, inputs: Seq<LineInput>) -> ConnectionView
    decreases inputs.len(),
{
    if inputs.len() == 0 {
        c
    } else {
        handle_line(run_lines(c, inputs.drop_last()), inputs.last()).0
    }
}

/// The data of process `pid` that a line is, where it is any.
pub open spec fn data_of(input: LineInput, pid: i32) -> Option<Seq<char>> {
    match recording::line_view(input.line) {
        recording::LineView::Data { pid: writer, data } if writer == pid => Some(data),
        _ => None,
    }
}

/// The data of process `pid` in a series of lines, in their order, each with who used the terminal
/// and where when it came.
pub open spec fn inputs_of(c: ConnectionView, lines: Seq<LineInput>, pid: i32) -> Seq<Input>
    decreases lines.len(),
{
    if lines.len() == 0 {
        Seq::empty()
    } else {
        let before = lines.drop_last();
        let last = lines.last();
        let rest = inputs_of(c, before, pid);
        match data_of(last, pid) {
            Some(data) => rest.push(
                Input {
                    data,
                    clock: last.clock,
                    origin: connection::moved(run_lines(c, before).origin, data),
                    filters: last.filters,
                },
            ),
            None => rest,
        }
    }
}

/// The events that a series of inputs gives, in their order.
pub open spec fn events(s: SessionView, inputs: Seq<Input>) -> Seq<EventView>
    decreases inputs.len(),
{
    if inputs.len() == 0 {
        Seq::empty()
    } else {
        let before = inputs.drop_last();
        match handle(run(s, before), inputs.last()).1 {
            Some(event) => events(s, before).push(event),
            None => events(s, before),
        }
    }
}

/// The events of process `pid` that a series of lines gives, in their order.
pub open spec fn events_of(c: ConnectionView, lines: Seq<LineInput>, pid: i32) -> Seq<EventView>
    decreases lines.len(),
{
    if lines.len() == 0 {
        Seq::empty()
    } else {
        let before = lines.drop_last();
        match handle_line(run_lines(c, before), lines.last()).1 {
            Some(event) if data_of(lines.last(), pid) is Some => events_of(c, before, pid).push(
                event,
            ),
            _ => events_of(c, before, pid),
        }
    }
}

/// The last start or end of process `pid` that a series of lines sends, where it sends any.
pub open spec fn last_boundary_of(c: ConnectionView, lines: Seq<LineInput>, pid: i32) -> Option<
    EventView,
>
    decreases lines.len(),
{
    if lines.len() == 0 {
        None
    } else {
        let before = lines.drop_last();
        match handle_line(run_lines(c, before), lines.last()).1 {
            Some(event) if data_of(lines.last(), pid) is Some && is_sent_boundary(event) => Some(
                event,
            ),
            _ => last_boundary_of(c, before, pid),
        }
    }
}

/// However the lines of a recording are interleaved, and wherever its header comes, the session of
/// each process is what its own data makes of it, and its events are those that its own data gives,
/// reported for who uses the terminal and where at that moment.
pub proof fn processes_do_not_interfere(c: ConnectionView, lines: Seq<LineInput>, pid: i32)
    ensures
        run_lines(c, lines).session(pid) == run(c.session(pid), inputs_of(c, lines, pid)),
        events_of(c, lines, pid) == events(c.session(pid), inputs_of(c, lines, pid)),
        last_boundary_of(c, lines, pid) == last_boundary(
            c.session(pid),
            inputs_of(c, lines, pid),
        ),
    decreases lines.len(),
{
    if lines.len() > 0 {
        let before = lines.drop_last();
        processes_do_not_interfere(c, before, pid);
        header_is_no_event(lines.last().line);
        if data_of(lines.last(), pid) is Some {
            assert(inputs_of(c, lines, pid).drop_last() =~= inputs_of(c, before, pid));
        }
    }
}

/// Those of the lines that are headers or data of process `pid`, in their order.
pub open spec fn lines_of(lines: Seq<LineInput>, pid: i32) -> Seq<LineInput>
    decreases lines.len(),
{
    if lines.len() == 0 {
        Seq::empty()
    } else {
        let rest = lines_of(lines.drop_last(), pid);
        if is_header(lines.last()) || data_of(lines.last(), pid) is Some {
            rest.push(lines.last())
        } else {
            rest
        }
    }
}

/// Whether a line is data of another process than `pid` and announces a directory.
pub open spec fn is_move_of_another(input: LineInput, pid: i32) -> bool {
    match recording::line_view(input.line) {
        recording::LineView::Data { pid: writer, data } => writer != pid && osc::announced_dir(data)
            is Some,
        _ => false,
    }
}

/// The lines of the other processes make no difference to a process: with the header and its own
/// lines alone its session is the same and, where no other process announces a directory, so are
/// its events.
pub proof fn other_processes_make_no_difference(c: ConnectionView, lines: Seq<LineInput>, pid: i32)
    ensures
        run_lines(c, lines).session(pid) == run_lines(c, lines_of(lines, pid)).session(pid),
        (forall|i: int| 0 <= i < lines.len() ==> !is_move_of_another(#[trigger] lines[i], pid))
            ==> events_of(c, lines, pid) == events_of(c, lines_of(lines, pid), pid),
{
    session_without_others(c, lines, pid);
    if forall|i: int| 0 <= i < lines.len() ==> !is_move_of_another(#[trigger] lines[i], pid) {
        events_without_others(c, lines, pid);
    }
}

proof fn session_without_others(c: ConnectionView, lines: Seq<LineInput>, pid: i32)
    ensures
        ({
            let all = run_lines(c, lines);
            let own = run_lines(c, lines_of(lines, pid));
            &&& all.session(pid) == own.session(pid)
            &&& all.header_parsed == own.header_parsed
        }),
    decreases lines.len(),
{
    if lines.len() > 0 {
        let before = lines.drop_last();
        let last = lines.last();
        session_without_others(c, before, pid);
        header_is_no_event(last.line);
        if is_header(last) || data_of(last, pid) is Some {
            assert(lines_of(lines, pid).drop_last() =~= lines_of(before, pid));
        }
    }
}

proof fn events_without_others(c: ConnectionView, lines: Seq<LineInput>, pid: i32)
    requires
        forall|i: int| 0 <= i < lines.len() ==> !is_move_of_another(#[trigger] lines[i], pid),
    ensures
        run_lines(c, lines).origin == run_lines(c, lines_of(lines, pid)).origin,
        events_of(c, lines, pid) == events_of(c, lines_of(lines, pid), pid),
    decreases lines.len(),
{
    if lines.len() > 0 {
        let before = lines.drop_last();
        let last = lines.last();
        assert forall|i: int| 0 <= i < before.len() implies !is_move_of_another(
            #[trigger] before[i],
            pid,
        ) by {
            assert(before[i] == lines[i]);
        }
        events_without_others(c, before, pid);
        session_without_others(c, before, pid);
        header_is_no_event(last.line);
        assert(!is_move_of_another(lines[lines.len() - 1], pid));
        if is_header(last) || data_of(last, pid) is Some {
            assert(lines_of(lines, pid).drop_last() =~= lines_of(before, pid));
        }
    }
}

/// Every end that is sent over a connection belongs to a start: whatever other lines come between,
/// of all the starts and ends that are sent of the same process, the one right before it is the
/// start of the same command.
pub proof fn every_end_follows_its_start(
    id: Seq<char>,
    lines: Seq<LineInput>,
    end: LineInput,
    pid: i32,
)
    requires
        data_of(end, pid) is Some,
    ensures
        ({
            let c = connection::new_connection(id);
            handle_line(run_lines(c, lines), end).1 matches Some(event) ==> (event.event
                == END_EVENT@ && event::has_command(event) ==> {
                &&& last_boundary_of(c, lines, pid) matches Some(start)
                &&& start.event == START_EVENT@
                &&& start.command == event.command
            })
        }),
{
    let c = connection::new_connection(id);
    let data = data_of(end, pid)->0;
    let own_end = Input {
        data,
        clock: end.clock,
        origin: connection::moved(run_lines(c, lines).origin, data),
        filters: end.filters,
    };
    processes_do_not_interfere(c, lines, pid);
    header_is_no_event(end.line);
    end_follows_its_start(pid, inputs_of(c, lines, pid), own_end);
}

/// The directory that a line says the terminal is in, where it says any: that of the header, where
/// the line is taken as it, or the one that data announces.
pub open spec fn directory_in(c: ConnectionView, input: LineInput) -> Option<Seq<char>> {
    if connection::may_be_header(c, input.line) {
        match input.header {
            Some(header) => Some(connection::or_empty(header.directory)),
            None => None,
        }
    } else {
        match recording::line_view(input.line) {
            recording::LineView::Data { data, .. } => osc::announced_dir(data),
            _ => None,
        }
    }
}

/// The directory that the latest line that says any says the terminal is in, or the one that it was
/// in before.
pub open spec fn latest_directory(c: ConnectionView, lines: Seq<LineInput>) -> Seq<char>
    decreases lines.len(),
{
    if lines.len() == 0 {
        c.origin.directory
    } else {
        let before = lines.drop_last();
        match directory_in(run_lines(c, before), lines.last()) {
            Some(directory) => directory,
            None => latest_directory(c, before),
        }
    }
}

/// Every event, of whichever process, carries the directory that was said last, by its own line or
/// before it: that of the latest announcement, or that of the header where it came later.
pub proof fn latest_directory_holds(c: ConnectionView, lines: Seq<LineInput>, next: LineInput)
    ensures
        handle_line(run_lines(c, lines), next).1 matches Some(event) ==> event.directory == Some(
            latest_directory(c, lines.push(next)),
        ),
{
    let all = lines.push(next);
    assert(all.drop_last() =~= lines);
    directory_is_the_latest(c, all);
    assert(run_lines(c, all) == handle_line(run_lines(c, lines), next).0);
}

proof fn directory_is_the_latest(c: ConnectionView, lines: Seq<LineInput>)
    ensures
        run_lines(c, lines).origin.directory == latest_directory(c, lines),
    decreases lines.len(),
{
    if lines.len() > 0 {
        directory_is_the_latest(c, lines.drop_last());
    }
}

/// A line that is neither a header nor data of a process changes nothing, and nothing is reported
/// of it.
pub proof fn other_lines_change_nothing(c: ConnectionView, input: LineInput)
    requires
        !is_header(input),
        !(recording::line_view(input.line) is Data),
    ensures
        handle_line(c, input) == (c, None::<EventView>),
{
}

/// Before the header, nobody is known to use any shell: every event carries an empty name and an
/// empty shell.
pub proof fn nobody_before_the_header(id: Seq<char>, before: Seq<LineInput>, next: LineInput)
    requires
        forall|i: int| 0 <= i < before.len() ==> !is_header(#[trigger] before[i]),
    ensures
        handle_line(run_lines(connection::new_connection(id), before), next).1 matches Some(event)
            ==> event.username == Some(Seq::<char>::empty()) && event.shell == Some(
            Seq::<char>::empty(),
        ),
{
    header_stays(connection::new_connection(id), before);
}

/// The header holds from the moment it came: nothing is reported of it, and whatever lines follow,
/// every event carries its user and its shell.
pub proof fn header_holds(
    id: Seq<char>,
    before: Seq<LineInput>,
    header: LineInput,
    after: Seq<LineInput>,
    next: LineInput,
)
    requires
        forall|i: int| 0 <= i < before.len() ==> !is_header(#[trigger] before[i]),
        is_header(header),
    ensures
        ({
            let said = header.header->0;
            let c = run_lines(connection::new_connection(id), before);
            let (taken, event) = handle_line(c, header);
            let (_, later_event) = handle_line(run_lines(taken, after), next);
            &&& taken == connection::with_header(c, said)
            &&& event is None
            &&& later_event matches Some(event) ==> {
                &&& event.username == Some(connection::or_empty(said.username))
                &&& event.shell == Some(connection::or_empty(said.shell))
            }
        }),
{
    let c = run_lines(connection::new_connection(id), before);
    header_stays(connection::new_connection(id), before);
    header_stays(handle_line(c, header).0, after);
}

/// The header is taken once: after it no line is parsed as a header, whatever lines come between,
/// and a line that would be one changes nothing, and nothing is reported of it.
pub proof fn header_is_taken_once(
    c: ConnectionView,
    header: HeaderView,
    inputs: Seq<LineInput>,
    next: LineInput,
)
    ensures
        ({
            let later = run_lines(connection::with_header(c, header), inputs);
            &&& later.header_parsed
            &&& !connection::may_be_header(later, next.line)
            &&& is_header(next) ==> handle_line(later, next) == (later, None::<EventView>)
        }),
{
    header_stays(connection::with_header(c, header), inputs);
}

proof fn header_stays(c: ConnectionView, inputs: Seq<LineInput>)
    requires
        c.header_parsed || forall|i: int|
            0 <= i < inputs.len() ==> !is_header(#[trigger] inputs[i]),
    ensures
        run_lines(c, inputs).header_parsed == c.header_parsed,
        run_lines(c, inputs).origin.username == c.origin.username,
        run_lines(c, inputs).origin.shell == c.origin.shell,
    decreases inputs.len(),
{
    if inputs.len() > 0 {
        let before = inputs.drop_last();
        assert forall|i: int| !c.header_parsed && 0 <= i < before.len() implies !is_header(
            #[trigger] before[i],
        ) by {
            assert(before[i] == inputs[i]);
        }
        header_stays(c, before);
        assert(c.header_parsed || !is_header(inputs[inputs.len() - 1]));
    }
}

/// A connection stays itself: no line changes its identifier, nor puts a session under the number
/// of another process.
pub proof fn connection_stays_itself(id: Seq<char>, inputs: Seq<LineInput>)
    ensures
        run_lines(connection::new_connection(id), inputs).id == id,
        run_lines(connection::new_connection(id), inputs).wf(),
    decreases inputs.len(),
{
    if inputs.len() > 0 {
        connection_stays_itself(id, inputs.drop_last());
    }
}

/// No line is taken for both a header and an event.
pub proof fn header_is_no_event(line: Seq<char>)
    ensures
        recording::object_like(line) ==> recording::line_view(line)
            == recording::LineView::Unknown,
{
}

/// The kinds of events tell themselves apart by their parts: a start carries a command, an end an
/// exit code and a duration, and a step a name.
pub proof fn events_by_kind(s: SessionView, input: Input)
    ensures
        handle(s, input).1 matches Some(event) ==> {
            ||| event.event == START_EVENT@ && event::has_command(event)
            ||| event.event == END_EVENT@ && event.exit_code is Some && event.duration is Some
            ||| event.event == STEP_EVENT@ && event.name is Some && event.should_end == Some(false)
        },
{
}

} // verus!
