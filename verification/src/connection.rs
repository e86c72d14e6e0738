//! A connection of a terminal: the lines of its recording, and the sessions of the processes in
//! it.

use std::collections::HashMap;

use vstd::prelude::*;

use crate::event::{EventPayload, EventView};
use crate::filter;
use crate::filter::{FilterView, RegexFilter};
use crate::osc;
use crate::recording;
use crate::recording::{Line, LineView};
use crate::session;
use crate::session::{Clock, Origin, OriginView, SessionView, TerminalSession};
use crate::terminals;
use crate::terminals::{CastHeader, HeaderView, TableStep, TerminalTable};

verus! {

broadcast use vstd::std_specs::hash::group_hash_axioms;

/// What is known of a terminal that is connected.
pub struct Connection {
    id: String,
    header_parsed: bool,
    origin: Origin,
    sessions: HashMap<i32, TerminalSession>,
}

/// What is known of a terminal that is connected, with its texts as sequences of characters.
#[verifier::ext_equal]
pub struct ConnectionView {
    /// What tells the connection from the others that are open.
    pub id: Seq<char>,
    /// Whether the header of the recording came.
    pub header_parsed: bool,
    pub origin: OriginView,
    /// The processes in the terminal, by their number.
    pub sessions: Map<i32, SessionView>,
}

impl View for Connection {
    type V = ConnectionView;

    closed spec fn view(&self) -> ConnectionView {
        ConnectionView {
            id: self.id@,
            header_parsed: self.header_parsed,
            origin: self.origin@,
            sessions: self.sessions@.map_values(|session: TerminalSession| session@),
        }
    }
}

impl ConnectionView {
    /// Every session is that of the process under whose number it is kept.
    pub open spec fn wf(self) -> bool {
        forall|pid: i32| #[trigger]
            self.sessions.contains_key(pid) ==> self.sessions[pid].pid == pid
    }

    /// The session of a process; one of which nothing was seen is new.
    pub open spec fn session(self, pid: i32) -> SessionView {
        if self.sessions.contains_key(pid) {
            self.sessions[pid]
        } else {
            session::new_session(pid)
        }
    }
}

/// A terminal of which nothing was seen yet.
pub open spec fn new_connection(id: Seq<char>) -> ConnectionView {
    ConnectionView {
        id,
        header_parsed: false,
        origin: OriginView {
            username: Seq::empty(),
            directory: Seq::empty(),
            shell: Seq::empty(),
        },
        sessions: Map::empty(),
    }
}

/// Whether a line may be the header: the first line that is parsed as one is it.
pub open spec fn may_be_header(c: ConnectionView, line: Seq<char>) -> bool {
    !c.header_parsed && recording::object_like(line)
}

/// What is to be done with a line.
pub enum Step {
    /// It may be the header: it is to be parsed as one, and where that fails it is unknown.
    ParseHeader,
    /// It is not the header.
    Handle(Line),
}

/// What is to be done with a line, with the text that it carries as a sequence of characters.
pub enum StepView {
    ParseHeader,
    Handle(LineView),
}

impl View for Step {
    type V = StepView;

    open spec fn view(&self) -> StepView {
        match self {
            Step::ParseHeader => StepView::ParseHeader,
            Step::Handle(line) => StepView::Handle(line@),
        }
    }
}

/// What is to be done with a line.
pub open spec fn step_for(c: ConnectionView, line: Seq<char>) -> StepView {
    if may_be_header(c, line) {
        StepView::ParseHeader
    } else {
        StepView::Handle(recording::line_view(line))
    }
}

/// What is there, or nothing.
pub open spec fn or_empty(text: Option<Seq<char>>) -> Seq<char> {
    match text {
        Some(text) => text,
        None => Seq::empty(),
    }
}

/// The header came: it says who uses which shell, and where.
pub open spec fn with_header(c: ConnectionView, header: HeaderView) -> ConnectionView {
    ConnectionView {
        header_parsed: true,
        origin: OriginView {
            username: or_empty(header.username),
            directory: or_empty(header.directory),
            shell: or_empty(header.shell),
        },
        ..c
    }
}

/// Where the terminal is after data came that may announce another directory.
pub open spec fn moved(origin: OriginView, data: Seq<char>) -> OriginView {
    match osc::announced_dir(data) {
        Some(directory) => OriginView { directory, ..origin },
        None => origin,
    }
}

/// Data of a process came: it may announce a directory, which then holds for the whole terminal,
/// and it changes the session of that process and no other.
pub open spec fn on_process_data(
    c: ConnectionView,
    pid: i32,
    data: Seq<char>,
    clock: Clock,
    filters: Seq<FilterView>,
) -> (ConnectionView, Option<EventView>) {
    let origin = moved(c.origin, data);
    let (session, event) = session::on_data(c.session(pid), data, clock, origin, filters);
    (ConnectionView { origin, sessions: c.sessions.insert(pid, session), ..c }, event)
}

/// A line came that is not the header: where it is data of a process that is handled, and where
/// it is not nothing changes and nothing is reported.
pub open spec fn on_other_line(
    c: ConnectionView,
    line: LineView,
    clock: Clock,
    filters: Seq<FilterView>,
) -> (ConnectionView, Option<EventView>) {
    match line {
        LineView::Data { pid, data } => on_process_data(c, pid, data, clock, filters),
        _ => (c, None),
    }
}

/// A line came, which as a header, where it is one, says `header`: where it may be the header it
/// is taken as that or, where it is none, passed over.
pub open spec fn on_line(
    c: ConnectionView,
    line: Seq<char>,
    header: Option<HeaderView>,
    clock: Clock,
    filters: Seq<FilterView>,
) -> (ConnectionView, Option<EventView>) {
    match step_for(c, line) {
        StepView::ParseHeader => match header {
            Some(header) => (with_header(c, header), None),
            None => (c, None),
        },
        StepView::Handle(line) => on_other_line(c, line, clock, filters),
    }
}

impl Connection {
    /// A terminal of which nothing was seen yet.
    pub fn new(id: String) -> (r: Connection)
        ensures
            r@ == new_connection(id@),
            r@.wf(),
    {
        let r = Connection {
            id,
            header_parsed: false,
            origin: Origin {
                username: String::new(),
                directory: String::new(),
                shell: String::new(),
            },
            sessions: HashMap::new(),
        };
        assert(r@ =~= new_connection(id@));
        r
    }

    /// Whether a line may be the header, and is to be parsed as one.
    pub fn expects_header(&self, line: &str) -> (r: bool)
        ensures
            r == may_be_header(self@, line@),
    {
        !self.header_parsed && recording::looks_like_object(line)
    }

    /// What is to be done with a line.
    pub fn read_line(&self, line: &str) -> (r: Step)
        ensures
            r@ == step_for(self@, line@),
    {
        if self.expects_header(line) {
            Step::ParseHeader
        } else {
            Step::Handle(recording::read_line(line))
        }
    }

    /// Takes the header: what it says of who uses which shell, and where, holds from now on, and it
    /// is kept in the table of the terminals.
    pub fn take_header<R>(&mut self, header: CastHeader<R>, table: &mut TerminalTable<R>)
        ensures
            final(self)@ == with_header(old(self)@, header@),
            final(table)@ == terminals::on_step(
                old(table)@,
                TableStep::Header(old(self)@.id, header),
            ),
            old(self)@.wf() ==> final(self)@.wf(),
    {
        self.header_parsed = true;
        self.origin = Origin {
            username: header.username.clone().unwrap_or_default(),
            directory: header.directory.clone().unwrap_or_default(),
            shell: header.shell.clone().unwrap_or_default(),
        };
        assert(self@ =~= with_header(old(self)@, header@));
        table.insert(self.id.clone(), header);
    }

    /// Closes the connection: the table of the terminals holds nothing of it any more.
    pub fn close<R>(self, table: &mut TerminalTable<R>)
        ensures
            final(table)@ == terminals::on_step(old(table)@, TableStep::<R>::Close(self@.id)),
    {
        table.remove(self.id.as_str());
    }

    /// The session of a process, where anything was seen of it.
    pub fn session(&self, pid: i32) -> (r: Option<&TerminalSession>)
        ensures
            r is Some == self@.sessions.contains_key(pid),
            r matches Some(session) ==> session@ == self@.sessions[pid],
    {
        self.sessions.get(&pid)
    }

    /// Data of a process came: the event that it is, where it is one, is to be reported.
    pub fn handle_data(
        &mut self,
        pid: i32,
        data: &str,
        clock: &Clock,
        filters: &[RegexFilter],
    ) -> (r: Option<EventPayload>)
        ensures
            (final(self)@, r.deep_view()) == on_process_data(
                old(self)@,
                pid,
                data@,
                *clock,
                filter::filter_views(filters@),
            ),
            old(self)@.wf() ==> final(self)@.wf(),
            session::ends_command(data@) ==> osc::is_exit_code_of(
                data@,
                final(self)@.sessions[pid].last_exit_code,
            ),
            r matches Some(event) ==> event.wf(),
            r matches Some(event) ==> filter::values_stand_in(event@.detail, data@),
    {
        if let Some(directory) = osc::extract_current_dir(data) {
            self.origin.directory = directory;
        }
        let session = self.sessions.entry(pid).or_insert(TerminalSession::new(pid));
        let event = session.handle_data(data, clock, &self.origin, filters);
        proof {
            let views = filter::filter_views(filters@);
            assert(self@ =~= on_process_data(old(self)@, pid, data@, *clock, views).0);
            if old(self)@.wf() {
                sessions_keep_their_process(old(self)@, pid, data@, *clock, views);
            }
        }
        event
    }

    /// A line came that is not the header: the event that it is, where it is one, is to be
    /// reported.
    pub fn handle_line(&mut self, line: &Line, clock: &Clock, filters: &[RegexFilter]) -> (r: Option<
        EventPayload,
    >)
        ensures
            (final(self)@, r.deep_view()) == on_other_line(
                old(self)@,
                line@,
                *clock,
                filter::filter_views(filters@),
            ),
            old(self)@.wf() ==> final(self)@.wf(),
            r matches Some(event) ==> event.wf(),
            line@ matches LineView::Data { pid, data } ==> {
                &&& session::ends_command(data) ==> osc::is_exit_code_of(
                    data,
                    final(self)@.sessions[pid].last_exit_code,
                )
                &&& r matches Some(event) ==> filter::values_stand_in(event@.detail, data)
            },
    {
        match line {
            Line::Data { pid, data } => self.handle_data(*pid, data.as_str(), clock, filters),
            _ => None,
        }
    }
}

/// Data keeps every session with its process.
pub proof fn sessions_keep_their_process(
    c: ConnectionView,
    pid: i32,
    data: Seq<char>,
    clock: Clock,
    filters: Seq<FilterView>,
)
    requires
        c.wf(),
    ensures
        on_process_data(c, pid, data, clock, filters).0.wf(),
{
}

/// Of a terminal that was just connected nothing is known but its identifier.
pub proof fn new_connection_holds_nothing(id: Seq<char>, pid: i32)
    ensures
        new_connection(id).id == id,
        !new_connection(id).header_parsed,
        new_connection(id).origin.username.len() == 0,
        new_connection(id).origin.directory.len() == 0,
        new_connection(id).origin.shell.len() == 0,
        !new_connection(id).sessions.contains_key(pid),
        new_connection(id).session(pid) == session::new_session(pid),
{
}

/// The session of a process is the one that is kept under its number, and a new one where none is.
pub proof fn session_under_its_number(c: ConnectionView, pid: i32)
    ensures
        c.sessions.contains_key(pid) ==> c.session(pid) == c.sessions[pid],
        !c.sessions.contains_key(pid) ==> c.session(pid) == session::new_session(pid),
{
}

/// Until the header came, every line that looks like an object is parsed as one; all other lines,
/// and all lines from then on, are handled as what they are.
pub proof fn header_is_expected_until_it_came(c: ConnectionView, line: Seq<char>)
    ensures
        !c.header_parsed && recording::object_like(line) ==> step_for(c, line)
            == StepView::ParseHeader && may_be_header(c, line),
        c.header_parsed || !recording::object_like(line) ==> step_for(c, line) == StepView::Handle(
            recording::line_view(line),
        ) && !may_be_header(c, line),
{
}

/// What the header says of user, directory and shell holds from then on, each as it stands there or
/// empty where it is missing. The identifier and the sessions stay.
pub proof fn header_says_who_and_where(c: ConnectionView, header: HeaderView)
    ensures
        ({
            let d = with_header(c, header);
            &&& d.id == c.id
            &&& d.header_parsed
            &&& d.sessions == c.sessions
            &&& header.username matches Some(username) ==> d.origin.username == username
            &&& header.username is None ==> d.origin.username.len() == 0
            &&& header.directory matches Some(directory) ==> d.origin.directory == directory
            &&& header.directory is None ==> d.origin.directory.len() == 0
            &&& header.shell matches Some(shell) ==> d.origin.shell == shell
            &&& header.shell is None ==> d.origin.shell.len() == 0
        }),
{
}

/// Data changes the session of its own process, and of no other, by what that session makes of it,
/// and gives the event that the session gives. The directory that it announces holds at once; user,
/// shell, identifier and header stay.
pub proof fn data_changes_its_process_alone(
    c: ConnectionView,
    pid: i32,
    data: Seq<char>,
    clock: Clock,
    filters: Seq<FilterView>,
    other: i32,
)
    requires
        other != pid,
    ensures
        ({
            let (d, event) = on_process_data(c, pid, data, clock, filters);
            &&& d.id == c.id
            &&& d.header_parsed == c.header_parsed
            &&& d.origin.username == c.origin.username
            &&& d.origin.shell == c.origin.shell
            &&& osc::announced_dir(data) matches Some(dir) ==> d.origin.directory == dir
            &&& osc::announced_dir(data) is None ==> d.origin.directory == c.origin.directory
            &&& d.sessions.contains_key(other) == c.sessions.contains_key(other)
            &&& c.sessions.contains_key(other) ==> d.sessions[other] == c.sessions[other]
            &&& d.sessions.contains_key(pid)
            &&& (d.sessions[pid], event) == session::on_data(
                c.session(pid),
                data,
                clock,
                d.origin,
                filters,
            )
        }),
{
}

/// A line is handled as what it is: data as data of its process, and any other line, or a line that
/// may be the header and is none, without a change and without an event.
pub proof fn line_is_handled_as_what_it_is(
    c: ConnectionView,
    line: Seq<char>,
    header: Option<HeaderView>,
    clock: Clock,
    filters: Seq<FilterView>,
)
    ensures
        ({
            let handled = on_line(c, line, header, clock, filters);
            let expected = !c.header_parsed && recording::object_like(line);
            &&& expected && header is Some ==> handled.0 == with_header(c, header->0) && handled.1
                is None
            &&& expected && header is None ==> handled.0 == c && handled.1 is None
            &&& !expected ==> handled == on_other_line(
                c,
                recording::line_view(line),
                clock,
                filters,
            )
        }),
        forall|pid: i32, data: Seq<char>| #[trigger]
            on_other_line(c, LineView::Data { pid, data }, clock, filters) == on_process_data(
                c,
                pid,
                data,
                clock,
                filters,
            ),
        on_other_line(c, LineView::Unknown, clock, filters).0 == c,
        on_other_line(c, LineView::Unknown, clock, filters).1 is None,
        on_other_line(c, LineView::NoData, clock, filters).0 == c,
        on_other_line(c, LineView::NoData, clock, filters).1 is None,
{
}

/// The view of a step shows what is to be done.
pub proof fn step_is_seen_whole(step: Step)
    ensures
        step is ParseHeader <==> step@ is ParseHeader,
        step matches Step::Handle(line) ==> step@ == StepView::Handle(line@),
{
}

} // verus!
