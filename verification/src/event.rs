//! The events that are reported, and the version of the program that reports them.

use vstd::prelude::*;

use crate::calendar;
use crate::calendar::EPOCH;
use crate::detail::Detail;

verus! {

/// The name under which the events are reported.
pub const SOURCE_NAME: &'static str = "Rust Terminal Server";

/// The event at the start of a command.
pub const START_EVENT: &'static str = "start";

/// The event at the end of a command.
pub const END_EVENT: &'static str = "end";

/// The event at a step of a command.
pub const STEP_EVENT: &'static str = "step";

/// An event in the course of a command.
pub struct EventPayload {
    pub event: String,
    pub command: Option<String>,
    pub command_id: Option<String>,
    pub shell: Option<String>,
    pub username: Option<String>,
    pub directory: Option<String>,
    pub exit_code: Option<i64>,
    /// How long the command took, in milliseconds.
    pub duration: Option<i64>,
    pub name: Option<String>,
    pub detail: Option<Detail>,
    pub should_end: Option<bool>,
    pub source_name: Option<String>,
    pub source_version: Option<String>,
}

/// An event, with its texts as sequences of characters.
#[verifier::ext_equal]
pub struct EventView {
    pub event: Seq<char>,
    pub command: Option<Seq<char>>,
    pub command_id: Option<Seq<char>>,
    pub shell: Option<Seq<char>>,
    pub username: Option<Seq<char>>,
    pub directory: Option<Seq<char>>,
    pub exit_code: Option<i64>,
    pub duration: Option<i64>,
    pub name: Option<Seq<char>>,
    pub detail: Option<Map<Seq<char>, Seq<char>>>,
    pub should_end: Option<bool>,
    pub source_name: Option<Seq<char>>,
    pub source_version: Option<Seq<char>>,
}

impl View for EventPayload {
    type V = EventView;

    open spec fn view(&self) -> EventView {
        EventView {
            event: self.event@,
            command: self.command.deep_view(),
            command_id: self.command_id.deep_view(),
            shell: self.shell.deep_view(),
            username: self.username.deep_view(),
            directory: self.directory.deep_view(),
            exit_code: self.exit_code,
            duration: self.duration,
            name: self.name.deep_view(),
            detail: self.detail.deep_view(),
            should_end: self.should_end,
            source_name: self.source_name.deep_view(),
            source_version: self.source_version.deep_view(),
        }
    }
}

impl DeepView for EventPayload {
    type V = EventView;

    open spec fn deep_view(&self) -> EventView {
        self@
    }
}

impl EventPayload {
    /// The detail, where there is one, is a map.
    pub open spec fn wf(self) -> bool {
        self.detail matches Some(detail) ==> detail.wf()
    }
}

/// Whether an event belongs to a command: only such events are sent.
pub open spec fn has_command(event: EventView) -> bool {
    event.command matches Some(command) && command.len() > 0
}

/// The event as it is sent, with the name and the version of the program that reports it, where
/// it is sent at all.
pub open spec fn sent_form(event: EventView, source_version: Seq<char>) -> Option<EventView> {
    if has_command(event) {
        Some(
            EventView {
                source_name: Some(SOURCE_NAME@),
                source_version: Some(source_version),
                ..event
            },
        )
    } else {
        None
    }
}

/// Whether an event is to be sent: it is where it belongs to a command.
pub fn is_sent(payload: &EventPayload) -> (r: bool)
    ensures
        r == has_command(payload@),
{
    match &payload.command {
        Some(command) => !command.as_str().is_empty(),
        None => false,
    }
}

/// The event as it is sent, with the name and the version of the program that reports it, or
/// `None` where it is not sent because it belongs to no command.
pub fn prepare_event(payload: EventPayload, source_version: String) -> (r: Option<EventPayload>)
    ensures
        r.deep_view() == sent_form(payload@, source_version@),
        r is Some <==> payload.command is Some && payload.command->0@.len() > 0,
        r matches Some(event) ==> {
            &&& event.event == payload.event
            &&& event.command == payload.command
            &&& event.command_id == payload.command_id
            &&& event.shell == payload.shell
            &&& event.username == payload.username
            &&& event.directory == payload.directory
            &&& event.exit_code == payload.exit_code
            &&& event.duration == payload.duration
            &&& event.name == payload.name
            &&& event.detail == payload.detail
            &&& event.should_end == payload.should_end
            &&& event.source_name is Some && event.source_name->0@ == SOURCE_NAME@
            &&& event.source_version == Some(source_version)
        },
{
    if !is_sent(&payload) {
        return None;
    }
    let mut full_payload = payload;
    full_payload.source_name = Some(SOURCE_NAME.to_string());
    full_payload.source_version = Some(source_version);
    Some(full_payload)
}

/// What is known of the time at which a file was last modified.
pub enum ModTime {
    /// The file or its time could not be read.
    Unknown,
    /// Before the start of 1970.
    BeforeEpoch,
    /// So many seconds after the start of 1970.
    Seconds(u64),
}

/// Trusted: `DateTime::from_timestamp` gives a date and time in UTC, or `None` where that is
/// before `NaiveDate::MIN` or after `NaiveDate::MAX`, and `DateTime::to_rfc3339` writes it by
/// RFC 3339: the date by the Gregorian calendar, the time of day without a fraction, as there is
/// none, and the offset of UTC.
#[verifier::external_body]
pub(crate) fn format_rfc3339(seconds: i64) -> (r: Option<String>)
    ensures
        r.deep_view() == calendar::rfc3339(seconds as int),
{
    chrono::DateTime::from_timestamp(seconds, 0).map(|time| time.to_rfc3339())
}

/// Seconds as a signed number: from 2 to the power of 63 on they count as negative.
pub open spec fn signed_seconds(seconds: u64) -> int {
    if seconds <= i64::MAX {
        seconds as int
    } else {
        seconds - 0x1_0000_0000_0000_0000
    }
}

/// The version of the program, by the time at which its file was last modified.
pub open spec fn version_of(time: ModTime) -> Seq<char> {
    match time {
        ModTime::Unknown => Seq::empty(),
        ModTime::BeforeEpoch => EPOCH@,
        ModTime::Seconds(seconds) => match calendar::rfc3339(signed_seconds(seconds)) {
            Some(text) => text,
            None => EPOCH@,
        },
    }
}

/// The text of a date and time, or that of the start of 1970 where there is none.
pub fn text_or_epoch(text: Option<String>) -> (r: String)
    ensures
        r@ == match text {
            Some(text) => text@,
            None => EPOCH@,
        },
{
    proof {
        calendar::start_of_1970();
    }
    match text {
        Some(text) => text,
        None => format_rfc3339(0).unwrap(),
    }
}

/// The version of the program: the time at which its file was last modified, or nothing where
/// that is unknown. A time that is before 1970 or beyond all dates counts as the start of 1970.
pub fn get_binary_mod_time(time: ModTime) -> (r: String)
    ensures
        r@ == version_of(time),
        r@.len() == 0 <==> time is Unknown,
{
    proof {
        reveal_strlit("1970-01-01T00:00:00+00:00");
        calendar::start_of_1970();
    }
    match time {
        ModTime::Unknown => String::new(),
        ModTime::BeforeEpoch => text_or_epoch(format_rfc3339(0)),
        ModTime::Seconds(seconds) => {
            proof {
                cast_is_signed_seconds(seconds);
            }
            text_or_epoch(
                format_rfc3339(
                    #[verifier::truncate]
                    (seconds as i64),
                ),
            )
        },
    }
}

proof fn cast_is_signed_seconds(seconds: u64)
    ensures
        seconds as i64 == signed_seconds(seconds),
{
    assert(seconds <= 0x7fff_ffff_ffff_ffff ==> seconds as i64 == seconds) by (bit_vector);
    assert(seconds > 0x7fff_ffff_ffff_ffff ==> seconds as i64 == seconds
        - 0x1_0000_0000_0000_0000) by (bit_vector);
}

/// The version of a program that was last modified before the year 10000 reads back as the second
/// at which that was, in UTC.
pub proof fn version_reads_back(seconds: u64)
    requires
        seconds < 253402300800,
    ensures
        calendar::parsed_rfc3339(version_of(ModTime::Seconds(seconds))) == Some(seconds as int),
{
    calendar::date_and_time_reads_back(seconds as int);
}

/// An event is sent exactly where it has a command, which is a text that is not empty.
pub proof fn sent_where_there_is_a_command(event: EventView, source_version: Seq<char>)
    ensures
        sent_form(event, source_version) is Some <==> event.command is Some
            && event.command->0.len() > 0,
        has_command(event) <==> event.command is Some && event.command->0.len() > 0,
{
}

/// An event that is sent keeps all that it tells, and tells the name and the version of the program
/// besides.
pub proof fn sent_event_is_complete(event: EventView, source_version: Seq<char>)
    ensures
        sent_form(event, source_version) matches Some(sent) ==> {
            &&& sent.event == event.event
            &&& sent.command == event.command
            &&& sent.command_id == event.command_id
            &&& sent.shell == event.shell
            &&& sent.username == event.username
            &&& sent.directory == event.directory
            &&& sent.exit_code == event.exit_code
            &&& sent.duration == event.duration
            &&& sent.name == event.name
            &&& sent.detail == event.detail
            &&& sent.should_end == event.should_end
            &&& sent.source_name == Some("Rust Terminal Server"@)
            &&& sent.source_version == Some(source_version)
        },
{
}

/// The view of an event shows each of its parts.
pub proof fn event_is_seen_whole(payload: EventPayload)
    ensures
        payload@.event == payload.event@,
        payload@.command == payload.command.deep_view(),
        payload@.command_id == payload.command_id.deep_view(),
        payload@.shell == payload.shell.deep_view(),
        payload@.username == payload.username.deep_view(),
        payload@.directory == payload.directory.deep_view(),
        payload@.exit_code == payload.exit_code,
        payload@.duration == payload.duration,
        payload@.name == payload.name.deep_view(),
        payload@.detail == payload.detail.deep_view(),
        payload@.should_end == payload.should_end,
        payload@.source_name == payload.source_name.deep_view(),
        payload@.source_version == payload.source_version.deep_view(),
{
}

/// Seconds count as the signed number that differs from them by a multiple of 2 to the power of 64.
pub proof fn signed_seconds_wrap_around(seconds: u64)
    ensures
        i64::MIN <= signed_seconds(seconds) <= i64::MAX,
        (seconds - signed_seconds(seconds)) % 0x1_0000_0000_0000_0000 == 0,
{
}

/// The version is the date and time of the file, for every time that has a date, and that of the
/// start of 1970 for every other known time; where the time is unknown it is empty.
pub proof fn version_by_the_time(time: ModTime)
    ensures
        time is Unknown ==> version_of(time).len() == 0,
        time is BeforeEpoch ==> version_of(time) == "1970-01-01T00:00:00+00:00"@,
        time matches ModTime::Seconds(seconds) ==> {
            let signed = if seconds < 0x8000_0000_0000_0000 {
                seconds as int
            } else {
                seconds - 0x1_0000_0000_0000_0000
            };
            &&& -8334601228800 <= signed <= 8210266876799 ==> version_of(time)
                == calendar::date_and_time(signed)
            &&& !(-8334601228800 <= signed <= 8210266876799) ==> version_of(time)
                == "1970-01-01T00:00:00+00:00"@
        },
{
}

} // verus!
