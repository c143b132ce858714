//! The client's side of the socket: the lines that it sends and how it takes what comes back.

use vstd::prelude::*;
use vstd::string::*;

use crate::daemon::server;
use crate::ipc::message;
use crate::ipc::message::{JobSummary, Response};
use crate::text;

verus! {

/// The line that carries the request `json`.
pub fn request_line(json: String) -> (r: String)
    ensures
        r@ == json@.push('\n'),
{
    let mut line = json;
    line.push('\n');
    line
}

/// The line that asks for a subscription to all jobs.
pub fn subscribe_line() -> (r: String)
    ensures
        r@ == "{\"type\":\"subscribe\",\"all\":true}"@.push('\n'),
{
    request_line("{\"type\":\"subscribe\",\"all\":true}".to_owned())
}

/// The message of a line that the daemon sent.
pub fn message_of_line(line: &str) -> (r: String)
    ensures
        r@ == text::trim(line@),
{
    text::trim_text(line)
}

/// Why the daemon could not be reached at the socket `path`.
pub fn connect_failure(path: &str) -> (r: String)
    ensures
        r@ == "Could not connect to shard daemon at "@ + path@
            + ".\nIs the daemon running? Start it with: shard daemon"@,
{
    let mut r = "Could not connect to shard daemon at ".to_owned();
    r.append(path);
    r.append(".\nIs the daemon running? Start it with: shard daemon");
    r
}

/// What is wrong with a line that is no response.
pub fn bad_response(line: &str) -> (r: String)
    ensures
        r@ == "Bad response from daemon: "@ + line@,
{
    let mut r = "Bad response from daemon: ".to_owned();
    r.append(line);
    r
}

/// What a subscriber does with a line that it has read.
#[derive(Debug)]
pub enum StreamLine {
    /// Nothing came: the connection is closed.
    Closed,
    /// The line is blank.
    Skip,
    /// The line holds a message.
    Message(String),
}

/// What a subscriber does with `line`, which holds `read` bytes.
pub fn stream_line(read: usize, line: &str) -> (r: StreamLine)
    ensures
        match r {
            StreamLine::Closed => read == 0,
            StreamLine::Skip => read != 0 && text::trim(line@).len() == 0,
            StreamLine::Message(m) => read != 0 && text::trim(line@).len() > 0 && m@ == text::trim(
                line@,
            ),
        },
{
    if read == 0 {
        return StreamLine::Closed;
    }
    let trimmed = text::trim_text(line);
    if trimmed.as_str().is_empty() {
        StreamLine::Skip
    } else {
        StreamLine::Message(trimmed)
    }
}

/// The jobs that a subscriber shows after it has received `response`: an update replaces all of
/// them, and anything else leaves them as they are.
pub open spec fn shown_after(
    jobs: Seq<message::SummaryView>,
    response: Option<message::ResponseView>,
) -> Seq<message::SummaryView> {
    match response {
        Some(message::ResponseView::Update { jobs: new_jobs }) => new_jobs,
        _ => jobs,
    }
}

/// What a subscriber does next. It never stops.
#[derive(Debug, Clone, Copy, PartialEq, Eq, Structural)]
pub enum StreamAction {
    /// Connect to the daemon and ask for a subscription.
    Connect,
    /// Read the next line of the standing subscription.
    Read,
    /// Wait before connecting again.
    Wait { millis: u64 },
}

/// What a client knows through its subscription.
#[derive(Debug)]
pub struct Stream {
    next: StreamAction,
    /// The jobs of the daemon, as far as it has told.
    jobs: Vec<JobSummary>,
}

/// What a `Stream` says.
pub struct StreamView {
    pub next: StreamAction,
    pub jobs: Seq<message::SummaryView>,
}

impl View for Stream {
    type V = StreamView;

    closed spec fn view(&self) -> StreamView {
        StreamView { next: self.next, jobs: message::summaries(self.jobs@) }
    }
}

/// Something that happens to a subscription.
pub enum StreamEvent {
    /// The daemon has confirmed it.
    Confirmed,
    /// A message has come, or something that is no message.
    Received(Option<message::ResponseView>),
    /// The connection was closed, or else has failed or could not be made.
    Ended { closed: bool },
    /// The time before the next connection has passed.
    Waited,
}

impl StreamView {
    /// Whether the subscription stands.
    pub open spec fn connected(self) -> bool {
        self.next is Read
    }

    /// What is known after `event`.
    pub open spec fn after(self, event: StreamEvent) -> StreamView {
        match event {
            StreamEvent::Confirmed => StreamView { next: StreamAction::Read, ..self },
            StreamEvent::Received(response) => StreamView {
                jobs: shown_after(self.jobs, response),
                ..self
            },
            StreamEvent::Ended { closed } => StreamView {
                next: StreamAction::Wait {
                    millis: if closed {
                        500
                    } else {
                        2000
                    },
                },
                ..self
            },
            StreamEvent::Waited => StreamView { next: StreamAction::Connect, ..self },
        }
    }

    /// What is known after all of `events`, in order.
    pub open spec fn after_all(self, events: Seq<StreamEvent>) -> StreamView
        decreases events.len(),
    {
        if events.len() == 0 {
            self
        } else {
            self.after_all(events.drop_last()).after(events.last())
        }
    }
}

impl Stream {
    /// What is known before the first connection.
    pub fn new() -> (r: Stream)
        ensures
            r@ == (StreamView { next: StreamAction::Connect, jobs: Seq::empty() }),
    {
        let r = Stream { next: StreamAction::Connect, jobs: Vec::new() };
        assert(r@.jobs =~= Seq::empty());
        r
    }

    /// What is to be done next.
    pub fn action(&self) -> (r: StreamAction)
        ensures
            r == self@.next,
    {
        self.next
    }

    /// Whether the subscription stands.
    pub fn is_connected(&self) -> (r: bool)
        ensures
            r == self@.connected(),
    {
        match self.next {
            StreamAction::Read => true,
            _ => false,
        }
    }

    /// A copy of the jobs.
    pub fn shown_jobs(&self) -> (r: Vec<JobSummary>)
        ensures
            message::summaries(r@) == self@.jobs,
    {
        message::copy_summaries(&self.jobs)
    }

    /// The daemon has confirmed the subscription.
    pub fn confirm(&mut self)
        ensures
            final(self)@ == old(self)@.after(StreamEvent::Confirmed),
    {
        self.next = StreamAction::Read;
    }

    /// A message has come, or something that is no message.
    pub fn receive(&mut self, response: Option<Response>)
        ensures
            final(self)@ == old(self)@.after(
                StreamEvent::Received(
                    match response {
                        Some(r) => Some(r@),
                        None => None,
                    },
                ),
            ),
    {
        match response {
            Some(Response::Update { jobs: new_jobs }) => {
                self.jobs = new_jobs;
            },
            _ => {},
        }
    }

    /// The connection was closed, or else has failed or could not be made.
    pub fn end(&mut self, closed: bool)
        ensures
            final(self)@ == old(self)@.after(StreamEvent::Ended { closed }),
    {
        self.next = StreamAction::Wait {
            millis: if closed {
                500
            } else {
                2000
            },
        };
    }

    /// The time before the next connection has passed.
    pub fn waited(&mut self)
        ensures
            final(self)@ == old(self)@.after(StreamEvent::Waited),
    {
        self.next = StreamAction::Connect;
    }
}

/// Whether `event` is an update.
pub open spec fn is_update(event: StreamEvent) -> bool {
    event matches StreamEvent::Received(Some(message::ResponseView::Update { .. }))
}

/// After any sequence of events the shown jobs are those of the last update, and those from before
/// where there was none.
pub proof fn law_shown_jobs_are_those_of_the_last_update(s: StreamView, events: Seq<StreamEvent>)
    ensures
        (forall|i: int| 0 <= i < events.len() ==> !is_update(#[trigger] events[i])) ==> s.after_all(
            events,
        ).jobs == s.jobs,
        forall|i: int|
            0 <= i < events.len() && is_update(#[trigger] events[i]) && (forall|j: int|
                i < j < events.len() ==> !is_update(#[trigger] events[j])) ==> events[i]
                == StreamEvent::Received(
                Some(message::ResponseView::Update { jobs: s.after_all(events).jobs }),
            ),
    decreases events.len(),
{
    if events.len() > 0 {
        let rest = events.drop_last();
        law_shown_jobs_are_those_of_the_last_update(s, rest);
        assert(events.last() == events[events.len() - 1]);
        assert forall|i: int| 0 <= i < rest.len() implies #[trigger] rest[i] == events[i] by {}
        assert forall|i: int|
            0 <= i < events.len() && is_update(#[trigger] events[i]) && (forall|j: int|
                i < j < events.len() ==> !is_update(#[trigger] events[j])) implies events[i]
            == StreamEvent::Received(
            Some(message::ResponseView::Update { jobs: s.after_all(events).jobs }),
        ) by {
            if i < rest.len() {
                assert(is_update(rest[i]));
                assert(!is_update(events[events.len() - 1]));
                assert forall|j: int| i < j < rest.len() implies !is_update(#[trigger] rest[j]) by {
                    assert(!is_update(events[j]));
                }
            }
        }
        if forall|i: int| 0 <= i < events.len() ==> !is_update(#[trigger] events[i]) {
            assert(!is_update(events[events.len() - 1]));
            assert forall|i: int| 0 <= i < rest.len() implies !is_update(#[trigger] rest[i]) by {
                assert(!is_update(events[i]));
            }
        }
    }
}

/// Whether the last of `events` that is no message confirms a subscription; `before` where there is
/// none.
pub open spec fn confirmed_last(before: bool, events: Seq<StreamEvent>) -> bool
    decreases events.len(),
{
    if events.len() == 0 {
        before
    } else {
        match events.last() {
            StreamEvent::Confirmed => true,
            StreamEvent::Ended { .. } => false,
            StreamEvent::Waited => false,
            StreamEvent::Received(_) => confirmed_last(before, events.drop_last()),
        }
    }
}

/// A client counts as connected exactly from a confirmed subscription to the end of its
/// connection.
pub proof fn law_connected_from_confirmation_to_end(s: StreamView, events: Seq<StreamEvent>)
    ensures
        s.after_all(events).connected() == confirmed_last(s.connected(), events),
    decreases events.len(),
{
    if events.len() > 0 {
        law_connected_from_confirmation_to_end(s, events.drop_last());
    }
}

/// Whatever has happened, a subscriber goes on: a connection that ends is made again after a while,
/// and a subscription that stands is read until its connection ends.
pub proof fn law_subscribers_never_stop(s: StreamView, events: Seq<StreamEvent>, closed: bool)
    ensures
        ({
            let now = s.after_all(events);
            let lost = now.after(StreamEvent::Ended { closed });
            &&& lost.next is Wait
            &&& lost.after(StreamEvent::Waited).next is Connect
            &&& lost.after(StreamEvent::Waited).after(StreamEvent::Confirmed).next is Read
            &&& forall|response: Option<message::ResponseView>|
                (#[trigger] now.after(StreamEvent::Received(response))).next == now.next
        }),
{
}

/// A message that neither begins nor ends with white space is read back from its line.
pub proof fn law_framed_message_is_read_back(json: Seq<char>)
    requires
        json.len() > 0,
        !text::space_chars().contains(json[0]),
        !text::space_chars().contains(json.last()),
    ensures
        text::trim(json.push('\n')) == json,
        text::trim(server::frame(Some(json))) == json,
{
    let line = json.push('\n');
    assert(line[0] == json[0]);
    assert(text::space_chars()[1] == '\n');
    assert(line.drop_last() =~= json);
    reveal_with_fuel(text::drop_trailing, 2);
}

/// A closed connection is made again sooner than one that failed, and neither event takes the shown
/// jobs away.
pub proof fn law_lost_connections_are_made_again(s: StreamView, closed: bool)
    ensures
        s.after(StreamEvent::Ended { closed }).jobs == s.jobs,
        s.after(StreamEvent::Ended { closed: true }).next == (StreamAction::Wait { millis: 500 }),
        s.after(StreamEvent::Ended { closed: false }).next == (StreamAction::Wait { millis: 2000 }),
        s.after(StreamEvent::Waited) == (StreamView { next: StreamAction::Connect, ..s }),
        s.after(StreamEvent::Confirmed) == (StreamView { next: StreamAction::Read, ..s }),
{
}

/// Only an update changes the shown jobs, and it replaces all of them.
pub proof fn law_updates_replace_the_shown_jobs(
    jobs: Seq<message::SummaryView>,
    new_jobs: Seq<message::SummaryView>,
    response: message::ResponseView,
)
    ensures
        shown_after(jobs, Some(message::ResponseView::Update { jobs: new_jobs })) == new_jobs,
        !(response is Update) ==> shown_after(jobs, Some(response)) == jobs,
        shown_after(jobs, None) == jobs,
{
}

} // verus!
