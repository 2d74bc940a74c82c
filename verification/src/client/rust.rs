//! A client for servers that report, after the handshake, on building and
//! indexing before they are ready to answer: a handler that follows those
//! reports and releases a one-shot signal when the server is done.

use crate::client::Client;
use crate::text::same_bytes;
use crate::trusted::{ready_signal, release, Released};
use futures::sync::oneshot::{Receiver, Sender};
use vstd::prelude::*;
use vstd::string::*;
use vstd::utf8::encode_utf8_decode_utf8;

verus! {

/// What the handler knows of the remote server.
#[derive(Debug, Clone, Copy, PartialEq, Eq, Structural)]
pub enum RemoteState {
    /// Nothing has been heard yet.
    Closed,
    /// The handshake has been acknowledged.
    Init,
    /// The server is building.
    Building,
    /// The server is indexing.
    Indexing,
    /// The server has finished indexing: it is ready.
    Done,
    /// A progress report could not be understood.
    Unknown,
}

/// The two kinds of work that a progress report speaks of.
#[derive(Debug, Clone, Copy, PartialEq, Eq, Structural)]
pub enum Phase {
    Building,
    Indexing,
}

/// The payload of a progress notification.
#[derive(Debug, PartialEq, Eq)]
pub struct WindowProgress {
    pub id: String,
    pub message: Option<String>,
    pub title: Phase,
    pub done: Option<bool>,
}

/// The handler as contracts see it.
pub struct Readiness {
    /// What the handler knows of the remote server.
    pub state: RemoteState,
    /// The sender of the ready signal, until it has been sent.
    pub sender: Option<Sender<()>>,
}

/// What the handler makes of a notification.
pub struct Handled {
    /// `None` where the handler leaves the notification to others, else
    /// whether its payload was understood.
    pub reply: Option<Result<(), ()>>,
    /// The record of the ready signal, where this notification sent it.
    pub released: Option<Released>,
}

/// The states that the handler never leaves.
pub open spec fn is_terminal(state: RemoteState) -> bool {
    state is Done || state is Unknown
}

/// The handler holds its signal until, and only until, it reaches `Done`.
pub open spec fn holds_signal_until_done(watch: Readiness) -> bool {
    watch.sender is Some <==> !(watch.state is Done)
}

/// The name of the progress notification.
pub open spec fn is_progress(method: Seq<char>) -> bool {
    method == "window/progress"@
}

/// Where a well-formed progress report takes the handler.
pub open spec fn progress_target(report: WindowProgress) -> RemoteState {
    match (report.done, report.title) {
        (Some(true), Phase::Indexing) => RemoteState::Done,
        (Some(true), Phase::Building) => RemoteState::Indexing,
        (_, Phase::Indexing) => RemoteState::Indexing,
        (_, Phase::Building) => RemoteState::Building,
    }
}

/// Whether the handler handles a notification: it handles progress
/// notifications until it has reached a terminal state.
pub open spec fn handles(watch: Readiness, method: Seq<char>) -> bool {
    is_progress(method) && !is_terminal(watch.state)
}

/// The handler after the handshake has been acknowledged.
pub open spec fn after_initialized(watch: Readiness) -> Readiness {
    if is_terminal(watch.state) {
        watch
    } else {
        Readiness { state: RemoteState::Init, sender: watch.sender }
    }
}

/// The handler after a notification. `report` is the payload where it was
/// there and had the shape of a progress report.
pub open spec fn after_notification(
    watch: Readiness,
    method: Seq<char>,
    report: Option<WindowProgress>,
) -> Readiness {
    if !handles(watch, method) {
        watch
    } else {
        match report {
            None => Readiness { state: RemoteState::Unknown, sender: watch.sender },
            Some(report) => Readiness {
                state: progress_target(report),
                sender: if progress_target(report) is Done {
                    None
                } else {
                    watch.sender
                },
            },
        }
    }
}

/// What the handler answers to a notification: nothing where it does not
/// handle it, else whether the payload was understood.
pub open spec fn notification_reply(
    watch: Readiness,
    method: Seq<char>,
    report: Option<WindowProgress>,
) -> Option<Result<(), ()>> {
    if !handles(watch, method) {
        None
    } else if report is Some {
        Some(Ok(()))
    } else {
        Some(Err(()))
    }
}

/// Whether a step from `before` to `after` is one on which the ready
/// signal is sent: the sender was there before and is not after.
pub open spec fn fires(before: Readiness, after: Readiness) -> bool {
    before.sender is Some && after.sender is None
}

/// What a step from `before` to `after` owes of the ready signal: on a
/// step that fires, the record that the sender held before was sent; on
/// any other step no record, and the sender stays the one it was.
pub open spec fn released(before: Readiness, after: Readiness, record: Option<Released>) -> bool {
    if fires(before, after) {
        record is Some && Some(record->0.sender()) == before.sender
    } else {
        record is None && after.sender == before.sender
    }
}

/// What can happen to the handler.
pub enum Event {
    /// The handshake has been acknowledged.
    Initialized,
    /// A notification has arrived. `report` is its payload, where it was
    /// there and had the shape of a progress report.
    Notification { method: Seq<char>, report: Option<WindowProgress> },
}

/// The handler after one event.
pub open spec fn after_event(watch: Readiness, event: Event) -> Readiness {
    match event {
        Event::Initialized => after_initialized(watch),
        Event::Notification { method, report } => after_notification(watch, method, report),
    }
}

/// The handler after a run of events, first to last.
pub open spec fn after_events(watch: Readiness, events: Seq<Event>) -> Readiness
    decreases events.len(),
{
    if events.len() == 0 {
        watch
    } else {
        after_events(after_event(watch, events.first()), events.drop_first())
    }
}

/// How often a run of events releases the ready signal.
pub open spec fn releases(watch: Readiness, events: Seq<Event>) -> nat
    decreases events.len(),
{
    if events.len() == 0 {
        0
    } else {
        let next = after_event(watch, events.first());
        let once: nat = if fires(watch, next) {
            1
        } else {
            0
        };
        once + releases(next, events.drop_first())
    }
}

/// Once the server is done, a notification changes nothing, and the
/// handler leaves it to others.
pub proof fn lemma_done_is_final(
    watch: Readiness,
    method: Seq<char>,
    report: Option<WindowProgress>,
)
    requires
        watch.state is Done,
    ensures
        after_notification(watch, method, report) == watch,
        notification_reply(watch, method, report) is None,
{
}

/// There is no way out of `Done` or `Unknown`: no event changes the
/// handler once it is in one of them.
pub proof fn lemma_terminal_is_final(watch: Readiness, events: Seq<Event>)
    requires
        is_terminal(watch.state),
    ensures
        after_events(watch, events) == watch,
        releases(watch, events) == 0,
    decreases events.len(),
{
    if events.len() > 0 {
        lemma_terminal_is_final(watch, events.drop_first());
    }
}

/// The ready signal is released by the event that takes the handler to
/// `Done`, and by no other.
pub proof fn lemma_released_on_done(watch: Readiness, event: Event)
    requires
        holds_signal_until_done(watch),
    ensures
        holds_signal_until_done(after_event(watch, event)),
        fires(watch, after_event(watch, event)) <==> !(watch.state is Done) && after_event(
            watch,
            event,
        ).state is Done,
{
}

/// Whatever happens, the ready signal is released at most once; it is
/// released exactly when the run of events ends in `Done` and did not
/// start there.
pub proof fn lemma_released_once(watch: Readiness, events: Seq<Event>)
    requires
        holds_signal_until_done(watch),
    ensures
        holds_signal_until_done(after_events(watch, events)),
        releases(watch, events) <= 1,
        releases(watch, events) == 1 <==> !(watch.state is Done) && after_events(
            watch,
            events,
        ).state is Done,
    decreases events.len(),
{
    if events.len() > 0 {
        let next = after_event(watch, events.first());
        lemma_released_on_done(watch, events.first());
        lemma_released_once(next, events.drop_first());
        if next.state is Done {
            lemma_terminal_is_final(next, events.drop_first());
        }
    }
}

/// A notification handler that follows the progress reports of the server
/// and lets a receiver know when the server has finished indexing.
pub struct WaitForInit {
    state: RemoteState,
    sender: Option<Sender<()>>,
}

impl View for WaitForInit {
    type V = Readiness;

    closed spec fn view(&self) -> Readiness {
        Readiness { state: self.state, sender: self.sender }
    }
}

impl WaitForInit {
    #[verifier::type_invariant]
    spec fn well_formed(self) -> bool {
        holds_signal_until_done(self@)
    }

    /// A handler in its initial state, and the receiver of its ready signal.
    pub fn new() -> (r: (Self, Receiver<()>))
        ensures
            r.0@.state == RemoteState::Closed,
            r.0@.sender is Some,
    {
        let (sender, receiver) = ready_signal();
        (WaitForInit { state: RemoteState::Closed, sender: Some(sender) }, receiver)
    }

    /// What the handler knows of the remote server.
    pub fn state(&self) -> (state: RemoteState)
        ensures
            state == self@.state,
            holds_signal_until_done(self@),
    {
        proof {
            use_type_invariant(self);
        }
        self.state
    }

    /// The handshake has been acknowledged.
    pub fn initialized(&mut self)
        ensures
            final(self)@ == after_initialized(old(self)@),
    {
        match self.state {
            RemoteState::Done | RemoteState::Unknown => {},
            _ => {
                proof {
                    use_type_invariant(&*self);
                }
                self.state = RemoteState::Init;
            },
        }
    }

    /// A notification has arrived. `report` is its payload, where it was
    /// there and had the shape of a progress report.
    ///
    /// The reply is `None` where the handler does not handle the
    /// notification, so that another handler may. The ready signal is sent
    /// by the report that takes the handler to `Done`, and by no other; the
    /// record of the send is handed back.
    pub fn notification(&mut self, method: &str, report: Option<WindowProgress>) -> (r: Handled)
        ensures
            final(self)@ == after_notification(old(self)@, method@, report),
            r.reply == notification_reply(old(self)@, method@, report),
            released(old(self)@, final(self)@, r.released),
    {
        proof {
            use_type_invariant(&*self);
        }
        match self.state {
            RemoteState::Done | RemoteState::Unknown => {
                return Handled { reply: None, released: None };
            },
            _ => {},
        }
        if !is_progress_method(method) {
            return Handled { reply: None, released: None };
        }
        let report = match report {
            None => {
                self.state = RemoteState::Unknown;
                return Handled { reply: Some(Err(())), released: None };
            },
            Some(report) => report,
        };
        let next = match (report.done, report.title) {
            (Some(true), Phase::Indexing) => RemoteState::Done,
            (Some(true), Phase::Building) => RemoteState::Indexing,
            (_, Phase::Indexing) => RemoteState::Indexing,
            (_, Phase::Building) => RemoteState::Building,
        };
        match next {
            RemoteState::Done => {
                let mut before = WaitForInit { state: RemoteState::Done, sender: None };
                std::mem::swap(self, &mut before);
                match before.sender {
                    Some(sender) => Handled { reply: Some(Ok(())), released: Some(release(sender)) },
                    None => Handled { reply: Some(Ok(())), released: None },
                }
            },
            _ => {
                self.state = next;
                Handled { reply: Some(Ok(())), released: None }
            },
        }
    }
}

/// A client that waits for the server to finish building and indexing
/// before it sends anything after the handshake.
pub struct RlsClient {
    inner: Client,
    init_done: Option<Receiver<()>>,
}

impl RlsClient {
    /// The dispatcher of the client.
    pub closed spec fn client(&self) -> Client {
        self.inner
    }

    /// The receiver of the ready signal, until the handshake has taken it.
    pub closed spec fn init_done(&self) -> Option<Receiver<()>> {
        self.init_done
    }

    /// A client over `inner` that is to wait for `init_done`, the receiver
    /// that was made together with the handler of this connection.
    pub fn new(inner: Client, init_done: Receiver<()>) -> (client: Self)
        ensures
            client.client() == inner,
            client.init_done() == Some(init_done),
    {
        RlsClient { inner, init_done: Some(init_done) }
    }

    /// Whether the handshake is still to be made.
    pub fn is_waiting(&self) -> (r: bool)
        ensures
            r == (self.init_done() is Some),
    {
        self.init_done.is_some()
    }

    /// Hands out the receiver of the ready signal, for the caller to wait
    /// on once the call of `initialize` has been sent through the
    /// dispatcher. A client has one receiver to give: the handshake is made
    /// once, and a client that has made it must not be asked again.
    pub fn initialize_and_wait(self) -> (r: (Self, Receiver<()>))
        requires
            self.init_done() is Some,
        ensures
            r.0.client() == self.client(),
            r.0.init_done() is None,
            Some(r.1) == self.init_done(),
    {
        let mut client = self;
        let init_done = client.init_done.take().unwrap();
        (client, init_done)
    }

    /// The dispatcher that the client sends through.
    pub fn dispatcher(&mut self) -> (inner: &mut Client)
        ensures
            *inner == old(self).client(),
            final(self).client() == *final(inner),
            final(self).init_done() == old(self).init_done(),
    {
        &mut self.inner
    }
}

/// Whether `method` names the progress notification.
fn is_progress_method(method: &str) -> (r: bool)
    ensures
        r == is_progress(method@),
{
    let name = "window/progress";
    proof {
        encode_utf8_decode_utf8(method@);
        encode_utf8_decode_utf8(name@);
    }
    same_bytes(method.as_bytes(), name.as_bytes())
}

} // verus!
