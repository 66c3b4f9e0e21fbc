//! The life of one realtime session: connecting, streaming audio, committing what
//! is left, and waiting for the last transcripts.

use crate::encoding;
use crate::realtime::{self, RealtimeError, RealtimeEvent, SocketInput, SocketOutcome};
use vstd::prelude::*;

verus! {

/// Where a session stands.
#[derive(Debug, Clone, Copy, PartialEq, Eq)]
pub enum SessionState {
    Connecting,
    /// Audio goes out and messages come in. Once the recorder has stopped, only
    /// the command to finalize is waited for.
    Streaming { audio_closed: bool },
    /// An audio frame is being sent.
    Sending,
    /// The final commit is being sent.
    Committing,
    /// The last messages come in, until the deadline.
    Draining,
    Ended,
}

/// What came of connecting.
#[derive(Debug, Clone, Copy, PartialEq, Eq)]
pub enum ConnectResult {
    Connected,
    /// The URL does not make a request.
    BadEndpoint,
    /// The API key does not make a header.
    BadKey,
    Refused,
}

/// What came of sending a message.
#[derive(Debug, Clone, Copy, PartialEq, Eq)]
pub enum SendResult {
    Sent,
    Failed,
    TimedOut,
}

/// What happens to a session.
#[derive(Debug, Clone, PartialEq, Eq)]
pub enum SessionInput {
    Connect(ConnectResult),
    /// Finalization was asked for, or nobody can ask for it any more.
    Finalize,
    Audio(Vec<u8>),
    AudioClosed,
    Send(SendResult),
    Socket(SocketInput),
    /// The time for the last messages is over.
    Deadline,
}

/// What a session does about it.
#[derive(Debug, Clone, PartialEq, Eq)]
pub struct SessionStep {
    pub state: SessionState,
    /// Events for the caller, in their order.
    pub events: Vec<RealtimeEvent>,
    /// A message to send.
    pub send: Option<String>,
}

/// What a [`SessionStep`] says.
#[verifier::ext_equal]
pub struct SessionView {
    pub state: SessionState,
    pub events: Seq<realtime::EventView>,
    pub send: Option<Seq<char>>,
}

impl View for SessionStep {
    type V = SessionView;

    open spec fn view(&self) -> SessionView {
        SessionView {
            state: self.state,
            events: realtime::event_views(self.events@),
            send: match self.send {
                Some(message) => Some(message@),
                None => None,
            },
        }
    }
}

impl SessionView {
    /// Going on in a state, with nothing to tell and nothing to send.
    pub open spec fn quiet(state: SessionState) -> SessionView {
        SessionView { state, events: Seq::empty(), send: None }
    }

    /// Sending a message.
    pub open spec fn sending(state: SessionState, message: Seq<char>) -> SessionView {
        SessionView { state, events: Seq::empty(), send: Some(message) }
    }

    /// The end, with the events that lead to it.
    pub open spec fn end(events: Seq<realtime::EventView>) -> SessionView {
        SessionView { state: SessionState::Ended, events, send: None }
    }
}

impl SessionState {
    /// What follows something from the socket.
    pub open spec fn after_socket(self, input: SocketInput) -> SessionView {
        let (events, outcome) = input.effect();
        SessionView {
            state: if outcome is Ended {
                SessionState::Ended
            } else {
                self
            },
            events,
            send: None,
        }
    }

    /// What follows an input. Inputs that do not belong to the state change
    /// nothing.
    pub open spec fn following(self, input: SessionInput) -> SessionView {
        match (self, input) {
            (SessionState::Connecting, SessionInput::Connect(result)) => match result {
                ConnectResult::Connected => SessionView::quiet(
                    SessionState::Streaming { audio_closed: false },
                ),
                ConnectResult::BadEndpoint => SessionView::end(
                    realtime::failing(realtime::ErrorView::InvalidEndpoint),
                ),
                ConnectResult::BadKey => SessionView::end(
                    realtime::failing(realtime::ErrorView::InvalidApiKey),
                ),
                ConnectResult::Refused => SessionView::end(
                    realtime::failing(realtime::ErrorView::ConnectionFailed),
                ),
            },
            (SessionState::Streaming { .. }, SessionInput::Finalize) => SessionView::sending(
                SessionState::Committing,
                realtime::audio_message(Seq::empty(), true),
            ),
            (SessionState::Streaming { audio_closed: false }, SessionInput::Audio(pcm)) =>
                SessionView::sending(
                SessionState::Sending,
                realtime::audio_message(pcm@, false),
            ),
            (SessionState::Streaming { .. }, SessionInput::AudioClosed) => SessionView::quiet(
                SessionState::Streaming { audio_closed: true },
            ),
            (SessionState::Streaming { .. }, SessionInput::Socket(input)) => self.after_socket(
                input,
            ),
            (SessionState::Sending, SessionInput::Send(result)) => match result {
                SendResult::Sent => SessionView::quiet(
                    SessionState::Streaming { audio_closed: false },
                ),
                SendResult::Failed | SendResult::TimedOut => SessionView::end(
                    realtime::failing(realtime::ErrorView::WebSocketFailed),
                ),
            },
            (SessionState::Committing, SessionInput::Send(result)) => match result {
                SendResult::Sent => SessionView::quiet(SessionState::Draining),
                SendResult::Failed => SessionView::end(
                    realtime::failing(realtime::ErrorView::WebSocketFailed),
                ),
                SendResult::TimedOut => SessionView::end(seq![realtime::EventView::Completed]),
            },
            (SessionState::Draining, SessionInput::Socket(input)) => self.after_socket(input),
            (SessionState::Draining, SessionInput::Deadline) => SessionView::end(
                seq![realtime::EventView::Completed],
            ),
            _ => SessionView::quiet(self),
        }
    }

    /// Handles one input of a session.
    ///
    /// A transcript may already be on its way when the final commit is sent, so
    /// a commit that comes in does not end the session: it keeps draining for the
    /// bounded completion window so that a later final segment is not dropped.
    pub fn run_session(self, input: SessionInput) -> (res: SessionStep)
        requires
            input matches SessionInput::Audio(pcm) ==> encoding::base64_len(pcm@.len())
                <= isize::MAX,
        ensures
            res@ == self.following(input),
    {
        match (self, input) {
            (SessionState::Connecting, SessionInput::Connect(result)) => match result {
                ConnectResult::Connected => quiet(SessionState::Streaming { audio_closed: false }),
                ConnectResult::BadEndpoint => failed(RealtimeError::InvalidEndpoint),
                ConnectResult::BadKey => failed(RealtimeError::InvalidApiKey),
                ConnectResult::Refused => failed(RealtimeError::ConnectionFailed),
            },
            (SessionState::Streaming { .. }, SessionInput::Finalize) => {
                let empty: Vec<u8> = Vec::new();
                sending(SessionState::Committing, &empty, true)
            },
            (SessionState::Streaming { audio_closed: false }, SessionInput::Audio(pcm)) => sending(
                SessionState::Sending,
                &pcm,
                false,
            ),
            (SessionState::Streaming { .. }, SessionInput::AudioClosed) => quiet(
                SessionState::Streaming { audio_closed: true },
            ),
            (SessionState::Streaming { .. }, SessionInput::Socket(input)) => socket(self, input),
            (SessionState::Sending, SessionInput::Send(result)) => match result {
                SendResult::Sent => quiet(SessionState::Streaming { audio_closed: false }),
                SendResult::Failed | SendResult::TimedOut => failed(
                    RealtimeError::WebSocketFailed,
                ),
            },
            (SessionState::Committing, SessionInput::Send(result)) => match result {
                SendResult::Sent => quiet(SessionState::Draining),
                SendResult::Failed => failed(RealtimeError::WebSocketFailed),
                SendResult::TimedOut => completed(),
            },
            (SessionState::Draining, SessionInput::Socket(input)) => socket(self, input),
            (SessionState::Draining, SessionInput::Deadline) => completed(),
            _ => quiet(self),
        }
    }
}

fn quiet(state: SessionState) -> (res: SessionStep)
    ensures
        res@ == SessionView::quiet(state),
{
    SessionStep { state, events: Vec::new(), send: None }
}

fn failed(error: RealtimeError) -> (res: SessionStep)
    ensures
        res@ == SessionView::end(realtime::failing(error@)),
{
    SessionStep { state: SessionState::Ended, events: realtime::emit_error(error), send: None }
}

fn completed() -> (res: SessionStep)
    ensures
        res@ == SessionView::end(seq![realtime::EventView::Completed]),
{
    let res = SessionStep {
        state: SessionState::Ended,
        events: vec![RealtimeEvent::Completed],
        send: None,
    };
    assert(realtime::event_views(res.events@) == seq![realtime::EventView::Completed]);
    res
}

fn sending(state: SessionState, pcm: &Vec<u8>, commit: bool) -> (res: SessionStep)
    requires
        encoding::base64_len(pcm@.len()) <= isize::MAX,
    ensures
        res@ == SessionView::sending(state, realtime::audio_message(pcm@, commit)),
{
    let send = match realtime::serialize_audio_chunk(pcm.as_slice(), commit) {
        Ok(message) => Some(message),
        Err(_) => None,
    };
    SessionStep { state, events: Vec::new(), send }
}

fn socket(state: SessionState, input: SocketInput) -> (res: SessionStep)
    ensures
        res@ == state.after_socket(input),
{
    let (events, outcome) = realtime::handle_socket_message(input);
    let next = if matches!(outcome, SocketOutcome::Ended) {
        SessionState::Ended
    } else {
        state
    };
    SessionStep { state: next, events, send: None }
}

/// Where a session stands after these inputs, and all the events of it so far.
pub open spec fn after_inputs(inputs: Seq<SessionInput>) -> (
    SessionState,
    Seq<realtime::EventView>,
)
    decreases inputs.len(),
{
    if inputs.len() == 0 {
        (SessionState::Connecting, Seq::empty())
    } else {
        let (state, events) = after_inputs(inputs.drop_last());
        let step = state.following(inputs.last());
        (step.state, events + step.events)
    }
}

/// Completion is the last event of a step that ends a session, and occurs
/// nowhere else.
pub open spec fn completes_when_ended(
    state: SessionState,
    events: Seq<realtime::EventView>,
) -> bool {
    &&& state is Ended ==> events.len() > 0 && events.last() is Completed
    &&& forall|i: int|
        0 <= i < events.len() && (state is Ended ==> i < events.len() - 1) ==> !(
        #[trigger] events[i] is Completed)
}

proof fn lemma_step_completes(state: SessionState, input: SessionInput)
    requires
        !(state is Ended),
    ensures
        completes_when_ended(
            state.following(input).state,
            state.following(input).events,
        ),
{
}

/// Whatever happens, completion is told exactly once, as the very last event,
/// and precisely when the session has ended.
pub proof fn law_completed_is_the_last_event(inputs: Seq<SessionInput>)
    ensures
        completes_when_ended(after_inputs(inputs).0, after_inputs(inputs).1),
    decreases inputs.len(),
{
    if inputs.len() > 0 {
        let before = after_inputs(inputs.drop_last());
        let step = before.0.following(inputs.last());
        law_completed_is_the_last_event(inputs.drop_last());
        let now = after_inputs(inputs);
        if before.0 is Ended {
            assert(now.1 == before.1);
        } else {
            lemma_step_completes(before.0, inputs.last());
            assert forall|i: int|
                0 <= i < now.1.len() && (now.0 is Ended ==> i < now.1.len() - 1) implies !(
            #[trigger] now.1[i] is Completed) by {
                if i < before.1.len() {
                    assert(now.1[i] == before.1[i]);
                } else {
                    assert(now.1[i] == step.events[i - before.1.len()]);
                }
            }
            if now.0 is Ended {
                assert(now.1.last() == step.events.last());
            }
        }
    }
}

/// Once finalization has begun, no more audio is sent, whatever happens.
pub proof fn law_nothing_is_sent_after_the_final_commit(state: SessionState, input: SessionInput)
    requires
        state is Committing || state is Draining || state is Ended,
    ensures
        state.following(input).send is None,
        state.following(input).state is Committing || state.following(input).state is Draining
            || state.following(input).state is Ended,
{
}

/// Every frame goes out as it was captured and without a commit mark, and the
/// final commit carries no audio.
pub proof fn law_what_is_sent(state: SessionState, input: SessionInput)
    ensures
        state.following(input).send matches Some(message) ==> match input {
            SessionInput::Audio(pcm) => message == realtime::audio_message(pcm@, false),
            SessionInput::Finalize => message == realtime::audio_message(Seq::empty(), true),
            _ => false,
        },
{
}

/// A segment that is committed while the session drains is handed on, and the
/// session goes on draining.
pub proof fn law_draining_keeps_late_segments(message: realtime::WireMessage, content: Seq<char>)
    requires
        message.incoming() == realtime::IncomingView::CommittedTranscript(content),
        crate::text::trim(content).len() > 0,
    ensures
        SessionState::Draining.following(
            SessionInput::Socket(SocketInput::Text(Some(message))),
        ) == (SessionView {
            state: SessionState::Draining,
            events: seq![realtime::EventView::CommittedTranscript(content)],
            send: None,
        }),
{
}

/// How a session goes, step by step. It streams once it is connected, each frame of
/// audio and the final commit are sent as they come, and once the commit is sent it
/// drains until the deadline.
pub proof fn law_how_a_session_goes(pcm: Vec<u8>, audio_closed: bool)
    ensures
        ({
            let streaming = SessionState::Streaming { audio_closed };
            let open = SessionState::Streaming { audio_closed: false };
            let connected = SessionState::Connecting.following(
                SessionInput::Connect(ConnectResult::Connected),
            );
            let frame = open.following(SessionInput::Audio(pcm));
            let closed = streaming.following(SessionInput::AudioClosed);
            let commit = streaming.following(SessionInput::Finalize);
            let sent = SessionState::Sending.following(SessionInput::Send(SendResult::Sent));
            let committed = SessionState::Committing.following(
                SessionInput::Send(SendResult::Sent),
            );
            let late = SessionState::Committing.following(
                SessionInput::Send(SendResult::TimedOut),
            );
            let over = SessionState::Draining.following(SessionInput::Deadline);
            &&& connected.state == open && connected.events.len() == 0 && connected.send is None
            &&& frame.state is Sending && frame.events.len() == 0 && frame.send == Some(
                realtime::audio_message(pcm@, false),
            )
            &&& sent.state == open && sent.events.len() == 0 && sent.send is None
            &&& closed.state == (SessionState::Streaming { audio_closed: true })
            &&& closed.events.len() == 0 && closed.send is None
            &&& commit.state is Committing && commit.events.len() == 0 && commit.send == Some(
                realtime::audio_message(Seq::empty(), true),
            )
            &&& committed.state is Draining && committed.events.len() == 0
                && committed.send is None
            &&& late.state is Ended && late.events == seq![realtime::EventView::Completed]
                && late.send is None
            &&& over.state is Ended && over.events == seq![realtime::EventView::Completed]
                && over.send is None
        }),
{
}

/// Whether a step ends a session with an error.
pub open spec fn ends_with(step: SessionView, error: realtime::ErrorView) -> bool {
    &&& step.state is Ended
    &&& step.events == seq![realtime::EventView::Error(error), realtime::EventView::Completed]
    &&& step.send is None
}

/// How a session fails: an endpoint, a key or a connection that does not work, and a
/// frame or the final commit that cannot be sent, each end it with their error.
pub proof fn law_how_a_session_fails(result: SendResult)
    ensures
        ends_with(
            SessionState::Connecting.following(SessionInput::Connect(ConnectResult::BadEndpoint)),
            realtime::ErrorView::InvalidEndpoint,
        ),
        ends_with(
            SessionState::Connecting.following(SessionInput::Connect(ConnectResult::BadKey)),
            realtime::ErrorView::InvalidApiKey,
        ),
        ends_with(
            SessionState::Connecting.following(SessionInput::Connect(ConnectResult::Refused)),
            realtime::ErrorView::ConnectionFailed,
        ),
        !(result is Sent) ==> ends_with(
            SessionState::Sending.following(SessionInput::Send(result)),
            realtime::ErrorView::WebSocketFailed,
        ),
        ends_with(
            SessionState::Committing.following(SessionInput::Send(SendResult::Failed)),
            realtime::ErrorView::WebSocketFailed,
        ),
{
}

/// What comes in is handed on while a session streams and while it drains, and only
/// what ends the socket ends the session.
pub proof fn law_what_comes_in_is_handed_on(state: SessionState, input: SocketInput)
    requires
        state is Streaming || state is Draining,
    ensures
        ({
            let step = state.following(SessionInput::Socket(input));
            &&& step.events == input.effect().0
            &&& step.send is None
            &&& input.effect().1 is Ended ==> step.state is Ended
            &&& !(input.effect().1 is Ended) ==> step.state == state
        }),
{
}

/// Whether an input belongs to the state that a session is in.
pub open spec fn belongs(state: SessionState, input: SessionInput) -> bool {
    match state {
        SessionState::Connecting => input is Connect,
        SessionState::Streaming { audio_closed } => input is Finalize || input is AudioClosed
            || input is Socket || input is Audio && !audio_closed,
        SessionState::Sending | SessionState::Committing => input is Send,
        SessionState::Draining => input is Socket || input is Deadline,
        SessionState::Ended => false,
    }
}

/// An input that does not belong to the state changes nothing.
pub proof fn law_other_inputs_change_nothing(state: SessionState, input: SessionInput)
    requires
        !belongs(state, input),
    ensures
        state.following(input).state == state,
        state.following(input).events.len() == 0,
        state.following(input).send is None,
{
}

} // verus!
