use vstd::prelude::*;

use crate::chat::{opt_view, ChatDelta, JsonResponse};
use crate::parsing::{lemma_plain_text_passes_through, lemma_scan_split, lemma_scan_wf, parse_json_from_stream, scan, JsonState, ScanState};

verus! {

/// What the event source delivered, once a message has been told apart from the
/// end sentinel and decoded.
#[derive(Debug)]
pub enum StreamEvent {
    /// The connection is established.
    Open,
    /// A message whose payload is the end sentinel.
    Done,
    /// A decoded message, with the delta of its first choice.
    Delta(Option<ChatDelta>),
    /// The transport failed, or a payload could not be decoded.
    Failed,
}

/// What the driver of the event source does next.
#[derive(Debug, Copy, Clone, PartialEq, Eq, Structural)]
pub enum StreamAction {
    /// Read the next event.
    Continue,
    /// Close the source and return the result.
    Close,
    /// Close the source and report the failure.
    Abort,
}

/// Why a streaming call is refused before any event is read.
#[derive(Debug, Copy, Clone, PartialEq, Eq, Structural)]
pub enum StreamError {
    /// The request was not configured for streaming.
    StreamNotEnabled,
}

/// The consumer of one streamed answer: the extractor's state, the narration so far,
/// the object found, and whether the source is to be read no more.
#[derive(Debug)]
pub struct StreamSession {
    state: JsonState,
    antecedent: String,
    json: Option<String>,
    closed: bool,
}

/// Mathematical model of a [`StreamSession`].
pub struct SessionView {
    pub state: ScanState,
    pub antecedent: Seq<char>,
    pub json: Option<Seq<char>>,
    pub closed: bool,
}

impl SessionView {
    /// The extractor's state is well formed, and an object found ends the session
    /// with the extractor idle.
    pub open spec fn wf(self) -> bool {
        &&& self.state.wf()
        &&& self.json is Some ==> self.closed && self.state == ScanState::Idle
    }
}

/// A session before any event.
pub open spec fn fresh() -> SessionView {
    SessionView { state: ScanState::Idle, antecedent: Seq::empty(), json: None, closed: false }
}

/// A content fragment fed to a session: ignored once the session is closed; else the
/// extractor reads it, its narration is appended, and an object found closes the
/// session.
pub open spec fn feed(v: SessionView, fragment: Seq<char>) -> SessionView {
    if v.closed {
        v
    } else {
        let r = scan(v.state, fragment);
        SessionView {
            state: r.0,
            antecedent: v.antecedent + r.2,
            json: r.1,
            closed: r.1 is Some,
        }
    }
}

/// Fragments fed one after the other.
pub open spec fn feed_all(v: SessionView, fragments: Seq<Seq<char>>) -> SessionView
    decreases fragments.len(),
{
    if fragments.len() == 0 {
        v
    } else {
        feed(feed_all(v, fragments.drop_last()), fragments.last())
    }
}

/// The session after an event, and what the driver does next.
pub open spec fn on_event_spec(v: SessionView, e: StreamEvent) -> (SessionView, StreamAction) {
    if v.closed {
        (v, StreamAction::Close)
    } else {
        match e {
            StreamEvent::Open => (v, StreamAction::Continue),
            StreamEvent::Done => (SessionView { closed: true, ..v }, StreamAction::Close),
            StreamEvent::Delta(Some(ChatDelta::Content(s))) => {
                let w = feed(v, s@);
                (w, if w.closed { StreamAction::Close } else { StreamAction::Continue })
            },
            StreamEvent::Delta(_) => (v, StreamAction::Continue),
            StreamEvent::Failed => (SessionView { closed: true, ..v }, StreamAction::Abort),
        }
    }
}

impl View for StreamSession {
    type V = SessionView;

    closed spec fn view(&self) -> SessionView {
        SessionView {
            state: self.state@,
            antecedent: self.antecedent@,
            json: opt_view(self.json),
            closed: self.closed,
        }
    }
}

/// Tells whether a message payload is the end sentinel.
pub fn is_done_payload(payload: &str) -> (r: bool)
    ensures
        r == (payload@ == "[DONE]"@),
{
    let n = payload.unicode_len();
    let sentinel = "[DONE]";
    let m = sentinel.unicode_len();
    if n != m {
        return false;
    }
    let mut i: usize = 0;
    while i < n
        invariant
            n == payload@.len(),
            m == sentinel@.len(),
            n == m,
            i <= n,
            sentinel@ == "[DONE]"@,
            forall|j: int| 0 <= j < i ==> payload@[j] == sentinel@[j],
        decreases n - i,
    {
        if payload.get_char(i) != sentinel.get_char(i) {
            return false;
        }
        i = i + 1;
    }
    assert(payload@ =~= sentinel@);
    true
}

impl StreamSession {
    /// See [`SessionView::wf`].
    pub open spec fn wf(&self) -> bool {
        self@.wf()
    }

    /// Opens a session for a request; refused unless the request streams.
    pub fn start(stream: bool) -> (r: Result<StreamSession, StreamError>)
        ensures
            stream ==> (r matches Ok(s) && s@ == fresh() && s.wf()),
            !stream ==> r == Err::<StreamSession, StreamError>(StreamError::StreamNotEnabled),
    {
        if !stream {
            return Err(StreamError::StreamNotEnabled);
        }
        Ok(StreamSession {
            state: JsonState::Idle,
            antecedent: String::new(),
            json: None,
            closed: false,
        })
    }

    /// Whether the source is to be read no more.
    pub fn is_closed(&self) -> (r: bool)
        ensures
            r == self@.closed,
    {
        self.closed
    }

    /// Feeds one content fragment.
    pub fn feed(&mut self, fragment: &str)
        requires
            old(self).wf(),
        ensures
            final(self).wf(),
            final(self)@ == feed(old(self)@, fragment@),
    {
        if self.closed {
            return;
        }
        let mut st = JsonState::Idle;
        std::mem::swap(&mut st, &mut self.state);
        let (next, json, filtered) = parse_json_from_stream(fragment, st);
        proof {
            lemma_scan_wf(old(self)@.state, fragment@);
        }
        self.state = next;
        self.antecedent.append(filtered.as_str());
        self.closed = json.is_some();
        self.json = json;
    }

    /// Takes one event and says what the driver does next. Once the session is
    /// closed, every event leaves it as it is and the answer is to close.
    pub fn on_event(&mut self, event: StreamEvent) -> (r: StreamAction)
        requires
            old(self).wf(),
        ensures
            final(self).wf(),
            (final(self)@, r) == on_event_spec(old(self)@, event),
    {
        if self.closed {
            return StreamAction::Close;
        }
        match event {
            StreamEvent::Open => StreamAction::Continue,
            StreamEvent::Done => {
                self.closed = true;
                StreamAction::Close
            },
            StreamEvent::Delta(Some(ChatDelta::Content(s))) => {
                self.feed(s.as_str());
                if self.closed {
                    StreamAction::Close
                } else {
                    StreamAction::Continue
                }
            },
            StreamEvent::Delta(_) => StreamAction::Continue,
            StreamEvent::Failed => {
                self.closed = true;
                StreamAction::Abort
            },
        }
    }

    /// The narration gathered and the object found, if any.
    pub fn finish(self) -> (r: JsonResponse)
        ensures
            r.antecedent@ == self@.antecedent,
            opt_view(r.json) == self@.json,
    {
        JsonResponse { antecedent: self.antecedent, json: self.json }
    }
}

/// Two fragments fed one after the other leave a session as their concatenation does.
pub proof fn lemma_feed_concat(v: SessionView, a: Seq<char>, b: Seq<char>)
    ensures
        feed(feed(v, a), b) == feed(v, a + b),
{
    if !v.closed {
        lemma_scan_split(v.state, a, b);
        let r = scan(v.state, a);
        if r.1 is None {
            let q = scan(r.0, b);
            assert(v.antecedent + r.2 + q.2 =~= v.antecedent + (r.2 + q.2));
        }
    }
}

/// However a text is cut into fragments, the session ends in the same state, with
/// the same narration and the same object, as when the text comes whole.
pub proof fn lemma_chunk_invariance(v: SessionView, fragments: Seq<Seq<char>>)
    requires
        v.wf(),
    ensures
        feed_all(v, fragments) == feed(v, fragments.flatten()),
    decreases fragments.len(),
{
    fragments.lemma_flatten_and_flatten_alt_are_equivalent();
    if fragments.len() == 0 {
        assert(feed(v, Seq::<char>::empty()).antecedent =~= v.antecedent);
        if !v.closed {
            assert(feed(v, Seq::<char>::empty()) == v);
        }
    } else {
        let init = fragments.drop_last();
        lemma_chunk_invariance(v, init);
        init.lemma_flatten_and_flatten_alt_are_equivalent();
        lemma_feed_concat(v, init.flatten(), fragments.last());
    }
}

/// Once an object has been found, later fragments change nothing: a session yields
/// at most one object.
pub proof fn lemma_single_object(v: SessionView, fragments: Seq<Seq<char>>)
    requires
        v.wf(),
        v.json is Some,
    ensures
        feed_all(v, fragments) == v,
    decreases fragments.len(),
{
    if fragments.len() > 0 {
        lemma_single_object(v, fragments.drop_last());
    }
}

/// The events that a session takes in order, while the driver keeps reading.
pub open spec fn run_events(v: SessionView, events: Seq<StreamEvent>) -> SessionView
    decreases events.len(),
{
    if events.len() == 0 {
        v
    } else {
        on_event_spec(run_events(v, events.drop_last()), events.last()).0
    }
}

/// The end sentinel closes the session whatever the extractor's state, and from
/// then on every event leaves it as it is and is answered by closing.
pub proof fn lemma_done_ends_session(v: SessionView, later: Seq<StreamEvent>)
    ensures
        on_event_spec(v, StreamEvent::Done).1 == StreamAction::Close,
        on_event_spec(v, StreamEvent::Done).0.closed,
        run_events(on_event_spec(v, StreamEvent::Done).0, later) == on_event_spec(
            v,
            StreamEvent::Done,
        ).0,
        forall|i: int|
            0 <= i < later.len() ==> on_event_spec(
                run_events(on_event_spec(v, StreamEvent::Done).0, later.take(i)),
                later[i],
            ).1 == StreamAction::Close,
    decreases later.len(),
{
    let w = on_event_spec(v, StreamEvent::Done).0;
    if later.len() > 0 {
        lemma_done_ends_session(v, later.drop_last());
        assert forall|i: int| 0 <= i < later.len() implies on_event_spec(
            run_events(w, later.take(i)),
            later[i],
        ).1 == StreamAction::Close by {
            if i < later.len() - 1 {
                assert(later.take(i) =~= later.drop_last().take(i));
                assert(later[i] == later.drop_last()[i]);
            } else {
                assert(later.take(i) =~= later.drop_last());
            }
        }
    }
}

/// Prose without an opening brace, fed to a fresh session in any fragments, comes out
/// as the narration unchanged, and no object is found.
pub proof fn lemma_plain_prose_passes_through(fragments: Seq<Seq<char>>)
    requires
        forall|i: int, j: int|
            0 <= i < fragments.len() && 0 <= j < fragments[i].len() ==> fragments[i][j] != '{',
    ensures
        feed_all(fresh(), fragments).antecedent == fragments.flatten(),
        feed_all(fresh(), fragments).json is None,
{
    lemma_chunk_invariance(fresh(), fragments);
    lemma_no_brace_in_flatten(fragments);
    lemma_plain_text_passes_through(ScanState::Idle, fragments.flatten());
    assert(Seq::<char>::empty() + fragments.flatten() =~= fragments.flatten());
}

proof fn lemma_no_brace_in_flatten(fragments: Seq<Seq<char>>)
    requires
        forall|i: int, j: int|
            0 <= i < fragments.len() && 0 <= j < fragments[i].len() ==> fragments[i][j] != '{',
    ensures
        forall|k: int| 0 <= k < fragments.flatten().len() ==> fragments.flatten()[k] != '{',
    decreases fragments.len(),
{
    fragments.lemma_flatten_and_flatten_alt_are_equivalent();
    if fragments.len() > 0 {
        let init = fragments.drop_last();
        lemma_no_brace_in_flatten(init);
        init.lemma_flatten_and_flatten_alt_are_equivalent();
        let f = init.flatten();
        let l = fragments.last();
        assert forall|k: int| 0 <= k < (f + l).len() implies (f + l)[k] != '{' by {
            if k >= f.len() {
                assert((f + l)[k] == l[k - f.len()]);
                assert(fragments[fragments.len() - 1] == l);
            }
        }
    }
}

} // verus!
