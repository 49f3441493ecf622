//! One generation session as a state machine: the caller performs the network
//! and storage work that each step asks for and feeds back what happened; the
//! session decides which events the user interface receives, and in what order.
use vstd::prelude::*;
use vstd::string::StringExecFns;
use crate::context::{ChatContext, ContextStats, ContextView, added, added_all, room_for_text, empty_context, lemma_added_all_stuck};
use crate::message::{ChatMessage, FollowUpSuggestion, same_text, copy_message};
use crate::decoder::{Frame, FrameDecoder, frame_of};
use crate::followup::{extract_follow_ups, follow_up_texts};

verus! {

/// Where a session stands.
#[derive(Debug, Clone, Copy, PartialEq, Eq, Structural)]
pub enum Phase {
    /// The new user message is being stored before anything is sent.
    Building,
    /// The request is out; the connection is not yet established.
    AwaitingResponse,
    /// Response bytes are arriving.
    Streaming,
    /// The reply is complete; its storage and the suggestions are under way.
    Finishing,
    Completed,
    Cancelled,
    Failed,
}

/// Whether no further event can come from a session in phase `p`.
pub open spec fn is_terminal(p: Phase) -> bool {
    p == Phase::Completed || p == Phase::Cancelled || p == Phase::Failed
}

/// What the user interface is told about a session.
#[derive(Debug)]
pub enum GenerationEvent {
    Delta { text: String },
    ContextUpdate { stats: ContextStats },
    Complete { final_text: String, follow_ups: Vec<FollowUpSuggestion> },
    Cancelled,
    Error { message: String },
}

/// What a step asks its caller to do, in the order given.
#[derive(Debug)]
pub enum Effect {
    /// Deliver an event to the session's instance.
    Emit(GenerationEvent),
    /// Store the user's message, then report with `SessionInput::UserPersisted`.
    PersistUser(ChatMessage),
    /// Send the generation request built from the session's messages, then
    /// report with `SessionInput::Connected`.
    SendRequest,
    /// Store the assistant's reply.
    PersistAssistant(String),
    /// Ask the model for follow-up questions about the reply; report its
    /// answer, with the storage outcome, in `SessionInput::Finished`.
    RequestFollowUps(String),
    /// Note a failure that does not end the session.
    Report(String),
}

/// What the caller reports back to a session.
#[derive(Debug)]
pub enum SessionInput {
    UserPersisted(Result<(), String>),
    Connected(Result<(), String>),
    Chunk(Vec<u8>),
    StreamEnd,
    ReadError(String),
    Cancel,
    Finished { persisted: Option<Result<(), String>>, follow_ups: Result<String, String> },
}

/// The abstract state of a [`Session`].
pub ghost struct SessionView {
    pub phase: Phase,
    pub context: ContextView,
    pub buffer: Seq<u8>,
    pub reply: Seq<char>,
    pub persist: bool,
}

/// One request/response exchange with the model server.
#[derive(Debug)]
pub struct Session {
    phase: Phase,
    context: ChatContext,
    decoder: FrameDecoder,
    reply: String,
    persist: bool,
}

impl View for Session {
    type V = SessionView;

    closed spec fn view(&self) -> SessionView {
        SessionView {
            phase: self.phase,
            context: self.context@,
            buffer: self.decoder@,
            reply: self.reply@,
            persist: self.persist,
        }
    }
}

/// Whether `e` delivers an error event with text `msg`.
pub open spec fn emits_error(e: Effect, msg: Seq<char>) -> bool {
    e matches Effect::Emit(GenerationEvent::Error { message }) && message@ == msg
}

/// Whether `e` delivers the figures of a context in state `v`.
pub open spec fn emits_stats(e: Effect, v: ContextView) -> bool {
    e matches Effect::Emit(GenerationEvent::ContextUpdate { stats }) && ChatContext::stats_of(v, stats)
}

/// Whether `m` is the assistant message that records `reply`.
pub open spec fn is_reply_message(m: ChatMessage, reply: Seq<char>) -> bool {
    &&& m.id is None
    &&& m.role@ == "assistant"@
    &&& m.content@ == reply
    &&& m.is_pinned == Some(false)
    &&& m.system_prompt_type is None
}

/// Whether `m` is the system message that carries `prompt`.
pub open spec fn is_system_message(m: ChatMessage, prompt: Seq<char>) -> bool {
    &&& m.id is None
    &&& m.role@ == "system"@
    &&& m.content@ == prompt
    &&& m.is_pinned == Some(false)
    &&& m.system_prompt_type is None
}

/// The effects that close the stream of a session whose reply is `reply`:
/// store it when storage is configured, then ask for suggestions.
pub open spec fn finishing_effects(effects: Seq<Effect>, reply: Seq<char>, persist: bool) -> bool {
    if persist {
        &&& effects.len() == 2
        &&& effects[0] matches Effect::PersistAssistant(t) && t@ == reply
        &&& effects[1] matches Effect::RequestFollowUps(t) && t@ == reply
    } else {
        &&& effects.len() == 1
        &&& effects[0] matches Effect::RequestFollowUps(t) && t@ == reply
    }
}

/// The unpinned system message that carries `prompt`.
pub fn system_message(prompt: String) -> (r: ChatMessage)
    ensures
        is_system_message(r, prompt@),
{
    ChatMessage {
        id: None,
        role: String::from_str("system"),
        content: prompt,
        is_pinned: Some(false),
        system_prompt_type: None,
    }
}

/// The messages a session is seeded with before the new one: the system
/// prompt, if any, then the stored history, oldest first.
pub fn seed_messages(system_prompt: Option<String>, history: Vec<ChatMessage>) -> (r: Vec<ChatMessage>)
    ensures
        system_prompt matches Some(p) ==> r@.len() == history@.len() + 1 && is_system_message(r@[0], p@)
            && r@.drop_first() == history@,
        system_prompt is None ==> r@ == history@,
{
    match system_prompt {
        Some(p) => {
            let mut r: Vec<ChatMessage> = Vec::new();
            r.push(system_message(p));
            let mut rest = history;
            r.append(&mut rest);
            assert(r@.drop_first() =~= history@);
            r
        },
        None => history,
    }
}


/// The content and final flag of a decoded frame.
pub open spec fn frame_view(f: Option<Frame>) -> Option<(Seq<char>, bool)> {
    match f {
        Some(fr) => Some((fr.content@, fr.done)),
        None => None,
    }
}

/// Whether `fu` are the suggestions with texts `texts`.
pub open spec fn suggestions_are(fu: Seq<FollowUpSuggestion>, texts: Seq<Seq<char>>) -> bool {
    &&& fu.len() == texts.len()
    &&& forall|i: int| 0 <= i < fu.len() ==> (#[trigger] fu[i]).text@ == texts[i] && fu[i].type_@ == "context"@
}

/// What a streaming session in state `old` does with the decoded frame `f`
/// (content and final flag), reaching `new` and asking for `effects`.
pub open spec fn frame_step(
    old: SessionView,
    f: Option<(Seq<char>, bool)>,
    new: SessionView,
    effects: Seq<Effect>,
) -> bool {
    match f {
        None => new == old && effects.len() == 0,
        Some((c, d)) => {
            let reply = old.reply + c;
            &&& new == SessionView {
                phase: if d { Phase::Finishing } else { Phase::Streaming },
                reply,
                ..old
            }
            &&& effects.len() >= 1
            &&& effects[0] matches Effect::Emit(GenerationEvent::Delta { text }) && text@ == c
            &&& if d {
                finishing_effects(effects.drop_first(), reply, old.persist)
            } else {
                effects.len() == 1
            }
        },
    }
}

/// What a finishing session in state `old` does once the reply's storage
/// outcome `persisted` and the suggestion answer `follow_ups` are known.
pub open spec fn finish_step(
    old: SessionView,
    persisted: Option<Result<(), String>>,
    follow_ups: Result<String, String>,
    new: SessionView,
    effects: Seq<Effect>,
) -> bool {
    if !room_for_text(old.context, old.reply) {
        &&& new.phase == Phase::Failed
        &&& effects.len() == 1
        &&& effects[0] matches Effect::Emit(GenerationEvent::Error { .. })
    } else {
        let m = new.context.messages.last();
        let stored_failed = persisted matches Some(Err(_));
        let k: int = (if stored_failed { 1int } else { 0int }) + (if follow_ups is Err { 1int } else { 0int });
        &&& is_reply_message(m, old.reply)
        &&& new == SessionView { phase: Phase::Completed, context: added(old.context, m), ..old }
        &&& effects.len() == k + 2
        &&& (persisted matches Some(Err(e)) ==> effects[0] matches Effect::Report(t) && t == e)
        &&& (follow_ups matches Err(e) ==> effects[k - 1] matches Effect::Report(t) && t == e)
        &&& emits_stats(effects[k], new.context)
        &&& effects[k + 1] matches Effect::Emit(GenerationEvent::Complete { final_text, follow_ups: fu })
            && final_text@ == old.reply && suggestions_are(
            fu@,
            match follow_ups {
                Ok(text) => follow_up_texts(text@),
                Err(_) => Seq::empty(),
            },
        )
    }
}

/// The step relation of a session: from state `old`, `input` leads to state
/// `new` and asks for `effects`. Inputs that the phase does not expect change
/// nothing; a finished session stays silent.
pub open spec fn session_step(old: SessionView, input: SessionInput, new: SessionView, effects: Seq<Effect>) -> bool {
    let nothing = new == old && effects.len() == 0;
    match old.phase {
        Phase::Building => match input {
            SessionInput::UserPersisted(Ok(())) => new == SessionView { phase: Phase::AwaitingResponse, ..old }
                && effects.len() == 1 && effects[0] is SendRequest,
            SessionInput::UserPersisted(Err(e)) => new == SessionView { phase: Phase::Failed, ..old }
                && effects.len() == 1 && emits_error(effects[0], e@),
            _ => nothing,
        },
        Phase::AwaitingResponse => match input {
            SessionInput::Connected(Ok(())) => new == SessionView { phase: Phase::Streaming, ..old }
                && effects.len() == 0,
            SessionInput::Connected(Err(e)) => new == SessionView { phase: Phase::Failed, ..old }
                && effects.len() == 1 && emits_error(effects[0], e@),
            _ => nothing,
        },
        Phase::Streaming => match input {
            SessionInput::Chunk(bytes) => {
                let b = old.buffer + bytes@;
                let f = frame_of(b);
                frame_step(
                    SessionView { buffer: if f is Some { Seq::empty() } else { b }, ..old },
                    f,
                    new,
                    effects,
                )
            },
            SessionInput::StreamEnd => new == SessionView { phase: Phase::Finishing, ..old }
                && finishing_effects(effects, old.reply, old.persist),
            SessionInput::ReadError(e) => new == SessionView { phase: Phase::Failed, ..old }
                && effects.len() == 1 && emits_error(effects[0], e@),
            SessionInput::Cancel => new == SessionView { phase: Phase::Cancelled, ..old }
                && effects.len() == 1 && effects[0] matches Effect::Emit(GenerationEvent::Cancelled),
            _ => nothing,
        },
        Phase::Finishing => match input {
            SessionInput::Finished { persisted, follow_ups } => finish_step(
                old,
                persisted,
                follow_ups,
                new,
                effects,
            ),
            _ => nothing,
        },
        _ => nothing,
    }
}

/// Whether `states` and `effects` record a run of a session that starts in
/// `states[0]` and is fed `inputs` one by one.
pub open spec fn is_run(inputs: Seq<SessionInput>, states: Seq<SessionView>, effects: Seq<Seq<Effect>>) -> bool {
    &&& states.len() == inputs.len() + 1
    &&& effects.len() == inputs.len()
    &&& forall|i: int|
        0 <= i < inputs.len() ==> session_step(states[i], #[trigger] inputs[i], states[i + 1], effects[i])
}

/// Once a session has finished it stays as it is and asks for nothing more:
/// its terminal event is its last.
pub proof fn lemma_finished_session_is_silent(
    inputs: Seq<SessionInput>,
    states: Seq<SessionView>,
    effects: Seq<Seq<Effect>>,
    i: int,
)
    requires
        is_run(inputs, states, effects),
        0 <= i < states.len(),
        is_terminal(states[i].phase),
    ensures
        forall|j: int| i <= j < states.len() ==> #[trigger] states[j] == states[i],
        forall|j: int| i <= j < effects.len() ==> (#[trigger] effects[j]).len() == 0,
    decreases states.len() - i,
{
    if i + 1 < states.len() {
        assert(session_step(states[i], inputs[i], states[i + 1], effects[i]));
        lemma_finished_session_is_silent(inputs, states, effects, i + 1);
    }
}

/// A cancel that reaches a streaming session yields exactly one `Cancelled`
/// event and nothing else, ever: no completion and no storage of the partial
/// reply.
pub proof fn lemma_cancel_ends_session(
    inputs: Seq<SessionInput>,
    states: Seq<SessionView>,
    effects: Seq<Seq<Effect>>,
)
    requires
        is_run(inputs, states, effects),
        inputs.len() > 0,
        states[0].phase == Phase::Streaming,
        inputs[0] is Cancel,
    ensures
        effects[0].len() == 1,
        effects[0][0] matches Effect::Emit(GenerationEvent::Cancelled),
        states[1].phase == Phase::Cancelled,
        forall|j: int| 1 <= j < effects.len() ==> (#[trigger] effects[j]).len() == 0,
{
    assert(session_step(states[0], inputs[0], states[1], effects[0]));
    lemma_finished_session_is_silent(inputs, states, effects, 1);
}

/// A stream that closes without a final frame still completes: once the
/// storage outcome and suggestion answer are in, the session is over, and
/// unless the reply cannot be measured, its last event is `Complete` with the
/// accumulated reply.
pub proof fn lemma_clean_close_completes(
    old: SessionView,
    mid: SessionView,
    e1: Seq<Effect>,
    persisted: Option<Result<(), String>>,
    follow_ups: Result<String, String>,
    new: SessionView,
    e2: Seq<Effect>,
)
    requires
        old.phase == Phase::Streaming,
        session_step(old, SessionInput::StreamEnd, mid, e1),
        session_step(mid, SessionInput::Finished { persisted, follow_ups }, new, e2),
    ensures
        mid.phase == Phase::Finishing,
        e1.last() matches Effect::RequestFollowUps(t) && t@ == old.reply,
        is_terminal(new.phase),
        e2.len() > 0,
        room_for_text(old.context, old.reply) ==> new.phase == Phase::Completed
            && (e2.last() matches Effect::Emit(GenerationEvent::Complete { final_text, .. })
            && final_text@ == old.reply),
{
}

/// Whether `e` delivers an event that ends a session.
pub open spec fn is_final_event(e: Effect) -> bool {
    ||| e matches Effect::Emit(GenerationEvent::Complete { .. })
    ||| e matches Effect::Emit(GenerationEvent::Cancelled)
    ||| e matches Effect::Emit(GenerationEvent::Error { .. })
}

/// How many of `effects` deliver an ending event.
pub open spec fn final_events(effects: Seq<Effect>) -> nat
    decreases effects.len(),
{
    if effects.len() == 0 {
        0
    } else {
        final_events(effects.drop_last()) + if is_final_event(effects.last()) { 1nat } else { 0nat }
    }
}

/// How many ending events a whole run delivers.
pub open spec fn run_final_events(effects: Seq<Seq<Effect>>) -> nat
    decreases effects.len(),
{
    if effects.len() == 0 {
        0
    } else {
        run_final_events(effects.drop_last()) + final_events(effects.last())
    }
}

spec fn final_at(s: Seq<Effect>, i: int) -> nat {
    if 0 <= i < s.len() && is_final_event(s[i]) {
        1
    } else {
        0
    }
}

proof fn lemma_final_events_small(s: Seq<Effect>)
    requires
        s.len() <= 4,
    ensures
        final_events(s) == final_at(s, 0) + final_at(s, 1) + final_at(s, 2) + final_at(s, 3),
    decreases s.len(),
{
    if s.len() > 0 {
        let d = s.drop_last();
        lemma_final_events_small(d);
        assert forall|i: int| 0 <= i < d.len() implies d[i] == s[i] by {}
        assert(final_at(d, 0) + final_at(d, 1) + final_at(d, 2) + final_at(d, 3) + final_at(s, s.len() - 1)
            == final_at(s, 0) + final_at(s, 1) + final_at(s, 2) + final_at(s, 3));
    }
}

/// Each step delivers an ending event exactly when it ends the session, and
/// a finished session does not move.
proof fn lemma_step_final_events(old: SessionView, input: SessionInput, new: SessionView, effects: Seq<Effect>)
    requires
        session_step(old, input, new, effects),
    ensures
        final_events(effects) == (if !is_terminal(old.phase) && is_terminal(new.phase) { 1nat } else { 0nat }),
        is_terminal(old.phase) ==> new == old,
{
    lemma_final_events_small(effects);
    if old.phase == Phase::Streaming {
        if let SessionInput::Chunk(bytes) = input {
            let b = old.buffer + bytes@;
            if frame_of(b) is Some && effects.len() > 1 {
                assert(effects.drop_first()[0] == effects[1]);
                if effects.len() > 2 {
                    assert(effects.drop_first()[1] == effects[2]);
                }
            }
        }
    }
}

proof fn lemma_prefix_final_events(
    inputs: Seq<SessionInput>,
    states: Seq<SessionView>,
    effects: Seq<Seq<Effect>>,
    i: int,
)
    requires
        is_run(inputs, states, effects),
        0 <= i <= inputs.len(),
    ensures
        run_final_events(effects.take(i)) == (if !is_terminal(states[0].phase) && is_terminal(states[i].phase) {
            1nat
        } else {
            0nat
        }),
        is_terminal(states[0].phase) ==> states[i] == states[0],
    decreases i,
{
    if i == 0 {
        assert(effects.take(0) =~= Seq::<Seq<Effect>>::empty());
    } else {
        lemma_prefix_final_events(inputs, states, effects, i - 1);
        assert(session_step(states[i - 1], inputs[i - 1], states[i], effects[i - 1]));
        lemma_step_final_events(states[i - 1], inputs[i - 1], states[i], effects[i - 1]);
        assert(effects.take(i).drop_last() =~= effects.take(i - 1));
        assert(effects.take(i).last() == effects[i - 1]);
    }
}

/// A session delivers at most one ending event over any run, and exactly one
/// when the run takes it from a live phase to a finished one.
pub proof fn lemma_one_final_event(inputs: Seq<SessionInput>, states: Seq<SessionView>, effects: Seq<Seq<Effect>>)
    requires
        is_run(inputs, states, effects),
    ensures
        run_final_events(effects) <= 1,
        run_final_events(effects) == 1 <==> (!is_terminal(states[0].phase) && is_terminal(states.last().phase)),
{
    let n = inputs.len() as int;
    lemma_prefix_final_events(inputs, states, effects, n);
    assert(effects.take(n) =~= effects);
}

impl Session {
    /// The context of a live session keeps its own invariant.
    pub closed spec fn wf(&self) -> bool {
        self.context.wf()
    }

    /// A session that failed with `message`.
    fn failed(context: ChatContext, persist: bool, message: &str) -> (r: (Session, Vec<Effect>))
        requires
            context.wf(),
        ensures
            r.0.wf(),
            r.0@.phase == Phase::Failed,
            r.1@.len() == 1,
            r.1@[0] matches Effect::Emit(GenerationEvent::Error { .. }),
    {
        let mut effects: Vec<Effect> = Vec::new();
        effects.push(Effect::Emit(GenerationEvent::Error { message: message.to_owned() }));
        (Session { phase: Phase::Failed, context, decoder: FrameDecoder::new(), reply: String::new(), persist }, effects)
    }

    /// Builds a session for `model`: seeds its context with `seeds` and then
    /// `new_message`, reports the figures when there is a new message, and
    /// asks to store that message first when it is the user's and storage is
    /// configured (`persist`), else to send the request.
    pub fn start(model: &str, seeds: Vec<ChatMessage>, new_message: Option<ChatMessage>, persist: bool) -> (r: (Session, Vec<Effect>))
        ensures
            r.0.wf(),
            ({
                let all = seeds@ + if new_message is Some {
                    seq![new_message->0]
                } else {
                    Seq::<ChatMessage>::empty()
                };
                match added_all(empty_context(model@), all) {
                    None => r.0@.phase == Phase::Failed && r.1@.len() == 1
                        && r.1@[0] matches Effect::Emit(GenerationEvent::Error { .. }),
                    Some(v) => {
                        let store = persist && (new_message matches Some(m) && m.role@ == "user"@);
                        let k: int = if new_message is Some { 1 } else { 0 };
                        &&& r.0@ == SessionView {
                            phase: if store { Phase::Building } else { Phase::AwaitingResponse },
                            context: v,
                            buffer: Seq::empty(),
                            reply: Seq::empty(),
                            persist,
                        }
                        &&& r.1@.len() == k + 1
                        &&& (new_message is Some ==> emits_stats(r.1@[0], v))
                        &&& (store ==> (r.1@[k] matches Effect::PersistUser(m) && m == new_message->0))
                        &&& (!store ==> r.1@[k] is SendRequest)
                    },
                }
            }),
    {
        let ghost tail = if new_message is Some {
            seq![new_message->0]
        } else {
            Seq::<ChatMessage>::empty()
        };
        let ghost all = seeds@ + tail;
        let ghost e = empty_context(model@);
        let mut context = ChatContext::new(model);
        if !context.add_all(&seeds) {
            proof {
                assert(all.take(seeds@.len() as int) =~= seeds@);
                lemma_added_all_stuck(e, all, seeds@.len() as int);
            }
            return Self::failed(context, persist, "the conversation is too large to measure");
        }
        let mut effects: Vec<Effect> = Vec::new();
        let mut store = false;
        match new_message {
            Some(m) => {
                assert(all.drop_last() =~= seeds@);
                if !context.has_room_for(m.content.as_str()) {
                    assert(all.last() == m);
                    return Self::failed(context, persist, "the conversation is too large to measure");
                }
                let stats = context.add_message(copy_message(&m));
                effects.push(Effect::Emit(GenerationEvent::ContextUpdate { stats }));
                if persist && same_text(m.role.as_str(), "user") {
                    store = true;
                    effects.push(Effect::PersistUser(m));
                }
            },
            None => {
                assert(all =~= seeds@);
            },
        }
        if !store {
            effects.push(Effect::SendRequest);
        }
        let phase = if store { Phase::Building } else { Phase::AwaitingResponse };
        (Session { phase, context, decoder: FrameDecoder::new(), reply: String::new(), persist }, effects)
    }
    /// The messages of the session's context, oldest first: the conversation
    /// that the generation request carries.
    pub fn messages(&self) -> (r: &Vec<ChatMessage>)
        ensures
            r@ == self@.context.messages,
    {
        self.context.get_messages()
    }

    /// The current figures of the session's context.
    pub fn stats(&self) -> (r: ContextStats)
        ensures
            ChatContext::stats_of(self@.context, r),
    {
        self.context.get_stats()
    }

    /// Where the session stands.
    pub fn phase(&self) -> (r: Phase)
        ensures
            r == self@.phase,
    {
        self.phase
    }

    /// The reply accumulated so far.
    pub fn reply(&self) -> (r: &String)
        ensures
            r@ == self@.reply,
    {
        &self.reply
    }

    /// Decides what `input` means for the session: see [`session_step`].
    pub fn step(&mut self, input: SessionInput) -> (r: Vec<Effect>)
        requires
            old(self).wf(),
        ensures
            final(self).wf(),
            session_step(old(self)@, input, final(self)@, r@),
    {
        let mut effects: Vec<Effect> = Vec::new();
        match self.phase {
            Phase::Building => match input {
                SessionInput::UserPersisted(Ok(())) => {
                    self.phase = Phase::AwaitingResponse;
                    effects.push(Effect::SendRequest);
                },
                SessionInput::UserPersisted(Err(e)) => {
                    self.phase = Phase::Failed;
                    effects.push(Effect::Emit(GenerationEvent::Error { message: e }));
                },
                _ => {},
            },
            Phase::AwaitingResponse => match input {
                SessionInput::Connected(Ok(())) => {
                    self.phase = Phase::Streaming;
                },
                SessionInput::Connected(Err(e)) => {
                    self.phase = Phase::Failed;
                    effects.push(Effect::Emit(GenerationEvent::Error { message: e }));
                },
                _ => {},
            },
            Phase::Streaming => match input {
                SessionInput::Chunk(bytes) => {
                    let frame = self.decoder.push(bytes.as_slice());
                    return self.accept_frame(frame);
                },
                SessionInput::StreamEnd => {
                    return self.enter_finishing();
                },
                SessionInput::ReadError(e) => {
                    self.phase = Phase::Failed;
                    effects.push(Effect::Emit(GenerationEvent::Error { message: e }));
                },
                SessionInput::Cancel => {
                    self.phase = Phase::Cancelled;
                    effects.push(Effect::Emit(GenerationEvent::Cancelled));
                },
                _ => {},
            },
            Phase::Finishing => match input {
                SessionInput::Finished { persisted, follow_ups } => {
                    return self.finish(persisted, follow_ups);
                },
                _ => {},
            },
            _ => {},
        }
        effects
    }

    /// Handles the outcome of one decoding attempt while streaming: a frame
    /// extends the reply and is passed on as a delta; a final frame closes
    /// the stream.
    pub fn accept_frame(&mut self, frame: Option<Frame>) -> (r: Vec<Effect>)
        requires
            old(self).wf(),
            old(self)@.phase == Phase::Streaming,
        ensures
            final(self).wf(),
            frame_step(old(self)@, frame_view(frame), final(self)@, r@),
    {
        match frame {
            None => Vec::new(),
            Some(f) => {
                self.reply.append(f.content.as_str());
                let mut effects: Vec<Effect> = Vec::new();
                effects.push(Effect::Emit(GenerationEvent::Delta { text: f.content }));
                if f.done {
                    let mut rest = self.enter_finishing();
                    let ghost closing = rest@;
                    effects.append(&mut rest);
                    assert(effects@.drop_first() =~= closing);
                }
                effects
            },
        }
    }

    fn enter_finishing(&mut self) -> (r: Vec<Effect>)
        requires
            old(self).wf(),
        ensures
            final(self).wf(),
            final(self)@ == (SessionView { phase: Phase::Finishing, ..old(self)@ }),
            finishing_effects(r@, old(self)@.reply, old(self)@.persist),
    {
        self.phase = Phase::Finishing;
        let mut effects: Vec<Effect> = Vec::new();
        if self.persist {
            effects.push(Effect::PersistAssistant(self.reply.clone()));
        }
        effects.push(Effect::RequestFollowUps(self.reply.clone()));
        effects
    }

    fn finish(&mut self, persisted: Option<Result<(), String>>, follow_ups: Result<String, String>) -> (r: Vec<Effect>)
        requires
            old(self).wf(),
        ensures
            final(self).wf(),
            finish_step(old(self)@, persisted, follow_ups, final(self)@, r@),
    {
        let mut effects: Vec<Effect> = Vec::new();
        if !self.context.has_room_for(self.reply.as_str()) {
            self.phase = Phase::Failed;
            effects.push(Effect::Emit(GenerationEvent::Error {
                message: String::from_str("the conversation is too large to measure"),
            }));
            return effects;
        }
        match persisted {
            Some(Err(e)) => effects.push(Effect::Report(e)),
            _ => {},
        }
        let suggestions = match follow_ups {
            Ok(text) => extract_follow_ups(text.as_str()),
            Err(e) => {
                effects.push(Effect::Report(e));
                Vec::new()
            },
        };
        let message = ChatMessage {
            id: None,
            role: String::from_str("assistant"),
            content: self.reply.clone(),
            is_pinned: Some(false),
            system_prompt_type: None,
        };
        let stats = self.context.add_message(message);
        effects.push(Effect::Emit(GenerationEvent::ContextUpdate { stats }));
        effects.push(Effect::Emit(GenerationEvent::Complete { final_text: self.reply.clone(), follow_ups: suggestions }));
        self.phase = Phase::Completed;
        effects
    }
}

} // verus!
