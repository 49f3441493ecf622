//! Addressing of session events: every event goes to a channel named after
//! the instance that asked for the session, so that concurrent conversations
//! never see each other's events.
use vstd::prelude::*;
use vstd::string::StringExecFns;
use crate::session::GenerationEvent;

verus! {

/// The fixed start of the channel name for the kind of event `e`.
pub open spec fn channel_prefix(e: GenerationEvent) -> Seq<char> {
    match e {
        GenerationEvent::Delta { .. } => "chat-response-"@,
        GenerationEvent::ContextUpdate { .. } => "context-update-"@,
        GenerationEvent::Complete { .. } => "chat-complete-"@,
        GenerationEvent::Cancelled => "chat-cancelled-"@,
        GenerationEvent::Error { .. } => "chat-error-"@,
    }
}

/// The channel on which instance `instance_id` receives the event `e`.
pub open spec fn channel_name(e: GenerationEvent, instance_id: Seq<char>) -> Seq<char> {
    channel_prefix(e) + instance_id
}

impl GenerationEvent {
    /// The name of the channel that carries this event to `instance_id`.
    pub fn channel(&self, instance_id: &str) -> (r: String)
        ensures
            r@ == channel_name(*self, instance_id@),
    {
        let mut name = match self {
            GenerationEvent::Delta { .. } => String::from_str("chat-response-"),
            GenerationEvent::ContextUpdate { .. } => String::from_str("context-update-"),
            GenerationEvent::Complete { .. } => String::from_str("chat-complete-"),
            GenerationEvent::Cancelled => String::from_str("chat-cancelled-"),
            GenerationEvent::Error { .. } => String::from_str("chat-error-"),
        };
        name.append(instance_id);
        name
    }
}

/// Channel names never collide across instances or kinds: the same name means
/// the same instance and the same kind of event.
pub proof fn lemma_channels_isolate(e1: GenerationEvent, id1: Seq<char>, e2: GenerationEvent, id2: Seq<char>)
    requires
        channel_name(e1, id1) == channel_name(e2, id2),
    ensures
        id1 == id2,
        channel_prefix(e1) == channel_prefix(e2),
{
    reveal_strlit("chat-response-");
    reveal_strlit("context-update-");
    reveal_strlit("chat-complete-");
    reveal_strlit("chat-cancelled-");
    reveal_strlit("chat-error-");
    let p1 = channel_prefix(e1);
    let p2 = channel_prefix(e2);
    let x = channel_name(e1, id1);
    assert(x[1] == p1[1] && x[1] == p2[1]);
    assert(x[5] == p1[5] && x[5] == p2[5]);
    assert(x[6] == p1[6] && x[6] == p2[6]);
    assert(p1 == p2);
    assert(id1 =~= x.subrange(p1.len() as int, x.len() as int));
    assert(id2 =~= x.subrange(p2.len() as int, x.len() as int));
}

} // verus!
