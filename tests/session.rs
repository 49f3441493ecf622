use cortex_chat::decoder::FrameDecoder;
use cortex_chat::followup::{extract_follow_ups, follow_up_prompt};
use cortex_chat::message::ChatMessage;
use cortex_chat::session::{seed_messages, system_message, Effect, GenerationEvent, Phase, Session, SessionInput};

fn msg(role: &str, content: &str) -> ChatMessage {
    ChatMessage { id: None, role: role.into(), content: content.into(), is_pinned: Some(false), system_prompt_type: None }
}

fn frame(content: &str, done: bool) -> Vec<u8> {
    format!("{{\"model\":\"m\",\"message\":{{\"role\":\"assistant\",\"content\":\"{}\"}},\"done\":{}}}\n", content, done).into_bytes()
}

fn streaming(persist: bool) -> Session {
    let (mut s, _) = Session::start("llama2", vec![], Some(msg("assistant", "hi")), persist);
    assert_eq!(s.phase(), Phase::AwaitingResponse);
    assert!(s.step(SessionInput::Connected(Ok(()))).is_empty());
    assert_eq!(s.phase(), Phase::Streaming);
    s
}

#[test]
fn decoder_joins_split_frames() {
    let mut d = FrameDecoder::new();
    let bytes = frame("Hello", false);
    let (a, b) = bytes.split_at(10);
    assert!(d.push(a).is_none());
    assert!(!d.is_empty());
    let f = d.push(b).expect("complete frame");
    assert_eq!(f.content, "Hello");
    assert!(!f.done);
    assert!(d.is_empty());
}

#[test]
fn decoder_waits_on_split_multibyte_character() {
    let mut d = FrameDecoder::new();
    let bytes = frame("é", true);
    let pos = bytes.iter().position(|&b| b == 0xC3).unwrap();
    assert!(d.push(&bytes[..pos + 1]).is_none());
    let f = d.push(&bytes[pos + 1..]).expect("complete frame");
    assert_eq!(f.content, "é");
    assert!(f.done);
}

#[test]
fn decoder_keeps_bytes_that_are_not_a_frame() {
    let mut d = FrameDecoder::new();
    assert!(d.push(b"{\"unrelated\": 1}").is_none());
    assert!(!d.is_empty());
    assert!(d.push(b"").is_none());
}

#[test]
fn start_reports_stats_and_stores_user_message_first() {
    let seeds = seed_messages(Some("be brief".into()), vec![msg("user", "earlier"), msg("assistant", "reply")]);
    assert_eq!(seeds.len(), 3);
    assert_eq!(seeds[0].role, "system");
    assert_eq!(seeds[0].content, "be brief");
    let (s, effects) = Session::start("gemma:2b", seeds, Some(msg("user", "new question")), true);
    assert_eq!(s.phase(), Phase::Building);
    assert_eq!(effects.len(), 2);
    match &effects[0] {
        Effect::Emit(GenerationEvent::ContextUpdate { stats }) => {
            assert_eq!(stats.message_count, 4);
            assert_eq!(stats.max_tokens, 8192);
        }
        other => panic!("unexpected {:?}", other),
    }
    match &effects[1] {
        Effect::PersistUser(m) => assert_eq!(m.content, "new question"),
        other => panic!("unexpected {:?}", other),
    }
    assert_eq!(s.messages().len(), 4);
    assert_eq!(s.messages()[3].content, "new question");
}

#[test]
fn start_without_storage_sends_at_once() {
    let (s, effects) = Session::start("llama2", vec![], Some(msg("user", "q")), false);
    assert_eq!(s.phase(), Phase::AwaitingResponse);
    assert_eq!(effects.len(), 2);
    assert!(matches!(effects[1], Effect::SendRequest));
    let (s2, effects2) = Session::start("llama2", vec![], None, true);
    assert_eq!(s2.phase(), Phase::AwaitingResponse);
    assert_eq!(effects2.len(), 1);
    assert!(matches!(effects2[0], Effect::SendRequest));
}

#[test]
fn failed_user_storage_aborts() {
    let (mut s, _) = Session::start("llama2", vec![], Some(msg("user", "q")), true);
    let effects = s.step(SessionInput::UserPersisted(Err("disk full".into())));
    assert_eq!(s.phase(), Phase::Failed);
    assert!(matches!(&effects[..], [Effect::Emit(GenerationEvent::Error { message })] if message == "disk full"));
}

#[test]
fn stored_user_message_then_request() {
    let (mut s, _) = Session::start("llama2", vec![], Some(msg("user", "q")), true);
    let effects = s.step(SessionInput::UserPersisted(Ok(())));
    assert_eq!(s.phase(), Phase::AwaitingResponse);
    assert!(matches!(&effects[..], [Effect::SendRequest]));
}

#[test]
fn connection_failure_fails_session() {
    let (mut s, _) = Session::start("llama2", vec![], None, false);
    let effects = s.step(SessionInput::Connected(Err("refused".into())));
    assert_eq!(s.phase(), Phase::Failed);
    assert_eq!(effects.len(), 1);
    assert!(s.step(SessionInput::StreamEnd).is_empty());
}

#[test]
fn full_exchange_emits_deltas_stats_then_complete() {
    let mut s = streaming(true);
    let e1 = s.step(SessionInput::Chunk(frame("Hel", false)));
    assert!(matches!(&e1[..], [Effect::Emit(GenerationEvent::Delta { text })] if text == "Hel"));
    let e2 = s.step(SessionInput::Chunk(frame("lo", true)));
    assert_eq!(s.phase(), Phase::Finishing);
    assert_eq!(e2.len(), 3);
    assert!(matches!(&e2[1], Effect::PersistAssistant(t) if t == "Hello"));
    assert!(matches!(&e2[2], Effect::RequestFollowUps(t) if t == "Hello"));
    let e3 = s.step(SessionInput::Finished {
        persisted: Some(Ok(())),
        follow_ups: Ok("1. Why?\nplain line\n2. How?".into()),
    });
    assert_eq!(s.phase(), Phase::Completed);
    assert_eq!(e3.len(), 2);
    match &e3[0] {
        Effect::Emit(GenerationEvent::ContextUpdate { stats }) => assert_eq!(stats.message_count, 2),
        other => panic!("unexpected {:?}", other),
    }
    match &e3[1] {
        Effect::Emit(GenerationEvent::Complete { final_text, follow_ups }) => {
            assert_eq!(final_text, "Hello");
            let texts: Vec<&str> = follow_ups.iter().map(|f| f.text.as_str()).collect();
            assert_eq!(texts, vec!["1. Why?", "2. How?"]);
        }
        other => panic!("unexpected {:?}", other),
    }
    assert_eq!(s.messages().last().unwrap().content, "Hello");
    assert!(s.step(SessionInput::Cancel).is_empty());
}

#[test]
fn cancel_emits_once_and_stores_nothing() {
    let mut s = streaming(true);
    s.step(SessionInput::Chunk(frame("partial", false)));
    let e = s.step(SessionInput::Cancel);
    assert_eq!(s.phase(), Phase::Cancelled);
    assert!(matches!(&e[..], [Effect::Emit(GenerationEvent::Cancelled)]));
    assert!(s.step(SessionInput::Cancel).is_empty());
    assert!(s.step(SessionInput::Chunk(frame("more", true))).is_empty());
    assert!(s.step(SessionInput::StreamEnd).is_empty());
    assert_eq!(s.messages().len(), 1);
}

#[test]
fn clean_close_without_final_frame_completes() {
    let mut s = streaming(false);
    s.step(SessionInput::Chunk(frame("abc", false)));
    let e = s.step(SessionInput::StreamEnd);
    assert_eq!(s.phase(), Phase::Finishing);
    assert!(matches!(&e[..], [Effect::RequestFollowUps(t)] if t == "abc"));
    let done = s.step(SessionInput::Finished { persisted: None, follow_ups: Err("offline".into()) });
    assert_eq!(s.phase(), Phase::Completed);
    assert!(matches!(&done[0], Effect::Report(t) if t == "offline"));
    match done.last().unwrap() {
        Effect::Emit(GenerationEvent::Complete { final_text, follow_ups }) => {
            assert_eq!(final_text, "abc");
            assert!(follow_ups.is_empty());
        }
        other => panic!("unexpected {:?}", other),
    }
}

#[test]
fn failed_assistant_storage_is_reported_and_completes() {
    let mut s = streaming(true);
    s.step(SessionInput::Chunk(frame("x", true)));
    let e = s.step(SessionInput::Finished { persisted: Some(Err("locked".into())), follow_ups: Ok(String::new()) });
    assert_eq!(s.phase(), Phase::Completed);
    assert_eq!(e.len(), 3);
    assert!(matches!(&e[0], Effect::Report(t) if t == "locked"));
    assert!(matches!(&e[2], Effect::Emit(GenerationEvent::Complete { .. })));
}

#[test]
fn read_error_fails_session() {
    let mut s = streaming(false);
    let e = s.step(SessionInput::ReadError("reset".into()));
    assert_eq!(s.phase(), Phase::Failed);
    assert!(matches!(&e[..], [Effect::Emit(GenerationEvent::Error { message })] if message == "reset"));
}

#[test]
fn unexpected_inputs_change_nothing() {
    let (mut s, _) = Session::start("llama2", vec![], None, false);
    assert!(s.step(SessionInput::Cancel).is_empty());
    assert!(s.step(SessionInput::Chunk(frame("x", true))).is_empty());
    assert_eq!(s.phase(), Phase::AwaitingResponse);
    assert_eq!(s.reply(), "");
}

#[test]
fn frame_split_across_chunks_yields_one_delta() {
    let mut s = streaming(false);
    let bytes = frame("joined", false);
    assert!(s.step(SessionInput::Chunk(bytes[..7].to_vec())).is_empty());
    let e = s.step(SessionInput::Chunk(bytes[7..].to_vec()));
    assert!(matches!(&e[..], [Effect::Emit(GenerationEvent::Delta { text })] if text == "joined"));
    assert_eq!(s.reply(), "joined");
}

#[test]
fn system_message_shape() {
    let m = system_message("rules".into());
    assert_eq!(m.role, "system");
    assert_eq!(m.content, "rules");
    assert_eq!(m.is_pinned, Some(false));
    assert!(m.id.is_none());
}

#[test]
fn follow_ups_take_three_trimmed_questions() {
    let got = extract_follow_ups("Intro\n  What is X?  \nnot a question\r\nWhy?\r\nHow?\nWhen?\n");
    let texts: Vec<&str> = got.iter().map(|f| f.text.as_str()).collect();
    assert_eq!(texts, vec!["What is X?", "Why?", "How?"]);
    assert!(got.iter().all(|f| f.type_ == "context"));
    assert!(extract_follow_ups("").is_empty());
    assert!(extract_follow_ups("no questions here").is_empty());
}

#[test]
fn follow_up_prompt_embeds_reply() {
    let p = follow_up_prompt("Rust is fast.");
    assert!(p.starts_with("Based on this conversation, generate 3 natural follow-up questions."));
    assert!(p.contains("\n\nResponse to analyze: Rust is fast.\n\nQuestions:"));
    assert!(p.ends_with("Questions:"));
}
