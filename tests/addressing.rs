use cortex_chat::context::ContextStats;
use cortex_chat::session::GenerationEvent;
use cortex_chat::text::decimal_text;

#[test]
fn channels_carry_instance_id() {
    let delta = GenerationEvent::Delta { text: "x".into() };
    assert_eq!(delta.channel("tab-1"), "chat-response-tab-1");
    let stats = ContextStats { total_tokens: 1, max_tokens: 2, message_count: 1, pruned_messages: 0 };
    assert_eq!(GenerationEvent::ContextUpdate { stats }.channel("a"), "context-update-a");
    assert_eq!(GenerationEvent::Complete { final_text: String::new(), follow_ups: vec![] }.channel("a"), "chat-complete-a");
    assert_eq!(GenerationEvent::Cancelled.channel("b"), "chat-cancelled-b");
    assert_eq!(GenerationEvent::Error { message: "e".into() }.channel("c"), "chat-error-c");
    assert_ne!(delta.channel("1"), delta.channel("2"));
}

#[test]
fn decimal_text_matches_std() {
    for v in [0, 7, 10, 2024, -5, -1000, i32::MAX, i32::MIN] {
        assert_eq!(decimal_text(v), v.to_string());
    }
}
