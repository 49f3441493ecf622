use cortex_chat::context::{history_stats, ChatContext};
use cortex_chat::message::{ChatMessage, ModelConfig};


fn msg(role: &str, content: &str, pinned: bool) -> ChatMessage {
    ChatMessage {
        id: None,
        role: role.to_string(),
        content: content.to_string(),
        is_pinned: Some(pinned),
        system_prompt_type: None,
    }
}

fn a_text(n: usize) -> String {
    "a".repeat(n)
}

#[test]
fn estimate_exact_values() {
    assert_eq!(ChatContext::estimate_tokens(""), 0);
    assert_eq!(ChatContext::estimate_tokens("a"), 1);
    assert_eq!(ChatContext::estimate_tokens("Hi!"), 2);
    assert_eq!(ChatContext::estimate_tokens("hello world"), 4);
    assert_eq!(ChatContext::estimate_tokens(&a_text(20)), 5);
    assert_eq!(ChatContext::estimate_tokens(&a_text(32)), 8);
    assert_eq!(ChatContext::estimate_tokens(&a_text(60)), 15);
    // tabs and newlines count as whitespace and as symbols
    assert_eq!(ChatContext::estimate_tokens("a\tb\nc"), (5 + 2 + 4 + 3) / 4);
    // non-ASCII letters are alphanumeric
    assert_eq!(ChatContext::estimate_tokens("éé"), (2 + 0 + 0 + 3) / 4);
}

#[test]
fn default_profiles() {
    let g = ModelConfig::get_default_config("gemma:2b");
    assert_eq!(g.context_window, 8192);
    assert_eq!(g.max_output_tokens, 2048);
    assert_eq!(g.name, "gemma:2b");
    assert_eq!(ModelConfig::get_default_config("gemma:7b").context_window, 8192);
    assert_eq!(ModelConfig::get_default_config("llama2").context_window, 4096);
    let other = ModelConfig::get_default_config("mistral");
    assert_eq!(other.context_window, 4096);
    assert_eq!(other.max_output_tokens, 2048);
    assert_eq!(other.name, "mistral");
}

#[test]
fn new_context_uses_profile_budget() {
    let c = ChatContext::new("gemma:7b");
    let s = c.get_stats();
    assert_eq!(s.max_tokens, 8192);
    assert_eq!(s.total_tokens, 0);
    assert_eq!(s.message_count, 0);
    assert_eq!(s.pruned_messages, 0);
    assert_eq!(ChatContext::new("unknown").get_stats().max_tokens, 4096);
}

#[test]
fn total_is_sum_of_retained_estimates() {
    let mut c = ChatContext::with_budget(30);
    let texts = ["hello there, friend!", "a b c d e f", &a_text(40), "why?", &a_text(70), "ok"];
    for (i, t) in texts.iter().enumerate() {
        let stats = c.add_message(msg("user", t, i == 1));
        let sum: usize = c.get_messages().iter().map(|m| ChatContext::estimate_tokens(&m.content)).sum();
        assert_eq!(stats.total_tokens, sum);
        assert_eq!(stats.message_count, c.get_messages().len());
    }
}

#[test]
fn pinned_messages_survive_over_budget() {
    let mut c = ChatContext::with_budget(10);
    for _ in 0..3 {
        c.add_message(msg("user", &a_text(20), true));
    }
    let stats = c.add_message(msg("user", &a_text(20), false));
    assert_eq!(stats.total_tokens, 20);
    assert_eq!(stats.message_count, 4);
    assert_eq!(stats.pruned_messages, 0);
    let kept = c.get_messages();
    assert!(kept[..3].iter().all(|m| m.is_pinned == Some(true)));
}

#[test]
fn pruning_removes_newest_eligible_first() {
    let mut c = ChatContext::with_budget(10);
    c.add_message(msg("user", &format!("A{}", a_text(19)), false));
    c.add_message(msg("user", &format!("B{}", a_text(19)), false));
    let stats = c.add_message(msg("user", &format!("C{}", a_text(19)), false));
    let kept: Vec<char> = c.get_messages().iter().map(|m| m.content.chars().next().unwrap()).collect();
    assert_eq!(kept, vec!['A', 'C']);
    assert_eq!(stats.pruned_messages, 1);
    assert_eq!(stats.total_tokens, 10);
}

#[test]
fn round_trip_keeps_order_content_pin_and_tag() {
    let mut c = ChatContext::with_budget(4096);
    let sent = vec![
        ChatMessage { id: Some("1".into()), role: "system".into(), content: "be brief".into(), is_pinned: Some(true), system_prompt_type: Some("research".into()) },
        ChatMessage { id: None, role: "user".into(), content: "what is rust?".into(), is_pinned: Some(false), system_prompt_type: None },
        ChatMessage { id: Some("3".into()), role: "assistant".into(), content: "a language".into(), is_pinned: None, system_prompt_type: Some("code".into()) },
    ];
    for m in &sent {
        c.add_message(m.clone());
    }
    let got = c.get_messages();
    assert_eq!(got.len(), sent.len());
    for (a, b) in got.iter().zip(sent.iter()) {
        assert_eq!(a.id, b.id);
        assert_eq!(a.role, b.role);
        assert_eq!(a.content, b.content);
        assert_eq!(a.is_pinned, b.is_pinned);
        assert_eq!(a.system_prompt_type, b.system_prompt_type);
    }
}

#[test]
fn end_to_end_budget_twenty() {
    let mut c = ChatContext::with_budget(20);
    let user = a_text(32);
    let assistant = a_text(60);
    assert_eq!(ChatContext::estimate_tokens(&user), 8);
    assert_eq!(ChatContext::estimate_tokens(&assistant), 15);
    let before = c.add_message(msg("user", &user, false)).pruned_messages;
    let after = c.add_message(msg("assistant", &assistant, false));
    assert!(after.pruned_messages >= before + 1);
    let last = c.get_messages().last().unwrap();
    assert_eq!(last.role, "assistant");
    assert_eq!(last.content, assistant);
    assert_eq!(after.message_count, 1);
    assert_eq!(after.total_tokens, 15);
}

#[test]
fn newest_message_always_kept_even_alone_over_budget() {
    let mut c = ChatContext::with_budget(3);
    let stats = c.add_message(msg("user", &a_text(100), false));
    assert_eq!(stats.message_count, 1);
    assert_eq!(stats.total_tokens, 25);
}

#[test]
fn room_check() {
    let c = ChatContext::with_budget(10);
    assert!(c.has_room_for("anything"));
}

#[test]
fn stats_of_stored_history() {
    let history = vec![msg("user", &a_text(32), false), msg("assistant", &a_text(60), true)];
    let stats = history_stats("gemma:2b", &history).expect("fits");
    assert_eq!(stats.max_tokens, 8192);
    assert_eq!(stats.message_count, 2);
    assert_eq!(stats.total_tokens, 23);
    assert_eq!(stats.pruned_messages, 0);
    let empty = history_stats("other", &vec![]).expect("fits");
    assert_eq!(empty.max_tokens, 4096);
    assert_eq!(empty.total_tokens, 0);
}
