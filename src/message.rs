//! Conversation records and the static model profiles.
use vstd::prelude::*;

verus! {

/// One entry of a conversation. `role` is `"system"`, `"user"` or `"assistant"`.
#[derive(Debug, Clone)]
pub struct ChatMessage {
    pub id: Option<String>,
    pub role: String,
    pub content: String,
    pub is_pinned: Option<bool>,
    pub system_prompt_type: Option<String>,
}

impl ChatMessage {
    /// A message counts as pinned only when its flag is present and set.
    pub open spec fn pinned(&self) -> bool {
        self.is_pinned == Some(true)
    }
}

/// A suggested next question offered after a completed reply.
#[derive(Debug, Clone)]
pub struct FollowUpSuggestion {
    pub text: String,
    pub type_: String,
}

/// One response unit as the user interface receives it.
#[derive(Debug, Clone)]
pub struct ChatResponse {
    pub message: ChatMessage,
    pub done: bool,
    pub follow_ups: Option<Vec<FollowUpSuggestion>>,
}

/// A piece of streamed text addressed to a stored chat.
#[derive(Debug, Clone)]
pub struct StreamResponse {
    pub content: String,
    pub done: bool,
    pub chat_id: Option<String>,
}

/// A conversation written out for transfer between installations.
#[derive(Debug)]
pub struct ChatExport {
    pub version: String,
    pub chat: ChatExportData,
}

/// The chat record inside a [`ChatExport`].
#[derive(Debug)]
pub struct ChatExportData {
    pub id: String,
    pub title: String,
    pub model: String,
    pub created_at: String,
    pub updated_at: String,
    pub messages: Vec<MessageExport>,
}

/// One message inside a [`ChatExportData`].
#[derive(Debug)]
pub struct MessageExport {
    pub id: Option<String>,
    pub role: String,
    pub content: String,
    pub created_at: Option<String>,
    pub is_pinned: bool,
}

/// The context size and output limit assumed for a model.
#[derive(Debug, Clone)]
pub struct ModelConfig {
    pub name: String,
    pub context_window: usize,
    pub max_output_tokens: i32,
}

pub const LARGE_CONTEXT_WINDOW: usize = 8192;

pub const DEFAULT_CONTEXT_WINDOW: usize = 4096;

pub const DEFAULT_MAX_OUTPUT_TOKENS: i32 = 2048;

/// The context window of the profile of `model`: the two gemma sizes have a
/// large window, every other name gets the conservative default.
pub open spec fn profile_window(model: Seq<char>) -> usize {
    if model == "gemma:2b"@ || model == "gemma:7b"@ {
        LARGE_CONTEXT_WINDOW
    } else {
        DEFAULT_CONTEXT_WINDOW
    }
}

/// Character-by-character equality of two strings.
pub fn same_text(a: &str, b: &str) -> (r: bool)
    ensures
        r == (a@ == b@),
{
    let n = a.unicode_len();
    let m = b.unicode_len();
    if n != m {
        return false;
    }
    let mut i: usize = 0;
    while i < n
        invariant
            n == a@.len(),
            m == b@.len(),
            n == m,
            i <= n,
            forall|j: int| 0 <= j < i ==> a@[j] == b@[j],
        decreases n - i,
    {
        if a.get_char(i) != b.get_char(i) {
            return false;
        }
        i = i + 1;
    }
    assert(a@ =~= b@);
    true
}

/// A copy of `m`, field by field.
pub fn copy_message(m: &ChatMessage) -> (r: ChatMessage)
    ensures
        r == *m,
{
    let id = match &m.id {
        Some(s) => Some(s.clone()),
        None => None,
    };
    let system_prompt_type = match &m.system_prompt_type {
        Some(s) => Some(s.clone()),
        None => None,
    };
    ChatMessage {
        id,
        role: m.role.clone(),
        content: m.content.clone(),
        is_pinned: m.is_pinned,
        system_prompt_type,
    }
}

impl ModelConfig {
    /// The profile of `model`; unknown names receive the conservative default.
    pub fn get_default_config(model: &str) -> (r: Self)
        ensures
            r.name@ == model@,
            r.context_window == profile_window(model@),
            r.max_output_tokens == DEFAULT_MAX_OUTPUT_TOKENS,
    {
        let window = if same_text(model, "gemma:2b") || same_text(model, "gemma:7b") {
            LARGE_CONTEXT_WINDOW
        } else {
            DEFAULT_CONTEXT_WINDOW
        };
        ModelConfig {
            name: model.to_owned(),
            context_window: window,
            max_output_tokens: DEFAULT_MAX_OUTPUT_TOKENS,
        }
    }
}

} // verus!
