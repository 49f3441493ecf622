//! The context window: an ordered conversation under a token budget, pruned
//! newest-eligible-first while pinned messages are always kept.
use vstd::prelude::*;
use crate::message::{ChatMessage, ModelConfig, profile_window, copy_message};
use crate::text::{token_estimate, space_count, symbol_count, char_is_space, char_is_alnum, lemma_estimate_at_most_length};

verus! {

/// The token cost of one message.
pub open spec fn message_tokens(m: ChatMessage) -> nat {
    token_estimate(m.content@)
}

/// The summed token cost of a sequence of messages.
pub open spec fn total_of(s: Seq<ChatMessage>) -> nat
    decreases s.len(),
{
    if s.len() == 0 {
        0
    } else {
        total_of(s.drop_last()) + message_tokens(s.last())
    }
}

/// The index of the newest unpinned message of `h`, if there is one.
pub open spec fn last_unpinned(h: Seq<ChatMessage>) -> Option<int>
    decreases h.len(),
{
    if h.len() == 0 {
        None
    } else if !h.last().pinned() {
        Some(h.len() - 1)
    } else {
        last_unpinned(h.drop_last())
    }
}

/// What remains of the earlier messages `h` once a message costing `newest`
/// tokens has been appended under `budget`: while over budget, the newest
/// unpinned earlier message is removed; pruning stops when none is left.
pub open spec fn pruned_history(h: Seq<ChatMessage>, newest: nat, budget: nat) -> Seq<ChatMessage>
    decreases h.len(),
{
    if total_of(h) + newest > budget {
        match last_unpinned(h) {
            Some(i) => if 0 <= i < h.len() {
                pruned_history(h.remove(i), newest, budget)
            } else {
                h
            },
            None => h,
        }
    } else {
        h
    }
}

/// The messages of `s` that are pinned, in order.
pub open spec fn pinned_of(s: Seq<ChatMessage>) -> Seq<ChatMessage>
    decreases s.len(),
{
    if s.len() == 0 {
        s
    } else if s.last().pinned() {
        pinned_of(s.drop_last()).push(s.last())
    } else {
        pinned_of(s.drop_last())
    }
}

/// The messages of `s` that are not pinned, in order.
pub open spec fn unpinned_of(s: Seq<ChatMessage>) -> Seq<ChatMessage>
    decreases s.len(),
{
    if s.len() == 0 {
        s
    } else if s.last().pinned() {
        unpinned_of(s.drop_last())
    } else {
        unpinned_of(s.drop_last()).push(s.last())
    }
}

/// Either the budget holds, or every message but the newest is pinned.
pub open spec fn budget_respected(s: Seq<ChatMessage>, budget: nat) -> bool {
    total_of(s) <= budget || (forall|i: int| 0 <= i < s.len() - 1 ==> #[trigger] s[i].pinned())
}


proof fn lemma_total_push(s: Seq<ChatMessage>, m: ChatMessage)
    ensures
        total_of(s.push(m)) == total_of(s) + message_tokens(m),
{
    assert(s.push(m).drop_last() =~= s);
}

proof fn lemma_total_remove(s: Seq<ChatMessage>, i: int)
    requires
        0 <= i < s.len(),
    ensures
        total_of(s.remove(i)) + message_tokens(s[i]) == total_of(s),
    decreases s.len(),
{
    if i == s.len() - 1 {
        assert(s.remove(i) =~= s.drop_last());
    } else {
        lemma_total_remove(s.drop_last(), i);
        assert(s.remove(i).drop_last() =~= s.drop_last().remove(i));
        assert(s.remove(i).last() == s.last());
    }
}

/// What `last_unpinned` finds: an unpinned message with only pinned ones after
/// it, or nothing when every message is pinned.
proof fn lemma_last_unpinned(h: Seq<ChatMessage>)
    ensures
        last_unpinned(h) matches Some(i) ==> {
            &&& 0 <= i < h.len()
            &&& !h[i].pinned()
            &&& forall|j: int| i < j < h.len() ==> #[trigger] h[j].pinned()
        },
        last_unpinned(h) is None ==> forall|j: int| 0 <= j < h.len() ==> #[trigger] h[j].pinned(),
    decreases h.len(),
{
    if h.len() > 0 {
        lemma_last_unpinned(h.drop_last());
        if h.last().pinned() {
            if last_unpinned(h) is None {
                assert forall|j: int| 0 <= j < h.len() implies #[trigger] h[j].pinned() by {
                    if j < h.len() - 1 {
                        assert(h.drop_last()[j] == h[j]);
                    }
                }
            } else {
                let i = last_unpinned(h)->0;
                assert forall|j: int| i < j < h.len() implies #[trigger] h[j].pinned() by {
                    if j < h.len() - 1 {
                        assert(h.drop_last()[j] == h[j]);
                    }
                }
                assert(h.drop_last()[i] == h[i]);
            }
        }
    }
}

/// An unpinned message followed only by pinned ones is the one `last_unpinned` finds.
proof fn lemma_last_unpinned_is(h: Seq<ChatMessage>, i: int)
    requires
        0 <= i < h.len(),
        !h[i].pinned(),
        forall|j: int| i < j < h.len() ==> #[trigger] h[j].pinned(),
    ensures
        last_unpinned(h) == Some(i),
    decreases h.len(),
{
    if i < h.len() - 1 {
        assert(h.last().pinned());
        assert forall|j: int| i < j < h.len() - 1 implies #[trigger] h.drop_last()[j].pinned() by {
            assert(h.drop_last()[j] == h[j]);
        }
        lemma_last_unpinned_is(h.drop_last(), i);
    }
}

/// With no unpinned message, `last_unpinned` finds nothing.
proof fn lemma_last_unpinned_none(h: Seq<ChatMessage>)
    requires
        forall|j: int| 0 <= j < h.len() ==> #[trigger] h[j].pinned(),
    ensures
        last_unpinned(h) is None,
    decreases h.len(),
{
    if h.len() > 0 {
        assert(h.last().pinned());
        assert forall|j: int| 0 <= j < h.len() - 1 implies #[trigger] h.drop_last()[j].pinned() by {
            assert(h.drop_last()[j] == h[j]);
        }
        lemma_last_unpinned_none(h.drop_last());
    }
}

/// One step of pruning, unfolded.
proof fn lemma_prune_step(h: Seq<ChatMessage>, newest: nat, budget: nat)
    ensures
        total_of(h) + newest > budget && last_unpinned(h) is Some ==> pruned_history(h, newest, budget)
            == pruned_history(h.remove(last_unpinned(h)->0), newest, budget),
        !(total_of(h) + newest > budget && last_unpinned(h) is Some) ==> pruned_history(h, newest, budget) == h,
{
    lemma_last_unpinned(h);
}

/// Pruning ends within budget, or with no unpinned message left; it only
/// shortens the history.
proof fn lemma_pruned_result(h: Seq<ChatMessage>, newest: nat, budget: nat)
    ensures
        ({
            let p = pruned_history(h, newest, budget);
            &&& total_of(p) + newest <= budget || last_unpinned(p) is None
            &&& p.len() <= h.len()
        }),
    decreases h.len(),
{
    lemma_last_unpinned(h);
    if total_of(h) + newest > budget {
        if let Some(i) = last_unpinned(h) {
            lemma_pruned_result(h.remove(i), newest, budget);
        }
    }
}


proof fn lemma_pinned_remove(h: Seq<ChatMessage>, i: int)
    requires
        0 <= i < h.len(),
        !h[i].pinned(),
    ensures
        pinned_of(h.remove(i)) == pinned_of(h),
    decreases h.len(),
{
    if i == h.len() - 1 {
        assert(h.remove(i) =~= h.drop_last());
    } else {
        assert(h.remove(i).drop_last() =~= h.drop_last().remove(i));
        assert(h.remove(i).last() == h.last());
        lemma_pinned_remove(h.drop_last(), i);
    }
}

proof fn lemma_unpinned_remove_last(h: Seq<ChatMessage>)
    requires
        last_unpinned(h) is Some,
    ensures
        unpinned_of(h).len() > 0,
        unpinned_of(h.remove(last_unpinned(h)->0)) == unpinned_of(h).drop_last(),
    decreases h.len(),
{
    lemma_last_unpinned(h);
    let i = last_unpinned(h)->0;
    if i == h.len() - 1 {
        assert(h.remove(i) =~= h.drop_last());
    } else {
        assert(h.last().pinned());
        assert(h.remove(i).drop_last() =~= h.drop_last().remove(i));
        assert(h.remove(i).last() == h.last());
        lemma_unpinned_remove_last(h.drop_last());
    }
}

/// Pruning never removes a pinned message: the pinned messages that remain
/// are exactly those that were there, in the same order.
pub proof fn lemma_pruning_keeps_pinned(h: Seq<ChatMessage>, newest: nat, budget: nat)
    ensures
        pinned_of(pruned_history(h, newest, budget)) == pinned_of(h),
    decreases h.len(),
{
    lemma_last_unpinned(h);
    if total_of(h) + newest > budget {
        if let Some(i) = last_unpinned(h) {
            lemma_pinned_remove(h, i);
            lemma_pruning_keeps_pinned(h.remove(i), newest, budget);
        }
    }
}

/// Pruning takes the newest unpinned messages first: the unpinned messages
/// that remain are the oldest ones, in their order.
pub proof fn lemma_pruning_takes_newest_first(h: Seq<ChatMessage>, newest: nat, budget: nat)
    ensures
        ({
            let kept = unpinned_of(pruned_history(h, newest, budget));
            &&& kept.len() <= unpinned_of(h).len()
            &&& kept == unpinned_of(h).take(kept.len() as int)
        }),
    decreases h.len(),
{
    lemma_last_unpinned(h);
    let kept = unpinned_of(pruned_history(h, newest, budget));
    if total_of(h) + newest > budget && last_unpinned(h) is Some {
        let i = last_unpinned(h)->0;
        lemma_unpinned_remove_last(h);
        lemma_pruning_takes_newest_first(h.remove(i), newest, budget);
        let u = unpinned_of(h);
        assert(u.drop_last().take(kept.len() as int) =~= u.take(kept.len() as int));
    } else {
        assert(unpinned_of(h).take(unpinned_of(h).len() as int) =~= unpinned_of(h));
    }
}

/// Within budget nothing is pruned: the earlier messages come back unchanged.
pub proof fn lemma_within_budget_keeps_all(h: Seq<ChatMessage>, newest: nat, budget: nat)
    requires
        total_of(h) + newest <= budget,
    ensures
        pruned_history(h, newest, budget) == h,
{
}

/// Over budget with an unpinned earlier message, at least one message is pruned.
pub proof fn lemma_over_budget_prunes(h: Seq<ChatMessage>, newest: nat, budget: nat)
    requires
        total_of(h) + newest > budget,
        exists|i: int| 0 <= i < h.len() && !(#[trigger] h[i]).pinned(),
    ensures
        pruned_history(h, newest, budget).len() < h.len(),
{
    lemma_last_unpinned(h);
    if last_unpinned(h) is None {
        let i = choose|i: int| 0 <= i < h.len() && !(#[trigger] h[i]).pinned();
        assert(h[i].pinned());
    }
    let i = last_unpinned(h)->0;
    lemma_pruned_result(h.remove(i), newest, budget);
}

/// The figures reported after each change of a context window.
#[derive(Debug, Clone, Copy)]
pub struct ContextStats {
    pub total_tokens: usize,
    pub max_tokens: usize,
    pub message_count: usize,
    pub pruned_messages: usize,
}

/// The abstract state of a [`ChatContext`].
pub ghost struct ContextView {
    pub messages: Seq<ChatMessage>,
    pub total_tokens: nat,
    pub budget: nat,
    pub pruned_count: nat,
}

/// An ordered conversation with a running token total, a fixed budget and a
/// count of the messages pruned so far.
#[derive(Debug)]
pub struct ChatContext {
    messages: Vec<ChatMessage>,
    total_tokens: usize,
    context_window: usize,
    pruned_count: usize,
}

impl View for ChatContext {
    type V = ContextView;

    closed spec fn view(&self) -> ContextView {
        ContextView {
            messages: self.messages@,
            total_tokens: self.total_tokens as nat,
            budget: self.context_window as nat,
            pruned_count: self.pruned_count as nat,
        }
    }
}

/// The state of a context in state `v` once `m` has been appended and pruned.
pub open spec fn added(v: ContextView, m: ChatMessage) -> ContextView {
    let kept = pruned_history(v.messages, message_tokens(m), v.budget);
    ContextView {
        messages: kept.push(m),
        total_tokens: total_of(kept.push(m)),
        budget: v.budget,
        pruned_count: (v.pruned_count + (v.messages.len() - kept.len())) as nat,
    }
}

/// Whether `m` can be appended to a context in state `v` with every running
/// figure still a machine integer.
pub open spec fn room_for(v: ContextView, m: ChatMessage) -> bool {
    room_for_text(v, m.content@)
}

/// Whether a message with content `t` can be appended to a context in state
/// `v` with every running figure still a machine integer.
pub open spec fn room_for_text(v: ContextView, t: Seq<char>) -> bool {
    &&& v.total_tokens + token_estimate(t) <= usize::MAX
    &&& v.pruned_count + v.messages.len() < usize::MAX
}

/// The state after appending each of `ms` in turn, provided each one fits.
pub open spec fn added_all(v: ContextView, ms: Seq<ChatMessage>) -> Option<ContextView>
    decreases ms.len(),
{
    if ms.len() == 0 {
        Some(v)
    } else {
        match added_all(v, ms.drop_last()) {
            Some(w) => if room_for(w, ms.last()) {
                Some(added(w, ms.last()))
            } else {
                None
            },
            None => None,
        }
    }
}

/// An empty context under the budget of `model`'s profile.
pub open spec fn empty_context(model: Seq<char>) -> ContextView {
    ContextView {
        messages: Seq::empty(),
        total_tokens: 0,
        budget: profile_window(model) as nat,
        pruned_count: 0,
    }
}

pub(crate) proof fn lemma_added_all_stuck(v: ContextView, ms: Seq<ChatMessage>, i: int)
    requires
        0 <= i <= ms.len(),
        added_all(v, ms.take(i)) is None,
    ensures
        added_all(v, ms) is None,
    decreases ms.len() - i,
{
    if i < ms.len() {
        assert(ms.take(i + 1).drop_last() =~= ms.take(i));
        lemma_added_all_stuck(v, ms, i + 1);
    } else {
        assert(ms.take(i) =~= ms);
    }
}

/// The figures of a context for `model` seeded with `history`, oldest first;
/// `None` when the figures would leave the machine integers.
pub fn history_stats(model: &str, history: &Vec<ChatMessage>) -> (r: Option<ContextStats>)
    ensures
        match added_all(empty_context(model@), history@) {
            Some(v) => r matches Some(s) && ChatContext::stats_of(v, s),
            None => r is None,
        },
{
    let mut context = ChatContext::new(model);
    if context.add_all(history) {
        Some(context.get_stats())
    } else {
        None
    }
}

impl ChatContext {
    /// The token estimate of `content`.
    pub fn estimate_tokens(content: &str) -> (r: usize)
        ensures
            r == token_estimate(content@),
    {
        let n = content.unicode_len();
        let mut spaces: usize = 0;
        let mut symbols: usize = 0;
        proof {
            vstd::string::axiom_spec_iter(content);
        }
        for c in it: content.chars()
            invariant
                n == content@.len(),
                it.seq() == content@,
                0 <= it.index() <= n,
                spaces == space_count(content@.take(it.index())),
                symbols == symbol_count(content@.take(it.index())),
                spaces <= it.index(),
                symbols <= it.index(),
        {
            assert(content@.take(it.index() + 1).drop_last() =~= content@.take(it.index()));
            assert(content@.take(it.index() + 1).last() == c);
            if char_is_space(c) {
                spaces = spaces + 1;
            }
            if !char_is_alnum(c) {
                symbols = symbols + 1;
            }
        }
        assert(content@.take(n as int) =~= content@);
        proof {
            lemma_estimate_at_most_length(content@);
        }
        let total: u128 = n as u128 + spaces as u128 + 2 * (symbols as u128) + 3;
        (total / 4) as usize
    }

    /// The running total is the exact sum of the held messages' estimates,
    /// and the budget is respected unless only pinned messages could go.
    pub closed spec fn wf(&self) -> bool {
        &&& self.total_tokens as nat == total_of(self.messages@)
        &&& budget_respected(self.messages@, self.context_window as nat)
    }

    /// The statistics that describe a context in state `v`.
    pub open spec fn stats_of(v: ContextView, s: ContextStats) -> bool {
        &&& s.total_tokens as nat == v.total_tokens
        &&& s.max_tokens as nat == v.budget
        &&& s.message_count as nat == v.messages.len()
        &&& s.pruned_messages as nat == v.pruned_count
    }

    /// An empty context whose budget is the context window of `model`'s profile.
    pub fn new(model: &str) -> (r: Self)
        ensures
            r.wf(),
            r@.messages == Seq::<ChatMessage>::empty(),
            r@.total_tokens == 0,
            r@.budget == profile_window(model@) as nat,
            r@.pruned_count == 0,
    {
        let config = ModelConfig::get_default_config(model);
        let r = ChatContext {
            messages: Vec::new(),
            total_tokens: 0,
            context_window: config.context_window,
            pruned_count: 0,
        };
        assert(r.messages@.len() == 0);
        r
    }


    /// Whether a message with `content` can be appended without the running
    /// figures leaving the machine integers.
    pub fn has_room_for(&self, content: &str) -> (r: bool)
        ensures
            r == (self@.total_tokens + token_estimate(content@) <= usize::MAX
                && self@.pruned_count + self@.messages.len() < usize::MAX),
            r == room_for_text(self@, content@),
    {
        let est = Self::estimate_tokens(content);
        est <= usize::MAX - self.total_tokens && self.messages.len() < usize::MAX - self.pruned_count
    }

    /// Appends `message`, then prunes while over budget: each round removes the
    /// newest unpinned message before it and counts the removal. Only the
    /// messages before the appended one, which holds the last slot, are ever
    /// candidates: the appended message always stays, and so does every pinned
    /// message.
    pub fn add_message(&mut self, message: ChatMessage) -> (r: ContextStats)
        requires
            old(self).wf(),
            old(self)@.total_tokens + token_estimate(message.content@) <= usize::MAX,
            old(self)@.pruned_count + old(self)@.messages.len() < usize::MAX,
        ensures
            final(self).wf(),
            ({
                let kept = pruned_history(
                    old(self)@.messages,
                    message_tokens(message),
                    old(self)@.budget,
                );
                &&& final(self)@.messages == kept.push(message)
                &&& final(self)@.pruned_count == old(self)@.pruned_count + (old(self)@.messages.len()
                    - kept.len())
            }),
            final(self)@ == added(old(self)@, message),
            final(self)@.total_tokens == total_of(final(self)@.messages),
            final(self)@.budget == old(self)@.budget,
            final(self)@.messages.last() == message,
            budget_respected(final(self)@.messages, final(self)@.budget),
            Self::stats_of(final(self)@, r),
    {
        let est = Self::estimate_tokens(message.content.as_str());
        let ghost h0 = self.messages@;
        let ghost m = message;
        let ghost budget = self.context_window as nat;
        proof {
            lemma_total_push(h0, m);
        }
        self.messages.push(message);
        self.total_tokens = self.total_tokens + est;
        let ghost mut h = h0;
        loop
            invariant
                self.messages@ == h.push(m),
                self.total_tokens as nat == total_of(h) + message_tokens(m),
                self.context_window as nat == budget,
                pruned_history(h0, message_tokens(m), budget) == pruned_history(
                    h,
                    message_tokens(m),
                    budget,
                ),
                h.len() <= h0.len(),
                self.pruned_count as nat == old(self)@.pruned_count + (h0.len() - h.len()),
                old(self)@.pruned_count + h0.len() < usize::MAX,
            ensures
                pruned_history(h0, message_tokens(m), budget) == h,
                self.messages@ == h.push(m),
                self.total_tokens as nat == total_of(h) + message_tokens(m),
                self.context_window as nat == budget,
                self.pruned_count as nat == old(self)@.pruned_count + (h0.len() - h.len()),
            decreases h.len(),
        {
            proof {
                lemma_prune_step(h, message_tokens(m), budget);
                lemma_last_unpinned(h);
            }
            let len = self.messages.len();
            if !(self.total_tokens > self.context_window && len > 1) {
                proof {
                    if h.len() == 0 {
                        assert(last_unpinned(h) is None);
                    }
                }
                break;
            }
            // scan backwards for the newest unpinned message before the last slot
            let mut j: usize = len - 1;
            let mut found: Option<usize> = None;
            while j > 0
                invariant_except_break
                    found is None,
                invariant
                    self.messages@ == h.push(m),
                    len == h.len() + 1,
                    j <= h.len(),
                    forall|k: int| j <= k < h.len() ==> #[trigger] h[k].pinned(),
                ensures
                    found matches Some(i) ==> {
                        &&& i < h.len()
                        &&& !h[i as int].pinned()
                        &&& forall|k: int| i < k < h.len() ==> #[trigger] h[k].pinned()
                    },
                    found is None ==> forall|k: int| 0 <= k < h.len() ==> #[trigger] h[k].pinned(),
                decreases j,
            {
                let candidate = &self.messages[j - 1];
                if !candidate.is_pinned.unwrap_or(false) {
                    found = Some(j - 1);
                    break;
                }
                j = j - 1;
            }
            match found {
                Some(idx) => {
                    proof {
                        lemma_last_unpinned_is(h, idx as int);
                        lemma_total_remove(h, idx as int);
                        assert(h.push(m).remove(idx as int) =~= h.remove(idx as int).push(m));
                    }
                    let removed = self.messages.remove(idx);
                    let cost = Self::estimate_tokens(removed.content.as_str());
                    self.total_tokens = self.total_tokens - cost;
                    self.pruned_count = self.pruned_count + 1;
                    proof {
                        h = h.remove(idx as int);
                    }
                },
                None => {
                    proof {
                        lemma_last_unpinned_none(h);
                    }
                    break;
                },
            }
        }
        proof {
            lemma_total_push(h, m);
            lemma_pruned_result(h0, message_tokens(m), budget);
            lemma_last_unpinned(h);
            let s = h.push(m);
            if !(total_of(h) + message_tokens(m) <= budget) {
                assert forall|i: int| 0 <= i < s.len() - 1 implies #[trigger] s[i].pinned() by {
                    assert(s[i] == h[i]);
                }
            }
        }
        self.get_stats()
    }

    /// An empty context with a token budget of `budget`.
    pub fn with_budget(budget: usize) -> (r: Self)
        ensures
            r.wf(),
            r@.messages == Seq::<ChatMessage>::empty(),
            r@.total_tokens == 0,
            r@.budget == budget as nat,
            r@.pruned_count == 0,
    {
        let r = ChatContext { messages: Vec::new(), total_tokens: 0, context_window: budget, pruned_count: 0 };
        assert(r.messages@.len() == 0);
        r
    }

    /// Appends each of `ms` in turn, as long as the running figures stay
    /// machine integers; says whether all of them went in.
    pub fn add_all(&mut self, ms: &Vec<ChatMessage>) -> (ok: bool)
        requires
            old(self).wf(),
        ensures
            final(self).wf(),
            ok == (added_all(old(self)@, ms@) is Some),
            ok ==> final(self)@ == added_all(old(self)@, ms@)->0,
    {
        let ghost start = self@;
        let n = ms.len();
        let mut i: usize = 0;
        assert(ms@.take(0) =~= Seq::<ChatMessage>::empty());
        while i < n
            invariant
                n == ms@.len(),
                i <= n,
                self.wf(),
                start == old(self)@,
                added_all(start, ms@.take(i as int)) == Some(self@),
            decreases n - i,
        {
            assert(ms@.take(i + 1).drop_last() =~= ms@.take(i as int));
            if !self.has_room_for(ms[i].content.as_str()) {
                proof {
                    assert(ms@.take(i + 1).last() == ms@[i as int]);
                    lemma_added_all_stuck(start, ms@, i + 1);
                }
                return false;
            }
            self.add_message(copy_message(&ms[i]));
            i = i + 1;
        }
        assert(ms@.take(n as int) =~= ms@);
        true
    }

    /// The current figures of the context.
    pub fn get_stats(&self) -> (r: ContextStats)
        ensures
            Self::stats_of(self@, r),
    {
        ContextStats {
            total_tokens: self.total_tokens,
            max_tokens: self.context_window,
            message_count: self.messages.len(),
            pruned_messages: self.pruned_count,
        }
    }

    /// The held messages, oldest first.
    pub fn get_messages(&self) -> (r: &Vec<ChatMessage>)
        ensures
            r@ == self@.messages,
    {
        &self.messages
    }
}

} // verus!
