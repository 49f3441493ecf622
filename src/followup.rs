//! Follow-up suggestions: the prompt that asks the model for them and the
//! extraction of questions from its answer.
use vstd::prelude::*;
use crate::message::FollowUpSuggestion;
use crate::text::{is_space, char_is_space};
use vstd::string::StringExecFns;

verus! {

/// How many suggestions a reply carries at most.
pub const MAX_FOLLOW_UPS: usize = 3;

/// `s` without its leading whitespace.
pub open spec fn trim_front(s: Seq<char>) -> Seq<char>
    decreases s.len(),
{
    if s.len() > 0 && is_space(s[0]) {
        trim_front(s.drop_first())
    } else {
        s
    }
}

/// `s` without its trailing whitespace.
pub open spec fn trim_back(s: Seq<char>) -> Seq<char>
    decreases s.len(),
{
    if s.len() > 0 && is_space(s.last()) {
        trim_back(s.drop_last())
    } else {
        s
    }
}

/// `s` without leading and trailing whitespace.
pub open spec fn trimmed(s: Seq<char>) -> Seq<char> {
    trim_back(trim_front(s))
}

/// Where the line that starts at `start` ends: at the next line feed, or at
/// the end of `s`.
pub open spec fn line_end(s: Seq<char>, start: int) -> int
    decreases s.len() - start,
{
    if start >= s.len() || s[start] == '\n' {
        start
    } else {
        line_end(s, start + 1)
    }
}

/// Whether a trimmed line is a question.
pub open spec fn is_question(t: Seq<char>) -> bool {
    t.len() > 0 && t.last() == '?'
}

/// The trimmed lines of `s` from the one that starts at `start` on that are
/// questions, in order.
pub open spec fn questions_from(s: Seq<char>, start: int) -> Seq<Seq<char>>
    decreases s.len() + 1 - start,
{
    if start < 0 || start > s.len() {
        Seq::empty()
    } else {
        let e = line_end(s, start);
        let t = trimmed(s.subrange(start, e));
        let rest = if start <= e <= s.len() {
            questions_from(s, e + 1)
        } else {
            Seq::empty()
        };
        if is_question(t) {
            seq![t] + rest
        } else {
            rest
        }
    }
}

/// The questions of a model's answer: its trimmed lines that end in a
/// question mark, at most three, in order.
pub open spec fn follow_up_texts(s: Seq<char>) -> Seq<Seq<char>> {
    let q = questions_from(s, 0);
    if q.len() <= MAX_FOLLOW_UPS {
        q
    } else {
        q.take(MAX_FOLLOW_UPS as int)
    }
}

proof fn lemma_line_end(s: Seq<char>, start: int)
    requires
        0 <= start <= s.len(),
    ensures
        start <= line_end(s, start) <= s.len(),
        line_end(s, start) < s.len() ==> s[line_end(s, start)] == '\n',
        forall|k: int| start <= k < line_end(s, start) ==> s[k] != '\n',
    decreases s.len() - start,
{
    if !(start >= s.len() || s[start] == '\n') {
        lemma_line_end(s, start + 1);
    }
}

/// The end of the line of `s` that starts at `start`.
fn find_line_end(s: &str, n: usize, start: usize) -> (e: usize)
    requires
        n == s@.len(),
        start <= n,
    ensures
        e == line_end(s@, start as int),
{
    let mut i = start;
    while i < n && s.get_char(i) != '\n'
        invariant
            n == s@.len(),
            start <= i <= n,
            line_end(s@, start as int) == line_end(s@, i as int),
        decreases n - i,
    {
        i = i + 1;
    }
    i
}

/// The bounds of the text between `a` and `b` without surrounding whitespace.
fn trim_bounds(s: &str, n: usize, a: usize, b: usize) -> (r: (usize, usize))
    requires
        n == s@.len(),
        a <= b <= n,
    ensures
        a <= r.0 <= r.1 <= b,
        s@.subrange(r.0 as int, r.1 as int) == trimmed(s@.subrange(a as int, b as int)),
{
    let mut lo = a;
    while lo < b && char_is_space(s.get_char(lo))
        invariant
            n == s@.len(),
            a <= lo <= b <= n,
            trim_front(s@.subrange(a as int, b as int)) == trim_front(s@.subrange(lo as int, b as int)),
        decreases b - lo,
    {
        assert(s@.subrange(lo as int, b as int).drop_first() =~= s@.subrange(lo + 1, b as int));
        lo = lo + 1;
    }
    let mut hi = b;
    while hi > lo && char_is_space(s.get_char(hi - 1))
        invariant
            n == s@.len(),
            a <= lo <= hi <= b <= n,
            trim_back(s@.subrange(lo as int, b as int)) == trim_back(s@.subrange(lo as int, hi as int)),
        decreases hi - lo,
    {
        assert(s@.subrange(lo as int, hi as int).drop_last() =~= s@.subrange(lo as int, hi - 1));
        hi = hi - 1;
    }
    (lo, hi)
}

/// The follow-up suggestions found in a model's answer `response`: each
/// trimmed line that ends in a question mark, at most three, marked as
/// coming from the conversation's context.
pub fn extract_follow_ups(response: &str) -> (r: Vec<FollowUpSuggestion>)
    ensures
        r@.len() == follow_up_texts(response@).len(),
        forall|i: int|
            0 <= i < r@.len() ==> {
                &&& (#[trigger] r@[i]).text@ == follow_up_texts(response@)[i]
                &&& r@[i].type_@ == "context"@
            },
{
    let n = response.unicode_len();
    let ghost s = response@;
    let ghost all = questions_from(s, 0);
    let mut out: Vec<FollowUpSuggestion> = Vec::new();
    let mut start: usize = 0;
    let mut finished = false;
    while !finished && out.len() < MAX_FOLLOW_UPS
        invariant
            n == s.len(),
            s == response@,
            all == questions_from(s, 0),
            out@.len() <= MAX_FOLLOW_UPS,
            start <= n,
            all == Seq::new(out@.len() as nat, |i: int| out@[i].text@) + (if finished {
                Seq::<Seq<char>>::empty()
            } else {
                questions_from(s, start as int)
            }),
            forall|i: int| 0 <= i < out@.len() ==> (#[trigger] out@[i]).type_@ == "context"@,
        decreases n + 1 - start - (if finished { 1int } else { 0int }),
    {
        let e = find_line_end(response, n, start);
        proof {
            lemma_line_end(s, start as int);
        }
        let (lo, hi) = trim_bounds(response, n, start, e);
        let ghost before = Seq::new(out@.len() as nat, |i: int| out@[i].text@);
        if hi > lo && response.get_char(hi - 1) == '?' {
            let text = response.substring_char(lo, hi).to_owned();
            out.push(FollowUpSuggestion { text, type_: "context".to_owned() });
            assert(Seq::new(out@.len() as nat, |i: int| out@[i].text@) =~= before + seq![s.subrange(
                lo as int,
                hi as int,
            )]);
        }
        if e < n {
            start = e + 1;
        } else {
            assert(questions_from(s, e + 1) =~= Seq::<Seq<char>>::empty());
            finished = true;
        }
    }
    proof {
        let got = Seq::new(out@.len() as nat, |i: int| out@[i].text@);
        if finished {
            assert(all =~= got);
        } else {
            assert(all.take(MAX_FOLLOW_UPS as int) =~= got);
        }
    }
    out
}

/// The request that asks the model for follow-up questions about `response`.
pub fn follow_up_prompt(response: &str) -> (r: String)
    ensures
        r@ == "Based on this conversation, generate 3 natural follow-up questions. Each question should be on a new line and end with a question mark. Questions should be concise and help explore the topic further.\n\nResponse to analyze: "@
            + response@ + "\n\nQuestions:"@,
{
    let mut prompt = String::from_str(
        "Based on this conversation, generate 3 natural follow-up questions. Each question should be on a new line and end with a question mark. Questions should be concise and help explore the topic further.\n\nResponse to analyze: ",
    );
    prompt.append(response);
    prompt.append("\n\nQuestions:");
    prompt
}

} // verus!
