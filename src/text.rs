//! Character classes, the token estimate of a text, and decimal numerals.
use vstd::prelude::*;
use vstd::string::StringExecFns;

verus! {

/// Whether a character has the Unicode `White_Space` property.
pub uninterp spec fn is_space(c: char) -> bool;

/// Whether a character is alphabetic or numeric in the Unicode sense.
pub uninterp spec fn is_alnum(c: char) -> bool;

/// Relies on `char::is_whitespace`: whether `c` has the `White_Space` property,
/// a function of the character alone.
#[verifier::external_body]
pub(crate) fn char_is_space(c: char) -> (r: bool)
    ensures
        r == is_space(c),
{
    c.is_whitespace()
}

/// Relies on `char::is_alphanumeric`: whether `c` is `Alphabetic` or `Numeric`,
/// a function of the character alone.
#[verifier::external_body]
pub(crate) fn char_is_alnum(c: char) -> (r: bool)
    ensures
        r == is_alnum(c),
{
    c.is_alphanumeric()
}

/// Number of whitespace characters in `s`.
pub open spec fn space_count(s: Seq<char>) -> nat
    decreases s.len(),
{
    if s.len() == 0 {
        0
    } else {
        space_count(s.drop_last()) + if is_space(s.last()) { 1nat } else { 0nat }
    }
}

/// Number of characters in `s` that are neither alphabetic nor numeric.
pub open spec fn symbol_count(s: Seq<char>) -> nat
    decreases s.len(),
{
    if s.len() == 0 {
        0
    } else {
        symbol_count(s.drop_last()) + if is_alnum(s.last()) { 0nat } else { 1nat }
    }
}

/// The token estimate of a text: characters, plus whitespace, plus twice the
/// symbols, plus three, divided by four.
pub open spec fn token_estimate(s: Seq<char>) -> nat {
    ((s.len() + space_count(s) + 2 * symbol_count(s) + 3) / 4) as nat
}

proof fn lemma_counts_bounded(s: Seq<char>)
    ensures
        space_count(s) <= s.len(),
        symbol_count(s) <= s.len(),
    decreases s.len(),
{
    if s.len() > 0 {
        lemma_counts_bounded(s.drop_last());
    }
}

/// The estimate never exceeds the number of characters.
pub proof fn lemma_estimate_at_most_length(s: Seq<char>)
    ensures
        token_estimate(s) <= s.len(),
{
    lemma_counts_bounded(s);
    let n = s.len() as int;
    let k = s.len() + space_count(s) + 2 * symbol_count(s) + 3;
    assert(k <= 4 * n + 3);
    assert(k / 4 <= (4 * n + 3) / 4) by {
        vstd::arithmetic::div_mod::lemma_div_is_ordered(k as int, 4 * n + 3, 4);
    }
    assert((4 * n + 3) / 4 == n) by {
        vstd::arithmetic::div_mod::lemma_fundamental_div_mod_converse(4 * n + 3, 4, n, 3);
    }
}

/// The decimal digit character for `d`.
pub open spec fn digit_char(d: nat) -> char {
    (('0' as nat) + d) as char
}

/// The decimal numeral of `n`, without leading zeros.
pub open spec fn decimal(n: nat) -> Seq<char>
    decreases n,
{
    if n < 10 {
        seq![digit_char(n)]
    } else {
        decimal(n / 10).push(digit_char(n % 10))
    }
}

/// The decimal text of `v`, with a minus sign when it is negative.
pub open spec fn signed_decimal(v: int) -> Seq<char> {
    if v < 0 {
        seq!['-'] + decimal((-v) as nat)
    } else {
        decimal(v as nat)
    }
}

/// The one-character text of the digit `d`.
fn digit_text(d: u64) -> (r: &'static str)
    requires
        d < 10,
    ensures
        r@ == seq![digit_char(d as nat)],
{
    proof {
        reveal_strlit("0123456789");
    }
    let digits = "0123456789";
    let r = digits.substring_char(d as usize, d as usize + 1);
    assert(r@ =~= seq![digit_char(d as nat)]);
    r
}

/// The decimal numeral of `n`.
fn decimal_string(n: u64) -> (r: String)
    ensures
        r@ == decimal(n as nat),
    decreases n,
{
    if n < 10 {
        String::from_str(digit_text(n))
    } else {
        let mut r = decimal_string(n / 10);
        r.append(digit_text(n % 10));
        r
    }
}

/// The decimal text of `v`, as `i32`'s `to_string` writes it.
pub fn decimal_text(v: i32) -> (r: String)
    ensures
        r@ == signed_decimal(v as int),
{
    if v < 0 {
        let mut r = String::from_str("-");
        proof {
            reveal_strlit("-");
        }
        let digits = decimal_string((-(v as i64)) as u64);
        r.append(digits.as_str());
        r
    } else {
        decimal_string(v as u64)
    }
}

} // verus!
