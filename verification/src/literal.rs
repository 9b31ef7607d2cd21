//! String literals for the entry point. A namespace becomes a Rust string
//! literal as the `quote` crate writes one. The library checks that literal
//! before it is used: a quote or a control character of the namespace can
//! never end the literal early or reach the source text unescaped, and what
//! the literal stands for is the namespace.

use vstd::prelude::*;
use crate::escape::{
    escape_of,
    escapes_of,
    hex,
    hex_digit,
    lemma_spelled_out_stands_for,
    literal_stands_for,
    spell_out,
    spelled_out,
    stands_for,
};

verus! {

/// The token text that `quote` gives for a string: a Rust string literal.
pub uninterp spec fn quoted_text(text: Seq<char>) -> Seq<char>;

/// `quote::ToTokens::to_token_stream` on a `str`, written out with
/// `to_string`: the text of the one string literal token. In a program
/// that is no procedural macro that text is written by `proc_macro2`
/// itself, as a function of the string alone.
#[verifier::external_body]
fn quoted(text: &str) -> (literal: String)
    ensures
        literal@ == quoted_text(text@),
{
    quote::ToTokens::to_token_stream(text).to_string()
}

/// A control character: one of the ranges U+0000 to U+001F and U+007F to
/// U+009F.
pub open spec fn is_control(c: char) -> bool {
    c as u32 <= 0x1f || 0x7f <= c as u32 <= 0x9f
}

/// What stands between the quotes of a literal is closed in itself: it
/// holds no control character; every backslash is followed by a character
/// that it escapes; and no quote stands unescaped. `pending` says that the
/// character before `body` was a backslash that still escapes the next.
pub open spec fn body_is_closed(body: Seq<char>, pending: bool) -> bool
    decreases body.len(),
{
    if body.len() == 0 {
        !pending
    } else if is_control(body[0]) {
        false
    } else if pending {
        body_is_closed(body.drop_first(), false)
    } else if body[0] == '\\' {
        body_is_closed(body.drop_first(), true)
    } else if body[0] == '"' {
        false
    } else {
        body_is_closed(body.drop_first(), false)
    }
}

/// The text is one string literal and nothing more: it opens with a quote,
/// ends with the quote that closes it, and is closed in between.
pub open spec fn embeds_safely(literal: Seq<char>) -> bool {
    &&& literal.len() >= 2
    &&& literal[0] == '"'
    &&& literal.last() == '"'
    &&& body_is_closed(literal.subrange(1, literal.len() - 1), false)
}

/// The literal to use for a text, given a candidate: the candidate where
/// it embeds safely and stands for the text, else the literal that spells
/// every character of the text out.
pub open spec fn chosen_literal(text: Seq<char>, candidate: Seq<char>) -> Seq<char> {
    if embeds_safely(candidate) && stands_for(candidate, text) {
        candidate
    } else {
        spelled_out(text)
    }
}

/// The literal for a namespace: chosen with the literal that `quote`
/// writes as the candidate.
pub open spec fn namespace_literal(ns: Seq<char>) -> Seq<char> {
    chosen_literal(ns, quoted_text(ns))
}

/// Neither a control character, nor a backslash, nor a quote.
pub open spec fn is_plain(c: char) -> bool {
    !is_control(c) && c != '\\' && c != '"'
}

proof fn lemma_plain_run(run: Seq<char>, rest: Seq<char>)
    requires
        forall|i: int| 0 <= i < run.len() ==> is_plain(#[trigger] run[i]),
    ensures
        body_is_closed(run + rest, false) == body_is_closed(rest, false),
    decreases run.len(),
{
    if run.len() == 0 {
    } else {
        assert((run + rest).drop_first() =~= run.drop_first() + rest);
        assert forall|i: int| 0 <= i < run.drop_first().len() implies is_plain(
            #[trigger] run.drop_first()[i],
        ) by {
            assert(run.drop_first()[i] == run[i + 1]);
        }
        lemma_plain_run(run.drop_first(), rest);
    }
}

proof fn lemma_hex_digit_is_plain(d: nat)
    requires
        d < 16,
    ensures
        is_plain(hex_digit(d)),
{
}

proof fn lemma_hex_is_plain(n: nat)
    ensures
        forall|i: int| 0 <= i < hex(n).len() ==> is_plain(#[trigger] hex(n)[i]),
    decreases n,
{
    if n >= 16 {
        lemma_hex_is_plain(n / 16);
        lemma_hex_digit_is_plain(n % 16);
        assert forall|i: int| 0 <= i < hex(n).len() implies is_plain(#[trigger] hex(n)[i]) by {
            if i < hex(n / 16).len() {
                assert(hex(n)[i] == hex(n / 16)[i]);
            }
        }
    } else {
        lemma_hex_digit_is_plain(n);
    }
}

proof fn lemma_escape_is_closed(c: char, rest: Seq<char>)
    ensures
        body_is_closed(escape_of(c) + rest, false) == body_is_closed(rest, false),
{
    reveal_strlit("\\u{");
    reveal_strlit("}");
    let whole = escape_of(c) + rest;
    let run = seq!['{'] + hex(c as u32 as nat) + seq!['}'];
    assert(whole.drop_first().drop_first() =~= run + rest);
    assert(body_is_closed(whole, false) == body_is_closed(whole.drop_first(), true));
    lemma_hex_is_plain(c as u32 as nat);
    assert forall|i: int| 0 <= i < run.len() implies is_plain(#[trigger] run[i]) by {
        if 1 <= i < run.len() - 1 {
            assert(run[i] == hex(c as u32 as nat)[i - 1]);
        }
    }
    lemma_plain_run(run, rest);
}

proof fn lemma_escapes_are_closed(text: Seq<char>, rest: Seq<char>)
    ensures
        body_is_closed(escapes_of(text) + rest, false) == body_is_closed(rest, false),
    decreases text.len(),
{
    if text.len() == 0 {
    } else {
        let after = escape_of(text.last()) + rest;
        assert(escapes_of(text) + rest =~= escapes_of(text.drop_last()) + after);
        lemma_escapes_are_closed(text.drop_last(), after);
        lemma_escape_is_closed(text.last(), rest);
    }
}

/// The spelled-out literal of any text embeds safely.
pub proof fn lemma_spelled_out_is_safe(text: Seq<char>)
    ensures
        embeds_safely(spelled_out(text)),
{
    reveal_strlit("\"");
    let literal = spelled_out(text);
    assert(literal.subrange(1, literal.len() - 1) =~= escapes_of(text));
    lemma_escapes_are_closed(text, Seq::empty());
}

/// Whatever the candidate, the chosen literal embeds safely and stands for
/// the text.
pub proof fn lemma_chosen_literal(text: Seq<char>, candidate: Seq<char>)
    ensures
        embeds_safely(chosen_literal(text, candidate)),
        stands_for(chosen_literal(text, candidate), text),
{
    lemma_spelled_out_is_safe(text);
    lemma_spelled_out_stands_for(text);
}

/// The literal of every namespace embeds safely and stands for the
/// namespace.
pub proof fn lemma_namespace_literal(ns: Seq<char>)
    ensures
        embeds_safely(namespace_literal(ns)),
        stands_for(namespace_literal(ns), ns),
{
    lemma_chosen_literal(ns, quoted_text(ns));
}

/// Decides [`embeds_safely`].
pub fn is_safe_literal(literal: &str) -> (safe: bool)
    ensures
        safe == embeds_safely(literal@),
{
    let n = literal.unicode_len();
    if n < 2 {
        return false;
    }
    let ghost body = literal@.subrange(1, n - 1);
    let mut pending = false;
    let mut k: usize = 0;
    for c in it: literal.chars()
        invariant
            it.seq() == literal@,
            n == literal@.len(),
            n >= 2,
            body == literal@.subrange(1, n - 1),
            k == it.index(),
            k < n,
            k == 0 ==> !pending,
            k >= 1 ==> literal@[0] == '"',
            k >= 1 ==> body_is_closed(body, false) == body_is_closed(
                body.skip(k as int - 1),
                pending,
            ),
    {
        if k == 0 {
            if c != '"' {
                return false;
            }
            assert(body.skip(0) =~= body);
        } else if k == n - 1 {
            return c == '"' && !pending;
        } else {
            let ghost here = body.skip(k as int - 1);
            assert(here.drop_first() =~= body.skip(k as int));
            let code = c as u32;
            if code <= 0x1f || (0x7f <= code && code <= 0x9f) {
                return false;
            }
            if pending {
                pending = false;
            } else if c == '\\' {
                pending = true;
            } else if c == '"' {
                return false;
            }
        }
        k += 1;
    }
    false
}

/// Chooses the literal for a text, given a candidate: the candidate where
/// it embeds safely and stands for the text, else the spelled-out literal.
pub fn checked_literal(text: &str, candidate: String) -> (literal: String)
    ensures
        literal@ == chosen_literal(text@, candidate@),
        embeds_safely(literal@),
        stands_for(literal@, text@),
{
    proof {
        lemma_chosen_literal(text@, candidate@);
    }
    if is_safe_literal(candidate.as_str()) && literal_stands_for(candidate.as_str(), text) {
        candidate
    } else {
        spell_out(text)
    }
}

/// The string literal that stands for a namespace in the entry point.
pub fn literal_of(ns: &str) -> (literal: String)
    ensures
        literal@ == namespace_literal(ns@),
        embeds_safely(literal@),
        stands_for(literal@, ns@),
{
    checked_literal(ns, quoted(ns))
}

} // verus!
