//! What holds of every tokenization.

use crate::engine::regex_find;
use crate::rules::{
    accept, first_step, first_step_from, lemma_first_step_shrinks, priority, rule_pattern,
    rule_step, scan,
};
use crate::text::{
    first_line, lemma_significant_concat, lemma_significant_skip_spaces, lemma_significant_trim,
    lemma_skip_spaces_len, significant, without_prefix,
};
use crate::token::{TokenType, TokenView};
use crate::tokenizer::TokenizeError;
use vstd::prelude::*;

verus! {

/// Whether the token marks the end of the input.
pub open spec fn is_eof(token: TokenView) -> bool {
    token.kind == TokenType::Eof
}

/// Whether the token has the text that is due to its kind: none if the kind
/// is structural, some if it is not.
pub open spec fn has_due_text(token: TokenView) -> bool {
    token.kind.is_structural() <==> token.text.len() == 0
}

/// The texts of the tokens, one after the other.
pub open spec fn texts(tokens: Seq<TokenView>) -> Seq<char>
    decreases tokens.len(),
{
    if tokens.len() == 0 {
        Seq::empty()
    } else {
        tokens[0].text + texts(tokens.drop_first())
    }
}

/// A successful step accounts for every significant character of its
/// input: each is in the token's text or in the rest. A structural token
/// has no text, and an `Eof` leaves nothing.
pub proof fn lemma_accept_keeps_significant(
    kind: TokenType,
    src: Seq<char>,
    found: Option<(int, Seq<char>)>,
)
    ensures
        accept(kind, src, found) matches Some(step) ==> {
            &&& significant(src) == significant(step.token.text) + significant(step.rest)
            &&& kind.is_structural() ==> step.token.text.len() == 0
            &&& kind == TokenType::Eof ==> step.rest.len() == 0
        },
{
    if let Some(step) = accept(kind, src, found) {
        if kind.is_structural() {
            lemma_significant_trim(src);
            let kept = significant(step.rest);
            assert(significant(step.token.text) + kept == kept);
        } else {
            let text = step.token.text;
            let after = without_prefix(src, text)->0;
            assert(src == text + after);
            lemma_significant_concat(text, after);
            lemma_significant_skip_spaces(after);
        }
    }
}

/// The step of the first rule that succeeds accounts for every significant
/// character of its input.
pub proof fn lemma_first_step_keeps_significant(src: Seq<char>, from: int)
    ensures
        first_step_from(src, from) matches Some(step) ==> {
            &&& significant(src) == significant(step.token.text) + significant(step.rest)
            &&& step.token.kind.is_structural() ==> step.token.text.len() == 0
            &&& step.token.kind == TokenType::Eof ==> step.rest.len() == 0
        },
    decreases priority().len() - from,
{
    if 0 <= from < priority().len() {
        let kind = priority()[from];
        let found = regex_find(rule_pattern(kind), src);
        lemma_accept_keeps_significant(kind, src, found);
        lemma_first_step_keeps_significant(src, from + 1);
    }
}

/// Reconstruction. At any point of a tokenization, the texts of the tokens
/// followed by the input that remains hold the significant characters of
/// the source, in order. After a success nothing remains, so the texts of
/// the tokens alone are the source up to whitespace.
pub proof fn lemma_reconstruction(src: Seq<char>)
    ensures
        significant(src) == significant(texts(scan(src).tokens)) + significant(scan(src).rest),
        scan(src).ok ==> scan(src).rest.len() == 0,
        scan(src).ok ==> significant(src) == significant(texts(scan(src).tokens)),
    decreases src.len(),
{
    let input = crate::text::skip_spaces(src);
    lemma_significant_skip_spaces(src);
    lemma_skip_spaces_len(src);
    lemma_first_step_shrinks(input, 0);
    lemma_first_step_keeps_significant(input, 0);
    match first_step(input) {
        None => {
            assert(texts(scan(src).tokens) == Seq::<char>::empty());
            assert(significant(Seq::<char>::empty()) + significant(input) == significant(input));
        },
        Some(step) => {
            let tail = if step.token.kind == TokenType::Eof {
                Seq::<TokenView>::empty()
            } else {
                scan(step.rest).tokens
            };
            assert(scan(src).tokens == seq![step.token] + tail);
            assert((seq![step.token] + tail).drop_first() == tail);
            assert(texts(scan(src).tokens) == step.token.text + texts(tail));
            lemma_significant_concat(step.token.text, texts(tail));
            if step.token.kind == TokenType::Eof {
                assert(step.token.text + texts(tail) == step.token.text);
                assert(significant(step.rest) == Seq::<char>::empty());
            } else {
                lemma_reconstruction(step.rest);
                let head = significant(step.token.text);
                let middle = significant(texts(tail));
                let left = significant(scan(src).rest);
                assert(head + (middle + left) == (head + middle) + left);
            }
        },
    }
    if scan(src).ok {
        let kept = significant(texts(scan(src).tokens));
        assert(kept + significant(scan(src).rest) == kept);
    }
}

/// How a tokenization ends. After a success the last token is an `Eof`;
/// after a failure no rule succeeds on the input that remains. Either way
/// an `Eof` stands nowhere but at the end of a success, so no token follows
/// one.
pub proof fn lemma_scan_outcome(src: Seq<char>)
    ensures
        scan(src).ok ==> scan(src).tokens.len() > 0 && is_eof(scan(src).tokens.last()),
        !scan(src).ok ==> first_step(scan(src).rest) is None,
        forall|i: int|
            0 <= i < scan(src).tokens.len() && #[trigger] is_eof(scan(src).tokens[i]) ==> scan(
                src,
            ).ok && i == scan(src).tokens.len() - 1,
    decreases src.len(),
{
    let input = crate::text::skip_spaces(src);
    lemma_skip_spaces_len(src);
    lemma_first_step_shrinks(input, 0);
    match first_step(input) {
        None => {},
        Some(step) => {
            if step.token.kind != TokenType::Eof {
                lemma_scan_outcome(step.rest);
                let tokens = scan(src).tokens;
                let tail = scan(step.rest).tokens;
                assert forall|i: int|
                    0 <= i < tokens.len() && #[trigger] is_eof(tokens[i]) implies scan(src).ok
                    && i == tokens.len() - 1 by {
                    assert(i > 0);
                    assert(tokens[i] == tail[i - 1]);
                    assert(is_eof(tail[i - 1]));
                }
            }
        },
    }
}

/// Determinism. Two runs of the tokenizer on the same source, started with
/// the same tokens, end with the same tokens and the same verdict, and
/// after a failure with the same context.
pub proof fn lemma_tokenize_deterministic(
    src: Seq<char>,
    before: Seq<TokenView>,
    after1: Seq<TokenView>,
    result1: Result<(), TokenizeError>,
    after2: Seq<TokenView>,
    result2: Result<(), TokenizeError>,
)
    requires
        after1 == before + scan(src).tokens,
        result1 is Ok <==> scan(src).ok,
        result1 matches Err(TokenizeError::NoMatch(context)) ==> context@ == first_line(
            scan(src).rest,
        ),
        after2 == before + scan(src).tokens,
        result2 is Ok <==> scan(src).ok,
        result2 matches Err(TokenizeError::NoMatch(context)) ==> context@ == first_line(
            scan(src).rest,
        ),
    ensures
        after1 == after2,
        result1 is Ok <==> result2 is Ok,
        result1 is Err ==> result1->Err_0->NoMatch_0@ == result2->Err_0->NoMatch_0@,
{
}

/// Priority. The step taken on an input is the step of the first kind, in
/// priority order, whose rule succeeds on it: every kind before that one
/// fails. No step is taken exactly when the rule of every kind fails.
pub proof fn lemma_first_step_priority(src: Seq<char>)
    ensures
        first_step(src) matches Some(step) ==> exists|j: int|
            {
                &&& 0 <= j < priority().len()
                &&& #[trigger] rule_step(priority()[j], src) == Some(step)
                &&& forall|i: int| 0 <= i < j ==> rule_step(#[trigger] priority()[i], src) is None
            },
        first_step(src) is None <==> forall|i: int|
            0 <= i < priority().len() ==> rule_step(#[trigger] priority()[i], src) is None,
{
    lemma_first_step_from_priority(src, 0);
}

/// The same, for the rules from position `from` on, given that the rules
/// before it fail.
proof fn lemma_first_step_from_priority(src: Seq<char>, from: int)
    requires
        0 <= from <= priority().len(),
        first_step_from(src, from) == first_step(src),
        forall|i: int| 0 <= i < from ==> rule_step(#[trigger] priority()[i], src) is None,
    ensures
        first_step(src) matches Some(step) ==> exists|j: int|
            {
                &&& 0 <= j < priority().len()
                &&& #[trigger] rule_step(priority()[j], src) == Some(step)
                &&& forall|i: int| 0 <= i < j ==> rule_step(#[trigger] priority()[i], src) is None
            },
        first_step(src) is None <==> forall|i: int|
            0 <= i < priority().len() ==> rule_step(#[trigger] priority()[i], src) is None,
    decreases priority().len() - from,
{
    if from < priority().len() {
        match rule_step(priority()[from], src) {
            Some(step) => {
                assert(rule_step(priority()[from], src) == Some(step));
            },
            None => {
                lemma_first_step_from_priority(src, from + 1);
            },
        }
    }
}

/// Every token of a tokenization has the text that is due to its kind: a
/// structural token has none, and every other token has some.
pub proof fn lemma_scan_token_texts(src: Seq<char>)
    ensures
        forall|i: int|
            0 <= i < scan(src).tokens.len() ==> #[trigger] has_due_text(scan(src).tokens[i]),
    decreases src.len(),
{
    let input = crate::text::skip_spaces(src);
    lemma_skip_spaces_len(src);
    lemma_first_step_shrinks(input, 0);
    lemma_first_step_texts(input, 0);
    match first_step(input) {
        None => {},
        Some(step) => {
            if step.token.kind != TokenType::Eof {
                lemma_scan_token_texts(step.rest);
                let tokens = scan(src).tokens;
                let tail = scan(step.rest).tokens;
                assert forall|i: int| 0 <= i < tokens.len() implies #[trigger] has_due_text(
                    tokens[i],
                ) by {
                    if i > 0 {
                        assert(tokens[i] == tail[i - 1]);
                        assert(has_due_text(tail[i - 1]));
                    }
                }
            }
        },
    }
}

/// The token of a step has text exactly when its kind is not structural.
proof fn lemma_first_step_texts(src: Seq<char>, from: int)
    ensures
        first_step_from(src, from) matches Some(step) ==> has_due_text(step.token),
    decreases priority().len() - from,
{
    if 0 <= from < priority().len() {
        lemma_first_step_texts(src, from + 1);
    }
}

} // verus!
