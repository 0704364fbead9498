//! The rule table and the meaning of tokenization, as mathematics.
//!
//! A rule is a pattern anchored at the start of the remaining input. The
//! engine reports what a pattern finds; `accept` decides whether that is a
//! success of the rule, and what is left of the input afterwards.

use crate::engine::{regex_compiles, regex_find};
use crate::text::{lemma_skip_spaces_len, lemma_trim_len, skip_spaces, trim, without_prefix};
use crate::token::{TokenType, TokenView};
use vstd::prelude::*;

verus! {

/// The kinds in the order in which their rules are tried.
pub open spec fn priority() -> Seq<TokenType> {
    seq![
        TokenType::Name,
        TokenType::Op,
        TokenType::Num,
        TokenType::Text,
        TokenType::Newline,
        TokenType::Eof,
    ]
}

/// A name: a letter or an underscore, then any number of letters, digits
/// and underscores, in either case. The second alternative takes the name
/// of a single character.
pub const NAME_PATTERN: &'static str = "^(?i)[a-z_][a-z_0-9]+|^(?i)[a-z_]";

/// An operator: one character of a fixed set, which holds the signs of
/// arithmetic and comparison, the punctuation marks, and the arrows to
/// the left and to the right.
pub const OP_PATTERN: &'static str = "^[+\\-*=.,;:!?|\\u2190\\u2192]";

/// A number: a digit, then one or more digits, underscores and points.
pub const NUM_PATTERN: &'static str = "^[0-9][0-9_.]+";

/// A quoted text: a double quote, the shortest run of characters of one
/// line, and a double quote.
pub const TEXT_PATTERN: &'static str = "^\".*?\"";

/// A single line feed.
pub const NEWLINE_PATTERN: &'static str = "^\\n";

/// The empty position at the very end of the input.
pub const EOF_PATTERN: &'static str = "^\\z";

/// The pattern of each kind, in the syntax of the engine.
pub open spec fn rule_pattern(kind: TokenType) -> Seq<char> {
    match kind {
        TokenType::Name => NAME_PATTERN@,
        TokenType::Op => OP_PATTERN@,
        TokenType::Num => NUM_PATTERN@,
        TokenType::Text => TEXT_PATTERN@,
        TokenType::Newline => NEWLINE_PATTERN@,
        TokenType::Eof => EOF_PATTERN@,
    }
}

/// One step of tokenization: the token that was recognised and the input
/// that remains after it.
pub struct Step {
    pub token: TokenView,
    pub rest: Seq<char>,
}

/// Whether what the engine found is a success of the rule of `kind` on
/// `src`, and if so, the step it makes.
///
/// A match counts only if it starts at the very beginning of the input.
/// - `Newline` and `Eof` carry no text, and the rest is the input without
///   its surrounding whitespace. A `Newline` must thereby consume
///   something; an `Eof` must leave nothing.
/// - Every other kind carries the matched text, which must be a non-empty
///   prefix of the input; the rest is what follows it, without leading
///   spaces.
pub open spec fn accept(kind: TokenType, src: Seq<char>, found: Option<(int, Seq<char>)>) -> Option<
    Step,
> {
    match found {
        Some((start, text)) => {
            if start != 0 {
                None
            } else if kind == TokenType::Newline {
                if trim(src).len() < src.len() {
                    Some(Step { token: TokenView { kind, text: Seq::empty() }, rest: trim(src) })
                } else {
                    None
                }
            } else if kind == TokenType::Eof {
                if trim(src).len() == 0 {
                    Some(Step { token: TokenView { kind, text: Seq::empty() }, rest: trim(src) })
                } else {
                    None
                }
            } else {
                match without_prefix(src, text) {
                    Some(after) => {
                        if text.len() > 0 {
                            Some(Step { token: TokenView { kind, text }, rest: skip_spaces(after) })
                        } else {
                            None
                        }
                    },
                    None => None,
                }
            }
        },
        None => None,
    }
}

/// The step that the rule of `kind` makes on `src`, if it succeeds. A rule
/// whose pattern the engine does not accept never succeeds.
pub open spec fn rule_step(kind: TokenType, src: Seq<char>) -> Option<Step> {
    if regex_compiles(rule_pattern(kind)) {
        accept(kind, src, regex_find(rule_pattern(kind), src))
    } else {
        None
    }
}

/// The step of the first rule that succeeds on `src`, among the rules from
/// position `from` of the priority order on.
pub open spec fn first_step_from(src: Seq<char>, from: int) -> Option<Step>
    decreases priority().len() - from,
{
    if 0 <= from < priority().len() {
        match rule_step(priority()[from], src) {
            Some(step) => Some(step),
            None => first_step_from(src, from + 1),
        }
    } else {
        None
    }
}

/// The step of the first rule, in priority order, that succeeds on `src`.
pub open spec fn first_step(src: Seq<char>) -> Option<Step> {
    first_step_from(src, 0)
}

/// A successful step of any kind but `Eof` leaves less input than it found.
pub proof fn lemma_accept_shrinks(kind: TokenType, src: Seq<char>, found: Option<(int, Seq<char>)>)
    ensures
        accept(kind, src, found) matches Some(step) ==> {
            &&& step.token.kind == kind
            &&& step.rest.len() <= src.len()
            &&& kind != TokenType::Eof ==> step.rest.len() < src.len()
        },
{
    lemma_trim_len(src);
    if let Some((start, text)) = found {
        if let Some(after) = without_prefix(src, text) {
            lemma_skip_spaces_len(after);
        }
    }
}

/// The step that `first_step_from` picks is the step of one of the rules,
/// so it carries that rule's kind and, unless the kind is `Eof`, shrinks
/// the input.
pub proof fn lemma_first_step_shrinks(src: Seq<char>, from: int)
    ensures
        first_step_from(src, from) matches Some(step) ==> {
            &&& step.rest.len() <= src.len()
            &&& step.token.kind != TokenType::Eof ==> step.rest.len() < src.len()
        },
    decreases priority().len() - from,
{
    if 0 <= from < priority().len() {
        let kind = priority()[from];
        lemma_accept_shrinks(kind, src, regex_find(rule_pattern(kind), src));
        lemma_first_step_shrinks(src, from + 1);
    }
}

/// The outcome of tokenizing a whole input.
pub struct Scan {
    /// The tokens in source order.
    pub tokens: Seq<TokenView>,
    /// Whether the end of the input was reached.
    pub ok: bool,
    /// The input on which no rule succeeded; empty after a success.
    pub rest: Seq<char>,
}

/// Tokenization: drop the leading spaces, take the step of the first rule
/// that succeeds, and go on with what it leaves, until the step is an
/// `Eof` (success) or no rule succeeds (failure).
pub open spec fn scan(src: Seq<char>) -> Scan
    decreases src.len(),
    via scan_decreases
{
    let input = skip_spaces(src);
    match first_step(input) {
        None => Scan { tokens: Seq::empty(), ok: false, rest: input },
        Some(step) => {
            if step.token.kind == TokenType::Eof {
                Scan { tokens: seq![step.token], ok: true, rest: step.rest }
            } else {
                let tail = scan(step.rest);
                Scan { tokens: seq![step.token] + tail.tokens, ok: tail.ok, rest: tail.rest }
            }
        },
    }
}

#[via_fn]
proof fn scan_decreases(src: Seq<char>) {
    lemma_skip_spaces_len(src);
    lemma_first_step_shrinks(skip_spaces(src), 0);
}

/// The pattern of the rule of `kind`, as the engine takes it.
pub fn rule_source(kind: TokenType) -> (pattern: &'static str)
    ensures
        pattern@ == rule_pattern(kind),
{
    match kind {
        TokenType::Name => NAME_PATTERN,
        TokenType::Op => OP_PATTERN,
        TokenType::Num => NUM_PATTERN,
        TokenType::Text => TEXT_PATTERN,
        TokenType::Newline => NEWLINE_PATTERN,
        TokenType::Eof => EOF_PATTERN,
    }
}

} // verus!
