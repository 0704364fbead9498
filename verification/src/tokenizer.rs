//! The tokenizer: the rule table put to work on a source string.

use crate::engine::{compile, regex_compiles, regex_source, search};
use crate::rules::{
    accept, first_step, first_step_from, lemma_first_step_shrinks, priority, rule_pattern,
    rule_source, rule_step, scan, Step,
};
use crate::text::{
    first_line, first_line_of, lemma_skip_spaces_len, strip_prefix, trim_leading_spaces,
    trim_whitespace,
};
use crate::token::{Token, TokenType, TokenView};
use regex::Regex;
use vstd::prelude::*;

verus! {

/// Why tokenization stopped before the end of the input.
#[derive(Debug, Clone, PartialEq, Eq)]
pub enum TokenizeError {
    /// No rule matched at the start of the remaining input. The field holds
    /// the first line of that input.
    NoMatch(String),
}

impl TokenizeError {
    /// The first line of the input on which no rule matched.
    pub fn context(&self) -> (context: &str)
        ensures
            self matches TokenizeError::NoMatch(line) && context@ == line@,
    {
        match self {
            TokenizeError::NoMatch(line) => line.as_str(),
        }
    }

    /// The error as a sentence: `no match in`, a space, and the context.
    pub fn message(&self) -> (message: String)
        ensures
            self matches TokenizeError::NoMatch(line) && message@ == "no match in "@ + line@,
    {
        let mut message = String::from_str("no match in ");
        message.append(self.context());
        message
    }
}

/// A step in executable form, seen as mathematics.
pub open spec fn step_view(step: Option<(Token, String)>) -> Option<Step> {
    match step {
        Some((token, rest)) => Some(Step { token: token@, rest: rest@ }),
        None => None,
    }
}

/// What the engine found, in executable form, seen as mathematics.
pub open spec fn found_view(found: Option<(usize, String)>) -> Option<(int, Seq<char>)> {
    match found {
        Some((start, text)) => Some((start as int, text@)),
        None => None,
    }
}

/// Owns the tokens produced so far, and the rule table it scans with.
pub struct Tokenizer {
    tokens: Vec<Token>,
    table: RuleTable,
}

impl View for Tokenizer {
    type V = Seq<TokenView>;

    closed spec fn view(&self) -> Seq<TokenView> {
        self.tokens@.map_values(|token: Token| token@)
    }
}

impl Tokenizer {
    /// A tokenizer that holds no token yet.
    pub fn new() -> (tokenizer: Tokenizer)
        ensures
            tokenizer@ == Seq::<TokenView>::empty(),
    {
        Tokenizer { tokens: Vec::new(), table: RuleTable::new() }
    }

    /// The tokens produced so far, in source order.
    pub fn tokens(&self) -> (tokens: &Vec<Token>)
        ensures
            tokens@.len() == self@.len(),
            forall|i: int| 0 <= i < tokens@.len() ==> (#[trigger] tokens@[i])@ == self@[i],
    {
        &self.tokens
    }

    /// Appends a token.
    pub fn push_token(&mut self, token: Token)
        ensures
            final(self)@ == old(self)@.push(token@),
    {
        self.tokens.push(token);
    }

    /// The kinds in the order in which their rules are tried.
    pub fn get_type_stack() -> (kinds: Vec<TokenType>)
        ensures
            kinds@ == priority(),
    {
        vec![
            TokenType::Name,
            TokenType::Op,
            TokenType::Num,
            TokenType::Text,
            TokenType::Newline,
            TokenType::Eof,
        ]
    }

    /// The compiled rule of the kind; `None` if the engine rejects its
    /// pattern.
    pub fn get_rule(tokentype: &TokenType) -> (rule: Option<Regex>)
        ensures
            rule is Some <==> regex_compiles(rule_pattern(*tokentype)),
            rule matches Some(re) ==> regex_source(re) == rule_pattern(*tokentype),
    {
        compile(rule_source(*tokentype))
    }

    /// Decides whether what the engine found for the rule of `tokentype`
    /// on `src` is a success of that rule, and builds the token and the
    /// remaining input if it is.
    pub fn accept_match(tokentype: &TokenType, src: &str, found: Option<(usize, String)>) -> (step:
        Option<(Token, String)>)
        ensures
            step_view(step) == accept(*tokentype, src@, found_view(found)),
    {
        match found {
            Some((start, text)) => {
                if start != 0 {
                    return None;
                }
                proof {
                    reveal_strlit("");
                    assert(""@ =~= Seq::<char>::empty());
                }
                match tokentype {
                    TokenType::Newline => {
                        let rest = trim_whitespace(src);
                        if rest.unicode_len() < src.unicode_len() {
                            Some((Token::new(tokentype, ""), String::from_str(rest)))
                        } else {
                            None
                        }
                    },
                    TokenType::Eof => {
                        let rest = trim_whitespace(src);
                        if rest.unicode_len() == 0 {
                            Some((Token::new(tokentype, ""), String::from_str(rest)))
                        } else {
                            None
                        }
                    },
                    _ => {
                        match strip_prefix(src, text.as_str()) {
                            Some(after) => {
                                if text.as_str().unicode_len() > 0 {
                                    let rest = trim_leading_spaces(after);
                                    Some((Token::new(tokentype, text.as_str()), String::from_str(rest)))
                                } else {
                                    None
                                }
                            },
                            None => None,
                        }
                    },
                }
            },
            None => None,
        }
    }

    /// Applies a compiled rule to the input.
    fn apply_rule(rule: &Option<Regex>, tokentype: &TokenType, src: &str) -> (step: Option<
        (Token, String),
    >)
        requires
            is_rule_of(*tokentype, *rule),
        ensures
            step_view(step) == rule_step(*tokentype, src@),
    {
        match rule {
            Some(re) => Tokenizer::accept_match(tokentype, src, search(re, src)),
            None => None,
        }
    }

    /// Tries the rule of one kind at the start of `src`. On success it
    /// returns the token and the input that remains after it.
    pub fn parse_token(tokentype: &TokenType, src: &str) -> (step: Option<(Token, String)>)
        ensures
            step_view(step) == rule_step(*tokentype, src@),
    {
        let rule = Tokenizer::get_rule(tokentype);
        Tokenizer::apply_rule(&rule, tokentype, src)
    }

    /// Tokenizes `src` and appends its tokens. It succeeds when the end of
    /// the input is reached, which the last token, an `Eof`, marks. It
    /// fails when no rule matches the remaining input: the tokens made up
    /// to there stay, and the error holds the first line of that input.
    pub fn tokenize(&mut self, src: &str) -> (result: Result<(), TokenizeError>)
        ensures
            final(self)@ == old(self)@ + scan(src@).tokens,
            result is Ok <==> scan(src@).ok,
            result matches Err(TokenizeError::NoMatch(context)) ==> context@ == first_line(
                scan(src@).rest,
            ),
            result is Ok ==> final(self)@.len() > 0 && final(self)@.last().kind == TokenType::Eof,
    {
        let mut rest = String::from_str(src);
        let ghost mut emitted: Seq<TokenView> = Seq::empty();
        proof {
            assert(self@ + emitted == self@);
            assert(emitted + scan(src@).tokens == scan(src@).tokens);
        }
        loop
            invariant
                self@ == old(self)@ + emitted,
                scan(src@).tokens == emitted + scan(rest@).tokens,
                scan(src@).ok == scan(rest@).ok,
                scan(src@).rest == scan(rest@).rest,
            decreases rest@.len(),
        {
            let input = trim_leading_spaces(rest.as_str());
            proof {
                lemma_skip_spaces_len(rest@);
                lemma_first_step_shrinks(input@, 0);
            }
            match self.table.first_step(input) {
                None => {
                    proof {
                        assert(emitted + scan(rest@).tokens == emitted);
                    }
                    return Err(TokenizeError::NoMatch(String::from_str(first_line_of(input))));
                },
                Some((token, after)) => {
                    let at_end = token.tokentype() == TokenType::Eof;
                    proof {
                        let tail = if at_end {
                            Seq::<TokenView>::empty()
                        } else {
                            scan(after@).tokens
                        };
                        assert(scan(rest@).tokens == seq![token@] + tail);
                        assert(emitted + (seq![token@] + tail) == emitted.push(token@) + tail);
                        assert((old(self)@ + emitted).push(token@) == old(self)@ + emitted.push(
                            token@,
                        ));
                        assert(emitted.push(token@) + Seq::<TokenView>::empty() == emitted.push(
                            token@,
                        ));
                        emitted = emitted.push(token@);
                    }
                    self.push_token(token);
                    if at_end {
                        return Ok(());
                    }
                    rest = after;
                },
            }
        }
    }
}

/// The compiled rule of every kind, in priority order. A table is built
/// once and never changes.
struct RuleTable {
    rules: Vec<Option<Regex>>,
}

/// Whether `rule` is what compiling the pattern of `kind` gives.
spec fn is_rule_of(kind: TokenType, rule: Option<Regex>) -> bool {
    &&& rule is Some <==> regex_compiles(rule_pattern(kind))
    &&& rule matches Some(re) ==> regex_source(re) == rule_pattern(kind)
}

/// Whether `rules` holds the compiled rule of every kind, in priority order.
spec fn is_rule_table(rules: Seq<Option<Regex>>) -> bool {
    &&& rules.len() == priority().len()
    &&& forall|i: int| 0 <= i < priority().len() ==> is_rule_of(priority()[i], #[trigger] rules[i])
}

impl RuleTable {
    /// Every entry is what compiling the pattern of its kind gives.
    #[verifier::type_invariant]
    spec fn is_compiled(&self) -> bool {
        is_rule_table(self.rules@)
    }

    /// Compiles the rule of every kind, in priority order: the table holds
    /// one entry for each kind, and each entry is what compiling the
    /// pattern of its kind gives.
    fn new() -> (table: RuleTable)
        ensures
            is_rule_table(table.rules@),
    {
        let kinds = Tokenizer::get_type_stack();
        let mut rules: Vec<Option<Regex>> = Vec::new();
        let mut i: usize = 0;
        while i < kinds.len()
            invariant
                kinds@ == priority(),
                i <= kinds.len(),
                rules@.len() == i,
                forall|j: int| 0 <= j < i ==> is_rule_of(priority()[j], #[trigger] rules@[j]),
            decreases kinds.len() - i,
        {
            let rule = Tokenizer::get_rule(&kinds[i]);
            rules.push(rule);
            i = i + 1;
        }
        RuleTable { rules }
    }

    /// Takes the step of the first rule, in priority order, that succeeds
    /// on `src`.
    fn first_step(&self, src: &str) -> (step: Option<(Token, String)>)
        ensures
            step_view(step) == first_step(src@),
    {
        proof {
            use_type_invariant(self);
        }
        let kinds = Tokenizer::get_type_stack();
        let mut i: usize = 0;
        while i < kinds.len()
            invariant
                kinds@ == priority(),
                is_rule_table(self.rules@),
                i <= kinds.len(),
                first_step(src@) == first_step_from(src@, i as int),
            decreases kinds.len() - i,
        {
            let step = Tokenizer::apply_rule(&self.rules[i], &kinds[i], src);
            if step.is_some() {
                return step;
            }
            i = i + 1;
        }
        None
    }
}

} // verus!
