//! Token kinds and tokens.

use vstd::prelude::*;

verus! {

/// The closed set of lexical categories. The order of the variants is the
/// order in which the tokenizer tries them.
#[derive(Debug, Clone, Copy, PartialEq, Eq, Structural)]
pub enum TokenType {
    /// An identifier.
    Name,
    /// A single operator or punctuation character.
    Op,
    /// A number; underscores and decimal points are kept as written.
    Num,
    /// A double-quoted text, quotes included.
    Text,
    /// The end of a line.
    Newline,
    /// The end of the input.
    Eof,
}

impl TokenType {
    /// Whether the kind marks a position and carries no text.
    pub open spec fn is_structural(self) -> bool {
        self == TokenType::Newline || self == TokenType::Eof
    }

    /// The display name of each kind.
    pub open spec fn name(self) -> Seq<char> {
        match self {
            TokenType::Name => "Name"@,
            TokenType::Op => "Op"@,
            TokenType::Num => "Num"@,
            TokenType::Text => "Text"@,
            TokenType::Newline => "Newline"@,
            TokenType::Eof => "EOF"@,
        }
    }

    /// The display name of the kind, as an owned string.
    pub fn as_string(&self) -> (s: String)
        ensures
            s@ == self.name(),
    {
        match self {
            TokenType::Name => String::from_str("Name"),
            TokenType::Op => String::from_str("Op"),
            TokenType::Num => String::from_str("Num"),
            TokenType::Text => String::from_str("Text"),
            TokenType::Newline => String::from_str("Newline"),
            TokenType::Eof => String::from_str("EOF"),
        }
    }

    /// A copy of the kind behind the reference.
    pub fn from(tokentype: &TokenType) -> (kind: TokenType)
        ensures
            kind == *tokentype,
    {
        match tokentype {
            TokenType::Name => TokenType::Name,
            TokenType::Op => TokenType::Op,
            TokenType::Num => TokenType::Num,
            TokenType::Text => TokenType::Text,
            TokenType::Newline => TokenType::Newline,
            TokenType::Eof => TokenType::Eof,
        }
    }
}

/// What a token is, mathematically: its kind and the characters of its text.
pub struct TokenView {
    pub kind: TokenType,
    pub text: Seq<char>,
}

/// A classified fragment of source text. Tokens are made by the tokenizer
/// and never change afterwards.
#[derive(Debug, Clone, PartialEq, Eq)]
pub struct Token {
    tokentype: TokenType,
    value: String,
}

impl View for Token {
    type V = TokenView;

    closed spec fn view(&self) -> TokenView {
        TokenView { kind: self.tokentype, text: self.value@ }
    }
}

impl Token {
    /// A token of the given kind with the given text.
    pub fn new(tokentype: &TokenType, value: &str) -> (token: Token)
        ensures
            token@ == (TokenView { kind: *tokentype, text: value@ }),
    {
        Token { tokentype: TokenType::from(tokentype), value: String::from_str(value) }
    }

    /// The kind of the token.
    pub fn tokentype(&self) -> (kind: TokenType)
        ensures
            kind == self@.kind,
    {
        self.tokentype
    }

    /// The text of the token; empty for a structural token.
    pub fn value(&self) -> (text: &str)
        ensures
            text@ == self@.text,
    {
        self.value.as_str()
    }

    /// What the token looks like when printed: kind and text in parentheses.
    pub open spec fn rendering(view: TokenView) -> Seq<char> {
        "("@ + view.kind.name() + ": "@ + view.text + ")"@
    }

    /// The printed form of the token, `(Kind: text)`.
    pub fn to_text(&self) -> (s: String)
        ensures
            s@ == Token::rendering(self@),
    {
        let mut s = String::from_str("(");
        let name = self.tokentype.as_string();
        s.append(name.as_str());
        s.append(": ");
        s.append(self.value.as_str());
        s.append(")");
        s
    }
}

} // verus!
