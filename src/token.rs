use vstd::prelude::*;
use crate::span::FC;

verus! {

/// What a token is, as the lexer hands it over.
#[derive(Debug, PartialEq, Eq)]
pub enum TokenKind {
    Record,
    Extern,
    Gene,
    Rule,
    When,
    Call,
    Express,
    Nothing,
    ParenOpen,
    ParenClose,
    BraceOpen,
    BraceClose,
    BracketOpen,
    BracketClose,
    Comma,
    Colon,
    Dot,
    ArrowR,
    OpPlus,
    OpMinus,
    OpStar,
    OpSlash,
    OpEquals,
    OpNotEquals,
    OpLessThan,
    OpLessThanEqual,
    OpGreaterThan,
    OpGreaterThanEqual,
    IntegerLiteral(u64),
    StringLiteral(String),
    Identifier(String),
}

/// A token: its kind and where it stands in the source.
#[derive(Debug, PartialEq, Eq)]
pub struct Token {
    pub kind: TokenKind,
    pub fc: FC,
}

/// The punctuation tokens that the grammar expects at fixed places.
#[derive(Debug, Clone, Copy, PartialEq, Eq, Structural)]
pub enum Punct {
    ParenOpen,
    ParenClose,
    BraceOpen,
    BraceClose,
    BracketClose,
    Comma,
    Colon,
    Dot,
    ArrowR,
    Plus,
}

/// Whether a token kind is the given punctuation.
pub open spec fn is_punct(k: TokenKind, d: Punct) -> bool {
    match d {
        Punct::ParenOpen => k is ParenOpen,
        Punct::ParenClose => k is ParenClose,
        Punct::BraceOpen => k is BraceOpen,
        Punct::BraceClose => k is BraceClose,
        Punct::BracketClose => k is BracketClose,
        Punct::Comma => k is Comma,
        Punct::Colon => k is Colon,
        Punct::Dot => k is Dot,
        Punct::ArrowR => k is ArrowR,
        Punct::Plus => k is OpPlus,
    }
}

impl Token {
    /// Tests whether this token is the punctuation `d`.
    pub fn is(&self, d: Punct) -> (r: bool)
        ensures
            r == is_punct(self.kind, d),
    {
        match d {
            Punct::ParenOpen => matches!(self.kind, TokenKind::ParenOpen),
            Punct::ParenClose => matches!(self.kind, TokenKind::ParenClose),
            Punct::BraceOpen => matches!(self.kind, TokenKind::BraceOpen),
            Punct::BraceClose => matches!(self.kind, TokenKind::BraceClose),
            Punct::BracketClose => matches!(self.kind, TokenKind::BracketClose),
            Punct::Comma => matches!(self.kind, TokenKind::Comma),
            Punct::Colon => matches!(self.kind, TokenKind::Colon),
            Punct::Dot => matches!(self.kind, TokenKind::Dot),
            Punct::ArrowR => matches!(self.kind, TokenKind::ArrowR),
            Punct::Plus => matches!(self.kind, TokenKind::OpPlus),
        }
    }
}

} // verus!
