use vstd::prelude::*;

verus! {

/// One lexical unit of the language, as the tokenizer produces it.
///
/// A numeric literal is held as the bit pattern of the IEEE 754 double that
/// its decimal text denotes.
#[derive(Debug, Clone, PartialEq)]
pub enum Token {
    Identifier(String),
    Number(u64),
    String(String),
    Operator(String),
    Symbol(String),
    Keyword(String),
    Boolean(bool),
    Comment(String),
    Newline,
    EOF,
}

/// The mathematical shape of a token: its text as a sequence of characters.
pub enum TokenV {
    Identifier(Seq<char>),
    Number(u64),
    String(Seq<char>),
    Operator(Seq<char>),
    Symbol(Seq<char>),
    Keyword(Seq<char>),
    Boolean(bool),
    Comment(Seq<char>),
    Newline,
    EOF,
}

impl View for Token {
    type V = TokenV;

    open spec fn view(&self) -> TokenV {
        match self {
            Token::Identifier(s) => TokenV::Identifier(s@),
            Token::Number(b) => TokenV::Number(*b),
            Token::String(s) => TokenV::String(s@),
            Token::Operator(s) => TokenV::Operator(s@),
            Token::Symbol(s) => TokenV::Symbol(s@),
            Token::Keyword(s) => TokenV::Keyword(s@),
            Token::Boolean(b) => TokenV::Boolean(*b),
            Token::Comment(s) => TokenV::Comment(s@),
            Token::Newline => TokenV::Newline,
            Token::EOF => TokenV::EOF,
        }
    }
}

/// The views of a sequence of tokens, in order.
pub open spec fn toks_vw(ts: Seq<Token>) -> Seq<TokenV> {
    ts.map_values(|t: Token| t@)
}

} // verus!
