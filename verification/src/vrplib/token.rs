//! The tokens of a VRPLib file: one per line.
use vstd::prelude::*;

use crate::text::strings_view;

verus! {

/// One line of a VRPLib file: a `KEY : value` header field with the value
/// as text, a section keyword, the end marker, or a row of data words.
#[derive(Debug, PartialEq, Eq)]
pub enum Token {
    Name(String),
    Comment(String),
    Type(String),
    Dimension(String),
    EdgeWeightType(String),
    EdgeWeightFormat(String),
    NodeCoordType(String),
    Capacity(String),
    EdgeWeightSection,
    NodeCoordSection,
    DemandSection,
    DepotSection,
    Eof,
    Data(Vec<String>),
}

/// A line that cannot be a token.
#[derive(Debug, PartialEq, Eq)]
pub enum TokenError {
    /// A `KEY : value` line whose key is not a known header field.
    UnknownKey(String),
}

/// A token, with its texts as character sequences.
pub ghost enum SpecToken {
    Name(Seq<char>),
    Comment(Seq<char>),
    Type(Seq<char>),
    Dimension(Seq<char>),
    EdgeWeightType(Seq<char>),
    EdgeWeightFormat(Seq<char>),
    NodeCoordType(Seq<char>),
    Capacity(Seq<char>),
    EdgeWeightSection,
    NodeCoordSection,
    DemandSection,
    DepotSection,
    Eof,
    Data(Seq<Seq<char>>),
}

impl View for Token {
    type V = SpecToken;

    open spec fn view(&self) -> SpecToken {
        match self {
            Token::Name(s) => SpecToken::Name(s@),
            Token::Comment(s) => SpecToken::Comment(s@),
            Token::Type(s) => SpecToken::Type(s@),
            Token::Dimension(s) => SpecToken::Dimension(s@),
            Token::EdgeWeightType(s) => SpecToken::EdgeWeightType(s@),
            Token::EdgeWeightFormat(s) => SpecToken::EdgeWeightFormat(s@),
            Token::NodeCoordType(s) => SpecToken::NodeCoordType(s@),
            Token::Capacity(s) => SpecToken::Capacity(s@),
            Token::EdgeWeightSection => SpecToken::EdgeWeightSection,
            Token::NodeCoordSection => SpecToken::NodeCoordSection,
            Token::DemandSection => SpecToken::DemandSection,
            Token::DepotSection => SpecToken::DepotSection,
            Token::Eof => SpecToken::Eof,
            Token::Data(d) => SpecToken::Data(strings_view(d@)),
        }
    }
}

/// The views of a sequence of tokens.
pub open spec fn tokens_view(v: Seq<Token>) -> Seq<SpecToken> {
    v.map_values(|t: Token| t@)
}

} // verus!
