use vstd::prelude::*;

verus! {

/// Why a document could not be written or read.
#[derive(Clone, Debug, PartialEq, Eq)]
pub enum Error {
    TrailingCharacters,
    ExpectedColon,
    ExpectedMapColon,
    ExpectedMapComma,
    ExpectedMap,
    ExpectedMapEnd,
    ExpectedArrayComma,
    ExpectedArray,
    ExpectedArrayEnd,
    ExpectedEnum,
    ExpectedEnd,
    ExpectedNull,
    ExpectedString,
    ExpectedInteger,
    ExpectedBoolean,
    Eof,
    Syntax,
    /// A value could not be described; the message says why.
    Custom(String),
}

impl Error {
    /// The error that carries `msg`.
    pub fn custom(msg: &str) -> (e: Error)
        ensures
            e matches Error::Custom(text) && text@ == msg@,
    {
        Error::Custom(msg.to_owned())
    }
}

} // verus!
