//! The failure values a parse can end in. A line either parses completely
//! into a feature set or produces exactly one of these; there is no partial
//! result.

use vstd::prelude::*;

verus! {

/// The spec-level image of a [`ParseError`], with byte sequences and
/// unbounded integers in place of vectors and machine words.
pub enum ParseErrorModel {
    MalformedNumber { token: Seq<u8>, section: int, token_index: int },
    IncompleteParse { token: Seq<u8> },
    HashFailure,
}

/// Why a line failed to parse.
#[derive(Debug, PartialEq, Eq)]
pub enum ParseError {
    /// A label or feature value token that is not a floating-point literal.
    /// `token` is the offending value text; `section` counts the
    /// `|`-delimited sections of the line with the label/tag section as 0;
    /// `token_index` is the 0-based position of the feature token inside its
    /// section, not counting the namespace name.
    MalformedNumber { token: Vec<u8>, section: usize, token_index: usize },
    /// Leftover input where the grammar demands the whole line be consumed:
    /// a second token after the tag in the label/tag section. `token` is the
    /// first token that could not be placed.
    IncompleteParse { token: Vec<u8> },
    /// Reserved for text-encoding failures ahead of hashing. The current
    /// hasher is total over byte strings, so no parse produces this value.
    HashFailure,
}

impl View for ParseError {
    type V = ParseErrorModel;

    open spec fn view(&self) -> ParseErrorModel {
        match self {
            ParseError::MalformedNumber { token, section, token_index } =>
                ParseErrorModel::MalformedNumber {
                    token: token@,
                    section: *section as int,
                    token_index: *token_index as int,
                },
            ParseError::IncompleteParse { token } => ParseErrorModel::IncompleteParse {
                token: token@,
            },
            ParseError::HashFailure => ParseErrorModel::HashFailure,
        }
    }
}

} // verus!
