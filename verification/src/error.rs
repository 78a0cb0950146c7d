//! What a failed parse reports.

use vstd::prelude::*;

verus! {

/// Why a command could not be read.
#[derive(Debug, Clone, Copy, PartialEq, Eq)]
pub enum ParseErrorKind {
    /// Another character stands where a fixed character of the command
    /// belongs: its letter, or the carriage return that closes it.
    Tag,
    /// The first character is none of `t`, `T`, `r` and `R`.
    Kind,
    /// The character where the bitrate code belongs is no decimal digit.
    Digit,
    /// The input ends before the command does.
    Eof,
    /// The digits of the bitrate code name none of the nine bitrates.
    Bitrate,
    /// A field that holds a number has a character that is no hexadecimal
    /// digit.
    HexDigit,
    /// The identifier is too large for its kind.
    Identifier,
    /// The declared length is more than eight.
    Length,
}

impl ParseErrorKind {
    /// Whether the command was recognised by its letter and then found
    /// invalid. After such an error no other command is tried on the input.
    pub open spec fn spec_is_fatal(&self) -> bool {
        match self {
            ParseErrorKind::Bitrate => true,
            ParseErrorKind::HexDigit => true,
            ParseErrorKind::Identifier => true,
            ParseErrorKind::Length => true,
            _ => false,
        }
    }

    /// Whether the command was recognised by its letter and then found
    /// invalid. After such an error no other command is tried on the input.
    #[verifier::when_used_as_spec(spec_is_fatal)]
    pub fn is_fatal(&self) -> (r: bool)
        ensures
            r == self.spec_is_fatal(),
    {
        match self {
            ParseErrorKind::Bitrate => true,
            ParseErrorKind::HexDigit => true,
            ParseErrorKind::Identifier => true,
            ParseErrorKind::Length => true,
            _ => false,
        }
    }
}

/// A parse error as the grammar states it: the kind and the position.
pub struct ParseErrorView {
    pub kind: ParseErrorKind,
    pub position: nat,
}

/// A parse error: the kind and the position, which is an index in characters
/// from the start of the input.
///
/// For [`ParseErrorKind::Tag`], [`ParseErrorKind::Kind`],
/// [`ParseErrorKind::Digit`] and [`ParseErrorKind::HexDigit`] the position is
/// that of the character that was found in place of the expected one. For
/// [`ParseErrorKind::Bitrate`], [`ParseErrorKind::Identifier`] and
/// [`ParseErrorKind::Length`] it is where the number starts that is out of
/// range. For [`ParseErrorKind::Eof`] it is where the element starts that the
/// input has no room for.
#[derive(Debug, Clone, Copy, PartialEq, Eq)]
pub struct ParseError {
    pub kind: ParseErrorKind,
    pub position: usize,
}

impl View for ParseError {
    type V = ParseErrorView;

    open spec fn view(&self) -> ParseErrorView {
        ParseErrorView { kind: self.kind, position: self.position as nat }
    }
}

/// The error of kind `kind` at `position`.
pub open spec fn fail(kind: ParseErrorKind, position: nat) -> ParseErrorView {
    ParseErrorView { kind, position }
}

} // verus!
