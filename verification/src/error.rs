//! The parse-error taxonomy.  Every error is fatal for the file being
//! compiled and carries the span of the construct that caused it.
use vstd::prelude::*;

use crate::location::Span;
use crate::token::TokenType;

verus! {

/// What went wrong, structurally.
#[derive(Debug, PartialEq, Eq)]
pub enum VestiParseErrKind {
    /// The input ended where a construct still needed tokens.
    EOFErr,
    /// The next token was none of the expected types.
    TypeMismatch { expected: Vec<TokenType>, got: TokenType },
    /// An integer literal that does not denote a value of the target width.
    ParseIntErr,
    /// A float literal of an unrecognized shape.
    ParseFloatErr,
    /// A delimited region ended in the wrong closer.
    BracketMismatchErr { expected: TokenType },
    /// Opening and closing brackets do not balance.
    BracketNumberMatchedErr,
    /// An opener never reached its closer.
    IsNotClosedErr { open: Vec<TokenType>, close: TokenType },
    /// A closer with no prior opener; `open` lists the legal openers.
    IsNotOpenedErr { open: Vec<TokenType>, close: TokenType },
    /// A construct that needs a name did not get one.
    NameMissErr { toktype: TokenType },
    /// The tokenizer produced an illegal character.
    IllegalCharacterFoundErr,
    /// A token that is not legal in the current parse state.
    IllegalUseErr { got: TokenType },
    /// A token that cannot begin or continue any statement here.
    InvalidTokToConvert { got: TokenType },
    /// A construct the language has deprecated.
    DeprecatedUseErr,
}

/// An error of the compiler core: a parse error kind plus the span it
/// points at.
#[derive(Debug, PartialEq, Eq)]
pub enum VestiErr {
    ParseErr { err_kind: VestiParseErrKind, location: Span },
}

impl VestiErr {
    pub fn make_parse_err(err_kind: VestiParseErrKind, location: Span) -> (r: VestiErr)
        ensures
            r == (VestiErr::ParseErr { err_kind, location }),
    {
        VestiErr::ParseErr { err_kind, location }
    }

    /// The span the error points at.
    pub open spec fn spec_location(self) -> Span {
        match self {
            VestiErr::ParseErr { location, .. } => location,
        }
    }

    /// The kind of the error.
    pub open spec fn spec_kind(self) -> VestiParseErrKind {
        match self {
            VestiErr::ParseErr { err_kind, .. } => err_kind,
        }
    }

    /// Whether this error reports the end of the input.
    pub fn is_eof_kind(&self) -> (r: bool)
        ensures
            r == (self.spec_kind() is EOFErr),
    {
        match self {
            VestiErr::ParseErr { err_kind: VestiParseErrKind::EOFErr, .. } => true,
            _ => false,
        }
    }
}

/// The error is a type mismatch with exactly these expectations, at
/// exactly this span.
pub open spec fn is_type_mismatch(e: VestiErr, expected: Seq<TokenType>, got: TokenType, loc: Span) -> bool {
    e.spec_location() == loc && match e.spec_kind() {
        VestiParseErrKind::TypeMismatch { expected: ex, got: g } => ex@ == expected && g == got,
        _ => false,
    }
}

/// The error reports the end of the input, at this span.
pub open spec fn is_eof_err(e: VestiErr, loc: Span) -> bool {
    e.spec_location() == loc && e.spec_kind() is EOFErr
}

/// The error reports a closer with no prior opener, listing these legal
/// openers.
pub open spec fn is_not_opened(e: VestiErr, open: Seq<TokenType>, close: TokenType, loc: Span) -> bool {
    e.spec_location() == loc && match e.spec_kind() {
        VestiParseErrKind::IsNotOpenedErr { open: o, close: c } => o@ == open && c == close,
        _ => false,
    }
}

/// The error reports an opener that never reached its closer.
pub open spec fn is_not_closed(e: VestiErr, open: Seq<TokenType>, close: TokenType, loc: Span) -> bool {
    e.spec_location() == loc && match e.spec_kind() {
        VestiParseErrKind::IsNotClosedErr { open: o, close: c } => o@ == open && c == close,
        _ => false,
    }
}

pub open spec fn is_parse_int_err(e: VestiErr, loc: Span) -> bool {
    e.spec_location() == loc && e.spec_kind() is ParseIntErr
}

pub open spec fn is_parse_float_err(e: VestiErr, loc: Span) -> bool {
    e.spec_location() == loc && e.spec_kind() is ParseFloatErr
}

pub open spec fn is_illegal_use(e: VestiErr, got: TokenType, loc: Span) -> bool {
    e.spec_location() == loc && match e.spec_kind() {
        VestiParseErrKind::IllegalUseErr { got: g } => g == got,
        _ => false,
    }
}

pub open spec fn is_invalid_tok(e: VestiErr, got: TokenType, loc: Span) -> bool {
    e.spec_location() == loc && match e.spec_kind() {
        VestiParseErrKind::InvalidTokToConvert { got: g } => g == got,
        _ => false,
    }
}

pub open spec fn is_deprecated_err(e: VestiErr, loc: Span) -> bool {
    e.spec_location() == loc && e.spec_kind() is DeprecatedUseErr
}

pub open spec fn is_illegal_char_err(e: VestiErr, loc: Span) -> bool {
    e.spec_location() == loc && e.spec_kind() is IllegalCharacterFoundErr
}

pub open spec fn is_name_miss(e: VestiErr, toktype: TokenType, loc: Span) -> bool {
    e.spec_location() == loc && match e.spec_kind() {
        VestiParseErrKind::NameMissErr { toktype: t } => t == toktype,
        _ => false,
    }
}

pub open spec fn is_bracket_mismatch(e: VestiErr, expected: TokenType, loc: Span) -> bool {
    e.spec_location() == loc && match e.spec_kind() {
        VestiParseErrKind::BracketMismatchErr { expected: x } => x == expected,
        _ => false,
    }
}

pub open spec fn is_bracket_number_err(e: VestiErr, loc: Span) -> bool {
    e.spec_location() == loc && e.spec_kind() is BracketNumberMatchedErr
}

} // verus!
