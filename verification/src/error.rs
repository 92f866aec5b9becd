//! Failure taxonomy. Every failure is terminal for the unit being translated:
//! there is no recovery and no second diagnostic from one run.

use vstd::prelude::*;
use crate::token::TokenMetadata;

verus! {

/// The one structured error a failed translation surfaces.
#[derive(PartialEq, Eq, Debug)]
pub enum ErrorKind {
    /// An unexpected token at the given position (`Some`), or unexpected
    /// end of input (`None`).
    SyntaxError(Option<TokenMetadata>),
    /// An unresolvable conflict between grammar and actions; fatal.
    ParserInternalFailure,
    /// The recognizer ran out of stack; fatal.
    ParserResourceExhaustion,
    /// The declared version integer is not one this front end accepts.
    InvalidVersion(TokenMetadata, i64),
    /// The declared profile name is not one this front end accepts.
    InvalidProfile(TokenMetadata, String),
    /// An identifier resolved against neither the scope stack nor the globals.
    UnknownIdentifier(TokenMetadata, String),
    /// A texture-sampler compound name with an unrecognized prefix or suffix.
    UnrecognizedType,
    /// A surface type name outside the implemented mapping.
    UnimplementedType,
    /// A surface operator with no counterpart in the representation.
    UnsupportedOperator,
    /// A recognized construct that is deliberately not translated yet.
    UnimplementedFeature(&'static str),
    /// A construct that is grammatical but meaningless here.
    SemanticError(&'static str),
    /// A name declared twice in one scope; raised only when validation is on.
    DuplicateDeclaration(String),
}

} // verus!
