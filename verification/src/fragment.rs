//! The check that an opaque code fragment can be handed to the code generator.

use crate::error::{CompileError, Reason};
use crate::node::Position;
use proc_macro2::{LexError, TokenStream};
use std::str::FromStr;
use vstd::prelude::*;

verus! {

/// `proc_macro2::TokenStream`: the tokens of a fragment, never looked into here.
#[verifier::external_type_specification]
#[verifier::external_body]
pub struct ExTokenStream(TokenStream);

/// `proc_macro2::LexError`: the failure of the lexer, never looked into here.
#[verifier::external_type_specification]
#[verifier::external_body]
pub struct ExLexError(LexError);

/// Whether the lexer of `proc_macro2` accepts the text as a token stream.
pub uninterp spec fn tokenizes(fragment: Seq<char>) -> bool;

/// `<proc_macro2::TokenStream as FromStr>::from_str`. The crate is built without
/// its `proc-macro` feature, so the call runs the crate's own lexer, which reads
/// nothing but the text: the call succeeds exactly on the texts that the lexer
/// accepts.
#[verifier::external_body]
fn tokenize(fragment: &str) -> (r: Result<TokenStream, LexError>)
    ensures
        (r is Ok) == tokenizes(fragment@),
{
    TokenStream::from_str(fragment)
}

/// What the outcome of the lexer means for a fragment at `position`.
pub open spec fn checked(accepted: bool, position: Position) -> Result<(), CompileError> {
    if accepted {
        Ok(())
    } else {
        Err(CompileError { reason: Reason::MalformedFragment, position })
    }
}

/// Turns the outcome of the lexer on a fragment into the result of its check.
pub fn fragment_verdict(accepted: bool, position: Position) -> (r: Result<(), CompileError>)
    ensures
        r == checked(accepted, position),
{
    if accepted {
        Ok(())
    } else {
        Err(CompileError { reason: Reason::MalformedFragment, position })
    }
}

/// Checks that a code fragment can be broken into tokens.
pub fn check_fragment(fragment: &str, position: Position) -> (r: Result<(), CompileError>)
    ensures
        r == checked(tokenizes(fragment@), position),
{
    match tokenize(fragment) {
        Ok(_) => fragment_verdict(true, position),
        Err(_) => fragment_verdict(false, position),
    }
}

} // verus!
