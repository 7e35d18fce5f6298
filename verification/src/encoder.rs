//! The bridge to the external Morse alphabet encoder: turns input text into
//! a validated Morse token stream, or reports why it cannot.

use vstd::prelude::*;
use crate::tokens::{is_morse_char, parse_tokens, tokens_of, valid_code, Token};

verus! {

/// What the external encoder makes of a text: the token string over
/// `. _ ' ' /` on success, or the list of characters the Morse alphabet
/// cannot represent.  The encoder is a pure table lookup, so its result
/// depends on the text alone.
pub uninterp spec fn morse_code_of(text: Seq<char>) -> Result<Seq<char>, Seq<Seq<char>>>;

/// Relies on morse::encode::encode: a deterministic table lookup whose
/// token string, and whose list of unsupported characters on failure,
/// depend on the input text alone.
#[verifier::external_body]
fn encode_text(input: &str) -> (r: Result<Vec<char>, Vec<String>>)
    ensures
        r is Ok <==> morse_code_of(input@) is Ok,
        r matches Ok(code) ==> code@ == morse_code_of(input@)->Ok_0,
        r matches Err(unsupported) ==> unsupported.deep_view() == morse_code_of(input@)->Err_0,
{
    match morse::encode::encode(input) {
        Ok(code) => Ok(code.chars().collect()),
        Err(e) => Err(e.unsupported_characters),
    }
}

/// Why input text yielded no token stream.
#[derive(Debug)]
pub enum EncodeError {
    /// The Morse alphabet cannot represent these characters of the input.
    Unsupported(Vec<String>),
    /// The encoder emitted a character outside the token alphabet.
    InvalidSymbol(char),
}

/// Encodes input text into a Morse token stream through the external
/// encoder, validating that its output stays inside the token alphabet.
pub fn encode_tokens(input: &str) -> (r: Result<Vec<Token>, EncodeError>)
    ensures
        r is Ok <==> morse_code_of(input@) is Ok && valid_code(morse_code_of(input@)->Ok_0),
        r matches Ok(tokens) ==> tokens@ == tokens_of(morse_code_of(input@)->Ok_0),
        r matches Err(e) ==> match e {
            EncodeError::Unsupported(unsupported) => morse_code_of(input@) is Err
                && unsupported.deep_view() == morse_code_of(input@)->Err_0,
            EncodeError::InvalidSymbol(c) => morse_code_of(input@) is Ok && !is_morse_char(c)
                && morse_code_of(input@)->Ok_0.contains(c),
        },
{
    match encode_text(input) {
        Ok(code) => match parse_tokens(&code) {
            Ok(tokens) => Ok(tokens),
            Err(c) => Err(EncodeError::InvalidSymbol(c)),
        },
        Err(unsupported) => Err(EncodeError::Unsupported(unsupported)),
    }
}

} // verus!
