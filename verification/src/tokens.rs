//! The Morse token stream: the four symbols the encoder's alphabet carries,
//! and the parser that turns the encoder's character output into tokens.

use vstd::prelude::*;

verus! {

/// One symbol of a Morse token stream.
#[derive(Clone, Copy, PartialEq, Eq, Structural, Debug)]
pub enum Token {
    /// A short pulse, written `.` by the encoder.
    Dot,
    /// A long pulse, written `_` by the encoder.
    Dash,
    /// The boundary between two letters, written ` ` by the encoder.
    LetterGap,
    /// The boundary between two words, written `/` by the encoder.
    WordGap,
}

/// Whether a character belongs to the encoder's token alphabet.
pub open spec fn is_morse_char(c: char) -> bool {
    c == '.' || c == '_' || c == ' ' || c == '/'
}

/// The token a character of the alphabet stands for.
pub open spec fn token_of(c: char) -> Token {
    if c == '.' {
        Token::Dot
    } else if c == '_' {
        Token::Dash
    } else if c == ' ' {
        Token::LetterGap
    } else {
        Token::WordGap
    }
}

/// The token stream a string over the alphabet stands for.
pub open spec fn tokens_of(code: Seq<char>) -> Seq<Token> {
    code.map_values(|c: char| token_of(c))
}

/// Whether every character of a string belongs to the token alphabet.
pub open spec fn valid_code(code: Seq<char>) -> bool {
    forall|i: int| 0 <= i < code.len() ==> is_morse_char(#[trigger] code[i])
}

/// Classifies one character of the encoder's output.
pub fn token_from_char(c: char) -> (r: Option<Token>)
    ensures
        r is Some <==> is_morse_char(c),
        r matches Some(t) ==> t == token_of(c),
{
    if c == '.' {
        Some(Token::Dot)
    } else if c == '_' {
        Some(Token::Dash)
    } else if c == ' ' {
        Some(Token::LetterGap)
    } else if c == '/' {
        Some(Token::WordGap)
    } else {
        None
    }
}

/// Parses the encoder's character output into a token stream.  Fails on the
/// first character outside the alphabet and hands that character back.
pub fn parse_tokens(code: &Vec<char>) -> (r: Result<Vec<Token>, char>)
    ensures
        r is Ok <==> valid_code(code@),
        r matches Ok(tokens) ==> tokens@ == tokens_of(code@),
        r matches Err(c) ==> !is_morse_char(c) && code@.contains(c),
{
    let mut out: Vec<Token> = Vec::new();
    let mut i: usize = 0;
    while i < code.len()
        invariant
            i <= code@.len(),
            out@ == tokens_of(code@.take(i as int)),
            forall|j: int| 0 <= j < i ==> is_morse_char(#[trigger] code@[j]),
        decreases code@.len() - i,
    {
        let c = code[i];
        match token_from_char(c) {
            Some(t) => {
                out.push(t);
                proof {
                    assert(out@ =~= tokens_of(code@.take(i as int + 1)));
                }
            },
            None => {
                proof {
                    assert(code@.contains(c)) by {
                        assert(code@[i as int] == c);
                    }
                }
                return Err(c);
            },
        }
        i += 1;
    }
    proof {
        assert(code@.take(code@.len() as int) =~= code@);
    }
    Ok(out)
}

} // verus!
