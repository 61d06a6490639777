//! The token producer: turns source text into a stream of operation tokens,
//! silently discarding every character that is not one of the eight
//! recognized operation symbols (the comment convention of the source
//! language).

use vstd::prelude::*;

verus! {

/// One recognized operation symbol of the source language.
#[derive(Debug, Clone, Copy, PartialEq, Eq, Structural)]
pub enum Token {
    LoopStart,
    LoopEnd,
    Inc,
    Dec,
    IncPtr,
    DecPtr,
    Print,
    Read,
}

/// A lexing failure. Every character is either a recognized symbol or a
/// comment, so the lexer never produces a value of this type; it exists for
/// the shape of the token stream.
#[derive(Debug, PartialEq, Eq)]
pub enum LexerError {
    /// Never constructed.
    Impossible,
}

/// A token together with the positions of its first byte and of the byte
/// one past it in the source text.
pub type Spanned<Tok, Loc, Error> = Result<(Loc, Tok, Loc), Error>;

/// The token a character stands for, if any.
pub open spec fn spec_token_of(c: char) -> Option<Token> {
    if c == '[' {
        Some(Token::LoopStart)
    } else if c == ']' {
        Some(Token::LoopEnd)
    } else if c == '+' {
        Some(Token::Inc)
    } else if c == '-' {
        Some(Token::Dec)
    } else if c == '>' {
        Some(Token::IncPtr)
    } else if c == '<' {
        Some(Token::DecPtr)
    } else if c == '.' {
        Some(Token::Print)
    } else if c == ',' {
        Some(Token::Read)
    } else {
        None
    }
}

/// The token a character stands for, if any.
pub fn token_of(c: char) -> (r: Option<Token>)
    ensures
        r == spec_token_of(c),
{
    if c == '[' {
        Some(Token::LoopStart)
    } else if c == ']' {
        Some(Token::LoopEnd)
    } else if c == '+' {
        Some(Token::Inc)
    } else if c == '-' {
        Some(Token::Dec)
    } else if c == '>' {
        Some(Token::IncPtr)
    } else if c == '<' {
        Some(Token::DecPtr)
    } else if c == '.' {
        Some(Token::Print)
    } else if c == ',' {
        Some(Token::Read)
    } else {
        None
    }
}

/// The pairs carry the source's characters in order, with strictly
/// increasing byte positions below the address-space bound.
pub open spec fn wf_chars(chars: Seq<(usize, char)>, source: Seq<char>) -> bool {
    &&& chars.len() == source.len()
    &&& (forall|i: int| 0 <= i < chars.len() ==> chars[i].1 == source[i])
    &&& (forall|i: int, j: int| 0 <= i < j < chars.len() ==> chars[i].0 < chars[j].0)
    &&& (forall|i: int| 0 <= i < chars.len() ==> chars[i].0 < usize::MAX)
}

/// Relies on str::char_indices: it yields one pair for each character of the
/// string, in order, carrying the character's starting byte position. Byte
/// positions strictly increase, and each is below the string's byte length,
/// which Rust bounds by the maximum object size.
#[verifier::external_body]
fn char_indices_of(source: &str) -> (r: Vec<(usize, char)>)
    ensures
        wf_chars(r@, source@),
{
    source.char_indices().collect()
}

/// The index of the first pair at or after `i` whose character is a
/// recognized symbol.
pub open spec fn scan_from(chars: Seq<(usize, char)>, i: int) -> Option<int>
    decreases chars.len() - i,
{
    if i < 0 || i >= chars.len() {
        None
    } else if spec_token_of(chars[i].1) is Some {
        Some(i)
    } else {
        scan_from(chars, i + 1)
    }
}

/// The token stream of one source text: the characters with their byte
/// positions, and the index the next token search starts from.
pub struct Lexer {
    /// Each character of the source with its starting byte position.
    pub chars: Vec<(usize, char)>,
    /// The index of the next pair to examine.
    pub pos: usize,
}

impl Lexer {
    /// The stored pairs describe some source and the cursor is in range.
    pub open spec fn wf(&self) -> bool {
        &&& self.pos <= self.chars@.len()
        &&& (forall|i: int, j: int| 0 <= i < j < self.chars@.len() ==> self.chars@[i].0 < self.chars@[j].0)
        &&& (forall|i: int| 0 <= i < self.chars@.len() ==> self.chars@[i].0 < usize::MAX)
    }

    /// A lexer positioned at the start of the given source text.
    pub fn new(source: &str) -> (r: Lexer)
        ensures
            r.wf(),
            wf_chars(r.chars@, source@),
            r.pos == 0,
    {
        Lexer { chars: char_indices_of(source), pos: 0 }
    }

    /// The next token of the source, as its starting byte position, the
    /// token, and the position one past its single-byte symbol; characters
    /// that stand for no token are skipped. Yields nothing once every
    /// remaining character is a comment.
    #[verifier::loop_isolation(false)]
    pub fn next(&mut self) -> (r: Option<Spanned<Token, usize, LexerError>>)
        requires
            old(self).wf(),
        ensures
            final(self).wf(),
            final(self).chars == old(self).chars,
            scan_from(old(self).chars@, old(self).pos as int) is None ==> (r is None
                && final(self).pos == old(self).chars@.len()),
            scan_from(old(self).chars@, old(self).pos as int) matches Some(j) ==> (r == Some(
                Ok::<(usize, Token, usize), LexerError>(
                    (
                        old(self).chars@[j].0,
                        spec_token_of(old(self).chars@[j].1)->0,
                        (old(self).chars@[j].0 + 1) as usize,
                    ),
                ),
            ) && final(self).pos == j + 1),
    {
        while self.pos < self.chars.len()
            invariant
                self.chars == old(self).chars,
                self.pos <= self.chars@.len(),
                scan_from(self.chars@, old(self).pos as int) == scan_from(
                    self.chars@,
                    self.pos as int,
                ),
            decreases self.chars@.len() - self.pos,
        {
            let (bpos, c) = self.chars[self.pos];
            match token_of(c) {
                Some(t) => {
                    self.pos = self.pos + 1;
                    return Some(Ok((bpos, t, bpos + 1)));
                }
                None => {
                    self.pos = self.pos + 1;
                }
            }
        }
        None
    }
}

} // verus!
