use vstd::prelude::*;
use crate::token::{err, is_ident, is_path_sep, is_punct, path_sep_at, ErrorKind, ParseError, Token, TokenRange};

verus! {

/// A state value `Type::Variant`, with the scheduling modifier that may
/// follow it after a comma. Fields are token positions.
#[derive(Clone, Copy, Debug, PartialEq, Eq, Structural)]
pub struct State {
    /// Position of the state type's identifier.
    pub name: usize,
    /// Position of the variant's identifier.
    pub variant: usize,
    /// The tokens after the comma, kept verbatim.
    pub extra: Option<TokenRange>,
}

/// `toks[lo..hi]` reads `Ident :: Ident`, optionally followed by `, ...`.
pub open spec fn state_shape(toks: Seq<Token>, lo: int, hi: int) -> bool {
    &&& lo + 4 <= hi
    &&& is_ident(toks[lo])
    &&& is_path_sep(toks, lo + 1)
    &&& is_ident(toks[lo + 3])
    &&& (hi == lo + 4 || is_punct(toks[lo + 4], ','))
}

/// The state that `toks[lo..hi]` denotes, when it has the shape.
pub open spec fn state_of(lo: int, hi: int) -> State {
    State {
        name: lo as usize,
        variant: (lo + 3) as usize,
        extra: if hi == lo + 4 {
            None
        } else {
            Some(TokenRange { start: (lo + 5) as usize, end: hi as usize })
        },
    }
}

/// Parses the state reference that fills `toks[lo..hi]`.
pub fn parse_state(toks: &Vec<Token>, lo: usize, hi: usize) -> (r: Result<State, ParseError>)
    requires
        lo <= hi <= toks.len(),
    ensures
        r is Ok <==> state_shape(toks@, lo as int, hi as int),
        r matches Ok(s) ==> s == state_of(lo as int, hi as int),
        r matches Err(e) ==> e.kind == ErrorKind::MalformedState && lo <= e.at <= hi,
{
    if hi - lo < 4 {
        return Err(err(ErrorKind::MalformedState, lo));
    }
    if !toks[lo].is_ident_token() {
        return Err(err(ErrorKind::MalformedState, lo));
    }
    if !path_sep_at(toks, lo + 1) {
        return Err(err(ErrorKind::MalformedState, lo + 1));
    }
    if !toks[lo + 3].is_ident_token() {
        return Err(err(ErrorKind::MalformedState, lo + 3));
    }
    if hi == lo + 4 {
        Ok(State { name: lo, variant: lo + 3, extra: None })
    } else if toks[lo + 4].is_punct_char(',') {
        Ok(State { name: lo, variant: lo + 3, extra: Some(TokenRange { start: lo + 5, end: hi }) })
    } else {
        Err(err(ErrorKind::MalformedState, lo + 4))
    }
}

} // verus!
