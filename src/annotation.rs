use vstd::prelude::*;
use crate::state::{parse_state, state_of, state_shape, State};
use crate::token::{
    agrees, close_of, err, group_within, is_group_within, is_ident, Delimiter, ErrorKind, ParseError,
    Token,
};
use crate::trigger::{trigger_from_name, trigger_of, TriggerKind};

verus! {

/// A trigger annotation `trigger(Type::Variant[, modifier])`.
#[derive(Clone, Copy, Debug, PartialEq, Eq, Structural)]
pub struct Annotation {
    pub kind: TriggerKind,
    pub state: State,
}

/// The trigger that the identifier at `i` names, if it is one.
pub open spec fn trigger_at(toks: Seq<Token>, i: int) -> Option<TriggerKind> {
    match toks[i] {
        Token::Ident { text } => trigger_of(text@),
        _ => None,
    }
}

/// What `toks[lo..hi]`, the inside of `#[ ... ]`, denotes: a known trigger
/// name, then a parenthesised state reference that ends the region.
pub open spec fn annotation_result(toks: Seq<Token>, lo: int, hi: int) -> Result<
    Annotation,
    ErrorKind,
> {
    if lo >= hi || trigger_at(toks, lo) is None {
        Err(ErrorKind::UnknownTrigger)
    } else if !(lo + 1 < hi && is_group_within(toks, lo + 1, Delimiter::Parenthesis, hi)
        && close_of(toks, lo + 1) == hi - 1) {
        Err(ErrorKind::MalformedState)
    } else if !state_shape(toks, lo + 2, hi - 1) {
        Err(ErrorKind::MalformedState)
    } else {
        Ok(Annotation { kind: trigger_at(toks, lo)->0, state: state_of(lo + 2, hi - 1) })
    }
}

/// Parses the annotation that fills `toks[lo..hi]`.
pub fn parse_annotation(toks: &Vec<Token>, lo: usize, hi: usize) -> (r: Result<
    Annotation,
    ParseError,
>)
    requires
        lo <= hi <= toks.len(),
    ensures
        agrees(r, annotation_result(toks@, lo as int, hi as int)),
        r matches Err(e) ==> lo <= e.at <= hi,
{
    if lo >= hi {
        return Err(err(ErrorKind::UnknownTrigger, lo));
    }
    let kind = match &toks[lo] {
        Token::Ident { text } => match trigger_from_name(text) {
            Some(k) => k,
            None => {
                return Err(err(ErrorKind::UnknownTrigger, lo));
            },
        },
        _ => {
            return Err(err(ErrorKind::UnknownTrigger, lo));
        },
    };
    if lo + 1 >= hi {
        return Err(err(ErrorKind::MalformedState, lo + 1));
    }
    let close = match group_within(toks, lo + 1, Delimiter::Parenthesis, hi) {
        Some(c) => c,
        None => {
            return Err(err(ErrorKind::MalformedState, lo + 1));
        },
    };
    if close != hi - 1 {
        return Err(err(ErrorKind::MalformedState, close + 1));
    }
    let state = parse_state(toks, lo + 2, close)?;
    Ok(Annotation { kind, state })
}

} // verus!
