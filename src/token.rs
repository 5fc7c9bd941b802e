use vstd::prelude::*;

verus! {

/// The delimiter of a token group.
#[derive(Clone, Copy, Debug, PartialEq, Eq, Structural)]
pub enum Delimiter {
    Parenthesis,
    Bracket,
    Brace,
    Invisible,
}

/// One token of a flattened token stream.
///
/// A group `( ... )` is spelled `Open`, its contents, then `Close`; the
/// `Open` token records the index of its `Close`.
#[derive(Debug)]
pub enum Token {
    Ident { text: String },
    Punct { ch: char, joint: bool },
    Literal { text: String },
    Open { delim: Delimiter, close: usize },
    Close { delim: Delimiter },
}

/// A half-open range `start..end` of token positions.
#[derive(Clone, Copy, Debug, PartialEq, Eq, Structural)]
pub struct TokenRange {
    pub start: usize,
    pub end: usize,
}

/// The kinds of parse failure.
#[derive(Clone, Copy, Debug, PartialEq, Eq, Structural)]
pub enum ErrorKind {
    /// The trigger name is not in the fixed table.
    UnknownTrigger,
    /// A state reference is not `Identifier::Identifier`.
    MalformedState,
    /// A generic argument list was opened and not closed.
    UnterminatedGenerics,
    /// The bulk directive, or one of its entries, is not well formed.
    MalformedDirective,
}

/// Why an invocation was rejected; `at` is the position of the offending
/// token (the end of the enclosing region when input ran out).
#[derive(Clone, Copy, Debug, PartialEq, Eq, Structural)]
pub struct ParseError {
    pub kind: ErrorKind,
    pub at: usize,
}

/// `r` is the outcome `s` describes: the same value, or an error of the
/// same kind.
pub open spec fn agrees<X>(r: Result<X, ParseError>, s: Result<X, ErrorKind>) -> bool {
    match r {
        Ok(x) => s == Ok::<X, ErrorKind>(x),
        Err(e) => s == Err::<X, ErrorKind>(e.kind),
    }
}

/// A group with delimiter `d` opens at `i`; its `Close` lies before `hi`.
pub open spec fn is_group_within(toks: Seq<Token>, i: int, d: Delimiter, hi: int) -> bool {
    toks[i] matches Token::Open { delim, close } && delim == d && i < close < hi
}

/// The position of the `Close` of the group opened at `i`.
pub open spec fn close_of(toks: Seq<Token>, i: int) -> int {
    toks[i]->close as int
}

pub fn err(kind: ErrorKind, at: usize) -> (r: ParseError)
    ensures
        r == (ParseError { kind, at }),
{
    ParseError { kind, at }
}

pub open spec fn is_ident(t: Token) -> bool {
    t is Ident
}

pub open spec fn is_punct(t: Token, c: char) -> bool {
    t matches Token::Punct { ch, .. } && ch == c
}

pub open spec fn is_joint_punct(t: Token, c: char) -> bool {
    t matches Token::Punct { ch, joint } && ch == c && joint
}

/// `toks[i]` is an identifier spelled `word`.
pub open spec fn is_word(t: Token, word: Seq<char>) -> bool {
    t matches Token::Ident { text } && text@ == word
}

/// `::` starts at `i`.
pub open spec fn is_path_sep(toks: Seq<Token>, i: int) -> bool {
    &&& 0 <= i
    &&& i + 1 < toks.len()
    &&& is_joint_punct(toks[i], ':')
    &&& is_punct(toks[i + 1], ':')
}

/// The position right after the token tree that starts at `i`: a group is
/// stepped over as a whole (an `Open` whose `close` does not lie after it
/// counts as a single token).
pub open spec fn tree_end(toks: Seq<Token>, i: int) -> int {
    match toks[i] {
        Token::Open { close, .. } => if i < close < toks.len() {
            close + 1
        } else {
            i + 1
        },
        _ => i + 1,
    }
}

impl Token {
    pub fn is_punct_char(&self, c: char) -> (r: bool)
        ensures
            r == is_punct(*self, c),
    {
        match self {
            Token::Punct { ch, .. } => *ch == c,
            _ => false,
        }
    }

    pub fn is_joint_punct_char(&self, c: char) -> (r: bool)
        ensures
            r == is_joint_punct(*self, c),
    {
        match self {
            Token::Punct { ch, joint } => *ch == c && *joint,
            _ => false,
        }
    }

    pub fn is_ident_token(&self) -> (r: bool)
        ensures
            r == is_ident(*self),
    {
        matches!(self, Token::Ident { .. })
    }

    /// Whether this is an identifier spelled `word`.
    pub fn is_word_token(&self, word: &String) -> (r: bool)
        ensures
            r == is_word(*self, word@),
    {
        match self {
            Token::Ident { text } => *text == *word,
            _ => false,
        }
    }
}

/// Whether a group with delimiter `d` opens at `i` and closes before `hi`;
/// if so, the position of its `Close`.
pub fn group_within(toks: &Vec<Token>, i: usize, d: Delimiter, hi: usize) -> (r: Option<usize>)
    requires
        i < toks.len(),
    ensures
        r is Some <==> is_group_within(toks@, i as int, d, hi as int),
        r matches Some(c) ==> c as int == close_of(toks@, i as int),
{
    match &toks[i] {
        Token::Open { delim, close } => if *delim == d && i < *close && *close < hi {
            Some(*close)
        } else {
            None
        },
        _ => None,
    }
}

/// `::` starts at `i`.
pub fn path_sep_at(toks: &Vec<Token>, i: usize) -> (r: bool)
    ensures
        r == is_path_sep(toks@, i as int),
{
    i < toks.len() && i + 1 < toks.len() && toks[i].is_joint_punct_char(':') && toks[i
        + 1].is_punct_char(':')
}

/// The position right after the token tree at `i`.
pub fn tree_end_at(toks: &Vec<Token>, i: usize) -> (r: usize)
    requires
        i < toks.len(),
    ensures
        r as int == tree_end(toks@, i as int),
{
    match &toks[i] {
        Token::Open { close, .. } => if *close > i && *close < toks.len() {
            *close + 1
        } else {
            i + 1
        },
        _ => i + 1,
    }
}

} // verus!
