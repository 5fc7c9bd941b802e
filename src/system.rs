use vstd::prelude::*;
use crate::token::{
    err, is_ident, is_joint_punct, is_path_sep, is_punct, path_sep_at, tree_end, tree_end_at,
    ErrorKind, ParseError, Token, TokenRange,
};

verus! {

/// A reference to a system: its name and its generic arguments, in order.
#[derive(Debug)]
pub struct SystemRef {
    /// Position of the function's identifier.
    pub name: usize,
    /// Each generic argument as the range of its tokens.
    pub generics: Vec<TokenRange>,
}

pub struct SystemRefView {
    pub name: usize,
    pub generics: Seq<TokenRange>,
}

impl View for SystemRef {
    type V = SystemRefView;

    open spec fn view(&self) -> SystemRefView {
        SystemRefView { name: self.name, generics: self.generics@ }
    }
}

pub open spec fn range(start: int, end: int) -> TokenRange {
    TokenRange { start: start as usize, end: end as usize }
}

/// The `>` at `i` closes an angle bracket (it is not the tail of `->`).
pub open spec fn closes_angle(toks: Seq<Token>, i: int) -> bool {
    is_punct(toks[i], '>') && !(i > 0 && is_joint_punct(toks[i - 1], '-'))
}

/// Reads a generic argument list from position `i` up to its closing `>`,
/// which must come before `hi`. `depth` counts the angle brackets opened
/// inside the current argument, which began at `start`; `args` holds the
/// arguments already read. On success, the arguments and the position after
/// the closing `>`. Arguments are split at commas outside nested angle
/// brackets and groups; a trailing comma is allowed, an empty argument is not.
pub open spec fn generics_scan(
    toks: Seq<Token>,
    hi: int,
    i: int,
    depth: nat,
    start: int,
    args: Seq<TokenRange>,
) -> Result<(Seq<TokenRange>, int), ErrorKind>
    decreases hi - i,
{
    if i >= hi {
        Err(ErrorKind::UnterminatedGenerics)
    } else if closes_angle(toks, i) {
        if depth > 0 {
            generics_scan(toks, hi, i + 1, (depth - 1) as nat, start, args)
        } else if start < i {
            Ok((args.push(range(start, i)), i + 1))
        } else {
            Ok((args, i + 1))
        }
    } else if is_punct(toks[i], '<') {
        generics_scan(toks, hi, i + 1, depth + 1, start, args)
    } else if depth == 0 && is_punct(toks[i], ',') {
        if start < i {
            generics_scan(toks, hi, i + 1, 0, i + 1, args.push(range(start, i)))
        } else {
            Err(ErrorKind::MalformedDirective)
        }
    } else if tree_end(toks, i) > hi {
        Err(ErrorKind::UnterminatedGenerics)
    } else {
        generics_scan(toks, hi, tree_end(toks, i), depth, start, args)
    }
}

/// The generic argument list whose first token is at `i`.
pub open spec fn generics_result(toks: Seq<Token>, i: int, hi: int) -> Result<
    (Seq<TokenRange>, int),
    ErrorKind,
> {
    generics_scan(toks, hi, i, 0, i, Seq::empty())
}

proof fn lemma_scan_bounds(
    toks: Seq<Token>,
    hi: int,
    i: int,
    depth: nat,
    start: int,
    args: Seq<TokenRange>,
)
    requires
        0 <= i <= hi <= toks.len(),
    ensures
        generics_scan(toks, hi, i, depth, start, args) matches Ok((a, e)) ==> i < e <= hi
            && a.len() <= args.len() + (hi - i),
    decreases hi - i,
{
    if i < hi {
        if closes_angle(toks, i) {
            if depth > 0 {
                lemma_scan_bounds(toks, hi, i + 1, (depth - 1) as nat, start, args);
            }
        } else if is_punct(toks[i], '<') {
            lemma_scan_bounds(toks, hi, i + 1, depth + 1, start, args);
        } else if depth == 0 && is_punct(toks[i], ',') {
            if start < i {
                lemma_scan_bounds(toks, hi, i + 1, 0, i + 1, args.push(range(start, i)));
            }
        } else if tree_end(toks, i) <= hi {
            lemma_scan_bounds(toks, hi, tree_end(toks, i), depth, start, args);
        }
    }
}

/// Parses a generic argument list that starts at `i` (just after `<`).
pub fn parse_generics(toks: &Vec<Token>, i: usize, hi: usize) -> (r: Result<
    (Vec<TokenRange>, usize),
    ParseError,
>)
    requires
        i <= hi <= toks.len(),
    ensures
        match r {
            Ok((args, e)) => generics_result(toks@, i as int, hi as int) == Ok::<
                (Seq<TokenRange>, int),
                ErrorKind,
            >((args@, e as int)),
            Err(x) => generics_result(toks@, i as int, hi as int) == Err::<
                (Seq<TokenRange>, int),
                ErrorKind,
            >(x.kind) && x.at <= hi,
        },
        r matches Ok((_, e)) ==> i < e <= hi,
{
    let mut pos: usize = i;
    let mut depth: usize = 0;
    let mut start: usize = i;
    let mut args: Vec<TokenRange> = Vec::new();
    proof {
        lemma_scan_bounds(toks@, hi as int, i as int, 0, i as int, Seq::empty());
    }
    while pos < hi
        invariant
            i <= start <= pos <= hi <= toks.len(),
            depth <= pos,
            generics_scan(toks@, hi as int, pos as int, depth as nat, start as int, args@)
                == generics_result(toks@, i as int, hi as int),
        decreases hi - pos,
    {
        let t = &toks[pos];
        if t.is_punct_char('>') && !(pos > 0 && toks[pos - 1].is_joint_punct_char('-')) {
            if depth > 0 {
                depth = depth - 1;
                pos = pos + 1;
            } else {
                if start < pos {
                    args.push(TokenRange { start, end: pos });
                }
                return Ok((args, pos + 1));
            }
        } else if t.is_punct_char('<') {
            depth = depth + 1;
            pos = pos + 1;
        } else if depth == 0 && t.is_punct_char(',') {
            if start < pos {
                args.push(TokenRange { start, end: pos });
                pos = pos + 1;
                start = pos;
            } else {
                return Err(err(ErrorKind::MalformedDirective, pos));
            }
        } else {
            let next = tree_end_at(toks, pos);
            if next > hi {
                return Err(err(ErrorKind::UnterminatedGenerics, hi));
            }
            pos = next;
        }
    }
    Err(err(ErrorKind::UnterminatedGenerics, hi))
}

/// What the system reference at `i` denotes, and the position after it:
/// a name, optionally followed by `::<args>`.
pub open spec fn system_result(toks: Seq<Token>, i: int, hi: int) -> Result<
    (SystemRefView, int),
    ErrorKind,
> {
    if i >= hi || !is_ident(toks[i]) {
        Err(ErrorKind::MalformedDirective)
    } else if i + 1 == hi || is_punct(toks[i + 1], ',') {
        Ok((SystemRefView { name: i as usize, generics: Seq::empty() }, i + 1))
    } else if i + 3 < hi && is_path_sep(toks, i + 1) && is_punct(toks[i + 3], '<') {
        match generics_result(toks, i + 4, hi) {
            Ok((g, e)) => Ok((SystemRefView { name: i as usize, generics: g }, e)),
            Err(k) => Err(k),
        }
    } else {
        Err(ErrorKind::MalformedDirective)
    }
}

/// Parses the system reference at `i`, which must end before `hi`.
pub fn parse_system(toks: &Vec<Token>, i: usize, hi: usize) -> (r: Result<
    (SystemRef, usize),
    ParseError,
>)
    requires
        i <= hi <= toks.len(),
    ensures
        match r {
            Ok((s, e)) => system_result(toks@, i as int, hi as int) == Ok::<
                (SystemRefView, int),
                ErrorKind,
            >((s@, e as int)),
            Err(x) => system_result(toks@, i as int, hi as int) == Err::<
                (SystemRefView, int),
                ErrorKind,
            >(x.kind) && x.at <= hi,
        },
        r matches Ok((_, e)) ==> i < e <= hi,
{
    if i >= hi || !toks[i].is_ident_token() {
        return Err(err(ErrorKind::MalformedDirective, i));
    }
    if i + 1 == hi || toks[i + 1].is_punct_char(',') {
        return Ok((SystemRef { name: i, generics: Vec::new() }, i + 1));
    }
    if hi - i > 3 && path_sep_at(toks, i + 1) && toks[i + 3].is_punct_char('<') {
        let (generics, e) = parse_generics(toks, i + 4, hi)?;
        let s = SystemRef { name: i, generics };
        assert(s@ == SystemRefView { name: i, generics: generics@ });
        Ok((s, e))
    } else {
        Err(err(ErrorKind::MalformedDirective, i + 1))
    }
}

/// Generic fidelity: a reference `name::<A, B>`, with `A` and `B` single
/// identifiers, carries exactly the arguments `A` then `B`; a reference
/// that a comma or the end follows carries none.
pub proof fn lemma_generic_fidelity(toks: Seq<Token>, i: int, hi: int)
    requires
        0 <= i,
        hi <= toks.len(),
        is_ident(toks[i]),
    ensures
        i + 8 <= hi && is_path_sep(toks, i + 1) && is_punct(toks[i + 3], '<') && is_ident(
            toks[i + 4],
        ) && is_punct(toks[i + 5], ',') && is_ident(toks[i + 6]) && is_punct(toks[i + 7], '>')
            ==> system_result(toks, i, hi) == Ok::<(SystemRefView, int), ErrorKind>(
            (
                SystemRefView {
                    name: i as usize,
                    generics: seq![range(i + 4, i + 5), range(i + 6, i + 7)],
                },
                i + 8,
            ),
        ),
        i + 1 == hi || (i + 1 < hi && is_punct(toks[i + 1], ',')) ==> system_result(toks, i, hi)
            == Ok::<(SystemRefView, int), ErrorKind>(
            (SystemRefView { name: i as usize, generics: Seq::empty() }, i + 1),
        ),
{
    if i + 8 <= hi && is_path_sep(toks, i + 1) && is_punct(toks[i + 3], '<') && is_ident(toks[i + 4])
        && is_punct(toks[i + 5], ',') && is_ident(toks[i + 6]) && is_punct(toks[i + 7], '>') {
        let a = range(i + 4, i + 5);
        let b = range(i + 6, i + 7);
        assert(generics_scan(toks, hi, i + 4, 0, i + 4, Seq::empty()) == generics_scan(
            toks,
            hi,
            i + 5,
            0,
            i + 4,
            Seq::empty(),
        ));
        assert(generics_scan(toks, hi, i + 5, 0, i + 4, Seq::empty()) == generics_scan(
            toks,
            hi,
            i + 6,
            0,
            i + 6,
            seq![a],
        ));
        assert(generics_scan(toks, hi, i + 6, 0, i + 6, seq![a]) == generics_scan(
            toks,
            hi,
            i + 7,
            0,
            i + 6,
            seq![a],
        ));
        assert(seq![a].push(b) =~= seq![a, b]);
    }
}

} // verus!
