use vstd::prelude::*;
use crate::emit::{companion_routine, ident_at, ident_string, routine_name, Registration, RegistrationView};
use crate::group::RegistrationKey;
use crate::state::{parse_state, state_of, state_shape};
use crate::system::{generics_result, parse_generics, range, SystemRef, SystemRefView};
use crate::token::{
    err, is_ident, is_punct, is_word, tree_end, tree_end_at, Delimiter, ErrorKind, ParseError,
    Token, TokenRange,
};
use crate::trigger::TriggerKind;

verus! {

/// The first top-level `fn` keyword at or after `i` that is followed by an
/// identifier, the function's name.
pub open spec fn fn_scan(toks: Seq<Token>, i: int) -> Option<int>
    decreases toks.len() - i,
{
    if i < 0 || i >= toks.len() {
        None
    } else if is_word(toks[i], "fn"@) && i + 1 < toks.len() && is_ident(toks[i + 1]) {
        Some(i)
    } else {
        fn_scan(toks, tree_end(toks, i))
    }
}

pub open spec fn is_brace_open(t: Token) -> bool {
    t matches Token::Open { delim, .. } && delim == Delimiter::Brace
}

/// From `i`, the function's body: the first top-level brace group, and
/// the top-level `where` before it, if any (`w` is the one already seen).
pub open spec fn body_scan(toks: Seq<Token>, i: int, w: Option<int>) -> Option<(Option<int>, int)>
    decreases toks.len() - i,
{
    if i < 0 || i >= toks.len() {
        None
    } else if is_brace_open(toks[i]) {
        Some((w, i))
    } else if w is None && is_word(toks[i], "where"@) {
        body_scan(toks, i + 1, Some(i))
    } else {
        body_scan(toks, tree_end(toks, i), w)
    }
}

/// The name of the generic parameter spelled by `r`: none for a lifetime,
/// the identifier after `const` for a const parameter, else its first token.
pub open spec fn param_name(toks: Seq<Token>, r: TokenRange) -> Option<int> {
    if r.start >= toks.len() || is_punct(toks[r.start as int], '\'') {
        None
    } else if is_word(toks[r.start as int], "const"@) {
        if r.start + 1 < toks.len() {
            Some(r.start + 1)
        } else {
            None
        }
    } else {
        Some(r.start as int)
    }
}

/// The arguments that instantiate a function with its own parameters
/// `params`: each named type or const parameter, in order.
pub open spec fn own_args(toks: Seq<Token>, params: Seq<TokenRange>) -> Seq<TokenRange>
    decreases params.len(),
{
    if params.len() == 0 {
        Seq::empty()
    } else {
        let rest = own_args(toks, params.drop_last());
        match param_name(toks, params.last()) {
            Some(n) => rest.push(range(n, n + 1)),
            None => rest,
        }
    }
}

/// The companion of one annotated function: a routine named `routine`,
/// generic over the function's own parameters, that performs one
/// registration; the function itself is re-emitted unchanged after it.
///
/// `registration.state` refers to the annotation's tokens; every other
/// position refers to the function's tokens.
#[derive(Debug)]
pub struct CompanionPlan {
    pub routine: String,
    /// The tokens between the `<` and `>` of the function's generics.
    pub params: Option<TokenRange>,
    /// The tokens after the function's `where`, up to its body.
    pub where_clause: Option<TokenRange>,
    pub registration: Registration,
}

pub struct CompanionPlanView {
    pub routine: Seq<char>,
    pub params: Option<TokenRange>,
    pub where_clause: Option<TokenRange>,
    pub registration: RegistrationView,
}

impl View for CompanionPlan {
    type V = CompanionPlanView;

    open spec fn view(&self) -> CompanionPlanView {
        CompanionPlanView {
            routine: self.routine@,
            params: self.params,
            where_clause: self.where_clause,
            registration: self.registration@,
        }
    }
}

/// The plan once the name is at `f + 1`, the generic parameters are
/// known, and the signature goes on at `q`.
pub open spec fn companion_rest(
    kind: TriggerKind,
    attr: Seq<Token>,
    item: Seq<Token>,
    f: int,
    params: Option<TokenRange>,
    args: Seq<TokenRange>,
    q: int,
) -> Result<CompanionPlanView, ErrorKind> {
    match body_scan(item, q, None) {
        None => Err(ErrorKind::MalformedDirective),
        Some((w, b)) => Ok(
            CompanionPlanView {
                routine: routine_name(ident_at(item, f + 1)),
                params,
                where_clause: match w {
                    Some(w) => Some(range(w + 1, b)),
                    None => None,
                },
                registration: RegistrationView {
                    key: (ident_at(attr, 0), ident_at(attr, 3), kind),
                    state: state_of(0, attr.len() as int),
                    system: SystemRefView { name: (f + 1) as usize, generics: own_args(item, args) },
                },
            },
        ),
    }
}

/// What annotating the function `item` with `kind(attr)` compiles to.
pub open spec fn companion_result(kind: TriggerKind, attr: Seq<Token>, item: Seq<Token>) -> Result<
    CompanionPlanView,
    ErrorKind,
> {
    if !state_shape(attr, 0, attr.len() as int) {
        Err(ErrorKind::MalformedState)
    } else {
        match fn_scan(item, 0) {
            None => Err(ErrorKind::MalformedDirective),
            Some(f) => {
                let p = f + 2;
                if p < item.len() && is_punct(item[p], '<') {
                    match generics_result(item, p + 1, item.len() as int) {
                        Err(k) => Err(k),
                        Ok((g, e)) => companion_rest(
                            kind,
                            attr,
                            item,
                            f,
                            Some(range(p + 1, e - 1)),
                            g,
                            e,
                        ),
                    }
                } else {
                    companion_rest(kind, attr, item, f, None, Seq::empty(), p)
                }
            },
        }
    }
}

fn find_fn(toks: &Vec<Token>) -> (r: Option<usize>)
    ensures
        match r {
            Some(f) => fn_scan(toks@, 0) == Some(f as int),
            None => fn_scan(toks@, 0) is None,
        },
        r matches Some(f) ==> f + 1 < toks.len(),
{
    let fn_word = String::from_str("fn");
    let mut i: usize = 0;
    while i < toks.len()
        invariant
            fn_word@ == "fn"@,
            i <= toks.len(),
            fn_scan(toks@, i as int) == fn_scan(toks@, 0),
        decreases toks.len() - i,
    {
        if toks[i].is_word_token(&fn_word) && i + 1 < toks.len() && toks[i + 1].is_ident_token() {
            return Some(i);
        }
        i = tree_end_at(toks, i);
    }
    None
}

fn is_brace_open_token(t: &Token) -> (r: bool)
    ensures
        r == is_brace_open(*t),
{
    match t {
        Token::Open { delim, .. } => *delim == Delimiter::Brace,
        _ => false,
    }
}

fn find_body(toks: &Vec<Token>, q: usize) -> (r: Option<(Option<usize>, usize)>)
    ensures
        match r {
            Some((w, b)) => body_scan(toks@, q as int, None) == Some(
                (
                    match w {
                        Some(w) => Some(w as int),
                        None => None::<int>,
                    },
                    b as int,
                ),
            ) && b < toks.len() && (w matches Some(w) ==> w < b),
            None => body_scan(toks@, q as int, None) is None,
        },
{
    let where_word = String::from_str("where");
    let mut i: usize = q;
    let mut w: Option<usize> = None;
    while i < toks.len()
        invariant
            where_word@ == "where"@,
            w matches Some(w) ==> w < i,
            body_scan(
                toks@,
                i as int,
                match w {
                    Some(w) => Some(w as int),
                    None => None::<int>,
                },
            ) == body_scan(toks@, q as int, None),
        decreases toks.len() - i,
    {
        if is_brace_open_token(&toks[i]) {
            return Some((w, i));
        } else if w.is_none() && toks[i].is_word_token(&where_word) {
            w = Some(i);
            i = i + 1;
        } else {
            i = tree_end_at(toks, i);
        }
    }
    None
}

fn own_type_args(toks: &Vec<Token>, params: &Vec<TokenRange>) -> (r: Vec<TokenRange>)
    ensures
        r@ == own_args(toks@, params@),
{
    let const_word = String::from_str("const");
    let mut out: Vec<TokenRange> = Vec::new();
    let mut k: usize = 0;
    while k < params.len()
        invariant
            const_word@ == "const"@,
            k <= params@.len(),
            out@ == own_args(toks@, params@.take(k as int)),
        decreases params@.len() - k,
    {
        let p = params[k];
        proof {
            assert(params@.take(k + 1).drop_last() =~= params@.take(k as int));
            assert(params@.take(k + 1).last() == p);
        }
        if p.start < toks.len() && !toks[p.start].is_punct_char('\'') {
            if !toks[p.start].is_word_token(&const_word) {
                out.push(TokenRange { start: p.start, end: p.start + 1 });
            } else if p.start + 1 < toks.len() {
                out.push(TokenRange { start: p.start + 1, end: p.start + 2 });
            }
        }
        k = k + 1;
    }
    assert(params@.take(k as int) =~= params@);
    out
}

/// `r` is the outcome that `companion_result` gives.
pub open spec fn companion_agrees(
    r: Result<CompanionPlan, ParseError>,
    kind: TriggerKind,
    attr: Seq<Token>,
    item: Seq<Token>,
) -> bool {
    match r {
        Ok(p) => companion_result(kind, attr, item) == Ok::<CompanionPlanView, ErrorKind>(p@),
        Err(x) => companion_result(kind, attr, item) == Err::<CompanionPlanView, ErrorKind>(x.kind),
    }
}

fn finish(
    kind: TriggerKind,
    attr: &Vec<Token>,
    item: &Vec<Token>,
    f: usize,
    params: Option<TokenRange>,
    args: &Vec<TokenRange>,
    q: usize,
) -> (r: Result<CompanionPlan, ParseError>)
    requires
        state_shape(attr@, 0, attr@.len() as int),
        f + 1 < item.len(),
    ensures
        match r {
            Ok(p) => companion_rest(kind, attr@, item@, f as int, params, args@, q as int) == Ok::<
                CompanionPlanView,
                ErrorKind,
            >(p@),
            Err(x) => companion_rest(kind, attr@, item@, f as int, params, args@, q as int)
                == Err::<CompanionPlanView, ErrorKind>(x.kind),
        },
{
    let (w, b) = match find_body(item, q) {
        Some(found) => found,
        None => {
            return Err(err(ErrorKind::MalformedDirective, item.len()));
        },
    };
    let where_clause = match w {
        Some(w) => Some(TokenRange { start: w + 1, end: b }),
        None => None,
    };
    let name = ident_string(item, f + 1);
    let key = RegistrationKey {
        state_type: ident_string(attr, 0),
        variant: ident_string(attr, 3),
        kind,
    };
    let state = crate::state::State {
        name: 0,
        variant: 3,
        extra: if attr.len() == 4 {
            None
        } else {
            Some(TokenRange { start: 5, end: attr.len() })
        },
    };
    let system = SystemRef { name: f + 1, generics: own_type_args(item, args) };
    let plan = CompanionPlan {
        routine: companion_routine(&name),
        params,
        where_clause,
        registration: Registration { key, state, system },
    };
    assert(state == state_of(0, attr@.len() as int));
    Ok(plan)
}

/// Compiles `kind(attr)` on the function `item`: the attribute's tokens
/// must spell a state reference, the item a function definition.
pub fn inner(kind: TriggerKind, attr: &Vec<Token>, item: &Vec<Token>) -> (r: Result<
    CompanionPlan,
    ParseError,
>)
    ensures
        companion_agrees(r, kind, attr@, item@),
{
    parse_state(attr, 0, attr.len())?;
    let f = match find_fn(item) {
        Some(f) => f,
        None => {
            return Err(err(ErrorKind::MalformedDirective, item.len()));
        },
    };
    let p = f + 2;
    if p < item.len() && item[p].is_punct_char('<') {
        let (args, e) = parse_generics(item, p + 1, item.len())?;
        finish(kind, attr, item, f, Some(TokenRange { start: p + 1, end: e - 1 }), &args, e)
    } else {
        let args: Vec<TokenRange> = Vec::new();
        proof {
            assert(args@ =~= Seq::<TokenRange>::empty());
        }
        finish(kind, attr, item, f, None, &args, p)
    }
}

/// `#[on(State::Variant)]`: the same as `on_update`.
pub fn on(attr: &Vec<Token>, item: &Vec<Token>) -> (r: Result<CompanionPlan, ParseError>)
    ensures
        companion_agrees(r, TriggerKind::Update, attr@, item@),
{
    on_update(attr, item)
}

/// `#[on_update(State::Variant)]`: run the function while in that state.
pub fn on_update(attr: &Vec<Token>, item: &Vec<Token>) -> (r: Result<CompanionPlan, ParseError>)
    ensures
        companion_agrees(r, TriggerKind::Update, attr@, item@),
{
    inner(TriggerKind::Update, attr, item)
}

/// `#[on_enter(State::Variant)]`: run the function on entering that state.
pub fn on_enter(attr: &Vec<Token>, item: &Vec<Token>) -> (r: Result<CompanionPlan, ParseError>)
    ensures
        companion_agrees(r, TriggerKind::Enter, attr@, item@),
{
    inner(TriggerKind::Enter, attr, item)
}

/// `#[on_exit(State::Variant)]`: run the function on leaving that state.
pub fn on_exit(attr: &Vec<Token>, item: &Vec<Token>) -> (r: Result<CompanionPlan, ParseError>)
    ensures
        companion_agrees(r, TriggerKind::Exit, attr@, item@),
{
    inner(TriggerKind::Exit, attr, item)
}

/// `#[on_pause(State::Variant)]`: run the function when that state is
/// paused.
pub fn on_pause(attr: &Vec<Token>, item: &Vec<Token>) -> (r: Result<CompanionPlan, ParseError>)
    ensures
        companion_agrees(r, TriggerKind::Pause, attr@, item@),
{
    inner(TriggerKind::Pause, attr, item)
}

/// `#[on_resume(State::Variant)]`: run the function when that state
/// resumes.
pub fn on_resume(attr: &Vec<Token>, item: &Vec<Token>) -> (r: Result<CompanionPlan, ParseError>)
    ensures
        companion_agrees(r, TriggerKind::Resume, attr@, item@),
{
    inner(TriggerKind::Resume, attr, item)
}

} // verus!
