use vstd::prelude::*;
use crate::annotation::{annotation_result, parse_annotation, Annotation};
use crate::system::{parse_system, system_result, SystemRef, SystemRefView};
use crate::token::{
    close_of, err, group_within, is_group_within, is_ident, is_punct, Delimiter, ErrorKind,
    ParseError, Token,
};

verus! {

/// One entry of a bulk directive: a system reference, with the annotation
/// written in front of it in the directive, if any. An entry without one
/// relies on the annotation at the function's definition.
#[derive(Debug)]
pub struct Entry {
    pub annotation: Option<Annotation>,
    pub system: SystemRef,
}

pub struct EntryView {
    pub annotation: Option<Annotation>,
    pub system: SystemRefView,
}

impl View for Entry {
    type V = EntryView;

    open spec fn view(&self) -> EntryView {
        EntryView { annotation: self.annotation, system: self.system@ }
    }
}

/// A bulk directive `app, [entry, entry, ...]`.
#[derive(Debug)]
pub struct Directive {
    /// Position of the application handle's identifier.
    pub app: usize,
    pub entries: Vec<Entry>,
}

pub struct DirectiveView {
    pub app: usize,
    pub entries: Seq<EntryView>,
}

pub open spec fn entries_view(entries: Seq<Entry>) -> Seq<EntryView> {
    entries.map_values(|e: Entry| e@)
}

impl View for Directive {
    type V = DirectiveView;

    open spec fn view(&self) -> DirectiveView {
        DirectiveView { app: self.app, entries: entries_view(self.entries@) }
    }
}

/// What the entry at `i` denotes, and the position after it: an optional
/// `#[annotation]`, then a system reference.
pub open spec fn entry_result(toks: Seq<Token>, i: int, hi: int) -> Result<
    (EntryView, int),
    ErrorKind,
> {
    if i < hi && is_punct(toks[i], '#') {
        if !(i + 1 < hi && is_group_within(toks, i + 1, Delimiter::Bracket, hi)) {
            Err(ErrorKind::MalformedDirective)
        } else {
            match annotation_result(toks, i + 2, close_of(toks, i + 1)) {
                Err(k) => Err(k),
                Ok(a) => match system_result(toks, close_of(toks, i + 1) + 1, hi) {
                    Ok((s, e)) => Ok((EntryView { annotation: Some(a), system: s }, e)),
                    Err(k) => Err(k),
                },
            }
        }
    } else {
        match system_result(toks, i, hi) {
            Ok((s, e)) => Ok((EntryView { annotation: None, system: s }, e)),
            Err(k) => Err(k),
        }
    }
}

/// Reads comma-separated entries from `i` to `hi`, after the entries
/// `done`; a trailing comma is allowed.
pub open spec fn entries_scan(toks: Seq<Token>, i: int, hi: int, done: Seq<EntryView>) -> Result<
    Seq<EntryView>,
    ErrorKind,
>
    decreases hi - i,
{
    if i >= hi {
        Ok(done)
    } else {
        match entry_result(toks, i, hi) {
            Err(k) => Err(k),
            Ok((en, e)) => if e <= i || e > hi {
                Err(ErrorKind::MalformedDirective)
            } else if e == hi {
                Ok(done.push(en))
            } else if is_punct(toks[e], ',') {
                entries_scan(toks, e + 1, hi, done.push(en))
            } else {
                Err(ErrorKind::MalformedDirective)
            },
        }
    }
}

/// The position of the bracketed entry list: after the handle, and after
/// the comma that may follow it.
pub open spec fn list_start(toks: Seq<Token>) -> int {
    if 1 < toks.len() && is_punct(toks[1], ',') {
        2
    } else {
        1
    }
}

/// What a whole bulk directive denotes: a handle, an optional comma, and a
/// bracketed list of entries that ends the input.
pub open spec fn directive_result(toks: Seq<Token>) -> Result<DirectiveView, ErrorKind> {
    let k = list_start(toks);
    if toks.len() == 0 || !is_ident(toks[0]) {
        Err(ErrorKind::MalformedDirective)
    } else if !(k < toks.len() && is_group_within(toks, k, Delimiter::Bracket, toks.len() as int)
        && close_of(toks, k) == toks.len() - 1) {
        Err(ErrorKind::MalformedDirective)
    } else {
        match entries_scan(toks, k + 1, toks.len() - 1, Seq::empty()) {
            Ok(entries) => Ok(DirectiveView { app: 0, entries }),
            Err(k) => Err(k),
        }
    }
}

/// Parses the entry at `i`, which must end before `hi`.
pub fn parse_entry(toks: &Vec<Token>, i: usize, hi: usize) -> (r: Result<
    (Entry, usize),
    ParseError,
>)
    requires
        i < hi <= toks.len(),
    ensures
        match r {
            Ok((en, e)) => entry_result(toks@, i as int, hi as int) == Ok::<
                (EntryView, int),
                ErrorKind,
            >((en@, e as int)),
            Err(x) => entry_result(toks@, i as int, hi as int) == Err::<(EntryView, int), ErrorKind>(
                x.kind,
            ) && x.at <= hi,
        },
        r matches Ok((_, e)) ==> i < e <= hi,
{
    if toks[i].is_punct_char('#') {
        if i + 1 >= hi {
            return Err(err(ErrorKind::MalformedDirective, i + 1));
        }
        let close = match group_within(toks, i + 1, Delimiter::Bracket, hi) {
            Some(c) => c,
            None => {
                return Err(err(ErrorKind::MalformedDirective, i + 1));
            },
        };
        let annotation = parse_annotation(toks, i + 2, close)?;
        let (system, e) = parse_system(toks, close + 1, hi)?;
        let en = Entry { annotation: Some(annotation), system };
        Ok((en, e))
    } else {
        let (system, e) = parse_system(toks, i, hi)?;
        let en = Entry { annotation: None, system };
        Ok((en, e))
    }
}

/// Parses a bulk directive `app, [entry, ...]` that fills `toks`.
pub fn parse_directive(toks: &Vec<Token>) -> (r: Result<Directive, ParseError>)
    ensures
        match r {
            Ok(d) => directive_result(toks@) == Ok::<DirectiveView, ErrorKind>(d@),
            Err(x) => directive_result(toks@) == Err::<DirectiveView, ErrorKind>(x.kind) && x.at
                <= toks.len(),
        },
{
    let n = toks.len();
    if n == 0 || !toks[0].is_ident_token() {
        return Err(err(ErrorKind::MalformedDirective, 0));
    }
    let k: usize = if 1 < n && toks[1].is_punct_char(',') {
        2
    } else {
        1
    };
    if k >= n {
        return Err(err(ErrorKind::MalformedDirective, k));
    }
    let close = match group_within(toks, k, Delimiter::Bracket, n) {
        Some(c) => c,
        None => {
            return Err(err(ErrorKind::MalformedDirective, k));
        },
    };
    if close != n - 1 {
        return Err(err(ErrorKind::MalformedDirective, close + 1));
    }
    let hi = close;
    let mut pos = k + 1;
    let mut entries: Vec<Entry> = Vec::new();
    assert(entries_view(entries@) =~= Seq::<EntryView>::empty());
    while pos < hi
        invariant
            k + 1 <= pos <= hi + 1,
            hi == n - 1,
            n == toks.len(),
            k == list_start(toks@),
            k < n,
            is_ident(toks@[0]),
            is_group_within(toks@, k as int, Delimiter::Bracket, n as int),
            close_of(toks@, k as int) == n - 1,
            pos <= hi ==> entries_scan(toks@, pos as int, hi as int, entries_view(entries@))
                == entries_scan(toks@, k + 1, hi as int, Seq::empty()),
            pos == hi + 1 ==> entries_scan(toks@, k + 1, hi as int, Seq::empty()) == Ok::<
                Seq<EntryView>,
                ErrorKind,
            >(entries_view(entries@)),
        decreases hi + 1 - pos,
    {
        let (en, e) = match parse_entry(toks, pos, hi) {
            Ok(r) => r,
            Err(x) => {
                return Err(x);
            },
        };
        let ghost before = entries_view(entries@);
        entries.push(en);
        assert(entries_view(entries@) =~= before.push(en@));
        if e == hi {
            pos = hi + 1;
        } else if toks[e].is_punct_char(',') {
            pos = e + 1;
        } else {
            return Err(err(ErrorKind::MalformedDirective, e));
        }
    }
    assert(entries_scan(toks@, k + 1, hi as int, Seq::empty()) == Ok::<Seq<EntryView>, ErrorKind>(
        entries_view(entries@),
    ));
    Ok(Directive { app: 0, entries })
}

} // verus!
