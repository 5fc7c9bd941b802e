use vstd::prelude::*;
use crate::annotation::Annotation;
use crate::directive::{directive_result, parse_directive, Entry, EntryView};
use crate::group::{KeyView, RegistrationKey};
use crate::state::State;
use crate::system::{SystemRef, SystemRefView};
use crate::token::{ErrorKind, ParseError, Token};
use crate::trigger::TriggerKind;

verus! {

/// The text of an identifier token (empty for any other token).
pub open spec fn ident_text(t: Token) -> Seq<char> {
    match t {
        Token::Ident { text } => text@,
        _ => Seq::empty(),
    }
}

/// The text of the identifier at `i` (empty if there is none).
pub open spec fn ident_at(toks: Seq<Token>, i: int) -> Seq<char> {
    if 0 <= i < toks.len() {
        ident_text(toks[i])
    } else {
        Seq::empty()
    }
}

/// The registration key an annotation names.
pub open spec fn key_for(toks: Seq<Token>, a: Annotation) -> KeyView {
    (ident_at(toks, a.state.name as int), ident_at(toks, a.state.variant as int), a.kind)
}

/// The name of the companion routine that registers the function `name`.
pub open spec fn routine_name(name: Seq<char>) -> Seq<char> {
    "_add_"@ + name
}

/// One append-system-to-group call: the key, the state value it names
/// (by position), and the system with its generic arguments; the state's
/// modifier, if any, follows the system.
#[derive(Debug)]
pub struct Registration {
    pub key: RegistrationKey,
    pub state: State,
    pub system: SystemRef,
}

pub struct RegistrationView {
    pub key: KeyView,
    pub state: State,
    pub system: SystemRefView,
}

impl View for Registration {
    type V = RegistrationView;

    open spec fn view(&self) -> RegistrationView {
        RegistrationView { key: self.key@, state: self.state, system: self.system@ }
    }
}

/// One step of a batch, in input order.
#[derive(Debug)]
pub enum Step {
    /// Calls the companion routine `routine` of a function that carries its
    /// own annotation, with the entry's generic arguments.
    Companion { routine: String, system: SystemRef },
    /// Appends a system annotated in the batch to the group of its key.
    Register { registration: Registration },
}

pub enum StepView {
    Companion { routine: Seq<char>, system: SystemRefView },
    Register { registration: RegistrationView },
}

impl View for Step {
    type V = StepView;

    open spec fn view(&self) -> StepView {
        match self {
            Step::Companion { routine, system } => StepView::Companion {
                routine: routine@,
                system: system@,
            },
            Step::Register { registration } => StepView::Register { registration: registration@ },
        }
    }
}

/// The step that a batch entry becomes.
pub open spec fn step_for(toks: Seq<Token>, e: EntryView) -> StepView {
    match e.annotation {
        None => StepView::Companion {
            routine: routine_name(ident_at(toks, e.system.name as int)),
            system: e.system,
        },
        Some(a) => StepView::Register {
            registration: RegistrationView { key: key_for(toks, a), state: a.state, system: e.system },
        },
    }
}

/// What a batch compiles to: the application handle (by position) and the
/// steps, which feed one map of groups that is then installed.
#[derive(Debug)]
pub struct BatchPlan {
    pub app: usize,
    pub steps: Vec<Step>,
}

pub open spec fn steps_view(steps: Seq<Step>) -> Seq<StepView> {
    steps.map_values(|s: Step| s@)
}

/// The copy of the identifier at `i`.
pub fn ident_string(toks: &Vec<Token>, i: usize) -> (r: String)
    ensures
        r@ == ident_at(toks@, i as int),
{
    if i >= toks.len() {
        return String::new();
    }
    match &toks[i] {
        Token::Ident { text } => text.clone(),
        _ => String::new(),
    }
}

/// The name of the companion routine of the function `name`.
pub fn companion_routine(name: &String) -> (r: String)
    ensures
        r@ == routine_name(name@),
{
    let mut r = String::from_str("_add_");
    r.append(name.as_str());
    r
}

/// The registration key that `a` names.
pub fn registration_key(toks: &Vec<Token>, a: &Annotation) -> (r: RegistrationKey)
    ensures
        r@ == key_for(toks@, *a),
{
    RegistrationKey {
        state_type: ident_string(toks, a.state.name),
        variant: ident_string(toks, a.state.variant),
        kind: a.kind,
    }
}

/// The step that the entry `e` becomes.
pub fn plan_step(toks: &Vec<Token>, e: Entry) -> (r: Step)
    ensures
        r@ == step_for(toks@, e@),
{
    match e.annotation {
        None => {
            let name = ident_string(toks, e.system.name);
            Step::Companion { routine: companion_routine(&name), system: e.system }
        },
        Some(a) => {
            let key = registration_key(toks, &a);
            Step::Register { registration: Registration { key, state: a.state, system: e.system } }
        },
    }
}

/// Compiles a bulk directive `app, [entry, ...]`: each entry becomes one
/// step, in input order. An entry annotated in the batch registers its
/// system under the key of that annotation; any other entry calls the
/// companion routine of its function.
pub fn add_systems(toks: &Vec<Token>) -> (r: Result<BatchPlan, ParseError>)
    ensures
        match r {
            Ok(p) => directive_result(toks@) matches Ok(d) && p.app == d.app && steps_view(p.steps@)
                == d.entries.map_values(|e: EntryView| step_for(toks@, e)),
            Err(x) => directive_result(toks@) == Err::<crate::directive::DirectiveView, ErrorKind>(x.kind) && x.at <= toks.len(),
        },
{
    let directive = parse_directive(toks)?;
    let ghost entries = directive@.entries;
    let mut rest = directive.entries;
    let total = rest.len();
    let mut steps: Vec<Step> = Vec::new();
    let mut done: usize = 0;
    while rest.len() > 0
        invariant
            total == entries.len(),
            done + rest@.len() == total,
            crate::directive::entries_view(rest@) == entries.skip(done as int),
            steps_view(steps@) == entries.take(done as int).map_values(
                |e: EntryView| step_for(toks@, e),
            ),
        decreases rest@.len(),
    {
        let ghost before = rest@;
        let e = rest.remove(0);
        proof {
            assert(e@ == entries[done as int]) by {
                assert(crate::directive::entries_view(before)[0] == entries.skip(done as int)[0]);
            }
            assert(rest@ =~= before.subrange(1, before.len() as int));
            assert forall|j: int| 0 <= j < rest@.len() implies crate::directive::entries_view(
                rest@,
            )[j] == entries.skip(done + 1)[j] by {
                assert(crate::directive::entries_view(before)[j + 1] == entries.skip(
                    done as int,
                )[j + 1]);
            }
            assert(crate::directive::entries_view(rest@) =~= entries.skip(done + 1));
        }
        let ghost prev = steps_view(steps@);
        let step = plan_step(toks, e);
        steps.push(step);
        proof {
            assert(steps_view(steps@) =~= prev.push(step@));
            assert(entries.take(done + 1).map_values(|e: EntryView| step_for(toks@, e)) =~= entries.take(
                done as int,
            ).map_values(|e: EntryView| step_for(toks@, e)).push(step_for(toks@, entries[done as int])));
        }
        done = done + 1;
    }
    assert(entries.take(done as int) =~= entries);
    Ok(BatchPlan { app: directive.app, steps })
}

/// Modifier passthrough: in the steps of a batch, the step of entry `j`
/// carries exactly the modifier of that entry's own annotation (a range of
/// its tokens, re-emitted verbatim) and the system of that entry alone; an
/// entry without an annotation carries no modifier at all.
pub proof fn lemma_modifier_passthrough(toks: Seq<Token>, entries: Seq<EntryView>, j: int)
    requires
        0 <= j < entries.len(),
    ensures
        ({
            let s = entries.map_values(|e: EntryView| step_for(toks, e))[j];
            &&& entries[j].annotation matches Some(a) ==> (s matches StepView::Register {
                registration,
            } && registration.state.extra == a.state.extra && registration.system
                == entries[j].system)
            &&& entries[j].annotation is None ==> (s matches StepView::Companion { system, .. }
                && system == entries[j].system)
        }),
{
}

} // verus!
