use vstd::prelude::*;

verus! {

/// The lifecycle phase a system runs under.
#[derive(Clone, Copy, Debug, PartialEq, Eq, Structural)]
pub enum TriggerKind {
    Update,
    Enter,
    Exit,
    Pause,
    Resume,
}

/// The trigger names: `on` and `on_update` both mean `Update`.
pub open spec fn trigger_of(name: Seq<char>) -> Option<TriggerKind> {
    if name == "on"@ || name == "on_update"@ {
        Some(TriggerKind::Update)
    } else if name == "on_enter"@ {
        Some(TriggerKind::Enter)
    } else if name == "on_exit"@ {
        Some(TriggerKind::Exit)
    } else if name == "on_pause"@ {
        Some(TriggerKind::Pause)
    } else if name == "on_resume"@ {
        Some(TriggerKind::Resume)
    } else {
        None
    }
}

/// Looks a trigger name up in the fixed table.
pub fn trigger_from_name(name: &String) -> (r: Option<TriggerKind>)
    ensures
        r == trigger_of(name@),
{
    if *name == String::from_str("on") || *name == String::from_str("on_update") {
        Some(TriggerKind::Update)
    } else if *name == String::from_str("on_enter") {
        Some(TriggerKind::Enter)
    } else if *name == String::from_str("on_exit") {
        Some(TriggerKind::Exit)
    } else if *name == String::from_str("on_pause") {
        Some(TriggerKind::Pause)
    } else if *name == String::from_str("on_resume") {
        Some(TriggerKind::Resume)
    } else {
        None
    }
}

/// The canonical trigger name of each kind, which is also the name of the
/// host runtime's constructor for a group of that kind.
pub open spec fn trigger_name(kind: TriggerKind) -> Seq<char> {
    match kind {
        TriggerKind::Update => "on_update"@,
        TriggerKind::Enter => "on_enter"@,
        TriggerKind::Exit => "on_exit"@,
        TriggerKind::Pause => "on_pause"@,
        TriggerKind::Resume => "on_resume"@,
    }
}

impl TriggerKind {
    /// The canonical trigger name of this kind.
    pub fn name(&self) -> (r: &'static str)
        ensures
            r@ == trigger_name(*self),
    {
        match self {
            TriggerKind::Update => "on_update",
            TriggerKind::Enter => "on_enter",
            TriggerKind::Exit => "on_exit",
            TriggerKind::Pause => "on_pause",
            TriggerKind::Resume => "on_resume",
        }
    }
}

} // verus!
