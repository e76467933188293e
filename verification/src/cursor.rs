//! When the system pointer is hidden while a remote effect stands in for it.
use vstd::prelude::*;

verus! {

/// What the caller has to do next.
#[derive(Debug, Clone, Copy, PartialEq, Eq, Structural)]
pub enum CursorStep {
    /// Nothing is left to do.
    Nothing,
    /// Ask the system whether a background app may hide the pointer.
    AskPermission,
    /// Hide (true) or show (false) the pointer.
    Switch(bool),
}

/// Hides and shows the pointer in balance, so that the system's hide count never
/// drifts. If hiding is not allowed, the pointer simply stays visible.
#[derive(Debug, Clone, Copy, PartialEq, Eq, Structural)]
pub struct CursorHider {
    /// None until first needed; then whether background hiding is allowed.
    pub allowed: Option<bool>,
    pub hidden: bool,
}

impl Default for CursorHider {
    fn default() -> (hider: Self)
        ensures
            hider == (CursorHider { allowed: None, hidden: false }),
    {
        CursorHider { allowed: None, hidden: false }
    }
}

impl CursorHider {
    pub open spec fn step(self, conceal: bool) -> CursorStep {
        if conceal == self.hidden {
            CursorStep::Nothing
        } else if !conceal {
            CursorStep::Switch(false)
        } else {
            match self.allowed {
                None => CursorStep::AskPermission,
                Some(true) => CursorStep::Switch(true),
                Some(false) => CursorStep::Nothing,
            }
        }
    }

    pub open spec fn after_switch(self, conceal: bool, status: i32) -> Self {
        CursorHider {
            hidden: if status == 0 {
                conceal
            } else {
                self.hidden
            },
            ..self
        }
    }

    /// Hide or show; calls are balanced so the system hide count never drifts.
    pub fn set_hidden(&self, conceal: bool) -> (step: CursorStep)
        ensures
            step == self.step(conceal),
    {
        if conceal == self.hidden {
            CursorStep::Nothing
        } else if !conceal {
            CursorStep::Switch(false)
        } else {
            match self.allowed {
                None => CursorStep::AskPermission,
                Some(true) => CursorStep::Switch(true),
                Some(false) => CursorStep::Nothing,
            }
        }
    }

    /// Takes the system's answer to the request for permission.
    pub fn answered(&mut self, status: i32)
        ensures
            *final(self) == (CursorHider { allowed: Some(status == 0), ..*old(self) }),
    {
        self.allowed = Some(status == 0);
    }

    /// Takes the system's answer to a switch.
    pub fn switched(&mut self, conceal: bool, status: i32)
        ensures
            *final(self) == old(self).after_switch(conceal, status),
    {
        if status == 0 {
            self.hidden = conceal;
        }
    }
}

/// How often the pointer is hidden in the system's count: once or not at all.
pub open spec fn hide_count(hider: CursorHider) -> int {
    if hider.hidden {
        1
    } else {
        0
    }
}

/// The calls are balanced: every switch that the system carried out changes its
/// count by one, in the direction that the state says, and a refused one changes
/// neither. The pointer is asked for permission at most once.
pub proof fn hides_and_shows_are_balanced(hider: CursorHider, conceal: bool, status: i32)
    requires
        hider.step(conceal) == CursorStep::Switch(conceal),
    ensures
        status == 0 ==> hide_count(hider.after_switch(conceal, status)) == hide_count(hider) + (
        if conceal {
            1int
        } else {
            -1
        }),
        status != 0 ==> hider.after_switch(conceal, status) == hider,
        conceal ==> hider.allowed == Some(true),
{
}

/// After an answer the same wish never asks again, and showing is always possible.
pub proof fn permission_is_asked_once(hider: CursorHider, conceal: bool, status: i32)
    ensures
        (CursorHider { allowed: Some(status == 0), ..hider }).step(conceal)
            != CursorStep::AskPermission,
        hider.hidden ==> hider.step(false) == CursorStep::Switch(false),
{
}

/// A pointer that is as wished is left alone. A hidden one is shown; a shown one is hidden
/// where that is allowed, left alone where it is not, and the system is asked first where
/// that is not known.
pub proof fn the_pointer_follows_the_wish(hider: CursorHider)
    ensures
        hider.step(hider.hidden) == CursorStep::Nothing,
        hider.hidden ==> hider.step(false) == CursorStep::Switch(false),
        !hider.hidden && hider.allowed is None ==> hider.step(true) == CursorStep::AskPermission,
        !hider.hidden && hider.allowed == Some(true) ==> hider.step(true) == CursorStep::Switch(
            true,
        ),
        !hider.hidden && hider.allowed == Some(false) ==> hider.step(true) == CursorStep::Nothing,
{
}

/// A switch that the system carried out, with status zero, leaves the pointer as wished; any
/// other status leaves it as it was. The permission stays.
pub proof fn a_switch_counts_when_it_was_carried_out(
    hider: CursorHider,
    conceal: bool,
    status: i32,
)
    ensures
        hider.after_switch(conceal, 0).hidden == conceal,
        status != 0 ==> hider.after_switch(conceal, status).hidden == hider.hidden,
        hider.after_switch(conceal, status).allowed == hider.allowed,
{
}

} // verus!
