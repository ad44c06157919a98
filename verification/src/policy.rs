//! The action policy: which control actions the state of a unit allows.

use crate::text::str_equal;
use crate::unit::{UnitObject, UnitView};
use vstd::prelude::*;

verus! {

/// The runtime status of a unit.
#[derive(Clone, Copy, Debug, PartialEq, Eq, Structural)]
pub enum State {
    /// Started, bound, plugged in, ..., depending on the unit type.
    Active,
    /// Stopped, unbound, unplugged, ..., depending on the unit type.
    Inactive,
    /// Similar to inactive, but the unit failed in some way.
    Failed,
    /// Changing from inactive to active.
    Activating,
    /// Changing from active to inactive.
    Deactivating,
    /// Unit is inactive and a maintenance operation is in progress.
    Maintenance,
    /// Unit is active and it is reloading its configuration.
    Reloading,
}

/// Why a string names no state.
#[derive(Clone, Copy, Debug, PartialEq, Eq, Structural)]
pub enum ParseError {
    /// The string is none of the seven state names.
    VariantNotFound,
}

/// A control action on a unit.
#[derive(Clone, Copy, Debug, PartialEq, Eq, Structural)]
pub enum SystemCtrlAction {
    Start,
    Stop,
    Restart,
    Enable,
    Disable,
}

/// The state that `s` names: the name is the variant's in lower case, and nothing
/// else is accepted.
pub open spec fn parse_state(s: Seq<char>) -> Option<State> {
    if s == "active"@ {
        Some(State::Active)
    } else if s == "inactive"@ {
        Some(State::Inactive)
    } else if s == "failed"@ {
        Some(State::Failed)
    } else if s == "activating"@ {
        Some(State::Activating)
    } else if s == "deactivating"@ {
        Some(State::Deactivating)
    } else if s == "maintenance"@ {
        Some(State::Maintenance)
    } else if s == "reloading"@ {
        Some(State::Reloading)
    } else {
        None
    }
}

/// The actions that a state allows, in the order in which they are offered: an
/// active unit can be stopped, restarted or disabled, an inactive one started or
/// enabled, and every other state allows nothing.
pub open spec fn allowed_actions(state: State) -> Seq<SystemCtrlAction> {
    match state {
        State::Active => seq![
            SystemCtrlAction::Stop,
            SystemCtrlAction::Restart,
            SystemCtrlAction::Disable,
        ],
        State::Inactive => seq![SystemCtrlAction::Start, SystemCtrlAction::Enable],
        _ => Seq::empty(),
    }
}

/// What the policy gives for a state string: the allowed actions of the state
/// that it names, or the error where it names none.
pub open spec fn policy(state: Seq<char>) -> Result<Seq<SystemCtrlAction>, ParseError> {
    match parse_state(state) {
        Some(st) => Ok(allowed_actions(st)),
        None => Err(ParseError::VariantNotFound),
    }
}

impl State {
    /// The state that `s` names.
    pub fn from_str(s: &str) -> (r: Result<State, ParseError>)
        ensures
            r == match parse_state(s@) {
                Some(st) => Ok::<State, ParseError>(st),
                None => Err(ParseError::VariantNotFound),
            },
    {
        if str_equal(s, "active") {
            Ok(State::Active)
        } else if str_equal(s, "inactive") {
            Ok(State::Inactive)
        } else if str_equal(s, "failed") {
            Ok(State::Failed)
        } else if str_equal(s, "activating") {
            Ok(State::Activating)
        } else if str_equal(s, "deactivating") {
            Ok(State::Deactivating)
        } else if str_equal(s, "maintenance") {
            Ok(State::Maintenance)
        } else if str_equal(s, "reloading") {
            Ok(State::Reloading)
        } else {
            Err(ParseError::VariantNotFound)
        }
    }
}

impl SystemCtrlAction {
    /// The actions that `state` allows.
    pub fn for_state(state: State) -> (r: Vec<SystemCtrlAction>)
        ensures
            r@ == allowed_actions(state),
    {
        match state {
            State::Active => vec![
                SystemCtrlAction::Stop,
                SystemCtrlAction::Restart,
                SystemCtrlAction::Disable,
            ],
            State::Inactive => vec![SystemCtrlAction::Start, SystemCtrlAction::Enable],
            State::Failed => vec![],
            State::Activating => vec![],
            State::Deactivating => vec![],
            State::Maintenance => vec![],
            State::Reloading => vec![],
        }
    }

    /// The actions that the state of `unit_object` allows. A state string that
    /// names no state is an error.
    pub fn available_actions(unit_object: &UnitObject) -> (r: Result<
        Vec<SystemCtrlAction>,
        ParseError,
    >)
        ensures
            match policy(unit_object@.state) {
                Ok(actions) => r is Ok && r->Ok_0@ == actions,
                Err(e) => r == Err::<Vec<SystemCtrlAction>, ParseError>(e),
            },
    {
        match State::from_str(unit_object.state()) {
            Ok(state) => Ok(SystemCtrlAction::for_state(state)),
            Err(e) => Err(e),
        }
    }
}

/// The policy is a function of the state string alone: two records with the same
/// state are given the same result. It fails for the strings that name no state
/// and for no others, and only an active and an inactive unit are allowed any
/// action.
pub proof fn lemma_policy_depends_on_state_only(a: UnitView, b: UnitView)
    requires
        a.state == b.state,
    ensures
        policy(a.state) == policy(b.state),
        policy(a.state) is Err <==> parse_state(a.state) is None,
        forall|state: State|
            #[trigger] allowed_actions(state).len() > 0 <==> state == State::Active || state
                == State::Inactive,
{
}

} // verus!
