//! The unit record: a snapshot of one unit's name and status, and the entry of a
//! unit listing that it is made from.

use vstd::prelude::*;

verus! {

/// Whether a unit's definition is loaded, as a unit listing reports it.
#[derive(Clone, Copy, Debug, PartialEq, Eq, Structural)]
pub enum LoadedState {
    Masked,
    Loaded,
    /// The listing gave a load state that is neither of the two.
    Unknown,
}

/// A unit's runtime status, as a unit listing reports it.
#[derive(Clone, Copy, Debug, PartialEq, Eq, Structural)]
pub enum ActiveState {
    Inactive,
    Active,
    Activating,
    Deactivating,
    Failed,
    Reloading,
    /// The listing gave an active state that is none of the six.
    Unknown,
}

/// One entry of a unit listing.
#[derive(Debug)]
pub struct UnitService {
    /// Unit name: `name.type`
    pub unit_name: String,
    pub loaded: LoadedState,
    pub active: ActiveState,
    pub sub_state: String,
    pub description: String,
}

/// What a `UnitService` holds.
pub struct UnitServiceView {
    pub unit_name: Seq<char>,
    pub loaded: LoadedState,
    pub active: ActiveState,
    pub sub_state: Seq<char>,
    pub description: Seq<char>,
}

impl View for UnitService {
    type V = UnitServiceView;

    open spec fn view(&self) -> UnitServiceView {
        UnitServiceView {
            unit_name: self.unit_name@,
            loaded: self.loaded,
            active: self.active,
            sub_state: self.sub_state@,
            description: self.description@,
        }
    }
}

/// What a unit record holds: the five fields of a unit, each a string.
pub struct UnitView {
    pub unit_name: Seq<char>,
    pub load: Seq<char>,
    pub state: Seq<char>,
    pub sub_state: Seq<char>,
    pub description: Seq<char>,
}

/// The string that stands for a load state or an active state that the listing
/// did not name.
pub open spec fn not_found() -> Seq<char> {
    "not-found"@
}

/// The load state of a record as a string.
pub open spec fn loaded_name(loaded: LoadedState) -> Seq<char> {
    match loaded {
        LoadedState::Masked => "masked"@,
        LoadedState::Loaded => "loaded"@,
        LoadedState::Unknown => not_found(),
    }
}

/// The active state of a record as a string.
pub open spec fn active_name(active: ActiveState) -> Seq<char> {
    match active {
        ActiveState::Inactive => "inactive"@,
        ActiveState::Active => "active"@,
        ActiveState::Activating => "activating"@,
        ActiveState::Deactivating => "deactivating"@,
        ActiveState::Failed => "failed"@,
        ActiveState::Reloading => "reloading"@,
        ActiveState::Unknown => not_found(),
    }
}

/// The record of a listing entry: name, sub-state and description are kept, the
/// two states are written out, and a state that the listing did not name becomes
/// `not-found`.
pub open spec fn record_of(u: UnitServiceView) -> UnitView {
    UnitView {
        unit_name: u.unit_name,
        load: loaded_name(u.loaded),
        state: active_name(u.active),
        sub_state: u.sub_state,
        description: u.description,
    }
}

impl LoadedState {
    /// The load state as a string.
    pub fn name(self) -> (r: String)
        ensures
            r@ == loaded_name(self),
    {
        match self {
            LoadedState::Masked => "masked".to_owned(),
            LoadedState::Loaded => "loaded".to_owned(),
            LoadedState::Unknown => "not-found".to_owned(),
        }
    }
}

impl ActiveState {
    /// The active state as a string.
    pub fn name(self) -> (r: String)
        ensures
            r@ == active_name(self),
    {
        match self {
            ActiveState::Inactive => "inactive".to_owned(),
            ActiveState::Active => "active".to_owned(),
            ActiveState::Activating => "activating".to_owned(),
            ActiveState::Deactivating => "deactivating".to_owned(),
            ActiveState::Failed => "failed".to_owned(),
            ActiveState::Reloading => "reloading".to_owned(),
            ActiveState::Unknown => "not-found".to_owned(),
        }
    }
}

/// A snapshot of one unit. A record never changes: a unit that changed is shown
/// by a new record. Its name is never empty.
#[derive(Debug)]
pub struct UnitObject {
    unit_name: String,
    load: String,
    state: String,
    sub_state: String,
    description: String,
}

impl View for UnitObject {
    type V = UnitView;

    closed spec fn view(&self) -> UnitView {
        UnitView {
            unit_name: self.unit_name@,
            load: self.load@,
            state: self.state@,
            sub_state: self.sub_state@,
            description: self.description@,
        }
    }
}

impl Clone for UnitObject {
    fn clone(&self) -> (r: Self)
        ensures
            r@ == self@,
    {
        proof {
            use_type_invariant(self);
        }
        UnitObject {
            unit_name: self.unit_name.clone(),
            load: self.load.clone(),
            state: self.state.clone(),
            sub_state: self.sub_state.clone(),
            description: self.description.clone(),
        }
    }
}

impl UnitObject {
    #[verifier::type_invariant]
    spec fn named(&self) -> bool {
        self.unit_name@.len() > 0
    }

    /// The record of the listing entry `u`.
    pub fn new(u: UnitService) -> (r: Self)
        requires
            u.unit_name@.len() > 0,
        ensures
            r@ == record_of(u@),
    {
        UnitObject {
            unit_name: u.unit_name,
            load: u.loaded.name(),
            state: u.active.name(),
            sub_state: u.sub_state,
            description: u.description,
        }
    }

    /// The record with these five fields.
    pub fn from_fields(
        unit_name: String,
        load: String,
        state: String,
        sub_state: String,
        description: String,
    ) -> (r: Self)
        requires
            unit_name@.len() > 0,
        ensures
            r@ == (UnitView {
                unit_name: unit_name@,
                load: load@,
                state: state@,
                sub_state: sub_state@,
                description: description@,
            }),
    {
        UnitObject { unit_name, load, state, sub_state, description }
    }

    /// The name of the unit, which is not empty.
    pub fn unit_name(&self) -> (r: &str)
        ensures
            r@ == self@.unit_name,
            r@.len() > 0,
    {
        proof {
            use_type_invariant(self);
        }
        self.unit_name.as_str()
    }

    /// The load state of the unit.
    pub fn load(&self) -> (r: &str)
        ensures
            r@ == self@.load,
    {
        self.load.as_str()
    }

    /// The active state of the unit.
    pub fn state(&self) -> (r: &str)
        ensures
            r@ == self@.state,
    {
        self.state.as_str()
    }

    /// The sub-state of the unit.
    pub fn sub_state(&self) -> (r: &str)
        ensures
            r@ == self@.sub_state,
    {
        self.sub_state.as_str()
    }

    /// The description of the unit, which may be empty.
    pub fn description(&self) -> (r: &str)
        ensures
            r@ == self@.description,
    {
        self.description.as_str()
    }
}

/// What each record of a list holds, in order.
pub open spec fn views(units: Seq<UnitObject>) -> Seq<UnitView> {
    units.map_values(|u: UnitObject| u@)
}

} // verus!
