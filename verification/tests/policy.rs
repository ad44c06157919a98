use systemd_gtk::policy::{ParseError, State, SystemCtrlAction};
use systemd_gtk::unit::UnitObject;

fn unit_in_state(state: &str) -> UnitObject {
    UnitObject::from_fields(
        "demo.service".to_string(),
        "loaded".to_string(),
        state.to_string(),
        "running".to_string(),
        "Demo".to_string(),
    )
}

#[test]
fn every_state_name_is_parsed() {
    assert_eq!(State::from_str("active"), Ok(State::Active));
    assert_eq!(State::from_str("inactive"), Ok(State::Inactive));
    assert_eq!(State::from_str("failed"), Ok(State::Failed));
    assert_eq!(State::from_str("activating"), Ok(State::Activating));
    assert_eq!(State::from_str("deactivating"), Ok(State::Deactivating));
    assert_eq!(State::from_str("maintenance"), Ok(State::Maintenance));
    assert_eq!(State::from_str("reloading"), Ok(State::Reloading));
}

#[test]
fn state_names_are_case_sensitive() {
    assert_eq!(State::from_str("Active"), Err(ParseError::VariantNotFound));
    assert_eq!(State::from_str("ACTIVE"), Err(ParseError::VariantNotFound));
}

#[test]
fn unknown_state_is_an_error() {
    assert_eq!(State::from_str(""), Err(ParseError::VariantNotFound));
    assert_eq!(State::from_str("not-found"), Err(ParseError::VariantNotFound));
    assert_eq!(State::from_str("active "), Err(ParseError::VariantNotFound));
}

#[test]
fn active_allows_stop_restart_disable() {
    assert_eq!(
        SystemCtrlAction::for_state(State::Active),
        vec![SystemCtrlAction::Stop, SystemCtrlAction::Restart, SystemCtrlAction::Disable]
    );
}

#[test]
fn inactive_allows_start_enable() {
    assert_eq!(
        SystemCtrlAction::for_state(State::Inactive),
        vec![SystemCtrlAction::Start, SystemCtrlAction::Enable]
    );
}

#[test]
fn other_states_allow_nothing() {
    for state in [
        State::Failed,
        State::Activating,
        State::Deactivating,
        State::Maintenance,
        State::Reloading,
    ] {
        assert_eq!(SystemCtrlAction::for_state(state), vec![]);
    }
}

#[test]
fn policy_of_an_active_unit() {
    assert_eq!(
        SystemCtrlAction::available_actions(&unit_in_state("active")),
        Ok(vec![SystemCtrlAction::Stop, SystemCtrlAction::Restart, SystemCtrlAction::Disable])
    );
}

#[test]
fn policy_of_an_inactive_unit() {
    assert_eq!(
        SystemCtrlAction::available_actions(&unit_in_state("inactive")),
        Ok(vec![SystemCtrlAction::Start, SystemCtrlAction::Enable])
    );
}

#[test]
fn policy_of_a_failed_unit() {
    assert_eq!(SystemCtrlAction::available_actions(&unit_in_state("failed")), Ok(vec![]));
}

#[test]
fn policy_of_an_unknown_state_fails() {
    assert_eq!(
        SystemCtrlAction::available_actions(&unit_in_state("bogus")),
        Err(ParseError::VariantNotFound)
    );
}

#[test]
fn policy_gives_the_same_result_each_time() {
    let unit = unit_in_state("active");
    assert_eq!(
        SystemCtrlAction::available_actions(&unit),
        SystemCtrlAction::available_actions(&unit)
    );
}
