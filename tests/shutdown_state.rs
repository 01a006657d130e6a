use k8s_structural_schema::shutdown_state::ShutdownState;

#[test]
fn test_new() {
    let shutdown_state = ShutdownState::default();
    assert_eq!(shutdown_state, ShutdownState::Initial);
}

#[test]
fn test_default() {
    let shutdown_state = ShutdownState::default();
    assert_eq!(shutdown_state, ShutdownState::Initial);
}

#[test]
fn test_iterator() {
    let mut shutdown_state = ShutdownState::default();
    assert_eq!(shutdown_state, ShutdownState::Initial);
    assert_eq!(shutdown_state.next(), Some(ShutdownState::WaitForSignal));
    assert_eq!(shutdown_state.next(), Some(ShutdownState::ShuttingDown));
    assert_eq!(shutdown_state.next(), Some(ShutdownState::Aborting));
    assert_eq!(shutdown_state.next(), None);
}

#[test]
fn last_stage_stays() {
    let mut s = ShutdownState::Aborting;
    assert_eq!(s.next(), None);
    assert_eq!(s, ShutdownState::Aborting);
}
