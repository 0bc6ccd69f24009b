use cargo_agent::attach::{
    attach_next, attach_start, attach_status, AttachNext, AttachStep, GENERIC_FAILURE, NULL_POINTER,
};

#[test]
fn null_machine_handle_fails_fast() {
    assert_eq!(attach_start(false), AttachNext::Failed(100));
    assert_eq!(attach_start(true), AttachNext::Run(AttachStep::GetEnvironment));
    assert_eq!(NULL_POINTER, 100);
    assert_eq!(GENERIC_FAILURE, -1);
}

#[test]
fn all_steps_in_order_when_nothing_fails() {
    let mut next = attach_start(true);
    let mut taken: Vec<AttachStep> = Vec::new();
    while let AttachNext::Run(step) = next {
        taken.push(step);
        next = attach_next(step, 0, true);
    }
    assert_eq!(
        taken,
        vec![
            AttachStep::GetEnvironment,
            AttachStep::AddCapabilities,
            AttachStep::SetCallbacks,
            AttachStep::EnableMethodEntry,
            AttachStep::EnableVmInit,
            AttachStep::AugmentBootstrapPath,
            AttachStep::ResetDestination,
        ]
    );
    assert_eq!(next, AttachNext::Loaded);
    assert_eq!(attach_status(next), Some(0));
}

#[test]
fn setup_failures_are_returned_as_status() {
    assert_eq!(attach_next(AttachStep::GetEnvironment, -3, true), AttachNext::Failed(-3));
    assert_eq!(attach_next(AttachStep::GetEnvironment, 0, false), AttachNext::Failed(100));
    assert_eq!(attach_next(AttachStep::AddCapabilities, 98, true), AttachNext::Failed(98));
    assert_eq!(attach_next(AttachStep::SetCallbacks, 116, true), AttachNext::Failed(116));
    assert_eq!(attach_next(AttachStep::EnableMethodEntry, 99, true), AttachNext::Failed(-1));
    assert_eq!(attach_next(AttachStep::EnableVmInit, 99, true), AttachNext::Failed(-1));
    assert_eq!(attach_status(AttachNext::Failed(116)), Some(116));
    assert_eq!(attach_status(AttachNext::Run(AttachStep::SetCallbacks)), None);
}

#[test]
fn optional_steps_never_fail_the_attach() {
    assert_eq!(
        attach_next(AttachStep::AugmentBootstrapPath, 13, false),
        AttachNext::Run(AttachStep::ResetDestination)
    );
    assert_eq!(attach_next(AttachStep::ResetDestination, 1, false), AttachNext::Loaded);
}
