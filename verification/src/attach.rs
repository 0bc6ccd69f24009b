//! The order of work when the agent attaches to the runtime, and the status
//! that the attach returns.
//!
//! Each step is a call into the runtime or the file system that the caller
//! makes; after each one `attach_next` says whether to go on, and with what.

use vstd::prelude::*;

verus! {

/// One step of attaching, in the order in which they are taken.
#[derive(Clone, Copy, Debug, PartialEq, Eq, Structural)]
pub enum AttachStep {
    /// Ask the virtual machine for the tooling environment.
    GetEnvironment,
    /// Request the capabilities to generate method-entry events and to read
    /// constant pools.
    AddCapabilities,
    /// Register the method-entry callback.
    SetCallbacks,
    /// Switch delivery of method-entry events on.
    EnableMethodEntry,
    /// Switch delivery of the machine's start-up event on.
    EnableVmInit,
    /// Add the annotation classes to the bootstrap class path.
    AugmentBootstrapPath,
    /// Remove what an earlier run left at the destination.
    ResetDestination,
}

/// What follows a step.
#[derive(Clone, Copy, Debug, PartialEq, Eq, Structural)]
pub enum AttachNext {
    /// Take this step next.
    Run(AttachStep),
    /// The agent is attached; the attach returns zero.
    Loaded,
    /// The agent does not load; the attach returns this status.
    Failed(i32),
}

/// The status for a handle that is null.
pub const NULL_POINTER: i32 = 100;

/// The status for an event that could not be switched on.
pub const GENERIC_FAILURE: i32 = -1;

/// What follows `step` when it ended with `status` (zero for success) and,
/// where the step yields a handle, that handle was usable.
pub open spec fn spec_attach_next(step: AttachStep, status: i32, handle_valid: bool) -> AttachNext {
    match step {
        AttachStep::GetEnvironment => if status != 0 {
            AttachNext::Failed(status)
        } else if !handle_valid {
            AttachNext::Failed(NULL_POINTER)
        } else {
            AttachNext::Run(AttachStep::AddCapabilities)
        },
        AttachStep::AddCapabilities => if status != 0 {
            AttachNext::Failed(status)
        } else {
            AttachNext::Run(AttachStep::SetCallbacks)
        },
        AttachStep::SetCallbacks => if status != 0 {
            AttachNext::Failed(status)
        } else {
            AttachNext::Run(AttachStep::EnableMethodEntry)
        },
        AttachStep::EnableMethodEntry => if status != 0 {
            AttachNext::Failed(GENERIC_FAILURE)
        } else {
            AttachNext::Run(AttachStep::EnableVmInit)
        },
        AttachStep::EnableVmInit => if status != 0 {
            AttachNext::Failed(GENERIC_FAILURE)
        } else {
            AttachNext::Run(AttachStep::AugmentBootstrapPath)
        },
        AttachStep::AugmentBootstrapPath => AttachNext::Run(AttachStep::ResetDestination),
        AttachStep::ResetDestination => AttachNext::Loaded,
    }
}

/// The first thing to do when attaching: nothing at all if the machine's
/// handle is null.
pub fn attach_start(vm_valid: bool) -> (next: AttachNext)
    ensures
        next == if vm_valid {
            AttachNext::Run(AttachStep::GetEnvironment)
        } else {
            AttachNext::Failed(NULL_POINTER)
        },
{
    if vm_valid {
        AttachNext::Run(AttachStep::GetEnvironment)
    } else {
        AttachNext::Failed(NULL_POINTER)
    }
}

/// What follows `step`. A failure of one of the first five steps ends the
/// attach with a status that is not zero; augmenting the class path and
/// resetting the destination are best effort.
pub fn attach_next(step: AttachStep, status: i32, handle_valid: bool) -> (next: AttachNext)
    ensures
        next == spec_attach_next(step, status, handle_valid),
        next matches AttachNext::Failed(code) ==> code != 0,
{
    match step {
        AttachStep::GetEnvironment => {
            if status != 0 {
                AttachNext::Failed(status)
            } else if !handle_valid {
                AttachNext::Failed(NULL_POINTER)
            } else {
                AttachNext::Run(AttachStep::AddCapabilities)
            }
        },
        AttachStep::AddCapabilities => {
            if status != 0 {
                AttachNext::Failed(status)
            } else {
                AttachNext::Run(AttachStep::SetCallbacks)
            }
        },
        AttachStep::SetCallbacks => {
            if status != 0 {
                AttachNext::Failed(status)
            } else {
                AttachNext::Run(AttachStep::EnableMethodEntry)
            }
        },
        AttachStep::EnableMethodEntry => {
            if status != 0 {
                AttachNext::Failed(GENERIC_FAILURE)
            } else {
                AttachNext::Run(AttachStep::EnableVmInit)
            }
        },
        AttachStep::EnableVmInit => {
            if status != 0 {
                AttachNext::Failed(GENERIC_FAILURE)
            } else {
                AttachNext::Run(AttachStep::AugmentBootstrapPath)
            }
        },
        AttachStep::AugmentBootstrapPath => AttachNext::Run(AttachStep::ResetDestination),
        AttachStep::ResetDestination => AttachNext::Loaded,
    }
}

/// The status that the attach returns once `next` is final.
pub fn attach_status(next: AttachNext) -> (status: Option<i32>)
    ensures
        status == match next {
            AttachNext::Run(_) => None::<i32>,
            AttachNext::Loaded => Some(0i32),
            AttachNext::Failed(code) => Some(code),
        },
{
    match next {
        AttachNext::Run(_) => None,
        AttachNext::Loaded => Some(0),
        AttachNext::Failed(code) => Some(code),
    }
}

} // verus!
