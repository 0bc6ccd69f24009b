//! The life of an agent as a sequence of steps, and what holds of every such
//! sequence: the cache never loses a class, and while delivery is off no
//! event gets past the callback.

use vstd::prelude::*;
use crate::callback::{
    spec_cache_after, spec_method_entry, spec_switch, ActionView, EventMode, MethodEntry,
    SkipReason, STATUS_OK,
};
use crate::extractor::AnnotationReplies;

verus! {

/// The cache and the mode, as plain values.
pub struct AgentState {
    pub cache: Map<Seq<char>, Seq<Seq<Seq<char>>>>,
    pub mode: EventMode,
}

/// One thing that happens to an agent.
pub enum Step {
    /// The callback looked at an event.
    Entry(MethodEntry),
    /// The runtime answered a request to switch delivery off.
    Disable(u32),
    /// An extraction came to an end.
    Extract { method: Seq<char>, class_name: Seq<char>, annotation: Option<AnnotationReplies> },
    /// The runtime answered a request to switch delivery on.
    Enable(u32),
}

/// The state after one step. Looking at an event changes nothing.
pub open spec fn spec_step(state: AgentState, step: Step) -> AgentState {
    match step {
        Step::Entry(_) => state,
        Step::Disable(status) => AgentState {
            cache: state.cache,
            mode: spec_switch(state.mode, EventMode::Disabled, status),
        },
        Step::Extract { method, class_name, annotation } => AgentState {
            cache: spec_cache_after(state.cache, method, class_name, annotation),
            mode: state.mode,
        },
        Step::Enable(status) => AgentState {
            cache: state.cache,
            mode: spec_switch(state.mode, EventMode::Enabled, status),
        },
    }
}

/// The state after all of `steps`, in order.
pub open spec fn spec_run(state: AgentState, steps: Seq<Step>) -> AgentState
    decreases steps.len(),
{
    if steps.len() == 0 {
        state
    } else {
        spec_step(spec_run(state, steps.drop_last()), steps.last())
    }
}

/// Whether a step switches delivery on.
pub open spec fn spec_enables(step: Step) -> bool {
    step matches Step::Enable(status) && status == STATUS_OK
}

/// Whatever happens, a class that is cached stays cached.
pub proof fn lemma_cache_never_evicts(state: AgentState, steps: Seq<Step>, class_name: Seq<char>)
    requires
        state.cache.contains_key(class_name),
    ensures
        spec_run(state, steps).cache.contains_key(class_name),
    decreases steps.len(),
{
    if steps.len() > 0 {
        lemma_cache_never_evicts(state, steps.drop_last(), class_name);
    }
}

/// Once delivery is off it stays off until a step switches it on, and until
/// then the callback drops every event as suppressed, whatever the steps in
/// between did to the cache.
pub proof fn lemma_suppressed_until_enabled(state: AgentState, steps: Seq<Step>, event: MethodEntry)
    requires
        state.mode == EventMode::Disabled,
        forall|i: int| 0 <= i < steps.len() ==> !spec_enables(#[trigger] steps[i]),
    ensures
        spec_run(state, steps).mode == EventMode::Disabled,
        spec_method_entry(spec_run(state, steps).cache, spec_run(state, steps).mode, event)
            == ActionView::Skip(SkipReason::Suppressed),
    decreases steps.len(),
{
    if steps.len() > 0 {
        let earlier = steps.drop_last();
        assert forall|i: int| 0 <= i < earlier.len() implies !spec_enables(#[trigger] earlier[i]) by {
            assert(earlier[i] == steps[i]);
        }
        lemma_suppressed_until_enabled(state, earlier, event);
        assert(!spec_enables(steps[steps.len() - 1]));
    }
}

/// An extraction bracketed by a successful switch off and a successful
/// switch on leaves delivery on, whatever state it began in and whatever the
/// extraction came to.
pub proof fn lemma_delivery_is_restored(
    state: AgentState,
    method: Seq<char>,
    class_name: Seq<char>,
    annotation: Option<AnnotationReplies>,
)
    ensures
        spec_run(
            state,
            seq![
                Step::Disable(STATUS_OK),
                Step::Extract { method, class_name, annotation },
                Step::Enable(STATUS_OK),
            ],
        ).mode == EventMode::Enabled,
{
    let steps = seq![
        Step::Disable(STATUS_OK),
        Step::Extract { method, class_name, annotation },
        Step::Enable(STATUS_OK),
    ];
    let two = steps.drop_last();
    let one = two.drop_last();
    assert(one.drop_last() =~= Seq::<Step>::empty());
    assert(spec_run(state, one.drop_last()) == state);
    assert(spec_run(state, one).mode == EventMode::Disabled);
    assert(spec_run(state, two).mode == EventMode::Disabled);
}

} // verus!
