//! The method-entry callback as a state machine, with its re-entrancy guard.
//!
//! Extracting an annotation calls methods of the runtime, and the runtime
//! would report each of those calls as a method entry of its own. So the
//! callback has delivery switched off before it extracts and switched on
//! again afterwards, whatever the extraction came to.
//!
//! The runtime cannot be called from here. One invocation is therefore a
//! short exchange: each function below takes what the runtime answered and
//! says what to do next.
//!
//! 1. `method_entry_callback` looks at the event. On `Action::Suspend` the
//!    caller asks the runtime to stop delivering method entries and reports
//!    the status to `disable_event`.
//! 2. If that succeeded, the caller looks the annotation up, calls its
//!    accessors and hands the answers to `complete_extraction`.
//! 3. The caller asks the runtime to deliver again, reports the status to
//!    `enable_event`, and only then hands the rows of an `Action::Emit` to
//!    the record sink.

use vstd::prelude::*;
use vstd::string::*;
use crate::cache::{get_annotation_data, insert_annotation_data, AnnotationCache};
use crate::extractor::{get_annotation_values, spec_row, AnnotationReplies};
use crate::text::{clone_row, clone_rows};

verus! {

/// Whether the runtime delivers method-entry events.
#[derive(Clone, Copy, Debug, PartialEq, Eq, Structural)]
pub enum EventMode {
    Enabled,
    Disabled,
}

/// What one invocation of the callback was handed, as plain values.
#[derive(Clone, Debug, PartialEq, Eq)]
pub enum MethodEntry {
    /// One of the handles that the runtime passed was null.
    NullHandle,
    /// The runtime could not name the method or its declaring class.
    Unresolved,
    /// The method and its declaring class, by name.
    Resolved { method_name: String, class_name: String },
}

/// Why an event was dropped.
#[derive(Clone, Copy, Debug, PartialEq, Eq, Structural)]
pub enum SkipReason {
    /// Delivery is switched off: the event arrived from inside an extraction.
    Suppressed,
    /// A handle was null.
    NullHandle,
    /// The method or its class could not be named.
    Unresolved,
    /// The rows cached for the class have no first field to hold the method
    /// name.
    NoMethodField,
    /// The class carries no annotation, or its lookup failed.
    NoAnnotation,
}

/// What the caller is to do next.
#[derive(Clone, Debug, PartialEq, Eq)]
pub enum Action {
    /// Drop the event and emit nothing.
    Skip(SkipReason),
    /// Hand these rows to the record sink.
    Emit(Vec<Vec<String>>),
    /// The class is not cached: have delivery switched off, then extract.
    Suspend,
}

/// An `Action` with its rows as plain text.
pub enum ActionView {
    Skip(SkipReason),
    Emit(Seq<Seq<Seq<char>>>),
    Suspend,
}

impl View for Action {
    type V = ActionView;

    open spec fn view(&self) -> ActionView {
        match self {
            Action::Skip(reason) => ActionView::Skip(*reason),
            Action::Emit(rows) => ActionView::Emit(rows.deep_view()),
            Action::Suspend => ActionView::Suspend,
        }
    }
}

/// The state that all invocations share: the cache and the delivery mode.
pub struct Agent {
    pub cache: AnnotationCache,
    pub mode: EventMode,
}

/// The status with which the runtime reports success.
pub const STATUS_OK: u32 = 0;

/// Cached rows with the method name of the current event in the first field
/// of the first row; `None` where there is no such field.
pub open spec fn spec_with_method(rows: Seq<Seq<Seq<char>>>, method: Seq<char>) -> Option<
    Seq<Seq<Seq<char>>>,
> {
    if rows.len() > 0 && rows[0].len() > 0 {
        Some(rows.update(0, rows[0].update(0, method)))
    } else {
        None
    }
}

/// What the callback decides for an event, given the cache and the mode.
pub open spec fn spec_method_entry(
    cache: Map<Seq<char>, Seq<Seq<Seq<char>>>>,
    mode: EventMode,
    event: MethodEntry,
) -> ActionView {
    if mode == EventMode::Disabled {
        ActionView::Skip(SkipReason::Suppressed)
    } else {
        match event {
            MethodEntry::NullHandle => ActionView::Skip(SkipReason::NullHandle),
            MethodEntry::Unresolved => ActionView::Skip(SkipReason::Unresolved),
            MethodEntry::Resolved { method_name, class_name } => if cache.contains_key(class_name@) {
                match spec_with_method(cache[class_name@], method_name@) {
                    Some(rows) => ActionView::Emit(rows),
                    None => ActionView::Skip(SkipReason::NoMethodField),
                }
            } else {
                ActionView::Suspend
            },
        }
    }
}

/// The mode after the runtime answered a request to switch to `wanted` with
/// `status`: the wanted mode on success, the mode as it was otherwise.
pub open spec fn spec_switch(mode: EventMode, wanted: EventMode, status: u32) -> EventMode {
    if status == STATUS_OK {
        wanted
    } else {
        mode
    }
}

/// The cache after an extraction for `class_name` under `method` came to
/// `annotation`: the one new row is stored for the class if there was an
/// annotation, and nothing changes otherwise.
pub open spec fn spec_cache_after(
    cache: Map<Seq<char>, Seq<Seq<Seq<char>>>>,
    method: Seq<char>,
    class_name: Seq<char>,
    annotation: Option<AnnotationReplies>,
) -> Map<Seq<char>, Seq<Seq<Seq<char>>>> {
    match annotation {
        Some(replies) => cache.insert(class_name, seq![spec_row(method, class_name, replies)]),
        None => cache,
    }
}

/// What the caller is to do after such an extraction.
pub open spec fn spec_extraction_action(
    method: Seq<char>,
    class_name: Seq<char>,
    annotation: Option<AnnotationReplies>,
) -> ActionView {
    match annotation {
        Some(replies) => ActionView::Emit(seq![spec_row(method, class_name, replies)]),
        None => ActionView::Skip(SkipReason::NoAnnotation),
    }
}

/// Whether two lists of rows are the same but for the first field of the
/// first row.
pub open spec fn spec_same_but_method(a: Seq<Seq<Seq<char>>>, b: Seq<Seq<Seq<char>>>) -> bool {
    &&& a.len() == b.len()
    &&& forall|i: int| 0 <= i < a.len() ==> (#[trigger] a[i]).len() == b[i].len()
    &&& forall|i: int, j: int|
        0 <= i < a.len() && 0 <= j < a[i].len() && !(i == 0 && j == 0) ==> #[trigger] a[i][j]
            == b[i][j]
}

impl Agent {
    /// The agent as it is when it attaches: nothing cached, delivery on.
    pub fn new() -> (agent: Self)
        ensures
            agent.cache@ == Map::<Seq<char>, Seq<Seq<Seq<char>>>>::empty(),
            agent.mode == EventMode::Enabled,
    {
        Agent { cache: AnnotationCache::new(), mode: EventMode::Enabled }
    }
}

/// Puts `method` into the first field of the first row.
pub fn with_method(rows: Vec<Vec<String>>, method: &str) -> (res: Option<Vec<Vec<String>>>)
    ensures
        res.deep_view() == spec_with_method(rows.deep_view(), method@),
{
    if rows.len() == 0 || rows[0].len() == 0 {
        return None;
    }
    let ghost before = rows.deep_view();
    let mut rows = rows;
    let mut first: Vec<String> = clone_row(&rows[0]);
    let ghost first_before = first.deep_view();
    first.set(0, String::from_str(method));
    proof {
        assert forall|j: int| 0 <= j < first@.len() implies first.deep_view()[j] == before[0].update(
            0,
            method@,
        )[j] by {
            if j > 0 {
                assert(first@[j].deep_view() == first_before[j]);
            }
        }
        assert(first.deep_view() =~= before[0].update(0, method@));
    }
    rows.set(0, first);
    proof {
        let target = before.update(0, before[0].update(0, method@));
        assert forall|i: int| 0 <= i < rows@.len() implies rows.deep_view()[i] == target[i] by {
            if i > 0 {
                assert(rows@[i].deep_view() == before[i]);
            }
        }
        assert(rows.deep_view() =~= target);
    }
    Some(rows)
}

/// Decides what to do with one method-entry event. The agent is not
/// changed.
///
/// While delivery is switched off every event is dropped as suppressed. An
/// event with a null handle or without names is dropped. For a class that is
/// cached, the cached rows are emitted with the method name of this event in
/// place of the stored one. For any other class the answer is
/// `Action::Suspend`: nothing is extracted before delivery is off.
pub fn method_entry_callback(agent: &Agent, event: &MethodEntry) -> (action: Action)
    ensures
        action@ == spec_method_entry(agent.cache@, agent.mode, *event),
{
    if agent.mode == EventMode::Disabled {
        return Action::Skip(SkipReason::Suppressed);
    }
    match event {
        MethodEntry::NullHandle => Action::Skip(SkipReason::NullHandle),
        MethodEntry::Unresolved => Action::Skip(SkipReason::Unresolved),
        MethodEntry::Resolved { method_name, class_name } => {
            match get_annotation_data(&agent.cache, class_name.as_str()) {
                Some(rows) => match with_method(rows, method_name.as_str()) {
                    Some(rows) => Action::Emit(rows),
                    None => Action::Skip(SkipReason::NoMethodField),
                },
                None => Action::Suspend,
            }
        },
    }
}

/// Records how the runtime answered the request to stop delivering method
/// entries. Returns whether it succeeded; only then is the mode changed, and
/// only then may the caller extract.
pub fn disable_event(agent: &mut Agent, status: u32) -> (ok: bool)
    ensures
        ok == (status == STATUS_OK),
        final(agent).mode == spec_switch(old(agent).mode, EventMode::Disabled, status),
        final(agent).cache == old(agent).cache,
{
    if status == STATUS_OK {
        agent.mode = EventMode::Disabled;
        true
    } else {
        false
    }
}

/// Records how the runtime answered the request to deliver method entries
/// again. Returns whether it succeeded; only then is the mode changed.
pub fn enable_event(agent: &mut Agent, status: u32) -> (ok: bool)
    ensures
        ok == (status == STATUS_OK),
        final(agent).mode == spec_switch(old(agent).mode, EventMode::Enabled, status),
        final(agent).cache == old(agent).cache,
{
    if status == STATUS_OK {
        agent.mode = EventMode::Enabled;
        true
    } else {
        false
    }
}

/// Takes in what the extraction for `class_name` came to. With an
/// annotation, its row is built, stored for the class and handed back to be
/// emitted; without one the event is dropped and the cache stays as it was.
/// The mode is not touched: switching delivery on again is owed either way.
pub fn complete_extraction(
    agent: &mut Agent,
    method: &str,
    class_name: &str,
    annotation: Option<&AnnotationReplies>,
) -> (action: Action)
    ensures
        final(agent).mode == old(agent).mode,
        final(agent).cache@ == spec_cache_after(
            old(agent).cache@,
            method@,
            class_name@,
            spec_owned(annotation),
        ),
        action@ == spec_extraction_action(method@, class_name@, spec_owned(annotation)),
{
    match annotation {
        None => Action::Skip(SkipReason::NoAnnotation),
        Some(replies) => {
            let rows = get_annotation_values(method, class_name, replies);
            insert_annotation_data(&mut agent.cache, String::from_str(class_name), clone_rows(&rows));
            Action::Emit(rows)
        },
    }
}

/// The replies behind an optional reference.
pub open spec fn spec_owned(annotation: Option<&AnnotationReplies>) -> Option<AnnotationReplies> {
    match annotation {
        Some(replies) => Some(*replies),
        None => None,
    }
}

/// Whether an event names this method and this class.
pub open spec fn spec_names(event: MethodEntry, method: Seq<char>, class_name: Seq<char>) -> bool {
    event matches MethodEntry::Resolved { method_name, class_name: declaring } && method_name@
        == method && declaring@ == class_name
}

/// Two events for one cached class, entered through whatever methods, emit
/// rows that are the same but for the method field, which holds the name of
/// the method of each event. If the cached rows have no method field,
/// neither event emits anything.
pub proof fn lemma_cache_hit_differs_in_method_only(
    cache: Map<Seq<char>, Seq<Seq<Seq<char>>>>,
    first: MethodEntry,
    second: MethodEntry,
    first_method: Seq<char>,
    second_method: Seq<char>,
    class_name: Seq<char>,
)
    requires
        cache.contains_key(class_name),
        spec_names(first, first_method, class_name),
        spec_names(second, second_method, class_name),
    ensures
        match (
            spec_method_entry(cache, EventMode::Enabled, first),
            spec_method_entry(cache, EventMode::Enabled, second),
        ) {
            (ActionView::Emit(a), ActionView::Emit(b)) => {
                &&& spec_same_but_method(a, b)
                &&& a[0][0] == first_method
                &&& b[0][0] == second_method
                &&& spec_same_but_method(a, cache[class_name])
            },
            (ActionView::Skip(r1), ActionView::Skip(r2)) => r1 == SkipReason::NoMethodField && r2
                == SkipReason::NoMethodField,
            _ => false,
        },
{
}

/// The row emitted when a class is first seen and extracted, and the row
/// emitted when it is seen again, are the same but for the method field; the
/// second comes from the cache, which is not changed by it.
pub proof fn lemma_first_and_later_observation(
    cache: Map<Seq<char>, Seq<Seq<Seq<char>>>>,
    first_method: Seq<char>,
    class_name: Seq<char>,
    replies: AnnotationReplies,
    later: MethodEntry,
    later_method: Seq<char>,
)
    requires
        spec_names(later, later_method, class_name),
    ensures
        ({
            let stored = spec_cache_after(cache, first_method, class_name, Some(replies));
            let emitted = seq![spec_row(first_method, class_name, replies)];
            let again = seq![spec_row(later_method, class_name, replies)];
            &&& spec_extraction_action(first_method, class_name, Some(replies)) == ActionView::Emit(
                emitted,
            )
            &&& spec_method_entry(stored, EventMode::Enabled, later) == ActionView::Emit(again)
            &&& spec_same_but_method(emitted, again)
        }),
{
    let stored = spec_cache_after(cache, first_method, class_name, Some(replies));
    let emitted = seq![spec_row(first_method, class_name, replies)];
    let again = seq![spec_row(later_method, class_name, replies)];
    assert(stored[class_name] == emitted);
    assert(emitted[0].update(0, later_method) =~= again[0]);
    assert(emitted.update(0, again[0]) =~= again);
}

/// From the moment delivery is switched off until it is switched on again,
/// no event reaches the extraction path: whatever arrives, and whatever the
/// extraction in progress does to the cache, the callback drops the event as
/// suppressed. A successful switch always takes effect, so delivery is on
/// again after it, whatever the extraction came to.
pub proof fn lemma_no_reentry_while_disabled(
    cache: Map<Seq<char>, Seq<Seq<Seq<char>>>>,
    mode: EventMode,
    nested: MethodEntry,
    method: Seq<char>,
    class_name: Seq<char>,
    annotation: Option<AnnotationReplies>,
)
    ensures
        ({
            let during = spec_switch(mode, EventMode::Disabled, STATUS_OK);
            let after = spec_switch(during, EventMode::Enabled, STATUS_OK);
            &&& during == EventMode::Disabled
            &&& spec_method_entry(cache, during, nested) == ActionView::Skip(SkipReason::Suppressed)
            &&& spec_method_entry(
                spec_cache_after(cache, method, class_name, annotation),
                during,
                nested,
            ) == ActionView::Skip(SkipReason::Suppressed)
            &&& after == EventMode::Enabled
        }),
{
}

/// A class is extracted at most once: after an extraction that found an
/// annotation the class is cached, no later extraction for any class takes
/// it out of the cache again, and no later event for it asks to extract.
pub proof fn lemma_cached_class_is_not_extracted_again(
    cache: Map<Seq<char>, Seq<Seq<Seq<char>>>>,
    method: Seq<char>,
    class_name: Seq<char>,
    replies: AnnotationReplies,
    other_method: Seq<char>,
    other_class: Seq<char>,
    other: Option<AnnotationReplies>,
    later: MethodEntry,
    later_method: Seq<char>,
)
    requires
        spec_names(later, later_method, class_name),
    ensures
        ({
            let stored = spec_cache_after(cache, method, class_name, Some(replies));
            let afterwards = spec_cache_after(stored, other_method, other_class, other);
            &&& stored.contains_key(class_name)
            &&& afterwards.contains_key(class_name)
            &&& forall|mode: EventMode|
                spec_method_entry(stored, mode, later) != ActionView::Suspend
                    && #[trigger] spec_method_entry(afterwards, mode, later) != ActionView::Suspend
        }),
{
}

/// A request that the runtime refuses leaves the mode as it was.
pub proof fn lemma_refused_switch_keeps_mode(mode: EventMode, wanted: EventMode, status: u32)
    requires
        status != STATUS_OK,
    ensures
        spec_switch(mode, wanted, status) == mode,
{
}

} // verus!
