//! When a composer can be taken for clean.
use crate::detect::AgentState;
use crate::pty::input::{
    InputTrackerSnapshot, PtyInput, after_fresh_resume, after_input, after_state, bytes_in,
    effect_of, is_consistent,
};
use vstd::prelude::*;

verus! {

/// Something that a tracker takes note of.
pub enum TrackerEvent {
    Input(PtyInput),
    State(AgentState),
    FreshResume,
}

/// The tracker after one event.
pub open spec fn observe(t: InputTrackerSnapshot, event: TrackerEvent) -> InputTrackerSnapshot {
    match event {
        TrackerEvent::Input(input) => after_input(t, effect_of(input)),
        TrackerEvent::State(state) => after_state(t, state),
        TrackerEvent::FreshResume => after_fresh_resume(t),
    }
}

/// The tracker after a series of events.
pub open spec fn observe_all(
    t: InputTrackerSnapshot,
    events: Seq<TrackerEvent>,
) -> InputTrackerSnapshot
    decreases events.len(),
{
    if events.len() == 0 {
        t
    } else {
        observe(observe_all(t, events.drop_last()), events.last())
    }
}

/// An input that reached the composer.
pub open spec fn is_composer_input(event: TrackerEvent) -> bool {
    event matches TrackerEvent::Input(input) && !(effect_of(input) is Ignored)
}

/// A manual enter.
pub open spec fn is_enter(event: TrackerEvent) -> bool {
    event matches TrackerEvent::Input(input) && effect_of(input) is Enter
}

/// Input from the queue and from the system never touches the tracker.
pub proof fn law_queue_and_system_input_is_ignored(t: InputTrackerSnapshot, input: PtyInput)
    requires
        input.provenance is Queue || input.provenance is System,
    ensures
        observe(t, TrackerEvent::Input(input)) == t,
{
}

/// Empty input and control input never touch the tracker.
pub proof fn law_empty_and_control_input_is_ignored(t: InputTrackerSnapshot, input: PtyInput)
    requires
        bytes_in(input.bytes).len() == 0 || input.kind is Control,
    ensures
        observe(t, TrackerEvent::Input(input)) == t,
{
}

/// The count of composer inputs never falls, and the PTY epoch never changes.
pub proof fn law_count_never_falls(t: InputTrackerSnapshot, events: Seq<TrackerEvent>)
    ensures
        t.content_sequence <= observe_all(t, events).content_sequence,
        observe_all(t, events).pty_epoch == t.pty_epoch,
    decreases events.len(),
{
    if events.len() > 0 {
        law_count_never_falls(t, events.drop_last());
    }
}

/// Right after an input to the composer it is dirty.
pub proof fn law_composer_input_dirties(t: InputTrackerSnapshot, event: TrackerEvent)
    requires
        is_composer_input(event),
    ensures
        observe(t, event).cleanliness is Dirty,
        observe(t, event).content_sequence > 0,
{
}

/// A manual enter after which the agent goes to work and then idle leaves the composer clean.
pub proof fn law_enter_working_idle_cleans(t: InputTrackerSnapshot, enter: PtyInput)
    requires
        effect_of(enter) is Enter,
    ensures
        observe(
            observe(
                observe(t, TrackerEvent::Input(enter)),
                TrackerEvent::State(AgentState::Working),
            ),
            TrackerEvent::State(AgentState::Idle),
        ).cleanliness is Clean,
{
}

/// At `e` there was a manual enter, at `w` the agent went to work, and nothing reached the
/// composer between the enter and `end`.
pub open spec fn sent_and_worked(events: Seq<TrackerEvent>, e: int, w: int, end: int) -> bool {
    &&& 0 <= e < w < end <= events.len()
    &&& is_enter(events[e])
    &&& events[w] == TrackerEvent::State(AgentState::Working)
    &&& forall|k: int| e < k < end ==> !is_composer_input(#[trigger] events[k])
}

/// What the enter that the tracker waits on has to do with the events so far.
spec fn explains(
    t: InputTrackerSnapshot,
    events: Seq<TrackerEvent>,
    after: int,
) -> bool {
    let now = observe_all(t, events);
    &&& now.content_sequence > 0
    &&& now.manual_enter_sequence is Some ==> exists|e: int|
        {
            &&& after <= e < events.len()
            &&& is_enter(#[trigger] events[e])
            &&& forall|k: int| e < k < events.len() ==> !is_composer_input(#[trigger] events[k])
            &&& now.manual_enter_reached_working ==> exists|w: int|
                e < w < events.len() && #[trigger] events[w] == TrackerEvent::State(
                    AgentState::Working,
                )
        }
    &&& now.manual_enter_reached_working ==> now.manual_enter_sequence is Some
    &&& now.cleanliness is Clean ==> exists|e: int, w: int, d: int|
        after <= e && #[trigger] sent_and_worked(events, e, w, d) && d < events.len()
            && #[trigger] events[d] == TrackerEvent::State(AgentState::Idle)
}

proof fn lemma_explains(t: InputTrackerSnapshot, events: Seq<TrackerEvent>, i: int)
    requires
        0 <= i < events.len(),
        is_composer_input(events[i]),
    ensures
        explains(t, events, i),
    decreases events.len(),
{
    let init = events.drop_last();
    let before = observe_all(t, init);
    let now = observe_all(t, events);
    let n = events.len() - 1;
    let event = events.last();
    if is_composer_input(event) {
        if is_enter(event) {
            assert(is_enter(events[n]));
        }
    } else {
        assert(i < n);
        assert(init[i] == events[i]);
        lemma_explains(t, init, i);
        if before.manual_enter_sequence is Some {
            let e = choose|e: int|
                {
                    &&& i <= e < init.len()
                    &&& is_enter(#[trigger] init[e])
                    &&& forall|k: int|
                        e < k < init.len() ==> !is_composer_input(#[trigger] init[k])
                    &&& before.manual_enter_reached_working ==> exists|w: int|
                        e < w < init.len() && #[trigger] init[w] == TrackerEvent::State(
                            AgentState::Working,
                        )
                };
            assert(is_enter(events[e]));
            assert forall|k: int| e < k < events.len() implies !is_composer_input(
                #[trigger] events[k],
            ) by {
                if k < n {
                    assert(init[k] == events[k]);
                }
            }
            if before.manual_enter_reached_working {
                let w = choose|w: int|
                    e < w < init.len() && #[trigger] init[w] == TrackerEvent::State(
                        AgentState::Working,
                    );
                assert(events[w] == TrackerEvent::State(AgentState::Working));
                if event == TrackerEvent::State(AgentState::Idle) {
                    assert(sent_and_worked(events, e, w, n));
                    assert(events[n] == TrackerEvent::State(AgentState::Idle));
                }
            }
            if event == TrackerEvent::State(AgentState::Working) {
                assert(events[n] == TrackerEvent::State(AgentState::Working));
            }
        }
        if before.cleanliness is Clean {
            let (e, w, d) = choose|e: int, w: int, d: int|
                i <= e && #[trigger] sent_and_worked(init, e, w, d) && d < init.len()
                    && #[trigger] init[d] == TrackerEvent::State(AgentState::Idle);
            assert(sent_and_worked(events, e, w, d)) by {
                assert(init[e] == events[e] && init[w] == events[w]);
                assert forall|k: int| e < k < d implies !is_composer_input(
                    #[trigger] events[k],
                ) by {
                    assert(init[k] == events[k]);
                }
            }
            assert(events[d] == init[d]);
        }
    }
}

/// Once something has reached the composer, only a full cycle shows it clean: a manual enter, the
/// agent going to work, and the agent going idle, with nothing reaching the composer from the
/// enter on until the agent is idle.
pub proof fn law_only_a_full_cycle_cleans(
    t: InputTrackerSnapshot,
    events: Seq<TrackerEvent>,
    i: int,
)
    requires
        0 <= i < events.len(),
        is_composer_input(events[i]),
        observe_all(t, events).cleanliness is Clean,
    ensures
        exists|e: int, w: int, d: int|
            i <= e && #[trigger] sent_and_worked(events, e, w, d) && d < events.len()
                && #[trigger] events[d] == TrackerEvent::State(AgentState::Idle),
{
    lemma_explains(t, events, i);
}

/// Seeing a resumed session start without input cleans the composer only if nothing was ever
/// counted; otherwise it changes nothing.
pub proof fn law_fresh_resume_needs_zero_input(t: InputTrackerSnapshot)
    ensures
        t.content_sequence == 0 ==> observe(t, TrackerEvent::FreshResume).cleanliness is Clean,
        t.content_sequence > 0 ==> observe(t, TrackerEvent::FreshResume) == t,
{
}

/// A consistent tracker, such as one of a terminal that was just started or restored, stays
/// consistent whatever it takes note of.
pub proof fn law_trackers_are_consistent(t: InputTrackerSnapshot, events: Seq<TrackerEvent>)
    requires
        is_consistent(t),
    ensures
        is_consistent(observe_all(t, events)),
    decreases events.len(),
{
    if events.len() > 0 {
        law_trackers_are_consistent(t, events.drop_last());
    }
}

/// What one input does, by who it comes from and what it is. Bytes that somebody typed, or that
/// came through the pane API, dirty the composer, count, and make an earlier enter forgotten; a
/// manual enter is remembered in its place; anything else, and an input without bytes, does
/// nothing.
pub proof fn law_inputs_by_source_and_kind(t: InputTrackerSnapshot, input: PtyInput)
    ensures
        ({
            let after = observe(t, TrackerEvent::Input(input));
            let by_hand = input.provenance is Manual;
            let by_api = input.provenance is PaneApi;
            let enter = by_hand && input.kind is TopLevelEnter;
            let content = (by_hand && input.kind is Content) || (by_api && (input.kind is Content
                || input.kind is TopLevelEnter));
            if bytes_in(input.bytes).len() > 0 && (enter || content) {
                &&& after.pty_epoch == t.pty_epoch
                &&& after.cleanliness is Dirty
                &&& t.content_sequence < u64::MAX ==> after.content_sequence == t.content_sequence
                    + 1
                &&& t.content_sequence == u64::MAX ==> after.content_sequence == u64::MAX
                &&& !after.manual_enter_reached_working
                &&& enter ==> after.manual_enter_sequence == Some(after.content_sequence)
                &&& !enter ==> after.manual_enter_sequence is None
            } else {
                after == t
            }
        }),
{
}

/// What seeing the agent in a state does: nothing unless an enter was the last input. Then work is
/// noted, and idleness after work cleans the composer and ends the cycle. Any other state does
/// nothing.
pub proof fn law_states_by_the_cycle(t: InputTrackerSnapshot, state: AgentState)
    ensures
        ({
            let after = observe(t, TrackerEvent::State(state));
            let waits = t.manual_enter_sequence == Some(t.content_sequence);
            &&& after.pty_epoch == t.pty_epoch
            &&& after.content_sequence == t.content_sequence
            &&& state is Blocked || state is Unknown || !waits ==> after == t
            &&& waits && state is Working ==> {
                &&& after.manual_enter_reached_working
                &&& after.cleanliness == t.cleanliness
                &&& after.manual_enter_sequence == t.manual_enter_sequence
            }
            &&& waits && state is Idle && t.manual_enter_reached_working ==> {
                &&& after.cleanliness is Clean
                &&& after.manual_enter_sequence is None
                &&& !after.manual_enter_reached_working
            }
            &&& waits && state is Idle && !t.manual_enter_reached_working ==> after == t
        }),
{
}

/// A fresh resume does nothing but clean a composer that had no input.
pub proof fn law_fresh_resume_only_cleans(t: InputTrackerSnapshot)
    ensures
        ({
            let after = observe(t, TrackerEvent::FreshResume);
            &&& after.pty_epoch == t.pty_epoch
            &&& after.content_sequence == t.content_sequence
            &&& after.manual_enter_sequence == t.manual_enter_sequence
            &&& after.manual_enter_reached_working == t.manual_enter_reached_working
            &&& t.content_sequence > 0 ==> after.cleanliness == t.cleanliness
            &&& t.content_sequence == 0 ==> after.cleanliness is Clean
        }),
{
}

/// Bytes went into the composer: typed by hand, or sent through the pane API.
pub open spec fn reaches_composer(event: TrackerEvent) -> bool {
    event matches TrackerEvent::Input(input) && bytes_in(input.bytes).len() > 0 && (
    input.provenance is Manual || input.provenance is PaneApi) && !(input.kind is Control)
}

/// Enter was pressed by hand.
pub open spec fn is_manual_enter(event: TrackerEvent) -> bool {
    event matches TrackerEvent::Input(input) && bytes_in(input.bytes).len() > 0
        && input.provenance is Manual && input.kind is TopLevelEnter
}

/// Where a cycle stands after the enter at `e`, once the agent went to work at `w`.
proof fn lemma_cycle_goes_on(
    t: InputTrackerSnapshot,
    events: Seq<TrackerEvent>,
    e: int,
    w: int,
    end: int,
)
    requires
        0 <= e < end <= events.len(),
        e < w,
        is_manual_enter(events[e]),
        events[w] == TrackerEvent::State(AgentState::Working),
        forall|k: int| e < k < end ==> !reaches_composer(#[trigger] events[k]),
    ensures
        ({
            let now = observe_all(t, events.take(end));
            &&& now.content_sequence > 0
            &&& now.manual_enter_sequence == Some(now.content_sequence) || (
            now.manual_enter_sequence is None && now.cleanliness is Clean)
            &&& now.manual_enter_sequence is Some && end > w ==> now.manual_enter_reached_working
        }),
    decreases end,
{
    let last = events[end - 1];
    assert(events.take(end).drop_last() =~= events.take(end - 1));
    assert(events.take(end).last() == last);
    if end - 1 > e {
        lemma_cycle_goes_on(t, events, e, w, end - 1);
        assert(!reaches_composer(last));
        if end - 1 == w {
            assert(last == TrackerEvent::State(AgentState::Working));
        }
    }
}

/// A full cycle cleans: when a manual enter is followed by the agent at work and then idle, and
/// nothing reaches the composer from the enter on, the composer is clean, whatever else was seen
/// in between.
pub proof fn law_every_full_cycle_cleans(
    t: InputTrackerSnapshot,
    events: Seq<TrackerEvent>,
    e: int,
    w: int,
    d: int,
)
    requires
        0 <= e < w < d < events.len(),
        is_manual_enter(events[e]),
        events[w] == TrackerEvent::State(AgentState::Working),
        events[d] == TrackerEvent::State(AgentState::Idle),
        forall|k: int| e < k <= d ==> !reaches_composer(#[trigger] events[k]),
    ensures
        observe_all(t, events.take(d + 1)).cleanliness is Clean,
{
    lemma_cycle_goes_on(t, events, e, w, d);
    assert(events.take(d + 1).drop_last() =~= events.take(d));
    assert(events.take(d + 1).last() == events[d]);
}

/// A tracker that has taken note of nothing is as it was.
pub proof fn law_observing_goes_event_by_event(
    t: InputTrackerSnapshot,
    events: Seq<TrackerEvent>,
    event: TrackerEvent,
)
    ensures
        observe_all(t, Seq::empty()) == t,
        observe_all(t, events.push(event)) == observe(observe_all(t, events), event),
{
    assert(events.push(event).drop_last() =~= events);
}

} // verus!
