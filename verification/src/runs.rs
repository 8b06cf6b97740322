//! What holds of a build from its beginning to its end.

use crate::error::{CompileErrorView, Failure};
use crate::options::CompileOptions;
use crate::package::{PackageIdSpec, Workspace};
use crate::session::{
    arch_kind, awaited, begun, is_target_file, stepped, Action, Event, State,
};
use crate::units::{BuildContext, Unit};
use vstd::prelude::*;

verus! {

/// How many events a build in a state is away from its end, at most.
pub open spec fn steps_left(state: State) -> nat {
    match state {
        State::TargetPath => 7,
        State::BuildConfig => 6,
        State::Specs { .. } => 5,
        State::Resolve { .. } => 4,
        State::Packages { .. } => 3,
        State::Profiles { .. } => 2,
        State::Build { .. } => 1,
        State::Finished => 0,
    }
}

/// Whether an action is the answer to the user: the build is done or refused.
pub open spec fn is_answer(action: Action) -> bool {
    action is Done || action is Fail
}

/// What holds of every state that a build reaches.
pub open spec fn sound<'a, C>(options: CompileOptions<'a, C>, state: State<'a>) -> bool {
    &&& state is TargetPath ==> is_target_file(options.target)
    &&& !(state is TargetPath) && !(state is Finished) ==> options.jobs != Some(0u32)
    &&& state matches State::Resolve { specs, .. } ==> specs@.len() > 0
    &&& state matches State::Packages { specs, .. } ==> specs@.len() > 0
    &&& state matches State::Profiles { packages, .. } ==> {
        &&& packages@.len() > 0
        &&& options.extra() is Some ==> packages@.len() == 1
    }
    &&& state matches State::Build { packages } ==> packages@.len() > 0
}

/// A build, or the beginning of one: the states it went through, with the action
/// that each came with, and the event that led from each to the next.
pub open spec fn is_run<'a, C>(
    ws: &Workspace,
    options: &'a CompileOptions<'a, C>,
    states: Seq<State<'a>>,
    actions: Seq<Action<'a>>,
    events: Seq<Event<'a>>,
) -> bool {
    &&& states.len() == events.len() + 1
    &&& actions.len() == states.len()
    &&& begun(options, states[0], actions[0])
    &&& forall|i: int|
        0 <= i < events.len() ==> {
            &&& awaited(*ws, *options, #[trigger] states[i], events[i])
            &&& stepped(ws, options, states[i], events[i], states[i + 1], actions[i + 1])
        }
}

/// A build begins in a sound state.
pub proof fn law_begins_sound<'a, C>(
    options: &'a CompileOptions<'a, C>,
    next: State<'a>,
    action: Action<'a>,
)
    requires
        begun(options, next, action),
    ensures
        sound(*options, next),
        next is Finished <==> is_answer(action),
{
}

/// Every event that is awaited leads from a sound state to a sound state that is
/// closer to the end, and the end is reached exactly with an answer.
pub proof fn law_stays_sound<'a, C>(
    ws: &Workspace,
    options: &'a CompileOptions<'a, C>,
    state: State<'a>,
    event: Event<'a>,
    next: State<'a>,
    action: Action<'a>,
)
    requires
        sound(*options, state),
        awaited(*ws, *options, state, event),
        stepped(ws, options, state, event, next, action),
    ensures
        sound(*options, next),
        steps_left(next) < steps_left(state),
        next is Finished <==> is_answer(action),
{
}

/// Once it is finished, a build awaits nothing.
pub proof fn law_finished_awaits_nothing<'a, C>(
    ws: Workspace,
    options: CompileOptions<'a, C>,
    event: Event<'a>,
)
    ensures
        !awaited(ws, options, State::Finished, event),
{
}

proof fn lemma_run_prefix<'a, C>(
    ws: &Workspace,
    options: &'a CompileOptions<'a, C>,
    states: Seq<State<'a>>,
    actions: Seq<Action<'a>>,
    events: Seq<Event<'a>>,
    n: int,
)
    requires
        is_run(ws, options, states, actions, events),
        0 <= n <= events.len(),
    ensures
        sound(*options, states[n]),
        steps_left(states[n]) + n <= 7,
        states[n] is Finished <==> is_answer(actions[n]),
    decreases n,
{
    if n > 0 {
        lemma_run_prefix(ws, options, states, actions, events, n - 1);
        assert(awaited(*ws, *options, states[n - 1], events[n - 1]));
        law_stays_sound(
            ws,
            options,
            states[n - 1],
            events[n - 1],
            states[n],
            actions[n],
        );
    }
}

/// A build ends after seven events at the latest.
pub proof fn law_run_ends<'a, C>(
    ws: &Workspace,
    options: &'a CompileOptions<'a, C>,
    states: Seq<State<'a>>,
    actions: Seq<Action<'a>>,
    events: Seq<Event<'a>>,
)
    requires
        is_run(ws, options, states, actions, events),
    ensures
        events.len() <= 7,
{
    lemma_run_prefix(ws, options, states, actions, events, events.len() as int);
}

/// A build is answered once: when it finishes, and not before.
pub proof fn law_answered_once<'a, C>(
    ws: &Workspace,
    options: &'a CompileOptions<'a, C>,
    states: Seq<State<'a>>,
    actions: Seq<Action<'a>>,
    events: Seq<Event<'a>>,
)
    requires
        is_run(ws, options, states, actions, events),
    ensures
        states.last() is Finished <==> is_answer(actions.last()),
        forall|i: int| 0 <= i < events.len() ==> !is_answer(#[trigger] actions[i]),
{
    lemma_run_prefix(ws, options, states, actions, events, events.len() as int);
    assert forall|i: int| 0 <= i < events.len() implies !is_answer(#[trigger] actions[i]) by {
        lemma_run_prefix(ws, options, states, actions, events, i);
        assert(awaited(*ws, *options, states[i], events[i]));
        law_finished_awaits_nothing(*ws, *options, events[i]);
    }
}

/// A build with no jobs does nothing but look up the file that describes the
/// target platform, and is refused.
pub proof fn law_no_jobs_no_build<'a, C>(
    ws: &Workspace,
    options: &'a CompileOptions<'a, C>,
    states: Seq<State<'a>>,
    actions: Seq<Action<'a>>,
    events: Seq<Event<'a>>,
)
    requires
        is_run(ws, options, states, actions, events),
        options.jobs == Some(0u32),
    ensures
        forall|i: int|
            0 <= i < actions.len() ==> (#[trigger] actions[i]) is CanonicalizeTarget || actions[i]
                is Fail,
{
    assert forall|i: int| 0 <= i < actions.len() implies (#[trigger] actions[i])
        is CanonicalizeTarget || actions[i] is Fail by {
        lemma_run_prefix(ws, options, states, actions, events, i);
        if i > 0 {
            lemma_run_prefix(ws, options, states, actions, events, i - 1);
            assert(awaited(*ws, *options, states[i - 1], events[i - 1]));
        }
    }
}

/// What is built is what was asked for: the units of the packages that were
/// fetched, with the features that were resolved, for the platform that the
/// configuration asked for.
pub proof fn law_builds_what_was_fetched<'a, C>(
    ws: &Workspace,
    options: &'a CompileOptions<'a, C>,
    states: Seq<State<'a>>,
    actions: Seq<Action<'a>>,
    events: Seq<Event<'a>>,
    n: int,
) -> (c: int)
    requires
        is_run(ws, options, states, actions, events),
        0 <= n < actions.len(),
        actions[n] is Build,
    ensures
        3 <= n,
        events[n - 1] is Validated,
        events[n - 2] is Packages,
        events[n - 3] is Resolved,
        0 <= c < n - 3,
        events[c] is BuildConfig,
        ({
            let ctx = BuildContext {
                ws,
                default_arch_kind: arch_kind(events[c]->requested_target),
                mode: options.mode,
                release: options.release,
            };
            ctx.units(
                events[n - 2]->Packages_0@,
                options.filter,
                events[n - 3]->resolve,
            ) == Ok::<Seq<Unit<'a>>, CompileErrorView>(
                actions[n]->units@,
            )
        }),
        options.extra() is Some ==> actions[n]->units@.len() == 1,
{
    assert(n > 0);
    assert(awaited(*ws, *options, states[n - 1], events[n - 1]));
    assert(states[n - 1] is Profiles);
    assert(n > 1);
    assert(awaited(*ws, *options, states[n - 2], events[n - 2]));
    assert(states[n - 2] is Packages);
    assert(n > 2);
    assert(awaited(*ws, *options, states[n - 3], events[n - 3]));
    assert(states[n - 3] is Resolve);
    assert(n > 3);
    assert(awaited(*ws, *options, states[n - 4], events[n - 4]));
    if states[n - 4] is BuildConfig {
        n - 4
    } else {
        assert(states[n - 4] is Specs);
        assert(n > 4);
        assert(awaited(*ws, *options, states[n - 5], events[n - 5]));
        n - 5
    }
}

/// A build is done only after its units were run, and the packages whose
/// documentation can be tested are those that were fetched.
pub proof fn law_done_after_build<'a, C>(
    ws: &Workspace,
    options: &'a CompileOptions<'a, C>,
    states: Seq<State<'a>>,
    actions: Seq<Action<'a>>,
    events: Seq<Event<'a>>,
    n: int,
)
    requires
        is_run(ws, options, states, actions, events),
        0 <= n < actions.len(),
        actions[n] is Done,
    ensures
        3 <= n,
        events[n - 1] is Built,
        actions[n - 1] is Build,
        events[n - 3] is Packages,
        actions[n]->to_doc_test@ == events[n - 3]->Packages_0@,
{
    assert(n > 0);
    assert(awaited(*ws, *options, states[n - 1], events[n - 1]));
    assert(states[n - 1] is Build);
    assert(n > 1);
    assert(awaited(*ws, *options, states[n - 2], events[n - 2]));
    assert(states[n - 2] is Profiles);
    assert(n > 2);
    assert(awaited(*ws, *options, states[n - 3], events[n - 3]));
}

/// The packages of a build that is done are those that were selected: the
/// selected specifications were resolved and fetched, and the packages whose
/// documentation can be tested are one for each of them, in their order.  What
/// was selected follows from what the specifications that were given as text
/// read as; there were none, or the event before the resolution tells.
pub proof fn law_done_with_what_was_selected<'a, C>(
    ws: &Workspace,
    options: &'a CompileOptions<'a, C>,
    states: Seq<State<'a>>,
    actions: Seq<Action<'a>>,
    events: Seq<Event<'a>>,
    n: int,
) -> (parsed: Seq<Result<PackageIdSpec, Failure>>)
    requires
        is_run(ws, options, states, actions, events),
        0 <= n < actions.len(),
        actions[n] is Done,
    ensures
        5 <= n,
        parsed.len() == options.spec.unread().len(),
        parsed.len() > 0 ==> events[n - 5] is Specs && events[n - 5]->Specs_0@ == parsed,
        options.spec.selection(*ws, parsed) is Ok,
        ({
            let selected = options.spec.selection(*ws, parsed)->Ok_0;
            &&& actions[n - 4] matches Action::Resolve { specs, .. } && specs@ == selected
            &&& actions[n - 3] matches Action::FetchPackages { specs } && specs@ == selected
            &&& events[n - 3] is Packages
            &&& actions[n]->to_doc_test@ == events[n - 3]->Packages_0@
            &&& actions[n]->to_doc_test@.len() == selected.len()
        }),
{
    law_done_after_build(ws, options, states, actions, events, n);
    assert(awaited(*ws, *options, states[n - 1], events[n - 1]));
    assert(awaited(*ws, *options, states[n - 2], events[n - 2]));
    assert(awaited(*ws, *options, states[n - 3], events[n - 3]));
    assert(states[n - 3] is Packages);
    assert(n > 3);
    assert(awaited(*ws, *options, states[n - 4], events[n - 4]));
    assert(states[n - 4] is Resolve);
    assert(n > 4);
    assert(awaited(*ws, *options, states[n - 5], events[n - 5]));
    if states[n - 5] is BuildConfig {
        Seq::empty()
    } else {
        events[n - 5]->Specs_0@
    }
}

} // verus!
