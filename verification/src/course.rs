//! Whole compile operations: what the machine asks for, in order, while it
//! is told what happened, and what holds of every such course.

use crate::compile::{initial, transition, ActionView, EventView, StateView};
use crate::response::{no_contract_response, ApiErrorView, ResponseView};
use vstd::prelude::*;

verus! {

/// The state that the machine is in and the actions that it has asked for, in
/// order, once `events` were reported to it one by one from the start of an
/// operation; `None` where one of them came when the machine did not wait for
/// it.
pub open spec fn run(contract: Seq<char>, toolchain: Seq<char>, events: Seq<EventView>) -> Option<
    (StateView, Seq<ActionView>),
>
    decreases events.len(),
{
    if events.len() == 0 {
        let (state, action) = initial(contract, toolchain);
        Some((state, seq![action]))
    } else {
        match run(contract, toolchain, events.drop_last()) {
            Some((state, actions)) => match transition(state, events.last()) {
                Some((next, action)) => Some((next, actions.push(action))),
                None => None,
            },
            None => None,
        }
    }
}

/// The result that the operation has handed to the caller once `events` were
/// reported, if that ended it.
pub open spec fn outcome(
    contract: Seq<char>,
    toolchain: Seq<char>,
    events: Seq<EventView>,
) -> Option<Result<ResponseView, ApiErrorView>> {
    match run(contract, toolchain, events) {
        Some((_, actions)) => match actions.last() {
            ActionView::Finish(result) => Some(result),
            _ => None,
        },
        None => None,
    }
}

/// A request without a contract is answered at once: nothing is asked of the
/// outside, and no report is waited for.
pub proof fn lemma_no_contract_asks_nothing(toolchain: Seq<char>, events: Seq<EventView>)
    ensures
        run(Seq::empty(), toolchain, events) == if events.len() == 0 {
            Some((StateView::Finished, seq![ActionView::Finish(Ok(no_contract_response()))]))
        } else {
            None
        },
    decreases events.len(),
{
    if events.len() > 0 {
        lemma_no_contract_asks_nothing(toolchain, events.drop_last());
    }
}

/// Whether `action` stages a project: whether it writes the contract into
/// one.
pub open spec fn stages(action: ActionView) -> bool {
    action is WriteMainFile
}

/// Whether `actions` has asked, after each project that it staged, for the
/// removal of that project.
pub open spec fn removes_what_it_stages(actions: Seq<ActionView>) -> bool {
    forall|k: int|
        0 <= k < actions.len() ==> (#[trigger] actions[k] matches ActionView::WriteMainFile {
            project,
            ..
        } ==> exists|j: int|
            k < j < actions.len() && #[trigger] actions[j] == (ActionView::RemoveProject {
                project,
            }))
}

/// Whether `actions` has staged nothing.
pub open spec fn stages_nothing(actions: Seq<ActionView>) -> bool {
    forall|k: int| 0 <= k < actions.len() ==> !stages(#[trigger] actions[k])
}

/// Whether `actions` has staged nothing but `project`.
pub open spec fn stages_only(actions: Seq<ActionView>, project: Seq<char>) -> bool {
    forall|k: int|
        0 <= k < actions.len() && stages(#[trigger] actions[k])
            ==> actions[k]->WriteMainFile_project == project
}

/// Whether `actions` has asked, after each build of a project, for the
/// removal of that project.
pub open spec fn removes_what_it_builds(actions: Seq<ActionView>) -> bool {
    forall|k: int|
        0 <= k < actions.len() ==> (#[trigger] actions[k] matches ActionView::BuildProject {
            project,
        } ==> exists|j: int|
            k < j < actions.len() && #[trigger] actions[j] == (ActionView::RemoveProject {
                project,
            }))
}

/// Whether `actions` has built nothing.
pub open spec fn builds_nothing(actions: Seq<ActionView>) -> bool {
    forall|k: int| 0 <= k < actions.len() ==> !(#[trigger] actions[k] is BuildProject)
}

/// Whether `actions` has built nothing but `project`.
pub open spec fn builds_only(actions: Seq<ActionView>, project: Seq<char>) -> bool {
    forall|k: int|
        0 <= k < actions.len() && #[trigger] actions[k] is BuildProject ==> actions[k] == (
        ActionView::BuildProject { project })
}

/// What holds of the actions asked for so far, by the state of the machine:
/// before a project is created nothing was staged or built; while the
/// project is in use nothing but it was staged or built; from its removal on
/// every project that was staged or built has been removed.
pub open spec fn accounted(state: StateView, actions: Seq<ActionView>) -> bool {
    match state {
        StateView::SwitchingToolchain { .. }
        | StateView::QueryingVersion { .. }
        | StateView::CreatingProject { .. } => stages_nothing(actions) && builds_nothing(actions),
        StateView::WritingSource { project, .. } => stages_only(actions, project)
            && builds_nothing(actions),
        StateView::Building { project, .. } | StateView::ReadingArtifacts { project, .. } => {
            stages_only(actions, project) && builds_only(actions, project)
        },
        StateView::RemovingBuilt { .. }
        | StateView::RemovingFailed { .. }
        | StateView::RemovingUnwritten
        | StateView::Finished => removes_what_it_stages(actions) && removes_what_it_builds(
            actions,
        ),
    }
}

/// At every point of an operation the actions asked for so far are accounted
/// for.
pub proof fn lemma_course_is_accounted(
    contract: Seq<char>,
    toolchain: Seq<char>,
    events: Seq<EventView>,
)
    ensures
        run(contract, toolchain, events) matches Some((state, actions)) ==> accounted(
            state,
            actions,
        ),
    decreases events.len(),
{
    if events.len() > 0 {
        lemma_course_is_accounted(contract, toolchain, events.drop_last());
        match run(contract, toolchain, events.drop_last()) {
            Some((state, actions)) => {
                match transition(state, events.last()) {
                    Some((next, action)) => {
                        lemma_step_is_accounted(state, actions, next, action);
                    },
                    None => {},
                }
            },
            None => {},
        }
    }
}

/// One step of the machine keeps the actions accounted for.
proof fn lemma_step_is_accounted(
    state: StateView,
    actions: Seq<ActionView>,
    next: StateView,
    action: ActionView,
)
    requires
        accounted(state, actions),
        exists|event: EventView| transition(state, event) == Some((next, action)),
    ensures
        accounted(next, actions.push(action)),
{
    let after = actions.push(action);
    let last = after.len() - 1;
    assert(after[last] == action);
    assert forall|k: int| 0 <= k < actions.len() implies after[k] == actions[k] by {}
    match action {
        ActionView::RemoveProject { project } => {
            assert forall|k: int| 0 <= k < after.len() && stages(#[trigger] after[k]) implies after[last]
                == (ActionView::RemoveProject { project: after[k]->WriteMainFile_project }) by {
                assert(stages(actions[k]));
            }
            assert forall|k: int|
                0 <= k < after.len() && #[trigger] after[k] is BuildProject implies after[last] == (
            ActionView::RemoveProject { project: after[k]->BuildProject_project }) by {
                assert(actions[k] is BuildProject);
            }
            assert(removes_what_it_stages(after));
            assert(removes_what_it_builds(after));
        },
        ActionView::Finish(_) => {
            if removes_what_it_stages(actions) && removes_what_it_builds(actions) {
                assert forall|k: int|
                    0 <= k < after.len() && stages(#[trigger] after[k]) implies exists|j: int|
                    k < j < after.len() && #[trigger] after[j] == (ActionView::RemoveProject {
                        project: after[k]->WriteMainFile_project,
                    }) by {
                    assert(stages(actions[k]));
                    let j = choose|j: int|
                        k < j < actions.len() && #[trigger] actions[j] == (
                        ActionView::RemoveProject { project: actions[k]->WriteMainFile_project });
                    assert(after[j] == actions[j]);
                }
                assert forall|k: int|
                    0 <= k < after.len() && #[trigger] after[k] is BuildProject implies exists|
                    j: int,
                |
                    k < j < after.len() && #[trigger] after[j] == (ActionView::RemoveProject {
                        project: after[k]->BuildProject_project,
                    }) by {
                    assert(actions[k] is BuildProject);
                    let j = choose|j: int|
                        k < j < actions.len() && #[trigger] actions[j] == (
                        ActionView::RemoveProject { project: actions[k]->BuildProject_project });
                    assert(after[j] == actions[j]);
                }
            }
        },
        _ => {},
    }
}

/// An operation that has come to its end has asked for the removal of every
/// project that it staged and, after each build, of the project that it
/// built: whether the build succeeded, the build failed, or the contract
/// could not be written.
pub proof fn lemma_staged_project_is_removed(
    contract: Seq<char>,
    toolchain: Seq<char>,
    events: Seq<EventView>,
)
    ensures
        run(contract, toolchain, events) matches Some((state, actions)) ==> (state
            == StateView::Finished ==> removes_what_it_stages(actions) && removes_what_it_builds(
            actions,
        )),
{
    lemma_course_is_accounted(contract, toolchain, events);
}

/// Whether the response that `state` holds, if it holds one, is consistent.
pub open spec fn holds_consistent(state: StateView) -> bool {
    match state {
        StateView::RemovingBuilt { response } => response.consistent(),
        StateView::RemovingFailed { response } => response.consistent(),
        _ => true,
    }
}

/// Whether the response that `action` hands to the caller, if it hands one,
/// is consistent.
pub open spec fn hands_consistent(action: ActionView) -> bool {
    action matches ActionView::Finish(Ok(response)) ==> response.consistent()
}

/// Every response of an operation is either artifacts or an error: one that
/// carries an error carries no artifacts.
pub proof fn lemma_responses_are_consistent(
    contract: Seq<char>,
    toolchain: Seq<char>,
    events: Seq<EventView>,
)
    ensures
        run(contract, toolchain, events) matches Some((state, actions)) ==> holds_consistent(state)
            && hands_consistent(actions.last()),
        outcome(contract, toolchain, events) matches Some(Ok(response)) ==> response.consistent(),
    decreases events.len(),
{
    if events.len() > 0 {
        lemma_responses_are_consistent(contract, toolchain, events.drop_last());
    }
}

/// Whether the response that `state` holds after a build that failed, if it
/// holds one, carries an error.
pub open spec fn holds_error(state: StateView) -> bool {
    state matches StateView::RemovingFailed { response } ==> response.error is Some
}

/// After a build that failed the machine holds a response with an error.
proof fn lemma_failure_holds_error(
    contract: Seq<char>,
    toolchain: Seq<char>,
    events: Seq<EventView>,
)
    ensures
        run(contract, toolchain, events) matches Some((state, _)) ==> holds_error(state),
    decreases events.len(),
{
    if events.len() > 0 {
        lemma_failure_holds_error(contract, toolchain, events.drop_last());
    }
}

/// Artifacts are handed out only once the project is gone: an operation that
/// ends with a response without an error was told last that the project was
/// removed.
pub proof fn lemma_artifacts_mean_removed(
    contract: Seq<char>,
    toolchain: Seq<char>,
    events: Seq<EventView>,
)
    ensures
        outcome(contract, toolchain, events) matches Some(Ok(response)) ==> (response.error
            is None ==> events.len() > 0 && events.last() == EventView::ProjectRemoved(true)),
{
    if events.len() > 0 {
        lemma_failure_holds_error(contract, toolchain, events.drop_last());
    }
}

/// Whether two reports say the same of the outside but for the name under
/// which the project was created.
pub open spec fn same_but_name(first: EventView, second: EventView) -> bool {
    match (first, second) {
        (EventView::ProjectCreated(Some(_)), EventView::ProjectCreated(Some(_))) => true,
        _ => first == second,
    }
}

/// Whether two series of reports say the same of the outside but for the
/// names under which the projects were created.
pub open spec fn same_but_names(first: Seq<EventView>, second: Seq<EventView>) -> bool {
    &&& first.len() == second.len()
    &&& forall|i: int| 0 <= i < first.len() ==> same_but_name(#[trigger] first[i], second[i])
}

/// Whether two states differ in nothing but the name of the project.
pub open spec fn same_but_project(first: StateView, second: StateView) -> bool {
    match (first, second) {
        (
            StateView::WritingSource { forc_version: v1, .. },
            StateView::WritingSource { forc_version: v2, .. },
        ) => v1 == v2,
        (
            StateView::Building { forc_version: v1, .. },
            StateView::Building { forc_version: v2, .. },
        ) => v1 == v2,
        (
            StateView::ReadingArtifacts { forc_version: v1, .. },
            StateView::ReadingArtifacts { forc_version: v2, .. },
        ) => v1 == v2,
        _ => first == second,
    }
}

/// Whether two actions hand the same result to the caller, or both hand
/// none.
pub open spec fn same_result(first: ActionView, second: ActionView) -> bool {
    match (first, second) {
        (ActionView::Finish(r1), ActionView::Finish(r2)) => r1 == r2,
        (ActionView::Finish(_), _) => false,
        (_, ActionView::Finish(_)) => false,
        _ => true,
    }
}

/// Two operations on one request that are told the same of the outside, but
/// for the names of their projects, go the same way.
proof fn lemma_courses_agree(
    contract: Seq<char>,
    toolchain: Seq<char>,
    first: Seq<EventView>,
    second: Seq<EventView>,
)
    requires
        same_but_names(first, second),
    ensures
        match (run(contract, toolchain, first), run(contract, toolchain, second)) {
            (Some((s1, a1)), Some((s2, a2))) => same_but_project(s1, s2) && same_result(
                a1.last(),
                a2.last(),
            ),
            (None, None) => true,
            _ => false,
        },
    decreases first.len(),
{
    if first.len() > 0 {
        assert(same_but_name(first[first.len() - 1], second[second.len() - 1]));
        lemma_courses_agree(contract, toolchain, first.drop_last(), second.drop_last());
    }
}

/// The result of an operation does not depend on the name under which its
/// project was staged: two operations on one request that are told the same
/// of the outside, but for the names of their projects, hand the same result
/// to the caller.
pub proof fn lemma_result_ignores_project_name(
    contract: Seq<char>,
    toolchain: Seq<char>,
    first: Seq<EventView>,
    second: Seq<EventView>,
)
    requires
        same_but_names(first, second),
    ensures
        outcome(contract, toolchain, first) == outcome(contract, toolchain, second),
{
    lemma_courses_agree(contract, toolchain, first, second);
}

} // verus!
