//! Laws of the application as a whole.

use crate::app;
use crate::app::{AppView, Effect, ExecutionMode};
use crate::options::PrintOnExit;
use crate::parser;
use crate::parser::ParseError;
use crate::pipeline;
use crate::pipeline::{ExecutionView, PendingStageView, ProcessStatus, StageExecutionView, StageView};
use crate::ui::action::Action;
use crate::ui::key;
use crate::ui::key::{Event, KeyCode, KeyEvent};
use crate::ui::popup;
use crate::ui::popup::PopupKeyView;
use vstd::prelude::*;

verus! {

/// The number of enabled stages.
pub open spec fn enabled_count(stages: Seq<StageView>) -> nat
    decreases stages.len(),
{
    if stages.len() == 0 {
        0
    } else {
        enabled_count(stages.drop_last()) + (if stages.last().enabled {
            1nat
        } else {
            0
        })
    }
}

/// The index of the enabled stage at `j` or right before it, or -1 if there is none.
pub open spec fn last_enabled(stages: Seq<StageView>, j: int) -> int
    decreases j + 1,
{
    if j < 0 || stages[j].enabled {
        j
    } else {
        last_enabled(stages, j - 1)
    }
}

/// The pending stage that the stage at `j` belongs to, if any.
pub open spec fn pending_owner(stages: Seq<StageView>, j: int) -> int {
    enabled_count(stages.take(j + 1)) - 1
}

proof fn lemma_last_enabled_is_enabled(stages: Seq<StageView>, j: int)
    requires
        -1 <= j < stages.len(),
    ensures
        -1 <= last_enabled(stages, j) <= j,
        last_enabled(stages, j) >= 0 ==> stages[last_enabled(stages, j)].enabled,
        forall|k: int| last_enabled(stages, j) < k <= j ==> !(#[trigger] stages[k]).enabled,
    decreases j + 1,
{
    if j >= 0 && !stages[j].enabled {
        lemma_last_enabled_is_enabled(stages, j - 1);
    }
}

proof fn lemma_pending_len(stages: Seq<StageView>)
    ensures
        app::pending_for(stages).len() == enabled_count(stages) <= stages.len(),
    decreases stages.len(),
{
    if stages.len() > 0 {
        lemma_pending_len(stages.drop_last());
    }
}

/// The pending command that a stage belongs to lists it, and is that of the last enabled stage.
proof fn lemma_pending_lists(stages: Seq<StageView>, j: int)
    requires
        0 <= j < stages.len(),
    ensures
        ({
            let owner = pending_owner(stages, j);
            let shown = last_enabled(stages, j);
            &&& owner < app::pending_for(stages).len()
            &&& shown < 0 <==> owner < 0
            &&& owner >= 0 ==> {
                &&& app::pending_for(stages)[owner].stage_ids.contains(stages[j].id)
                &&& app::pending_for(stages)[owner].command == stages[shown].field.text
            }
        }),
    decreases stages.len(),
{
    let rest = stages.drop_last();
    let n = stages.len() - 1;
    let before = app::pending_for(rest);
    let after = app::pending_for(stages);
    let owner = pending_owner(stages, j);
    lemma_pending_len(stages);
    lemma_pending_len(rest);
    lemma_last_enabled_is_enabled(stages, j);
    if j < n {
        assert(stages.take(j + 1) =~= rest.take(j + 1));
        assert(rest =~= stages.take(n));
        lemma_same_last_enabled(stages, rest, j);
        lemma_pending_lists(rest, j);
        if owner >= 0 {
            let ids = before[owner].stage_ids;
            let at = choose|at: int| 0 <= at < ids.len() && ids[at] == rest[j].id;
            assert(after[owner].stage_ids[at] == stages[j].id);
        }
    } else {
        assert(stages.take(j + 1) =~= stages);
        if stages[j].enabled {
            assert(after[owner].stage_ids[0] == stages[j].id);
        } else if n > 0 {
            assert(rest.take(n) =~= rest);
            lemma_same_last_enabled(stages, rest, n - 1);
            lemma_pending_lists(rest, n - 1);
            if before.len() > 0 {
                let ids = after[owner].stage_ids;
                assert(ids[ids.len() - 1] == stages[j].id);
            }
        } else {
            assert(last_enabled(stages, -1) == -1);
            assert(rest =~= Seq::empty());
        }
    }
}

/// What a pending command lists belongs to it.
proof fn lemma_listed_belongs(stages: Seq<StageView>, k: int, id: usize) -> (j: int)
    requires
        0 <= k < app::pending_for(stages).len(),
        app::pending_for(stages)[k].stage_ids.contains(id),
    ensures
        0 <= j < stages.len(),
        stages[j].id == id,
        pending_owner(stages, j) == k,
    decreases stages.len(),
{
    let rest = stages.drop_last();
    let n = stages.len() - 1;
    let before = app::pending_for(rest);
    let ids = app::pending_for(stages)[k].stage_ids;
    lemma_pending_len(stages);
    lemma_pending_len(rest);
    let at = choose|at: int| 0 <= at < ids.len() && ids[at] == id;
    if k < before.len() && at < before[k].stage_ids.len() {
        assert(before[k].stage_ids[at] == id);
        let j = lemma_listed_belongs(rest, k, id);
        assert(stages.take(j + 1) =~= rest.take(j + 1));
        j
    } else {
        assert(stages.take(n + 1) =~= stages);
        n
    }
}

proof fn lemma_same_last_enabled(stages: Seq<StageView>, rest: Seq<StageView>, j: int)
    requires
        rest == stages.take(rest.len() as int),
        rest.len() <= stages.len(),
        -1 <= j < rest.len(),
    ensures
        last_enabled(stages, j) == last_enabled(rest, j),
    decreases j + 1,
{
    if j >= 0 {
        assert(rest[j] == stages[j]);
        lemma_same_last_enabled(stages, rest, j - 1);
    }
}

/// Whether no two stages have the same identifier.
pub open spec fn distinct(stages: Seq<StageView>) -> bool {
    forall|i: int, j: int|
        0 <= i < j < stages.len() ==> (#[trigger] stages[i]).id != (#[trigger] stages[j]).id
}

/// Each stage shows the output of the enabled stage at its place or right before it: that is the
/// command that the index of an execution leads to. Stages with no enabled stage before them are
/// left out of the index.
pub proof fn law_disabled_stages_show_the_output_before_them(stages: Seq<StageView>, j: int)
    requires
        distinct(stages),
        0 <= j < stages.len() <= usize::MAX,
    ensures
        ({
            let pending = app::pending_for(stages);
            let index = pipeline::stage_index(pending);
            let id = stages[j].id;
            let shown = last_enabled(stages, j);
            &&& index.dom().contains(id) <==> shown >= 0
            &&& shown >= 0 ==> {
                &&& index[id] < pending.len()
                &&& pending[index[id] as int].command == stages[shown].field.text
                &&& index[id] == index[stages[shown].id]
            }
        }),
{
    let shown = last_enabled(stages, j);
    lemma_pending_len(stages);
    lemma_pending_lists(stages, j);
    lemma_last_enabled_is_enabled(stages, j);
    lemma_owner(stages, j);
    if shown >= 0 {
        lemma_owner(stages, shown);
        lemma_owner_of_last_enabled(stages, j);
    }
}

proof fn lemma_owner_of_last_enabled(stages: Seq<StageView>, j: int)
    requires
        0 <= j < stages.len(),
        last_enabled(stages, j) >= 0,
    ensures
        pending_owner(stages, last_enabled(stages, j)) == pending_owner(stages, j) >= 0,
    decreases j,
{
    assert(stages.take(j + 1).drop_last() =~= stages.take(j));
    assert(stages.take(j + 1).last() == stages[j]);
    if !stages[j].enabled {
        assert(last_enabled(stages, -1) == -1);
        lemma_owner_of_last_enabled(stages, j - 1);
    } else {
        lemma_pending_lists(stages, j);
    }
}

/// The index leads a stage to the pending command that it belongs to.
proof fn lemma_owner(stages: Seq<StageView>, j: int)
    requires
        distinct(stages),
        0 <= j < stages.len(),
    ensures
        ({
            let owner = pipeline::last_owner(app::pending_for(stages), stages[j].id);
            if pending_owner(stages, j) >= 0 {
                owner == Some(pending_owner(stages, j))
            } else {
                owner is None
            }
        }),
{
    let pending = app::pending_for(stages);
    let id = stages[j].id;
    lemma_pending_lists(stages, j);
    pipeline::lemma_last_owner(pending, id);
    match pipeline::last_owner(pending, id) {
        Some(k) => {
            let l = lemma_listed_belongs(stages, k, id);
            assert(l == j);
        },
        None => {},
    }
}

/// A stage that was disabled and enabled again, or the other way round, is as before.
pub proof fn law_toggling_twice_changes_nothing(state: AppView)
    requires
        state.running(),
    ensures
        state.acted(Action::ToggleStage).acted(Action::ToggleStage) == state,
{
    let twice = state.acted(Action::ToggleStage).acted(Action::ToggleStage);
    assert(twice.pipeline =~= state.pipeline);
}

/// A new stage that is deleted right away leaves the other stages, and the shown one, as they
/// were. A stage that was added below leaves the focus as it was, too.
pub proof fn law_new_stage_can_be_deleted(state: AppView)
    requires
        state.running(),
        state.next_id < usize::MAX,
        state.pipeline.len() <= usize::MAX,
    ensures
        ({
            let above = state.acted(Action::NewStageAbove).acted(Action::DeleteStage);
            let below = state.acted(Action::NewStageBelow).acted(Action::DeleteStage);
            &&& above.pipeline == state.pipeline
            &&& above.shown == state.shown
            &&& below == AppView { next_id: (state.next_id + 1) as usize, ..state }
        }),
{
    let stage = pipeline::new_stage(state.next_id, Seq::empty());
    let at = state.focused as int;
    let above = state.acted(Action::NewStageAbove);
    let below = state.acted(Action::NewStageBelow);
    assert(above.acted(Action::DeleteStage) == above.with_stage_deleted());
    assert(below.acted(Action::DeleteStage) == below.with_stage_deleted());
    assert(above == state.with_new_stage(at));
    assert(below.pipeline == state.pipeline.insert(at + 1, stage));
    assert(below.focused == at + 1);
    assert(above.with_stage_deleted().pipeline =~= state.pipeline);
    assert(below.with_stage_deleted().pipeline =~= state.pipeline);
}

/// There is always a stage: the last one cannot be deleted.
pub proof fn law_last_stage_stays(state: AppView)
    requires
        state.running(),
        state.pipeline.len() == 1,
    ensures
        state.acted(Action::DeleteStage) == state,
{
}

/// A restarted pipeline reuses nothing: every command is started anew.
pub proof fn law_restart_starts_all(state: AppView)
    requires
        state.running(),
    ensures
        ({
            let asked = state.acted(Action::RestartPipeline);
            let pending = app::pending_for(state.pipeline);
            let plan = pipeline::start_plan(asked.pending->0, asked.offered());
            &&& plan.keep == 0
            &&& plan.commands == Seq::new(
                pending.len(),
                |i: int| (pending[i].command, i != 0),
            )
        }),
{
    pipeline::law_nothing_offered_starts_all(app::pending_for(state.pipeline));
}

/// An execution that was asked for in vain changes nothing: where the commands are those that are
/// being executed, and all of them run or were successful, nothing is interrupted, and nothing is
/// started.
pub proof fn law_unchanged_pipeline_is_not_executed_again(state: AppView)
    requires
        state.running(),
        state.execution.interrupted_since == usize::MAX,
        ({
            let pending = app::pending_for(state.pipeline);
            &&& state.can_reuse
            &&& state.execution.pipeline.len() == pending.len() < usize::MAX
            &&& forall|i: int|
                0 <= i < pending.len() ==> #[trigger] state.execution.pipeline[i].reusable_for(
                    pending[i].command,
                )
        }),
    ensures
        ({
            let asked = state.with_pending(ExecutionMode::All);
            &&& asked.execution.pipeline == state.execution.pipeline
            &&& asked.execution.is_settled()
            &&& asked.with_execution().execution.pipeline == state.execution.pipeline
            &&& pipeline::start_plan(asked.pending->0, asked.offered()).commands.len() == 0
        }),
{
    let pending = app::pending_for(state.pipeline);
    let stages = state.execution.pipeline;
    assert(state.execution.live() =~= stages);
    pipeline::law_reuse_is_the_longest_matching_prefix(pending, stages, pending.len());
    let asked = state.with_pending(ExecutionMode::All);
    assert(asked.execution.pipeline =~= stages);
    assert(asked.execution.live() =~= stages);
    assert(asked.with_execution().execution.pipeline =~= stages);
}

/// The commands of the enabled stages.
pub open spec fn enabled_commands(stages: Seq<StageView>) -> Seq<Seq<char>>
    decreases stages.len(),
{
    if stages.len() == 0 {
        Seq::empty()
    } else if stages.last().enabled {
        enabled_commands(stages.drop_last()).push(stages.last().field.text)
    } else {
        enabled_commands(stages.drop_last())
    }
}

/// The commands to execute.
pub open spec fn pending_commands(pending: Seq<PendingStageView>) -> Seq<Seq<char>> {
    pending.map_values(|stage: PendingStageView| stage.command)
}

/// The commands to execute for some stages are those of the enabled ones, in order.
pub proof fn law_enabled_commands_are_executed(stages: Seq<StageView>)
    ensures
        pending_commands(app::pending_for(stages)) == enabled_commands(stages),
    decreases stages.len(),
{
    if stages.len() > 0 {
        law_enabled_commands_are_executed(stages.drop_last());
    }
    assert(pending_commands(app::pending_for(stages)) =~= enabled_commands(stages));
}

proof fn lemma_disabled_add_no_commands(stages: Seq<StageView>, i: int)
    requires
        0 <= i <= stages.len(),
    ensures
        enabled_commands(stages.take(app::next_enabled(stages, i))) == enabled_commands(stages.take(i)),
    decreases stages.len() - i,
{
    if i < stages.len() && !stages[i].enabled {
        assert(stages.take(i + 1).drop_last() =~= stages.take(i));
        lemma_disabled_add_no_commands(stages, i + 1);
    }
}

/// An execution up to the focused stage executes just the enabled commands up to it.
pub proof fn law_execution_stops_at_the_focused_stage(state: AppView)
    requires
        state.running(),
    ensures
        pending_commands(state.pending_in(ExecutionMode::TillFocused)) == enabled_commands(
            state.pipeline.take(state.focused + 1),
        ),
{
    let end = app::next_enabled(state.pipeline, state.focused + 1);
    law_enabled_commands_are_executed(state.pipeline.take(end));
    lemma_disabled_add_no_commands(state.pipeline, state.focused + 1);
}

/// Whether an action is one of those that a popup offers.
pub open spec fn is_offered(entries: Seq<PopupKeyView>, action: Action) -> bool {
    exists|i: int| 0 <= i < entries.len() && (#[trigger] entries[i]).action == action
}

proof fn lemma_found_is_offered(entries: Seq<PopupKeyView>, pressed: KeyEvent)
    ensures
        popup::action_for_key(entries, pressed) matches Some(action) ==> is_offered(
            entries,
            action,
        ),
    decreases entries.len(),
{
    if entries.len() > 0 {
        let rest = entries.drop_first();
        lemma_found_is_offered(rest, pressed);
        if let Some(action) = popup::action_for_key(rest, pressed) {
            let i = choose|i: int| 0 <= i < rest.len() && (#[trigger] rest[i]).action == action;
            assert(entries[i + 1].action == action);
        }
        assert(entries[0].action == entries[0].action);
    }
}

/// An open popup takes all events of the terminal: nothing but what it offers can come of them. It
/// closes with that, or with Esc, and stays as it is otherwise.
pub proof fn law_popup_takes_all_events(state: AppView, event: Event)
    requires
        state.popup is Some,
    ensures
        ({
            let (after, action) = state.event_result(event);
            let escaped = event matches Event::Key(pressed) && pressed.pressed(
                KeyCode::Esc,
                key::NONE,
            );
            &&& action matches Some(action) ==> is_offered(state.popup->0, action)
            &&& after == if action is Some || escaped {
                AppView { popup: None, ..state }
            } else {
                state
            }
        }),
{
    if let Event::Key(pressed) = event {
        lemma_found_is_offered(state.popup->0, pressed);
    }
}

/// The focus moves back and forth.
pub proof fn law_focus_moves_back(state: AppView)
    requires
        state.running(),
        state.pipeline.len() <= usize::MAX,
    ensures
        state.focused > 0 ==> state.acted(Action::FocusPreviousStage).acted(Action::FocusNextStage)
            == state,
        state.focused < state.pipeline.len() - 1 ==> state.acted(Action::FocusNextStage).acted(
            Action::FocusPreviousStage,
        ) == state,
{
}

/// The commands that an execution in the given mode is asked for.
pub open spec fn asked_commands(state: AppView, mode: ExecutionMode) -> Seq<Seq<char>> {
    match mode {
        ExecutionMode::All => enabled_commands(state.pipeline),
        ExecutionMode::TillFocused => enabled_commands(state.pipeline.take(state.focused + 1)),
    }
}

/// Whether the first `k` stages of an execution do what the first `k` commands ask for: they were
/// not interrupted, they were started for these commands, and they run or ended with code 0.
pub open spec fn fit(execution: ExecutionView, commands: Seq<Seq<char>>, k: nat) -> bool {
    &&& k <= commands.len()
    &&& k <= execution.pipeline.len()
    &&& k <= execution.interrupted_since
    &&& forall|i: int| #![trigger execution.pipeline[i]] 0 <= i < k ==> {
        &&& execution.pipeline[i].command == commands[i]
        &&& execution.pipeline[i].status matches ProcessStatus::Exited(status) ==> status.code
            == Some(0i32)
    }
}

proof fn lemma_fit(execution: ExecutionView, pending: Seq<PendingStageView>, k: nat)
    ensures
        fit(execution, pending_commands(pending), k) <==> k <= pipeline::reusable_count(
            pending,
            execution.live(),
        ),
{
    let commands = pending_commands(pending);
    let live = execution.live();
    let n = pipeline::reusable_count(pending, live);
    pipeline::law_reuse_is_the_longest_matching_prefix(pending, live, n);
    assert(forall|i: int| 0 <= i < live.len() ==> live[i] == execution.pipeline[i]);
    assert(forall|i: int| 0 <= i < pending.len() ==> commands[i] == pending[i].command);
    if fit(execution, commands, k) && n < k {
        assert(execution.pipeline[n as int].command == commands[n as int]);
        assert(live[n as int].reusable_for(pending[n as int].command));
    }
    if k <= n {
        assert forall|i: int| #![trigger execution.pipeline[i]] 0 <= i < k implies {
            &&& execution.pipeline[i].command == commands[i]
            &&& execution.pipeline[i].status matches ProcessStatus::Exited(status) ==> status.code
                == Some(0i32)
        } by {
            assert(live[i].reusable_for(pending[i].command));
        }
    }
}

proof fn lemma_asked(state: AppView, mode: ExecutionMode)
    requires
        state.running(),
    ensures
        pending_commands(state.pending_in(mode)) == asked_commands(state, mode),
{
    law_execution_stops_at_the_focused_stage(state);
    law_enabled_commands_are_executed(state.pipeline);
}

/// The action that asks for an execution in the given mode.
pub open spec fn asking(mode: ExecutionMode) -> Action {
    match mode {
        ExecutionMode::All => Action::ExecuteAll,
        ExecutionMode::TillFocused => Action::Execute,
    }
}

/// Asking for an execution, up to the focused stage or of all stages, leaves the stages that fit
/// alone: they are neither interrupted nor killed, their processes are kept, and they are the first
/// stages of the new execution, with all their output.
pub proof fn law_fitting_stages_are_reused(state: AppView, mode: ExecutionMode, k: nat)
    requires
        state.running(),
        fit(state.execution, asked_commands(state, mode), k),
    ensures
        ({
            let asked = state.acted(asking(mode));
            let started = asked.with_execution().execution;
            &&& asked.pending is Some
            &&& pending_commands(asked.pending->0) == asked_commands(state, mode)
            &&& asked.execution.pipeline.len() == state.execution.pipeline.len()
            &&& asked.execution.interrupted_since >= k
            &&& asked.can_reuse == state.can_reuse
            &&& forall|i: int|
                0 <= i < k ==> #[trigger] asked.execution.pipeline[i]
                    == state.execution.pipeline[i]
            &&& forall|effect: Effect| #[trigger]
                state.has_effect(asking(mode), effect) ==> {
                    &&& effect is Kill
                    &&& forall|j: int|
                        0 <= j < effect->Kill_0@.len() ==> #[trigger] effect->Kill_0@[j] >= k
                }
            &&& state.can_reuse ==> {
                &&& pipeline::start_plan(asked.pending->0, asked.offered()).keep >= k
                &&& started.pipeline.len() >= k
                &&& forall|i: int|
                    0 <= i < k ==> #[trigger] started.pipeline[i] == state.execution.pipeline[i]
            }
        }),
{
    let pending = state.pending_in(mode);
    let asked = state.acted(asking(mode));
    lemma_asked(state, mode);
    lemma_fit(state.execution, pending, k);
    let n = pipeline::reusable_count(pending, state.execution.live());
    pipeline::law_reuse_is_the_longest_matching_prefix(pending, state.execution.live(), n);
    assert(asked.execution == state.execution.interrupted(n as usize));
    assert(fit(asked.execution, asked_commands(state, mode), k));
    lemma_fit(asked.execution, pending, k);
}

/// Asking for an execution interrupts what does not fit any more: no such stage gets any more
/// input, those that run are killed, and all that was read of them so far is kept.
pub proof fn law_other_stages_are_interrupted(state: AppView, mode: ExecutionMode, k: nat)
    requires
        state.running(),
        fit(state.execution, asked_commands(state, mode), k),
        !fit(state.execution, asked_commands(state, mode), k + 1),
    ensures
        ({
            let asked = state.acted(asking(mode));
            let before = state.execution;
            let live = before.live_count();
            &&& asked.execution.index == before.index
            &&& k < before.pipeline.len() && k < before.interrupted_since
                ==> asked.execution.interrupted_since == k
            &&& forall|i: int| #![trigger asked.execution.pipeline[i]]
                k <= i < before.pipeline.len() ==> asked.execution.pipeline[i]
                    == (StageExecutionView { stdin: false, ..before.pipeline[i] })
            &&& forall|effect: Effect, i: int| #![trigger state.has_effect(asking(mode), effect), before.pipeline[i]]
                state.has_effect(asking(mode), effect) && k <= i < before.pipeline.len() && i
                    < before.interrupted_since ==> (effect->Kill_0@.contains(i as usize)
                    <==> before.pipeline[i].status is Running)
        }),
{
    let pending = state.pending_in(mode);
    let before = state.execution;
    lemma_asked(state, mode);
    lemma_fit(before, pending, k);
    lemma_fit(before, pending, k + 1);
    let n = pipeline::reusable_count(pending, before.live());
    pipeline::law_reuse_is_the_longest_matching_prefix(pending, before.live(), n);
    assert(n == k);
    assert forall|effect: Effect, i: int| #![trigger state.has_effect(asking(mode), effect), before.pipeline[i]]
        state.has_effect(asking(mode), effect) && k <= i < before.pipeline.len() && i
            < before.interrupted_since implies (effect->Kill_0@.contains(i as usize)
        <==> before.pipeline[i].status is Running) by {
        let killed = effect->Kill_0@;
        assert(pipeline::lists_killed(killed, before, k as usize));
        if killed.contains(i as usize) {
            let j = choose|j: int| 0 <= j < killed.len() && killed[j] == i as usize;
            assert(before.kills(k as usize, killed[j] as int));
        }
        if before.pipeline[i].status is Running {
            assert(before.kills(k as usize, i));
        }
    }
}

/// A pending execution keeps as many stages as fit, or none after a restart, and starts all others
/// anew: each with its command, with no output yet, and, but for the first one, with open input.
pub proof fn law_other_stages_are_started(state: AppView, k: nat)
    requires
        state.pending is Some,
        state.pending->0.len() <= usize::MAX,
        state.can_reuse ==> fit(state.execution, pending_commands(state.pending->0), k),
        state.can_reuse ==> !fit(state.execution, pending_commands(state.pending->0), k + 1),
        !state.can_reuse ==> k == 0,
    ensures
        ({
            let pending = state.pending->0;
            let plan = pipeline::start_plan(pending, state.offered());
            let after = state.with_execution();
            &&& plan.keep == k
            &&& plan.commands.len() == pending.len() - k
            &&& forall|i: int| #![trigger plan.commands[i]]
                0 <= i < plan.commands.len() ==> plan.commands[i].0 == pending[k + i].command
                    && (plan.commands[i].1 <==> k + i > 0)
            &&& after == AppView {
                execution: after.execution,
                pending: None,
                can_reuse: true,
                ..state
            }
            &&& after.execution.interrupted_since == usize::MAX
            &&& after.execution.pipeline.len() == pending.len()
            &&& forall|i: int| #![trigger after.execution.pipeline[i]]
                0 <= i < k ==> after.execution.pipeline[i] == state.execution.pipeline[i]
            &&& forall|i: int| #![trigger after.execution.pipeline[i]]
                k <= i < pending.len() ==> {
                    let stage = after.execution.pipeline[i];
                    &&& stage.command == pending[i].command
                    &&& stage.status is Running
                    &&& stage.stdin <==> i > 0
                    &&& stage.stdout && stage.stderr
                    &&& stage.bytes_written_to_stdin == 0
                    &&& stage.output.len() == 0 && stage.eoutput.len() == 0
                }
        }),
{
    let pending = state.pending->0;
    if state.can_reuse {
        lemma_fit(state.execution, pending, k);
        lemma_fit(state.execution, pending, k + 1);
    } else {
        pipeline::law_reuse_is_the_longest_matching_prefix(pending, Seq::empty(), 0);
    }
    pipeline::law_reuse_is_the_longest_matching_prefix(pending, state.offered(), k);
}

/// A pending execution starts exactly when every interrupted stage has ended and nothing more can
/// be read of it.
pub proof fn law_execution_waits_for_interrupted_stages(state: AppView)
    ensures
        state.can_start() <==> {
            &&& state.pending is Some
            &&& forall|i: int| #![trigger state.execution.pipeline[i]]
                state.execution.interrupted_since <= i < state.execution.pipeline.len() ==> {
                    &&& state.execution.pipeline[i].status is Exited
                    &&& !state.execution.pipeline[i].stdout
                    &&& !state.execution.pipeline[i].stderr
                }
        },
{
    let stages = state.execution.pipeline;
    if state.execution.is_settled() {
        assert forall|i: int| #![trigger stages[i]]
            state.execution.interrupted_since <= i < stages.len() implies stages[i].status is Exited
            && !stages[i].stdout && !stages[i].stderr by {
            assert(stages[i].is_finished());
        }
    }
}

proof fn lemma_next_enabled(stages: Seq<StageView>, i: int)
    requires
        0 <= i <= stages.len(),
    ensures
        ({
            let end = app::next_enabled(stages, i);
            &&& i <= end <= stages.len()
            &&& end < stages.len() ==> stages[end].enabled
            &&& forall|j: int| i <= j < end ==> !(#[trigger] stages[j]).enabled
        }),
    decreases stages.len() - i,
{
    if i < stages.len() && !stages[i].enabled {
        lemma_next_enabled(stages, i + 1);
    }
}

/// Once an execution was asked for and started, each stage shows the output of the command of the
/// enabled stage at its place or right before it. Stages with no such stage before them show
/// nothing, nor do those behind the focused stage, where the execution went no further.
pub proof fn law_stages_show_the_output_of_their_command(
    state: AppView,
    mode: ExecutionMode,
    j: int,
)
    requires
        state.running(),
        0 <= j < state.pipeline.len() <= usize::MAX,
    ensures
        ({
            let execution = state.acted(asking(mode)).with_execution().execution;
            let id = state.pipeline[j].id;
            let source = last_enabled(state.pipeline, j);
            let included = source >= 0 && (mode == ExecutionMode::All || source <= state.focused);
            &&& execution.index.dom().contains(id) <==> included
            &&& included ==> {
                &&& execution.index[id] < execution.pipeline.len()
                &&& execution.pipeline[execution.index[id] as int].command
                    == state.pipeline[source].field.text
                &&& execution.index[id] == execution.index[state.pipeline[source].id]
            }
        }),
{
    let stages = match mode {
        ExecutionMode::All => state.pipeline,
        ExecutionMode::TillFocused => state.pipeline.take(
            app::next_enabled(state.pipeline, state.focused + 1),
        ),
    };
    lemma_next_enabled(state.pipeline, state.focused + 1);
    lemma_last_enabled_is_enabled(state.pipeline, j);
    let pending = app::pending_for(stages);
    let asked = state.acted(asking(mode));
    assert(asked.pending == Some(pending));
    let offered = asked.offered();
    let execution = asked.with_execution().execution;
    let n = pipeline::reusable_count(pending, offered);
    pipeline::law_reuse_is_the_longest_matching_prefix(pending, offered, n);
    assert forall|i: int| 0 <= i < pending.len() implies (#[trigger] execution.pipeline[i]).command
        == pending[i].command by {
        if i < n {
            assert(offered[i].reusable_for(pending[i].command));
        }
    }
    let id = state.pipeline[j].id;
    if j < stages.len() {
        assert(stages =~= state.pipeline.take(stages.len() as int));
        lemma_same_last_enabled(state.pipeline, stages, j);
        law_disabled_stages_show_the_output_before_them(stages, j);
    } else {
        pipeline::lemma_last_owner(pending, id);
        if let Some(k) = pipeline::last_owner(pending, id) {
            let l = lemma_listed_belongs(stages, k, id);
        }
    }
}

/// Whether a stage was just made for a command: it is enabled, and the cursor stands behind it.
pub open spec fn is_made_for(stage: StageView, command: Seq<char>) -> bool {
    &&& stage.enabled
    &&& stage.field.text == command
    &&& stage.field.cursor == command.len()
}

/// The application starts with a stage for each command, in order, or with an empty one if there is
/// none. The last one has the focus and is shown. Nothing is asked, printed or executed yet.
pub proof fn law_start_has_all_commands(
    print_on_exit: PrintOnExit,
    syntax_highlight: bool,
    commands: Seq<Seq<char>>,
)
    requires
        commands.len() <= usize::MAX,
    ensures
        ({
            let start = app::initial_view(
                print_on_exit,
                syntax_highlight,
                app::initial_stages(commands),
            );
            let last = start.pipeline.len() - 1;
            &&& start.running()
            &&& commands.len() == 0 ==> start.pipeline.len() == 1 && is_made_for(
                start.pipeline[0],
                Seq::empty(),
            )
            &&& commands.len() > 0 ==> start.pipeline.len() == commands.len()
            &&& forall|i: int|
                0 <= i < commands.len() ==> is_made_for(#[trigger] start.pipeline[i], commands[i])
            &&& start.focused == last
            &&& start.shown == last
            &&& start.print_on_exit == print_on_exit
            &&& start.syntax_highlight == syntax_highlight
            &&& start.execution.pipeline.len() == 0
            &&& start.popup is None && start.external is None && start.pending is None
            &&& app::launched(start, false) == start
            &&& app::launch_plan(start, false) is None
        }),
{
    let stages = app::initial_stages(commands);
    assert forall|i: int| 0 <= i < stages.len() implies (#[trigger] stages[i]).id == i by {}
}

proof fn lemma_all_enabled(stages: Seq<StageView>)
    requires
        forall|i: int| 0 <= i < stages.len() ==> (#[trigger] stages[i]).enabled,
    ensures
        enabled_commands(stages) == app::commands_of(stages),
    decreases stages.len(),
{
    if stages.len() > 0 {
        let rest = stages.drop_last();
        assert forall|i: int| 0 <= i < rest.len() implies (#[trigger] rest[i]).enabled by {
            assert(rest[i] == stages[i]);
        }
        lemma_all_enabled(rest);
        assert(stages[stages.len() - 1] == stages.last());
    }
    assert(enabled_commands(stages) =~= app::commands_of(stages));
}

/// Where that is asked for, all commands are started with the application, each with the output of
/// the one before it as its input.
pub proof fn law_start_executes_all_commands(
    print_on_exit: PrintOnExit,
    syntax_highlight: bool,
    commands: Seq<Seq<char>>,
)
    requires
        0 < commands.len() <= usize::MAX,
    ensures
        ({
            let start = app::initial_view(
                print_on_exit,
                syntax_highlight,
                app::initial_stages(commands),
            );
            let state = app::launched(start, true);
            let plan = app::launch_plan(start, true);
            &&& state == AppView { execution: state.execution, ..start }
            &&& state.execution.pipeline.len() == commands.len()
            &&& forall|i: int|
                #![trigger state.execution.pipeline[i]]
                0 <= i < commands.len() ==> {
                    let stage = state.execution.pipeline[i];
                    &&& stage.command == commands[i]
                    &&& stage.status is Running
                    &&& stage.stdin <==> i > 0
                    &&& stage.stdout && stage.stderr
                    &&& stage.bytes_written_to_stdin == 0
                    &&& stage.output.len() == 0 && stage.eoutput.len() == 0
                    &&& state.execution.index.dom().contains(state.pipeline[i].id)
                    &&& state.execution.index[state.pipeline[i].id] < commands.len()
                    &&& state.execution.pipeline[state.execution.index[state.pipeline[i].id] as int].command
                        == commands[i]
                }
            &&& plan is Some
            &&& plan->0.keep == 0
            &&& plan->0.commands.len() == commands.len()
            &&& forall|i: int|
                #![trigger plan->0.commands[i]]
                0 <= i < commands.len() ==> plan->0.commands[i].0 == commands[i] && (
                plan->0.commands[i].1 <==> i > 0)
        }),
{
    let stages = app::initial_stages(commands);
    let start = app::initial_view(print_on_exit, syntax_highlight, stages);
    law_start_has_all_commands(print_on_exit, syntax_highlight, commands);
    assert forall|i: int| 0 <= i < stages.len() implies (#[trigger] stages[i]).enabled by {
        assert(is_made_for(start.pipeline[i], commands[i]));
    }
    lemma_all_enabled(stages);
    law_enabled_commands_are_executed(stages);
    let asked = start.with_pending(ExecutionMode::All);
    let pending = asked.pending->0;
    assert(pending_commands(pending).len() == commands.len());
    assert forall|i: int| 0 <= i < commands.len() implies (#[trigger] pending[i]).command
        == commands[i] by {
        assert(pending_commands(pending)[i] == pending[i].command);
        assert(is_made_for(start.pipeline[i], commands[i]));
    }
    law_other_stages_are_started(asked, 0);
    assert forall|i: int| 0 <= i < commands.len() implies {
        let execution = asked.with_execution().execution;
        let id = (#[trigger] start.pipeline[i]).id;
        &&& execution.index.dom().contains(id)
        &&& execution.index[id] < commands.len()
        &&& execution.pipeline[execution.index[id] as int].command == commands[i]
    } by {
        law_stages_show_the_output_of_their_command(start, ExecutionMode::All, i);
        assert(is_made_for(start.pipeline[i], commands[i]));
        assert(last_enabled(start.pipeline, i) == i);
    }
}

/// All commands of some pipelines, from the first pipeline on.
pub open spec fn commands_in(pipelines: Seq<Seq<char>>) -> Seq<Seq<char>>
    decreases pipelines.len(),
{
    if pipelines.len() == 0 {
        Seq::empty()
    } else {
        parser::parsed(pipelines[0])->Ok_0 + commands_in(pipelines.drop_first())
    }
}

proof fn lemma_commands_in_push(pipelines: Seq<Seq<char>>, text: Seq<char>)
    ensures
        commands_in(pipelines.push(text)) == commands_in(pipelines) + parser::parsed(text)->Ok_0,
    decreases pipelines.len(),
{
    let more = pipelines.push(text);
    if pipelines.len() == 0 {
        assert(more.drop_first() =~= Seq::empty());
        assert(commands_in(more.drop_first()) =~= Seq::empty());
        assert(commands_in(more) =~= commands_in(pipelines) + parser::parsed(text)->Ok_0);
    } else {
        assert(more.drop_first() =~= pipelines.drop_first().push(text));
        lemma_commands_in_push(pipelines.drop_first(), text);
        assert(commands_in(more) =~= commands_in(pipelines) + parser::parsed(text)->Ok_0);
    }
}

/// Where arguments are pipelines, the commands of all of them are taken, in order. Otherwise each
/// argument is a command, whatever it holds.
pub proof fn law_arguments_are_split(arguments: Seq<Seq<char>>)
    ensures
        app::initial_commands(arguments, false) == Ok::<_, ParseError>(arguments),
        (forall|i: int|
            0 <= i < arguments.len() ==> parser::parsed(#[trigger] arguments[i]) is Ok)
            ==> app::initial_commands(arguments, true) == Ok::<_, ParseError>(
            commands_in(arguments),
        ),
    decreases arguments.len(),
{
    if arguments.len() > 0 && (forall|i: int|
        0 <= i < arguments.len() ==> parser::parsed(#[trigger] arguments[i]) is Ok) {
        let rest = arguments.drop_last();
        assert forall|i: int| 0 <= i < rest.len() implies parser::parsed(#[trigger] rest[i]) is Ok by {
            assert(rest[i] == arguments[i]);
        }
        law_arguments_are_split(rest);
        lemma_commands_in_push(rest, arguments.last());
        assert(rest.push(arguments.last()) =~= arguments);
        assert(arguments[arguments.len() - 1] == arguments.last());
    }
}

/// Of several arguments that are no pipelines, the first one is complained about.
pub proof fn law_first_error_is_reported(arguments: Seq<Seq<char>>, k: int)
    requires
        0 <= k < arguments.len(),
        parser::parsed(arguments[k]) is Err,
        forall|i: int| 0 <= i < k ==> parser::parsed(#[trigger] arguments[i]) is Ok,
    ensures
        app::initial_commands(arguments, true) == Err::<Seq<Seq<char>>, _>(
            parser::parsed(arguments[k])->Err_0,
        ),
    decreases arguments.len(),
{
    let rest = arguments.drop_last();
    if k < rest.len() {
        assert forall|i: int| 0 <= i < k implies parser::parsed(#[trigger] rest[i]) is Ok by {
            assert(rest[i] == arguments[i]);
        }
        law_first_error_is_reported(rest, k);
    } else {
        assert forall|i: int| 0 <= i < rest.len() implies parser::parsed(#[trigger] rest[i]) is Ok by {
            assert(rest[i] == arguments[i]);
        }
        law_arguments_are_split(rest);
    }
}

} // verus!
