//! Pipelines of commands and their executions.

use crate::bytes;
use crate::id_generator::Id;
use crate::input;
use crate::input::FieldState;
use append_only_bytes::AppendOnlyBytes;
use std::collections::HashMap;
use tui_input::Input;
use vstd::prelude::*;

verus! {

/// How a process ended.
#[derive(Debug, Clone, Copy, PartialEq, Eq)]
pub struct ExitStatus {
    /// The exit code, unless a signal ended the process.
    pub code: Option<i32>,
    /// The signal that ended the process, if one did.
    pub signal: Option<i32>,
}

impl ExitStatus {
    pub open spec fn succeeded(self) -> bool {
        self.code == Some(0i32)
    }

    /// Whether the process exited by itself, with code 0.
    pub fn success(&self) -> (r: bool)
        ensures
            r == self.succeeded(),
    {
        match self.code {
            Some(code) => code == 0,
            None => false,
        }
    }
}

#[derive(Debug, Clone, Copy, PartialEq, Eq)]
pub enum ProcessStatus {
    Running,
    Exited(ExitStatus),
}

/// One command of an execution.
pub struct StageExecution {
    /// The command that was started.
    pub command: String,
    pub status: ProcessStatus,
    /// Whether the standard input of the process is open.
    pub stdin: bool,
    /// Whether the standard output of the process is open.
    pub stdout: bool,
    /// Whether the standard error of the process is open.
    pub stderr: bool,
    /// Number of bytes of the previous stage's output that were written to the standard input.
    pub bytes_written_to_stdin: usize,
    pub output: AppendOnlyBytes,
    pub eoutput: AppendOnlyBytes,
}

/// The view of a stage execution.
pub struct StageExecutionView {
    pub command: Seq<char>,
    pub status: ProcessStatus,
    pub stdin: bool,
    pub stdout: bool,
    pub stderr: bool,
    pub bytes_written_to_stdin: usize,
    pub output: Seq<u8>,
    pub eoutput: Seq<u8>,
}

impl View for StageExecution {
    type V = StageExecutionView;

    open spec fn view(&self) -> StageExecutionView {
        StageExecutionView {
            command: self.command@,
            status: self.status,
            stdin: self.stdin,
            stdout: self.stdout,
            stderr: self.stderr,
            bytes_written_to_stdin: self.bytes_written_to_stdin,
            output: bytes::appended(self.output),
            eoutput: bytes::appended(self.eoutput),
        }
    }
}

/// A stage execution whose process was just started.
pub open spec fn started(command: Seq<char>, stdin: bool) -> StageExecutionView {
    StageExecutionView {
        command,
        status: ProcessStatus::Running,
        stdin,
        stdout: true,
        stderr: true,
        bytes_written_to_stdin: 0,
        output: Seq::empty(),
        eoutput: Seq::empty(),
    }
}

impl StageExecutionView {
    /// Whether this execution may take the place of a new execution of `command`: the commands
    /// are the same, and the process is running or was successful.
    pub open spec fn reusable_for(self, command: Seq<char>) -> bool {
        &&& self.command == command
        &&& self.status matches ProcessStatus::Exited(status) ==> status.succeeded()
    }

    /// Whether nothing more is to come from the process.
    pub open spec fn is_finished(self) -> bool {
        self.status is Exited && !self.stdout && !self.stderr
    }

    /// The stage once it was interrupted. The process is killed, but that takes effect later.
    pub open spec fn interrupted(self) -> StageExecutionView {
        StageExecutionView { stdin: false, ..self }
    }
}

impl StageExecution {
    /// The execution of a command whose process was just started. `stdin` tells whether the
    /// process reads from a pipe.
    pub fn start(command: String, stdin: bool) -> (r: Self)
        ensures
            r@ == started(command@, stdin),
    {
        StageExecution {
            command,
            status: ProcessStatus::Running,
            stdin,
            stdout: true,
            stderr: true,
            bytes_written_to_stdin: 0,
            output: AppendOnlyBytes::new(),
            eoutput: AppendOnlyBytes::new(),
        }
    }

    pub fn may_reuse_for(&self, command: &str) -> (r: bool)
        ensures
            r == self@.reusable_for(command@),
    {
        if *command != *self.command.as_str() {
            return false;
        }
        match self.status {
            ProcessStatus::Running => true,
            ProcessStatus::Exited(status) => status.success(),
        }
    }

    /// Closes the standard input. Returns whether there is a process to kill.
    pub fn interrupt(&mut self) -> (kill: bool)
        ensures
            final(self)@ == old(self)@.interrupted(),
            kill == (old(self)@.status is Running),
    {
        self.stdin = false;
        matches!(self.status, ProcessStatus::Running)
    }

    pub fn finished(&self) -> (r: bool)
        ensures
            r == self@.is_finished(),
    {
        matches!(self.status, ProcessStatus::Exited(_)) && !self.stdout && !self.stderr
    }
}

pub open spec fn stage_views(stages: Seq<StageExecution>) -> Seq<StageExecutionView> {
    stages.map_values(|stage: StageExecution| stage@)
}

/// The commands that are being executed.
pub struct Execution {
    /// For the number of a stage, the index of its execution in `pipeline`.
    pub index: HashMap<usize, usize>,
    /// The commands being executed, in order.
    pub pipeline: Vec<StageExecution>,
    /// Index of the first interrupted stage. Stages are always interrupted from some index on to
    /// the end.
    interrupted_since: usize,
}

/// The view of an execution.
pub struct ExecutionView {
    pub index: Map<usize, usize>,
    pub pipeline: Seq<StageExecutionView>,
    pub interrupted_since: usize,
}

impl View for Execution {
    type V = ExecutionView;

    closed spec fn view(&self) -> ExecutionView {
        ExecutionView {
            index: self.index@,
            pipeline: stage_views(self.pipeline@),
            interrupted_since: self.interrupted_since,
        }
    }
}

impl ExecutionView {
    /// Nothing is executed.
    pub open spec fn empty() -> ExecutionView {
        ExecutionView {
            index: Map::empty(),
            pipeline: Seq::empty(),
            interrupted_since: usize::MAX,
        }
    }

    /// Every stage of the index has its execution, and no interrupted stage gets any more input.
    pub open spec fn valid(self) -> bool {
        &&& forall|number: usize| #[trigger]
            self.index.dom().contains(number) ==> self.index[number] < self.pipeline.len()
        &&& forall|i: int|
            self.interrupted_since <= i < self.pipeline.len() ==> !(#[trigger] self.pipeline[i]).stdin
    }

    /// The number of stages that have not been interrupted.
    pub open spec fn live_count(self) -> nat {
        if self.pipeline.len() < self.interrupted_since {
            self.pipeline.len()
        } else {
            self.interrupted_since as nat
        }
    }

    /// The stages that have not been interrupted.
    pub open spec fn live(self) -> Seq<StageExecutionView> {
        self.pipeline.take(self.live_count() as int)
    }

    /// Whether all interrupted stages are finished.
    pub open spec fn is_settled(self) -> bool {
        forall|i: int|
            self.interrupted_since <= i < self.pipeline.len() ==> (
            #[trigger] self.pipeline[i]).is_finished()
    }

    /// The execution once it was interrupted from the stage at `from` on.
    pub open spec fn interrupted(self, from: usize) -> ExecutionView {
        if from >= self.interrupted_since {
            self
        } else {
            ExecutionView {
                pipeline: Seq::new(
                    self.pipeline.len(),
                    |i: int|
                        if from <= i < self.interrupted_since {
                            self.pipeline[i].interrupted()
                        } else {
                            self.pipeline[i]
                        },
                ),
                interrupted_since: from,
                ..self
            }
        }
    }

    /// Whether an interruption from the stage at `from` on kills the process of the stage at `i`.
    pub open spec fn kills(self, from: usize, i: int) -> bool {
        &&& from <= i < self.interrupted_since
        &&& i < self.pipeline.len()
        &&& self.pipeline[i].status is Running
    }
}

/// Whether `killed` lists, in ascending order, the stages whose processes an interruption from
/// `from` on kills.
pub open spec fn lists_killed(killed: Seq<usize>, execution: ExecutionView, from: usize) -> bool {
    &&& forall|k: int|
        0 <= k < killed.len() ==> execution.kills(from, #[trigger] killed[k] as int)
    &&& forall|k: int, l: int| 0 <= k < l < killed.len() ==> killed[k] < killed[l]
    &&& forall|i: int| #[trigger] execution.kills(from, i) ==> killed.contains(i as usize)
}

impl Default for Execution {
    fn default() -> (r: Self)
        ensures
            r@ == ExecutionView::empty(),
    {
        broadcast use vstd::std_specs::hash::group_hash_axioms;

        let r = Self { index: HashMap::new(), pipeline: Vec::new(), interrupted_since: usize::MAX };
        assert(stage_views(r.pipeline@) =~= Seq::empty());
        r
    }
}

impl Execution {
    pub fn new(pipeline: Vec<StageExecution>, index: HashMap<usize, usize>) -> (r: Self)
        ensures
            r@ == (ExecutionView {
                index: index@,
                pipeline: stage_views(pipeline@),
                interrupted_since: usize::MAX,
            }),
    {
        Self { index, pipeline, interrupted_since: usize::MAX }
    }

    /// The execution of the stage with the given identifier, if it has one.
    pub fn get_stage(&self, id: Id) -> (r: Option<&StageExecution>)
        requires
            self@.valid(),
        ensures
            r is Some <==> self@.index.dom().contains(id@),
            r matches Some(stage) ==> stage@ == self@.pipeline[self@.index[id@] as int],
    {
        match self.get_index(id) {
            Some(index) => Some(&self.pipeline[index]),
            None => None,
        }
    }

    /// The index of the execution of the stage with the given identifier, if it has one.
    pub fn get_index(&self, id: Id) -> (r: Option<usize>)
        ensures
            r == (if self@.index.dom().contains(id@) {
                Some(self@.index[id@])
            } else {
                None
            }),
    {
        broadcast use vstd::std_specs::hash::group_hash_axioms;

        match self.index.get(&id.number()) {
            Some(index) => Some(*index),
            None => None,
        }
    }

    pub fn interrupted_stages_are_finished(&self) -> (r: bool)
        requires
            self@.interrupted_since <= self@.pipeline.len(),
        ensures
            r == self@.is_settled(),
    {
        let mut i: usize = self.interrupted_since;
        while i < self.pipeline.len()
            invariant
                self@.interrupted_since <= i <= self@.pipeline.len(),
                forall|j: int|
                    self@.interrupted_since <= j < i ==> (
                    #[trigger] self@.pipeline[j]).is_finished(),
            decreases self.pipeline@.len() - i,
        {
            if !self.pipeline[i].finished() {
                assert(!self@.pipeline[i as int].is_finished());
                return false;
            }
            i = i + 1;
        }
        true
    }

    /// Interrupts the stages from the given index on. Returns the indices of the stages whose
    /// processes are to be killed.
    pub fn interrupt(&mut self, from_index: usize) -> (killed: Vec<usize>)
        requires
            from_index <= old(self)@.pipeline.len() || from_index >= old(self)@.interrupted_since,
        ensures
            final(self)@ == old(self)@.interrupted(from_index),
            lists_killed(killed@, old(self)@, from_index),
            old(self)@.valid() ==> final(self)@.valid(),
    {
        let mut killed: Vec<usize> = Vec::new();
        let ghost before = self@;
        if from_index >= self.interrupted_since {
            return killed;
        }
        let end: usize = if self.pipeline.len() < self.interrupted_since {
            self.pipeline.len()
        } else {
            self.interrupted_since
        };
        let mut i: usize = from_index;
        while i < end
            invariant
                from_index <= i,
                from_index <= end ==> i <= end,
                end <= self.pipeline@.len(),
                end <= self.interrupted_since,
                end == before.live_count(),
                self@.index == before.index,
                self.interrupted_since == before.interrupted_since,
                self.pipeline@.len() == before.pipeline.len(),
                from_index < before.interrupted_since,
                forall|j: int|
                    0 <= j < before.pipeline.len() ==> #[trigger] self.pipeline@[j]@ == (
                    if from_index <= j < i {
                        before.pipeline[j].interrupted()
                    } else {
                        before.pipeline[j]
                    }),
                forall|k: int|
                    0 <= k < killed@.len() ==> before.kills(from_index, #[trigger] killed@[k] as int)
                        && killed@[k] < i,
                forall|k: int, l: int| 0 <= k < l < killed@.len() ==> killed@[k] < killed@[l],
                forall|j: int|
                    j < i && #[trigger] before.kills(from_index, j) ==> killed@.contains(j as usize),
            decreases end - i,
        {
            let ghost old_killed = killed@;
            let kill = self.pipeline[i].interrupt();
            if kill {
                killed.push(i);
                assert(killed@.last() == i);
            }
            proof {
                assert forall|j: int|
                    j < i + 1 && #[trigger] before.kills(from_index, j) implies killed@.contains(
                    j as usize,
                ) by {
                    if j < i {
                        let k = choose|k: int| 0 <= k < old_killed.len() && old_killed[k] == j;
                        assert(killed@[k] == j);
                    } else {
                        assert(killed@[killed@.len() - 1] == i);
                    }
                }
            }
            i = i + 1;
        }
        self.interrupted_since = from_index;
        proof {
            assert(self@.pipeline =~= before.interrupted(from_index).pipeline);
        }
        killed
    }

    /// The number of stages that can potentially be reused for another execution.
    fn non_interrupted_stages(&self) -> (count: usize)
        ensures
            count == self@.live_count(),
            count <= self.pipeline@.len(),
    {
        if self.pipeline.len() < self.interrupted_since {
            self.pipeline.len()
        } else {
            self.interrupted_since
        }
    }

    /// The number of stages.
    pub fn stage_count(&self) -> (r: usize)
        ensures
            r == self@.pipeline.len(),
    {
        self.pipeline.len()
    }

    /// The stage at the given index.
    pub fn stage(&self, i: usize) -> (r: &StageExecution)
        requires
            i < self@.pipeline.len(),
        ensures
            r@ == self@.pipeline[i as int],
    {
        &self.pipeline[i]
    }

    /// The stage at the given index, to be changed.
    pub fn stage_mut(&mut self, i: usize) -> (r: &mut StageExecution)
        requires
            i < old(self)@.pipeline.len(),
        ensures
            r@ == old(self)@.pipeline[i as int],
            final(self)@ == (ExecutionView {
                pipeline: old(self)@.pipeline.update(i as int, (*final(r))@),
                ..old(self)@
            }),
    {
        let r = &mut self.pipeline[i];
        proof {
            let updated = old(self).pipeline@.update(i as int, *final(r));
            assert(stage_views(updated) =~= stage_views(old(self).pipeline@).update(
                i as int,
                (*final(r))@,
            ));
        }
        r
    }

    /// Takes out the stages that have not been interrupted.
    pub fn reuse(self) -> (r: Vec<StageExecution>)
        ensures
            stage_views(r@) == self@.live(),
    {
        let count = self.non_interrupted_stages();
        let ghost live = self@.live();
        let mut stages = self.pipeline;
        stages.truncate(count);
        assert(stage_views(stages@) =~= live);
        stages
    }
}

/// A command as the user edits it.
pub struct Stage {
    /// Unique identifier of the stage.
    pub id: Id,
    /// The command as entered so far. It need not be the command that is being executed for this
    /// stage, nor the one that will be executed next.
    pub input: Input,
    /// Whether the command takes part in executions.
    pub enabled: bool,
}

/// The view of a stage.
pub struct StageView {
    pub id: usize,
    pub field: FieldState,
    pub enabled: bool,
}

impl View for Stage {
    type V = StageView;

    open spec fn view(&self) -> StageView {
        StageView { id: self.id@, field: input::state_of(self.input), enabled: self.enabled }
    }
}

/// An enabled stage for a command that was not edited yet.
pub open spec fn new_stage(id: usize, command: Seq<char>) -> StageView {
    StageView { id, field: input::fresh(command), enabled: true }
}

impl Stage {
    /// An enabled stage with no command yet.
    pub fn new(id: Id) -> (r: Self)
        ensures
            r@ == new_stage(id@, Seq::empty()),
    {
        Self::with_command(id, String::new())
    }

    /// An enabled stage for the given command.
    pub fn with_command(id: Id, command: String) -> (r: Self)
        ensures
            r@ == new_stage(id@, command@),
    {
        Self { id, input: Input::new(command), enabled: true }
    }
}

/// A command that is to be executed.
pub struct PendingStage {
    /// The stages to associate with the output of this command. There may be several of them,
    /// because disabled stages show the output of the enabled stage before them.
    pub stage_ids: Vec<Id>,
    /// The command to execute.
    pub command: String,
}

/// The view of a pending stage.
pub struct PendingStageView {
    pub stage_ids: Seq<usize>,
    pub command: Seq<char>,
}

pub open spec fn id_numbers(ids: Seq<Id>) -> Seq<usize> {
    ids.map_values(|id: Id| id@)
}

impl View for PendingStage {
    type V = PendingStageView;

    open spec fn view(&self) -> PendingStageView {
        PendingStageView { stage_ids: id_numbers(self.stage_ids@), command: self.command@ }
    }
}

/// The commands that are to be executed.
pub struct PendingExecution {
    pub pipeline: Vec<PendingStage>,
}

impl View for PendingExecution {
    type V = Seq<PendingStageView>;

    open spec fn view(&self) -> Seq<PendingStageView> {
        self.pipeline@.map_values(|stage: PendingStage| stage@)
    }
}

/// The number of stages, from index `i` on, that may be reused for the pending commands at the
/// same places: it counts up to the first one that may not.
pub open spec fn reusable_from(
    pending: Seq<PendingStageView>,
    stages: Seq<StageExecutionView>,
    i: int,
) -> nat
    decreases pending.len() - i,
{
    if 0 <= i < pending.len() && i < stages.len() && stages[i].reusable_for(pending[i].command) {
        1 + reusable_from(pending, stages, i + 1)
    } else {
        0
    }
}

/// The number of stages that may be reused for the pending commands.
pub open spec fn reusable_count(
    pending: Seq<PendingStageView>,
    stages: Seq<StageExecutionView>,
) -> nat {
    reusable_from(pending, stages, 0)
}

proof fn lemma_reusable_from(
    pending: Seq<PendingStageView>,
    stages: Seq<StageExecutionView>,
    i: int,
)
    requires
        0 <= i <= pending.len(),
        i <= stages.len(),
    ensures
        ({
            let n = i + reusable_from(pending, stages, i);
            &&& n <= pending.len()
            &&& n <= stages.len()
            &&& forall|j: int| i <= j < n ==> #[trigger] stages[j].reusable_for(pending[j].command)
            &&& n < pending.len() && n < stages.len() ==> !stages[n].reusable_for(
                pending[n].command,
            )
        }),
    decreases pending.len() - i,
{
    if i < pending.len() && i < stages.len() && stages[i].reusable_for(pending[i].command) {
        lemma_reusable_from(pending, stages, i + 1);
    }
}

/// The stages that may be reused are exactly the longest run of matching stages at the start:
/// each of them may be reused for the command at its place, and the next one may not.
pub proof fn law_reuse_is_the_longest_matching_prefix(
    pending: Seq<PendingStageView>,
    stages: Seq<StageExecutionView>,
    n: nat,
)
    ensures
        n == reusable_count(pending, stages) <==> {
            &&& n <= pending.len()
            &&& n <= stages.len()
            &&& forall|j: int| 0 <= j < n ==> #[trigger] stages[j].reusable_for(pending[j].command)
            &&& n < pending.len() && n < stages.len() ==> !stages[n as int].reusable_for(
                pending[n as int].command,
            )
        },
{
    lemma_reusable_from(pending, stages, 0);
    let count = reusable_count(pending, stages);
    if n < count {
        assert(stages[n as int].reusable_for(pending[n as int].command));
    }
    if count < n && n <= pending.len() && n <= stages.len() {
        assert(!stages[count as int].reusable_for(pending[count as int].command));
    }
}

/// The index of the last pending command that shows its output for the stage with the given
/// number.
pub open spec fn last_owner(pending: Seq<PendingStageView>, number: usize) -> Option<int>
    decreases pending.len(),
{
    if pending.len() == 0 {
        None
    } else if pending.last().stage_ids.contains(number) {
        Some(pending.len() - 1)
    } else {
        last_owner(pending.drop_last(), number)
    }
}

/// For each stage, the index of the command whose output it shows.
pub open spec fn stage_index(pending: Seq<PendingStageView>) -> Map<usize, usize> {
    Map::new(
        |number: usize| last_owner(pending, number) is Some,
        |number: usize| last_owner(pending, number)->0 as usize,
    )
}

pub proof fn lemma_last_owner(pending: Seq<PendingStageView>, number: usize)
    ensures
        last_owner(pending, number) matches Some(i) ==> {
            &&& 0 <= i < pending.len()
            &&& pending[i].stage_ids.contains(number)
            &&& forall|j: int|
                i < j < pending.len() ==> !(#[trigger] pending[j]).stage_ids.contains(number)
        },
        last_owner(pending, number) is None ==> forall|j: int|
            0 <= j < pending.len() ==> !(#[trigger] pending[j]).stage_ids.contains(number),
    decreases pending.len(),
{
    if pending.len() > 0 {
        let rest = pending.drop_last();
        lemma_last_owner(rest, number);
        assert forall|j: int| 0 <= j < rest.len() implies rest[j] == pending[j] by {}
        if !pending.last().stage_ids.contains(number) {
            assert forall|j: int|
                0 <= j < pending.len() && !(j < rest.len() && rest[j].stage_ids.contains(
                    number,
                )) implies !(#[trigger] pending[j]).stage_ids.contains(number) by {
                if j < rest.len() {
                    assert(rest[j] == pending[j]);
                }
            }
        }
    }
}

/// The executions once the pending commands were started, with `stages` for reuse.
pub open spec fn executed(
    pending: Seq<PendingStageView>,
    stages: Seq<StageExecutionView>,
) -> ExecutionView {
    let n = reusable_count(pending, stages);
    ExecutionView {
        index: stage_index(pending),
        pipeline: Seq::new(
            pending.len(),
            |i: int|
                if i < n {
                    stages[i]
                } else {
                    started(pending[i].command, i != 0)
                },
        ),
        interrupted_since: usize::MAX,
    }
}

/// A process to start.
pub struct StartCommand {
    pub command: String,
    /// Whether the process reads from a pipe. Otherwise it gets no input.
    pub stdin: bool,
}

/// What to do with processes to bring them in line with an execution.
pub struct StartPlan {
    /// The number of processes to keep, from the first one on. All others are given up.
    pub keep: usize,
    /// The processes to start behind them, in order.
    pub commands: Vec<StartCommand>,
}

/// The view of a plan.
pub struct StartPlanView {
    pub keep: nat,
    pub commands: Seq<(Seq<char>, bool)>,
}

impl View for StartPlan {
    type V = StartPlanView;

    open spec fn view(&self) -> StartPlanView {
        StartPlanView {
            keep: self.keep as nat,
            commands: self.commands@.map_values(|c: StartCommand| (c.command@, c.stdin)),
        }
    }
}

/// What is to be started for the pending commands, with `stages` for reuse.
pub open spec fn start_plan(
    pending: Seq<PendingStageView>,
    stages: Seq<StageExecutionView>,
) -> StartPlanView {
    let n = reusable_count(pending, stages);
    StartPlanView {
        keep: n,
        commands: Seq::new(
            (pending.len() - n) as nat,
            |i: int| (pending[n + i].command, n + i != 0),
        ),
    }
}

impl PendingExecution {
    /// The number of stages, out of the first `limit` ones, that may be reused.
    fn count_reusable(&self, stages: &Vec<StageExecution>, limit: usize) -> (r: usize)
        requires
            limit <= stages@.len(),
        ensures
            r == reusable_count(self@, stage_views(stages@).take(limit as int)),
            r <= self.pipeline@.len(),
            r <= limit,
    {
        let ghost views = stage_views(stages@).take(limit as int);
        let mut i: usize = 0;
        while i < self.pipeline.len() && i < limit && stages[i].may_reuse_for(
            self.pipeline[i].command.as_str(),
        )
            invariant
                i <= self.pipeline@.len(),
                i <= limit <= stages@.len(),
                views == stage_views(stages@).take(limit as int),
                reusable_count(self@, views) == i + reusable_from(self@, views, i as int),
            decreases self.pipeline@.len() - i,
        {
            i = i + 1;
        }
        i
    }

    /// Calculates how many stages of an existing execution may be reused by this one.
    pub fn calculate_number_of_stages_to_reuse(&self, execution: &Execution) -> (r: usize)
        ensures
            r == reusable_count(self@, execution@.live()),
            r <= execution@.live_count(),
    {
        self.count_reusable(&execution.pipeline, execution.non_interrupted_stages())
    }

    /// Starts the execution of the commands, and reuses as many of the given stages as possible.
    /// Returns what is to be done for that with the processes.
    pub fn execute(self, reusable_stages: Vec<StageExecution>) -> (r: (Execution, StartPlan))
        ensures
            r.0@ == executed(self@, stage_views(reusable_stages@)),
            r.1@ == start_plan(self@, stage_views(reusable_stages@)),
            r.0@.valid(),
    {
        broadcast use vstd::std_specs::hash::group_hash_axioms;

        let ghost pending = self@;
        let ghost views = stage_views(reusable_stages@);
        let keep = self.count_reusable(&reusable_stages, reusable_stages.len());
        assert(views.take(views.len() as int) =~= views);
        let mut stages = reusable_stages;
        stages.truncate(keep);

        let mut index: HashMap<usize, usize> = HashMap::new();
        let mut commands: Vec<StartCommand> = Vec::new();
        let mut i: usize = 0;
        assert(pending.take(0) =~= Seq::empty());
        assert(index@ =~= stage_index(pending.take(0)));
        while i < self.pipeline.len()
            invariant
                i <= self.pipeline@.len(),
                pending == self@,
                keep == reusable_count(pending, views),
                keep <= pending.len(),
                keep <= views.len(),
                stages@.len() == (if i < keep { keep } else { i }),
                forall|j: int| 0 <= j < keep ==> #[trigger] stages@[j]@ == views[j],
                forall|j: int|
                    keep <= j < stages@.len() ==> #[trigger] stages@[j]@ == started(
                        pending[j].command,
                        j != 0,
                    ),
                commands@.len() == (if i < keep { 0 } else { i - keep }),
                forall|j: int|
                    0 <= j < commands@.len() ==> (#[trigger] commands@[j]).command@
                        == pending[keep + j].command && commands@[j].stdin == (keep + j != 0),
                index@ == stage_index(pending.take(i as int)),
            decreases self.pipeline@.len() - i,
        {
            let stage = &self.pipeline[i];
            if i >= keep {
                stages.push(StageExecution::start(stage.command.clone(), i != 0));
                commands.push(StartCommand { command: stage.command.clone(), stdin: i != 0 });
            }
            let mut k: usize = 0;
            let ghost ids = pending[i as int].stage_ids;
            let ghost before = index@;
            while k < stage.stage_ids.len()
                invariant
                    k <= stage.stage_ids@.len(),
                    ids == id_numbers(stage.stage_ids@),
                    forall|number: usize| #[trigger]
                        index@.dom().contains(number) <==> before.dom().contains(number)
                            || ids.take(k as int).contains(number),
                    forall|number: usize| #[trigger]
                        index@.dom().contains(number) ==> index@[number] == (if ids.take(
                            k as int,
                        ).contains(number) {
                            i
                        } else {
                            before[number]
                        }),
                decreases stage.stage_ids@.len() - k,
            {
                broadcast use vstd::std_specs::hash::group_hash_axioms;

                let ghost last = ids[k as int];
                proof {
                    let longer = ids.take(k + 1);
                    assert(longer =~= ids.take(k as int).push(last));
                    assert forall|number: usize| #[trigger]
                        longer.contains(number) <==> ids.take(k as int).contains(number) || number
                            == last by {
                        if ids.take(k as int).contains(number) {
                            let l = choose|l: int|
                                0 <= l < k && ids.take(k as int)[l] == number;
                            assert(longer[l] == number);
                        }
                        assert(longer[k as int] == last);
                    }
                }
                index.insert(stage.stage_ids[k].number(), i);
                k = k + 1;
            }
            proof {
                assert(ids.take(k as int) =~= ids);
                let longer = pending.take(i + 1);
                assert(longer.drop_last() =~= pending.take(i as int));
                assert(longer.last() == pending[i as int]);
                assert(index@ =~= stage_index(longer));
            }
            i = i + 1;
        }
        proof {
            assert(pending.take(i as int) =~= pending);
            assert(stage_views(stages@) =~= executed(pending, views).pipeline);
            assert(commands@.map_values(|c: StartCommand| (c.command@, c.stdin)) =~= start_plan(
                pending,
                views,
            ).commands);
            assert forall|number: usize| #[trigger]
                stage_index(pending).dom().contains(number) implies stage_index(pending)[number]
                < pending.len() by {
                lemma_last_owner(pending, number);
            }
        }
        (Execution::new(stages, index), StartPlan { keep, commands })
    }
}

/// Two interruptions do what the one that reaches further back does alone.
pub proof fn law_interruptions_add_up(execution: ExecutionView, a: usize, b: usize)
    ensures
        execution.interrupted(a).interrupted(b) == execution.interrupted(
            if a < b {
                a
            } else {
                b
            },
        ),
{
    let both = execution.interrupted(a).interrupted(b);
    let once = execution.interrupted(
        if a < b {
            a
        } else {
            b
        },
    );
    assert(both.pipeline =~= once.pipeline);
}

/// An interruption keeps the stages before it as they are, and keeps all that was read so far.
pub proof fn law_interruption_keeps_output(execution: ExecutionView, from: usize)
    ensures
        ({
            let after = execution.interrupted(from);
            &&& after.pipeline.len() == execution.pipeline.len()
            &&& after.index == execution.index
            &&& forall|i: int|
                #![trigger after.pipeline[i]]
                0 <= i < execution.pipeline.len() ==> {
                    &&& after.pipeline[i].output == execution.pipeline[i].output
                    &&& after.pipeline[i].eoutput == execution.pipeline[i].eoutput
                    &&& i < from ==> after.pipeline[i] == execution.pipeline[i]
                }
        }),
{
}

/// As long as stages may be reused for the commands at their places, from the first one on, they
/// are: they are not started again, and keep all their output.
pub proof fn law_unchanged_stages_are_kept(
    pending: Seq<PendingStageView>,
    stages: Seq<StageExecutionView>,
    k: nat,
)
    requires
        k <= pending.len(),
        k <= stages.len(),
        forall|i: int| 0 <= i < k ==> #[trigger] stages[i].reusable_for(pending[i].command),
    ensures
        executed(pending, stages).pipeline.take(k as int) == stages.take(k as int),
        start_plan(pending, stages).keep >= k,
{
    lemma_reusable_from(pending, stages, 0);
    let n = reusable_count(pending, stages);
    if n < k {
        assert(stages[n as int].reusable_for(pending[n as int].command));
    }
    assert(executed(pending, stages).pipeline.take(k as int) =~= stages.take(k as int));
}

/// Commands that are executed again without a change are all kept: nothing is started.
pub proof fn law_repeated_execution_starts_nothing(
    pending: Seq<PendingStageView>,
    stages: Seq<StageExecutionView>,
)
    requires
        pending.len() <= usize::MAX,
    ensures
        ({
            let first = executed(pending, stages);
            &&& executed(pending, first.live()) == first
            &&& start_plan(pending, first.live()).keep == pending.len()
            &&& start_plan(pending, first.live()).commands.len() == 0
        }),
{
    let first = executed(pending, stages);
    lemma_reusable_from(pending, stages, 0);
    assert(first.live() =~= first.pipeline);
    assert forall|i: int| 0 <= i < pending.len() implies #[trigger] first.live()[i].reusable_for(
        pending[i].command,
    ) by {
        if i < reusable_count(pending, stages) {
            assert(stages[i].reusable_for(pending[i].command));
        }
    }
    law_unchanged_stages_are_kept(pending, first.live(), pending.len());
    lemma_reusable_from(pending, first.live(), 0);
    let again = executed(pending, first.live());
    assert(again.pipeline.take(pending.len() as int) =~= again.pipeline);
    assert(first.live().take(pending.len() as int) =~= first.pipeline);
}

/// Where no stages are offered for reuse, every command is started.
pub proof fn law_nothing_offered_starts_all(pending: Seq<PendingStageView>)
    ensures
        ({
            let plan = start_plan(pending, Seq::empty());
            &&& plan.keep == 0
            &&& plan.commands == Seq::new(
                pending.len(),
                |i: int| (pending[i].command, i != 0),
            )
        }),
{
    assert(start_plan(pending, Seq::empty()).commands =~= Seq::new(
        pending.len(),
        |i: int| (pending[i].command, i != 0),
    ));
}

/// The argument that makes a shell execute a command.
pub open spec fn shell_flag(windows: bool) -> Seq<char> {
    if windows {
        "/C"@
    } else {
        "-c"@
    }
}

/// The arguments that make a shell execute a command.
pub fn shell_arguments(command: &str, windows: bool) -> (r: Vec<String>)
    ensures
        r@.len() == 2,
        r@[0]@ == shell_flag(windows),
        r@[1]@ == command@,
{
    let flag = if windows {
        "/C"
    } else {
        "-c"
    };
    vec![flag.to_owned(), command.to_owned()]
}

/// Shells take a command behind `-c`, but for that of Windows.
pub proof fn law_shells_take_a_command(windows: bool)
    ensures
        windows ==> shell_flag(windows) == "/C"@,
        !windows ==> shell_flag(windows) == "-c"@,
{
}

} // verus!
