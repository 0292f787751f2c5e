use pipec::id_generator::{Id, IdGenerator};
use pipec::pipeline::{Execution, ExitStatus, PendingExecution, PendingStage, ProcessStatus, StageExecution};
use std::collections::HashMap;

fn ids(count: usize) -> Vec<Id> {
    let mut generator = IdGenerator::default();
    (0..count).map(|_| generator.gen_id()).collect()
}

fn pending(stages: &[(&[Id], &str)]) -> PendingExecution {
    PendingExecution {
        pipeline: stages
            .iter()
            .map(|(stage_ids, command)| PendingStage {
                stage_ids: stage_ids.to_vec(),
                command: command.to_string(),
            })
            .collect(),
    }
}

fn exited(code: Option<i32>, signal: Option<i32>) -> ProcessStatus {
    ProcessStatus::Exited(ExitStatus { code, signal })
}

fn execution(commands: &[&str]) -> Execution {
    let stages = commands
        .iter()
        .enumerate()
        .map(|(i, command)| StageExecution::start(command.to_string(), i != 0))
        .collect();
    Execution::new(stages, HashMap::new())
}

#[test]
fn only_running_and_successful_stages_are_reused() {
    let mut stage = StageExecution::start("ls".to_string(), false);
    assert!(stage.may_reuse_for("ls"));
    assert!(!stage.may_reuse_for("ls "));
    stage.status = exited(Some(0), None);
    assert!(stage.may_reuse_for("ls"));
    stage.status = exited(Some(1), None);
    assert!(!stage.may_reuse_for("ls"));
    stage.status = exited(None, Some(9));
    assert!(!stage.may_reuse_for("ls"));
}

#[test]
fn matching_stages_at_the_start_are_reused() {
    let ids = ids(3);
    let next = pending(&[(&ids[..1], "a"), (&ids[1..2], "x"), (&ids[2..], "c")]);
    let mut old = execution(&["a", "b", "c"]);
    assert_eq!(next.calculate_number_of_stages_to_reuse(&old), 1);
    let same = pending(&[(&ids[..1], "a"), (&ids[1..2], "b")]);
    assert_eq!(same.calculate_number_of_stages_to_reuse(&old), 2);
    // Interrupted stages are not reused.
    old.interrupt(1);
    assert_eq!(same.calculate_number_of_stages_to_reuse(&old), 1);
    assert_eq!(old.reuse().len(), 1);
}

#[test]
fn execution_reuses_and_starts_stages() {
    let ids = ids(4);
    let next = pending(&[(&ids[..1], "a"), (&ids[1..3], "b")]);
    let mut kept = StageExecution::start("a".to_string(), false);
    kept.output.push_slice(b"kept");
    let given_up = StageExecution::start("x".to_string(), true);
    let (execution, plan) = next.execute(vec![kept, given_up]);
    assert_eq!(plan.keep, 1);
    assert_eq!(plan.commands.len(), 1);
    assert_eq!((plan.commands[0].command.as_str(), plan.commands[0].stdin), ("b", true));
    assert_eq!(execution.stage_count(), 2);
    assert_eq!(execution.stage(0).output.as_bytes(), b"kept");
    assert_eq!(execution.stage(1).command, "b");
    assert_eq!(execution.get_stage(ids[2]).unwrap().command, "b");
    assert!(execution.get_stage(ids[3]).is_none());
}

#[test]
fn interruptions_add_up() {
    let mut execution = execution(&["a", "b", "c"]);
    assert_eq!(execution.interrupt(2), [2]);
    assert_eq!(execution.interrupt(2), Vec::<usize>::new());
    assert_eq!(execution.interrupt(1), [1]);
    assert!(!execution.stage(1).stdin && !execution.stage(2).stdin);
    assert!(!execution.interrupted_stages_are_finished());
    for i in 1..3 {
        let stage = execution.stage_mut(i);
        stage.status = exited(None, Some(9));
        stage.stdout = false;
        stage.stderr = false;
    }
    assert!(execution.interrupted_stages_are_finished());
    assert_eq!(execution.reuse().len(), 1);
}

#[test]
fn empty_execution_has_no_stages() {
    let execution = Execution::default();
    assert_eq!(execution.stage_count(), 0);
    assert!(execution.get_stage(ids(1)[0]).is_none());
}

#[test]
fn stages_are_finished_when_nothing_is_open() {
    let mut stage = StageExecution::start("a".to_string(), true);
    assert!(stage.stdin && stage.stdout && stage.stderr && !stage.finished());
    assert!(stage.interrupt());
    assert!(!stage.stdin);
    stage.status = exited(Some(0), None);
    assert!(!stage.interrupt());
    stage.stdout = false;
    assert!(!stage.finished());
    stage.stderr = false;
    assert!(stage.finished());
}
