//! What the user can ask for.

use crate::ui::key::KeyEvent;
use vstd::prelude::*;

verus! {

#[derive(Debug, Clone, Copy, PartialEq, Eq, Structural)]
pub enum QuitAction {
    Succeed,
    Cancel,
    PrintPipeline,
    PrintOutput,
}

#[derive(Debug, Clone, Copy, PartialEq, Eq, Structural)]
pub enum CopySource {
    FocusedStageCommand,
    WholePipeline,
    ShownStageOutput,
    FinalStageOuput,
}

#[derive(Debug, Clone, Copy, PartialEq, Eq, Structural)]
pub enum Action {
    Quit(QuitAction),
    CopyToClipboard(CopySource),
    Execute,
    ExecuteAll,
    FocusPreviousStage,
    FocusNextStage,
    ShowStageOutput,
    NewStageAbove,
    NewStageBelow,
    DeleteStage,
    ToggleStage,
    AbortPipeline,
    LaunchPager,
    LaunchEditor,
    Input(KeyEvent),
    RestartPipeline,
}

} // verus!
