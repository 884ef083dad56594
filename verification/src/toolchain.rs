//! Building and running a project with the external toolchain.
//!
//! The library says which command to run and what its outcome means. The
//! caller spawns the process in the project directory, waits for it and
//! hands back how it ended.

use vstd::prelude::*;
use crate::engine::Engine;
use crate::lists::views;

verus! {

/// What the toolchain is asked to do.
#[derive(Clone, Copy, Debug, PartialEq, Eq, Structural)]
pub enum ToolchainTask {
    Run,
    BuildDebug,
    BuildRelease,
}

/// A process to spawn: the program, its arguments and the directory it
/// runs in.
#[derive(Clone, Debug)]
pub struct ToolchainCommand {
    pub program: String,
    pub arguments: Vec<String>,
    pub working_directory: String,
}

/// What a [`ToolchainCommand`] stands for.
#[verifier::ext_equal]
pub ghost struct ToolchainCommandView {
    pub program: Seq<char>,
    pub arguments: Seq<Seq<char>>,
    pub working_directory: Seq<char>,
}

impl View for ToolchainCommand {
    type V = ToolchainCommandView;

    open spec fn view(&self) -> ToolchainCommandView {
        ToolchainCommandView {
            program: self.program@,
            arguments: views(self.arguments@),
            working_directory: self.working_directory@,
        }
    }
}

/// The arguments that the toolchain takes for a task.
pub open spec fn task_arguments(task: ToolchainTask) -> Seq<Seq<char>> {
    match task {
        ToolchainTask::Run => seq!["run"@],
        ToolchainTask::BuildDebug => seq!["build"@],
        ToolchainTask::BuildRelease => seq!["build"@, "--release"@],
    }
}

/// The command for a task on the project at `project`: `cargo` with the
/// task's arguments, run in the project directory.
pub open spec fn task_command(task: ToolchainTask, project: Seq<char>) -> ToolchainCommandView {
    ToolchainCommandView {
        program: "cargo"@,
        arguments: task_arguments(task),
        working_directory: project,
    }
}

/// The task of a build: optimized where `release` is set.
pub open spec fn build_task(release: bool) -> ToolchainTask {
    if release {
        ToolchainTask::BuildRelease
    } else {
        ToolchainTask::BuildDebug
    }
}

/// The command for `task` on the project at `project`.
pub fn command_for(task: ToolchainTask, project: &str) -> (command: ToolchainCommand)
    ensures
        command@ == task_command(task, project@),
{
    let mut arguments: Vec<String> = Vec::new();
    match task {
        ToolchainTask::Run => {
            arguments.push("run".to_owned());
        },
        ToolchainTask::BuildDebug => {
            arguments.push("build".to_owned());
        },
        ToolchainTask::BuildRelease => {
            arguments.push("build".to_owned());
            arguments.push("--release".to_owned());
        },
    }
    let command = ToolchainCommand {
        program: "cargo".to_owned(),
        arguments,
        working_directory: project.to_owned(),
    };
    assert(command@.arguments =~= task_arguments(task));
    command
}

impl Engine {
    /// The command that runs the open project.
    pub fn run_project(&self) -> (command: ToolchainCommand)
        ensures
            command@ == task_command(ToolchainTask::Run, self.current_project@),
    {
        command_for(ToolchainTask::Run, self.current_project.as_str())
    }

    /// The command that builds the open project, optimized where `release`
    /// is set.
    pub fn build_project(&self, release: bool) -> (command: ToolchainCommand)
        ensures
            command@ == task_command(build_task(release), self.current_project@),
    {
        if release {
            command_for(ToolchainTask::BuildRelease, self.current_project.as_str())
        } else {
            command_for(ToolchainTask::BuildDebug, self.current_project.as_str())
        }
    }
}

/// How a toolchain process ended, with the output that is reported for it:
/// what it wrote to standard output where it succeeded, what it wrote to
/// standard error where it did not.
#[derive(Clone, Debug)]
pub enum ToolchainOutcome {
    Succeeded { output: String },
    Failed { error: String },
}

/// What a [`ToolchainOutcome`] stands for.
#[verifier::ext_equal]
pub ghost enum ToolchainOutcomeView {
    Succeeded { output: Seq<char> },
    Failed { error: Seq<char> },
}

impl View for ToolchainOutcome {
    type V = ToolchainOutcomeView;

    open spec fn view(&self) -> ToolchainOutcomeView {
        match self {
            ToolchainOutcome::Succeeded { output } => ToolchainOutcomeView::Succeeded {
                output: output@,
            },
            ToolchainOutcome::Failed { error } => ToolchainOutcomeView::Failed { error: error@ },
        }
    }
}

/// The outcome of a process that exited with success or not and wrote
/// `stdout` and `stderr`.
pub open spec fn outcome_of(
    succeeded: bool,
    stdout: Seq<char>,
    stderr: Seq<char>,
) -> ToolchainOutcomeView {
    if succeeded {
        ToolchainOutcomeView::Succeeded { output: stdout }
    } else {
        ToolchainOutcomeView::Failed { error: stderr }
    }
}

/// The line that reports an outcome to the user.
pub open spec fn outcome_message(outcome: ToolchainOutcomeView) -> Seq<char> {
    match outcome {
        ToolchainOutcomeView::Succeeded { output } => "Cargo run successful. Output:\n"@ + output,
        ToolchainOutcomeView::Failed { error } => "Cargo run failed. Error:\n"@ + error,
    }
}

/// Judges a finished toolchain process: a clean exit reports what it wrote
/// to standard output, any other exit what it wrote to standard error.
pub fn toolchain_outcome(succeeded: bool, stdout: String, stderr: String) -> (outcome:
    ToolchainOutcome)
    ensures
        outcome@ == outcome_of(succeeded, stdout@, stderr@),
{
    if succeeded {
        ToolchainOutcome::Succeeded { output: stdout }
    } else {
        ToolchainOutcome::Failed { error: stderr }
    }
}

impl ToolchainOutcome {
    /// Whether the process exited cleanly.
    pub fn succeeded(&self) -> (yes: bool)
        ensures
            yes == (self@ is Succeeded),
    {
        match self {
            ToolchainOutcome::Succeeded { .. } => true,
            ToolchainOutcome::Failed { .. } => false,
        }
    }

    /// The line that reports this outcome to the user.
    pub fn message(&self) -> (line: String)
        ensures
            line@ == outcome_message(self@),
    {
        match self {
            ToolchainOutcome::Succeeded { output } => {
                "Cargo run successful. Output:\n".to_owned().concat(output.as_str())
            },
            ToolchainOutcome::Failed { error } => {
                "Cargo run failed. Error:\n".to_owned().concat(error.as_str())
            },
        }
    }
}

} // verus!
