//! The order in which the core starts.

use crate::text::{copy_list, texts};
use vstd::prelude::*;

verus! {

/// What the start has just come to.
#[derive(Debug, PartialEq, Eq)]
pub enum StartupEvent {
    /// The process was started.
    Started,
    /// The environment file was loaded, or could not be.
    DotenvLoaded(Result<(), String>),
    /// The delay of a restart is over.
    RestartDelayApplied,
    /// The master key is ready.
    MasterKeyReady,
    /// The command ended.
    CommandEnded(Result<(), String>),
}

/// What the start does next.
#[derive(Debug, PartialEq, Eq)]
pub enum StartupStep {
    LoadDotenv,
    ApplyRestartDelay,
    InitMasterKey,
    RunCommand { args: Vec<String> },
    End(Result<(), String>),
}

/// What the start does next, in terms of its step alone.
pub open spec fn next_step(args: Seq<Seq<char>>, event: StartupEvent, step: StartupStep) -> bool {
    match event {
        StartupEvent::Started => step == StartupStep::LoadDotenv,
        StartupEvent::DotenvLoaded(Ok(())) => step == StartupStep::ApplyRestartDelay,
        StartupEvent::DotenvLoaded(Err(error)) => step == StartupStep::End(Err(error)),
        StartupEvent::RestartDelayApplied => step == StartupStep::InitMasterKey,
        StartupEvent::MasterKeyReady => match step {
            StartupStep::RunCommand { args: given } => texts(given@) == args,
            _ => false,
        },
        StartupEvent::CommandEnded(result) => step == StartupStep::End(result),
    }
}

/// Start the core with command-line arguments, one step at a time: load the environment file,
/// wait out the delay of a restart, prepare the master key, and run the command. A failure to
/// load the environment file ends the start, and so does the command, each with its own result.
pub fn run_core_from_args(args: &Vec<String>, event: StartupEvent) -> (r: StartupStep)
    ensures
        next_step(texts(args@), event, r),
{
    match event {
        StartupEvent::Started => StartupStep::LoadDotenv,
        StartupEvent::DotenvLoaded(Ok(())) => StartupStep::ApplyRestartDelay,
        StartupEvent::DotenvLoaded(Err(error)) => StartupStep::End(Err(error)),
        StartupEvent::RestartDelayApplied => StartupStep::InitMasterKey,
        StartupEvent::MasterKeyReady => StartupStep::RunCommand { args: copy_list(args) },
        StartupEvent::CommandEnded(result) => StartupStep::End(result),
    }
}

/// What a step comes to: loading and running may come to either result, and the other two to one
/// thing each. The end comes to nothing more.
pub open spec fn comes_to(step: StartupStep, event: StartupEvent) -> bool {
    match step {
        StartupStep::LoadDotenv => event is DotenvLoaded,
        StartupStep::ApplyRestartDelay => event == StartupEvent::RestartDelayApplied,
        StartupStep::InitMasterKey => event == StartupEvent::MasterKeyReady,
        StartupStep::RunCommand { .. } => event is CommandEnded,
        StartupStep::End(_) => false,
    }
}

/// A course of the start: each event leads to the step next to it, and each step to the event
/// behind it.
pub open spec fn course(
    args: Seq<Seq<char>>,
    events: Seq<StartupEvent>,
    steps: Seq<StartupStep>,
) -> bool {
    &&& events.len() == steps.len()
    &&& events.len() > 0
    &&& events[0] == StartupEvent::Started
    &&& forall|i: int| 0 <= i < events.len() ==> next_step(args, #[trigger] events[i], steps[i])
    &&& forall|i: int, j: int|
        0 <= i && j == i + 1 && j < events.len() ==> comes_to(#[trigger] steps[i], #[trigger] events[j])
}

/// The command is run only with the arguments as they were given, and only once the environment
/// file was loaded, the delay is over and the master key is ready, in that order. Where loading
/// fails nothing else is done.
pub proof fn law_the_command_runs_last(
    args: Seq<Seq<char>>,
    events: Seq<StartupEvent>,
    steps: Seq<StartupStep>,
)
    requires
        course(args, events, steps),
    ensures
        steps.len() <= 5,
        steps[0] == StartupStep::LoadDotenv,
        steps.len() > 1 && events[1]->DotenvLoaded_0 is Err ==> steps.len() == 2,
        steps.len() > 2 ==> steps[1] == StartupStep::ApplyRestartDelay && steps[2]
            == StartupStep::InitMasterKey,
        forall|i: int|
            0 <= i < steps.len() && #[trigger] steps[i] is RunCommand ==> i == 3 && texts(
                steps[i]->RunCommand_args@,
            ) == args,
{
    assert(next_step(args, events[0], steps[0]));
    if steps.len() > 1 {
        assert(comes_to(steps[0], events[1]));
        assert(next_step(args, events[1], steps[1]));
    }
    if steps.len() > 2 {
        assert(comes_to(steps[1], events[2]));
        assert(next_step(args, events[2], steps[2]));
    }
    if steps.len() > 3 {
        assert(comes_to(steps[2], events[3]));
        assert(next_step(args, events[3], steps[3]));
    }
    if steps.len() > 4 {
        assert(comes_to(steps[3], events[4]));
        assert(next_step(args, events[4], steps[4]));
    }
    if steps.len() > 5 {
        assert(comes_to(steps[4], events[5]));
    }
}

/// What each event of the start leads to: the steps in their order, and an end with the very result
/// of the environment file that did not load or of the command.
pub proof fn law_each_event_leads_to_its_step(
    args: Seq<Seq<char>>,
    step: StartupStep,
    error: String,
    result: Result<(), String>,
)
    ensures
        next_step(args, StartupEvent::Started, step) <==> step == StartupStep::LoadDotenv,
        next_step(args, StartupEvent::DotenvLoaded(Ok(())), step) <==> step
            == StartupStep::ApplyRestartDelay,
        next_step(args, StartupEvent::DotenvLoaded(Err(error)), step) <==> step
            == StartupStep::End(Err(error)),
        next_step(args, StartupEvent::RestartDelayApplied, step) <==> step
            == StartupStep::InitMasterKey,
        next_step(args, StartupEvent::MasterKeyReady, step) <==> step is RunCommand && texts(
            step->RunCommand_args@,
        ) == args,
        next_step(args, StartupEvent::CommandEnded(result), step) <==> step == StartupStep::End(
            result,
        ),
{
}

} // verus!
