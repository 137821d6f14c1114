//! A whole turn, one stage at a time: what the host is asked to do next, from what its last piece
//! of work came to.

use crate::session::failure::{
    bare_failure, driver_failure, failure_of, DriverError, DriverErrorView, DriverFailure,
    DriverFailureView, DriverOutcome, DriverOutcomeView,
};
use crate::session::messages::{
    latest_user, said, trimmed, with_reply, Message, MessageView, Role,
};
use crate::session::snapshot::{
    accepted_within, driver_error_with_snapshot, failed_sidecar, snapshot_failure, FailureRendering,
    SessionTurnSidecar, SidecarView, TranscriptSnapshot,
};
use crate::session::tools::{
    distinct, law_admission_fails_closed, law_every_declared_tool_is_offered_once,
    law_the_missing_tools_are_those_in_no_source, unexecutable, unexecutable_message,
};
use crate::session::turn::{
    came_back_empty, law_completed_rounds_are_retained, missing_context, missing_policy,
    missing_synthesized_tools, missing_tools, opened_reply, opened_snapshot, settled, GraphPlan,
    GroundedClose, OpenHumanSessionDriver, ReplyingTurn, ReplyingTurnView, RequiredOutputStep,
    StartedTurn, TurnOutcome, TurnRequest, EXHAUSTED_FALLBACK,
};
use crate::text::{begins_with, blank, joined, texts};
use vstd::prelude::*;

verus! {

/// How far a turn has come.
#[derive(Debug)]
pub enum Stage {
    /// Its models are being built.
    Modelling { turn: StartedTurn },
    /// Its graph is running.
    Running { turn: StartedTurn },
    /// Its outcome is settled, and a closing call may be made; `user_message` is what it answers.
    Closing { history: Vec<Message>, user_message: String, outcome: TurnOutcome },
    /// A checkpoint is being written in place of its reply.
    Checkpointing { reply: ReplyingTurn, outcome: TurnOutcome },
    /// The rounds of its graph are being turned into messages.
    Converting { reply: ReplyingTurn, outcome: TurnOutcome },
    /// Its reply is being held against the required output.
    Completing { reply: ReplyingTurn, outcome: TurnOutcome },
    /// Its reply is being repaired.
    Repairing { reply: ReplyingTurn, outcome: TurnOutcome },
    /// Only its duration is missing.
    Finishing { reply: ReplyingTurn, outcome: TurnOutcome },
    /// It is over.
    Ended,
}

/// What the last piece of work of the host came to.
#[derive(Debug)]
pub enum TurnEvent {
    /// The models were built, or could not be. Whether they see images, and whether the messages
    /// point at some.
    ModelsBuilt(Result<(bool, bool), String>),
    /// The graph ended with an outcome.
    GraphEnded { outcome: TurnOutcome },
    /// The graph failed; `snapshot` is what was observed until then.
    GraphFailed {
        error: String,
        snapshot: TranscriptSnapshot,
        rendering: FailureRendering,
        elapsed_nanos: u128,
    },
    /// A closing call was made, or was not needed.
    Closed { close: Option<GroundedClose> },
    /// The checkpoint.
    CheckpointWritten { text: String },
    /// The rounds of the graph as messages; whether an output is required, and whether the
    /// progress of the turn is shown.
    RoundsConverted { rounds: Vec<Message>, required: bool, has_progress: bool },
    /// Whether the reply holds the required output, and what completes it otherwise.
    OutputChecked { satisfied: bool, block: String },
    /// A repaired reply, where there is one.
    Repaired { repair: Option<GroundedClose> },
    /// How long the turn took.
    Measured { elapsed_nanos: u128 },
}

/// What the host does next.
#[derive(Debug)]
pub enum TurnAction {
    BuildModels,
    RunGraph { plan: GraphPlan },
    /// Make a closing call, where the outcome needs one.
    CloseIfNeeded,
    WriteCheckpoint,
    ConvertRounds,
    CheckRequiredOutput,
    RepairRequiredOutput { stream: bool, iteration: u32 },
    MeasureDuration,
    /// Hand this to the session.
    Deliver(Result<DriverOutcome, DriverFailure>),
    /// The event does not belong to the stage; nothing has changed.
    Unexpected,
}

/// What is handed to the session.
pub open spec fn delivered(action: TurnAction) -> Option<
    Result<DriverOutcomeView, DriverFailureView>,
> {
    match action {
        TurnAction::Deliver(Ok(outcome)) => Some(Ok(outcome@)),
        TurnAction::Deliver(Err(failure)) => Some(Err(failure@)),
        _ => None,
    }
}

/// The turn is over, and this failure is handed to the session.
pub open spec fn fails(next: Stage, action: TurnAction, failure: DriverFailureView) -> bool {
    next is Ended && delivered(action) == Some(
        Err::<DriverOutcomeView, DriverFailureView>(failure),
    )
}

/// The first stage of a request: it is refused where it lacks its own tool policy or context.
pub open spec fn starts(
    driver: OpenHumanSessionDriver,
    request: TurnRequest,
    next: Stage,
    action: TurnAction,
) -> bool {
    if !request.has_tool_policy {
        fails(next, action, failure_of(missing_policy()))
    } else if !request.has_context {
        fails(next, action, failure_of(missing_context()))
    } else {
        &&& action is BuildModels
        &&& next matches Stage::Modelling { turn }
        &&& turn.history == request.history
        &&& turn.declared_tools == request.declared_tools
        &&& turn.tools == request.tools
        &&& turn.synthesized_tools == request.synthesized_tools
        &&& opened_snapshot(
            request.snapshot,
            request.history@.len(),
            driver.model_name@,
            turn.snapshot,
        )
        &&& turn.user_message@ == latest_user(said(request.history@))
    }
}

/// The stage behind the models: the graph runs with a plan, where every declared tool can be
/// executed.
pub open spec fn plans(
    driver: OpenHumanSessionDriver,
    turn: StartedTurn,
    facts: (bool, bool),
    next: Stage,
    action: TurnAction,
) -> bool {
    match (turn.tools, turn.synthesized_tools) {
        (None, _) => fails(next, action, failure_of(missing_tools())),
        (Some(_), None) => fails(next, action, failure_of(missing_synthesized_tools())),
        (Some(tools), Some(synthesized)) => {
            let visible = distinct(texts(turn.declared_tools@));
            let missing = unexecutable(visible, texts(tools@), texts(synthesized@));
            if missing.len() > 0 {
                fails(next, action, failure_of(unexecutable_message(missing)))
            } else {
                &&& next == Stage::Running { turn }
                &&& action matches TurnAction::RunGraph { plan }
                &&& plan.rehydrate_images == ((facts.0 || driver.model_vision) && facts.1)
                &&& texts(plan.visible_tool_names@) == visible
                &&& plan.max_iterations == driver.max_iterations
            }
        },
    }
}

/// The stage behind the rounds: what the required output asks for.
pub open spec fn asks(
    turn: ReplyingTurnView,
    outcome: TurnOutcome,
    required: bool,
    has_progress: bool,
    next: Stage,
    action: TurnAction,
) -> bool {
    match turn.required_step(required, has_progress, outcome) {
        RequiredOutputStep::Nothing => action is MeasureDuration && (
        next matches Stage::Finishing { reply: t, outcome: o } && t@ == turn && o == outcome),
        RequiredOutputStep::Complete => action is CheckRequiredOutput && (
        next matches Stage::Completing { reply: t, outcome: o } && t@ == turn && o == outcome),
        RequiredOutputStep::Repair { stream, iteration } => action
            == TurnAction::RepairRequiredOutput { stream, iteration } && (
        next matches Stage::Repairing { reply: t, outcome: o } && t@ == turn && o == outcome),
    }
}

/// One step of a turn: the next stage, what the host is asked, and what is observed of the turn.
pub open spec fn steps(
    driver: OpenHumanSessionDriver,
    stage: Stage,
    event: TurnEvent,
    observed: SidecarView,
    next: Stage,
    action: TurnAction,
    after: SidecarView,
) -> bool {
    match (stage, event) {
        (Stage::Modelling { turn }, TurnEvent::ModelsBuilt(Err(error))) => {
            fails(next, action, failure_of(error@)) && after == observed
        },
        (Stage::Modelling { turn }, TurnEvent::ModelsBuilt(Ok(facts))) => {
            plans(driver, turn, facts, next, action) && after == observed
        },
        (
            Stage::Running { turn },
            TurnEvent::GraphFailed { error, snapshot, rendering, elapsed_nanos },
        ) => {
            &&& fails(next, action, snapshot_failure(error@, snapshot, rendering))
            &&& after == failed_sidecar(observed, snapshot, elapsed_nanos, driver.model_name@)
        },
        (Stage::Running { turn }, TurnEvent::GraphEnded { outcome }) => if came_back_empty(
            outcome,
        ) {
            &&& fails(
                next,
                action,
                bare_failure(
                    DriverErrorView::EmptyProviderResponse {
                        iteration: outcome.model_calls as nat,
                    },
                ),
            )
            &&& after == observed
        } else {
            &&& next == (Stage::Closing {
                history: turn.history,
                user_message: turn.user_message,
                outcome: settled(outcome, driver.max_iterations as nat),
            })
            &&& action is CloseIfNeeded
            &&& after == observed
        },
        (Stage::Closing { history, outcome, .. }, TurnEvent::Closed { close }) => {
            let reply = opened_reply(said(history@), outcome, close);
            &&& after == observed
            &&& if blank(outcome.text@) && begins_with(reply.output, EXHAUSTED_FALLBACK@) {
                action is WriteCheckpoint && (next matches Stage::Checkpointing {
                    reply: t,
                    outcome: o,
                } && t@ == reply && o == outcome)
            } else {
                action is ConvertRounds && (next matches Stage::Converting { reply: t, outcome: o }
                    && t@ == reply && o == outcome)
            }
        },
        (Stage::Checkpointing { reply: turn, outcome }, TurnEvent::CheckpointWritten { text }) => {
            &&& after == observed
            &&& action is ConvertRounds
            &&& next matches Stage::Converting { reply: t, outcome: o }
            &&& t@ == (ReplyingTurnView { output: text@, ..turn@ })
            &&& o == outcome
        },
        (
            Stage::Converting { reply: turn, outcome },
            TurnEvent::RoundsConverted { rounds, required, has_progress },
        ) => {
            &&& after == observed
            &&& asks(
                turn@.appended(said(rounds@)),
                outcome,
                required,
                has_progress,
                next,
                action,
            )
        },
        (Stage::Completing { reply: turn, outcome }, TurnEvent::OutputChecked { satisfied, block }) => {
            &&& after == observed
            &&& action is MeasureDuration
            &&& next matches Stage::Finishing { reply: t, outcome: o }
            &&& t@ == turn@.completed(satisfied, block@)
            &&& o == outcome
        },
        (Stage::Repairing { reply: turn, outcome }, TurnEvent::Repaired { repair }) => {
            &&& after == observed
            &&& action is MeasureDuration
            &&& next matches Stage::Finishing { reply: t, outcome: o }
            &&& t@ == turn@.repaired(repair)
            &&& o == outcome
        },
        (Stage::Finishing { reply: turn, outcome }, TurnEvent::Measured { elapsed_nanos }) => {
            &&& next is Ended
            &&& delivered(action) == Some(
                Ok::<DriverOutcomeView, DriverFailureView>(
                    turn@.finished(driver.max_history_messages as nat, outcome),
                ),
            )
            &&& after == turn@.observed(outcome, elapsed_nanos)
        },
        _ => action is Unexpected && next == stage && after == observed,
    }
}

/// What a step needs of the machine: the accepted messages of a failed graph end within what was
/// observed, and the usage of a finished turn fits a machine word.
pub open spec fn fits(stage: Stage, event: TurnEvent) -> bool {
    match (stage, event) {
        (Stage::Running { .. }, TurnEvent::GraphFailed { snapshot, rendering, .. }) =>
            accepted_within(snapshot, rendering),
        (Stage::Finishing { reply: turn, outcome }, TurnEvent::Measured { .. }) => turn@.usage_fits(
            outcome,
        ),
        _ => true,
    }
}

/// Whether a step fits the machine.
pub fn can_advance(stage: &Stage, event: &TurnEvent) -> (r: bool)
    ensures
        r == fits(*stage, *event),
{
    match (stage, event) {
        (Stage::Running { .. }, TurnEvent::GraphFailed { snapshot, rendering, .. }) =>
            snapshot.messages.len() == 0 || rendering.accepted_end <= snapshot.messages.len(),
        (Stage::Finishing { reply: turn, outcome }, TurnEvent::Measured { .. }) => turn.sums_fit(outcome),
        _ => true,
    }
}

impl OpenHumanSessionDriver {
    /// Start the turn of a request.
    pub fn start(&self, request: TurnRequest) -> (r: (Stage, TurnAction))
        ensures
            starts(*self, request, r.0, r.1),
    {
        match self.begin(request) {
            Ok(turn) => (Stage::Modelling { turn }, TurnAction::BuildModels),
            Err(failure) => (Stage::Ended, TurnAction::Deliver(Err(failure))),
        }
    }

    /// Take the turn one step on: from its stage and what the last piece of work came to, to the
    /// next stage and the next piece of work. What is observed of the turn is written when it is
    /// handed over, and when its graph failed.
    pub fn advance(
        &self,
        stage: Stage,
        event: TurnEvent,
        sidecar: &mut SessionTurnSidecar,
    ) -> (r: (Stage, TurnAction))
        requires
            fits(stage, event),
        ensures
            steps(*self, stage, event, old(sidecar)@, r.0, r.1, final(sidecar)@),
    {
        match (stage, event) {
            (Stage::Modelling { .. }, TurnEvent::ModelsBuilt(Err(error))) => (
                Stage::Ended,
                TurnAction::Deliver(Err(driver_failure(error.as_str()))),
            ),
            (Stage::Modelling { turn }, TurnEvent::ModelsBuilt(Ok(facts))) => match self.plan(
                &turn,
                facts.0,
                facts.1,
            ) {
                Ok(plan) => (Stage::Running { turn }, TurnAction::RunGraph { plan }),
                Err(failure) => (Stage::Ended, TurnAction::Deliver(Err(failure))),
            },
            (
                Stage::Running { .. },
                TurnEvent::GraphFailed { error, snapshot, rendering, elapsed_nanos },
            ) => {
                let failure: DriverFailure = driver_error_with_snapshot(
                    error.as_str(),
                    &snapshot,
                    &rendering,
                    sidecar,
                    elapsed_nanos,
                    self.model_name.as_str(),
                );
                (Stage::Ended, TurnAction::Deliver(Err(failure)))
            },
            (Stage::Running { turn }, TurnEvent::GraphEnded { outcome }) => {
                let mut outcome: TurnOutcome = outcome;
                match self.settle(&mut outcome) {
                    Ok(()) => (
                        Stage::Closing {
                            history: turn.history,
                            user_message: turn.user_message,
                            outcome,
                        },
                        TurnAction::CloseIfNeeded,
                    ),
                    Err(failure) => (Stage::Ended, TurnAction::Deliver(Err(failure))),
                }
            },
            (Stage::Closing { history, outcome, .. }, TurnEvent::Closed { close }) => {
                let turn: ReplyingTurn = ReplyingTurn::open(history, &outcome, close);
                if turn.needs_checkpoint(&outcome) {
                    (Stage::Checkpointing { reply: turn, outcome }, TurnAction::WriteCheckpoint)
                } else {
                    (Stage::Converting { reply: turn, outcome }, TurnAction::ConvertRounds)
                }
            },
            (Stage::Checkpointing { reply: turn, outcome }, TurnEvent::CheckpointWritten { text }) => {
                let mut turn: ReplyingTurn = turn;
                turn.checkpoint(text);
                (Stage::Converting { reply: turn, outcome }, TurnAction::ConvertRounds)
            },
            (
                Stage::Converting { reply: turn, outcome },
                TurnEvent::RoundsConverted { rounds, required, has_progress },
            ) => {
                let mut turn: ReplyingTurn = turn;
                turn.append_rounds(rounds);
                match turn.required_output(required, has_progress, &outcome) {
                    RequiredOutputStep::Nothing => (
                        Stage::Finishing { reply: turn, outcome },
                        TurnAction::MeasureDuration,
                    ),
                    RequiredOutputStep::Complete => (
                        Stage::Completing { reply: turn, outcome },
                        TurnAction::CheckRequiredOutput,
                    ),
                    RequiredOutputStep::Repair { stream, iteration } => (
                        Stage::Repairing { reply: turn, outcome },
                        TurnAction::RepairRequiredOutput { stream, iteration },
                    ),
                }
            },
            (Stage::Completing { reply: turn, outcome }, TurnEvent::OutputChecked { satisfied, block }) =>
            {
                let mut turn: ReplyingTurn = turn;
                turn.complete(satisfied, block.as_str());
                (Stage::Finishing { reply: turn, outcome }, TurnAction::MeasureDuration)
            },
            (Stage::Repairing { reply: turn, outcome }, TurnEvent::Repaired { repair }) => {
                let mut turn: ReplyingTurn = turn;
                turn.repair(repair);
                (Stage::Finishing { reply: turn, outcome }, TurnAction::MeasureDuration)
            },
            (Stage::Finishing { reply: turn, outcome }, TurnEvent::Measured { elapsed_nanos }) => {
                let done: DriverOutcome = turn.finish(
                    self.max_history_messages,
                    &outcome,
                    elapsed_nanos,
                    sidecar,
                );
                (Stage::Ended, TurnAction::Deliver(Ok(done)))
            },
            (stage, _) => (stage, TurnAction::Unexpected),
        }
    }
}

/// How many pieces of work are left at most.
pub open spec fn work_left(stage: Stage) -> nat {
    match stage {
        Stage::Modelling { .. } => 7,
        Stage::Running { .. } => 6,
        Stage::Closing { .. } => 5,
        Stage::Checkpointing { .. } => 4,
        Stage::Converting { .. } => 3,
        Stage::Completing { .. } => 2,
        Stage::Repairing { .. } => 2,
        Stage::Finishing { .. } => 1,
        Stage::Ended => 0,
    }
}

/// Every step takes a turn nearer to its end, and a turn that is over has handed something to the
/// session. An event that does not belong to the stage changes nothing.
pub proof fn law_a_turn_comes_to_an_end(
    driver: OpenHumanSessionDriver,
    stage: Stage,
    event: TurnEvent,
    observed: SidecarView,
    next: Stage,
    action: TurnAction,
    after: SidecarView,
)
    requires
        steps(driver, stage, event, observed, next, action, after),
    ensures
        !(action is Unexpected) ==> work_left(next) < work_left(stage),
        action is Unexpected ==> next == stage && after == observed,
        delivered(action) is Some <==> next is Ended && !(stage is Ended),
{
}

/// What is observed of a turn is published only together with what is handed to the session.
pub proof fn law_observations_come_with_the_outcome(
    driver: OpenHumanSessionDriver,
    stage: Stage,
    event: TurnEvent,
    observed: SidecarView,
    next: Stage,
    action: TurnAction,
    after: SidecarView,
)
    requires
        steps(driver, stage, event, observed, next, action, after),
        after != observed,
    ensures
        delivered(action) is Some,
{
}

/// The graph runs only on the tools that were declared, each of which can be executed.
pub proof fn law_the_graph_runs_on_executable_tools(
    driver: OpenHumanSessionDriver,
    stage: Stage,
    event: TurnEvent,
    observed: SidecarView,
    next: Stage,
    action: TurnAction,
    after: SidecarView,
)
    requires
        steps(driver, stage, event, observed, next, action, after),
        action is RunGraph,
    ensures
        stage matches Stage::Modelling { turn } && turn.tools is Some
            && turn.synthesized_tools is Some && unexecutable(
            texts(action->RunGraph_plan.visible_tool_names@),
            texts(turn.tools->0@),
            texts(turn.synthesized_tools->0@),
        ).len() == 0 && texts(action->RunGraph_plan.visible_tool_names@) == distinct(
            texts(turn.declared_tools@),
        ),
{
}

/// A history keeps another: it begins with it, but for a final assistant message that a new reply
/// may have taken the place of.
pub open spec fn keeps(before: Seq<MessageView>, history: Seq<MessageView>) -> bool {
    ||| before.is_prefix_of(history)
    ||| before.len() > 0 && before.last().role == Role::Assistant
        && before.drop_last().is_prefix_of(history)
}

/// The history of a turn keeps that of its request, and until it is closed the turn answers the
/// latest message of the user in it.
pub open spec fn holds(stage: Stage, before: Seq<MessageView>) -> bool {
    match stage {
        Stage::Modelling { turn } => said(turn.history@) == before && turn.user_message@
            == latest_user(before),
        Stage::Running { turn } => said(turn.history@) == before && turn.user_message@
            == latest_user(before),
        Stage::Closing { history, user_message, .. } => said(history@) == before && user_message@
            == latest_user(said(history@)),
        Stage::Checkpointing { reply: turn, .. } => turn@.history == before,
        Stage::Converting { reply: turn, .. } => turn@.history == before,
        Stage::Completing { reply: turn, .. } => before.is_prefix_of(turn@.history),
        Stage::Repairing { reply: turn, .. } => before.is_prefix_of(turn@.history),
        Stage::Finishing { reply: turn, .. } => keeps(before, turn@.history),
        Stage::Ended => true,
    }
}

proof fn lemma_reply_keeps(before: Seq<MessageView>, history: Seq<MessageView>, reply: Seq<char>)
    requires
        before.is_prefix_of(history),
    ensures
        keeps(before, with_reply(history, reply)),
{
    let after = with_reply(history, reply);
    if history.len() > 0 && history.last().role == Role::Assistant {
        if before.len() == history.len() {
            assert(before =~= history);
            assert(before.drop_last() =~= after.subrange(0, before.len() - 1));
        } else {
            assert(before =~= after.subrange(0, before.len() as int));
        }
    } else {
        assert(before =~= after.subrange(0, before.len() as int));
    }
}

/// A turn starts with the history of its request, and with the latest message of the user in it.
pub proof fn law_a_turn_starts_from_its_request(
    driver: OpenHumanSessionDriver,
    request: TurnRequest,
    next: Stage,
    action: TurnAction,
)
    requires
        starts(driver, request, next, action),
    ensures
        holds(next, said(request.history@)),
{
}

/// A turn keeps the history of its request through every stage, and is closed on the latest
/// message of the user. What a finished turn hands over is
/// a bounded history that keeps it, with a reply and without a partial.
pub proof fn law_the_history_of_the_request_is_kept(
    driver: OpenHumanSessionDriver,
    stage: Stage,
    event: TurnEvent,
    observed: SidecarView,
    next: Stage,
    action: TurnAction,
    after: SidecarView,
    before: Seq<MessageView>,
)
    requires
        steps(driver, stage, event, observed, next, action, after),
        holds(stage, before),
    ensures
        holds(next, before),
        delivered(action) matches Some(Ok(outcome)) ==> outcome.output is Some
            && outcome.partial is None && exists|history: Seq<MessageView>|
            keeps(before, history) && outcome.history == #[trigger] trimmed(
                history,
                driver.max_history_messages as nat,
            ),
{
    match (stage, event) {
        (Stage::Converting { reply: turn, .. }, TurnEvent::RoundsConverted { rounds, .. }) => {
            law_completed_rounds_are_retained(turn@, said(rounds@));
        },
        (
            Stage::Completing { reply: turn, .. },
            TurnEvent::OutputChecked { satisfied, block },
        ) => {
            lemma_reply_keeps(before, turn@.history, turn@.output + "\n\n"@ + block@);
        },
        (Stage::Repairing { reply: turn, .. }, TurnEvent::Repaired { repair }) => {
            if repair is Some {
                lemma_reply_keeps(before, turn@.history, repair->0.output@);
            }
        },
        (Stage::Finishing { reply: turn, outcome }, TurnEvent::Measured { .. }) => {
            assert(keeps(before, turn@.history));
            assert(delivered(action)->0->Ok_0.history == trimmed(
                turn@.history,
                driver.max_history_messages as nat,
            ));
        },
        _ => {},
    }
}

/// A request without its own tool policy, or without its own context, is refused in those words and
/// nothing is run; any other is taken with its history and its tools as they are.
pub proof fn law_a_request_brings_its_own_policy_and_context(
    driver: OpenHumanSessionDriver,
    request: TurnRequest,
    next: Stage,
    action: TurnAction,
)
    requires
        starts(driver, request, next, action),
    ensures
        next is Ended <==> !request.has_tool_policy || !request.has_context,
        next is Ended ==> {
            &&& action matches TurnAction::Deliver(Err(failure))
            &&& failure.partial is None
            &&& failure.error matches DriverError::Message(told)
            &&& told@ == (if !request.has_tool_policy {
                "session turn is missing its request-scoped tool policy"@
            } else {
                "session turn is missing its request-scoped context"@
            })
        },
        request.has_tool_policy && request.has_context ==> {
            &&& action is BuildModels
            &&& next matches Stage::Modelling { turn }
            &&& turn.history == request.history
            &&& turn.declared_tools == request.declared_tools
            &&& turn.tools == request.tools
            &&& turn.synthesized_tools == request.synthesized_tools
            &&& turn.user_message@ == latest_user(said(request.history@))
            &&& turn.snapshot.pricing_model is Some
            &&& request.snapshot is None ==> turn.snapshot.request_base_len
                == request.history@.len() && turn.snapshot.pricing_model->0@ == driver.model_name@
        },
{
}

/// Once the models are built the graph runs, unless a source of tools is missing or a declared tool
/// is in neither; it is offered exactly the declared names, each once, within the bound of the
/// session, and images are read in where a model sees them and a message points at one. Models that
/// could not be built end the turn in their own words.
pub proof fn law_the_graph_runs_where_every_tool_has_a_source(
    driver: OpenHumanSessionDriver,
    turn: StartedTurn,
    built: Result<(bool, bool), String>,
    observed: SidecarView,
    next: Stage,
    action: TurnAction,
    after: SidecarView,
    name: Seq<char>,
)
    requires
        steps(
            driver,
            Stage::Modelling { turn },
            TurnEvent::ModelsBuilt(built),
            observed,
            next,
            action,
            after,
        ),
    ensures
        after == observed,
        built is Err ==> {
            &&& next is Ended
            &&& action matches TurnAction::Deliver(Err(failure))
            &&& failure.partial is None
            &&& failure.error matches DriverError::Message(told)
            &&& told@ == built->Err_0@
        },
        built is Ok && turn.tools is None ==> {
            &&& next is Ended
            &&& action matches TurnAction::Deliver(Err(failure))
            &&& failure.error matches DriverError::Message(told)
            &&& told@ == "session turn is missing request-scoped tools"@
        },
        built is Ok && turn.tools is Some && turn.synthesized_tools is None ==> {
            &&& next is Ended
            &&& action matches TurnAction::Deliver(Err(failure))
            &&& failure.error matches DriverError::Message(told)
            &&& told@ == "session turn is missing request-scoped synthesized tools"@
        },
        built is Ok && turn.tools is Some && turn.synthesized_tools is Some ==> {
            let sourced = forall|i: int|
                0 <= i < turn.declared_tools@.len() ==> texts(turn.tools->0@).contains(
                    (#[trigger] turn.declared_tools@[i])@,
                ) || texts(turn.synthesized_tools->0@).contains(turn.declared_tools@[i]@);
            &&& action is RunGraph <==> sourced
            &&& sourced ==> {
                let plan = action->RunGraph_plan;
                &&& next == Stage::Running { turn }
                &&& texts(plan.visible_tool_names@).no_duplicates()
                &&& texts(plan.visible_tool_names@).contains(name) <==> texts(
                    turn.declared_tools@,
                ).contains(name)
                &&& plan.max_iterations == driver.max_iterations
                &&& plan.rehydrate_images <==> (built->Ok_0.0 || driver.model_vision)
                    && built->Ok_0.1
            }
            &&& !sourced ==> {
                &&& next is Ended
                &&& action matches TurnAction::Deliver(Err(failure))
                &&& failure.partial is None
                &&& failure.error matches DriverError::Message(told)
                &&& exists|missing: Seq<Seq<char>>|
                    {
                        &&& missing.no_duplicates()
                        &&& missing.contains(name) <==> texts(turn.declared_tools@).contains(name)
                            && !texts(turn.tools->0@).contains(name) && !texts(
                            turn.synthesized_tools->0@,
                        ).contains(name)
                        &&& told@ == "session tool snapshot declares non-executable tools: "@
                            + #[trigger] joined(missing, ", "@)
                    }
            }
        },
{
    if built is Ok && turn.tools is Some && turn.synthesized_tools is Some {
        let declared = texts(turn.declared_tools@);
        law_admission_fails_closed(
            declared,
            texts(turn.tools->0@),
            texts(turn.synthesized_tools->0@),
        );
        law_every_declared_tool_is_offered_once(declared, name);
        assert forall|i: int| 0 <= i < declared.len() implies #[trigger] declared[i]
            == turn.declared_tools@[i]@ by {}
        if forall|i: int|
            0 <= i < turn.declared_tools@.len() ==> texts(turn.tools->0@).contains(
                (#[trigger] turn.declared_tools@[i])@,
            ) || texts(turn.synthesized_tools->0@).contains(turn.declared_tools@[i]@) {
            assert forall|i: int| 0 <= i < declared.len() implies texts(turn.tools->0@).contains(
                #[trigger] declared[i],
            ) || texts(turn.synthesized_tools->0@).contains(declared[i]) by {
                assert(declared[i] == turn.declared_tools@[i]@);
            }
        } else {
            let i = choose|i: int|
                0 <= i < turn.declared_tools@.len() && !(texts(turn.tools->0@).contains(
                    (#[trigger] turn.declared_tools@[i])@,
                ) || texts(turn.synthesized_tools->0@).contains(turn.declared_tools@[i]@));
            assert(declared[i] == turn.declared_tools@[i]@);
            let missing = unexecutable(
                distinct(declared),
                texts(turn.tools->0@),
                texts(turn.synthesized_tools->0@),
            );
            law_the_missing_tools_are_those_in_no_source(
                distinct(declared),
                texts(turn.tools->0@),
                texts(turn.synthesized_tools->0@),
                name,
            );
            assert(unexecutable_message(missing)
                == "session tool snapshot declares non-executable tools: "@ + joined(
                missing,
                ", "@,
            ));
        }
    }
}

/// A graph that came back with neither text nor a tool call fails the turn with the number of its
/// model calls. Any other outcome goes on to the close with its words and its usage as they are; an
/// answer of the model keeps its cap flag, silence is capped at the bound, and so is the fallback.
pub proof fn law_a_graph_outcome_goes_on_to_the_close(
    driver: OpenHumanSessionDriver,
    turn: StartedTurn,
    outcome: TurnOutcome,
    observed: SidecarView,
    next: Stage,
    action: TurnAction,
    after: SidecarView,
)
    requires
        steps(
            driver,
            Stage::Running { turn },
            TurnEvent::GraphEnded { outcome },
            observed,
            next,
            action,
            after,
        ),
    ensures
        after == observed,
        blank(outcome.text@) && outcome.tool_outcomes@.len() == 0 ==> {
            &&& next is Ended
            &&& action matches TurnAction::Deliver(Err(failure))
            &&& failure.partial is None
            &&& failure.error matches DriverError::EmptyProviderResponse { iteration }
            &&& iteration == outcome.model_calls
        },
        !blank(outcome.text@) || outcome.tool_outcomes@.len() > 0 ==> {
            &&& action is CloseIfNeeded
            &&& next matches Stage::Closing { history, user_message, outcome: kept }
            &&& history == turn.history
            &&& user_message == turn.user_message
            &&& kept.text == outcome.text
            &&& kept.model_calls == outcome.model_calls
            &&& kept.tool_calls == outcome.tool_calls
            &&& kept.input_tokens == outcome.input_tokens
            &&& kept.output_tokens == outcome.output_tokens
            &&& kept.cached_input_tokens == outcome.cached_input_tokens
            &&& kept.tool_outcomes == outcome.tool_outcomes
            &&& kept.early_exit_tool == outcome.early_exit_tool
            &&& kept.breaker_halt == outcome.breaker_halt
            &&& kept.resolved_route == outcome.resolved_route
            &&& begins_with(
                outcome.text@,
                "I finished this turn without writing up a result."@,
            ) ==> kept.hit_cap && !kept.wrap_up_injected
            &&& !begins_with(
                outcome.text@,
                "I finished this turn without writing up a result."@,
            ) ==> kept.wrap_up_injected == outcome.wrap_up_injected && kept.hit_cap == (
            outcome.hit_cap || (blank(outcome.text@) && (outcome.model_calls
                >= driver.max_iterations || outcome.tool_calls >= driver.max_iterations
                || outcome.tool_outcomes@.len() >= driver.max_iterations)))
        },
{
}

/// A graph that failed ends the turn with its error, and what it used is published: nothing is kept
/// where no message was observed, and otherwise exactly the accepted ones, as an interrupted
/// partial without a reply.
pub proof fn law_a_failed_graph_ends_the_turn(
    driver: OpenHumanSessionDriver,
    turn: StartedTurn,
    error: String,
    snapshot: TranscriptSnapshot,
    rendering: FailureRendering,
    elapsed_nanos: u128,
    observed: SidecarView,
    next: Stage,
    action: TurnAction,
    after: SidecarView,
)
    requires
        accepted_within(snapshot, rendering),
        steps(
            driver,
            Stage::Running { turn },
            TurnEvent::GraphFailed { error, snapshot, rendering, elapsed_nanos },
            observed,
            next,
            action,
            after,
        ),
    ensures
        next is Ended,
        action is Deliver && action->Deliver_0 is Err,
        action->Deliver_0->Err_0.error matches DriverError::Message(told) && told@ == error@,
        snapshot.messages@.len() == 0 <==> action->Deliver_0->Err_0.partial is None,
        snapshot.messages@.len() > 0 ==> {
            let kept = action->Deliver_0->Err_0.partial->0;
            &&& said(kept.history@) == said(snapshot.messages@).subrange(
                0,
                rendering.accepted_end as int,
            )
            &&& kept.output is None
            &&& kept.interrupted
        },
        after.model_calls == snapshot.model_calls,
        after.tool_calls == snapshot.tool_outcomes@.len(),
        after.input_tokens == snapshot.input_tokens,
        after.output_tokens == snapshot.output_tokens,
        after.cached_input_tokens == snapshot.cached_input_tokens,
        after.duration_nanos == Some(elapsed_nanos),
        after.hit_cap == observed.hit_cap,
        after.wrap_up_injected == observed.wrap_up_injected,
{
    if snapshot.messages@.len() > 0 {
        assert(said(snapshot.messages@).take(rendering.accepted_end as int) =~= said(
            snapshot.messages@,
        ).subrange(0, rendering.accepted_end as int));
    }
}

/// The reply is the closing call's where one was made and the graph's own otherwise; it gives way to
/// a checkpoint exactly where the graph wrote nothing and the reply is the fallback.
pub proof fn law_a_checkpoint_stands_in_for_the_fallback_only(
    driver: OpenHumanSessionDriver,
    history: Vec<Message>,
    user_message: String,
    outcome: TurnOutcome,
    close: Option<GroundedClose>,
    observed: SidecarView,
    next: Stage,
    action: TurnAction,
    after: SidecarView,
)
    requires
        steps(
            driver,
            Stage::Closing { history, user_message, outcome },
            TurnEvent::Closed { close },
            observed,
            next,
            action,
            after,
        ),
    ensures
        after == observed,
        ({
            let reply = match close {
                Some(made) => made.output@,
                None => outcome.text@,
            };
            let falls_back = blank(outcome.text@) && begins_with(
                reply,
                "I finished this turn without writing up a result."@,
            );
            let turn = if falls_back {
                next->Checkpointing_reply
            } else {
                next->Converting_reply
            };
            let kept = if falls_back {
                next->Checkpointing_outcome
            } else {
                next->Converting_outcome
            };
            &&& action is WriteCheckpoint <==> falls_back
            &&& action is ConvertRounds <==> !falls_back
            &&& next is Checkpointing <==> falls_back
            &&& next is Converting <==> !falls_back
            &&& kept == outcome
            &&& turn.output@ == reply
            &&& turn.closed == close is Some
            &&& said(turn.history@) == said(history@)
            &&& close is Some ==> turn.close_usage == close->0.usage
            &&& close is None ==> turn.close_usage.model_calls == 0
                && turn.close_usage.input_tokens == 0 && turn.close_usage.output_tokens == 0
                && turn.close_usage.cached_input_tokens == 0
        }),
{
}

/// A checkpoint becomes the reply, word for word, and changes nothing else.
pub proof fn law_a_checkpoint_becomes_the_reply(
    driver: OpenHumanSessionDriver,
    reply: ReplyingTurn,
    outcome: TurnOutcome,
    text: String,
    observed: SidecarView,
    next: Stage,
    action: TurnAction,
    after: SidecarView,
)
    requires
        steps(
            driver,
            Stage::Checkpointing { reply, outcome },
            TurnEvent::CheckpointWritten { text },
            observed,
            next,
            action,
            after,
        ),
    ensures
        after == observed,
        action is ConvertRounds,
        next matches Stage::Converting { reply: turn, outcome: kept } && kept == outcome
            && turn.output@ == text@ && said(turn.history@) == said(reply.history@) && turn.closed
            == reply.closed && turn.close_usage == reply.close_usage && turn.repair_usage
            == reply.repair_usage,
{
}

/// Every round of the graph follows the history, the reply of a closing call in place of a final
/// assistant message. Then a required output is asked for: nothing where none is required, a check
/// where a breaker stopped the turn over a classified failure, and otherwise a repair.
pub proof fn law_the_rounds_are_kept_and_the_output_is_asked_for(
    driver: OpenHumanSessionDriver,
    reply: ReplyingTurn,
    outcome: TurnOutcome,
    rounds: Vec<Message>,
    required: bool,
    has_progress: bool,
    observed: SidecarView,
    next: Stage,
    action: TurnAction,
    after: SidecarView,
)
    requires
        steps(
            driver,
            Stage::Converting { reply, outcome },
            TurnEvent::RoundsConverted { rounds, required, has_progress },
            observed,
            next,
            action,
            after,
        ),
    ensures
        after == observed,
        ({
            let halted = outcome.breaker_halt is Some && begins_with(
                outcome.breaker_halt->0@,
                "Stopping after "@,
            );
            let (turn, kept) = match next {
                Stage::Finishing { reply: t, outcome: o } => (t, o),
                Stage::Completing { reply: t, outcome: o } => (t, o),
                Stage::Repairing { reply: t, outcome: o } => (t, o),
                _ => (reply, outcome),
            };
            &&& next is Finishing <==> !required
            &&& next is Completing <==> required && halted
            &&& next is Repairing <==> required && !halted
            &&& action is MeasureDuration <==> !required
            &&& action is CheckRequiredOutput <==> required && halted
            &&& action is RepairRequiredOutput <==> required && !halted
            &&& action is RepairRequiredOutput ==> action->stream == (has_progress
                && !reply.closed) && (outcome.model_calls < u32::MAX ==> action->iteration
                == outcome.model_calls + 1)
            &&& kept == outcome
            &&& turn.output@ == reply.output@
            &&& turn.closed == reply.closed
            &&& turn.close_usage == reply.close_usage
            &&& turn.repair_usage == reply.repair_usage
            &&& !reply.closed ==> said(turn.history@) == said(reply.history@) + said(rounds@)
            &&& reply.closed ==> said(turn.history@) == said(reply.history@) + with_reply(
                said(rounds@),
                reply.output@,
            )
        }),
{
}

/// A reply that holds the required output stays as it is, one that lacks it is continued with the
/// block, and a repair that was written takes its place; the history ends with the reply that was
/// written.
pub proof fn law_a_reply_is_completed_or_repaired(
    driver: OpenHumanSessionDriver,
    reply: ReplyingTurn,
    outcome: TurnOutcome,
    satisfied: bool,
    block: String,
    repair: Option<GroundedClose>,
    observed: SidecarView,
    next: Stage,
    action: TurnAction,
    after: SidecarView,
)
    ensures
        steps(
            driver,
            Stage::Completing { reply, outcome },
            TurnEvent::OutputChecked { satisfied, block },
            observed,
            next,
            action,
            after,
        ) ==> {
            &&& after == observed
            &&& action is MeasureDuration
            &&& next matches Stage::Finishing { reply: turn, outcome: kept }
            &&& kept == outcome
            &&& turn.close_usage == reply.close_usage
            &&& turn.repair_usage == reply.repair_usage
            &&& satisfied ==> turn.output@ == reply.output@ && said(turn.history@) == said(
                reply.history@,
            )
            &&& !satisfied ==> turn.output@ == reply.output@ + "\n\n"@ + block@ && said(
                turn.history@,
            ) == with_reply(said(reply.history@), turn.output@)
        },
        steps(
            driver,
            Stage::Repairing { reply, outcome },
            TurnEvent::Repaired { repair },
            observed,
            next,
            action,
            after,
        ) ==> {
            &&& after == observed
            &&& action is MeasureDuration
            &&& next matches Stage::Finishing { reply: turn, outcome: kept }
            &&& kept == outcome
            &&& turn.close_usage == reply.close_usage
            &&& repair is None ==> turn.output@ == reply.output@ && said(turn.history@) == said(
                reply.history@,
            ) && turn.repair_usage == reply.repair_usage
            &&& repair is Some ==> turn.output@ == repair->0.output@ && said(turn.history@)
                == with_reply(said(reply.history@), repair->0.output@) && turn.repair_usage
                == repair->0.usage
        },
{
}

/// A finished turn hands over its reply and its bounded history, interrupted exactly where the loop
/// was capped or a tool ended it early, and publishes what the graph, the closing call and the
/// repair used together.
pub proof fn law_a_finished_turn_is_handed_over_and_published(
    driver: OpenHumanSessionDriver,
    reply: ReplyingTurn,
    outcome: TurnOutcome,
    elapsed_nanos: u128,
    observed: SidecarView,
    next: Stage,
    action: TurnAction,
    after: SidecarView,
)
    requires
        steps(
            driver,
            Stage::Finishing { reply, outcome },
            TurnEvent::Measured { elapsed_nanos },
            observed,
            next,
            action,
            after,
        ),
    ensures
        next is Ended,
        action matches TurnAction::Deliver(Ok(done)) && done.output is Some && done.output->0@
            == reply.output@ && done.partial is None && said(done.history@) == trimmed(
            said(reply.history@),
            driver.max_history_messages as nat,
        ) && done.interrupted == (outcome.hit_cap || outcome.early_exit_tool is Some),
        after.model_calls == outcome.model_calls + reply.close_usage.model_calls
            + reply.repair_usage.model_calls,
        after.tool_calls == outcome.tool_calls,
        after.input_tokens == outcome.input_tokens + reply.close_usage.input_tokens
            + reply.repair_usage.input_tokens,
        after.output_tokens == outcome.output_tokens + reply.close_usage.output_tokens
            + reply.repair_usage.output_tokens,
        after.cached_input_tokens == outcome.cached_input_tokens
            + reply.close_usage.cached_input_tokens + reply.repair_usage.cached_input_tokens,
        after.cost is Charged,
        after.duration_nanos == Some(elapsed_nanos),
        after.tool_outcomes == outcome.tool_outcomes@,
        after.hit_cap == outcome.hit_cap,
        after.wrap_up_injected == outcome.wrap_up_injected,
        after.resolved_route == outcome.resolved_route,
{
}

/// A step fits the machine but for two: the accepted messages of a failed graph must end within
/// what was observed, and the summed usage of a finished turn must fit a machine word.
pub proof fn law_only_two_steps_can_be_too_large(stage: Stage, event: TurnEvent)
    ensures
        !fits(stage, event) ==> (stage is Running && event is GraphFailed) || (stage is Finishing
            && event is Measured),
        stage is Running && event is GraphFailed ==> (fits(stage, event) <==>
            event->GraphFailed_snapshot.messages@.len() == 0
            || event->GraphFailed_rendering.accepted_end
            <= event->GraphFailed_snapshot.messages@.len()),
        stage is Finishing && event is Measured ==> (fits(stage, event) <==> {
            let reply = stage->Finishing_reply;
            let outcome = stage->Finishing_outcome;
            &&& outcome.model_calls + reply.close_usage.model_calls
                + reply.repair_usage.model_calls <= usize::MAX
            &&& outcome.input_tokens + reply.close_usage.input_tokens
                + reply.repair_usage.input_tokens <= u64::MAX
            &&& outcome.output_tokens + reply.close_usage.output_tokens
                + reply.repair_usage.output_tokens <= u64::MAX
            &&& outcome.cached_input_tokens + reply.close_usage.cached_input_tokens
                + reply.repair_usage.cached_input_tokens <= u64::MAX
        }),
{
}

/// Each stage waits for its own event, the running graph for either of two, and a turn that is over
/// for none; any other event changes nothing.
pub proof fn law_each_stage_waits_for_its_own_event(
    driver: OpenHumanSessionDriver,
    stage: Stage,
    event: TurnEvent,
    observed: SidecarView,
    next: Stage,
    action: TurnAction,
    after: SidecarView,
)
    requires
        steps(driver, stage, event, observed, next, action, after),
    ensures
        action is Unexpected <==> !({
            ||| stage is Modelling && event is ModelsBuilt
            ||| stage is Running && (event is GraphEnded || event is GraphFailed)
            ||| stage is Closing && event is Closed
            ||| stage is Checkpointing && event is CheckpointWritten
            ||| stage is Converting && event is RoundsConverted
            ||| stage is Completing && event is OutputChecked
            ||| stage is Repairing && event is Repaired
            ||| stage is Finishing && event is Measured
        }),
        action is Unexpected ==> next == stage && after == observed,
{
}

} // verus!
