//! The stages of a turn: admission, the plan of the graph run, the settled outcome, the reply and
//! the finished turn.

use crate::session::snapshot::{
    copy_outcomes, copy_route, CostBasis, CostBasisView, ResolvedRoute, SessionTurnSidecar,
    SidecarView, ToolCallOutcome, TranscriptSnapshot,
};
use crate::session::failure::{
    bare_failure, driver_failure, failure_of, DriverError, DriverErrorView, DriverFailure,
    DriverOutcome, DriverOutcomeView,
};
use crate::session::messages::{
    latest_user, latest_user_text, replace_reply, said, spoken, trim_history, trimmed, with_reply,
    Message, MessageView, Role,
};
use crate::session::tools::{
    distinct, ensure_snapshot_tools_are_executable, unexecutable, unexecutable_message,
    visible_tool_names,
};
use crate::text::{
    begins_with, blank, is_blank, law_blank_texts_are_white_space, opt_text, starts_with, texts,
};
use vstd::prelude::*;

verus! {

/// How the reply of a loop opens that used up a tool round without a model conclusion.
pub const EXHAUSTED_FALLBACK: &'static str = "I finished this turn without writing up a result.";

/// How a breaker names a halt whose failure it has classified.
pub const CLASSIFIED_HALT: &'static str = "Stopping after ";

/// The settings of a session that outlive a turn.
#[derive(Debug)]
pub struct OpenHumanSessionDriver {
    pub model_name: String,
    pub max_iterations: usize,
    pub max_history_messages: usize,
    pub model_vision: bool,
}

/// What a request brings to a turn. The tools are known by name: those declared to the provider,
/// and those of the two executable sources where the request has them.
#[derive(Debug)]
pub struct TurnRequest {
    pub history: Vec<Message>,
    pub has_tool_policy: bool,
    pub has_context: bool,
    pub declared_tools: Vec<String>,
    pub tools: Option<Vec<String>>,
    pub synthesized_tools: Option<Vec<String>>,
    pub snapshot: Option<TranscriptSnapshot>,
}

/// A turn whose request was admitted.
#[derive(Debug)]
pub struct StartedTurn {
    pub history: Vec<Message>,
    pub declared_tools: Vec<String>,
    pub tools: Option<Vec<String>>,
    pub synthesized_tools: Option<Vec<String>>,
    pub snapshot: TranscriptSnapshot,
    pub user_message: String,
}

/// What the graph is run with.
#[derive(Debug)]
pub struct GraphPlan {
    pub rehydrate_images: bool,
    pub visible_tool_names: Vec<String>,
    pub max_iterations: usize,
}

/// What the graph gave back.
#[derive(Debug)]
pub struct TurnOutcome {
    pub text: String,
    pub resolved_route: Option<ResolvedRoute>,
    pub model_calls: usize,
    pub tool_calls: usize,
    pub input_tokens: u64,
    pub output_tokens: u64,
    pub cached_input_tokens: u64,
    pub early_exit_tool: Option<String>,
    pub hit_cap: bool,
    pub wrap_up_injected: bool,
    pub breaker_halt: Option<String>,
    pub tool_outcomes: Vec<ToolCallOutcome>,
}

/// What a closing call cost.
#[derive(Clone, Copy, Debug, PartialEq, Eq)]
pub struct Usage {
    pub model_calls: usize,
    pub input_tokens: u64,
    pub output_tokens: u64,
    pub cached_input_tokens: u64,
}

/// Nothing was used.
pub open spec fn no_usage() -> Usage {
    Usage { model_calls: 0, input_tokens: 0, output_tokens: 0, cached_input_tokens: 0 }
}

/// A reply that a closing call or a repair wrote in place of the graph's own.
#[derive(Debug)]
pub struct GroundedClose {
    pub output: String,
    pub usage: Usage,
}

/// What the usage of an optional call is.
pub open spec fn usage_of(call: Option<GroundedClose>) -> Usage {
    match call {
        Some(made) => made.usage,
        None => no_usage(),
    }
}

/// The complaint about a request without a tool policy of its own.
pub open spec fn missing_policy() -> Seq<char> {
    "session turn is missing its request-scoped tool policy"@
}

/// The complaint about a request without a context of its own.
pub open spec fn missing_context() -> Seq<char> {
    "session turn is missing its request-scoped context"@
}

/// The complaint about a request without tools of its own.
pub open spec fn missing_tools() -> Seq<char> {
    "session turn is missing request-scoped tools"@
}

/// The complaint about a request without synthesized tools of its own.
pub open spec fn missing_synthesized_tools() -> Seq<char> {
    "session turn is missing request-scoped synthesized tools"@
}

/// The snapshot a turn works on: the request's own or an untouched one, priced at the session's
/// model unless it already names a model.
pub open spec fn opened_snapshot(
    given: Option<TranscriptSnapshot>,
    base: nat,
    model_name: Seq<char>,
    opened: TranscriptSnapshot,
) -> bool {
    match given {
        Some(own) => {
            &&& opened == TranscriptSnapshot { pricing_model: opened.pricing_model, ..own }
            &&& opt_text(opened.pricing_model) == match own.pricing_model {
                Some(known) => Some(known@),
                None => Some(model_name),
            }
        },
        None => opened.untouched(base) && opt_text(opened.pricing_model) == Some(model_name),
    }
}

/// The reply is the words of a loop that ran out, not a model's conclusion.
pub open spec fn fell_back(outcome: TurnOutcome) -> bool {
    begins_with(outcome.text@, EXHAUSTED_FALLBACK@)
}

/// Neither text nor a tool call came back.
pub open spec fn came_back_empty(outcome: TurnOutcome) -> bool {
    blank(outcome.text@) && outcome.tool_outcomes@.len() == 0
}

/// The loop ended at its bound: it says so, it used its iterations up without a usable reply, or
/// its reply is the fallback.
pub open spec fn capped(outcome: TurnOutcome, max_iterations: nat) -> bool {
    ||| outcome.hit_cap
    ||| blank(outcome.text@) && (outcome.model_calls >= max_iterations || outcome.tool_calls
        >= max_iterations || outcome.tool_outcomes@.len() >= max_iterations)
    ||| fell_back(outcome)
}

/// An outcome with its cap flags normalised.
pub open spec fn settled(outcome: TurnOutcome, max_iterations: nat) -> TurnOutcome {
    TurnOutcome {
        hit_cap: capped(outcome, max_iterations),
        wrap_up_injected: outcome.wrap_up_injected && !fell_back(outcome),
        ..outcome
    }
}

/// A breaker stopped the turn over a failure that it classified.
pub open spec fn classified_halt(outcome: TurnOutcome) -> bool {
    match outcome.breaker_halt {
        Some(reason) => begins_with(reason@, CLASSIFIED_HALT@),
        None => false,
    }
}

impl OpenHumanSessionDriver {
    /// A driver with these settings.
    pub fn new(
        model_name: String,
        max_iterations: usize,
        max_history_messages: usize,
        model_vision: bool,
    ) -> (r: Self)
        ensures
            r == (OpenHumanSessionDriver {
                model_name,
                max_iterations,
                max_history_messages,
                model_vision,
            }),
    {
        OpenHumanSessionDriver { model_name, max_iterations, max_history_messages, model_vision }
    }

    /// Admit a request: it must bring its own tool policy and its own context.
    pub fn begin(&self, request: TurnRequest) -> (r: Result<StartedTurn, DriverFailure>)
        ensures
            match r {
                Ok(turn) => {
                    &&& request.has_tool_policy && request.has_context
                    &&& turn.history == request.history
                    &&& turn.declared_tools == request.declared_tools
                    &&& turn.tools == request.tools
                    &&& turn.synthesized_tools == request.synthesized_tools
                    &&& opened_snapshot(
                        request.snapshot,
                        request.history@.len(),
                        self.model_name@,
                        turn.snapshot,
                    )
                    &&& turn.user_message@ == latest_user(said(request.history@))
                },
                Err(failure) => if !request.has_tool_policy {
                    failure@ == failure_of(missing_policy())
                } else {
                    !request.has_context && failure@ == failure_of(missing_context())
                },
            },
    {
        if !request.has_tool_policy {
            return Err(driver_failure("session turn is missing its request-scoped tool policy"));
        }
        if !request.has_context {
            return Err(driver_failure("session turn is missing its request-scoped context"));
        }
        let mut snapshot: TranscriptSnapshot = match request.snapshot {
            Some(own) => own,
            None => {
                let mut fresh: TranscriptSnapshot = TranscriptSnapshot::default();
                fresh.request_base_len = request.history.len();
                fresh
            },
        };
        if snapshot.pricing_model.is_none() {
            snapshot.pricing_model = Some(self.model_name.clone());
        }
        let user_message: String = latest_user_text(&request.history);
        Ok(
            StartedTurn {
                history: request.history,
                declared_tools: request.declared_tools,
                tools: request.tools,
                synthesized_tools: request.synthesized_tools,
                snapshot,
                user_message,
            },
        )
    }

    /// Plan the graph run: both tool sources must be there, and every declared tool in one of them.
    /// Images are read back in where the model sees images and the messages point at some.
    pub fn plan(
        &self,
        turn: &StartedTurn,
        supports_vision: bool,
        has_image_placeholders: bool,
    ) -> (r: Result<GraphPlan, DriverFailure>)
        ensures
            match (turn.tools, turn.synthesized_tools) {
                (None, _) => r is Err && r->Err_0@ == failure_of(missing_tools()),
                (Some(_), None) => r is Err && r->Err_0@ == failure_of(
                    missing_synthesized_tools(),
                ),
                (Some(tools), Some(synthesized)) => {
                    let visible = distinct(texts(turn.declared_tools@));
                    let missing = unexecutable(visible, texts(tools@), texts(synthesized@));
                    match r {
                        Ok(plan) => {
                            &&& missing.len() == 0
                            &&& plan.rehydrate_images == ((supports_vision || self.model_vision)
                                && has_image_placeholders)
                            &&& texts(plan.visible_tool_names@) == visible
                            &&& plan.max_iterations == self.max_iterations
                        },
                        Err(failure) => missing.len() > 0 && failure@ == failure_of(
                            unexecutable_message(missing),
                        ),
                    }
                },
            },
    {
        match &turn.tools {
            None => Err(driver_failure("session turn is missing request-scoped tools")),
            Some(tools) => match &turn.synthesized_tools {
                None => Err(
                    driver_failure("session turn is missing request-scoped synthesized tools"),
                ),
                Some(synthesized) => {
                    let visible: Vec<String> = visible_tool_names(&turn.declared_tools);
                    match ensure_snapshot_tools_are_executable(&visible, tools, synthesized) {
                        Err(failure) => Err(failure),
                        Ok(_) => Ok(
                            GraphPlan {
                                rehydrate_images: (supports_vision || self.model_vision)
                                    && has_image_placeholders,
                                visible_tool_names: visible,
                                max_iterations: self.max_iterations,
                            },
                        ),
                    }
                },
            },
        }
    }

    /// Refuse an outcome with nothing in it, and normalise the cap flags of any other.
    pub fn settle(&self, outcome: &mut TurnOutcome) -> (r: Result<(), DriverFailure>)
        ensures
            r is Err <==> came_back_empty(*old(outcome)),
            r is Err ==> {
                &&& r->Err_0@ == bare_failure(
                    DriverErrorView::EmptyProviderResponse {
                        iteration: old(outcome).model_calls as nat,
                    },
                )
                &&& *final(outcome) == *old(outcome)
            },
            r is Ok ==> *final(outcome) == settled(*old(outcome), self.max_iterations as nat),
    {
        let silent: bool = is_blank(outcome.text.as_str());
        if silent && outcome.tool_outcomes.len() == 0 {
            return Err(
                DriverFailure {
                    error: DriverError::EmptyProviderResponse { iteration: outcome.model_calls },
                    partial: None,
                },
            );
        }
        let fallback: bool = starts_with(outcome.text.as_str(), EXHAUSTED_FALLBACK);
        let exhausted: bool = silent && (outcome.model_calls >= self.max_iterations
            || outcome.tool_calls >= self.max_iterations || outcome.tool_outcomes.len()
            >= self.max_iterations);
        outcome.hit_cap = outcome.hit_cap || exhausted || fallback;
        if fallback {
            outcome.wrap_up_injected = false;
        }
        Ok(())
    }
}

/// A turn whose reply is being put together: the durable history so far, the reply, whether a
/// closing call wrote it, and what the closing call and a repair used.
#[derive(Debug)]
pub struct ReplyingTurn {
    pub history: Vec<Message>,
    pub output: String,
    pub closed: bool,
    pub close_usage: Usage,
    pub repair_usage: Usage,
}

/// What a [`ReplyingTurn`] says.
pub struct ReplyingTurnView {
    pub history: Seq<MessageView>,
    pub output: Seq<char>,
    pub closed: bool,
    pub close_usage: Usage,
    pub repair_usage: Usage,
}

impl View for ReplyingTurn {
    type V = ReplyingTurnView;

    open spec fn view(&self) -> ReplyingTurnView {
        ReplyingTurnView {
            history: said(self.history@),
            output: self.output@,
            closed: self.closed,
            close_usage: self.close_usage,
            repair_usage: self.repair_usage,
        }
    }
}

/// What a required output asks for.
#[derive(Clone, Copy, Debug, PartialEq, Eq)]
pub enum RequiredOutputStep {
    /// Nothing is required.
    Nothing,
    /// Check the reply, and complete it from what is known: the turn halted over a classified
    /// failure, so no further call is made.
    Complete,
    /// Ask for a repair, as this iteration; `stream` says whether its progress is shown.
    Repair { stream: bool, iteration: u32 },
}

impl ReplyingTurnView {
    /// The history ends with the reply.
    pub open spec fn replied(self) -> bool {
        self.history.len() > 0 && self.history.last() == spoken(Role::Assistant, self.output)
    }

    /// The turn once the rounds of the graph are appended. A closing call's reply stands in for
    /// the final assistant message of the rounds.
    pub open spec fn appended(self, rounds: Seq<MessageView>) -> ReplyingTurnView {
        ReplyingTurnView {
            history: self.history + (if self.closed {
                with_reply(rounds, self.output)
            } else {
                rounds
            }),
            ..self
        }
    }

    /// The turn with `output` as its reply, in the history too.
    pub open spec fn replying(self, output: Seq<char>) -> ReplyingTurnView {
        ReplyingTurnView { output, history: with_reply(self.history, output), ..self }
    }

    /// The turn once a required output was checked: a reply that lacks it is completed with
    /// `block`.
    pub open spec fn completed(self, satisfied: bool, block: Seq<char>) -> ReplyingTurnView {
        if satisfied {
            self
        } else {
            self.replying(self.output + "\n\n"@ + block)
        }
    }

    /// The turn once a repair was asked for.
    pub open spec fn repaired(self, repair: Option<GroundedClose>) -> ReplyingTurnView {
        match repair {
            Some(made) => ReplyingTurnView {
                repair_usage: made.usage,
                ..self.replying(made.output@)
            },
            None => self,
        }
    }

    /// The step that a required output asks of this turn.
    pub open spec fn required_step(
        self,
        required: bool,
        has_progress: bool,
        outcome: TurnOutcome,
    ) -> RequiredOutputStep {
        if !required {
            RequiredOutputStep::Nothing
        } else if classified_halt(outcome) {
            RequiredOutputStep::Complete
        } else {
            RequiredOutputStep::Repair {
                stream: !self.closed && has_progress,
                iteration: (if outcome.model_calls < usize::MAX {
                    outcome.model_calls + 1
                } else {
                    usize::MAX as int
                }) as u32,
            }
        }
    }

    /// What the turn hands to the session.
    pub open spec fn finished(self, max_history: nat, outcome: TurnOutcome) -> DriverOutcomeView {
        DriverOutcomeView {
            history: trimmed(self.history, max_history),
            output: Some(self.output),
            partial: None,
            interrupted: outcome.early_exit_tool is Some || outcome.hit_cap,
        }
    }

    /// The usage of the graph, the closing call and the repair together fits a machine word.
    pub open spec fn usage_fits(self, outcome: TurnOutcome) -> bool {
        &&& outcome.model_calls + self.close_usage.model_calls + self.repair_usage.model_calls
            <= usize::MAX
        &&& outcome.input_tokens + self.close_usage.input_tokens + self.repair_usage.input_tokens
            <= u64::MAX
        &&& outcome.output_tokens + self.close_usage.output_tokens + self.repair_usage.output_tokens
            <= u64::MAX
        &&& outcome.cached_input_tokens + self.close_usage.cached_input_tokens
            + self.repair_usage.cached_input_tokens <= u64::MAX
    }

    /// The observation of the finished turn.
    pub open spec fn observed(self, outcome: TurnOutcome, elapsed_nanos: u128) -> SidecarView {
        SidecarView {
            model_calls: (outcome.model_calls + self.close_usage.model_calls
                + self.repair_usage.model_calls) as nat,
            tool_calls: outcome.tool_calls as nat,
            input_tokens: (outcome.input_tokens + self.close_usage.input_tokens
                + self.repair_usage.input_tokens) as nat,
            output_tokens: (outcome.output_tokens + self.close_usage.output_tokens
                + self.repair_usage.output_tokens) as nat,
            cached_input_tokens: (outcome.cached_input_tokens
                + self.close_usage.cached_input_tokens
                + self.repair_usage.cached_input_tokens) as nat,
            cost: CostBasisView::Charged,
            duration_nanos: Some(elapsed_nanos),
            tool_outcomes: outcome.tool_outcomes@,
            hit_cap: outcome.hit_cap,
            wrap_up_injected: outcome.wrap_up_injected,
            resolved_route: outcome.resolved_route,
        }
    }
}

/// The reply of a settled outcome as it is opened: the closing call's words where one was made,
/// the graph's own otherwise.
pub open spec fn opened_reply(
    history: Seq<MessageView>,
    outcome: TurnOutcome,
    close: Option<GroundedClose>,
) -> ReplyingTurnView {
    ReplyingTurnView {
        history,
        output: match close {
            Some(made) => made.output@,
            None => outcome.text@,
        },
        closed: close is Some,
        close_usage: usage_of(close),
        repair_usage: no_usage(),
    }
}

impl ReplyingTurn {
    /// Open the reply of a settled outcome: the closing call's words where one was made, the
    /// graph's own otherwise.
    pub fn open(
        history: Vec<Message>,
        outcome: &TurnOutcome,
        close: Option<GroundedClose>,
    ) -> (r: ReplyingTurn)
        ensures
            r@ == opened_reply(said(history@), *outcome, close),
    {
        let none: Usage = Usage {
            model_calls: 0,
            input_tokens: 0,
            output_tokens: 0,
            cached_input_tokens: 0,
        };
        match close {
            Some(made) => ReplyingTurn {
                history,
                output: made.output,
                closed: true,
                close_usage: made.usage,
                repair_usage: none,
            },
            None => ReplyingTurn {
                history,
                output: outcome.text.clone(),
                closed: false,
                close_usage: none,
                repair_usage: none,
            },
        }
    }

    /// Whether the reply must give way to an explicit checkpoint: the graph wrote nothing and the
    /// reply is the fallback of a loop that ran out.
    pub fn needs_checkpoint(&self, outcome: &TurnOutcome) -> (r: bool)
        ensures
            r == (blank(outcome.text@) && begins_with(self@.output, EXHAUSTED_FALLBACK@)),
    {
        is_blank(outcome.text.as_str()) && starts_with(self.output.as_str(), EXHAUSTED_FALLBACK)
    }

    /// Take a checkpoint as the reply.
    pub fn checkpoint(&mut self, text: String)
        ensures
            final(self)@ == (ReplyingTurnView { output: text@, ..old(self)@ }),
    {
        self.output = text;
    }

    /// Append the rounds of the graph to the history.
    pub fn append_rounds(&mut self, rounds: Vec<Message>)
        ensures
            final(self)@ == old(self)@.appended(said(rounds@)),
    {
        let mut rounds: Vec<Message> = rounds;
        let ghost before = self.history@;
        if self.closed {
            replace_reply(&mut rounds, self.output.as_str());
        }
        let ghost tail = rounds@;
        self.history.append(&mut rounds);
        assert(said(self.history@) =~= said(before) + said(tail));
    }

    /// What a required output asks of this turn.
    pub fn required_output(
        &self,
        required: bool,
        has_progress: bool,
        outcome: &TurnOutcome,
    ) -> (r: RequiredOutputStep)
        ensures
            r == self@.required_step(required, has_progress, *outcome),
    {
        if !required {
            return RequiredOutputStep::Nothing;
        }
        let halted: bool = match &outcome.breaker_halt {
            Some(reason) => starts_with(reason.as_str(), CLASSIFIED_HALT),
            None => false,
        };
        if halted {
            RequiredOutputStep::Complete
        } else {
            let next: usize = if outcome.model_calls < usize::MAX {
                outcome.model_calls + 1
            } else {
                usize::MAX
            };
            RequiredOutputStep::Repair {
                stream: !self.closed && has_progress,
                iteration: #[verifier::truncate]
                (next as u32),
            }
        }
    }

    /// Complete a reply that lacks its required output with `block`.
    pub fn complete(&mut self, satisfied: bool, block: &str)
        ensures
            final(self)@ == old(self)@.completed(satisfied, block@),
    {
        if !satisfied {
            self.output.append("\n\n");
            self.output.append(block);
            replace_reply(&mut self.history, self.output.as_str());
        }
    }

    /// Take a repaired reply, where the repair gave one.
    pub fn repair(&mut self, repair: Option<GroundedClose>)
        ensures
            final(self)@ == old(self)@.repaired(repair),
    {
        if let Some(made) = repair {
            self.output = made.output;
            self.repair_usage = made.usage;
            replace_reply(&mut self.history, self.output.as_str());
        }
    }

    /// Whether the usage of the graph, the closing call and the repair together fits.
    pub fn sums_fit(&self, outcome: &TurnOutcome) -> (r: bool)
        ensures
            r == self@.usage_fits(*outcome),
    {
        let calls: u128 = outcome.model_calls as u128 + self.close_usage.model_calls as u128
            + self.repair_usage.model_calls as u128;
        let read: u128 = outcome.input_tokens as u128 + self.close_usage.input_tokens as u128
            + self.repair_usage.input_tokens as u128;
        let written: u128 = outcome.output_tokens as u128 + self.close_usage.output_tokens as u128
            + self.repair_usage.output_tokens as u128;
        let cached: u128 = outcome.cached_input_tokens as u128
            + self.close_usage.cached_input_tokens as u128
            + self.repair_usage.cached_input_tokens as u128;
        calls <= usize::MAX as u128 && read <= u64::MAX as u128 && written <= u64::MAX as u128
            && cached <= u64::MAX as u128
    }

    /// Finish the turn: bound the history, record the observation, and hand the outcome over.
    pub fn finish(
        self,
        max_history_messages: usize,
        outcome: &TurnOutcome,
        elapsed_nanos: u128,
        sidecar: &mut SessionTurnSidecar,
    ) -> (r: DriverOutcome)
        requires
            self@.usage_fits(*outcome),
        ensures
            r@ == self@.finished(max_history_messages as nat, *outcome),
            final(sidecar)@ == self@.observed(*outcome, elapsed_nanos),
    {
        let mut history: Vec<Message> = self.history;
        trim_history(&mut history, max_history_messages);
        sidecar.model_calls = outcome.model_calls + self.close_usage.model_calls
            + self.repair_usage.model_calls;
        sidecar.tool_calls = outcome.tool_calls;
        sidecar.input_tokens = outcome.input_tokens + self.close_usage.input_tokens
            + self.repair_usage.input_tokens;
        sidecar.output_tokens = outcome.output_tokens + self.close_usage.output_tokens
            + self.repair_usage.output_tokens;
        sidecar.cached_input_tokens = outcome.cached_input_tokens
            + self.close_usage.cached_input_tokens + self.repair_usage.cached_input_tokens;
        sidecar.cost = CostBasis::Charged;
        sidecar.duration_nanos = Some(elapsed_nanos);
        sidecar.tool_outcomes = copy_outcomes(&outcome.tool_outcomes);
        sidecar.hit_cap = outcome.hit_cap;
        sidecar.wrap_up_injected = outcome.wrap_up_injected;
        sidecar.resolved_route = copy_route(&outcome.resolved_route);
        DriverOutcome {
            history,
            output: Some(self.output),
            partial: None,
            interrupted: outcome.early_exit_tool.is_some() || outcome.hit_cap,
        }
    }
}

/// Settling never clears a reported cap, is stable, and gives the fallback reply the flags of a
/// resumable cap, which interrupts the turn.
pub proof fn law_settling_normalises_the_cap(outcome: TurnOutcome, max_iterations: nat)
    ensures
        outcome.hit_cap ==> settled(outcome, max_iterations).hit_cap,
        settled(settled(outcome, max_iterations), max_iterations) == settled(
            outcome,
            max_iterations,
        ),
        fell_back(outcome) ==> {
            &&& settled(outcome, max_iterations).hit_cap
            &&& !settled(outcome, max_iterations).wrap_up_injected
        },
{
}

/// A turn that stopped at its cap, or left early through a tool, is handed over as interrupted;
/// any other is not.
pub proof fn law_interrupted_means_stopped_early(
    turn: ReplyingTurnView,
    max_history: nat,
    outcome: TurnOutcome,
)
    ensures
        turn.finished(max_history, outcome).interrupted <==> (outcome.hit_cap
            || outcome.early_exit_tool is Some),
{
}

/// Where a closing call or a repair wrote the reply, or a required output completed it, the
/// history ends with exactly that reply; a later completion or repair keeps it so.
pub proof fn law_a_written_reply_ends_the_history(
    turn: ReplyingTurnView,
    rounds: Seq<MessageView>,
    satisfied: bool,
    block: Seq<char>,
    repair: Option<GroundedClose>,
)
    ensures
        turn.closed ==> turn.appended(rounds).replied(),
        turn.replied() || !satisfied ==> turn.completed(satisfied, block).replied(),
        turn.replied() || repair is Some ==> turn.repaired(repair).replied(),
{
    if turn.closed {
        let all = turn.appended(rounds).history;
        let tail = with_reply(rounds, turn.output);
        assert(all.last() == tail.last());
    }
}

/// Bounding the history of a finished turn never drops the reply it ends with.
pub proof fn law_the_reply_survives_the_bound(
    turn: ReplyingTurnView,
    max_history: nat,
    outcome: TurnOutcome,
)
    requires
        turn.replied(),
        max_history > 0,
    ensures
        turn.finished(max_history, outcome).history.len() > 0,
        turn.finished(max_history, outcome).history.last() == spoken(Role::Assistant, turn.output),
{
    crate::session::messages::law_trim_keeps_the_system_prefix(turn.history, max_history);
    let cut = turn.history.skip(turn.history.len() - max_history);
    if turn.history.len() > max_history {
        assert(cut.last() == turn.history.last());
    }
}

/// Every completed round of the graph stays in the history: a closing reply takes the place of the
/// final assistant message alone.
pub proof fn law_completed_rounds_are_retained(turn: ReplyingTurnView, rounds: Seq<MessageView>)
    ensures
        turn.history.is_prefix_of(turn.appended(rounds).history),
        forall|i: int|
            0 <= i < rounds.len() && (i < rounds.len() - 1 || rounds.last().role
                != Role::Assistant || !turn.closed)
                ==> turn.appended(rounds).history[turn.history.len() + i] == #[trigger] rounds[i],
{
    let all = turn.appended(rounds).history;
    assert(turn.history =~= all.subrange(0, turn.history.len() as int));
    let tail = if turn.closed {
        with_reply(rounds, turn.output)
    } else {
        rounds
    };
    assert forall|i: int|
        0 <= i < rounds.len() && (i < rounds.len() - 1 || rounds.last().role != Role::Assistant
            || !turn.closed) implies all[turn.history.len() + i] == #[trigger] rounds[i] by {
        assert(all[turn.history.len() + i] == tail[i]);
    }
}

/// A turn that the model answered keeps the cap flag that its loop reported, however many calls it
/// made; where none was reported, and no tool ended it early, it is not interrupted.
pub proof fn law_an_answered_turn_is_not_capped(
    outcome: TurnOutcome,
    max_iterations: nat,
    turn: ReplyingTurnView,
    max_history: nat,
)
    requires
        !blank(outcome.text@),
        !begins_with(outcome.text@, "I finished this turn without writing up a result."@),
    ensures
        settled(outcome, max_iterations).hit_cap == outcome.hit_cap,
        settled(outcome, max_iterations).wrap_up_injected == outcome.wrap_up_injected,
        !outcome.hit_cap && outcome.early_exit_tool is None ==> !turn.finished(
            max_history,
            settled(outcome, max_iterations),
        ).interrupted,
{
}

/// A loop that wrote nothing is capped exactly where it says so or one of its three counts has
/// reached the bound.
pub proof fn law_a_silent_turn_is_capped_at_the_bound(outcome: TurnOutcome, max_iterations: nat)
    requires
        blank(outcome.text@),
    ensures
        settled(outcome, max_iterations).hit_cap <==> outcome.hit_cap || outcome.model_calls
            >= max_iterations || outcome.tool_calls >= max_iterations
            || outcome.tool_outcomes@.len() >= max_iterations,
        settled(outcome, max_iterations).wrap_up_injected == outcome.wrap_up_injected,
{
    reveal_strlit("I finished this turn without writing up a result.");
    if fell_back(outcome) {
        assert(outcome.text@[0] == EXHAUSTED_FALLBACK@[0]);
        law_blank_texts_are_white_space(outcome.text@);
    }
}

/// The fallback of a loop that ran out is capped, and is no wrap-up of the model.
pub proof fn law_a_fallback_reply_is_capped(outcome: TurnOutcome, max_iterations: nat)
    requires
        begins_with(outcome.text@, "I finished this turn without writing up a result."@),
    ensures
        settled(outcome, max_iterations).hit_cap,
        !settled(outcome, max_iterations).wrap_up_injected,
{
}

/// Settling changes the two flags of an outcome and nothing else.
pub proof fn law_settling_changes_the_flags_only(outcome: TurnOutcome, max_iterations: nat)
    ensures
        ({
            let after = settled(outcome, max_iterations);
            &&& after.text == outcome.text
            &&& after.resolved_route == outcome.resolved_route
            &&& after.model_calls == outcome.model_calls
            &&& after.tool_calls == outcome.tool_calls
            &&& after.input_tokens == outcome.input_tokens
            &&& after.output_tokens == outcome.output_tokens
            &&& after.cached_input_tokens == outcome.cached_input_tokens
            &&& after.early_exit_tool == outcome.early_exit_tool
            &&& after.breaker_halt == outcome.breaker_halt
            &&& after.tool_outcomes == outcome.tool_outcomes
        }),
{
}

/// An outcome is empty exactly where its text is blank and no tool call finished.
pub proof fn law_an_outcome_with_text_or_tools_is_not_empty(outcome: TurnOutcome)
    ensures
        came_back_empty(outcome) <==> blank(outcome.text@) && outcome.tool_outcomes@ =~= Seq::<
            ToolCallOutcome,
        >::empty(),
{
}

/// The reply of a turn is opened with the closing call's words and usage where one was made, and
/// with the graph's own words and no usage otherwise; the history is untouched.
pub proof fn law_a_reply_is_opened_with_its_words(
    history: Seq<MessageView>,
    outcome: TurnOutcome,
    close: Option<GroundedClose>,
)
    ensures
        ({
            let turn = opened_reply(history, outcome, close);
            &&& turn.history == history
            &&& close is Some ==> turn.output == close->0.output@ && turn.closed
                && turn.close_usage == close->0.usage
            &&& close is None ==> turn.output == outcome.text@ && !turn.closed
                && turn.close_usage.model_calls == 0 && turn.close_usage.input_tokens == 0
                && turn.close_usage.output_tokens == 0 && turn.close_usage.cached_input_tokens == 0
            &&& turn.repair_usage.model_calls == 0
            &&& turn.repair_usage.input_tokens == 0
            &&& turn.repair_usage.output_tokens == 0
            &&& turn.repair_usage.cached_input_tokens == 0
        }),
{
}

/// Appending the rounds changes the history alone: without a closing call it is the history and
/// then every round, and with one the rounds end with the reply in place of a final assistant
/// message.
pub proof fn law_the_rounds_follow_the_history(turn: ReplyingTurnView, rounds: Seq<MessageView>)
    ensures
        ({
            let after = turn.appended(rounds);
            let replaced = rounds.len() > 0 && rounds.last().role == Role::Assistant;
            &&& after.output == turn.output
            &&& after.closed == turn.closed
            &&& after.close_usage == turn.close_usage
            &&& after.repair_usage == turn.repair_usage
            &&& !turn.closed ==> after.history == turn.history + rounds
            &&& turn.closed && replaced ==> after.history == turn.history + rounds.drop_last().push(
                spoken(Role::Assistant, turn.output),
            )
            &&& turn.closed && !replaced ==> after.history == turn.history + rounds.push(
                spoken(Role::Assistant, turn.output),
            )
        }),
{
}

/// A reply that holds the required output stays; one that lacks it is continued with the block
/// behind an empty line, and a repair is taken word for word with what it used. Neither touches the
/// rest of the turn.
pub proof fn law_a_required_output_is_added_or_repaired(
    turn: ReplyingTurnView,
    block: Seq<char>,
    repair: GroundedClose,
)
    ensures
        turn.completed(true, block) == turn,
        turn.completed(false, block).output == turn.output + "\n\n"@ + block,
        turn.completed(false, block).history == with_reply(
            turn.history,
            turn.output + "\n\n"@ + block,
        ),
        turn.completed(false, block).closed == turn.closed,
        turn.completed(false, block).close_usage == turn.close_usage,
        turn.completed(false, block).repair_usage == turn.repair_usage,
        turn.repaired(None) == turn,
        turn.repaired(Some(repair)).output == repair.output@,
        turn.repaired(Some(repair)).history == with_reply(turn.history, repair.output@),
        turn.repaired(Some(repair)).repair_usage == repair.usage,
        turn.repaired(Some(repair)).closed == turn.closed,
        turn.repaired(Some(repair)).close_usage == turn.close_usage,
{
}

/// A required output is asked for where it is required and not otherwise: completed without a call
/// where a breaker stopped the turn over a classified failure, and repaired by a call otherwise, as
/// the iteration behind the last; its progress is shown where there is progress and no closing call
/// was made.
pub proof fn law_a_required_output_is_repaired_unless_halted(
    turn: ReplyingTurnView,
    has_progress: bool,
    outcome: TurnOutcome,
)
    ensures
        turn.required_step(false, has_progress, outcome) is Nothing,
        turn.required_step(true, has_progress, outcome) is Complete <==> outcome.breaker_halt is Some
            && begins_with(outcome.breaker_halt->0@, "Stopping after "@),
        !(turn.required_step(true, has_progress, outcome) is Complete) ==> {
            let step = turn.required_step(true, has_progress, outcome);
            &&& step is Repair
            &&& step->stream == (has_progress && !turn.closed)
            &&& outcome.model_calls < u32::MAX ==> step->iteration == outcome.model_calls + 1
            &&& outcome.model_calls < usize::MAX ==> step->iteration == (outcome.model_calls
                + 1) as u32
            &&& outcome.model_calls == usize::MAX ==> step->iteration == usize::MAX as u32
        },
{
}

/// What a finished turn hands over: its reply, the bounded history, no partial; and it is
/// interrupted exactly where the loop was capped or a tool ended it early.
pub proof fn law_a_finished_turn_hands_over_its_reply(
    turn: ReplyingTurnView,
    max_history: nat,
    outcome: TurnOutcome,
)
    ensures
        turn.finished(max_history, outcome).output == Some(turn.output),
        turn.finished(max_history, outcome).partial is None,
        turn.finished(max_history, outcome).history == trimmed(turn.history, max_history),
        turn.finished(max_history, outcome).interrupted <==> outcome.hit_cap
            || outcome.early_exit_tool is Some,
{
}

/// What is observed of a finished turn: the sums of what the graph, the closing call and the repair
/// used, and everything else as the graph reported it.
pub proof fn law_the_usage_of_every_call_is_counted(
    turn: ReplyingTurnView,
    outcome: TurnOutcome,
    elapsed_nanos: u128,
)
    ensures
        ({
            let seen = turn.observed(outcome, elapsed_nanos);
            &&& seen.model_calls == outcome.model_calls + turn.close_usage.model_calls
                + turn.repair_usage.model_calls
            &&& seen.input_tokens == outcome.input_tokens + turn.close_usage.input_tokens
                + turn.repair_usage.input_tokens
            &&& seen.output_tokens == outcome.output_tokens + turn.close_usage.output_tokens
                + turn.repair_usage.output_tokens
            &&& seen.cached_input_tokens == outcome.cached_input_tokens
                + turn.close_usage.cached_input_tokens + turn.repair_usage.cached_input_tokens
            &&& seen.tool_calls == outcome.tool_calls
            &&& seen.cost is Charged
            &&& seen.duration_nanos == Some(elapsed_nanos)
            &&& seen.tool_outcomes == outcome.tool_outcomes@
            &&& seen.hit_cap == outcome.hit_cap
            &&& seen.wrap_up_injected == outcome.wrap_up_injected
            &&& seen.resolved_route == outcome.resolved_route
        }),
        turn.usage_fits(outcome) <==> {
            let seen = turn.observed(outcome, elapsed_nanos);
            &&& seen.model_calls <= usize::MAX
            &&& seen.input_tokens <= u64::MAX
            &&& seen.output_tokens <= u64::MAX
            &&& seen.cached_input_tokens <= u64::MAX
        },
{
}

/// A turn works on the snapshot of its request, or on one in which nothing was observed and whose
/// base is the request; a model that it names for the prices stays, and otherwise it is the
/// session's.
pub proof fn law_a_turn_opens_the_snapshot_of_its_request(
    given: Option<TranscriptSnapshot>,
    base: nat,
    model_name: Seq<char>,
    opened: TranscriptSnapshot,
)
    requires
        opened_snapshot(given, base, model_name, opened),
    ensures
        opened.pricing_model is Some,
        given is Some && given->0.pricing_model is Some ==> opened.pricing_model->0@
            == given->0.pricing_model->0@,
        given is None || given->0.pricing_model is None ==> opened.pricing_model->0@ == model_name,
        given is Some ==> {
            let own = given->0;
            &&& opened.messages == own.messages
            &&& opened.accepted_len == own.accepted_len
            &&& opened.request_base_len == own.request_base_len
            &&& opened.input_tokens == own.input_tokens
            &&& opened.output_tokens == own.output_tokens
            &&& opened.cached_input_tokens == own.cached_input_tokens
            &&& opened.charged == own.charged
            &&& opened.resolved_route == own.resolved_route
            &&& opened.model_calls == own.model_calls
            &&& opened.tool_outcomes == own.tool_outcomes
        },
        given is None ==> {
            &&& opened.request_base_len == base
            &&& opened.messages@.len() == 0
            &&& opened.accepted_len == 0
            &&& opened.input_tokens == 0
            &&& opened.output_tokens == 0
            &&& opened.cached_input_tokens == 0
            &&& !opened.charged
            &&& opened.resolved_route is None
            &&& opened.model_calls == 0
            &&& opened.tool_outcomes@.len() == 0
        },
{
}

} // verus!
