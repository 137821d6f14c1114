//! What is observed of a turn while it runs, and what a turn that fails in the graph leaves
//! behind: its usage and finished tool calls, and the messages that a provider accepted.

use crate::session::failure::{
    driver_failure, DriverError, DriverErrorView, DriverFailure, DriverFailureView, DriverOutcome,
    DriverOutcomeView,
};
use crate::session::messages::{copy_messages, said, Message};
use crate::text::{blank, cat, contains, is_blank, occurs_in};
use vstd::prelude::*;

verus! {

/// One finished tool call.
#[derive(Debug, PartialEq)]
pub struct ToolCallOutcome {
    pub call_id: String,
    pub name: String,
    pub arguments: serde_json::Value,
    pub success: bool,
    pub content: String,
    pub duration_ms: u64,
}

impl Clone for ToolCallOutcome {
    fn clone(&self) -> (r: Self)
        ensures
            r == *self,
    {
        ToolCallOutcome {
            call_id: self.call_id.clone(),
            name: self.name.clone(),
            arguments: self.arguments.clone(),
            success: self.success,
            content: self.content.clone(),
            duration_ms: self.duration_ms,
        }
    }
}

/// The provider, model and route that served a turn.
#[derive(Debug, PartialEq, Eq)]
pub struct ResolvedRoute {
    pub provider: String,
    pub model: String,
    pub route: String,
}

impl Clone for ResolvedRoute {
    fn clone(&self) -> (r: Self)
        ensures
            r == *self,
    {
        ResolvedRoute {
            provider: self.provider.clone(),
            model: self.model.clone(),
            route: self.route.clone(),
        }
    }
}

/// A copy of an optional route.
pub fn copy_route(route: &Option<ResolvedRoute>) -> (r: Option<ResolvedRoute>)
    ensures
        r == *route,
{
    match route {
        Some(known) => Some(known.clone()),
        None => None,
    }
}

/// A copy of some finished tool calls.
pub fn copy_outcomes(outcomes: &Vec<ToolCallOutcome>) -> (r: Vec<ToolCallOutcome>)
    ensures
        r@ == outcomes@,
{
    let mut out: Vec<ToolCallOutcome> = Vec::new();
    let mut i: usize = 0;
    while i < outcomes.len()
        invariant
            i <= outcomes@.len(),
            out@ == outcomes@.take(i as int),
        decreases outcomes@.len() - i,
    {
        out.push(outcomes[i].clone());
        i = i + 1;
    }
    out
}

/// What a turn has observed so far: the messages, how many of them a provider accepted, and the
/// usage. `charged` says that the provider reported a charge above nothing.
#[derive(Debug)]
pub struct TranscriptSnapshot {
    pub messages: Vec<Message>,
    pub accepted_len: usize,
    pub request_base_len: usize,
    pub input_tokens: u64,
    pub output_tokens: u64,
    pub cached_input_tokens: u64,
    pub charged: bool,
    pub resolved_route: Option<ResolvedRoute>,
    pub pricing_model: Option<String>,
    pub model_calls: u32,
    pub tool_outcomes: Vec<ToolCallOutcome>,
}

impl TranscriptSnapshot {
    /// Nothing has been observed of a turn whose request holds `base` messages.
    pub open spec fn untouched(self, base: nat) -> bool {
        &&& self.messages@.len() == 0
        &&& self.accepted_len == 0
        &&& self.request_base_len == base
        &&& self.input_tokens == 0
        &&& self.output_tokens == 0
        &&& self.cached_input_tokens == 0
        &&& !self.charged
        &&& self.resolved_route is None
        &&& self.model_calls == 0
        &&& self.tool_outcomes@.len() == 0
    }
}

impl Default for TranscriptSnapshot {
    fn default() -> (r: Self)
        ensures
            r.untouched(0),
            r.pricing_model is None,
    {
        TranscriptSnapshot {
            messages: Vec::new(),
            accepted_len: 0,
            request_base_len: 0,
            input_tokens: 0,
            output_tokens: 0,
            cached_input_tokens: 0,
            charged: false,
            resolved_route: None,
            pricing_model: None,
            model_calls: 0,
            tool_outcomes: Vec::new(),
        }
    }
}

/// Where the cost of a turn comes from.
#[derive(Debug, PartialEq, Eq)]
pub enum CostBasis {
    /// Nothing has been observed.
    Unknown,
    /// The charges that the provider and the closing calls reported.
    Charged,
    /// An estimate over the observed tokens at the prices of `model`.
    Estimated { model: String },
}

/// What a [`CostBasis`] says.
pub enum CostBasisView {
    Unknown,
    Charged,
    Estimated { model: Seq<char> },
}

impl View for CostBasis {
    type V = CostBasisView;

    open spec fn view(&self) -> CostBasisView {
        match self {
            CostBasis::Unknown => CostBasisView::Unknown,
            CostBasis::Charged => CostBasisView::Charged,
            CostBasis::Estimated { model } => CostBasisView::Estimated { model: model@ },
        }
    }
}

/// The out-of-band observation of a turn.
#[derive(Debug)]
pub struct SessionTurnSidecar {
    pub model_calls: usize,
    pub tool_calls: usize,
    pub input_tokens: u64,
    pub output_tokens: u64,
    pub cached_input_tokens: u64,
    pub cost: CostBasis,
    pub duration_nanos: Option<u128>,
    pub tool_outcomes: Vec<ToolCallOutcome>,
    pub hit_cap: bool,
    pub wrap_up_injected: bool,
    pub resolved_route: Option<ResolvedRoute>,
}

/// What a [`SessionTurnSidecar`] says.
pub struct SidecarView {
    pub model_calls: nat,
    pub tool_calls: nat,
    pub input_tokens: nat,
    pub output_tokens: nat,
    pub cached_input_tokens: nat,
    pub cost: CostBasisView,
    pub duration_nanos: Option<u128>,
    pub tool_outcomes: Seq<ToolCallOutcome>,
    pub hit_cap: bool,
    pub wrap_up_injected: bool,
    pub resolved_route: Option<ResolvedRoute>,
}

impl View for SessionTurnSidecar {
    type V = SidecarView;

    open spec fn view(&self) -> SidecarView {
        SidecarView {
            model_calls: self.model_calls as nat,
            tool_calls: self.tool_calls as nat,
            input_tokens: self.input_tokens as nat,
            output_tokens: self.output_tokens as nat,
            cached_input_tokens: self.cached_input_tokens as nat,
            cost: self.cost@,
            duration_nanos: self.duration_nanos,
            tool_outcomes: self.tool_outcomes@,
            hit_cap: self.hit_cap,
            wrap_up_injected: self.wrap_up_injected,
            resolved_route: self.resolved_route,
        }
    }
}

impl Default for SessionTurnSidecar {
    fn default() -> (r: Self)
        ensures
            r@ == (SidecarView {
                model_calls: 0,
                tool_calls: 0,
                input_tokens: 0,
                output_tokens: 0,
                cached_input_tokens: 0,
                cost: CostBasisView::Unknown,
                duration_nanos: None,
                tool_outcomes: Seq::empty(),
                hit_cap: false,
                wrap_up_injected: false,
                resolved_route: None,
            }),
    {
        let r: SessionTurnSidecar = SessionTurnSidecar {
            model_calls: 0,
            tool_calls: 0,
            input_tokens: 0,
            output_tokens: 0,
            cached_input_tokens: 0,
            cost: CostBasis::Unknown,
            duration_nanos: None,
            tool_outcomes: Vec::new(),
            hit_cap: false,
            wrap_up_injected: false,
            resolved_route: None,
        };
        assert(r@.tool_outcomes =~= Seq::empty());
        r
    }
}

/// What the host renders of a turn that failed in the graph: where its accepted messages end,
/// the steps after that point, the finished tool calls as evidence, and the words with which a
/// stalled generation reports itself.
#[derive(Debug)]
pub struct FailureRendering {
    pub accepted_end: usize,
    pub unanswered: Option<String>,
    pub evidence: String,
    pub stalled_words: String,
}

/// The model whose prices stand in for a charge that was not reported: the route that served the
/// turn, or the session's own model where no route is known by name.
pub open spec fn pricing_model(route: Option<ResolvedRoute>, fallback: Seq<char>) -> Seq<char> {
    match route {
        Some(known) => if blank(known.route@) {
            fallback
        } else {
            known.route@
        },
        None => fallback,
    }
}

/// Where the cost of a failed turn comes from.
pub open spec fn failure_cost(snapshot: TranscriptSnapshot, fallback: Seq<char>) -> CostBasisView {
    if snapshot.charged {
        CostBasisView::Charged
    } else {
        CostBasisView::Estimated { model: pricing_model(snapshot.resolved_route, fallback) }
    }
}

/// The display-only account of a turn that failed in the graph.
pub open spec fn failure_display(error: Seq<char>, rendering: FailureRendering) -> Seq<char> {
    if occurs_in(error, rendering.stalled_words@) {
        "I stopped a repetitive model response before it could finish. Here are the completed tool results I can report:\n"@
            + rendering.evidence@
    } else {
        match rendering.unanswered {
            Some(steps) => "The turn stopped before completion: "@ + error + ".\n\n"@ + steps@,
            None => "The turn stopped before completion: "@ + error + "."@,
        }
    }
}

/// The accepted messages end within what was observed, where any message was.
pub open spec fn accepted_within(snapshot: TranscriptSnapshot, rendering: FailureRendering) -> bool {
    snapshot.messages@.len() == 0 || rendering.accepted_end <= snapshot.messages@.len()
}

/// The failure of a turn whose graph failed with `error` after `snapshot` was observed: nothing is
/// kept where no message was observed; otherwise the accepted messages are, and no other.
pub open spec fn snapshot_failure(
    error: Seq<char>,
    snapshot: TranscriptSnapshot,
    rendering: FailureRendering,
) -> DriverFailureView {
    DriverFailureView {
        error: DriverErrorView::Message(error),
        partial: if snapshot.messages@.len() == 0 {
            None
        } else {
            Some(
                DriverOutcomeView {
                    history: said(snapshot.messages@).take(rendering.accepted_end as int),
                    output: None,
                    partial: Some(failure_display(error, rendering)),
                    interrupted: true,
                },
            )
        },
    }
}

/// What is observed of a turn whose graph failed: the usage and the finished tool calls of the
/// snapshot. The cap flags stay as they were.
pub open spec fn failed_sidecar(
    before: SidecarView,
    snapshot: TranscriptSnapshot,
    elapsed_nanos: u128,
    fallback_model: Seq<char>,
) -> SidecarView {
    SidecarView {
        model_calls: snapshot.model_calls as nat,
        tool_calls: snapshot.tool_outcomes@.len(),
        input_tokens: snapshot.input_tokens as nat,
        output_tokens: snapshot.output_tokens as nat,
        cached_input_tokens: snapshot.cached_input_tokens as nat,
        cost: failure_cost(snapshot, fallback_model),
        duration_nanos: Some(elapsed_nanos),
        tool_outcomes: snapshot.tool_outcomes@,
        hit_cap: before.hit_cap,
        wrap_up_injected: before.wrap_up_injected,
        resolved_route: snapshot.resolved_route,
    }
}

/// Turn a graph error into a failure, after copying the usage and the finished tool calls of the
/// snapshot to the sidecar. The cap flags of the sidecar stay as they were.
pub fn driver_error_with_snapshot(
    error: &str,
    snapshot: &TranscriptSnapshot,
    rendering: &FailureRendering,
    sidecar: &mut SessionTurnSidecar,
    elapsed_nanos: u128,
    fallback_model: &str,
) -> (r: DriverFailure)
    requires
        accepted_within(*snapshot, *rendering),
    ensures
        r@ == snapshot_failure(error@, *snapshot, *rendering),
        final(sidecar)@ == failed_sidecar(
            old(sidecar)@,
            *snapshot,
            elapsed_nanos,
            fallback_model@,
        ),
{
    sidecar.model_calls = snapshot.model_calls as usize;
    sidecar.tool_calls = snapshot.tool_outcomes.len();
    sidecar.input_tokens = snapshot.input_tokens;
    sidecar.output_tokens = snapshot.output_tokens;
    sidecar.cached_input_tokens = snapshot.cached_input_tokens;
    sidecar.cost = if snapshot.charged {
        CostBasis::Charged
    } else {
        let model: String = match &snapshot.resolved_route {
            Some(known) => if is_blank(known.route.as_str()) {
                fallback_model.to_owned()
            } else {
                known.route.clone()
            },
            None => fallback_model.to_owned(),
        };
        CostBasis::Estimated { model }
    };
    sidecar.duration_nanos = Some(elapsed_nanos);
    sidecar.tool_outcomes = copy_outcomes(&snapshot.tool_outcomes);
    sidecar.resolved_route = copy_route(&snapshot.resolved_route);
    if snapshot.messages.len() == 0 {
        return driver_failure(error);
    }
    let history: Vec<Message> = copy_messages(&snapshot.messages, rendering.accepted_end);
    let display: String = if contains(error, rendering.stalled_words.as_str()) {
        cat(
            "I stopped a repetitive model response before it could finish. Here are the completed tool results I can report:\n",
            rendering.evidence.as_str(),
        )
    } else {
        let told: String = cat("The turn stopped before completion: ", error);
        match &rendering.unanswered {
            Some(steps) => told.concat(".\n\n").concat(steps.as_str()),
            None => told.concat("."),
        }
    };
    let r: DriverFailure = DriverFailure {
        error: DriverError::Message(error.to_owned()),
        partial: Some(
            DriverOutcome { history, output: None, partial: Some(display), interrupted: true },
        ),
    };
    assert(said(snapshot.messages@.take(rendering.accepted_end as int)) =~= said(
        snapshot.messages@,
    ).take(rendering.accepted_end as int));
    r
}

/// A failed turn keeps accepted messages only: whatever it keeps is where the snapshot's accepted
/// messages begin, and nothing past their end.
pub proof fn law_failure_keeps_accepted_history_only(
    error: Seq<char>,
    snapshot: TranscriptSnapshot,
    rendering: FailureRendering,
)
    requires
        accepted_within(snapshot, rendering),
    ensures
        snapshot_failure(error, snapshot, rendering).partial matches Some(kept) ==> {
            &&& kept.history.len() == rendering.accepted_end
            &&& kept.history.is_prefix_of(said(snapshot.messages@))
            &&& kept.output is None
            &&& kept.interrupted
        },
{
    if snapshot.messages@.len() > 0 {
        assert(said(snapshot.messages@).take(rendering.accepted_end as int) =~= said(
            snapshot.messages@,
        ).subrange(0, rendering.accepted_end as int));
    }
}

/// A turn that failed before any message was observed keeps nothing but its error; any other keeps
/// exactly the accepted messages, and an account that is shown and never part of the history. The
/// account tells the finished tool calls where the generation stalled, and the error otherwise, with
/// the unanswered steps where there are some.
pub proof fn law_a_failed_turn_accounts_for_itself(
    error: Seq<char>,
    snapshot: TranscriptSnapshot,
    rendering: FailureRendering,
)
    requires
        accepted_within(snapshot, rendering),
    ensures
        ({
            let failure = snapshot_failure(error, snapshot, rendering);
            &&& failure.error == DriverErrorView::Message(error)
            &&& snapshot.messages@.len() == 0 <==> failure.partial is None
            &&& snapshot.messages@.len() > 0 ==> {
                let kept = failure.partial->0;
                &&& kept.history.len() == rendering.accepted_end
                &&& forall|i: int|
                    0 <= i < rendering.accepted_end ==> #[trigger] kept.history[i]
                        == snapshot.messages@[i]@
                &&& kept.output is None
                &&& kept.interrupted
                &&& kept.partial is Some
                &&& occurs_in(error, rendering.stalled_words@) ==> kept.partial->0
                    == "I stopped a repetitive model response before it could finish. Here are the completed tool results I can report:\n"@
                    + rendering.evidence@
                &&& !occurs_in(error, rendering.stalled_words@) && rendering.unanswered is None
                    ==> kept.partial->0 == "The turn stopped before completion: "@ + error + "."@
                &&& !occurs_in(error, rendering.stalled_words@) && rendering.unanswered is Some
                    ==> kept.partial->0 == "The turn stopped before completion: "@ + error
                    + ".\n\n"@ + rendering.unanswered->0@
            }
        }),
{
}

/// What is observed of a failed turn is what its snapshot holds; the cap flags are those from
/// before. It costs what was charged, or else an estimate at the prices of the route that served
/// it, or of the session's model where the route has no name.
pub proof fn law_the_usage_of_a_failed_turn_is_kept(
    before: SidecarView,
    snapshot: TranscriptSnapshot,
    elapsed_nanos: u128,
    fallback_model: Seq<char>,
)
    ensures
        ({
            let after = failed_sidecar(before, snapshot, elapsed_nanos, fallback_model);
            let route = snapshot.resolved_route;
            &&& after.model_calls == snapshot.model_calls
            &&& after.tool_calls == snapshot.tool_outcomes@.len()
            &&& after.input_tokens == snapshot.input_tokens
            &&& after.output_tokens == snapshot.output_tokens
            &&& after.cached_input_tokens == snapshot.cached_input_tokens
            &&& after.duration_nanos == Some(elapsed_nanos)
            &&& after.tool_outcomes == snapshot.tool_outcomes@
            &&& after.resolved_route == route
            &&& after.hit_cap == before.hit_cap
            &&& after.wrap_up_injected == before.wrap_up_injected
            &&& snapshot.charged <==> after.cost is Charged
            &&& !snapshot.charged ==> after.cost is Estimated
            &&& !snapshot.charged && route is Some && !blank(route->0.route@)
                ==> after.cost->Estimated_model == route->0.route@
            &&& !snapshot.charged && (route is None || blank(route->0.route@))
                ==> after.cost->Estimated_model == fallback_model
        }),
{
}

/// What is observed of a turn is what its sidecar holds.
pub proof fn law_a_sidecar_says_what_it_holds(sidecar: SessionTurnSidecar)
    ensures
        sidecar@.model_calls == sidecar.model_calls,
        sidecar@.tool_calls == sidecar.tool_calls,
        sidecar@.input_tokens == sidecar.input_tokens,
        sidecar@.output_tokens == sidecar.output_tokens,
        sidecar@.cached_input_tokens == sidecar.cached_input_tokens,
        sidecar@.duration_nanos == sidecar.duration_nanos,
        sidecar@.tool_outcomes == sidecar.tool_outcomes@,
        sidecar@.hit_cap == sidecar.hit_cap,
        sidecar@.wrap_up_injected == sidecar.wrap_up_injected,
        sidecar@.resolved_route == sidecar.resolved_route,
        sidecar.cost is Estimated <==> sidecar@.cost is Estimated,
        sidecar.cost is Charged <==> sidecar@.cost is Charged,
        sidecar.cost is Estimated ==> sidecar@.cost->Estimated_model
            == sidecar.cost->Estimated_model@,
{
}

} // verus!
