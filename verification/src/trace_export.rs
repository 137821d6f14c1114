//! Where the trace of a finished run goes: to a file or the log, and to those who collect usage
//! data.

use crate::text::{cat, copy_opt, opt_text, trim_end, trimmed_end};
use vstd::prelude::*;

verus! {

/// How the local traces are kept.
#[derive(Debug, PartialEq, Eq)]
pub struct AgentTracingConfig {
    pub enabled: bool,
    pub export_path: Option<String>,
    pub capture_content: bool,
}

/// What the configuration says of observation.
#[derive(Debug, PartialEq, Eq)]
pub struct ObservabilityConfig {
    pub share_usage_data: bool,
    pub agent_tracing: AgentTracingConfig,
}

/// A finished span, as far as its export reads it.
#[derive(Debug, PartialEq, Eq)]
pub struct TraceSpan {
    pub trace_id: String,
}

/// What is done with some spans.
#[derive(Debug, PartialEq, Eq)]
pub enum SpanExport {
    /// Nothing: tracing is off, or there are none.
    Nothing,
    /// Append the payload to the file at `path`.
    Append { path: String, payload: String, spans: usize },
    /// Log how many there are and of which trace, and the payload for those who debug.
    Log { spans: usize, trace_id: String, body: String },
}

/// The trace of some spans: that of the first.
pub open spec fn trace_of(spans: Seq<TraceSpan>) -> Seq<char> {
    if spans.len() > 0 {
        spans[0].trace_id@
    } else {
        Seq::empty()
    }
}

/// What is done with finished spans, whose text is `payload`.
pub open spec fn exported(
    config: AgentTracingConfig,
    spans: Seq<TraceSpan>,
    payload: String,
    export: SpanExport,
) -> bool {
    if !config.enabled || spans.len() == 0 {
        export is Nothing
    } else if config.export_path is Some {
        export is Append && export->Append_path@ == config.export_path->0@
            && export->Append_payload == payload && export->Append_spans == spans.len()
    } else {
        export is Log && export->Log_spans == spans.len() && export->Log_trace_id@ == trace_of(spans)
            && export->Log_body@ == trimmed_end(payload@)
    }
}

/// What is done with finished spans, whose text is `payload`. What they hold is never logged but
/// for those who debug.
pub fn export_spans(config: &AgentTracingConfig, spans: &Vec<TraceSpan>, payload: String) -> (r:
    SpanExport)
    ensures
        match r {
            SpanExport::Nothing => !config.enabled || spans@.len() == 0,
            SpanExport::Append { path, payload: text, spans: count } => {
                &&& config.enabled
                &&& spans@.len() > 0
                &&& opt_text(config.export_path) == Some(path@)
                &&& text == payload
                &&& count == spans@.len()
            },
            SpanExport::Log { spans: count, trace_id, body } => {
                &&& config.enabled
                &&& spans@.len() > 0
                &&& config.export_path is None
                &&& count == spans@.len()
                &&& trace_id@ == trace_of(spans@)
                &&& body@ == trimmed_end(payload@)
            },
        },
        exported(*config, spans@, payload, r),
        config.enabled && spans@.len() > 0 && config.export_path is Some ==> r is Append,
        config.enabled && spans@.len() > 0 && config.export_path is None ==> r is Log
            && r->Log_trace_id@ == spans@[0].trace_id@,
{
    if !config.enabled || spans.len() == 0 {
        return SpanExport::Nothing;
    }
    match &config.export_path {
        Some(path) => SpanExport::Append { path: path.clone(), payload, spans: spans.len() },
        None => SpanExport::Log {
            spans: spans.len(),
            trace_id: spans[0].trace_id.clone(),
            body: trim_end(payload.as_str()),
        },
    }
}

/// Which ways the trace of a run takes.
#[derive(Clone, Copy, Debug, PartialEq, Eq, Structural)]
pub struct RunExport {
    /// It is pushed to those who collect usage data.
    pub push: bool,
    /// It is exported locally.
    pub local: bool,
}

/// Which ways a run takes of which `observed` observations can be pushed and `spans` spans exported.
pub open spec fn ways(observability: ObservabilityConfig, observed: nat, spans: nat) -> RunExport {
    RunExport {
        push: observability.share_usage_data && observed > 0,
        local: observability.agent_tracing.enabled && spans > 0,
    }
}

/// Which ways the spans of a run take. The two are apart: neither stands in for the other.
pub fn export_run_trace(observability: &ObservabilityConfig, spans: &Vec<TraceSpan>) -> (r:
    RunExport)
    ensures
        r == ways(*observability, spans@.len(), spans@.len()),
        r.push == (observability.share_usage_data && spans@.len() > 0),
        r.local == (observability.agent_tracing.enabled && spans@.len() > 0),
{
    if spans.len() == 0 {
        return RunExport { push: false, local: false };
    }
    RunExport { push: observability.share_usage_data, local: observability.agent_tracing.enabled }
}

/// Which ways the trace of a run takes that has a durable journal: its observations are pushed,
/// and its live spans exported locally.
pub fn export_run_trace_from_journal(
    observability: &ObservabilityConfig,
    observations: usize,
    live_spans: &Vec<TraceSpan>,
) -> (r: RunExport)
    ensures
        r == ways(*observability, observations as nat, live_spans@.len()),
        r.push == (observability.share_usage_data && observations > 0),
        r.local == (observability.agent_tracing.enabled && live_spans@.len() > 0),
{
    if observations == 0 && live_spans.len() == 0 {
        return RunExport { push: false, local: false };
    }
    RunExport {
        push: observability.share_usage_data && observations > 0,
        local: observability.agent_tracing.enabled && live_spans.len() > 0,
    }
}

/// The identity of the user of a run.
#[derive(Debug, PartialEq, Eq)]
pub struct UserIdentity {
    pub id: Option<String>,
    pub email: Option<String>,
}

/// An observation of a run, as far as its export reads it.
#[derive(Debug, PartialEq, Eq)]
pub struct AgentObservation {
    pub run_id: String,
    pub parent_run_id: Option<String>,
    pub root_run_id: String,
}

/// The kind of run that a trace tells of.
#[derive(Clone, Copy, Debug, PartialEq, Eq, Structural)]
pub enum RunType {
    /// A turn that was delegated.
    Subagent,
}

/// The trace of a delegated turn.
#[derive(Debug, PartialEq, Eq)]
pub struct SubagentTrace {
    pub trace_id: String,
    pub user_id: Option<String>,
    pub session_group: String,
    pub agent_id: String,
    pub channel_source: String,
    pub run_type: RunType,
    pub capture_content: bool,
    pub run_id: String,
    pub parent_run_id: Option<String>,
    pub root_run_id: String,
}

/// What the export of a delegated turn has just come to.
#[derive(Debug, PartialEq, Eq)]
pub enum ChildEvent {
    /// The turn is complete.
    Completed,
    /// Whether a push is possible at all.
    PushReady(bool),
    /// The journal of the turn was read, or could not be.
    JournalRead(Result<Vec<AgentObservation>, String>),
}

/// What the export of a delegated turn does next.
#[derive(Debug, PartialEq, Eq)]
pub enum ChildStep {
    /// Nothing more.
    Stop,
    /// Tell that the journal could not be read, and nothing more.
    ReportReadFailure(String),
    AskWhetherReady,
    ReadJournal,
    /// Push the observations as this trace.
    Push(SubagentTrace),
}

/// What is known of a delegated turn.
#[derive(Debug, PartialEq, Eq)]
pub struct ChildTurn {
    pub journal_run_id: String,
    pub thread_id: Option<String>,
    pub agent_id: String,
    pub task_id: String,
}

/// The user that a trace is told of: by identity, or else by address.
pub open spec fn user_of(identity: Option<UserIdentity>) -> Option<Seq<char>> {
    match identity {
        None => None,
        Some(user) => match user.id {
            Some(id) => Some(id@),
            None => opt_text(user.email),
        },
    }
}

/// A trace stands for a delegated turn: in the conversation of its thread, or else of its task,
/// with the lineage of its first observation.
pub open spec fn trace_stands_for(
    trace: SubagentTrace,
    turn: ChildTurn,
    identity: Option<UserIdentity>,
    capture_content: bool,
    first: AgentObservation,
) -> bool {
    &&& trace.trace_id@ == "subagent:"@ + turn.journal_run_id@
    &&& opt_text(trace.user_id) == user_of(identity)
    &&& trace.session_group@ == (match turn.thread_id {
        Some(thread) => thread@,
        None => turn.task_id@,
    })
    &&& trace.agent_id@ == turn.agent_id@
    &&& trace.channel_source@ == "subagent"@
    &&& trace.run_type == RunType::Subagent
    &&& trace.capture_content == capture_content
    &&& trace.run_id@ == first.run_id@
    &&& opt_text(trace.parent_run_id) == opt_text(first.parent_run_id)
    &&& trace.root_run_id@ == first.root_run_id@
}

/// The trace of a delegated turn.
fn subagent_trace(
    turn: &ChildTurn,
    identity: &Option<UserIdentity>,
    capture_content: bool,
    first: &AgentObservation,
) -> (r: SubagentTrace)
    ensures
        trace_stands_for(r, *turn, *identity, capture_content, *first),
{
    let user_id: Option<String> = match identity {
        None => None,
        Some(user) => match &user.id {
            Some(id) => Some(id.clone()),
            None => copy_opt(&user.email),
        },
    };
    let session_group: String = match &turn.thread_id {
        Some(thread) => thread.clone(),
        None => turn.task_id.clone(),
    };
    SubagentTrace {
        trace_id: cat("subagent:", turn.journal_run_id.as_str()),
        user_id,
        session_group,
        agent_id: turn.agent_id.clone(),
        channel_source: "subagent".to_owned(),
        run_type: RunType::Subagent,
        capture_content,
        run_id: first.run_id.clone(),
        parent_run_id: copy_opt(&first.parent_run_id),
        root_run_id: first.root_run_id.clone(),
    }
}

/// One step of the export of a delegated turn: what it does next, from what it has come to.
pub open spec fn follows(
    observability: ObservabilityConfig,
    turn: ChildTurn,
    identity: Option<UserIdentity>,
    event: ChildEvent,
    step: ChildStep,
) -> bool {
    match event {
        ChildEvent::Completed => step == (if observability.share_usage_data {
            ChildStep::AskWhetherReady
        } else {
            ChildStep::Stop
        }),
        ChildEvent::PushReady(ready) => step == (if ready {
            ChildStep::ReadJournal
        } else {
            ChildStep::Stop
        }),
        ChildEvent::JournalRead(Err(error)) => step == ChildStep::ReportReadFailure(error),
        ChildEvent::JournalRead(Ok(observations)) => if observations@.len() == 0 {
            step == ChildStep::Stop
        } else {
            step is Push && trace_stands_for(
                step->Push_0,
                turn,
                identity,
                observability.agent_tracing.capture_content,
                observations@[0],
            )
        },
    }
}

/// What the export of a delegated turn does next. Usage data has to be shared, and a push has to
/// be possible, before the journal is read at all; a turn that left no observation is not pushed.
pub fn export_subagent_journal_trace(
    observability: &ObservabilityConfig,
    turn: &ChildTurn,
    identity: &Option<UserIdentity>,
    event: ChildEvent,
) -> (r: ChildStep)
    ensures
        follows(*observability, *turn, *identity, event, r),
{
    match event {
        ChildEvent::Completed => if observability.share_usage_data {
            ChildStep::AskWhetherReady
        } else {
            ChildStep::Stop
        },
        ChildEvent::PushReady(ready) => if ready {
            ChildStep::ReadJournal
        } else {
            ChildStep::Stop
        },
        ChildEvent::JournalRead(Err(error)) => ChildStep::ReportReadFailure(error),
        ChildEvent::JournalRead(Ok(observations)) => {
            if observations.len() == 0 {
                return ChildStep::Stop;
            }
            ChildStep::Push(
                subagent_trace(
                    turn,
                    identity,
                    observability.agent_tracing.capture_content,
                    &observations[0],
                ),
            )
        },
    }
}

/// What a step of the export comes to: the answer to what it asked for, and nothing where it was
/// the last.
pub open spec fn comes_to(step: ChildStep, event: ChildEvent) -> bool {
    match step {
        ChildStep::AskWhetherReady => event is PushReady,
        ChildStep::ReadJournal => event is JournalRead,
        _ => false,
    }
}

/// A course of the export of a delegated turn, from its completion on; `identities` is who was
/// known to be the user at each step.
pub open spec fn course(
    observability: ObservabilityConfig,
    turn: ChildTurn,
    identities: Seq<Option<UserIdentity>>,
    events: Seq<ChildEvent>,
    steps: Seq<ChildStep>,
) -> bool {
    &&& events.len() > 0
    &&& steps.len() == events.len()
    &&& identities.len() == events.len()
    &&& events[0] == ChildEvent::Completed
    &&& forall|i: int|
        0 <= i < events.len() ==> follows(
            observability,
            turn,
            identities[i],
            events[i],
            #[trigger] steps[i],
        )
    &&& forall|i: int, j: int|
        0 <= i && j == i + 1 && j < events.len() ==> comes_to(
            #[trigger] steps[i],
            #[trigger] events[j],
        )
}

/// The journal of a delegated turn is read, and its trace pushed, only where usage data is shared
/// and a push was found possible before. The journal is read at most once, its trace is pushed
/// only once it was read and holds an observation, and the export is over after three steps.
pub proof fn law_a_delegated_turn_is_read_and_pushed_only_where_shared(
    observability: ObservabilityConfig,
    turn: ChildTurn,
    identities: Seq<Option<UserIdentity>>,
    events: Seq<ChildEvent>,
    steps: Seq<ChildStep>,
)
    requires
        course(observability, turn, identities, events, steps),
    ensures
        steps.len() <= 3,
        !observability.share_usage_data ==> steps =~= seq![ChildStep::Stop],
        forall|i: int|
            0 <= i < steps.len() && #[trigger] steps[i] is ReadJournal ==> {
                &&& observability.share_usage_data
                &&& i == 1
                &&& events[1] == ChildEvent::PushReady(true)
            },
        forall|i: int|
            0 <= i < steps.len() && #[trigger] steps[i] is Push ==> {
                &&& observability.share_usage_data
                &&& i == 2
                &&& events[1] == ChildEvent::PushReady(true)
                &&& steps[1] is ReadJournal
                &&& events[2] matches ChildEvent::JournalRead(Ok(observations))
                &&& observations@.len() > 0
            },
{
    assert(follows(observability, turn, identities[0], events[0], steps[0]));
    if steps.len() > 1 {
        assert(comes_to(steps[0], events[1]));
        assert(follows(observability, turn, identities[1], events[1], steps[1]));
    }
    if steps.len() > 2 {
        assert(comes_to(steps[1], events[2]));
        assert(follows(observability, turn, identities[2], events[2], steps[2]));
    }
    if steps.len() > 3 {
        assert(comes_to(steps[2], events[3]));
    }
}

/// A trace of a delegated turn tells whose it is and where it belongs: its own identity behind a
/// fixed word, the user by identity or else by address, the conversation of the thread or else of
/// the task, the agent, and the lineage of the first observation; whether content is captured is as
/// configured.
pub proof fn law_a_trace_tells_whose_it_is(
    trace: SubagentTrace,
    turn: ChildTurn,
    identity: Option<UserIdentity>,
    capture_content: bool,
    first: AgentObservation,
)
    requires
        trace_stands_for(trace, turn, identity, capture_content, first),
    ensures
        trace.trace_id@ == "subagent:"@ + turn.journal_run_id@,
        identity is None ==> trace.user_id is None,
        identity is Some && identity->0.id is Some ==> trace.user_id is Some && trace.user_id->0@
            == identity->0.id->0@,
        identity is Some && identity->0.id is None && identity->0.email is Some
            ==> trace.user_id is Some && trace.user_id->0@ == identity->0.email->0@,
        identity is Some && identity->0.id is None && identity->0.email is None
            ==> trace.user_id is None,
        turn.thread_id is Some ==> trace.session_group@ == turn.thread_id->0@,
        turn.thread_id is None ==> trace.session_group@ == turn.task_id@,
        trace.agent_id@ == turn.agent_id@,
        trace.channel_source@ == "subagent"@,
        trace.run_type == RunType::Subagent,
        trace.capture_content == capture_content,
        trace.run_id@ == first.run_id@,
        first.parent_run_id is Some <==> trace.parent_run_id is Some,
        first.parent_run_id is Some ==> trace.parent_run_id->0@ == first.parent_run_id->0@,
        trace.root_run_id@ == first.root_run_id@,
{
}

/// What the export of a delegated turn does next, event by event: nothing where usage data is not
/// shared, a push is not possible or nothing was observed; a journal that could not be read is told
/// with its very error; and a push tells of the first observation.
pub proof fn law_each_event_of_an_export_leads_to_its_step(
    observability: ObservabilityConfig,
    turn: ChildTurn,
    identity: Option<UserIdentity>,
    event: ChildEvent,
    step: ChildStep,
)
    requires
        follows(observability, turn, identity, event, step),
    ensures
        event is Completed && observability.share_usage_data ==> step is AskWhetherReady,
        event is Completed && !observability.share_usage_data ==> step is Stop,
        event is PushReady && event->PushReady_0 ==> step is ReadJournal,
        event is PushReady && !event->PushReady_0 ==> step is Stop,
        event is JournalRead && event->JournalRead_0 is Err ==> step
            == ChildStep::ReportReadFailure(event->JournalRead_0->Err_0),
        event is JournalRead && event->JournalRead_0 is Ok && event->JournalRead_0->Ok_0@.len() == 0
            ==> step is Stop,
        event is JournalRead && event->JournalRead_0 is Ok && event->JournalRead_0->Ok_0@.len() > 0
            ==> step is Push && step->Push_0.run_id@ == event->JournalRead_0->Ok_0@[0].run_id@
            && step->Push_0.trace_id@ == "subagent:"@ + turn.journal_run_id@
            && step->Push_0.capture_content == observability.agent_tracing.capture_content,
{
}

/// The trace of some spans is that of the first, and of none it is empty.
pub proof fn law_spans_are_told_by_the_first(spans: Seq<TraceSpan>)
    ensures
        spans.len() > 0 ==> trace_of(spans) == spans[0].trace_id@,
        spans.len() == 0 ==> trace_of(spans).len() == 0,
{
}

/// The two ways of a run are apart: whether it is pushed goes by the sharing of usage data and what
/// was observed, and whether it is exported locally by the tracing and its spans, and neither by
/// what decides the other.
pub proof fn law_the_two_ways_are_apart(
    a: ObservabilityConfig,
    b: ObservabilityConfig,
    observed: nat,
    spans: nat,
    others: nat,
)
    ensures
        ways(a, observed, spans).push <==> a.share_usage_data && observed > 0,
        ways(a, observed, spans).local <==> a.agent_tracing.enabled && spans > 0,
        a.share_usage_data == b.share_usage_data ==> ways(a, observed, spans).push == ways(
            b,
            observed,
            others,
        ).push,
        a.agent_tracing.enabled == b.agent_tracing.enabled ==> ways(a, observed, spans).local
            == ways(b, others, spans).local,
{
}

/// Spans are exported only where tracing is on and there are some: appended to the file in whole
/// where there is one, and otherwise logged with their number and the trace of the first, without
/// the white space at the end of their text.
pub proof fn law_spans_are_appended_or_logged(
    config: AgentTracingConfig,
    spans: Seq<TraceSpan>,
    payload: String,
    export: SpanExport,
)
    requires
        exported(config, spans, payload, export),
    ensures
        export is Nothing <==> !config.enabled || spans.len() == 0,
        export is Append <==> config.enabled && spans.len() > 0 && config.export_path is Some,
        export is Append ==> export->Append_path@ == config.export_path->0@
            && export->Append_payload@ == payload@ && export->Append_spans == spans.len(),
        export is Log ==> export->Log_spans == spans.len() && export->Log_trace_id@
            == spans[0].trace_id@ && export->Log_body@ == trimmed_end(payload@),
{
}

} // verus!
