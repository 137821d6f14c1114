//! A turn of the agent.

use openhuman::session::failure::{DriverError, DriverFailure, DriverOutcome};
use openhuman::session::messages::{
    copy_messages, latest_user_text, replace_reply, trim_history, Message, Role,
};
use openhuman::session::run::{can_advance, Stage, TurnAction, TurnEvent};
use openhuman::session::snapshot::{
    driver_error_with_snapshot, CostBasis, FailureRendering, ResolvedRoute, SessionTurnSidecar,
    ToolCallOutcome, TranscriptSnapshot,
};
use openhuman::session::tools::{ensure_snapshot_tools_are_executable, visible_tool_names};
use openhuman::session::turn::{
    GroundedClose, OpenHumanSessionDriver, TurnOutcome, TurnRequest, Usage, EXHAUSTED_FALLBACK,
};

const STALLED: &str = "model generation stalled";

fn rendering(accepted_end: usize) -> FailureRendering {
    FailureRendering {
        accepted_end,
        unanswered: None,
        evidence: String::new(),
        stalled_words: STALLED.to_string(),
    }
}

fn value(text: &str) -> serde_json::Value {
    serde_json::from_str(text).unwrap()
}

#[test]
fn graph_failure_persists_only_accepted_snapshot_history() {
    let snapshot = TranscriptSnapshot {
        messages: vec![
            Message::system("stable prefix"),
            Message::user("request"),
            Message::assistant("provider reply not yet accepted by a later request"),
        ],
        accepted_len: 2,
        request_base_len: 2,
        ..Default::default()
    };
    let mut sidecar = SessionTurnSidecar::default();
    let failure = driver_error_with_snapshot(
        "provider rejected follow-up",
        &snapshot,
        &rendering(2),
        &mut sidecar,
        1_000_000,
        "chat-v1",
    );
    let partial = failure.partial.expect("snapshot should produce a partial");
    assert_eq!(partial.history.len(), 2);
    assert_eq!(partial.history[0].text, "stable prefix");
    assert_eq!(partial.history[1].text, "request");
    let display = partial.partial.expect("display partial");
    assert!(display.contains("provider rejected follow-up"));
    assert_eq!(display, "The turn stopped before completion: provider rejected follow-up.");
    assert!(partial.interrupted);
    assert_eq!(partial.output, None);
    assert_eq!(sidecar.cost, CostBasis::Estimated { model: "chat-v1".to_string() });
}

#[test]
fn stalled_model_stream_reports_completed_evidence_instead_of_its_narration() {
    let snapshot = TranscriptSnapshot {
        messages: vec![Message::user("Find information about Jev")],
        accepted_len: 1,
        request_base_len: 1,
        tool_outcomes: vec![ToolCallOutcome {
            call_id: "search-1".into(),
            name: "web_search_tool".into(),
            arguments: value(r#"{"query": "Jev TypeSafe"}"#),
            success: true,
            content: "TypeSafe describes Jev as a System One model".into(),
            duration_ms: 12,
        }],
        ..Default::default()
    };
    let rendering = FailureRendering {
        accepted_end: 1,
        unanswered: Some("Let me look further".to_string()),
        evidence: snapshot.tool_outcomes[0].content.clone(),
        stalled_words: STALLED.to_string(),
    };
    let mut sidecar = SessionTurnSidecar::default();
    let failure = driver_error_with_snapshot(
        STALLED,
        &snapshot,
        &rendering,
        &mut sidecar,
        1_000_000,
        "chat-v1",
    );
    let partial = failure.partial.expect("interrupted partial");
    let display = partial.partial.expect("display partial");
    assert!(display.contains("stopped a repetitive model response"));
    assert!(display.contains("TypeSafe describes Jev as a System One model"));
    assert!(!display.contains("Let me"));
}

#[test]
fn graph_failure_copies_snapshot_usage_and_failed_tool_outcome_to_sidecar() {
    let snapshot = TranscriptSnapshot {
        messages: vec![Message::user("request"), Message::tool("call-1", "denied")],
        accepted_len: 1,
        request_base_len: 1,
        input_tokens: 21,
        output_tokens: 8,
        cached_input_tokens: 3,
        charged: true,
        resolved_route: Some(ResolvedRoute {
            provider: "openhuman".to_string(),
            model: "chat-concrete".to_string(),
            route: "chat-v1".to_string(),
        }),
        pricing_model: None,
        model_calls: 2,
        tool_outcomes: vec![ToolCallOutcome {
            call_id: "call-1".into(),
            name: "write_file".into(),
            arguments: value(r#"{"path": "blocked.txt"}"#),
            success: false,
            content: "denied".into(),
            duration_ms: 17,
        }],
    };
    let mut observed = SessionTurnSidecar::default();
    let failure = driver_error_with_snapshot(
        "tool follow-up was rejected",
        &snapshot,
        &rendering(1),
        &mut observed,
        25_000_000,
        "chat-v1",
    );
    let partial = failure.partial.expect("recoverable snapshot partial");
    assert_eq!(partial.history, vec![Message::user("request")]);
    assert_eq!(
        (
            observed.model_calls,
            observed.input_tokens,
            observed.output_tokens,
            observed.cached_input_tokens
        ),
        (2, 21, 8, 3)
    );
    assert_eq!(observed.cost, CostBasis::Charged);
    let route = observed.resolved_route.as_ref().expect("accepted route reaches sidecar");
    assert_eq!(
        (route.provider.as_str(), route.model.as_str(), route.route.as_str()),
        ("openhuman", "chat-concrete", "chat-v1")
    );
    assert_eq!(observed.tool_calls, 1);
    assert_eq!(observed.duration_nanos, Some(25_000_000));
    assert_eq!(observed.tool_outcomes.len(), 1);
    let failure = &observed.tool_outcomes[0];
    assert!(!failure.success, "completed failure state survives graph error");
    assert_eq!(failure.content, "denied");
    assert_eq!(failure.arguments, value(r#"{"path": "blocked.txt"}"#));
    assert_eq!(failure.duration_ms, 17);
}

#[test]
fn tool_snapshot_with_no_executable_source_fails_closed_before_graph() {
    let visible = vec!["revoked_tool".to_string()];
    let error = ensure_snapshot_tools_are_executable(&visible, &Vec::new(), &Vec::new())
        .expect_err("a declared tool must have a request-scoped executable source");
    match error.error {
        DriverError::Message(message) => {
            assert!(message.contains("revoked_tool"));
            assert_eq!(
                message,
                "session tool snapshot declares non-executable tools: revoked_tool"
            );
        }
        other => panic!("unexpected error: {other:?}"),
    }
}

#[test]
fn every_missing_tool_is_named_and_sources_may_hold_more() {
    let names = |list: &[&str]| list.iter().map(|n| n.to_string()).collect::<Vec<String>>();
    let visible = visible_tool_names(&names(&["a", "b", "a", "c"]));
    assert_eq!(visible, names(&["a", "b", "c"]));
    assert!(
        ensure_snapshot_tools_are_executable(&visible, &names(&["a", "z"]), &names(&["c", "b"]))
            .is_ok()
    );
    let error =
        ensure_snapshot_tools_are_executable(&visible, &names(&["b"]), &names(&[])).unwrap_err();
    assert_eq!(
        error.error,
        DriverError::Message(
            "session tool snapshot declares non-executable tools: a, c".to_string()
        )
    );
}

#[test]
fn a_failed_turn_without_messages_keeps_nothing_and_prices_by_its_route() {
    let snapshot = TranscriptSnapshot {
        resolved_route: Some(ResolvedRoute {
            provider: "p".to_string(),
            model: "m".to_string(),
            route: "fast-v2".to_string(),
        }),
        ..Default::default()
    };
    let mut sidecar = SessionTurnSidecar { hit_cap: true, ..Default::default() };
    let failure =
        driver_error_with_snapshot("down", &snapshot, &rendering(0), &mut sidecar, 5, "chat-v1");
    assert_eq!(failure.error, DriverError::Message("down".to_string()));
    assert!(failure.partial.is_none());
    assert_eq!(sidecar.cost, CostBasis::Estimated { model: "fast-v2".to_string() });
    assert!(sidecar.hit_cap, "the cap flags stay");

    let blank = TranscriptSnapshot {
        messages: vec![Message::user("hi")],
        resolved_route: Some(ResolvedRoute {
            provider: "p".to_string(),
            model: "m".to_string(),
            route: " \t".to_string(),
        }),
        ..Default::default()
    };
    let told = FailureRendering {
        accepted_end: 0,
        unanswered: Some("- read a page".to_string()),
        evidence: String::new(),
        stalled_words: STALLED.to_string(),
    };
    let failure = driver_error_with_snapshot("down", &blank, &told, &mut sidecar, 5, "chat-v1");
    assert_eq!(sidecar.cost, CostBasis::Estimated { model: "chat-v1".to_string() });
    let partial = failure.partial.unwrap();
    assert!(partial.history.is_empty());
    assert_eq!(
        partial.partial.as_deref(),
        Some("The turn stopped before completion: down.\n\n- read a page")
    );
}

#[test]
fn a_history_is_cut_behind_its_system_messages() {
    let mut history = vec![
        Message::system("a"),
        Message::system("b"),
        Message::user("1"),
        Message::system("late"),
        Message::assistant("2"),
        Message::user("3"),
    ];
    trim_history(&mut history, 2);
    let texts: Vec<&str> = history.iter().map(|m| m.text.as_str()).collect();
    assert_eq!(texts, vec!["a", "b", "2", "3"]);
    trim_history(&mut history, 2);
    assert_eq!(history.len(), 4);
    trim_history(&mut history, 0);
    assert_eq!(history.len(), 2);
    trim_history(&mut history, 9);
    assert_eq!(history.len(), 2);
}

#[test]
fn the_reply_takes_the_place_of_a_final_assistant_message_only() {
    let mut history = vec![Message::user("q"), Message::assistant("draft")];
    assert_eq!(latest_user_text(&history), "q");
    assert_eq!(copy_messages(&history, 1), vec![Message::user("q")]);
    replace_reply(&mut history, "answer");
    assert_eq!(history, vec![Message::user("q"), Message::assistant("answer")]);
    history.push(Message::tool("c", "out"));
    replace_reply(&mut history, "done");
    assert_eq!(history.len(), 4);
    assert_eq!(history[3].role, Role::Assistant);
    assert_eq!(latest_user_text(&vec![Message::system("s")]), "");
}

fn driver() -> OpenHumanSessionDriver {
    OpenHumanSessionDriver::new("chat-v1".to_string(), 3, 4, false)
}

fn request() -> TurnRequest {
    TurnRequest {
        history: vec![Message::system("prefix"), Message::user("hello")],
        has_tool_policy: true,
        has_context: true,
        declared_tools: vec!["read".to_string()],
        tools: Some(vec!["read".to_string()]),
        synthesized_tools: Some(Vec::new()),
        snapshot: None,
    }
}

fn outcome(text: &str) -> TurnOutcome {
    TurnOutcome {
        text: text.to_string(),
        resolved_route: None,
        model_calls: 2,
        tool_calls: 1,
        input_tokens: 100,
        output_tokens: 20,
        cached_input_tokens: 7,
        early_exit_tool: None,
        hit_cap: false,
        wrap_up_injected: false,
        breaker_halt: None,
        tool_outcomes: Vec::new(),
    }
}

fn tool_outcome() -> ToolCallOutcome {
    ToolCallOutcome {
        call_id: "c".to_string(),
        name: "read".to_string(),
        arguments: value("{}"),
        success: true,
        content: "three items".to_string(),
        duration_ms: 1,
    }
}

fn started(driver: &OpenHumanSessionDriver) -> Stage {
    let (stage, action) = driver.start(request());
    assert!(matches!(action, TurnAction::BuildModels));
    let mut sidecar = SessionTurnSidecar::default();
    let (stage, action) =
        driver.advance(stage, TurnEvent::ModelsBuilt(Ok((true, true))), &mut sidecar);
    match action {
        TurnAction::RunGraph { plan } => {
            assert!(plan.rehydrate_images);
            assert_eq!(plan.visible_tool_names, vec!["read".to_string()]);
            assert_eq!(plan.max_iterations, 3);
        }
        other => panic!("expected the graph, got {other:?}"),
    }
    stage
}

fn failure_of(action: TurnAction) -> DriverFailure {
    match action {
        TurnAction::Deliver(Err(failure)) => failure,
        other => panic!("expected a failure, got {other:?}"),
    }
}

fn outcome_of(action: TurnAction) -> DriverOutcome {
    match action {
        TurnAction::Deliver(Ok(outcome)) => outcome,
        other => panic!("expected an outcome, got {other:?}"),
    }
}

#[test]
fn a_request_brings_its_own_policy_context_and_tools() {
    let driver = driver();
    let message = |request: TurnRequest| {
        let (stage, action) = driver.start(request);
        let action = match stage {
            Stage::Ended => action,
            stage => {
                let mut sidecar = SessionTurnSidecar::default();
                driver.advance(stage, TurnEvent::ModelsBuilt(Ok((false, false))), &mut sidecar).1
            }
        };
        match failure_of(action).error {
            DriverError::Message(message) => message,
            other => panic!("unexpected error: {other:?}"),
        }
    };
    let mut bare = request();
    bare.has_tool_policy = false;
    bare.has_context = false;
    assert_eq!(message(bare), "session turn is missing its request-scoped tool policy");
    let mut bare = request();
    bare.has_context = false;
    assert_eq!(message(bare), "session turn is missing its request-scoped context");
    let mut bare = request();
    bare.tools = None;
    bare.synthesized_tools = None;
    assert_eq!(message(bare), "session turn is missing request-scoped tools");
    let mut bare = request();
    bare.synthesized_tools = None;
    assert_eq!(message(bare), "session turn is missing request-scoped synthesized tools");
    let mut bare = request();
    bare.tools = Some(Vec::new());
    assert_eq!(message(bare), "session tool snapshot declares non-executable tools: read");
}

#[test]
fn the_models_may_fail_and_images_are_read_only_where_they_are_seen() {
    let driver = driver();
    let mut sidecar = SessionTurnSidecar::default();
    let (stage, _) = driver.start(request());
    let (stage, action) = driver.advance(
        stage,
        TurnEvent::ModelsBuilt(Err("no provider".to_string())),
        &mut sidecar,
    );
    assert!(matches!(stage, Stage::Ended));
    assert_eq!(failure_of(action).error, DriverError::Message("no provider".to_string()));
    let (stage, _) = driver.start(request());
    match driver.advance(stage, TurnEvent::ModelsBuilt(Ok((false, true))), &mut sidecar).1 {
        TurnAction::RunGraph { plan } => assert!(!plan.rehydrate_images),
        other => panic!("expected the graph, got {other:?}"),
    }
}

#[test]
fn the_snapshot_of_a_request_is_priced_at_the_model_of_the_session() {
    let driver = driver();
    let turn = driver.begin(request()).unwrap();
    assert_eq!(turn.snapshot.request_base_len, 2);
    assert_eq!(turn.snapshot.pricing_model.as_deref(), Some("chat-v1"));
    assert_eq!(turn.user_message, "hello");
    let mut own = request();
    own.snapshot = Some(TranscriptSnapshot {
        pricing_model: Some("other".to_string()),
        input_tokens: 9,
        ..Default::default()
    });
    let turn = driver.begin(own).unwrap();
    assert_eq!(turn.snapshot.pricing_model.as_deref(), Some("other"));
    assert_eq!(turn.snapshot.input_tokens, 9);
}

#[test]
fn a_plain_turn_runs_to_its_reply() {
    let driver = driver();
    let mut sidecar = SessionTurnSidecar::default();
    let stage = started(&driver);
    let (stage, action) = driver.advance(
        stage,
        TurnEvent::GraphEnded { outcome: outcome("hi there") },
        &mut sidecar,
    );
    assert!(matches!(action, TurnAction::CloseIfNeeded));
    let (stage, action) = driver.advance(stage, TurnEvent::Closed { close: None }, &mut sidecar);
    assert!(matches!(action, TurnAction::ConvertRounds));
    let rounds = vec![Message::assistant("hi there")];
    let (stage, action) = driver.advance(
        stage,
        TurnEvent::RoundsConverted { rounds, required: false, has_progress: false },
        &mut sidecar,
    );
    assert!(matches!(action, TurnAction::MeasureDuration));
    assert_eq!(sidecar.model_calls, 0, "nothing is published before the end");
    let event = TurnEvent::Measured { elapsed_nanos: 11 };
    assert!(can_advance(&stage, &event));
    let (stage, action) = driver.advance(stage, event, &mut sidecar);
    assert!(matches!(stage, Stage::Ended));
    let done = outcome_of(action);
    assert_eq!(done.output.as_deref(), Some("hi there"));
    assert_eq!(
        done.history,
        vec![Message::system("prefix"), Message::user("hello"), Message::assistant("hi there")]
    );
    assert!(!done.interrupted);
    assert_eq!(done.partial, None);
    assert_eq!(
        (sidecar.model_calls, sidecar.tool_calls, sidecar.input_tokens, sidecar.output_tokens),
        (2, 1, 100, 20)
    );
    assert_eq!(sidecar.cached_input_tokens, 7);
    assert_eq!(sidecar.duration_nanos, Some(11));
    assert_eq!(sidecar.cost, CostBasis::Charged);
    let (stage, action) =
        driver.advance(stage, TurnEvent::Measured { elapsed_nanos: 12 }, &mut sidecar);
    assert!(matches!(stage, Stage::Ended));
    assert!(matches!(action, TurnAction::Unexpected));
    assert_eq!(sidecar.duration_nanos, Some(11));
}

#[test]
fn a_closing_call_and_a_repair_write_the_reply_and_count() {
    let driver = driver();
    let mut sidecar = SessionTurnSidecar::default();
    let stage = started(&driver);
    let mut graph = outcome("draft");
    graph.tool_outcomes = vec![tool_outcome()];
    let (stage, _) =
        driver.advance(stage, TurnEvent::GraphEnded { outcome: graph }, &mut sidecar);
    let close = GroundedClose {
        output: "closed".to_string(),
        usage: Usage { model_calls: 1, input_tokens: 10, output_tokens: 2, cached_input_tokens: 1 },
    };
    let (stage, _) = driver.advance(stage, TurnEvent::Closed { close: Some(close) }, &mut sidecar);
    let rounds = vec![Message::tool("c", "three items"), Message::assistant("draft")];
    let (stage, action) = driver.advance(
        stage,
        TurnEvent::RoundsConverted { rounds, required: true, has_progress: true },
        &mut sidecar,
    );
    match action {
        TurnAction::RepairRequiredOutput { stream, iteration } => {
            assert!(!stream, "a closed turn shows no progress");
            assert_eq!(iteration, 3);
        }
        other => panic!("expected a repair, got {other:?}"),
    }
    let repair = GroundedClose {
        output: "repaired".to_string(),
        usage: Usage { model_calls: 1, input_tokens: 5, output_tokens: 1, cached_input_tokens: 0 },
    };
    let (stage, _) =
        driver.advance(stage, TurnEvent::Repaired { repair: Some(repair) }, &mut sidecar);
    let (_, action) =
        driver.advance(stage, TurnEvent::Measured { elapsed_nanos: 1 }, &mut sidecar);
    let done = outcome_of(action);
    assert_eq!(done.output.as_deref(), Some("repaired"));
    let texts: Vec<&str> = done.history.iter().map(|m| m.text.as_str()).collect();
    assert_eq!(texts, vec!["prefix", "hello", "three items", "repaired"]);
    assert_eq!(sidecar.model_calls, 4);
    assert_eq!(sidecar.input_tokens, 115);
    assert_eq!(sidecar.output_tokens, 23);
    assert_eq!(sidecar.cached_input_tokens, 8);
    assert_eq!(sidecar.tool_outcomes, vec![tool_outcome()]);
}

#[test]
fn a_classified_halt_is_completed_without_another_call() {
    let driver = driver();
    let mut sidecar = SessionTurnSidecar::default();
    let stage = started(&driver);
    let mut graph = outcome("partial work");
    graph.breaker_halt = Some("Stopping after 1 attempt(s): blocked".to_string());
    let (stage, _) =
        driver.advance(stage, TurnEvent::GraphEnded { outcome: graph }, &mut sidecar);
    let (stage, _) = driver.advance(stage, TurnEvent::Closed { close: None }, &mut sidecar);
    let rounds = vec![Message::assistant("partial work")];
    let (stage, action) = driver.advance(
        stage,
        TurnEvent::RoundsConverted { rounds, required: true, has_progress: false },
        &mut sidecar,
    );
    assert!(matches!(action, TurnAction::CheckRequiredOutput));
    let event = TurnEvent::OutputChecked { satisfied: false, block: "[block]".to_string() };
    let (stage, _) = driver.advance(stage, event, &mut sidecar);
    let (_, action) =
        driver.advance(stage, TurnEvent::Measured { elapsed_nanos: 1 }, &mut sidecar);
    let done = outcome_of(action);
    assert_eq!(done.output.as_deref(), Some("partial work\n\n[block]"));
    assert_eq!(done.history.last().unwrap().text, "partial work\n\n[block]");
    assert_eq!(done.history.len(), 3);
}

#[test]
fn an_empty_answer_is_an_error_and_a_used_up_loop_is_capped() {
    let driver = driver();
    let mut sidecar = SessionTurnSidecar::default();
    let stage = started(&driver);
    let (stage, action) =
        driver.advance(stage, TurnEvent::GraphEnded { outcome: outcome(" \n") }, &mut sidecar);
    assert!(matches!(stage, Stage::Ended));
    assert_eq!(
        failure_of(action).error,
        DriverError::EmptyProviderResponse { iteration: 2 }
    );

    let mut silent = outcome("");
    silent.tool_outcomes = vec![tool_outcome()];
    driver.settle(&mut silent).unwrap();
    assert!(!silent.hit_cap);
    silent.model_calls = 3;
    driver.settle(&mut silent).unwrap();
    assert!(silent.hit_cap);

    let mut fallback = outcome(EXHAUSTED_FALLBACK);
    fallback.wrap_up_injected = true;
    driver.settle(&mut fallback).unwrap();
    assert!(fallback.hit_cap);
    assert!(!fallback.wrap_up_injected);

    let mut early = outcome("left");
    early.hit_cap = true;
    driver.settle(&mut early).unwrap();
    assert!(early.hit_cap, "a reported cap stays");
}

#[test]
fn a_silent_turn_that_fell_back_gets_a_checkpoint() {
    let driver = driver();
    let mut sidecar = SessionTurnSidecar::default();
    let stage = started(&driver);
    let mut graph = outcome("");
    graph.tool_outcomes = vec![tool_outcome()];
    graph.tool_calls = 3;
    let (stage, _) =
        driver.advance(stage, TurnEvent::GraphEnded { outcome: graph }, &mut sidecar);
    let close = GroundedClose {
        output: format!("{EXHAUSTED_FALLBACK} More."),
        usage: Usage { model_calls: 0, input_tokens: 0, output_tokens: 0, cached_input_tokens: 0 },
    };
    let (stage, action) =
        driver.advance(stage, TurnEvent::Closed { close: Some(close) }, &mut sidecar);
    assert!(matches!(action, TurnAction::WriteCheckpoint));
    let (stage, _) = driver.advance(
        stage,
        TurnEvent::CheckpointWritten { text: "checkpoint".to_string() },
        &mut sidecar,
    );
    let (stage, _) = driver.advance(
        stage,
        TurnEvent::RoundsConverted { rounds: Vec::new(), required: false, has_progress: false },
        &mut sidecar,
    );
    let (_, action) =
        driver.advance(stage, TurnEvent::Measured { elapsed_nanos: 1 }, &mut sidecar);
    let done = outcome_of(action);
    assert_eq!(done.output.as_deref(), Some("checkpoint"));
    assert_eq!(done.history.last().unwrap(), &Message::assistant("checkpoint"));
    assert!(done.interrupted);
    assert!(sidecar.hit_cap);
}

#[test]
fn a_failed_graph_ends_the_turn_with_what_was_accepted() {
    let driver = driver();
    let mut sidecar = SessionTurnSidecar::default();
    let stage = started(&driver);
    let snapshot = TranscriptSnapshot {
        messages: vec![Message::user("hello"), Message::assistant("unaccepted")],
        model_calls: 1,
        ..Default::default()
    };
    let event = TurnEvent::GraphFailed {
        error: "gone".to_string(),
        snapshot,
        rendering: rendering(3),
        elapsed_nanos: 4,
    };
    assert!(!can_advance(&stage, &event));
    let snapshot = TranscriptSnapshot {
        messages: vec![Message::user("hello"), Message::assistant("unaccepted")],
        model_calls: 1,
        ..Default::default()
    };
    let event = TurnEvent::GraphFailed {
        error: "gone".to_string(),
        snapshot,
        rendering: rendering(1),
        elapsed_nanos: 4,
    };
    assert!(can_advance(&stage, &event));
    let (stage, action) = driver.advance(stage, event, &mut sidecar);
    assert!(matches!(stage, Stage::Ended));
    let failure = failure_of(action);
    assert_eq!(failure.partial.unwrap().history, vec![Message::user("hello")]);
    assert_eq!(sidecar.model_calls, 1);
    assert_eq!(sidecar.duration_nanos, Some(4));
}

#[test]
fn usage_beyond_a_machine_word_does_not_fit() {
    let driver = driver();
    let mut sidecar = SessionTurnSidecar::default();
    let stage = started(&driver);
    let mut graph = outcome("x");
    graph.input_tokens = u64::MAX;
    let (stage, _) =
        driver.advance(stage, TurnEvent::GraphEnded { outcome: graph }, &mut sidecar);
    let close = GroundedClose {
        output: "y".to_string(),
        usage: Usage { model_calls: 1, input_tokens: 1, output_tokens: 0, cached_input_tokens: 0 },
    };
    let (stage, _) = driver.advance(stage, TurnEvent::Closed { close: Some(close) }, &mut sidecar);
    let (stage, _) = driver.advance(
        stage,
        TurnEvent::RoundsConverted { rounds: Vec::new(), required: false, has_progress: false },
        &mut sidecar,
    );
    assert!(!can_advance(&stage, &TurnEvent::Measured { elapsed_nanos: 1 }));
}

#[test]
fn a_turn_is_closed_on_the_latest_message_of_the_user() {
    let driver = driver();
    let mut sidecar = SessionTurnSidecar::default();
    let mut asked = request();
    asked.history = vec![
        Message::system("prefix"),
        Message::user("first"),
        Message::assistant("one"),
        Message::user("second"),
        Message::assistant("two"),
    ];
    let (stage, _) = driver.start(asked);
    let (stage, _) =
        driver.advance(stage, TurnEvent::ModelsBuilt(Ok((false, false))), &mut sidecar);
    let (stage, action) = driver.advance(
        stage,
        TurnEvent::GraphEnded { outcome: outcome("three") },
        &mut sidecar,
    );
    assert!(matches!(action, TurnAction::CloseIfNeeded));
    match stage {
        Stage::Closing { history, user_message, outcome } => {
            assert_eq!(history.len(), 5);
            assert_eq!(user_message, "second");
            assert_eq!(outcome.text, "three");
        }
        other => panic!("expected the close, got {other:?}"),
    }
}
