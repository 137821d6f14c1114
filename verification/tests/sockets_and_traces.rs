//! The steps of the socket and the ways of a trace.

use openhuman::socket::{
    connect_static, connect_with_session, disconnect, session_token, SocketAction, SocketEvent,
};
use openhuman::trace_export::{
    export_run_trace, export_run_trace_from_journal, export_spans, export_subagent_journal_trace,
    AgentObservation, AgentTracingConfig, ChildEvent, ChildStep, ChildTurn, ObservabilityConfig,
    RunExport, RunType, SpanExport, TraceSpan, UserIdentity,
};

fn course(run: fn(SocketEvent) -> SocketAction, events: Vec<SocketEvent>) -> Vec<SocketAction> {
    events.into_iter().map(run).collect()
}

#[test]
fn a_static_connection_replaces_what_was_connected() {
    assert_eq!(
        course(
            connect_static,
            vec![
                SocketEvent::Asked,
                SocketEvent::IdentityLocked,
                SocketEvent::Disconnected(Ok(())),
                SocketEvent::Connected(Ok(())),
            ],
        ),
        vec![
            SocketAction::LockIdentity,
            SocketAction::Disconnect,
            SocketAction::Connect,
            SocketAction::ReportState,
        ]
    );
    assert_eq!(
        connect_static(SocketEvent::Connected(Err("refused".to_string()))),
        SocketAction::Fail("refused".to_string())
    );
}

#[test]
fn a_disconnection_reports_the_state() {
    assert_eq!(
        course(
            disconnect,
            vec![
                SocketEvent::Asked,
                SocketEvent::IdentityLocked,
                SocketEvent::Disconnected(Ok(())),
            ],
        ),
        vec![SocketAction::LockIdentity, SocketAction::Disconnect, SocketAction::ReportState]
    );
    assert_eq!(
        disconnect(SocketEvent::Disconnected(Err("busy".to_string()))),
        SocketAction::Fail("busy".to_string())
    );
}

#[test]
fn a_live_socket_of_the_session_is_kept() {
    assert_eq!(
        course(
            connect_with_session,
            vec![SocketEvent::Asked, SocketEvent::IdentityLocked, SocketEvent::LiveKnown(true)],
        ),
        vec![SocketAction::LockIdentity, SocketAction::AskWhetherLive, SocketAction::ReportState]
    );
    assert_eq!(
        course(
            connect_with_session,
            vec![
                SocketEvent::LiveKnown(false),
                SocketEvent::Disconnected(Ok(())),
                SocketEvent::Connected(Ok(())),
            ],
        ),
        vec![
            SocketAction::Disconnect,
            SocketAction::ConnectWithProvider,
            SocketAction::ReportState,
        ]
    );
}

#[test]
fn a_session_needs_its_token() {
    assert_eq!(session_token(Ok(Some("t".to_string()))), Ok("t".to_string()));
    assert_eq!(
        session_token(Ok(None)),
        Err("no session token stored — user must log in first".to_string())
    );
    assert_eq!(
        session_token(Err("locked".to_string())),
        Err("failed to read session token: locked".to_string())
    );
}

fn tracing(enabled: bool, path: Option<&str>) -> AgentTracingConfig {
    AgentTracingConfig {
        enabled,
        export_path: path.map(|p| p.to_string()),
        capture_content: true,
    }
}

fn spans(ids: &[&str]) -> Vec<TraceSpan> {
    ids.iter().map(|id| TraceSpan { trace_id: id.to_string() }).collect()
}

#[test]
fn spans_go_to_the_file_or_the_log() {
    let payload = "{}\n{}\n \t\n".to_string();
    assert_eq!(
        export_spans(&tracing(true, Some("/t.ndjson")), &spans(&["a", "b"]), payload.clone()),
        SpanExport::Append { path: "/t.ndjson".to_string(), payload: payload.clone(), spans: 2 }
    );
    assert_eq!(
        export_spans(&tracing(true, None), &spans(&["a", "b"]), payload.clone()),
        SpanExport::Log { spans: 2, trace_id: "a".to_string(), body: "{}\n{}".to_string() }
    );
    assert_eq!(
        export_spans(&tracing(false, None), &spans(&["a"]), payload.clone()),
        SpanExport::Nothing
    );
    assert_eq!(export_spans(&tracing(true, None), &spans(&[]), payload), SpanExport::Nothing);
}

fn observability(share: bool, enabled: bool) -> ObservabilityConfig {
    ObservabilityConfig { share_usage_data: share, agent_tracing: tracing(enabled, None) }
}

#[test]
fn the_two_ways_of_a_trace_are_apart() {
    for share in [true, false] {
        for enabled in [true, false] {
            let config = observability(share, enabled);
            assert_eq!(
                export_run_trace(&config, &spans(&["a"])),
                RunExport { push: share, local: enabled }
            );
            assert_eq!(
                export_run_trace(&config, &spans(&[])),
                RunExport { push: false, local: false }
            );
            assert_eq!(
                export_run_trace_from_journal(&config, 2, &spans(&[])),
                RunExport { push: share, local: false }
            );
            assert_eq!(
                export_run_trace_from_journal(&config, 0, &spans(&["a"])),
                RunExport { push: false, local: enabled }
            );
            assert_eq!(
                export_run_trace_from_journal(&config, 0, &spans(&[])),
                RunExport { push: false, local: false }
            );
        }
    }
}

fn turn(thread: Option<&str>) -> ChildTurn {
    ChildTurn {
        journal_run_id: "run-7".to_string(),
        thread_id: thread.map(|t| t.to_string()),
        agent_id: "researcher".to_string(),
        task_id: "task-1".to_string(),
    }
}

fn observation() -> AgentObservation {
    AgentObservation {
        run_id: "child".to_string(),
        parent_run_id: Some("parent".to_string()),
        root_run_id: "root".to_string(),
    }
}

#[test]
fn a_delegated_turn_is_a_trace_of_its_conversation() {
    let config = observability(true, false);
    let step = |turn: &ChildTurn, who: &Option<UserIdentity>, event: ChildEvent| {
        export_subagent_journal_trace(&config, turn, who, event)
    };
    assert_eq!(step(&turn(None), &None, ChildEvent::Completed), ChildStep::AskWhetherReady);
    assert_eq!(step(&turn(None), &None, ChildEvent::PushReady(true)), ChildStep::ReadJournal);
    assert_eq!(step(&turn(None), &None, ChildEvent::PushReady(false)), ChildStep::Stop);
    assert_eq!(
        step(&turn(None), &None, ChildEvent::JournalRead(Ok(Vec::new()))),
        ChildStep::Stop
    );
    assert_eq!(
        step(&turn(None), &None, ChildEvent::JournalRead(Err("gone".to_string()))),
        ChildStep::ReportReadFailure("gone".to_string())
    );
    let who = Some(UserIdentity { id: None, email: Some("a@b.c".to_string()) });
    let read = ChildEvent::JournalRead(Ok(vec![observation()]));
    match step(&turn(Some("thread-3")), &who, read) {
        ChildStep::Push(trace) => {
            assert_eq!(trace.trace_id, "subagent:run-7");
            assert_eq!(trace.user_id.as_deref(), Some("a@b.c"));
            assert_eq!(trace.session_group, "thread-3");
            assert_eq!(trace.agent_id, "researcher");
            assert_eq!(trace.channel_source, "subagent");
            assert_eq!(trace.run_type, RunType::Subagent);
            assert!(trace.capture_content);
            assert_eq!(trace.run_id, "child");
            assert_eq!(trace.parent_run_id.as_deref(), Some("parent"));
            assert_eq!(trace.root_run_id, "root");
        }
        other => panic!("expected a push, got {other:?}"),
    }
    let who = Some(UserIdentity {
        id: Some("user-1".to_string()),
        email: Some("a@b.c".to_string()),
    });
    let read = ChildEvent::JournalRead(Ok(vec![observation()]));
    match step(&turn(None), &who, read) {
        ChildStep::Push(trace) => {
            assert_eq!(trace.user_id.as_deref(), Some("user-1"));
            assert_eq!(trace.session_group, "task-1");
        }
        other => panic!("expected a push, got {other:?}"),
    }
    assert_eq!(
        export_subagent_journal_trace(
            &observability(false, true),
            &turn(None),
            &None,
            ChildEvent::Completed
        ),
        ChildStep::Stop
    );
}

#[test]
fn a_delegated_turn_is_read_and_pushed_only_where_shared_and_ready() {
    for shared in [false, true] {
        for ready in [false, true] {
            let config = observability(shared, true);
            let mut event = Some(ChildEvent::Completed);
            let mut steps = Vec::new();
            while let Some(come_to) = event {
                let step = export_subagent_journal_trace(&config, &turn(None), &None, come_to);
                event = match &step {
                    ChildStep::AskWhetherReady => Some(ChildEvent::PushReady(ready)),
                    ChildStep::ReadJournal => {
                        Some(ChildEvent::JournalRead(Ok(vec![observation()])))
                    }
                    _ => None,
                };
                steps.push(step);
            }
            let pushed = matches!(steps.last(), Some(ChildStep::Push(_)));
            assert_eq!(pushed, shared && ready);
            assert_eq!(steps.contains(&ChildStep::ReadJournal), shared && ready);
            assert_eq!(steps.len(), if !shared { 1 } else if ready { 3 } else { 2 });
        }
    }
}
