//! What a session lets the model do with its tools.

use openhuman::session::messages::{Message, Role};
use openhuman::tools::policy::{
    channel_permission_block, inner_tool, InnerRoute, PolicyDenial, SessionDecision, ToolCall,
};
use openhuman::tools::research::{
    ModelRequest, ResearchBudgetMiddleware, ToolChoice, DIRECT_WEB_READ_LIMIT,
    RESEARCH_CLOSE_INSTRUCTION,
};
use openhuman::tools::search::{
    bind_tool_search_index, strip_deferred_from_visible, IndexBinding, RegisteredTool,
    ToolExposure, ToolSpec, TOOL_SEARCH_NAME,
};

fn research_request() -> ModelRequest {
    ModelRequest {
        messages: vec![Message::user("Find more information about Jev from TypeSafe")],
        tools: vec!["web_search_tool".to_string()],
        tool_choice: ToolChoice::Auto,
    }
}

#[test]
fn web_research_concludes_after_eight_reads() {
    let mut mw = ResearchBudgetMiddleware::new();
    for i in 0..7 {
        let name = if i % 2 == 0 { "web_search_tool" } else { "web_fetch" };
        mw.after_tool(name);
    }
    let mut request = research_request();
    mw.before_model(&mut request);
    assert_eq!(request.tools.len(), 1);
    assert_eq!(request, research_request());

    mw.after_tool("web_fetch");
    let mut request = research_request();
    mw.before_model(&mut request);
    assert!(request.tools.is_empty());
    assert_eq!(request.tool_choice, ToolChoice::Forbidden);
    assert!(request.messages.last().unwrap().text.contains("Answer"));
    assert_eq!(request.messages.len(), 2);
    assert_eq!(request.messages[1].role, Role::User);
    assert_eq!(request.messages[1].text, RESEARCH_CLOSE_INSTRUCTION);
}

#[test]
fn unrelated_tools_do_not_spend_the_web_research_budget() {
    let mut mw = ResearchBudgetMiddleware::new();
    for _ in 0..10 {
        mw.after_tool("file_read");
    }
    let mut request = research_request();
    mw.before_model(&mut request);
    assert_eq!(request.tools.len(), 1);
    assert_eq!(mw.completed_reads, 0);
    assert_eq!(mw.name(), "research_budget");
    assert_eq!(DIRECT_WEB_READ_LIMIT, 8);
}

#[test]
fn the_count_of_reads_wraps_around() {
    let mut mw = ResearchBudgetMiddleware { completed_reads: usize::MAX };
    mw.after_tool("web_fetch");
    assert_eq!(mw.completed_reads, 0);
}

fn call(name: &str, arguments: &str) -> ToolCall {
    ToolCall { name: name.to_string(), arguments: serde_json::from_str(arguments).unwrap() }
}

fn allowed() -> SessionDecision {
    SessionDecision { denied: false, required_permission: 1, allowed_permission: 2 }
}

fn open_route(_name: &str) -> InnerRoute {
    InnerRoute { blocks_execution: false, hint: None }
}

#[test]
fn the_gate_asks_the_session_then_the_permission_then_the_packed_tool() {
    let plain = call("shell", "{}");
    let denied = SessionDecision { denied: true, required_permission: 3, allowed_permission: 2 };
    assert_eq!(
        channel_permission_block(&plain, "cli", &denied, Some(9), open_route),
        Some(PolicyDenial::SessionForbidden {
            tool: "shell".to_string(),
            required: 3,
            allowed: 2,
            channel: "cli".to_string(),
        })
    );
    assert_eq!(
        channel_permission_block(&plain, "cli", &allowed(), Some(3), open_route),
        Some(PolicyDenial::PermissionTooLow {
            tool: "shell".to_string(),
            required: 3,
            allowed: 2,
            channel: "cli".to_string(),
        })
    );
    assert_eq!(channel_permission_block(&plain, "cli", &allowed(), Some(2), open_route), None);
    assert_eq!(channel_permission_block(&plain, "cli", &allowed(), None, open_route), None);
}

#[test]
fn use_skill_reaches_no_blocked_tool() {
    let packed = call("use_skill", r#"{"tool": "send_mail", "args": {}}"#);
    assert_eq!(inner_tool(&packed).as_deref(), Some("send_mail"));
    let asked = std::cell::RefCell::new(String::new());
    let denial = channel_permission_block(&packed, "cli", &allowed(), Some(1), |name: &str| {
        *asked.borrow_mut() = name.to_string();
        InnerRoute { blocks_execution: true, hint: Some("Ask for the mail pack.".to_string()) }
    });
    assert_eq!(asked.into_inner(), "send_mail");
    assert_eq!(
        denial,
        Some(PolicyDenial::InnerForbidden {
            message: "Tool `send_mail` is not allowed in the current session and cannot be used through `use_skill`. Ask for the mail pack.".to_string(),
        })
    );
    for hint in [None, Some(String::new())] {
        let denial = channel_permission_block(&packed, "cli", &allowed(), Some(1), |_: &str| {
            InnerRoute { blocks_execution: true, hint }
        });
        assert_eq!(
            denial,
            Some(PolicyDenial::InnerForbidden {
                message: "Tool `send_mail` is not allowed in the current session and cannot be used through `use_skill`.".to_string(),
            })
        );
    }
    assert_eq!(channel_permission_block(&packed, "cli", &allowed(), Some(1), open_route), None);
}

#[test]
fn only_use_skill_with_a_name_reaches_a_packed_tool() {
    assert_eq!(inner_tool(&call("shell", r#"{"tool": "send_mail"}"#)), None);
    assert_eq!(inner_tool(&call("use_skill", r#"{"tool": 3}"#)), None);
    assert_eq!(inner_tool(&call("use_skill", r#"{"other": "x"}"#)), None);
    assert_eq!(inner_tool(&call("use_skill", r#""send_mail""#)), None);
}

fn tool(name: &str, exposure: ToolExposure) -> RegisteredTool {
    RegisteredTool {
        spec: ToolSpec {
            name: name.to_string(),
            description: format!("does {name}"),
            parameters: serde_json::from_str(r#"{"type": "object"}"#).unwrap(),
        },
        exposure,
        indexed: name == TOOL_SEARCH_NAME,
    }
}

#[test]
fn deferred_and_hidden_tools_are_withheld_and_the_search_never_is() {
    let tools = vec![
        tool("read", ToolExposure::Direct),
        tool("cron_add", ToolExposure::Deferred),
        tool(TOOL_SEARCH_NAME, ToolExposure::Hidden),
        tool("secret", ToolExposure::Hidden),
        tool("unlisted", ToolExposure::Deferred),
        tool("cron_add", ToolExposure::Deferred),
    ];
    let mut visible: Vec<String> = ["read", "cron_add", TOOL_SEARCH_NAME, "secret"]
        .iter()
        .map(|name| name.to_string())
        .collect();
    let deferred = strip_deferred_from_visible(&mut visible, &tools);
    assert_eq!(visible, vec!["read".to_string(), TOOL_SEARCH_NAME.to_string()]);
    assert_eq!(deferred, vec![tools[1].spec.clone()]);
}

#[test]
fn the_index_goes_into_the_first_search_that_carries_one() {
    let mut bare = tool(TOOL_SEARCH_NAME, ToolExposure::Direct);
    bare.indexed = false;
    let mut odd = tool("read", ToolExposure::Direct);
    odd.indexed = true;
    let tools = vec![odd, bare, tool(TOOL_SEARCH_NAME, ToolExposure::Direct)];
    let deferred = vec![tool("cron_add", ToolExposure::Deferred).spec];
    assert_eq!(bind_tool_search_index(&tools, &deferred), IndexBinding::At { place: 2 });
    let none = vec![tool("read", ToolExposure::Direct)];
    assert_eq!(
        bind_tool_search_index(&none, &deferred),
        IndexBinding::Unreachable { deferred: 1 }
    );
    assert_eq!(bind_tool_search_index(&none, &Vec::new()), IndexBinding::NotNeeded);
}
