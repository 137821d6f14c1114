//! Names of the parts of an installed server, and which servers start.

use openhuman::registry::boot::{spawn_installed_servers, BootPlan, BOOT_SPAWN_CONCURRENCY};
use openhuman::registry::database::StoreError;
use openhuman::registry::types::{CommandKind, InstalledServer, ServerProvenance, Transport};

#[test]
fn command_kind_roundtrip() {
    assert_eq!(CommandKind::parse("node").as_str(), "node");
    assert_eq!(CommandKind::parse("python").as_str(), "python");
    assert_eq!(CommandKind::parse("binary").as_str(), "binary");
    assert_eq!(CommandKind::parse("unknown").as_str(), "node");
}

#[test]
fn server_provenance_names_round_trip_and_default_to_registry() {
    assert_eq!(ServerProvenance::parse("custom"), ServerProvenance::Custom);
    assert_eq!(ServerProvenance::parse("registry"), ServerProvenance::Registry);
    assert_eq!(ServerProvenance::parse(""), ServerProvenance::Registry);
    assert_eq!(ServerProvenance::parse("garbage"), ServerProvenance::Registry);
    assert_eq!(ServerProvenance::Custom.as_str(), "custom");
    assert_eq!(ServerProvenance::Registry.as_str(), "registry");
}

#[test]
fn transport_dispatch_kind_strings_are_stable() {
    assert_eq!(Transport::Stdio.dispatch_kind(), "stdio");
    assert_eq!(
        Transport::HttpRemote { url: "https://example.com/mcp".to_string() }.dispatch_kind(),
        "http_remote"
    );
}

#[test]
fn transport_parse_falls_back_to_stdio_for_unknown_kinds() {
    assert_eq!(Transport::parse("stdio", None), Transport::Stdio);
    assert_eq!(Transport::parse("stdio", Some("ignored")), Transport::Stdio);
    assert_eq!(Transport::parse("", None), Transport::Stdio);
    assert_eq!(Transport::parse("garbage", None), Transport::Stdio);
    assert_eq!(
        Transport::parse("http_remote", Some("https://x.io/mcp")),
        Transport::HttpRemote { url: "https://x.io/mcp".to_string() }
    );
    assert_eq!(Transport::parse("http_remote", None), Transport::Stdio);
}

#[test]
fn transport_deployment_url_accessor() {
    assert_eq!(Transport::Stdio.deployment_url(), None);
    let http = Transport::HttpRemote { url: "https://smithery.ai/server/x".to_string() };
    assert_eq!(http.deployment_url(), Some("https://smithery.ai/server/x"));
    assert_eq!(http.clone(), http);
}

fn server(id: &str, enabled: bool) -> InstalledServer {
    InstalledServer {
        server_id: id.to_string(),
        qualified_name: format!("@test/{id}"),
        display_name: id.to_string(),
        description: None,
        icon_url: None,
        command_kind: CommandKind::Binary,
        command: "run".to_string(),
        args: Vec::new(),
        env_keys: Vec::new(),
        config: None,
        installed_at: 0,
        last_connected_at: None,
        transport: Transport::Stdio,
        enabled,
        provenance: ServerProvenance::Registry,
    }
}

#[test]
fn the_enabled_servers_start_in_order() {
    assert_eq!(BOOT_SPAWN_CONCURRENCY, 8);
    let plan = spawn_installed_servers(Ok::<_, StoreError>(vec![
        server("a", true),
        server("b", false),
        server("c", true),
    ]));
    match plan {
        BootPlan::Spawn { installed, start, skip } => {
            assert_eq!(installed, 3);
            assert_eq!(start, vec![server("a", true), server("c", true)]);
            assert_eq!(skip, vec![server("b", false)]);
        }
        other => panic!("expected a start, got {other:?}"),
    }
    assert!(matches!(
        spawn_installed_servers(Ok::<_, StoreError>(Vec::new())),
        BootPlan::NothingInstalled
    ));
    let failed = spawn_installed_servers(Err(StoreError::NotFound { server_id: "x".to_string() }));
    assert!(matches!(failed, BootPlan::ListFailed { .. }));
}
