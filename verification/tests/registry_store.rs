//! The store of installed servers.

use openhuman::registry::database::{Cause, Database, EnvRow, StoreError};
use openhuman::registry::env::EnvMap;
use openhuman::registry::rows::{
    map_server_row, row_with, server_from, server_row, server_with, ServerRow,
};
use openhuman::registry::schema::{
    init_schema, mcp_servers_columns, missing_columns, LaterColumn,
};
use openhuman::registry::store::cache::{
    get_cached, get_cached_conn, now_ms, set_cached, set_cached_conn, REGISTRY_CACHE_TTL_MS,
};
use openhuman::registry::store::custom::{insert_custom_server_with_env, update_custom_server_rmw};
use openhuman::registry::store::edit::{
    delete_server, update_enabled, update_enabled_conn, update_last_connected,
    update_server_config, update_server_config_conn, update_server_custom_fields_conn,
    update_server_env_keys,
};
use openhuman::registry::store::insert::{
    insert_server, insert_server_conn, insert_server_if_absent, insert_server_if_absent_conn,
};
use openhuman::registry::store::query::{
    find_server_by_qualified_name, find_server_by_qualified_name_conn, get_server,
    get_server_conn, list_servers, list_servers_conn,
};
use openhuman::registry::store::values::{
    load_env_values, load_env_values_conn, set_env_values, set_env_values_conn,
};
use openhuman::registry::types::{CommandKind, InstalledServer, ServerProvenance, Transport};

fn open_test_conn() -> Database {
    let mut db = Database::new();
    init_schema(&mut db);
    db
}

fn sample_server(id: &str) -> InstalledServer {
    InstalledServer {
        server_id: id.to_string(),
        qualified_name: "@test/server".to_string(),
        display_name: "Test Server".to_string(),
        description: Some("A test server".to_string()),
        icon_url: None,
        command_kind: CommandKind::Node,
        command: "npx".to_string(),
        args: vec!["-y".to_string(), "@test/server".to_string()],
        env_keys: vec!["API_KEY".to_string()],
        config: None,
        installed_at: 1_700_000_000_000,
        last_connected_at: None,
        transport: Transport::Stdio,
        enabled: true,
        provenance: ServerProvenance::Registry,
    }
}

fn sample_http_server(id: &str, url: &str) -> InstalledServer {
    InstalledServer {
        server_id: id.to_string(),
        qualified_name: "@test/http-server".to_string(),
        display_name: "Test HTTP Server".to_string(),
        description: None,
        icon_url: None,
        command_kind: CommandKind::Node,
        command: String::new(),
        args: Vec::new(),
        env_keys: Vec::new(),
        config: None,
        installed_at: 1_700_000_000_000,
        last_connected_at: None,
        transport: Transport::HttpRemote { url: url.to_string() },
        enabled: true,
        provenance: ServerProvenance::Registry,
    }
}

fn legacy_row(id: &str, name: &str, display_name: &str, installed_at: i64) -> ServerRow {
    ServerRow {
        server_id: id.to_string(),
        qualified_name: name.to_string(),
        display_name: display_name.to_string(),
        description: None,
        icon_url: None,
        command_kind: "node".to_string(),
        command: "npx".to_string(),
        args_json: "[]".to_string(),
        env_keys_json: "[]".to_string(),
        config_json: None,
        installed_at,
        last_connected_at: None,
        transport: None,
        deployment_url: None,
        enabled: None,
        provenance: None,
    }
}

fn first_columns() -> Vec<String> {
    [
        "server_id",
        "qualified_name",
        "display_name",
        "description",
        "icon_url",
        "command_kind",
        "command",
        "args_json",
        "env_keys_json",
        "config_json",
        "installed_at",
        "last_connected_at",
    ]
    .iter()
    .map(|name| name.to_string())
    .collect()
}

fn env_of(pairs: &[(&str, &str)]) -> EnvMap {
    let mut env = EnvMap::new();
    for (key, value) in pairs {
        env.insert(key.to_string(), value.to_string());
    }
    env
}

fn cause(error: &StoreError) -> Option<Cause> {
    match error {
        StoreError::Statement { cause, .. } => Some(*cause),
        _ => None,
    }
}

#[test]
fn rmw_passes_the_current_persisted_record_to_the_closure() {
    let mut db = Database::new();
    let mut server = sample_server("srv-rmw");
    server.provenance = ServerProvenance::Custom;
    server.transport = Transport::Stdio;
    insert_custom_server_with_env(&mut db, &server, &EnvMap::new()).unwrap();

    let seen_transport = std::cell::Cell::new("");
    update_custom_server_rmw(&mut db, "srv-rmw", |current: &InstalledServer, _stored: EnvMap| {
        seen_transport.set(current.transport.dispatch_kind());
        let mut updated = current.clone();
        updated.transport = Transport::HttpRemote { url: "https://x.io/mcp".to_string() };
        Ok((updated, EnvMap::new()))
    })
    .unwrap();

    assert_eq!(seen_transport.get(), "stdio", "closure saw the stored record");
    assert_eq!(
        get_server(&mut db, "srv-rmw").unwrap().transport.dispatch_kind(),
        "http_remote",
        "the write landed"
    );
}

#[test]
fn rmw_errors_when_the_row_is_gone() {
    let mut db = Database::new();
    let err = update_custom_server_rmw(&mut db, "nope", |current: &InstalledServer, stored: EnvMap| {
        Ok((current.clone(), stored))
    })
    .expect_err("missing row must error");
    assert!(err.message().unwrap().contains("not found"));
    assert_eq!(err.message().unwrap(), "MCP server 'nope' not found");
    assert!(db.servers.is_empty());
}

#[test]
fn a_refused_edit_changes_nothing() {
    let mut db = Database::new();
    let server = sample_server("srv");
    insert_custom_server_with_env(&mut db, &server, &env_of(&[("API_KEY", "old")])).unwrap();
    let rows = db.servers.clone();
    let err = update_custom_server_rmw(&mut db, "srv", |current: &InstalledServer, stored: EnvMap| {
        assert_eq!(stored.get("API_KEY").as_deref(), Some("old"));
        assert_eq!(current.provenance, ServerProvenance::Registry);
        Err("only a custom server can be edited".to_string())
    })
    .expect_err("the decision refused");
    assert_eq!(err.message().as_deref(), Some("only a custom server can be edited"));
    assert!(matches!(err, StoreError::Rejected { .. }));
    assert_eq!(db.servers, rows);
    assert_eq!(
        load_env_values(&mut db, "srv").unwrap().get("API_KEY").as_deref(),
        Some("old")
    );
}

#[test]
fn an_edit_keeps_what_it_does_not_own_and_replaces_the_environment() {
    let mut db = Database::new();
    let mut server = sample_server("srv");
    server.icon_url = Some("https://x.io/icon.png".to_string());
    server.config = Some(serde_json::from_str(r#"{"mode":"fast"}"#).unwrap());
    server.enabled = false;
    insert_custom_server_with_env(&mut db, &server, &env_of(&[("A", "1"), ("B", "2")])).unwrap();
    let told = update_custom_server_rmw(&mut db, "srv", |current: &InstalledServer, _stored: EnvMap| {
        let mut updated = current.clone();
        updated.display_name = "Renamed".to_string();
        updated.description = None;
        updated.icon_url = None;
        updated.config = None;
        updated.enabled = true;
        updated.installed_at = 5;
        updated.env_keys = vec!["C".to_string()];
        Ok((updated, env_of(&[("C", "3")])))
    })
    .unwrap();
    assert_eq!(told.display_name, "Renamed");
    assert!(told.enabled, "the caller is told what was decided");
    let loaded = get_server(&mut db, "srv").unwrap();
    assert_eq!(loaded.display_name, "Renamed");
    assert_eq!(loaded.description, None);
    assert_eq!(loaded.icon_url, server.icon_url);
    assert_eq!(loaded.config, server.config);
    assert!(!loaded.enabled);
    assert_eq!(loaded.installed_at, server.installed_at);
    assert_eq!(loaded.env_keys, vec!["C".to_string()]);
    let env = load_env_values(&mut db, "srv").unwrap();
    assert_eq!(env.get("A"), None);
    assert_eq!(env.get("B"), None);
    assert_eq!(env.get("C").as_deref(), Some("3"));
}

#[test]
fn custom_provenance_round_trips() {
    let mut db = open_test_conn();
    let mut server = sample_server("srv-custom");
    server.qualified_name = "custom/my-server".to_string();
    server.provenance = ServerProvenance::Custom;
    insert_server_conn(&mut db, &server).unwrap();
    let loaded = get_server_conn(&db, "srv-custom").unwrap();
    assert_eq!(loaded.provenance, ServerProvenance::Custom);
    insert_server_conn(&mut db, &sample_http_server("srv-reg", "https://x.io/mcp")).unwrap();
    assert_eq!(
        get_server_conn(&db, "srv-reg").unwrap().provenance,
        ServerProvenance::Registry
    );
}

#[test]
fn pre_migration_rows_backfill_to_registry_provenance() {
    let mut db = open_test_conn();
    db.columns.retain(|name| name != "provenance");
    assert!(!mcp_servers_columns(&db).iter().any(|c| c == "provenance"));

    db.servers.push(legacy_row("srv-legacy", "ai.acme/legacy", "Legacy", 0));

    init_schema(&mut db);
    assert!(mcp_servers_columns(&db).iter().any(|c| c == "provenance"));

    assert_eq!(
        get_server_conn(&db, "srv-legacy").unwrap().provenance,
        ServerProvenance::Registry
    );
    assert_eq!(db.servers[0].provenance.as_deref(), Some("registry"));
}

#[test]
fn update_server_custom_fields_preserves_identity() {
    let mut db = open_test_conn();
    let mut original = sample_server("srv-edit");
    original.qualified_name = "custom/original".to_string();
    original.provenance = ServerProvenance::Custom;
    insert_server_conn(&mut db, &original).unwrap();

    let mut edited = original.clone();
    edited.display_name = "Renamed".to_string();
    edited.command = "uvx".to_string();
    edited.args = vec!["thing".to_string()];
    edited.transport = Transport::HttpRemote { url: "https://x.io/mcp".to_string() };
    edited.command_kind = CommandKind::Python;
    edited.qualified_name = "custom/renamed".to_string();
    edited.installed_at = 999;

    update_server_custom_fields_conn(&mut db, "srv-edit", &edited).unwrap();

    let loaded = get_server_conn(&db, "srv-edit").unwrap();
    assert_eq!(loaded.display_name, "Renamed");
    assert_eq!(loaded.command, "uvx");
    assert_eq!(loaded.args, vec!["thing".to_string()]);
    assert_eq!(
        loaded.transport,
        Transport::HttpRemote { url: "https://x.io/mcp".to_string() }
    );
    assert_eq!(loaded.command_kind, CommandKind::Python);
    assert_eq!(loaded.qualified_name, "custom/original", "identity is immutable");
    assert_eq!(loaded.installed_at, 1_700_000_000_000, "install time is immutable");
    assert_eq!(loaded.provenance, ServerProvenance::Custom);
}

#[test]
fn insert_and_list_servers() {
    let mut db = open_test_conn();
    let server = sample_server("srv-1");
    insert_server_conn(&mut db, &server).unwrap();
    let servers = list_servers_conn(&db).unwrap();
    assert_eq!(servers.len(), 1);
    assert_eq!(servers[0].server_id, "srv-1");
    assert_eq!(servers[0].command_kind, CommandKind::Node);
    assert_eq!(servers[0], server);
}

#[test]
fn update_server_config_round_trips_and_clears() {
    let mut db = open_test_conn();
    insert_server_conn(&mut db, &sample_server("srv-cfg")).unwrap();
    assert_eq!(get_server_conn(&db, "srv-cfg").unwrap().config, None);
    let cfg: serde_json::Value = serde_json::from_str(r#"{ "mode": "fast", "n": 3 }"#).unwrap();
    update_server_config_conn(&mut db, "srv-cfg", Some(&cfg)).unwrap();
    assert_eq!(get_server_conn(&db, "srv-cfg").unwrap().config, Some(cfg));
    update_server_config_conn(&mut db, "srv-cfg", None).unwrap();
    assert_eq!(get_server_conn(&db, "srv-cfg").unwrap().config, None);
}

#[test]
fn a_configuration_is_stored_as_compact_text() {
    let mut db = Database::new();
    insert_server(&mut db, &sample_server("srv")).unwrap();
    let cfg: serde_json::Value =
        serde_json::from_str(r#"{ "b": [1, "two", null], "a": {"x": true} }"#).unwrap();
    update_server_config(&mut db, "srv", Some(&cfg)).unwrap();
    assert_eq!(
        db.servers[0].config_json.as_deref(),
        Some(r#"{"a":{"x":true},"b":[1,"two",null]}"#)
    );
    assert_eq!(get_server(&mut db, "srv").unwrap().config, Some(cfg));
    update_server_config(&mut db, "srv", Some(&serde_json::Value::Null)).unwrap();
    assert_eq!(db.servers[0].config_json.as_deref(), Some("null"));
    assert_eq!(get_server(&mut db, "srv").unwrap().config, Some(serde_json::Value::Null));
}

#[test]
fn insert_server_if_absent_dedups_on_qualified_name() {
    let mut db = open_test_conn();
    let mut first = sample_server("srv-a");
    first.qualified_name = "@dup/server".to_string();
    assert!(insert_server_if_absent_conn(&mut db, &first).unwrap());
    let mut second = sample_server("srv-b");
    second.qualified_name = "@dup/server".to_string();
    assert!(!insert_server_if_absent_conn(&mut db, &second).unwrap());
    let rows: Vec<InstalledServer> = list_servers_conn(&db)
        .unwrap()
        .into_iter()
        .filter(|s| s.qualified_name == "@dup/server")
        .collect();
    assert_eq!(rows.len(), 1);
    assert_eq!(rows[0].server_id, "srv-a");
}

#[test]
fn a_taken_identity_is_refused_and_a_taken_name_comes_first() {
    let mut db = Database::new();
    insert_server(&mut db, &sample_server("srv")).unwrap();
    let err = insert_server(&mut db, &sample_server("srv")).unwrap_err();
    assert_eq!(err.message().as_deref(), Some("Failed to insert mcp_server"));
    assert_eq!(cause(&err), Some(Cause::DuplicateKey));

    // The name is taken too, so nothing is tried.
    assert!(!insert_server_if_absent(&mut db, &sample_server("srv")).unwrap());

    let mut other = sample_server("srv");
    other.qualified_name = "@other/server".to_string();
    let err = insert_server_if_absent(&mut db, &other).unwrap_err();
    assert_eq!(err.message().as_deref(), Some("Failed to insert mcp_server (if absent)"));
    assert_eq!(cause(&err), Some(Cause::DuplicateKey));
    let err = insert_custom_server_with_env(&mut db, &other, &env_of(&[("K", "v")])).unwrap_err();
    assert_eq!(cause(&err), Some(Cause::DuplicateKey));
    assert_eq!(db.servers.len(), 1);
    assert!(db.env.is_empty());
}

#[test]
fn find_server_by_qualified_name_returns_earliest_install() {
    let mut db = open_test_conn();
    let mut early = sample_server("srv-early");
    early.installed_at = 100;
    let mut late = sample_server("srv-late");
    late.installed_at = 200;
    insert_server_conn(&mut db, &late).unwrap();
    insert_server_conn(&mut db, &early).unwrap();

    let found = find_server_by_qualified_name_conn(&db, "@test/server")
        .unwrap()
        .expect("server present");
    assert_eq!(found.server_id, "srv-early");

    assert!(find_server_by_qualified_name_conn(&db, "@nope/missing").unwrap().is_none());
    assert_eq!(
        find_server_by_qualified_name(&mut db, "@test/server").unwrap().unwrap().server_id,
        "srv-early"
    );
}

#[test]
fn a_listing_is_in_the_order_of_installation() {
    let mut db = Database::new();
    for (id, time) in [("c", 30), ("a", 10), ("x", 20), ("b", 10), ("y", 20), ("n", -5)] {
        let mut server = sample_server(id);
        server.installed_at = time;
        insert_server(&mut db, &server).unwrap();
    }
    let ids: Vec<String> =
        list_servers(&mut db).unwrap().into_iter().map(|s| s.server_id).collect();
    assert_eq!(ids, vec!["n", "a", "b", "x", "y", "c"]);
}

#[test]
fn get_server_not_found() {
    let db = open_test_conn();
    let err = get_server_conn(&db, "missing").unwrap_err();
    assert!(err.message().unwrap().contains("not found"));
}

#[test]
fn delete_server_returns_true_when_found() {
    let mut db = open_test_conn();
    let server = sample_server("srv-del");
    insert_server_conn(&mut db, &server).unwrap();
    assert!(delete_server(&mut db, "srv-del").unwrap());
    assert!(!delete_server(&mut db, "srv-del").unwrap());
}

#[test]
fn a_removed_server_takes_its_environment_and_no_other() {
    let mut db = Database::new();
    for id in ["one", "two"] {
        insert_server(&mut db, &sample_server(id)).unwrap();
        set_env_values(&mut db, id, &env_of(&[("KEY", id)])).unwrap();
    }
    assert!(delete_server(&mut db, "one").unwrap());
    assert!(matches!(get_server(&mut db, "one"), Err(StoreError::NotFound { .. })));
    assert!(load_env_values(&mut db, "one").unwrap().is_empty());
    assert_eq!(get_server(&mut db, "two").unwrap().server_id, "two");
    assert_eq!(load_env_values(&mut db, "two").unwrap().get("KEY").as_deref(), Some("two"));
}

#[test]
fn env_values_upsert_and_load() {
    let mut db = open_test_conn();
    let server = sample_server("srv-env");
    insert_server_conn(&mut db, &server).unwrap();

    let mut env = EnvMap::new();
    env.insert("API_KEY".to_string(), "secret123".to_string());
    set_env_values_conn(&mut db, "srv-env", &env).unwrap();

    let loaded = load_env_values_conn(&db, "srv-env").unwrap();
    assert_eq!(loaded.get("API_KEY").as_deref(), Some("secret123"));
}

#[test]
fn storing_values_replaces_them_whole() {
    let mut db = Database::new();
    insert_server(&mut db, &sample_server("srv")).unwrap();
    set_env_values(&mut db, "srv", &env_of(&[("A", "1"), ("B", "2")])).unwrap();
    set_env_values(&mut db, "srv", &env_of(&[("B", "3")])).unwrap();
    let env = load_env_values(&mut db, "srv").unwrap();
    assert_eq!(env.get("A"), None);
    assert_eq!(env.get("B").as_deref(), Some("3"));
    assert_eq!(db.env.len(), 1);
    set_env_values(&mut db, "srv", &EnvMap::new()).unwrap();
    assert!(load_env_values(&mut db, "srv").unwrap().is_empty());
}

#[test]
fn values_of_no_server_are_refused() {
    let mut db = Database::new();
    let err = set_env_values(&mut db, "ghost", &env_of(&[("A", "1")])).unwrap_err();
    assert_eq!(err.message().as_deref(), Some("Failed to insert mcp_client_env"));
    assert_eq!(cause(&err), Some(Cause::ForeignKey));
    assert!(db.env.is_empty());
    set_env_values(&mut db, "ghost", &EnvMap::new()).unwrap();
}

#[test]
fn a_key_has_the_value_that_was_set_last() {
    let mut env = EnvMap::new();
    assert!(env.is_empty());
    env.insert("A".to_string(), "1".to_string());
    env.insert("B".to_string(), "2".to_string());
    env.insert("A".to_string(), "3".to_string());
    assert_eq!(env.get("A").as_deref(), Some("3"));
    assert_eq!(env.get("B").as_deref(), Some("2"));
    assert_eq!(env.get("C"), None);
    assert_eq!(env.entries.len(), 2);
    assert!(!env.is_empty());
}

#[test]
fn a_custom_server_is_stored_with_its_environment_or_not_at_all() {
    let mut db = Database::new();
    let mut server = sample_server("srv");
    server.provenance = ServerProvenance::Custom;
    let env = env_of(&[("TOKEN", "t")]);
    assert!(insert_custom_server_with_env(&mut db, &server, &env).unwrap());
    assert_eq!(get_server(&mut db, "srv").unwrap(), server);
    assert_eq!(load_env_values(&mut db, "srv").unwrap().get("TOKEN").as_deref(), Some("t"));
    let again = sample_server("other");
    assert!(!insert_custom_server_with_env(&mut db, &again, &env).unwrap());
    assert_eq!(db.servers.len(), 1);
    assert_eq!(db.env.len(), 1);
}

#[test]
fn registry_cache_miss_on_empty_db() {
    let db = open_test_conn();
    let cached = get_cached_conn(&db, "search:rust", 0).unwrap();
    assert!(cached.is_none());
}

#[test]
fn registry_cache_hit_within_ttl() {
    let mut db = open_test_conn();
    set_cached_conn(&mut db, "search:rust", r#"{"servers":[]}"#, 1_000).unwrap();
    let cached = get_cached_conn(&db, "search:rust", 1_500).unwrap();
    assert!(cached.is_some());
    assert_eq!(cached.as_deref(), Some(r#"{"servers":[]}"#));
}

#[test]
fn registry_cache_miss_after_ttl() {
    let mut db = open_test_conn();
    let now = now_ms(Some(1_700_000_000_000));
    let old_ts = now - REGISTRY_CACHE_TTL_MS - 1_000;
    set_cached_conn(&mut db, "stale:key", r#"{"servers":[]}"#, old_ts).unwrap();
    let cached = get_cached_conn(&db, "stale:key", now).unwrap();
    assert!(cached.is_none());
}

#[test]
fn an_answer_lasts_exactly_ten_minutes() {
    let mut db = Database::new();
    assert_eq!(REGISTRY_CACHE_TTL_MS, 600_000);
    set_cached(&mut db, "k", "first", 0).unwrap();
    set_cached(&mut db, "other", "else", 0).unwrap();
    set_cached(&mut db, "k", "second", 1_000).unwrap();
    assert_eq!(get_cached(&mut db, "k", 600_999).unwrap().as_deref(), Some("second"));
    assert_eq!(get_cached(&mut db, "k", 601_000).unwrap(), None);
    assert_eq!(get_cached(&mut db, "k", 0).unwrap().as_deref(), Some("second"));
    assert_eq!(get_cached(&mut db, "other", 599_999).unwrap().as_deref(), Some("else"));
    assert_eq!(get_cached(&mut db, "k", i64::MAX).unwrap(), None);
    assert_eq!(db.cache.len(), 2);
}

#[test]
fn the_clock_is_read_in_milliseconds() {
    assert_eq!(now_ms(Some(1_700_000_000_123)), 1_700_000_000_123);
    assert_eq!(now_ms(None), 0);
    assert_eq!(now_ms(Some(1u128 << 64)), 0);
    assert_eq!(now_ms(Some(u64::MAX as u128)), -1);
}

#[test]
fn server_args_and_env_keys_roundtrip_through_json() {
    let mut db = open_test_conn();
    let mut server = sample_server("srv-args");
    server.args = vec!["--port".to_string(), "8080".to_string()];
    server.env_keys = vec!["KEY_A".to_string(), "KEY_B".to_string()];
    insert_server_conn(&mut db, &server).unwrap();

    let loaded = get_server_conn(&db, "srv-args").unwrap();
    assert_eq!(loaded.args, vec!["--port", "8080"]);
    assert_eq!(loaded.env_keys, vec!["KEY_A", "KEY_B"]);
    assert_eq!(db.servers[0].args_json, r#"["--port","8080"]"#);
}

#[test]
fn http_remote_server_roundtrips_with_url_preserved() {
    let mut db = open_test_conn();
    let server = sample_http_server("srv-http", "https://smithery.ai/server/x/mcp");
    insert_server_conn(&mut db, &server).unwrap();

    let loaded = get_server_conn(&db, "srv-http").unwrap();
    match loaded.transport {
        Transport::HttpRemote { url } => {
            assert_eq!(url, "https://smithery.ai/server/x/mcp");
        }
        other => panic!("expected HttpRemote, got {other:?}"),
    }
}

#[test]
fn list_servers_preserves_per_row_transport() {
    let mut db = open_test_conn();
    insert_server_conn(&mut db, &sample_server("srv-stdio")).unwrap();
    insert_server_conn(&mut db, &sample_http_server("srv-http", "https://x.io/mcp")).unwrap();

    let mut servers = list_servers_conn(&db).unwrap();
    servers.sort_by_key(|s| s.server_id.clone());
    assert_eq!(servers.len(), 2);
    assert_eq!(servers[0].server_id, "srv-http");
    assert_eq!(
        servers[0].transport,
        Transport::HttpRemote { url: "https://x.io/mcp".to_string() }
    );
    assert_eq!(servers[1].server_id, "srv-stdio");
    assert_eq!(servers[1].transport, Transport::Stdio);
}

#[test]
fn enabled_defaults_true_and_roundtrips_false() {
    let mut db = open_test_conn();
    let mut server = sample_server("srv-en");
    insert_server_conn(&mut db, &server).unwrap();
    let loaded = get_server_conn(&db, "srv-en").unwrap();
    assert!(loaded.enabled, "new installs default to enabled");

    server.server_id = "srv-dis".to_string();
    server.enabled = false;
    insert_server_conn(&mut db, &server).unwrap();
    let loaded = get_server_conn(&db, "srv-dis").unwrap();
    assert!(!loaded.enabled);
}

#[test]
fn update_enabled_flips_persisted_value() {
    let mut db = open_test_conn();
    let server = sample_server("srv-u");
    insert_server_conn(&mut db, &server).unwrap();
    update_enabled_conn(&mut db, "srv-u", false).unwrap();
    let loaded = get_server_conn(&db, "srv-u").unwrap();
    assert!(!loaded.enabled);
    update_enabled_conn(&mut db, "srv-u", true).unwrap();
    let loaded = get_server_conn(&db, "srv-u").unwrap();
    assert!(loaded.enabled);
    update_enabled(&mut db, "srv-u", false).unwrap();
    assert!(!get_server(&mut db, "srv-u").unwrap().enabled);
}

#[test]
fn a_change_to_an_unknown_server_is_no_error_and_changes_nothing() {
    let mut db = Database::new();
    insert_server(&mut db, &sample_server("srv")).unwrap();
    let rows = db.servers.clone();
    update_enabled(&mut db, "ghost", false).unwrap();
    update_server_env_keys(&mut db, "ghost", &vec!["A".to_string()]).unwrap();
    update_server_config(&mut db, "ghost", None).unwrap();
    update_last_connected(&mut db, "ghost", 7).unwrap();
    assert_eq!(db.servers, rows);
}

#[test]
fn keys_and_connection_times_are_updated_alone() {
    let mut db = Database::new();
    let server = sample_server("srv");
    insert_server(&mut db, &server).unwrap();
    update_server_env_keys(&mut db, "srv", &vec!["X".to_string(), "Y".to_string()]).unwrap();
    update_last_connected(&mut db, "srv", 42).unwrap();
    let loaded = get_server(&mut db, "srv").unwrap();
    let mut expected = server.clone();
    expected.env_keys = vec!["X".to_string(), "Y".to_string()];
    expected.last_connected_at = Some(42);
    assert_eq!(loaded, expected);
}

#[test]
fn additive_enabled_migration_defaults_legacy_rows_true() {
    let mut db = Database::new();
    db.columns = first_columns();
    db.columns.push("transport".to_string());
    db.columns.push("deployment_url".to_string());
    let mut row = legacy_row("legacy-en", "@old/server", "Old", 1_700_000_000_000);
    row.transport = Some("stdio".to_string());
    db.servers.push(row);

    init_schema(&mut db);
    init_schema(&mut db);

    let loaded = get_server_conn(&db, "legacy-en").unwrap();
    assert!(loaded.enabled, "legacy rows default enabled=true");
}

#[test]
fn additive_migration_recovers_pre_migration_row_as_stdio() {
    let mut db = Database::new();
    db.columns = first_columns();
    db.servers.push(legacy_row("legacy-1", "@old/server", "Old", 1_700_000_000_000));

    init_schema(&mut db);
    let once = db.columns.clone();
    init_schema(&mut db);
    assert_eq!(db.columns, once);
    assert_eq!(db.columns.len(), 16);

    let loaded = get_server_conn(&db, "legacy-1").unwrap();
    assert_eq!(loaded.transport, Transport::Stdio);
    assert_eq!(loaded.command, "npx");
}

#[test]
fn the_missing_columns_are_named_in_order() {
    assert_eq!(
        missing_columns(&first_columns()),
        vec![
            LaterColumn::Transport,
            LaterColumn::DeploymentUrl,
            LaterColumn::Enabled,
            LaterColumn::Provenance
        ]
    );
    let mut db = open_test_conn();
    assert!(missing_columns(&mcp_servers_columns(&db)).is_empty());
    db.columns.retain(|name| name != "enabled" && name != "transport");
    assert_eq!(
        missing_columns(&db.columns),
        vec![LaterColumn::Transport, LaterColumn::Enabled]
    );
    assert_eq!(LaterColumn::Provenance.name(), "provenance");
    assert_eq!(
        LaterColumn::Enabled.ddl(),
        "ALTER TABLE mcp_servers ADD COLUMN enabled INTEGER NOT NULL DEFAULT 1"
    );
}

#[test]
fn a_column_that_does_not_read_is_told_by_its_place() {
    let mut db = open_test_conn();
    insert_server_conn(&mut db, &sample_server("srv")).unwrap();
    let column = |db: &Database| match get_server_conn(db, "srv") {
        Err(StoreError::Conversion { bad }) => Some(bad.column),
        _ => None,
    };
    db.servers[0].config_json = Some("{".to_string());
    assert_eq!(column(&db), Some(9));
    db.servers[0].env_keys_json = "{}".to_string();
    assert_eq!(column(&db), Some(8));
    db.servers[0].args_json = "[1]".to_string();
    assert_eq!(column(&db), Some(7));
    let err = get_server_conn(&db, "srv").unwrap_err();
    assert_eq!(err.message(), None);
    // One row that does not read fails the whole listing, and no search for another name.
    insert_server_conn(&mut db, &sample_http_server("http", "https://x.io/mcp")).unwrap();
    assert!(list_servers_conn(&db).is_err());
    assert!(find_server_by_qualified_name_conn(&db, "@test/server").is_err());
    assert!(find_server_by_qualified_name_conn(&db, "@test/http-server").unwrap().is_some());
}

#[test]
fn a_row_without_the_later_columns_reads_with_their_defaults() {
    let mut db = open_test_conn();
    db.servers.push(legacy_row("srv", "@old/server", "Old", 1));
    let loaded = get_server_conn(&db, "srv").unwrap();
    assert_eq!(loaded.transport, Transport::Stdio);
    assert!(loaded.enabled);
    assert_eq!(loaded.provenance, ServerProvenance::Registry);
    db.servers[0].enabled = Some(0);
    db.servers[0].transport = Some("http_remote".to_string());
    let loaded = get_server_conn(&db, "srv").unwrap();
    assert!(!loaded.enabled);
    assert_eq!(loaded.transport, Transport::Stdio, "a remote without an address");
    db.servers[0].enabled = Some(-3);
    assert!(get_server_conn(&db, "srv").unwrap().enabled);
}

#[test]
fn a_store_without_its_tables_refuses_every_statement() {
    let mut db = Database::new();
    let server = sample_server("srv");
    let env = env_of(&[("A", "1")]);
    let shown = |error: StoreError| (error.message(), cause(&error));
    let schema = Some(Cause::Schema);
    assert_eq!(
        shown(insert_server_conn(&mut db, &server).unwrap_err()),
        (Some("Failed to insert mcp_server".to_string()), schema)
    );
    assert_eq!(
        shown(insert_server_if_absent_conn(&mut db, &server).unwrap_err()),
        (Some("Failed to insert mcp_server (if absent)".to_string()), schema)
    );
    assert_eq!(shown(get_server_conn(&db, "srv").unwrap_err()), (None, schema));
    assert_eq!(shown(list_servers_conn(&db).unwrap_err()), (None, schema));
    assert_eq!(
        shown(find_server_by_qualified_name_conn(&db, "x").unwrap_err()),
        (None, schema)
    );
    assert_eq!(
        shown(update_enabled_conn(&mut db, "srv", true).unwrap_err()),
        (Some("Failed to update mcp_server enabled flag".to_string()), schema)
    );
    assert_eq!(
        shown(update_server_config_conn(&mut db, "srv", None).unwrap_err()),
        (Some("Failed to update mcp_server config".to_string()), schema)
    );
    assert_eq!(
        shown(update_server_custom_fields_conn(&mut db, "srv", &server).unwrap_err()),
        (Some("Failed to update custom mcp_server fields".to_string()), schema)
    );
    assert_eq!(
        shown(set_env_values_conn(&mut db, "srv", &env).unwrap_err()),
        (Some("Failed to clear previous mcp_client_env rows".to_string()), schema)
    );
    assert_eq!(shown(load_env_values_conn(&db, "srv").unwrap_err()), (None, schema));
    assert_eq!(
        shown(get_cached_conn(&db, "k", 0).unwrap_err()),
        (Some("Failed to query registry cache".to_string()), schema)
    );
    assert_eq!(
        shown(set_cached_conn(&mut db, "k", "v", 0).unwrap_err()),
        (Some("Failed to upsert registry cache".to_string()), schema)
    );
    // A server table of another shape stays of that shape, but for the later columns.
    db.columns = vec!["id".to_string()];
    assert_eq!(
        shown(update_server_env_keys(&mut db, "srv", &Vec::new()).unwrap_err()),
        (Some("Failed to update mcp_server env_keys".to_string()), schema)
    );
    assert_eq!(
        shown(update_last_connected(&mut db, "srv", 0).unwrap_err()),
        (Some("Failed to update last_connected_at".to_string()), schema)
    );
    assert_eq!(
        shown(delete_server(&mut db, "srv").unwrap_err()),
        (Some("Failed to delete mcp_server".to_string()), schema)
    );
    assert_eq!(
        shown(set_env_values(&mut db, "srv", &env).unwrap_err()),
        (Some("Failed to insert mcp_client_env".to_string()), schema)
    );
    assert_eq!(db.columns.len(), 5);
}

fn nested(depth: usize) -> serde_json::Value {
    let mut value = serde_json::Value::Bool(true);
    for _ in 0..depth {
        value = serde_json::Value::Array(vec![value]);
    }
    value
}

#[test]
fn a_configuration_nests_as_deep_as_it_can_be_read() {
    let mut db = Database::new();
    insert_server(&mut db, &sample_server("srv")).unwrap();
    let deep = nested(127);
    update_server_config(&mut db, "srv", Some(&deep)).unwrap();
    assert_eq!(get_server(&mut db, "srv").unwrap().config, Some(deep));
    update_server_config(&mut db, "srv", Some(&nested(128))).unwrap();
    match get_server(&mut db, "srv") {
        Err(StoreError::Conversion { bad }) => assert_eq!(bad.column, 9),
        other => panic!("expected a column that does not read, got {other:?}"),
    }
}

#[test]
fn whole_numbers_and_every_letter_survive_the_store() {
    let mut db = Database::new();
    let mut server = sample_server("srv \u{0}\u{1F600}");
    let letters: String = (0u32..0x3000).filter_map(char::from_u32).collect();
    server.args = vec![letters.clone(), String::new()];
    server.env_keys = vec![letters.clone()];
    let mut fields = serde_json::Map::new();
    fields.insert(letters.clone(), serde_json::Value::from(u64::MAX));
    fields.insert("low".to_string(), serde_json::Value::from(i64::MIN));
    fields.insert("zero".to_string(), serde_json::Value::from(0));
    fields.insert("text".to_string(), serde_json::Value::from(letters));
    server.config = Some(serde_json::Value::Object(fields));
    insert_server(&mut db, &server).unwrap();
    assert_eq!(get_server(&mut db, "srv \u{0}\u{1F600}").unwrap(), server);
}

#[test]
fn the_reader_takes_lists_of_strings_only() {
    let mut db = open_test_conn();
    insert_server_conn(&mut db, &sample_server("srv")).unwrap();
    for (text, reads) in [
        ("[]", true),
        (" [ \"a\" , \"b\" ] ", true),
        ("[null]", false),
        ("[\"a\",]", false),
        ("\"a\"", false),
        ("", false),
        ("[[]]", false),
    ] {
        db.servers[0].args_json = text.to_string();
        assert_eq!(get_server_conn(&db, "srv").is_ok(), reads, "{text}");
    }
}

#[test]
fn a_row_is_written_and_read_around_its_texts() {
    let mut server = sample_http_server("srv", "https://x.io/mcp");
    server.enabled = false;
    server.provenance = ServerProvenance::Custom;
    let row = row_with(&server, "[]".to_string(), "[]".to_string(), None);
    assert_eq!(row, server_row(&server));
    assert_eq!(row.transport.as_deref(), Some("http_remote"));
    assert_eq!(row.deployment_url.as_deref(), Some("https://x.io/mcp"));
    assert_eq!(row.enabled, Some(0));
    assert_eq!(row.provenance.as_deref(), Some("custom"));
    assert_eq!(row.command_kind, "node");
    assert_eq!(server_with(&row, Vec::new(), Vec::new(), None), server);
    assert_eq!(map_server_row(&row).unwrap(), server);
    let other = server_with(&row, vec!["a".to_string()], vec!["K".to_string()], None);
    assert_eq!(other.args, vec!["a".to_string()]);
    assert_eq!(other.env_keys, vec!["K".to_string()]);
}

#[test]
fn removing_an_unknown_server_changes_nothing() {
    let mut db = open_test_conn();
    insert_server(&mut db, &sample_server("srv")).unwrap();
    set_env_values(&mut db, "srv", &env_of(&[("API_KEY", "secret")])).unwrap();
    db.env.push(EnvRow {
        server_id: "ghost".to_string(),
        key: "LEFT".to_string(),
        value: "over".to_string(),
    });
    let before = db.env.len();
    assert!(!delete_server(&mut db, "ghost").unwrap());
    assert_eq!(db.env.len(), before);
    assert_eq!(load_env_values(&mut db, "ghost").unwrap().entries, env_of(&[("LEFT", "over")]).entries);
    assert!(delete_server(&mut db, "srv").unwrap());
    assert!(load_env_values(&mut db, "srv").unwrap().entries.is_empty());
    assert_eq!(load_env_values(&mut db, "ghost").unwrap().entries, env_of(&[("LEFT", "over")]).entries);
}

#[test]
fn column_names_are_the_same_in_any_case() {
    let mut db = Database::new();
    db.columns = first_columns();
    db.columns.push("Transport".to_string());
    db.columns.push("ENABLED".to_string());
    init_schema(&mut db);
    let mut expected = first_columns();
    for name in ["Transport", "ENABLED", "deployment_url", "provenance"] {
        expected.push(name.to_string());
    }
    assert_eq!(db.columns, expected);
    insert_server(&mut db, &sample_server("srv")).unwrap();
    assert_eq!(get_server(&mut db, "srv").unwrap(), sample_server("srv"));
}

#[test]
fn a_column_that_does_not_read_is_told_with_its_own_error() {
    let mut row = server_row(&sample_server("srv"));
    let told = |row: &ServerRow| {
        let bad = map_server_row(row).unwrap_err();
        (bad.column, bad.error.to_string())
    };
    let strings = |text: &str| serde_json::from_str::<Vec<String>>(text).unwrap_err().to_string();
    row.config_json = Some("{".to_string());
    let value = serde_json::from_str::<serde_json::Value>("{").unwrap_err().to_string();
    assert_eq!(value, "EOF while parsing an object at line 1 column 1");
    assert_eq!(told(&row), (9, value));
    row.env_keys_json = "{}".to_string();
    assert_eq!(told(&row), (8, strings("{}")));
    row.args_json = "[1]".to_string();
    assert_eq!(told(&row), (7, strings("[1]")));
    assert_ne!(strings("{}"), strings("[1]"));
    let mut db = open_test_conn();
    db.servers.push(row);
    match get_server_conn(&db, "srv") {
        Err(StoreError::Conversion { bad }) => {
            assert_eq!((bad.column, bad.error.to_string()), (7, strings("[1]")));
        }
        other => panic!("expected a column that does not read, got {other:?}"),
    }
}

#[test]
fn the_first_column_that_failed_comes_back_with_its_error() {
    let server = sample_server("srv");
    let row = server_row(&server);
    let list = || Ok::<Vec<String>, &str>(vec!["x".to_string()]);
    let bad = server_from(&row, Err("a"), Err("b"), Some(Err("c"))).unwrap_err();
    assert_eq!((bad.column, bad.error), (7, "a"));
    let bad = server_from(&row, list(), Err("b"), Some(Err("c"))).unwrap_err();
    assert_eq!((bad.column, bad.error), (8, "b"));
    let bad = server_from(&row, list(), list(), Some(Err("c"))).unwrap_err();
    assert_eq!((bad.column, bad.error), (9, "c"));
    let mut expected = server.clone();
    expected.args = vec!["x".to_string()];
    expected.env_keys = vec!["x".to_string()];
    assert_eq!(server_from(&row, list(), list(), None).unwrap(), expected);
    expected.config = Some(serde_json::Value::Bool(true));
    let config = Some(Ok(serde_json::Value::Bool(true)));
    assert_eq!(server_from(&row, list(), list(), config).unwrap(), expected);
}
