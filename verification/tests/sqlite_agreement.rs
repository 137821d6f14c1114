//! The store against SQLite: the same operations as SQL statements on an in-memory database.

use openhuman::registry::database::{Database, EnvRow};
use openhuman::registry::env::EnvMap;
use openhuman::registry::schema::{
    add_column_idempotent, init_schema, missing_columns, LaterColumn,
};
use openhuman::registry::store::cache::{get_cached, set_cached};
use openhuman::registry::store::custom::insert_custom_server_with_env;
use openhuman::registry::store::edit::{
    delete_server, update_enabled, update_last_connected, update_server_config,
    update_server_custom_fields_conn, update_server_env_keys,
};
use openhuman::registry::store::insert::{insert_server, insert_server_if_absent};
use openhuman::registry::store::query::{
    find_server_by_qualified_name, get_server, list_servers,
};
use openhuman::registry::store::values::set_env_values;
use openhuman::registry::types::{CommandKind, InstalledServer, ServerProvenance, Transport};
use rusqlite::types::Value;
use rusqlite::Connection;

const SCHEMA: &str = "PRAGMA foreign_keys = ON;
    CREATE TABLE IF NOT EXISTS mcp_servers (
        server_id TEXT PRIMARY KEY,
        qualified_name TEXT NOT NULL,
        display_name TEXT NOT NULL,
        description TEXT,
        icon_url TEXT,
        command_kind TEXT NOT NULL DEFAULT 'node',
        command TEXT NOT NULL,
        args_json TEXT NOT NULL DEFAULT '[]',
        env_keys_json TEXT NOT NULL DEFAULT '[]',
        config_json TEXT,
        installed_at INTEGER NOT NULL,
        last_connected_at INTEGER
    );
    CREATE TABLE IF NOT EXISTS mcp_client_env (
        server_id TEXT NOT NULL,
        key TEXT NOT NULL,
        value TEXT NOT NULL,
        PRIMARY KEY (server_id, key),
        FOREIGN KEY (server_id) REFERENCES mcp_servers(server_id) ON DELETE CASCADE
    );
    CREATE TABLE IF NOT EXISTS mcp_registry_cache (
        cache_key TEXT PRIMARY KEY,
        body_json TEXT NOT NULL,
        cached_at INTEGER NOT NULL
    );";

const COLUMNS: &str = "server_id, qualified_name, display_name, description, icon_url,
    command_kind, command, args_json, env_keys_json, config_json, installed_at,
    last_connected_at, transport, deployment_url, enabled, provenance";

fn columns(conn: &Connection) -> Vec<String> {
    let mut stmt = conn.prepare("PRAGMA table_info(mcp_servers)").unwrap();
    let rows = stmt.query_map([], |row| row.get::<_, String>(1)).unwrap();
    rows.map(|row| row.unwrap()).collect()
}

fn failure(result: rusqlite::Result<usize>) -> Option<Option<String>> {
    match result {
        Ok(_) => None,
        Err(rusqlite::Error::SqliteFailure(_, message)) => Some(message),
        Err(_) => Some(None),
    }
}

fn migrate(conn: &Connection) {
    conn.execute_batch(SCHEMA).unwrap();
    for column in missing_columns(&columns(conn)) {
        add_column_idempotent(failure(conn.execute(column.ddl(), [])), column.what()).unwrap();
    }
}

fn open() -> Connection {
    let conn = Connection::open_in_memory().unwrap();
    migrate(&conn);
    conn
}

fn text(value: &Option<String>) -> Value {
    match value {
        Some(t) => Value::Text(t.clone()),
        None => Value::Null,
    }
}

fn integer(value: &Option<i64>) -> Value {
    match value {
        Some(n) => Value::Integer(*n),
        None => Value::Null,
    }
}

fn bound(server: &InstalledServer) -> Vec<Value> {
    vec![
        Value::Text(server.server_id.clone()),
        Value::Text(server.qualified_name.clone()),
        Value::Text(server.display_name.clone()),
        text(&server.description),
        text(&server.icon_url),
        Value::Text(server.command_kind.as_str().to_string()),
        Value::Text(server.command.clone()),
        Value::Text(serde_json::to_string(&server.args).unwrap()),
        Value::Text(serde_json::to_string(&server.env_keys).unwrap()),
        text(&server.config.as_ref().map(|c| serde_json::to_string(c).unwrap())),
        Value::Integer(server.installed_at),
        integer(&server.last_connected_at),
        Value::Text(server.transport.dispatch_kind().to_string()),
        text(&server.transport.deployment_url().map(|u| u.to_string())),
        Value::Integer(server.enabled as i64),
        Value::Text(server.provenance.as_str().to_string()),
    ]
}

fn insert(conn: &Connection, server: &InstalledServer) -> rusqlite::Result<usize> {
    conn.execute(
        &format!("INSERT INTO mcp_servers ({COLUMNS}) VALUES (?1, ?2, ?3, ?4, ?5, ?6, ?7, ?8, ?9, ?10, ?11, ?12, ?13, ?14, ?15, ?16)"),
        rusqlite::params_from_iter(bound(server)),
    )
}

fn insert_if_absent(conn: &Connection, server: &InstalledServer) -> rusqlite::Result<usize> {
    conn.execute(
        &format!("INSERT INTO mcp_servers ({COLUMNS}) SELECT ?1, ?2, ?3, ?4, ?5, ?6, ?7, ?8, ?9, ?10, ?11, ?12, ?13, ?14, ?15, ?16 WHERE NOT EXISTS (SELECT 1 FROM mcp_servers WHERE qualified_name = ?2)"),
        rusqlite::params_from_iter(bound(server)),
    )
}

fn query(conn: &Connection, tail: &str, values: Vec<Value>) -> Vec<Vec<Value>> {
    let mut stmt = conn.prepare(&format!("SELECT {COLUMNS} FROM mcp_servers {tail}")).unwrap();
    let rows = stmt
        .query_map(rusqlite::params_from_iter(values), |row| {
            (0..16).map(|i| row.get::<_, Value>(i)).collect::<rusqlite::Result<Vec<Value>>>()
        })
        .unwrap();
    rows.map(|row| row.unwrap()).collect()
}

fn table(conn: &Connection) -> Vec<Vec<Value>> {
    query(conn, "ORDER BY rowid", Vec::new())
}

fn model_table(db: &Database) -> Vec<Vec<Value>> {
    db.servers
        .iter()
        .map(|row| {
            vec![
                Value::Text(row.server_id.clone()),
                Value::Text(row.qualified_name.clone()),
                Value::Text(row.display_name.clone()),
                text(&row.description),
                text(&row.icon_url),
                Value::Text(row.command_kind.clone()),
                Value::Text(row.command.clone()),
                Value::Text(row.args_json.clone()),
                Value::Text(row.env_keys_json.clone()),
                text(&row.config_json),
                Value::Integer(row.installed_at),
                integer(&row.last_connected_at),
                text(&row.transport),
                text(&row.deployment_url),
                integer(&row.enabled),
                text(&row.provenance),
            ]
        })
        .collect()
}

fn env_table(conn: &Connection) -> Vec<(String, String, String)> {
    let mut stmt = conn
        .prepare("SELECT server_id, key, value FROM mcp_client_env ORDER BY server_id, key")
        .unwrap();
    let rows = stmt.query_map([], |row| Ok((row.get(0)?, row.get(1)?, row.get(2)?))).unwrap();
    rows.map(|row| row.unwrap()).collect()
}

fn model_env(db: &Database) -> Vec<(String, String, String)> {
    let mut rows: Vec<(String, String, String)> = db
        .env
        .iter()
        .map(|row| (row.server_id.clone(), row.key.clone(), row.value.clone()))
        .collect();
    rows.sort();
    rows
}

fn set_env(conn: &Connection, id: &str, env: &EnvMap) -> rusqlite::Result<()> {
    conn.execute("DELETE FROM mcp_client_env WHERE server_id = ?1", [id])?;
    for (key, value) in &env.entries {
        conn.execute(
            "INSERT INTO mcp_client_env (server_id, key, value) VALUES (?1, ?2, ?3)",
            [id, key, value],
        )?;
    }
    Ok(())
}

fn agree(conn: &Connection, db: &Database) {
    assert_eq!(table(conn), model_table(db));
    assert_eq!(env_table(conn), model_env(db));
    assert_eq!(columns(conn), db.columns);
}

fn server(id: &str, name: &str, time: i64) -> InstalledServer {
    InstalledServer {
        server_id: id.to_string(),
        qualified_name: name.to_string(),
        display_name: format!("The {id}"),
        description: if time % 2 == 0 { None } else { Some("odd".to_string()) },
        icon_url: None,
        command_kind: CommandKind::Python,
        command: "uvx".to_string(),
        args: vec![id.to_string(), "a \"quoted\" \u{e9}\n".to_string()],
        env_keys: vec!["KEY".to_string()],
        config: if time % 3 == 0 {
            Some(serde_json::from_str(r#"{"n": [1, -2, null, true], "s": "é"}"#).unwrap())
        } else {
            None
        },
        installed_at: time,
        last_connected_at: None,
        transport: if time % 2 == 0 {
            Transport::Stdio
        } else {
            Transport::HttpRemote { url: format!("https://{id}.io") }
        },
        enabled: time % 5 != 0,
        provenance: if time % 2 == 0 { ServerProvenance::Registry } else { ServerProvenance::Custom },
    }
}

fn env(pairs: &[(&str, &str)]) -> EnvMap {
    let mut map = EnvMap::new();
    for (key, value) in pairs {
        map.insert(key.to_string(), value.to_string());
    }
    map
}

#[test]
fn a_long_course_of_operations_agrees_with_the_database() {
    let conn = open();
    let mut db = Database::new();
    init_schema(&mut db);
    agree(&conn, &db);
    // A small generator, so that the course is long and always the same.
    let mut state: u64 = 7;
    let mut next = |bound: u64| {
        state = state.wrapping_mul(6364136223846793005).wrapping_add(1442695040888963407);
        (state >> 33) % bound
    };
    let ids = ["a", "b", "c", "d", "e"];
    let names = ["@x/one", "@x/two", "@x/three"];
    for step in 0..400 {
        let id = ids[next(5) as usize];
        let name = names[next(3) as usize];
        let time = next(6) as i64;
        match next(10) {
            0 | 1 => {
                let s = server(id, name, time);
                assert_eq!(insert(&conn, &s).is_ok(), insert_server(&mut db, &s).is_ok());
            }
            2 => {
                let s = server(id, name, time);
                let a = insert_if_absent(&conn, &s).ok().map(|n| n > 0);
                let b = insert_server_if_absent(&mut db, &s).ok();
                assert_eq!(a, b);
            }
            3 => {
                let a = conn.execute("DELETE FROM mcp_servers WHERE server_id = ?1", [id]).unwrap();
                assert_eq!(a > 0, delete_server(&mut db, id).unwrap());
            }
            4 => {
                let values = if next(3) == 0 {
                    env(&[])
                } else {
                    env(&[("K", id), (names[next(3) as usize], "v")])
                };
                let a = set_env(&conn, id, &values).is_ok();
                assert_eq!(a, set_env_values(&mut db, id, &values).is_ok());
            }
            5 => {
                let flag = next(2) == 0;
                conn.execute(
                    "UPDATE mcp_servers SET enabled = ?2 WHERE server_id = ?1",
                    rusqlite::params_from_iter(vec![
                        Value::Text(id.to_string()),
                        Value::Integer(flag as i64),
                    ]),
                )
                .unwrap();
                update_enabled(&mut db, id, flag).unwrap();
            }
            6 => {
                let config = server(id, name, time).config;
                conn.execute(
                    "UPDATE mcp_servers SET config_json = ?2 WHERE server_id = ?1",
                    rusqlite::params_from_iter(vec![
                        Value::Text(id.to_string()),
                        text(&config.as_ref().map(|c| serde_json::to_string(c).unwrap())),
                    ]),
                )
                .unwrap();
                update_server_config(&mut db, id, config.as_ref()).unwrap();
            }
            7 => {
                conn.execute(
                    "UPDATE mcp_servers SET last_connected_at = ?1 WHERE server_id = ?2",
                    rusqlite::params_from_iter(vec![
                        Value::Integer(step),
                        Value::Text(id.to_string()),
                    ]),
                )
                .unwrap();
                update_last_connected(&mut db, id, step).unwrap();
            }
            8 => {
                let s = server(id, name, time);
                conn.execute(
                    "UPDATE mcp_servers SET display_name = ?1, description = ?2, command_kind = ?3, command = ?4, args_json = ?5, env_keys_json = ?6, transport = ?7, deployment_url = ?8 WHERE server_id = ?9",
                    rusqlite::params_from_iter(vec![
                        Value::Text(s.display_name.clone()),
                        text(&s.description),
                        Value::Text(s.command_kind.as_str().to_string()),
                        Value::Text(s.command.clone()),
                        Value::Text(serde_json::to_string(&s.args).unwrap()),
                        Value::Text(serde_json::to_string(&s.env_keys).unwrap()),
                        Value::Text(s.transport.dispatch_kind().to_string()),
                        text(&s.transport.deployment_url().map(|u| u.to_string())),
                        Value::Text(id.to_string()),
                    ]),
                )
                .unwrap();
                update_server_custom_fields_conn(&mut db, id, &s).unwrap();
            }
            _ => {
                let keys = vec![name.to_string(), id.to_string()];
                conn.execute(
                    "UPDATE mcp_servers SET env_keys_json = ?2 WHERE server_id = ?1",
                    [id, serde_json::to_string(&keys).unwrap().as_str()],
                )
                .unwrap();
                update_server_env_keys(&mut db, id, &keys).unwrap();
            }
        }
        agree(&conn, &db);
        let listed: Vec<Value> = query(&conn, "ORDER BY installed_at ASC", Vec::new())
            .into_iter()
            .map(|row| row[0].clone())
            .collect();
        let ours: Vec<Value> = list_servers(&mut db)
            .unwrap()
            .into_iter()
            .map(|s| Value::Text(s.server_id))
            .collect();
        assert_eq!(listed, ours);
        let hit = query(
            &conn,
            "WHERE qualified_name = ?1 ORDER BY installed_at ASC LIMIT 1",
            vec![Value::Text(name.to_string())],
        );
        let ours = find_server_by_qualified_name(&mut db, name).unwrap();
        assert_eq!(
            hit.first().map(|row| row[0].clone()),
            ours.map(|s| Value::Text(s.server_id))
        );
        assert_eq!(
            !query(&conn, "WHERE server_id = ?1", vec![Value::Text(id.to_string())]).is_empty(),
            get_server(&mut db, id).is_ok()
        );
    }
}

#[test]
fn an_old_database_is_brought_up_to_date_alike() {
    for kept in 0..16u32 {
        let later = [
            ("transport", "transport TEXT NOT NULL DEFAULT 'stdio'"),
            ("deployment_url", "deployment_url TEXT"),
            ("enabled", "enabled INTEGER NOT NULL DEFAULT 1"),
            ("provenance", "provenance TEXT NOT NULL DEFAULT 'registry'"),
        ];
        let conn = Connection::open_in_memory().unwrap();
        conn.execute_batch(SCHEMA).unwrap();
        let mut db = Database::new();
        db.columns = columns(&conn);
        for (i, (name, ddl)) in later.iter().enumerate() {
            if kept & (1 << i) != 0 {
                conn.execute(&format!("ALTER TABLE mcp_servers ADD COLUMN {ddl}"), []).unwrap();
                db.columns.push(name.to_string());
            }
        }
        conn.execute(
            "INSERT INTO mcp_servers (server_id, qualified_name, display_name, command, installed_at) VALUES ('old', '@old/server', 'Old', 'npx', 5)",
            [],
        )
        .unwrap();
        let mut fresh = Database::new();
        init_schema(&mut fresh);
        let mut template = server("old", "@old/server", 5);
        template.display_name = "Old".to_string();
        template.description = None;
        template.command_kind = CommandKind::Node;
        template.command = "npx".to_string();
        template.args = Vec::new();
        template.env_keys = Vec::new();
        template.config = None;
        template.transport = Transport::Stdio;
        template.enabled = true;
        template.provenance = ServerProvenance::Registry;
        insert_server(&mut fresh, &template).unwrap();
        let mut row = fresh.servers.remove(0);
        // What a column that is not there holds is of no account.
        for (i, _) in later.iter().enumerate() {
            if kept & (1 << i) == 0 {
                match i {
                    0 => row.transport = None,
                    1 => row.deployment_url = Some("left over".to_string()),
                    2 => row.enabled = None,
                    _ => row.provenance = None,
                }
            }
        }
        db.servers.push(row);
        migrate(&conn);
        migrate(&conn);
        init_schema(&mut db);
        agree(&conn, &db);
    }
}

#[test]
fn add_column_idempotent_tolerates_duplicate_column() {
    let conn = Connection::open_in_memory().unwrap();
    conn.execute_batch("CREATE TABLE mcp_servers (server_id TEXT PRIMARY KEY);").unwrap();
    let ddl = LaterColumn::DeploymentUrl.ddl();
    assert_eq!(ddl, "ALTER TABLE mcp_servers ADD COLUMN deployment_url TEXT");
    let what = LaterColumn::DeploymentUrl.what();
    assert_eq!(what, "deployment_url column to mcp_servers");
    add_column_idempotent(failure(conn.execute(ddl, [])), what).unwrap();
    assert!(columns(&conn).iter().any(|c| c == "deployment_url"));
    let again = failure(conn.execute(ddl, []));
    assert!(again.is_some());
    add_column_idempotent(again, what).expect("duplicate column must be tolerated, not surfaced");
}

#[test]
fn add_column_idempotent_propagates_other_errors() {
    let conn = Connection::open_in_memory().unwrap();
    conn.execute_batch("CREATE TABLE mcp_servers (server_id TEXT PRIMARY KEY);").unwrap();
    let malformed = failure(conn.execute("ALTER TABLE mcp_servers ADD COLUMN", []));
    let err = add_column_idempotent(malformed, "bogus column to mcp_servers").unwrap_err();
    assert!(err.contains("Failed to add bogus column to mcp_servers"), "unexpected error: {err}");
    assert!(add_column_idempotent(Some(None), "x").is_err());
}

#[test]
fn columns_are_found_in_any_case_like_in_the_database() {
    let conn = Connection::open_in_memory().unwrap();
    conn.execute_batch(SCHEMA).unwrap();
    let mut db = Database::new();
    db.columns = columns(&conn);
    for (name, ddl) in [
        ("TRANSPORT", "TRANSPORT TEXT NOT NULL DEFAULT 'stdio'"),
        ("Provenance", "Provenance TEXT NOT NULL DEFAULT 'registry'"),
    ] {
        conn.execute(&format!("ALTER TABLE mcp_servers ADD COLUMN {ddl}"), []).unwrap();
        db.columns.push(name.to_string());
    }
    migrate(&conn);
    init_schema(&mut db);
    agree(&conn, &db);
    assert_eq!(db.columns.len(), 16);
    for time in 1..5 {
        let s = server(&format!("s{time}"), &format!("@x/{time}"), time);
        insert(&conn, &s).unwrap();
        insert_server(&mut db, &s).unwrap();
        agree(&conn, &db);
    }
}

#[test]
fn a_value_without_its_server_stays_like_in_the_database() {
    let conn = open();
    let mut db = Database::new();
    init_schema(&mut db);
    conn.execute_batch(
        "PRAGMA foreign_keys = OFF;
         INSERT INTO mcp_client_env (server_id, key, value) VALUES ('ghost', 'K', 'v');
         PRAGMA foreign_keys = ON;",
    )
    .unwrap();
    db.env.push(EnvRow {
        server_id: "ghost".to_string(),
        key: "K".to_string(),
        value: "v".to_string(),
    });
    for id in ["ghost", "a", "ghost"] {
        let theirs = conn.execute("DELETE FROM mcp_servers WHERE server_id = ?1", [id]).unwrap();
        assert_eq!(delete_server(&mut db, id).unwrap(), theirs > 0);
        agree(&conn, &db);
        if id == "ghost" {
            let s = server("a", "@x/a", 1);
            if insert(&conn, &s).is_ok() {
                insert_server(&mut db, &s).unwrap();
            }
            agree(&conn, &db);
        }
    }
    // Once there is a server of that identity, the value goes with it.
    let s = server("ghost", "@x/ghost", 2);
    insert(&conn, &s).unwrap();
    insert_server(&mut db, &s).unwrap();
    conn.execute("DELETE FROM mcp_servers WHERE server_id = 'ghost'", []).unwrap();
    assert!(delete_server(&mut db, "ghost").unwrap());
    agree(&conn, &db);
    assert!(db.env.is_empty());
}

#[test]
fn the_cache_replaces_by_key_like_the_database() {
    let conn = open();
    let mut db = Database::new();
    for (key, body, time) in [("a", "1", 10), ("b", "2", 20), ("a", "3", 30), ("a", "4", 5)] {
        conn.execute(
            "INSERT OR REPLACE INTO mcp_registry_cache (cache_key, body_json, cached_at) VALUES (?1, ?2, ?3)",
            rusqlite::params_from_iter(vec![
                Value::Text(key.to_string()),
                Value::Text(body.to_string()),
                Value::Integer(time),
            ]),
        )
        .unwrap();
        set_cached(&mut db, key, body, time).unwrap();
        let mut stmt = conn
            .prepare("SELECT cache_key, body_json, cached_at FROM mcp_registry_cache ORDER BY cache_key")
            .unwrap();
        let theirs: Vec<(String, String, i64)> = stmt
            .query_map([], |row| Ok((row.get(0)?, row.get(1)?, row.get(2)?)))
            .unwrap()
            .map(|row| row.unwrap())
            .collect();
        let mut ours: Vec<(String, String, i64)> = db
            .cache
            .iter()
            .map(|row| (row.cache_key.clone(), row.body_json.clone(), row.cached_at))
            .collect();
        ours.sort();
        assert_eq!(theirs, ours);
    }
    assert_eq!(get_cached(&mut db, "a", 6).unwrap().as_deref(), Some("4"));
}

#[test]
fn a_custom_server_and_its_values_are_one_transaction() {
    let conn = open();
    let mut db = Database::new();
    for (id, name) in [("a", "@x/one"), ("b", "@x/one"), ("a", "@x/two"), ("c", "@x/two")] {
        let s = server(id, name, 1);
        let values = env(&[("K", id), ("L", name)]);
        let theirs = {
            let tx = conn.unchecked_transaction().unwrap();
            match insert_if_absent(&tx, &s) {
                Ok(n) if n > 0 => {
                    set_env(&tx, id, &values).unwrap();
                    tx.commit().unwrap();
                    Some(true)
                }
                Ok(_) => Some(false),
                Err(_) => None,
            }
        };
        let ours = insert_custom_server_with_env(&mut db, &s, &values).ok();
        assert_eq!(theirs, ours);
        agree(&conn, &db);
    }
}
