//! Changing and removing an installed server.

use crate::json::{
    json_of, json_text, lemma_strings_round_trip, max_depth, plain, strings_json,
    strings_text, value_text, Json,
};
use crate::registry::database::{
    drop_env, env_of, env_without, law_the_row_of_an_identity_is_the_first, lemma_row_behind,
    lemma_row_from, lemma_row_of, lemma_sound_with_same_ids, outcome, place_of, refuse, refused,
    row_from, row_of, row_views, Cause, Database, DatabaseView, StoreError, StoreErrorView,
};
use crate::registry::rows::{address, ServerRow, ServerRowView};
use crate::registry::schema::{column_there, complete, current, has_column, init_schema};
use crate::registry::store::query::found;
use crate::registry::types::{
    law_command_kind_round_trips, law_transport_round_trips, InstalledServer, InstalledServerView,
};
use crate::text::{copy_opt, opt_text, same, texts};
use vstd::prelude::*;

verus! {

/// The rows, with `change` made to each row of the identity `id`.
pub open spec fn changed(
    rows: Seq<ServerRowView>,
    id: Seq<char>,
    change: spec_fn(ServerRowView) -> ServerRowView,
) -> Seq<ServerRowView> {
    rows.map_values(
        |row: ServerRowView|
            if row.server_id == id {
                change(row)
            } else {
                row
            },
    )
}

/// The store, with `change` made to the server of the identity `id`.
pub open spec fn with_change(
    db: DatabaseView,
    id: Seq<char>,
    change: spec_fn(ServerRowView) -> ServerRowView,
) -> DatabaseView {
    DatabaseView { servers: changed(db.servers, id, change), ..db }
}

/// How a statement that changes one column of a server ends: it is refused where the identity or
/// that column is missing, and not where no server has the identity.
pub open spec fn column_change(
    db: DatabaseView,
    column: Seq<char>,
    context: Seq<char>,
) -> Result<(), StoreErrorView> {
    if has_column(db.columns, "server_id"@) && has_column(db.columns, column) {
        Ok(())
    } else {
        Err(refused(context, Cause::Schema))
    }
}

/// One change to a row.
enum Edit {
    EnvKeys(String),
    Config(Option<String>),
    LastConnected(i64),
    Enabled(i64),
    Custom {
        display_name: String,
        description: Option<String>,
        command_kind: String,
        command: String,
        args_json: String,
        env_keys_json: String,
        transport: String,
        deployment_url: Option<String>,
    },
}

impl Edit {
    /// A row after the change.
    spec fn made(self, row: ServerRowView) -> ServerRowView {
        match self {
            Edit::EnvKeys(text) => ServerRowView { env_keys_json: text@, ..row },
            Edit::Config(text) => ServerRowView { config_json: opt_text(text), ..row },
            Edit::LastConnected(time) => ServerRowView { last_connected_at: Some(time), ..row },
            Edit::Enabled(flag) => ServerRowView { enabled: Some(flag), ..row },
            Edit::Custom {
                display_name,
                description,
                command_kind,
                command,
                args_json,
                env_keys_json,
                transport,
                deployment_url,
            } => ServerRowView {
                display_name: display_name@,
                description: opt_text(description),
                command_kind: command_kind@,
                command: command@,
                args_json: args_json@,
                env_keys_json: env_keys_json@,
                transport: Some(transport@),
                deployment_url: opt_text(deployment_url),
                ..row
            },
        }
    }

    /// Make the change to a row.
    fn make(&self, row: &mut ServerRow)
        ensures
            final(row)@ == self.made(old(row)@),
    {
        match self {
            Edit::EnvKeys(text) => {
                row.env_keys_json = text.clone();
            },
            Edit::Config(text) => {
                row.config_json = copy_opt(text);
            },
            Edit::LastConnected(time) => {
                row.last_connected_at = Some(*time);
            },
            Edit::Enabled(flag) => {
                row.enabled = Some(*flag);
            },
            Edit::Custom {
                display_name,
                description,
                command_kind,
                command,
                args_json,
                env_keys_json,
                transport,
                deployment_url,
            } => {
                row.display_name = display_name.clone();
                row.description = copy_opt(description);
                row.command_kind = command_kind.clone();
                row.command = command.clone();
                row.args_json = args_json.clone();
                row.env_keys_json = env_keys_json.clone();
                row.transport = Some(transport.clone());
                row.deployment_url = copy_opt(deployment_url);
            },
        }
    }
}

/// Make `edit` to each row of the identity `id`.
fn edit_rows(rows: &mut Vec<ServerRow>, id: &str, edit: &Edit)
    ensures
        row_views(final(rows)@) == changed(
            row_views(old(rows)@),
            id@,
            |row: ServerRowView| edit.made(row),
        ),
{
    let ghost before = rows@;
    let mut i: usize = 0;
    while i < rows.len()
        invariant
            i <= rows@.len() == before.len(),
            forall|k: int|
                0 <= k < i ==> (#[trigger] rows@[k])@ == (if before[k]@.server_id == id@ {
                    edit.made(before[k]@)
                } else {
                    before[k]@
                }),
            forall|k: int| i <= k < before.len() ==> #[trigger] rows@[k] == before[k],
        decreases rows@.len() - i,
    {
        if same(rows[i].server_id.as_str(), id) {
            edit.make(&mut rows[i]);
        }
        i = i + 1;
    }
    assert(row_views(rows@) =~= changed(
        row_views(before),
        id@,
        |row: ServerRowView| edit.made(row),
    ));
}

/// A change that keeps the identity is found under it, and under no other.
pub proof fn lemma_row_changed(
    rows: Seq<ServerRowView>,
    id: Seq<char>,
    change: spec_fn(ServerRowView) -> ServerRowView,
    other: Seq<char>,
    from: int,
)
    requires
        0 <= from,
        forall|row: ServerRowView| (#[trigger] change(row)).server_id == row.server_id,
    ensures
        row_from(changed(rows, id, change), other, from) == match row_from(rows, other, from) {
            Some(row) => Some(
                if other == id {
                    change(row)
                } else {
                    row
                },
            ),
            None => None,
        },
    decreases rows.len() - from,
{
    if from < rows.len() {
        let row = rows[from];
        assert(change(row).server_id == row.server_id);
        lemma_row_changed(rows, id, change, other, from + 1);
    }
}

/// A change that keeps identities keeps a store sound.
proof fn lemma_sound_changed(
    db: DatabaseView,
    id: Seq<char>,
    change: spec_fn(ServerRowView) -> ServerRowView,
)
    requires
        db.sound(),
        forall|row: ServerRowView| (#[trigger] change(row)).server_id == row.server_id,
    ensures
        with_change(db, id, change).sound(),
{
    let after = with_change(db, id, change);
    assert forall|i: int| 0 <= i < db.servers.len() implies (
    #[trigger] db.servers[i]).server_id == (#[trigger] after.servers[i]).server_id by {
        assert(change(db.servers[i]).server_id == db.servers[i].server_id);
    }
    lemma_sound_with_same_ids(db, after);
}

/// Make `edit` to the server of the identity `id`.
fn edit_server(db: &mut Database, id: &str, edit: &Edit)
    ensures
        final(db)@ == with_change(old(db)@, id@, |row: ServerRowView| edit.made(row)),
        old(db)@.sound() ==> final(db)@.sound(),
        row_of(final(db)@.servers, id@) == match row_of(old(db)@.servers, id@) {
            Some(row) => Some(edit.made(row)),
            None => None,
        },
{
    proof {
        let change = |row: ServerRowView| edit.made(row);
        lemma_row_changed(db@.servers, id@, change, id@, 0);
        if db@.sound() {
            lemma_sound_changed(db@, id@, change);
        }
    }
    edit_rows(&mut db.servers, id, edit);
}

/// What a change to the enabled flag makes of a row.
pub open spec fn enabled_change(enabled: bool) -> spec_fn(ServerRowView) -> ServerRowView {
    |row: ServerRowView|
        ServerRowView { enabled: Some(if enabled { 1i64 } else { 0i64 }), ..row }
}

/// Set the enabled flag of a server. A server that was found is found with that flag.
pub fn update_enabled_conn(db: &mut Database, server_id: &str, enabled: bool) -> (r: Result<
    (),
    StoreError,
>)
    ensures
        outcome(r) == column_change(
            old(db)@,
            "enabled"@,
            "Failed to update mcp_server enabled flag"@,
        ),
        r is Err ==> final(db)@ == old(db)@,
        r is Ok ==> final(db)@ == with_change(old(db)@, server_id@, enabled_change(enabled)),
        r is Ok && found(old(db)@, server_id@) is Ok ==> found(final(db)@, server_id@) == Ok::<
            _,
            StoreErrorView,
        >(InstalledServerView { enabled, ..found(old(db)@, server_id@)->Ok_0 }),
        old(db)@.sound() ==> final(db)@.sound(),
{
    if !column_there(&db.columns, "server_id") || !column_there(&db.columns, "enabled") {
        return Err(refuse("Failed to update mcp_server enabled flag", Cause::Schema));
    }
    let edit: Edit = Edit::Enabled(if enabled { 1 } else { 0 });
    edit_server(db, server_id, &edit);
    assert((|row: ServerRowView| edit.made(row)) =~= enabled_change(enabled));
    Ok(())
}

/// Set the enabled flag of a server, once the schema is up to date.
pub fn update_enabled(db: &mut Database, server_id: &str, enabled: bool) -> (r: Result<
    (),
    StoreError,
>)
    ensures
        outcome(r) == column_change(
            current(old(db)@),
            "enabled"@,
            "Failed to update mcp_server enabled flag"@,
        ),
        r is Err ==> final(db)@ == current(old(db)@),
        r is Ok ==> final(db)@ == with_change(
            current(old(db)@),
            server_id@,
            enabled_change(enabled),
        ),
        r is Ok && found(current(old(db)@), server_id@) is Ok ==> found(final(db)@, server_id@)
            == Ok::<_, StoreErrorView>(
            InstalledServerView { enabled, ..found(current(old(db)@), server_id@)->Ok_0 },
        ),
        old(db)@.sound() ==> final(db)@.sound(),
{
    init_schema(db);
    update_enabled_conn(db, server_id, enabled)
}

/// What a change to the environment keys makes of a row.
pub open spec fn env_keys_change(keys: Seq<Seq<char>>) -> spec_fn(ServerRowView) -> ServerRowView {
    |row: ServerRowView| ServerRowView { env_keys_json: json_text(strings_json(keys)), ..row }
}

/// Replace the environment keys of a server, once the schema is up to date. The values are kept
/// elsewhere and do not change. A server that was found is found with those keys.
pub fn update_server_env_keys(db: &mut Database, server_id: &str, env_keys: &Vec<String>) -> (r:
    Result<(), StoreError>)
    ensures
        outcome(r) == column_change(
            current(old(db)@),
            "env_keys_json"@,
            "Failed to update mcp_server env_keys"@,
        ),
        r is Err ==> final(db)@ == current(old(db)@),
        r is Ok ==> final(db)@ == with_change(
            current(old(db)@),
            server_id@,
            env_keys_change(texts(env_keys@)),
        ),
        r is Ok && found(current(old(db)@), server_id@) is Ok ==> found(final(db)@, server_id@)
            == Ok::<_, StoreErrorView>(
            InstalledServerView {
                env_keys: texts(env_keys@),
                ..found(current(old(db)@), server_id@)->Ok_0
            },
        ),
        old(db)@.sound() ==> final(db)@.sound(),
{
    let text: String = strings_text(env_keys);
    init_schema(db);
    if !column_there(&db.columns, "server_id") || !column_there(&db.columns, "env_keys_json") {
        return Err(refuse("Failed to update mcp_server env_keys", Cause::Schema));
    }
    proof {
        lemma_strings_round_trip(texts(env_keys@));
    }
    let edit: Edit = Edit::EnvKeys(text);
    edit_server(db, server_id, &edit);
    assert((|row: ServerRowView| edit.made(row)) =~= env_keys_change(texts(env_keys@)));
    Ok(())
}

/// What a borrowed configuration holds.
pub open spec fn config_value(value: Option<&serde_json::Value>) -> Option<Json> {
    match value {
        Some(v) => Some(json_of(*v)),
        None => None,
    }
}

/// What a change to the configuration makes of a row; nothing clears it.
pub open spec fn config_change(value: Option<Json>) -> spec_fn(ServerRowView) -> ServerRowView {
    |row: ServerRowView|
        ServerRowView {
            config_json: match value {
                Some(v) => Some(json_text(v)),
                None => None,
            },
            ..row
        }
}

/// Replace or clear the configuration of a server. A server that was found is found with that
/// configuration, where the configuration survives being written as text.
pub fn update_server_config_conn(
    db: &mut Database,
    server_id: &str,
    value: Option<&serde_json::Value>,
) -> (r: Result<(), StoreError>)
    ensures
        outcome(r) == column_change(
            old(db)@,
            "config_json"@,
            "Failed to update mcp_server config"@,
        ),
        r is Err ==> final(db)@ == old(db)@,
        r is Ok ==> final(db)@ == with_change(
            old(db)@,
            server_id@,
            config_change(config_value(value)),
        ),
        r is Ok && found(old(db)@, server_id@) is Ok && (value is Some ==> plain(
            json_of(*value->0),
            max_depth(),
        )) ==> found(final(db)@, server_id@) == Ok::<_, StoreErrorView>(
            InstalledServerView {
                config: config_value(value),
                ..found(old(db)@, server_id@)->Ok_0
            },
        ),
        old(db)@.sound() ==> final(db)@.sound(),
{
    let text: Option<String> = match value {
        Some(v) => Some(value_text(v)),
        None => None,
    };
    if !column_there(&db.columns, "server_id") || !column_there(&db.columns, "config_json") {
        return Err(refuse("Failed to update mcp_server config", Cause::Schema));
    }
    let edit: Edit = Edit::Config(text);
    edit_server(db, server_id, &edit);
    assert((|row: ServerRowView| edit.made(row)) =~= config_change(config_value(value)));
    Ok(())
}

/// Replace or clear the configuration of a server, once the schema is up to date.
pub fn update_server_config(
    db: &mut Database,
    server_id: &str,
    value: Option<&serde_json::Value>,
) -> (r: Result<(), StoreError>)
    ensures
        outcome(r) == column_change(
            current(old(db)@),
            "config_json"@,
            "Failed to update mcp_server config"@,
        ),
        r is Err ==> final(db)@ == current(old(db)@),
        r is Ok ==> final(db)@ == with_change(
            current(old(db)@),
            server_id@,
            config_change(config_value(value)),
        ),
        r is Ok && found(current(old(db)@), server_id@) is Ok && (value is Some ==> plain(
            json_of(*value->0),
            max_depth(),
        )) ==> found(final(db)@, server_id@) == Ok::<_, StoreErrorView>(
            InstalledServerView {
                config: config_value(value),
                ..found(current(old(db)@), server_id@)->Ok_0
            },
        ),
        old(db)@.sound() ==> final(db)@.sound(),
{
    init_schema(db);
    update_server_config_conn(db, server_id, value)
}

/// What a connection at `time` makes of a row.
pub open spec fn connection_change(time: i64) -> spec_fn(ServerRowView) -> ServerRowView {
    |row: ServerRowView| ServerRowView { last_connected_at: Some(time), ..row }
}

/// Record that a server connected at `now`, once the schema is up to date. A server that was
/// found is found with that time.
pub fn update_last_connected(db: &mut Database, server_id: &str, now: i64) -> (r: Result<
    (),
    StoreError,
>)
    ensures
        outcome(r) == column_change(
            current(old(db)@),
            "last_connected_at"@,
            "Failed to update last_connected_at"@,
        ),
        r is Err ==> final(db)@ == current(old(db)@),
        r is Ok ==> final(db)@ == with_change(
            current(old(db)@),
            server_id@,
            connection_change(now),
        ),
        r is Ok && found(current(old(db)@), server_id@) is Ok ==> found(final(db)@, server_id@)
            == Ok::<_, StoreErrorView>(
            InstalledServerView {
                last_connected_at: Some(now),
                ..found(current(old(db)@), server_id@)->Ok_0
            },
        ),
        old(db)@.sound() ==> final(db)@.sound(),
{
    init_schema(db);
    if !column_there(&db.columns, "server_id") || !column_there(&db.columns, "last_connected_at") {
        return Err(refuse("Failed to update last_connected_at", Cause::Schema));
    }
    let edit: Edit = Edit::LastConnected(now);
    edit_server(db, server_id, &edit);
    assert((|row: ServerRowView| edit.made(row)) =~= connection_change(now));
    Ok(())
}

/// What an edit of a custom server makes of a row: the fields that the edit owns are those of
/// `server`, and every other field stays.
pub open spec fn custom_change(server: InstalledServerView) -> spec_fn(
    ServerRowView,
) -> ServerRowView {
    |row: ServerRowView|
        ServerRowView {
            display_name: server.display_name,
            description: server.description,
            command_kind: server.command_kind.name(),
            command: server.command,
            args_json: json_text(strings_json(server.args)),
            env_keys_json: json_text(strings_json(server.env_keys)),
            transport: Some(server.transport.kind()),
            deployment_url: server.transport.url(),
            ..row
        }
}

/// A server after an edit: the fields that the edit owns are those of `server`. Identity, name,
/// icon, configuration, times, the enabled flag and the provenance stay.
pub open spec fn custom_edited(
    before: InstalledServerView,
    server: InstalledServerView,
) -> InstalledServerView {
    InstalledServerView {
        display_name: server.display_name,
        description: server.description,
        command_kind: server.command_kind,
        command: server.command,
        args: server.args,
        env_keys: server.env_keys,
        transport: server.transport,
        ..before
    }
}

/// The columns that an edit of a custom server names are there.
pub open spec fn custom_columns(columns: Seq<Seq<char>>) -> bool {
    &&& has_column(columns, "server_id"@)
    &&& has_column(columns, "display_name"@)
    &&& has_column(columns, "description"@)
    &&& has_column(columns, "command_kind"@)
    &&& has_column(columns, "command"@)
    &&& has_column(columns, "args_json"@)
    &&& has_column(columns, "env_keys_json"@)
    &&& has_column(columns, "transport"@)
    &&& has_column(columns, "deployment_url"@)
}

/// How an edit of a custom server ends.
pub open spec fn custom_update(db: DatabaseView) -> Result<(), StoreErrorView> {
    if custom_columns(db.columns) {
        Ok(())
    } else {
        Err(refused("Failed to update custom mcp_server fields"@, Cause::Schema))
    }
}

/// Whether the columns that an edit of a custom server names are there.
fn has_custom_columns(columns: &Vec<String>) -> (r: bool)
    ensures
        r == custom_columns(texts(columns@)),
{
    column_there(columns, "server_id") && column_there(columns, "display_name") && column_there(
        columns,
        "description",
    ) && column_there(columns, "command_kind") && column_there(columns, "command") && column_there(
        columns,
        "args_json",
    ) && column_there(columns, "env_keys_json") && column_there(columns, "transport") && column_there(
        columns,
        "deployment_url",
    )
}

/// Write the fields that an edit of a custom server owns. A server that was found is found
/// edited, and its identity, name, install time and provenance are what they were.
pub fn update_server_custom_fields_conn(
    db: &mut Database,
    server_id: &str,
    server: &InstalledServer,
) -> (r: Result<(), StoreError>)
    ensures
        outcome(r) == custom_update(old(db)@),
        r is Err ==> final(db)@ == old(db)@,
        r is Ok ==> final(db)@ == with_change(old(db)@, server_id@, custom_change(server@)),
        r is Ok && found(old(db)@, server_id@) is Ok ==> found(final(db)@, server_id@) == Ok::<
            _,
            StoreErrorView,
        >(custom_edited(found(old(db)@, server_id@)->Ok_0, server@)),
        old(db)@.sound() ==> final(db)@.sound(),
{
    let args_json: String = strings_text(&server.args);
    let env_keys_json: String = strings_text(&server.env_keys);
    if !has_custom_columns(&db.columns) {
        return Err(refuse("Failed to update custom mcp_server fields", Cause::Schema));
    }
    proof {
        lemma_strings_round_trip(server@.args);
        lemma_strings_round_trip(server@.env_keys);
        law_transport_round_trips(server@.transport);
        law_command_kind_round_trips(server@.command_kind);
    }
    let edit: Edit = Edit::Custom {
        display_name: server.display_name.clone(),
        description: copy_opt(&server.description),
        command_kind: server.command_kind.as_str().to_owned(),
        command: server.command.clone(),
        args_json,
        env_keys_json,
        transport: server.transport.dispatch_kind().to_owned(),
        deployment_url: address(&server.transport),
    };
    edit_server(db, server_id, &edit);
    assert((|row: ServerRowView| edit.made(row)) =~= custom_change(server@));
    Ok(())
}

/// The store without the server of the identity `id` and without its environment. Where there is
/// no such server nothing is removed, so that nothing goes along with it.
pub open spec fn without_server(db: DatabaseView, id: Seq<char>) -> DatabaseView {
    if row_of(db.servers, id) is Some {
        DatabaseView {
            servers: db.servers.filter(|row: ServerRowView| row.server_id != id),
            env: env_without(db.env, id),
            ..db
        }
    } else {
        db
    }
}

/// How a removal ends: whether there was such a server.
pub open spec fn removal(db: DatabaseView, id: Seq<char>) -> Result<bool, StoreErrorView> {
    if has_column(db.columns, "server_id"@) {
        Ok(row_of(db.servers, id) is Some)
    } else {
        Err(refused("Failed to delete mcp_server"@, Cause::Schema))
    }
}

/// The rows that are not of the identity `id`.
fn drop_server(rows: &Vec<ServerRow>, id: &str) -> (r: Vec<ServerRow>)
    ensures
        row_views(r@) == row_views(rows@).filter(|row: ServerRowView| row.server_id != id@),
{
    let ghost other = |row: ServerRowView| row.server_id != id@;
    let ghost all = row_views(rows@);
    let mut kept: Vec<ServerRow> = Vec::new();
    let mut i: usize = 0;
    reveal(Seq::filter);
    assert(row_views(kept@) =~= all.take(0).filter(other));
    while i < rows.len()
        invariant
            i <= rows@.len(),
            all == row_views(rows@),
            other == (|row: ServerRowView| row.server_id != id@),
            row_views(kept@) == all.take(i as int).filter(other),
        decreases rows@.len() - i,
    {
        reveal(Seq::filter);
        let ghost before = kept@;
        assert(all.take(i + 1).drop_last() =~= all.take(i as int));
        assert(all.take(i + 1).last() == rows@[i as int]@);
        if !same(rows[i].server_id.as_str(), id) {
            kept.push(rows[i].clone());
            assert(row_views(kept@) =~= row_views(before).push(rows@[i as int]@));
        }
        i = i + 1;
    }
    assert(all.take(rows@.len() as int) =~= all);
    kept
}

/// Removing one identity leaves the others where they were found.
proof fn lemma_row_without(rows: Seq<ServerRowView>, id: Seq<char>, other: Seq<char>)
    ensures
        row_of(rows.filter(|row: ServerRowView| row.server_id != id), other) == if other == id {
            None
        } else {
            row_of(rows, other)
        },
    decreases rows.len(),
{
    let keep = |row: ServerRowView| row.server_id != id;
    reveal(Seq::filter);
    if rows.len() > 0 {
        let shorter = rows.drop_last();
        lemma_row_without(shorter, id, other);
        assert(rows =~= shorter.push(rows.last()));
        lemma_row_behind(shorter, rows.last(), other, 0);
        if keep(rows.last()) {
            lemma_row_behind(shorter.filter(keep), rows.last(), other, 0);
        }
    }
}

/// Remove a server with its environment, once the schema is up to date, and say whether there was
/// one.
pub fn delete_server(db: &mut Database, server_id: &str) -> (r: Result<bool, StoreError>)
    ensures
        outcome(r) == removal(current(old(db)@), server_id@),
        r is Err ==> final(db)@ == current(old(db)@),
        r is Ok ==> final(db)@ == without_server(current(old(db)@), server_id@),
        old(db)@.sound() ==> final(db)@.sound(),
{
    init_schema(db);
    if !column_there(&db.columns, "server_id") {
        return Err(refuse("Failed to delete mcp_server", Cause::Schema));
    }
    match place_of(&db.servers, server_id) {
        Some(_) => (),
        None => return Ok(false),
    }
    let ghost before = db@;
    db.servers = drop_server(&db.servers, server_id);
    db.env = drop_env(&db.env, server_id);
    proof {
        if before.sound() {
            lemma_sound_without(before, server_id@);
        }
    }
    Ok(true)
}

/// A removal keeps a store sound.
proof fn lemma_sound_without(db: DatabaseView, id: Seq<char>)
    requires
        db.sound(),
    ensures
        without_server(db, id).sound(),
{
    let after = without_server(db, id);
    if row_of(db.servers, id) is Some {
        lemma_distinct_without(db.servers, id);
        assert forall|k: (Seq<char>, Seq<char>)| #[trigger]
            after.env.dom().contains(k) implies row_of(after.servers, k.0) is Some by {
            assert(db.env.dom().contains(k));
            lemma_row_without(db.servers, id, k.0);
        }
    }
}

/// Distinct identities stay distinct among fewer rows.
proof fn lemma_distinct_without(rows: Seq<ServerRowView>, id: Seq<char>)
    requires
        forall|i: int, j: int|
            0 <= i < j < rows.len() ==> (#[trigger] rows[i]).server_id != (
            #[trigger] rows[j]).server_id,
    ensures
        ({
            let kept = rows.filter(|row: ServerRowView| row.server_id != id);
            forall|i: int, j: int|
                0 <= i < j < kept.len() ==> (#[trigger] kept[i]).server_id != (
                #[trigger] kept[j]).server_id
        }),
    decreases rows.len(),
{
    let keep = |row: ServerRowView| row.server_id != id;
    reveal(Seq::filter);
    if rows.len() > 0 {
        let shorter = rows.drop_last();
        assert forall|i: int, j: int| 0 <= i < j < shorter.len() implies (
        #[trigger] shorter[i]).server_id != (#[trigger] shorter[j]).server_id by {
            assert(shorter[i] == rows[i] && shorter[j] == rows[j]);
        }
        lemma_distinct_without(shorter, id);
        let kept = rows.filter(keep);
        let before = shorter.filter(keep);
        assert forall|i: int, j: int| 0 <= i < j < kept.len() implies (
        #[trigger] kept[i]).server_id != (#[trigger] kept[j]).server_id by {
            if j < before.len() {
                assert(kept[i] == before[i] && kept[j] == before[j]);
            } else {
                assert(kept[i] == before[i]);
                let known = before[i].server_id;
                lemma_row_of(before, known, 0, i);
                lemma_row_without(shorter, id, known);
                let k = lemma_row_from(shorter, known, 0);
                assert(rows[k] == shorter[k]);
                assert(rows[rows.len() - 1] == rows.last());
            }
        }
    }
}

/// A removed server is not found, and what was found under another identity is found as before.
pub proof fn law_removal_removes_one_server(db: DatabaseView, id: Seq<char>, other: Seq<char>)
    requires
        other != id,
    ensures
        found(without_server(db, id), id) is Err,
        found(without_server(db, id), other) == found(db, other),
{
    lemma_row_without(db.servers, id, id);
    lemma_row_without(db.servers, id, other);
}

/// No value of a removed server is kept, and every value of another server is. Where there was no
/// such server the store stays as it is; in a sound store there are no values of it either way.
pub proof fn law_removal_takes_the_environment(db: DatabaseView, id: Seq<char>, other: Seq<char>)
    requires
        other != id,
    ensures
        row_of(db.servers, id) is Some || db.sound() ==> env_of(without_server(db, id).env, id)
            == Map::<Seq<char>, Seq<char>>::empty(),
        row_of(db.servers, id) is None ==> without_server(db, id) == db,
        env_of(without_server(db, id).env, other) == env_of(db.env, other),
{
    if row_of(db.servers, id) is Some || db.sound() {
        assert(env_of(without_server(db, id).env, id) =~= Map::<Seq<char>, Seq<char>>::empty());
    }
    assert(env_of(without_server(db, id).env, other) =~= env_of(db.env, other));
}

/// A change to one server that keeps its identity leaves what is found under another identity.
pub proof fn law_a_change_keeps_the_others(
    db: DatabaseView,
    id: Seq<char>,
    change: spec_fn(ServerRowView) -> ServerRowView,
    other: Seq<char>,
)
    requires
        other != id,
        forall|row: ServerRowView| (#[trigger] change(row)).server_id == row.server_id,
    ensures
        found(with_change(db, id, change), other) == found(db, other),
{
    lemma_row_changed(db.servers, id, change, other, 0);
}

/// An edit moves neither the identity of a server, under which its values are kept, nor its name,
/// the time of its installation or where it came from.
pub proof fn law_an_edit_keeps_the_identity(
    before: InstalledServerView,
    server: InstalledServerView,
)
    ensures
        custom_edited(before, server).server_id == before.server_id,
        custom_edited(before, server).qualified_name == before.qualified_name,
        custom_edited(before, server).installed_at == before.installed_at,
        custom_edited(before, server).provenance == before.provenance,
{
}

/// A change is made to every row of the identity and to no other, in its place; no row is added or
/// removed, and the rest of the store stays.
pub proof fn law_a_change_is_made_to_one_identity(
    db: DatabaseView,
    id: Seq<char>,
    change: spec_fn(ServerRowView) -> ServerRowView,
    i: int,
)
    ensures
        ({
            let after = with_change(db, id, change);
            &&& after.servers.len() == db.servers.len()
            &&& 0 <= i < db.servers.len() && db.servers[i].server_id == id ==> after.servers[i]
                == change(db.servers[i])
            &&& 0 <= i < db.servers.len() && db.servers[i].server_id != id ==> after.servers[i]
                == db.servers[i]
            &&& after.columns == db.columns
            &&& after.env_table == db.env_table
            &&& after.env == db.env
            &&& after.cache_table == db.cache_table
            &&& after.cache == db.cache
        }),
{
}

/// Each of the four small changes writes its one column, with the flag as one or nought and the keys
/// and the configuration as JSON text, and leaves the others.
pub proof fn law_a_small_change_writes_one_column(
    row: ServerRowView,
    enabled: bool,
    keys: Seq<Seq<char>>,
    config: Json,
    time: i64,
)
    ensures
        enabled_change(enabled)(row) == (ServerRowView {
            enabled: Some(
                if enabled {
                    1i64
                } else {
                    0i64
                },
            ),
            ..row
        }),
        env_keys_change(keys)(row) == (ServerRowView {
            env_keys_json: json_text(strings_json(keys)),
            ..row
        }),
        config_change(Some(config))(row) == (ServerRowView {
            config_json: Some(json_text(config)),
            ..row
        }),
        config_change(None)(row) == (ServerRowView { config_json: None, ..row }),
        connection_change(time)(row) == (ServerRowView { last_connected_at: Some(time), ..row }),
{
}

/// An edit writes the eight columns that it owns, from the server that it is given, and leaves the
/// identity, the name, the icon, the configuration, both times, the flag and the provenance.
pub proof fn law_an_edit_writes_the_columns_it_owns(
    row: ServerRowView,
    before: InstalledServerView,
    server: InstalledServerView,
)
    ensures
        ({
            let after = custom_change(server)(row);
            &&& after.display_name == server.display_name
            &&& after.description == server.description
            &&& after.command_kind == server.command_kind.name()
            &&& after.command == server.command
            &&& after.args_json == json_text(strings_json(server.args))
            &&& after.env_keys_json == json_text(strings_json(server.env_keys))
            &&& after.transport == Some(server.transport.kind())
            &&& after.deployment_url == server.transport.url()
            &&& after.server_id == row.server_id
            &&& after.qualified_name == row.qualified_name
            &&& after.icon_url == row.icon_url
            &&& after.config_json == row.config_json
            &&& after.installed_at == row.installed_at
            &&& after.last_connected_at == row.last_connected_at
            &&& after.enabled == row.enabled
            &&& after.provenance == row.provenance
        }),
        ({
            let after = custom_edited(before, server);
            &&& after.display_name == server.display_name
            &&& after.description == server.description
            &&& after.command_kind == server.command_kind
            &&& after.command == server.command
            &&& after.args == server.args
            &&& after.env_keys == server.env_keys
            &&& after.transport == server.transport
            &&& after.icon_url == before.icon_url
            &&& after.config == before.config
            &&& after.last_connected_at == before.last_connected_at
            &&& after.enabled == before.enabled
        }),
{
}

/// A change is refused only where a column that it names is missing, and then in the words of its
/// context; that no server has the identity is no refusal.
pub proof fn law_a_change_is_refused_for_a_missing_column_only(
    db: DatabaseView,
    column: Seq<char>,
    context: Seq<char>,
)
    ensures
        column_change(db, column, context) is Ok <==> has_column(db.columns, "server_id"@)
            && has_column(db.columns, column),
        column_change(db, column, context) is Err ==> column_change(db, column, context)->Err_0 == (
        StoreErrorView::Statement { context: Some(context), cause: Cause::Schema }),
        complete(db.columns) ==> custom_update(db) is Ok,
        custom_update(db) is Err ==> custom_update(db)->Err_0 == (StoreErrorView::Statement {
            context: Some("Failed to update custom mcp_server fields"@),
            cause: Cause::Schema,
        }),
        custom_update(db) is Ok <==> has_column(db.columns, "server_id"@) && has_column(
            db.columns,
            "display_name"@,
        ) && has_column(db.columns, "description"@) && has_column(db.columns, "command_kind"@)
            && has_column(db.columns, "command"@) && has_column(db.columns, "args_json"@)
            && has_column(db.columns, "env_keys_json"@) && has_column(db.columns, "transport"@)
            && has_column(db.columns, "deployment_url"@),
{
}

/// A removal says whether a row had the identity. It takes every row of the identity and every value
/// of the server along, keeps all other rows in their order and all other values, and touches
/// nothing else; where no row has the identity it changes nothing.
pub proof fn law_a_removal_takes_one_identity(db: DatabaseView, id: Seq<char>, row: ServerRowView)
    ensures
        ({
            let known = exists|i: int|
                0 <= i < db.servers.len() && (#[trigger] db.servers[i]).server_id == id;
            let after = without_server(db, id);
            &&& has_column(db.columns, "server_id"@) ==> removal(db, id) == Ok::<
                bool,
                StoreErrorView,
            >(known)
            &&& !has_column(db.columns, "server_id"@) ==> removal(db, id) == Err::<bool, _>(
                StoreErrorView::Statement {
                    context: Some("Failed to delete mcp_server"@),
                    cause: Cause::Schema,
                },
            )
            &&& !known ==> after == db
            &&& known ==> after.servers == db.servers.filter(
                |r: ServerRowView| r.server_id != id,
            )
            &&& after.servers.contains(row) <==> db.servers.contains(row) && row.server_id != id
            &&& known ==> after.env == env_without(db.env, id)
            &&& after.columns == db.columns
            &&& after.env_table == db.env_table
            &&& after.cache_table == db.cache_table
            &&& after.cache == db.cache
        }),
{
    law_the_row_of_an_identity_is_the_first(db.servers, id, 0);
    let keep = |r: ServerRowView| r.server_id != id;
    broadcast use vstd::seq_lib::group_filter_ensures;

    let kept = db.servers.filter(keep);
    if kept.contains(row) {
        let i = choose|i: int| 0 <= i < kept.len() && kept[i] == row;
        assert(keep(kept[i]));
        lemma_kept_row(db.servers, id, row);
    }
    if db.servers.contains(row) && row.server_id != id {
        let i = choose|i: int| 0 <= i < db.servers.len() && db.servers[i] == row;
        assert(keep(db.servers[i]));
        assert(kept.contains(db.servers[i]));
    }
    if !(exists|i: int| 0 <= i < db.servers.len() && (#[trigger] db.servers[i]).server_id == id) {
        if db.servers.contains(row) {
            let i = choose|i: int| 0 <= i < db.servers.len() && db.servers[i] == row;
            assert(db.servers[i].server_id != id);
        }
    }
}

/// A row that is kept was there.
proof fn lemma_kept_row(rows: Seq<ServerRowView>, id: Seq<char>, row: ServerRowView)
    requires
        rows.filter(|r: ServerRowView| r.server_id != id).contains(row),
    ensures
        rows.contains(row),
    decreases rows.len(),
{
    let keep = |r: ServerRowView| r.server_id != id;
    reveal(Seq::filter);
    if rows.len() > 0 {
        let front = rows.drop_last();
        let before = front.filter(keep);
        let all = rows.filter(keep);
        let i = choose|i: int| 0 <= i < all.len() && all[i] == row;
        if i < before.len() {
            assert(before[i] == row);
            lemma_kept_row(front, id, row);
            let k = choose|k: int| 0 <= k < front.len() && front[k] == row;
            assert(rows[k] == row);
        } else {
            assert(rows[rows.len() - 1] == row);
        }
    }
}

} // verus!
