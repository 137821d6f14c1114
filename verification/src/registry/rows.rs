//! Rows of the server table, and how an installed server is written to one and read from one.

use crate::json::{
    error_text, json_from_str, json_of, json_parse, json_read, json_strings, json_text,
    lemma_strings_round_trip, max_depth, opt_json, plain, strings_error, strings_from_json,
    strings_json, strings_text, value_text, Json,
};
use crate::registry::types::{
    law_command_kind_round_trips, law_provenance_round_trips, law_transport_round_trips,
    CommandKind, InstalledServer, InstalledServerView, ServerProvenance, Transport, TransportView,
};
use crate::text::{copy_opt, opt_text, texts};
use vstd::prelude::*;

verus! {

/// The place of the column of the arguments in a server row.
pub const ARGS_COLUMN: usize = 7;

/// The place of the column of the environment keys in a server row.
pub const ENV_KEYS_COLUMN: usize = 8;

/// The place of the column of the configuration in a server row.
pub const CONFIG_COLUMN: usize = 9;

/// A row of the server table. The last four columns came later than the others and may hold
/// nothing.
#[derive(Debug, PartialEq, Eq)]
pub struct ServerRow {
    pub server_id: String,
    pub qualified_name: String,
    pub display_name: String,
    pub description: Option<String>,
    pub icon_url: Option<String>,
    pub command_kind: String,
    pub command: String,
    pub args_json: String,
    pub env_keys_json: String,
    pub config_json: Option<String>,
    pub installed_at: i64,
    pub last_connected_at: Option<i64>,
    pub transport: Option<String>,
    pub deployment_url: Option<String>,
    pub enabled: Option<i64>,
    pub provenance: Option<String>,
}

impl Clone for ServerRow {
    fn clone(&self) -> (r: Self)
        ensures
            r == *self,
    {
        ServerRow {
            server_id: self.server_id.clone(),
            qualified_name: self.qualified_name.clone(),
            display_name: self.display_name.clone(),
            description: copy_opt(&self.description),
            icon_url: copy_opt(&self.icon_url),
            command_kind: self.command_kind.clone(),
            command: self.command.clone(),
            args_json: self.args_json.clone(),
            env_keys_json: self.env_keys_json.clone(),
            config_json: copy_opt(&self.config_json),
            installed_at: self.installed_at,
            last_connected_at: self.last_connected_at,
            transport: copy_opt(&self.transport),
            deployment_url: copy_opt(&self.deployment_url),
            enabled: self.enabled,
            provenance: copy_opt(&self.provenance),
        }
    }
}

/// What a [`ServerRow`] holds.
#[verifier::ext_equal]
pub struct ServerRowView {
    pub server_id: Seq<char>,
    pub qualified_name: Seq<char>,
    pub display_name: Seq<char>,
    pub description: Option<Seq<char>>,
    pub icon_url: Option<Seq<char>>,
    pub command_kind: Seq<char>,
    pub command: Seq<char>,
    pub args_json: Seq<char>,
    pub env_keys_json: Seq<char>,
    pub config_json: Option<Seq<char>>,
    pub installed_at: int,
    pub last_connected_at: Option<i64>,
    pub transport: Option<Seq<char>>,
    pub deployment_url: Option<Seq<char>>,
    pub enabled: Option<i64>,
    pub provenance: Option<Seq<char>>,
}

impl View for ServerRow {
    type V = ServerRowView;

    open spec fn view(&self) -> ServerRowView {
        ServerRowView {
            server_id: self.server_id@,
            qualified_name: self.qualified_name@,
            display_name: self.display_name@,
            description: opt_text(self.description),
            icon_url: opt_text(self.icon_url),
            command_kind: self.command_kind@,
            command: self.command@,
            args_json: self.args_json@,
            env_keys_json: self.env_keys_json@,
            config_json: opt_text(self.config_json),
            installed_at: self.installed_at as int,
            last_connected_at: self.last_connected_at,
            transport: opt_text(self.transport),
            deployment_url: opt_text(self.deployment_url),
            enabled: self.enabled,
            provenance: opt_text(self.provenance),
        }
    }
}

/// The row that an installed server is written to, whose JSON columns hold these texts.
pub open spec fn written_with(
    server: InstalledServerView,
    args_json: Seq<char>,
    env_keys_json: Seq<char>,
    config_json: Option<Seq<char>>,
) -> ServerRowView {
    ServerRowView {
        server_id: server.server_id,
        qualified_name: server.qualified_name,
        display_name: server.display_name,
        description: server.description,
        icon_url: server.icon_url,
        command_kind: server.command_kind.name(),
        command: server.command,
        args_json,
        env_keys_json,
        config_json,
        installed_at: server.installed_at,
        last_connected_at: server.last_connected_at,
        transport: Some(server.transport.kind()),
        deployment_url: server.transport.url(),
        enabled: Some(if server.enabled { 1i64 } else { 0i64 }),
        provenance: Some(server.provenance.name()),
    }
}

/// The row that an installed server is written to.
pub open spec fn written(server: InstalledServerView) -> ServerRowView {
    written_with(
        server,
        json_text(strings_json(server.args)),
        json_text(strings_json(server.env_keys)),
        match server.config {
            Some(value) => Some(json_text(value)),
            None => None,
        },
    )
}

/// A text column that may hold nothing, nothing being the empty text.
pub open spec fn or_empty(text: Option<Seq<char>>) -> Seq<char> {
    match text {
        Some(t) => t,
        None => Seq::empty(),
    }
}

/// The server that a row stands for, whose JSON columns read as these values. A row without a
/// transport is one over standard streams, a row without the enabled flag is enabled, and a row
/// without a provenance came from a registry.
pub open spec fn read_with(
    row: ServerRowView,
    args: Seq<Seq<char>>,
    env_keys: Seq<Seq<char>>,
    config: Option<Json>,
) -> InstalledServerView {
    InstalledServerView {
        server_id: row.server_id,
        qualified_name: row.qualified_name,
        display_name: row.display_name,
        description: row.description,
        icon_url: row.icon_url,
        command_kind: CommandKind::named(row.command_kind),
        command: row.command,
        args,
        env_keys,
        config,
        installed_at: row.installed_at,
        last_connected_at: row.last_connected_at,
        transport: TransportView::stored(or_empty(row.transport), row.deployment_url),
        enabled: row.enabled != Some(0i64),
        provenance: ServerProvenance::named(or_empty(row.provenance)),
    }
}

/// A JSON column that does not read as what belongs there, and the error with which reading it
/// stopped.
#[derive(Debug)]
pub struct BadColumn<E> {
    pub column: usize,
    pub error: E,
}

/// What a [`BadColumn`] says: which column it is, and what the error tells.
pub struct BadColumnView {
    pub column: usize,
    pub told: Seq<char>,
}

impl View for BadColumn<serde_json::Error> {
    type V = BadColumnView;

    open spec fn view(&self) -> BadColumnView {
        BadColumnView { column: self.column, told: error_text(self.error) }
    }
}

/// The server that a row stands for, or the first of the three JSON columns that does not read as
/// what belongs there, with what reading that very column tells.
pub open spec fn read(row: ServerRowView) -> Result<InstalledServerView, BadColumnView> {
    let args = json_strings(json_parse(row.args_json));
    let env_keys = json_strings(json_parse(row.env_keys_json));
    if args is None {
        Err(BadColumnView { column: ARGS_COLUMN, told: strings_error(row.args_json) })
    } else if env_keys is None {
        Err(BadColumnView { column: ENV_KEYS_COLUMN, told: strings_error(row.env_keys_json) })
    } else {
        match row.config_json {
            None => Ok(read_with(row, args->0, env_keys->0, None)),
            Some(text) => match json_read(text) {
                Ok(config) => Ok(read_with(row, args->0, env_keys->0, Some(config))),
                Err(told) => Err(BadColumnView { column: CONFIG_COLUMN, told }),
            },
        }
    }
}

/// The configuration of `server`, if it has one, survives being written as text.
pub open spec fn readable(server: InstalledServerView) -> bool {
    server.config is Some ==> plain(server.config->0, max_depth())
}

/// The stored form of the address of a transport.
pub(crate) fn address(transport: &Transport) -> (r: Option<String>)
    ensures
        opt_text(r) == transport@.url(),
{
    match transport.deployment_url() {
        Some(url) => Some(url.to_owned()),
        None => None,
    }
}

/// An optional text, the empty text where there is none.
fn text_or_empty(text: &Option<String>) -> (r: String)
    ensures
        r@ == or_empty(opt_text(*text)),
{
    match text {
        Some(t) => t.clone(),
        None => String::new(),
    }
}

/// The row that `server` is written to, whose JSON columns hold these texts.
pub fn row_with(
    server: &InstalledServer,
    args_json: String,
    env_keys_json: String,
    config_json: Option<String>,
) -> (r: ServerRow)
    ensures
        r@ == written_with(server@, args_json@, env_keys_json@, opt_text(config_json)),
{
    ServerRow {
        server_id: server.server_id.clone(),
        qualified_name: server.qualified_name.clone(),
        display_name: server.display_name.clone(),
        description: copy_opt(&server.description),
        icon_url: copy_opt(&server.icon_url),
        command_kind: server.command_kind.as_str().to_owned(),
        command: server.command.clone(),
        args_json,
        env_keys_json,
        config_json,
        installed_at: server.installed_at,
        last_connected_at: server.last_connected_at,
        transport: Some(server.transport.dispatch_kind().to_owned()),
        deployment_url: address(&server.transport),
        enabled: Some(if server.enabled { 1 } else { 0 }),
        provenance: Some(server.provenance.as_str().to_owned()),
    }
}

/// The row that `server` is written to. A server with a readable configuration is read back from
/// it as it was.
pub fn server_row(server: &InstalledServer) -> (r: ServerRow)
    ensures
        r@ == written(server@),
        readable(server@) ==> read(r@) == Ok::<InstalledServerView, BadColumnView>(server@),
{
    let args_json: String = strings_text(&server.args);
    let env_keys_json: String = strings_text(&server.env_keys);
    let config_json: Option<String> = match &server.config {
        Some(value) => Some(value_text(value)),
        None => None,
    };
    proof {
        lemma_strings_round_trip(server@.args);
        lemma_strings_round_trip(server@.env_keys);
        law_transport_round_trips(server@.transport);
        law_command_kind_round_trips(server@.command_kind);
        law_provenance_round_trips(server@.provenance);
    }
    row_with(server, args_json, env_keys_json, config_json)
}

/// The server that `row` stands for, whose JSON columns read as these values.
pub fn server_with(
    row: &ServerRow,
    args: Vec<String>,
    env_keys: Vec<String>,
    config: Option<serde_json::Value>,
) -> (r: InstalledServer)
    ensures
        r@ == read_with(row@, texts(args@), texts(env_keys@), opt_json(config)),
{
    let kind: String = text_or_empty(&row.transport);
    let transport: Transport = match &row.deployment_url {
        Some(url) => Transport::parse(kind.as_str(), Some(url.as_str())),
        None => Transport::parse(kind.as_str(), None),
    };
    let enabled: i64 = match row.enabled {
        Some(flag) => flag,
        None => 1,
    };
    let provenance: String = text_or_empty(&row.provenance);
    InstalledServer {
        server_id: row.server_id.clone(),
        qualified_name: row.qualified_name.clone(),
        display_name: row.display_name.clone(),
        description: copy_opt(&row.description),
        icon_url: copy_opt(&row.icon_url),
        command_kind: CommandKind::parse(row.command_kind.as_str()),
        command: row.command.clone(),
        args,
        env_keys,
        config,
        installed_at: row.installed_at,
        last_connected_at: row.last_connected_at,
        transport,
        enabled: enabled != 0,
        provenance: ServerProvenance::parse(provenance.as_str()),
    }
}

/// The server that `row` stands for, from what reading its three JSON columns gave; of the columns
/// that did not read the first is told, with the very error that came of it.
pub fn server_from<E>(
    row: &ServerRow,
    args: Result<Vec<String>, E>,
    env_keys: Result<Vec<String>, E>,
    config: Option<Result<serde_json::Value, E>>,
) -> (r: Result<InstalledServer, BadColumn<E>>)
    ensures
        match (args, env_keys, config) {
            (Err(error), _, _) => r == Err::<InstalledServer, _>(
                BadColumn { column: ARGS_COLUMN, error },
            ),
            (Ok(_), Err(error), _) => r == Err::<InstalledServer, _>(
                BadColumn { column: ENV_KEYS_COLUMN, error },
            ),
            (Ok(_), Ok(_), Some(Err(error))) => r == Err::<InstalledServer, _>(
                BadColumn { column: CONFIG_COLUMN, error },
            ),
            (Ok(args), Ok(env_keys), Some(Ok(value))) => r is Ok && r->Ok_0@ == read_with(
                row@,
                texts(args@),
                texts(env_keys@),
                Some(json_of(value)),
            ),
            (Ok(args), Ok(env_keys), None) => r is Ok && r->Ok_0@ == read_with(
                row@,
                texts(args@),
                texts(env_keys@),
                None,
            ),
        },
{
    let args: Vec<String> = match args {
        Ok(list) => list,
        Err(error) => return Err(BadColumn { column: ARGS_COLUMN, error }),
    };
    let env_keys: Vec<String> = match env_keys {
        Ok(list) => list,
        Err(error) => return Err(BadColumn { column: ENV_KEYS_COLUMN, error }),
    };
    let config: Option<serde_json::Value> = match config {
        None => None,
        Some(Ok(value)) => Some(value),
        Some(Err(error)) => return Err(BadColumn { column: CONFIG_COLUMN, error }),
    };
    Ok(server_with(row, args, env_keys, config))
}

/// The server that `row` stands for, or the first of its JSON columns that does not read, with the
/// error of reading that column.
pub fn map_server_row(row: &ServerRow) -> (r: Result<
    InstalledServer,
    BadColumn<serde_json::Error>,
>)
    ensures
        match r {
            Ok(server) => read(row@) == Ok::<InstalledServerView, BadColumnView>(server@),
            Err(bad) => read(row@) == Err::<InstalledServerView, BadColumnView>(bad@),
        },
{
    let args: Result<Vec<String>, serde_json::Error> = strings_from_json(row.args_json.as_str());
    let env_keys: Result<Vec<String>, serde_json::Error> = strings_from_json(
        row.env_keys_json.as_str(),
    );
    let config: Option<Result<serde_json::Value, serde_json::Error>> = match &row.config_json {
        None => None,
        Some(text) => Some(json_from_str(text.as_str())),
    };
    server_from(row, args, env_keys, config)
}

/// A server is written field by field: its texts as they are, its lists and its configuration as
/// JSON text, its flag as one or nought, and the rest under the stored names.
pub proof fn law_a_server_is_written_field_by_field(server: InstalledServerView)
    ensures
        ({
            let row = written(server);
            &&& row.server_id == server.server_id
            &&& row.qualified_name == server.qualified_name
            &&& row.display_name == server.display_name
            &&& row.description == server.description
            &&& row.icon_url == server.icon_url
            &&& row.command == server.command
            &&& row.command_kind == server.command_kind.name()
            &&& row.args_json == json_text(strings_json(server.args))
            &&& row.env_keys_json == json_text(strings_json(server.env_keys))
            &&& server.config is None <==> row.config_json is None
            &&& server.config is Some ==> row.config_json->0 == json_text(server.config->0)
            &&& row.installed_at == server.installed_at
            &&& row.last_connected_at == server.last_connected_at
            &&& row.transport == Some(server.transport.kind())
            &&& row.deployment_url == server.transport.url()
            &&& server.enabled ==> row.enabled == Some(1i64)
            &&& !server.enabled ==> row.enabled == Some(0i64)
            &&& row.provenance == Some(server.provenance.name())
        }),
{
}

/// A row is read field by field: its texts as they are, and the rest by the stored names. A row is
/// enabled unless it holds nought, and a column that holds nothing reads like an empty name.
pub proof fn law_a_row_is_read_field_by_field(
    row: ServerRowView,
    args: Seq<Seq<char>>,
    env_keys: Seq<Seq<char>>,
    config: Option<Json>,
)
    ensures
        ({
            let server = read_with(row, args, env_keys, config);
            &&& server.server_id == row.server_id
            &&& server.qualified_name == row.qualified_name
            &&& server.display_name == row.display_name
            &&& server.description == row.description
            &&& server.icon_url == row.icon_url
            &&& server.command_kind == CommandKind::named(row.command_kind)
            &&& server.command == row.command
            &&& server.args == args
            &&& server.env_keys == env_keys
            &&& server.config == config
            &&& server.installed_at == row.installed_at
            &&& server.last_connected_at == row.last_connected_at
            &&& row.transport is Some ==> server.transport == TransportView::stored(
                row.transport->0,
                row.deployment_url,
            )
            &&& row.transport is None ==> server.transport == TransportView::Stdio
            &&& !server.enabled <==> row.enabled == Some(0i64)
            &&& row.provenance is Some ==> server.provenance == ServerProvenance::named(
                row.provenance->0,
            )
            &&& row.provenance is None ==> server.provenance == ServerProvenance::Registry
        }),
{
    reveal_strlit("http_remote");
    reveal_strlit("custom");
    assert("http_remote"@.len() == 11 && "custom"@.len() == 6);
    assert(or_empty(None).len() == 0);
}

/// A row reads exactly where its arguments and its environment keys are lists of strings and its
/// configuration, where it has one, is a value, and it reads as what those say. Otherwise the first
/// of the columns 7, 8 and 9 that does not read is told.
pub proof fn law_a_row_reads_where_its_columns_do(row: ServerRowView)
    ensures
        ({
            let args = json_strings(json_parse(row.args_json));
            let env_keys = json_strings(json_parse(row.env_keys_json));
            let config_reads = row.config_json is None || json_parse(row.config_json->0) is Some;
            &&& read(row) is Ok <==> args is Some && env_keys is Some && config_reads
            &&& args is None ==> read(row)->Err_0.column == 7
            &&& args is Some && env_keys is None ==> read(row)->Err_0.column == 8
            &&& args is Some && env_keys is Some && !config_reads ==> read(row)->Err_0.column == 9
            &&& read(row) is Ok && row.config_json is None ==> read(row)->Ok_0 == read_with(
                row,
                args->0,
                env_keys->0,
                None,
            )
            &&& read(row) is Ok && row.config_json is Some ==> read(row)->Ok_0 == read_with(
                row,
                args->0,
                env_keys->0,
                json_parse(row.config_json->0),
            )
        }),
{
}

/// What a row says is what it holds, column by column.
pub proof fn law_a_row_says_what_it_holds(row: ServerRow)
    ensures
        row@.server_id == row.server_id@,
        row@.qualified_name == row.qualified_name@,
        row@.display_name == row.display_name@,
        row@.description == opt_text(row.description),
        row@.icon_url == opt_text(row.icon_url),
        row@.command_kind == row.command_kind@,
        row@.command == row.command@,
        row@.args_json == row.args_json@,
        row@.env_keys_json == row.env_keys_json@,
        row@.config_json == opt_text(row.config_json),
        row@.installed_at == row.installed_at,
        row@.last_connected_at == row.last_connected_at,
        row@.transport == opt_text(row.transport),
        row@.deployment_url == opt_text(row.deployment_url),
        row@.enabled == row.enabled,
        row@.provenance == opt_text(row.provenance),
{
}

} // verus!
