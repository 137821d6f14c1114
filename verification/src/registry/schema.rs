//! The schema of the store: which columns the server table has, and which are added to a table
//! that was made before they existed.

use crate::registry::database::{lemma_sound_with_same_ids, row_views, Database, DatabaseView};
use crate::registry::rows::{read, ServerRow, ServerRowView};
use crate::registry::types::{
    law_provenance_round_trips, law_transport_round_trips, law_unknown_names_fall_back,
    InstalledServerView, ServerProvenance, TransportView,
};
use crate::text::{
    cat, contains, copy_list, law_a_needle_stands_between_two_parts, list_has, lowered, occurs_in,
    opt_text, same_any_case, texts,
};
use vstd::prelude::*;

verus! {

/// The columns that the server table was first made with.
pub open spec fn first_columns() -> Seq<Seq<char>> {
    seq![
        "server_id"@,
        "qualified_name"@,
        "display_name"@,
        "description"@,
        "icon_url"@,
        "command_kind"@,
        "command"@,
        "args_json"@,
        "env_keys_json"@,
        "config_json"@,
        "installed_at"@,
        "last_connected_at"@,
    ]
}

/// A column of that name is there. The case of its letters does not matter.
pub open spec fn has_column(columns: Seq<Seq<char>>, name: Seq<char>) -> bool {
    exists|i: int| 0 <= i < columns.len() && lowered(#[trigger] columns[i]) == lowered(name)
}

/// Whether each of the columns of a server row is there.
pub open spec fn complete(columns: Seq<Seq<char>>) -> bool {
    &&& has_column(columns, "server_id"@)
    &&& has_column(columns, "qualified_name"@)
    &&& has_column(columns, "display_name"@)
    &&& has_column(columns, "description"@)
    &&& has_column(columns, "icon_url"@)
    &&& has_column(columns, "command_kind"@)
    &&& has_column(columns, "command"@)
    &&& has_column(columns, "args_json"@)
    &&& has_column(columns, "env_keys_json"@)
    &&& has_column(columns, "config_json"@)
    &&& has_column(columns, "installed_at"@)
    &&& has_column(columns, "last_connected_at"@)
    &&& has_column(columns, "transport"@)
    &&& has_column(columns, "deployment_url"@)
    &&& has_column(columns, "enabled"@)
    &&& has_column(columns, "provenance"@)
}

/// `columns`, with `name` at the end unless it is there already.
pub open spec fn with_column(columns: Seq<Seq<char>>, name: Seq<char>) -> Seq<Seq<char>> {
    if has_column(columns, name) {
        columns
    } else {
        columns.push(name)
    }
}

/// The columns after the schema was brought up to date: those of a table that was just made, or
/// those that were there, and then each later column that was missing.
pub open spec fn current_columns(columns: Seq<Seq<char>>) -> Seq<Seq<char>> {
    let first = if columns.len() == 0 {
        first_columns()
    } else {
        columns
    };
    with_column(
        with_column(
            with_column(with_column(first, "transport"@), "deployment_url"@),
            "enabled"@,
        ),
        "provenance"@,
    )
}

/// A row after the schema was brought up to date: each added column holds its default, and every
/// other column what it held.
pub open spec fn current_row(columns: Seq<Seq<char>>, row: ServerRowView) -> ServerRowView {
    ServerRowView {
        transport: if has_column(columns, "transport"@) {
            row.transport
        } else {
            Some("stdio"@)
        },
        deployment_url: if has_column(columns, "deployment_url"@) {
            row.deployment_url
        } else {
            None
        },
        enabled: if has_column(columns, "enabled"@) {
            row.enabled
        } else {
            Some(1i64)
        },
        provenance: if has_column(columns, "provenance"@) {
            row.provenance
        } else {
            Some("registry"@)
        },
        ..row
    }
}

/// The store after its schema was brought up to date.
pub open spec fn current(db: DatabaseView) -> DatabaseView {
    DatabaseView {
        columns: current_columns(db.columns),
        servers: db.servers.map_values(|row: ServerRowView| current_row(db.columns, row)),
        env_table: true,
        cache_table: true,
        ..db
    }
}

/// A column that came later than the server table.
#[derive(Clone, Copy, Debug, PartialEq, Eq, Structural)]
pub enum LaterColumn {
    Transport,
    DeploymentUrl,
    Enabled,
    Provenance,
}

impl LaterColumn {
    /// The name of a column.
    pub open spec fn named(self) -> Seq<char> {
        match self {
            LaterColumn::Transport => "transport"@,
            LaterColumn::DeploymentUrl => "deployment_url"@,
            LaterColumn::Enabled => "enabled"@,
            LaterColumn::Provenance => "provenance"@,
        }
    }

    /// The statement that adds a column.
    pub open spec fn statement(self) -> Seq<char> {
        match self {
            LaterColumn::Transport =>
                "ALTER TABLE mcp_servers ADD COLUMN transport TEXT NOT NULL DEFAULT 'stdio'"@,
            LaterColumn::DeploymentUrl =>
                "ALTER TABLE mcp_servers ADD COLUMN deployment_url TEXT"@,
            LaterColumn::Enabled =>
                "ALTER TABLE mcp_servers ADD COLUMN enabled INTEGER NOT NULL DEFAULT 1"@,
            LaterColumn::Provenance =>
                "ALTER TABLE mcp_servers ADD COLUMN provenance TEXT NOT NULL DEFAULT 'registry'"@,
        }
    }

    /// What the statement that adds a column is for.
    pub open spec fn purpose(self) -> Seq<char> {
        match self {
            LaterColumn::Transport => "transport column to mcp_servers"@,
            LaterColumn::DeploymentUrl => "deployment_url column to mcp_servers"@,
            LaterColumn::Enabled => "enabled column to mcp_servers"@,
            LaterColumn::Provenance => "provenance column to mcp_servers"@,
        }
    }

    /// The name of this column.
    pub fn name(&self) -> (r: &'static str)
        ensures
            r@ == self.named(),
    {
        match self {
            LaterColumn::Transport => "transport",
            LaterColumn::DeploymentUrl => "deployment_url",
            LaterColumn::Enabled => "enabled",
            LaterColumn::Provenance => "provenance",
        }
    }

    /// The statement that adds this column.
    pub fn ddl(&self) -> (r: &'static str)
        ensures
            r@ == self.statement(),
    {
        match self {
            LaterColumn::Transport =>
                "ALTER TABLE mcp_servers ADD COLUMN transport TEXT NOT NULL DEFAULT 'stdio'",
            LaterColumn::DeploymentUrl => "ALTER TABLE mcp_servers ADD COLUMN deployment_url TEXT",
            LaterColumn::Enabled =>
                "ALTER TABLE mcp_servers ADD COLUMN enabled INTEGER NOT NULL DEFAULT 1",
            LaterColumn::Provenance =>
                "ALTER TABLE mcp_servers ADD COLUMN provenance TEXT NOT NULL DEFAULT 'registry'",
        }
    }

    /// What the statement that adds this column is for.
    pub fn what(&self) -> (r: &'static str)
        ensures
            r@ == self.purpose(),
    {
        match self {
            LaterColumn::Transport => "transport column to mcp_servers",
            LaterColumn::DeploymentUrl => "deployment_url column to mcp_servers",
            LaterColumn::Enabled => "enabled column to mcp_servers",
            LaterColumn::Provenance => "provenance column to mcp_servers",
        }
    }
}

/// The later columns, in the order in which they are added.
pub open spec fn later_columns() -> Seq<LaterColumn> {
    seq![
        LaterColumn::Transport,
        LaterColumn::DeploymentUrl,
        LaterColumn::Enabled,
        LaterColumn::Provenance,
    ]
}

/// The later columns that are not among the names of some columns.
pub open spec fn not_among(columns: Seq<Seq<char>>) -> Seq<LaterColumn> {
    later_columns().filter(|c: LaterColumn| !columns.contains(c.named()))
}

/// The later columns that a table with the columns `existing` lacks, in the order in which they
/// are added.
pub fn missing_columns(existing: &Vec<String>) -> (r: Vec<LaterColumn>)
    ensures
        r@ == later_columns().filter(|c: LaterColumn| !texts(existing@).contains(c.named())),
        r@ == not_among(texts(existing@)),
{
    let all: Vec<LaterColumn> = vec![
        LaterColumn::Transport,
        LaterColumn::DeploymentUrl,
        LaterColumn::Enabled,
        LaterColumn::Provenance,
    ];
    let mut out: Vec<LaterColumn> = Vec::new();
    let ghost lacks = |c: LaterColumn| !texts(existing@).contains(c.named());
    let mut i: usize = 0;
    while i < all.len()
        invariant
            i <= all@.len(),
            lacks == (|c: LaterColumn| !texts(existing@).contains(c.named())),
            out@ == all@.take(i as int).filter(lacks),
        decreases all@.len() - i,
    {
        reveal(Seq::filter);
        assert(all@.take(i + 1).drop_last() =~= all@.take(i as int));
        assert(all@.take(i + 1).last() == all@[i as int]);
        if !list_has(existing, all[i].name()) {
            out.push(all[i]);
        }
        i = i + 1;
    }
    assert(all@.take(all@.len() as int) =~= later_columns());
    out
}

/// What is told of a column that could not be added.
pub open spec fn failed_to_add(what: Seq<char>) -> Seq<char> {
    "Failed to add "@ + what
}

/// A failure of the statement that adds a column which is none: the column is there already.
pub open spec fn tolerated(failure: Option<Seq<char>>) -> bool {
    failure is Some && occurs_in(failure->0, "duplicate column name"@)
}

/// How the statement that adds a column went: its failure, where it failed, with the message of
/// the database where there is one. That the column is there already is no failure: another
/// connection may have added it in the meantime. Any other failure is told with its purpose.
pub fn add_column_idempotent(failure: Option<Option<String>>, what: &str) -> (r: Result<
    (),
    String,
>)
    ensures
        match r {
            Ok(()) => failure is None || (failure->0 is Some && occurs_in(
                failure->0->0@,
                "duplicate column name"@,
            )),
            Err(context) => {
                &&& failure is Some
                &&& failure->0 is Some ==> !occurs_in(failure->0->0@, "duplicate column name"@)
                &&& context@ == "Failed to add "@ + what@
            },
        },
        r is Ok <==> failure is None || tolerated(opt_text(failure->0)),
        r is Err ==> r->Err_0@ == failed_to_add(what@),
{
    match failure {
        None => Ok(()),
        Some(Some(message)) => if contains(message.as_str(), "duplicate column name") {
            Ok(())
        } else {
            Err(cat("Failed to add ", what))
        },
        Some(None) => Err(cat("Failed to add ", what)),
    }
}

/// The names of the columns of the server table.
pub fn mcp_servers_columns(db: &Database) -> (r: Vec<String>)
    ensures
        texts(r@) == db@.columns,
{
    copy_list(&db.columns)
}

/// The columns that the server table is made with.
fn made_with() -> (r: Vec<String>)
    ensures
        texts(r@) == first_columns(),
{
    let r: Vec<String> = vec![
        "server_id".to_owned(),
        "qualified_name".to_owned(),
        "display_name".to_owned(),
        "description".to_owned(),
        "icon_url".to_owned(),
        "command_kind".to_owned(),
        "command".to_owned(),
        "args_json".to_owned(),
        "env_keys_json".to_owned(),
        "config_json".to_owned(),
        "installed_at".to_owned(),
        "last_connected_at".to_owned(),
    ];
    assert(texts(r@) =~= first_columns());
    r
}

/// Whether a column of that name is there.
pub(crate) fn column_there(columns: &Vec<String>, name: &str) -> (r: bool)
    ensures
        r == has_column(texts(columns@), name@),
{
    let mut i: usize = 0;
    while i < columns.len()
        invariant
            i <= columns@.len(),
            forall|k: int|
                0 <= k < i ==> lowered(#[trigger] texts(columns@)[k]) != lowered(name@),
        decreases columns@.len() - i,
    {
        assert(texts(columns@)[i as int] == columns@[i as int]@);
        if same_any_case(columns[i].as_str(), name) {
            return true;
        }
        i = i + 1;
    }
    false
}

/// Add the column `name` unless it is there already.
fn add_name(columns: &mut Vec<String>, name: &str)
    ensures
        texts(final(columns)@) == with_column(texts(old(columns)@), name@),
{
    if !column_there(columns, name) {
        columns.push(name.to_owned());
        assert(texts(columns@) =~= texts(old(columns)@).push(name@));
    }
}

/// Whether each of the columns of a server row is there.
pub(crate) fn is_complete(columns: &Vec<String>) -> (r: bool)
    ensures
        r == complete(texts(columns@)),
{
    column_there(columns, "server_id") && column_there(columns, "qualified_name") && column_there(
        columns,
        "display_name",
    ) && column_there(columns, "description") && column_there(columns, "icon_url") && column_there(
        columns,
        "command_kind",
    ) && column_there(columns, "command") && column_there(columns, "args_json") && column_there(
        columns,
        "env_keys_json",
    ) && column_there(columns, "config_json") && column_there(columns, "installed_at") && column_there(
        columns,
        "last_connected_at",
    ) && column_there(columns, "transport") && column_there(columns, "deployment_url") && column_there(
        columns,
        "enabled",
    ) && column_there(columns, "provenance")
}

/// Give every row the default of each column that it lacks.
fn fill_defaults(rows: &mut Vec<ServerRow>, existing: &Vec<String>)
    ensures
        row_views(final(rows)@) == row_views(old(rows)@).map_values(
            |row: ServerRowView| current_row(texts(existing@), row),
        ),
{
    let transport: bool = column_there(existing, "transport");
    let deployment_url: bool = column_there(existing, "deployment_url");
    let enabled: bool = column_there(existing, "enabled");
    let provenance: bool = column_there(existing, "provenance");
    let ghost before = rows@;
    let mut i: usize = 0;
    while i < rows.len()
        invariant
            i <= rows@.len() == before.len(),
            transport == has_column(texts(existing@), "transport"@),
            deployment_url == has_column(texts(existing@), "deployment_url"@),
            enabled == has_column(texts(existing@), "enabled"@),
            provenance == has_column(texts(existing@), "provenance"@),
            forall|k: int|
                0 <= k < i ==> (#[trigger] rows@[k])@ == current_row(texts(existing@), before[k]@),
            forall|k: int| i <= k < before.len() ==> #[trigger] rows@[k] == before[k],
        decreases rows@.len() - i,
    {
        if !transport {
            rows[i].transport = Some("stdio".to_owned());
        }
        if !deployment_url {
            rows[i].deployment_url = None;
        }
        if !enabled {
            rows[i].enabled = Some(1);
        }
        if !provenance {
            rows[i].provenance = Some("registry".to_owned());
        }
        i = i + 1;
    }
    proof {
        assert(row_views(rows@) =~= row_views(before).map_values(
            |row: ServerRowView| current_row(texts(existing@), row),
        ));
    }
}

/// Bring the schema up to date: make the tables that are not there, and add the columns that the
/// server table lacks, each with its default in every row.
pub fn init_schema(db: &mut Database)
    ensures
        final(db)@ == current(old(db)@),
        old(db)@.sound() ==> final(db)@.sound(),
{
    let existing: Vec<String> = mcp_servers_columns(db);
    if db.columns.len() == 0 {
        db.columns = made_with();
    }
    add_name(&mut db.columns, "transport");
    add_name(&mut db.columns, "deployment_url");
    add_name(&mut db.columns, "enabled");
    add_name(&mut db.columns, "provenance");
    fill_defaults(&mut db.servers, &existing);
    db.env_table = true;
    db.cache_table = true;
    proof {
        if old(db)@.sound() {
            lemma_sound_with_same_ids(old(db)@, db@);
        }
    }
}

/// `columns` holds every name of `names`.
pub open spec fn all_in(names: Seq<Seq<char>>, columns: Seq<Seq<char>>) -> bool {
    forall|i: int| 0 <= i < names.len() ==> has_column(columns, #[trigger] names[i])
}

proof fn lemma_with_column(columns: Seq<Seq<char>>, name: Seq<char>)
    ensures
        has_column(with_column(columns, name), name),
        forall|n: Seq<char>| has_column(columns, n) ==> has_column(with_column(columns, name), n),
        forall|n: Seq<char>|
            has_column(with_column(columns, name), n) ==> has_column(columns, n) || lowered(n)
                == lowered(name),
        with_column(columns, name).len() > 0,
        columns.no_duplicates() ==> with_column(columns, name).no_duplicates(),
{
    let after = with_column(columns, name);
    if !has_column(columns, name) {
        assert(after[after.len() - 1] == name);
        assert forall|n: Seq<char>| has_column(columns, n) implies has_column(after, n) by {
            let i = choose|i: int|
                0 <= i < columns.len() && lowered(#[trigger] columns[i]) == lowered(n);
            assert(after[i] == columns[i]);
        }
        assert forall|n: Seq<char>| has_column(after, n) implies has_column(columns, n) || lowered(
            n,
        ) == lowered(name) by {
            let i = choose|i: int|
                0 <= i < after.len() && lowered(#[trigger] after[i]) == lowered(n);
            if i < columns.len() {
                assert(columns[i] == after[i]);
            }
        }
        if columns.no_duplicates() {
            assert forall|i: int, j: int|
                0 <= i < after.len() && 0 <= j < after.len() && i != j implies after[i]
                != after[j] by {
                if i < columns.len() && j < columns.len() {
                    assert(after[i] == columns[i] && after[j] == columns[j]);
                } else if i < columns.len() {
                    assert(after[i] == columns[i]);
                } else {
                    assert(after[j] == columns[j]);
                }
            }
        }
    }
}

/// The columns of an up-to-date schema are those that were there or are made at first, and the
/// later ones.
proof fn lemma_current_columns(columns: Seq<Seq<char>>)
    ensures
        ({
            let first = if columns.len() == 0 {
                first_columns()
            } else {
                columns
            };
            let now = current_columns(columns);
            &&& now.len() > 0
            &&& forall|n: Seq<char>| has_column(first, n) ==> has_column(now, n)
            &&& has_column(now, "transport"@)
            &&& has_column(now, "deployment_url"@)
            &&& has_column(now, "enabled"@)
            &&& has_column(now, "provenance"@)
        }),
{
    let first = if columns.len() == 0 {
        first_columns()
    } else {
        columns
    };
    let a = with_column(first, "transport"@);
    let b = with_column(a, "deployment_url"@);
    let c = with_column(b, "enabled"@);
    lemma_with_column(first, "transport"@);
    lemma_with_column(a, "deployment_url"@);
    lemma_with_column(b, "enabled"@);
    lemma_with_column(c, "provenance"@);
}

/// The schema is up to date: every table is there, and so is every later column.
pub open spec fn up_to_date(db: DatabaseView) -> bool {
    &&& has_column(db.columns, "transport"@)
    &&& has_column(db.columns, "deployment_url"@)
    &&& has_column(db.columns, "enabled"@)
    &&& has_column(db.columns, "provenance"@)
    &&& db.env_table
    &&& db.cache_table
}

/// A store whose schema is up to date is left as it is.
pub proof fn law_an_up_to_date_store_is_left_alone(db: DatabaseView)
    requires
        up_to_date(db),
    ensures
        current(db) == db,
{
    assert(db.servers.map_values(|row: ServerRowView| current_row(db.columns, row))
        =~= db.servers);
}

/// Bringing the schema up to date does so, and doing it again changes nothing.
pub proof fn law_schema_is_idempotent(db: DatabaseView)
    ensures
        up_to_date(current(db)),
        current(current(db)) == current(db),
{
    lemma_current_columns(db.columns);
    law_an_up_to_date_store_is_left_alone(current(db));
}

/// A column that a table is made with is there once the schema is up to date.
proof fn lemma_first_column_stays(columns: Seq<Seq<char>>, i: int)
    requires
        columns.len() == 0 || all_in(first_columns(), columns),
        0 <= i < first_columns().len(),
    ensures
        has_column(current_columns(columns), first_columns()[i]),
{
    let made = first_columns();
    let first = if columns.len() == 0 {
        made
    } else {
        columns
    };
    assert(has_column(first, made[i])) by {
        if columns.len() == 0 {
            assert(lowered(first[i]) == lowered(made[i]));
        }
    }
    lemma_current_columns(columns);
}

/// A store that was never made, or that was made with the first columns, has every column once
/// its schema is up to date.
pub proof fn law_schema_becomes_complete(db: DatabaseView)
    requires
        db.columns.len() == 0 || all_in(first_columns(), db.columns),
    ensures
        complete(current(db).columns),
        current(db).env_table,
        current(db).cache_table,
{
    lemma_current_columns(db.columns);
    lemma_first_column_stays(db.columns, 0);
    lemma_first_column_stays(db.columns, 1);
    lemma_first_column_stays(db.columns, 2);
    lemma_first_column_stays(db.columns, 3);
    lemma_first_column_stays(db.columns, 4);
    lemma_first_column_stays(db.columns, 5);
    lemma_first_column_stays(db.columns, 6);
    lemma_first_column_stays(db.columns, 7);
    lemma_first_column_stays(db.columns, 8);
    lemma_first_column_stays(db.columns, 9);
    lemma_first_column_stays(db.columns, 10);
    lemma_first_column_stays(db.columns, 11);
}

/// A row that was written before a later column existed reads with the default of that column:
/// over standard streams, enabled, and from a registry. What the other columns hold is kept.
pub proof fn law_old_rows_read_with_defaults(columns: Seq<Seq<char>>, row: ServerRowView)
    requires
        read(row) is Ok,
    ensures
        ({
            let before = read(row)->Ok_0;
            let after = read(current_row(columns, row));
            &&& after is Ok
            &&& !has_column(columns, "transport"@) ==> after->Ok_0.transport == TransportView::Stdio
            &&& !has_column(columns, "enabled"@) ==> after->Ok_0.enabled
            &&& !has_column(columns, "provenance"@) ==> after->Ok_0.provenance
                == ServerProvenance::Registry
            &&& after->Ok_0 == (InstalledServerView {
                transport: after->Ok_0.transport,
                enabled: after->Ok_0.enabled,
                provenance: after->Ok_0.provenance,
                ..before
            })
        }),
{
    law_transport_round_trips(TransportView::Stdio);
    law_provenance_round_trips(ServerProvenance::Registry);
    law_unknown_names_fall_back("stdio"@, None);
    reveal_strlit("stdio");
    reveal_strlit("http_remote");
    assert("stdio"@.len() != "http_remote"@.len());
    law_unknown_names_fall_back("stdio"@, row.deployment_url);
}

/// A name that is there in no case of its letters is not there.
proof fn lemma_lacking(columns: Seq<Seq<char>>, name: Seq<char>)
    ensures
        !has_column(columns, name) ==> !columns.contains(name),
{
    if columns.contains(name) {
        let i = choose|i: int| 0 <= i < columns.len() && columns[i] == name;
        assert(lowered(columns[i]) == lowered(name));
    }
}

/// The later columns differ in their length, whatever the case of their letters.
proof fn lemma_later_columns_differ()
    ensures
        lowered("transport"@) != lowered("deployment_url"@),
        lowered("transport"@) != lowered("enabled"@),
        lowered("transport"@) != lowered("provenance"@),
        lowered("deployment_url"@) != lowered("enabled"@),
        lowered("deployment_url"@) != lowered("provenance"@),
        lowered("enabled"@) != lowered("provenance"@),
{
    reveal_strlit("transport");
    reveal_strlit("deployment_url");
    reveal_strlit("enabled");
    reveal_strlit("provenance");
    assert(lowered("transport"@).len() == 9 && lowered("deployment_url"@).len() == 14 && lowered(
        "enabled"@,
    ).len() == 7 && lowered("provenance"@).len() == 10);
}

/// Adding one column does not bring another.
proof fn lemma_with_another(columns: Seq<Seq<char>>, added: Seq<char>, name: Seq<char>)
    requires
        lowered(added) != lowered(name),
    ensures
        has_column(with_column(columns, added), name) == has_column(columns, name),
{
    lemma_with_column(columns, added);
}

/// A column that a table lacks, in any case of its letters.
pub open spec fn lacking(columns: Seq<Seq<char>>, column: LaterColumn) -> Seq<Seq<char>> {
    if has_column(columns, column.named()) {
        Seq::empty()
    } else {
        seq![column.named()]
    }
}

/// The columns that are added are the missing ones: the up-to-date columns are the existing ones
/// followed by the later ones that are there in no case of their letters. Each of those is among
/// [`missing_columns`]; for any other of those the statement fails and is tolerated.
pub proof fn law_the_missing_columns_are_added(columns: Seq<Seq<char>>, column: LaterColumn)
    requires
        columns.len() > 0,
    ensures
        current_columns(columns) == columns + lacking(columns, LaterColumn::Transport) + lacking(
            columns,
            LaterColumn::DeploymentUrl,
        ) + lacking(columns, LaterColumn::Enabled) + lacking(columns, LaterColumn::Provenance),
        !has_column(columns, column.named()) ==> !columns.contains(column.named()),
{
    let x = with_column(columns, "transport"@);
    let y = with_column(x, "deployment_url"@);
    let z = with_column(y, "enabled"@);
    lemma_lacking(columns, column.named());
    lemma_later_columns_differ();
    lemma_with_another(columns, "transport"@, "deployment_url"@);
    lemma_with_another(columns, "transport"@, "enabled"@);
    lemma_with_another(x, "deployment_url"@, "enabled"@);
    lemma_with_another(columns, "transport"@, "provenance"@);
    lemma_with_another(x, "deployment_url"@, "provenance"@);
    lemma_with_another(y, "enabled"@, "provenance"@);
    assert(x =~= columns + lacking(columns, LaterColumn::Transport));
    assert(y =~= x + lacking(columns, LaterColumn::DeploymentUrl));
    assert(z =~= y + lacking(columns, LaterColumn::Enabled));
    assert(current_columns(columns) =~= z + lacking(columns, LaterColumn::Provenance));
}

/// No column is there twice, in a table that is made or in one whose columns were distinct.
pub proof fn law_no_column_is_there_twice(columns: Seq<Seq<char>>)
    ensures
        columns.no_duplicates() ==> current_columns(columns).no_duplicates(),
{
    let first = if columns.len() == 0 {
        first_columns()
    } else {
        columns
    };
    lemma_first_columns_differ();
    let a = with_column(first, "transport"@);
    let b = with_column(a, "deployment_url"@);
    let c = with_column(b, "enabled"@);
    lemma_with_column(first, "transport"@);
    lemma_with_column(a, "deployment_url"@);
    lemma_with_column(b, "enabled"@);
    lemma_with_column(c, "provenance"@);
}

/// The columns of a new table differ, by their length or by one letter.
proof fn lemma_first_columns_differ()
    ensures
        first_columns().no_duplicates(),
{
    reveal_strlit("server_id");
    reveal_strlit("qualified_name");
    reveal_strlit("display_name");
    reveal_strlit("description");
    reveal_strlit("icon_url");
    reveal_strlit("command_kind");
    reveal_strlit("command");
    reveal_strlit("args_json");
    reveal_strlit("env_keys_json");
    reveal_strlit("config_json");
    reveal_strlit("installed_at");
    reveal_strlit("last_connected_at");
    assert("server_id"@.len() == 9 && "qualified_name"@.len() == 14 && "display_name"@.len() == 12
        && "description"@.len() == 11 && "icon_url"@.len() == 8 && "command_kind"@.len() == 12
        && "command"@.len() == 7 && "args_json"@.len() == 9 && "env_keys_json"@.len() == 13
        && "config_json"@.len() == 11 && "installed_at"@.len() == 12 && "last_connected_at"@.len()
        == 17);
    assert("server_id"@[0] != "args_json"@[0]);
    assert("description"@[0] != "config_json"@[0]);
    assert("display_name"@[0] != "command_kind"@[0] && "display_name"@[0] != "installed_at"@[0]
        && "command_kind"@[0] != "installed_at"@[0]);
    let columns = first_columns();
    assert forall|i: int, j: int|
        0 <= i < columns.len() && 0 <= j < columns.len() && i != j implies columns[i]
        != columns[j] by {
        assert(columns.len() == 12);
    }
}

/// A column is there where its very name is, and only where a name of the same length is that
/// differs in the case of ASCII letters at most.
pub proof fn law_a_column_is_there_under_its_name(columns: Seq<Seq<char>>, name: Seq<char>)
    ensures
        columns.contains(name) ==> has_column(columns, name),
        has_column(columns, name) <==> exists|i: int|
            0 <= i < columns.len() && (#[trigger] columns[i]).len() == name.len() && forall|k: int|
                0 <= k < name.len() ==> lowered(columns[i])[k] == #[trigger] lowered(name)[k],
{
    lemma_lacking(columns, name);
    if has_column(columns, name) {
        let i = choose|i: int|
            0 <= i < columns.len() && lowered(#[trigger] columns[i]) == lowered(name);
        assert(lowered(columns[i]).len() == lowered(name).len());
    }
    if exists|i: int|
        0 <= i < columns.len() && (#[trigger] columns[i]).len() == name.len() && forall|k: int|
            0 <= k < name.len() ==> lowered(columns[i])[k] == #[trigger] lowered(name)[k] {
        let i = choose|i: int|
            0 <= i < columns.len() && (#[trigger] columns[i]).len() == name.len() && forall|k: int|
                0 <= k < name.len() ==> lowered(columns[i])[k] == #[trigger] lowered(name)[k];
        assert(lowered(columns[i]) =~= lowered(name));
    }
}

/// A table is complete exactly where each of the sixteen columns of a server is there.
pub proof fn law_a_complete_table_has_every_column(columns: Seq<Seq<char>>)
    ensures
        ({
            let names = seq![
                "server_id"@,
                "qualified_name"@,
                "display_name"@,
                "description"@,
                "icon_url"@,
                "command_kind"@,
                "command"@,
                "args_json"@,
                "env_keys_json"@,
                "config_json"@,
                "installed_at"@,
                "last_connected_at"@,
                "transport"@,
                "deployment_url"@,
                "enabled"@,
                "provenance"@,
            ];
            complete(columns) <==> forall|i: int|
                0 <= i < names.len() ==> has_column(columns, #[trigger] names[i])
        }),
{
    let names = seq![
        "server_id"@,
        "qualified_name"@,
        "display_name"@,
        "description"@,
        "icon_url"@,
        "command_kind"@,
        "command"@,
        "args_json"@,
        "env_keys_json"@,
        "config_json"@,
        "installed_at"@,
        "last_connected_at"@,
        "transport"@,
        "deployment_url"@,
        "enabled"@,
        "provenance"@,
    ];
    if forall|i: int| 0 <= i < names.len() ==> has_column(columns, #[trigger] names[i]) {
        assert(has_column(columns, names[0]) && has_column(columns, names[1]) && has_column(
            columns,
            names[2],
        ) && has_column(columns, names[3]) && has_column(columns, names[4]) && has_column(
            columns,
            names[5],
        ) && has_column(columns, names[6]) && has_column(columns, names[7]) && has_column(
            columns,
            names[8],
        ) && has_column(columns, names[9]) && has_column(columns, names[10]) && has_column(
            columns,
            names[11],
        ) && has_column(columns, names[12]) && has_column(columns, names[13]) && has_column(
            columns,
            names[14],
        ) && has_column(columns, names[15]));
    }
}

/// A store that was never made gets the sixteen columns in their order, and one that was made keeps
/// its columns and gets those of the four later ones that are not there, behind them and in their
/// order.
pub proof fn law_the_later_columns_come_behind_the_others(columns: Seq<Seq<char>>)
    ensures
        columns.len() == 0 ==> current_columns(columns) == seq![
            "server_id"@,
            "qualified_name"@,
            "display_name"@,
            "description"@,
            "icon_url"@,
            "command_kind"@,
            "command"@,
            "args_json"@,
            "env_keys_json"@,
            "config_json"@,
            "installed_at"@,
            "last_connected_at"@,
            "transport"@,
            "deployment_url"@,
            "enabled"@,
            "provenance"@,
        ],
        columns.len() > 0 ==> ({
            let added = |name: Seq<char>|
                if has_column(columns, name) {
                    Seq::<Seq<char>>::empty()
                } else {
                    seq![name]
                };
            current_columns(columns) == columns + added("transport"@) + added("deployment_url"@)
                + added("enabled"@) + added("provenance"@)
        }),
{
    if columns.len() > 0 {
        law_the_missing_columns_are_added(columns, LaterColumn::Transport);
    } else {
        let made = first_columns();
        lemma_first_columns_lack(made);
        law_the_missing_columns_are_added(made, LaterColumn::Transport);
        assert(current_columns(columns) == current_columns(made));
    }
}

/// A table as it was first made has none of the later columns.
proof fn lemma_first_columns_lack(made: Seq<Seq<char>>)
    requires
        made == first_columns(),
    ensures
        !has_column(made, "transport"@),
        !has_column(made, "deployment_url"@),
        !has_column(made, "enabled"@),
        !has_column(made, "provenance"@),
{
    lemma_column_lengths();
    lemma_lowered_letters();
    assert(made.len() == 12);
    assert forall|i: int| 0 <= i < made.len() implies lowered(#[trigger] made[i]) != lowered(
        "transport"@,
    ) && lowered(made[i]) != lowered("deployment_url"@) && lowered(made[i]) != lowered("enabled"@)
        && lowered(made[i]) != lowered("provenance"@) by {
        assert(lowered(made[i]).len() == made[i].len());
    }
}

/// How long the names of the columns are.
proof fn lemma_column_lengths()
    ensures
        "server_id"@.len() == 9,
        "qualified_name"@.len() == 14,
        "display_name"@.len() == 12,
        "description"@.len() == 11,
        "icon_url"@.len() == 8,
        "command_kind"@.len() == 12,
        "command"@.len() == 7,
        "args_json"@.len() == 9,
        "env_keys_json"@.len() == 13,
        "config_json"@.len() == 11,
        "installed_at"@.len() == 12,
        "last_connected_at"@.len() == 17,
        lowered("transport"@).len() == 9,
        lowered("deployment_url"@).len() == 14,
        lowered("enabled"@).len() == 7,
        lowered("provenance"@).len() == 10,
{
    reveal_strlit("server_id");
    reveal_strlit("qualified_name");
    reveal_strlit("display_name");
    reveal_strlit("description");
    reveal_strlit("icon_url");
    reveal_strlit("command_kind");
    reveal_strlit("command");
    reveal_strlit("args_json");
    reveal_strlit("env_keys_json");
    reveal_strlit("config_json");
    reveal_strlit("installed_at");
    reveal_strlit("last_connected_at");
    reveal_strlit("transport");
    reveal_strlit("deployment_url");
    reveal_strlit("enabled");
    reveal_strlit("provenance");
}

/// Columns of one length differ in their first letter.
proof fn lemma_lowered_letters()
    ensures
        lowered("server_id"@) != lowered("transport"@),
        lowered("args_json"@) != lowered("transport"@),
        lowered("qualified_name"@) != lowered("deployment_url"@),
        lowered("command"@) != lowered("enabled"@),
{
    reveal_strlit("server_id");
    reveal_strlit("args_json");
    reveal_strlit("transport");
    reveal_strlit("qualified_name");
    reveal_strlit("deployment_url");
    reveal_strlit("command");
    reveal_strlit("enabled");
    assert(lowered("server_id"@)[0] != lowered("transport"@)[0]);
    assert(lowered("args_json"@)[0] != lowered("transport"@)[0]);
    assert(lowered("qualified_name"@)[0] != lowered("deployment_url"@)[0]);
    assert(lowered("command"@)[0] != lowered("enabled"@)[0]);
}

/// Bringing the schema up to date adds and removes no row, makes the other two tables, and leaves
/// what they hold. In a row it touches the four later columns alone, each only where it is new: then
/// it holds its default.
pub proof fn law_bringing_the_schema_up_to_date_keeps_the_rows(db: DatabaseView, i: int)
    requires
        0 <= i < db.servers.len(),
    ensures
        current(db).servers.len() == db.servers.len(),
        current(db).env == db.env,
        current(db).cache == db.cache,
        current(db).env_table,
        current(db).cache_table,
        ({
            let before = db.servers[i];
            let after = current(db).servers[i];
            &&& after == (ServerRowView {
                transport: after.transport,
                deployment_url: after.deployment_url,
                enabled: after.enabled,
                provenance: after.provenance,
                ..before
            })
            &&& has_column(db.columns, "transport"@) ==> after.transport == before.transport
            &&& !has_column(db.columns, "transport"@) ==> after.transport == Some("stdio"@)
            &&& has_column(db.columns, "deployment_url"@) ==> after.deployment_url
                == before.deployment_url
            &&& !has_column(db.columns, "deployment_url"@) ==> after.deployment_url is None
            &&& has_column(db.columns, "enabled"@) ==> after.enabled == before.enabled
            &&& !has_column(db.columns, "enabled"@) ==> after.enabled == Some(1i64)
            &&& has_column(db.columns, "provenance"@) ==> after.provenance == before.provenance
            &&& !has_column(db.columns, "provenance"@) ==> after.provenance == Some("registry"@)
        }),
{
}

/// The later columns by their names, the statements that add them and what those are for, in the
/// order in which they are added.
pub proof fn law_the_later_columns_are_named()
    ensures
        later_columns() == seq![
            LaterColumn::Transport,
            LaterColumn::DeploymentUrl,
            LaterColumn::Enabled,
            LaterColumn::Provenance,
        ],
        LaterColumn::Transport.named() == "transport"@,
        LaterColumn::DeploymentUrl.named() == "deployment_url"@,
        LaterColumn::Enabled.named() == "enabled"@,
        LaterColumn::Provenance.named() == "provenance"@,
        LaterColumn::Transport.statement()
            == "ALTER TABLE mcp_servers ADD COLUMN transport TEXT NOT NULL DEFAULT 'stdio'"@,
        LaterColumn::DeploymentUrl.statement()
            == "ALTER TABLE mcp_servers ADD COLUMN deployment_url TEXT"@,
        LaterColumn::Enabled.statement()
            == "ALTER TABLE mcp_servers ADD COLUMN enabled INTEGER NOT NULL DEFAULT 1"@,
        LaterColumn::Provenance.statement()
            == "ALTER TABLE mcp_servers ADD COLUMN provenance TEXT NOT NULL DEFAULT 'registry'"@,
        LaterColumn::Transport.purpose() == "transport column to mcp_servers"@,
        LaterColumn::DeploymentUrl.purpose() == "deployment_url column to mcp_servers"@,
        LaterColumn::Enabled.purpose() == "enabled column to mcp_servers"@,
        LaterColumn::Provenance.purpose() == "provenance column to mcp_servers"@,
{
}

/// A column that could not be added is no failure exactly where the message of the database says
/// somewhere that the column is there already; without a message it always is one, and it is told
/// with what the statement was for.
pub proof fn law_a_column_that_is_there_is_no_failure(
    a: Seq<char>,
    b: Seq<char>,
    message: Seq<char>,
    what: Seq<char>,
)
    ensures
        tolerated(Some(a + "duplicate column name"@ + b)),
        tolerated(Some(message)) <==> exists|x: Seq<char>, y: Seq<char>|
            message == #[trigger] (x + "duplicate column name"@ + y),
        !tolerated(None),
        failed_to_add(what) == "Failed to add "@ + what,
{
    law_a_needle_stands_between_two_parts(message, "duplicate column name"@);
    let whole = a + "duplicate column name"@ + b;
    law_a_needle_stands_between_two_parts(whole, "duplicate column name"@);
}

/// A later column is missing exactly where its very name is not among the columns, and the missing
/// ones are in the order in which they are added: what is missing of each of the four, one behind
/// the other.
pub proof fn law_the_missing_columns_are_found_in_order(columns: Seq<Seq<char>>)
    ensures
        ({
            let lacks = |column: LaterColumn, name: Seq<char>|
                if columns.contains(name) {
                    Seq::<LaterColumn>::empty()
                } else {
                    seq![column]
                };
            not_among(columns) == lacks(LaterColumn::Transport, "transport"@) + lacks(
                LaterColumn::DeploymentUrl,
                "deployment_url"@,
            ) + lacks(LaterColumn::Enabled, "enabled"@) + lacks(
                LaterColumn::Provenance,
                "provenance"@,
            )
        }),
{
    reveal_with_fuel(Seq::filter, 6);
    let lacks = |c: LaterColumn| !columns.contains(c.named());
    let all = later_columns();
    let three = all.drop_last();
    let two = three.drop_last();
    let one = two.drop_last();
    assert(one =~= seq![LaterColumn::Transport]);
    assert(one.drop_last() =~= Seq::empty());
    assert(all.last() == LaterColumn::Provenance && three.last() == LaterColumn::Enabled
        && two.last() == LaterColumn::DeploymentUrl && one.last() == LaterColumn::Transport);
    let told = |column: LaterColumn, name: Seq<char>|
        if columns.contains(name) {
            Seq::<LaterColumn>::empty()
        } else {
            seq![column]
        };
    assert(not_among(columns) =~= told(LaterColumn::Transport, "transport"@) + told(
        LaterColumn::DeploymentUrl,
        "deployment_url"@,
    ) + told(LaterColumn::Enabled, "enabled"@) + told(LaterColumn::Provenance, "provenance"@));
}

} // verus!
