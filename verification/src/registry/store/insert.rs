//! Adding an installed server.

use crate::registry::database::{
    lemma_row_behind, lemma_row_from, lemma_row_of, outcome, place_of, refuse, refused, row_of,
    row_views, Cause, Database, DatabaseView, StoreError, StoreErrorView,
};
use crate::registry::rows::{readable, server_row, written, ServerRow, ServerRowView};
use crate::registry::schema::{complete, current, init_schema, is_complete};
use crate::registry::store::query::found;
use crate::registry::types::{InstalledServer, InstalledServerView};
use crate::text::same;
use vstd::prelude::*;

verus! {

/// The store with one more server.
pub open spec fn with_server(db: DatabaseView, server: InstalledServerView) -> DatabaseView {
    DatabaseView { servers: db.servers.push(written(server)), ..db }
}

/// Some row has the qualified name.
pub open spec fn name_taken(rows: Seq<ServerRowView>, name: Seq<char>) -> bool {
    exists|i: int| 0 <= i < rows.len() && (#[trigger] rows[i]).qualified_name == name
}

/// How adding a server ends: it is refused where the schema is not up to date or the identity is
/// taken.
pub open spec fn insertion(
    db: DatabaseView,
    server: InstalledServerView,
    context: Seq<char>,
) -> Result<(), StoreErrorView> {
    if !complete(db.columns) {
        Err(refused(context, Cause::Schema))
    } else if row_of(db.servers, server.server_id) is Some {
        Err(refused(context, Cause::DuplicateKey))
    } else {
        Ok(())
    }
}

/// How adding a server unless its name is taken ends: whether it was added. Where the name is
/// taken the identity does not matter.
pub open spec fn insertion_if_absent(db: DatabaseView, server: InstalledServerView) -> Result<
    bool,
    StoreErrorView,
> {
    if complete(db.columns) && name_taken(db.servers, server.qualified_name) {
        Ok(false)
    } else {
        match insertion(db, server, "Failed to insert mcp_server (if absent)"@) {
            Ok(_) => Ok(true),
            Err(error) => Err(error),
        }
    }
}

/// A server of a new identity keeps a store sound.
proof fn lemma_sound_with_server(db: DatabaseView, row: ServerRowView)
    requires
        db.sound(),
        row_of(db.servers, row.server_id) is None,
    ensures
        (DatabaseView { servers: db.servers.push(row), ..db }).sound(),
{
    let after = DatabaseView { servers: db.servers.push(row), ..db };
    assert forall|i: int, j: int| 0 <= i < j < after.servers.len() implies (
    #[trigger] after.servers[i]).server_id != (#[trigger] after.servers[j]).server_id by {
        assert(after.servers[i] == db.servers[i]);
        if j < db.servers.len() {
            assert(after.servers[j] == db.servers[j]);
        } else if db.servers[i].server_id == row.server_id {
            lemma_row_of(db.servers, row.server_id, 0, i);
        }
    }
    assert forall|k: (Seq<char>, Seq<char>)| #[trigger] after.env.dom().contains(k) implies row_of(
        after.servers,
        k.0,
    ) is Some by {
        assert(db.env.dom().contains(k));
        lemma_row_behind(db.servers, row, k.0, 0);
    }
}

/// Add the row of a server whose identity is free.
fn push_server(db: &mut Database, server: &InstalledServer)
    requires
        complete(old(db)@.columns),
        row_of(old(db)@.servers, server@.server_id) is None,
    ensures
        final(db)@ == with_server(old(db)@, server@),
        readable(server@) ==> found(final(db)@, server@.server_id) == Ok::<_, StoreErrorView>(
            server@,
        ),
        old(db)@.sound() ==> final(db)@.sound(),
{
    let row: ServerRow = server_row(server);
    proof {
        lemma_row_behind(db@.servers, row@, server@.server_id, 0);
        if db@.sound() {
            lemma_sound_with_server(db@, row@);
        }
    }
    let ghost before = db.servers@;
    db.servers.push(row);
    assert(row_views(db.servers@) =~= row_views(before).push(row@));
}

/// Add `server`. A server with a readable configuration is found as it was handed in.
pub fn insert_server_conn(db: &mut Database, server: &InstalledServer) -> (r: Result<
    (),
    StoreError,
>)
    ensures
        outcome(r) == insertion(old(db)@, server@, "Failed to insert mcp_server"@),
        r is Err ==> final(db)@ == old(db)@,
        r is Ok ==> final(db)@ == with_server(old(db)@, server@),
        r is Ok && readable(server@) ==> found(final(db)@, server@.server_id) == Ok::<
            _,
            StoreErrorView,
        >(server@),
        old(db)@.sound() ==> final(db)@.sound(),
{
    if !is_complete(&db.columns) {
        return Err(refuse("Failed to insert mcp_server", Cause::Schema));
    }
    match place_of(&db.servers, server.server_id.as_str()) {
        Some(_) => Err(refuse("Failed to insert mcp_server", Cause::DuplicateKey)),
        None => {
            push_server(db, server);
            Ok(())
        },
    }
}

/// Add `server`, once the schema is up to date.
pub fn insert_server(db: &mut Database, server: &InstalledServer) -> (r: Result<(), StoreError>)
    ensures
        outcome(r) == insertion(current(old(db)@), server@, "Failed to insert mcp_server"@),
        r is Err ==> final(db)@ == current(old(db)@),
        r is Ok ==> final(db)@ == with_server(current(old(db)@), server@),
        r is Ok && readable(server@) ==> found(final(db)@, server@.server_id) == Ok::<
            _,
            StoreErrorView,
        >(server@),
        old(db)@.sound() ==> final(db)@.sound(),
{
    init_schema(db);
    insert_server_conn(db, server)
}

/// Whether some row has the qualified name.
fn has_name(rows: &Vec<ServerRow>, name: &str) -> (r: bool)
    ensures
        r == name_taken(row_views(rows@), name@),
{
    let mut i: usize = 0;
    while i < rows.len()
        invariant
            i <= rows@.len(),
            forall|k: int| 0 <= k < i ==> (#[trigger] rows@[k])@.qualified_name != name@,
        decreases rows@.len() - i,
    {
        if same(rows[i].qualified_name.as_str(), name) {
            assert(row_views(rows@)[i as int].qualified_name == name@);
            return true;
        }
        i = i + 1;
    }
    assert forall|k: int| 0 <= k < row_views(rows@).len() implies (
    #[trigger] row_views(rows@)[k]).qualified_name != name@ by {
        assert(rows@[k]@.qualified_name != name@);
    }
    false
}

/// Add `server` unless its qualified name is taken, and say whether it was added.
pub fn insert_server_if_absent_conn(db: &mut Database, server: &InstalledServer) -> (r: Result<
    bool,
    StoreError,
>)
    ensures
        outcome(r) == insertion_if_absent(old(db)@, server@),
        r != Ok::<bool, StoreError>(true) ==> final(db)@ == old(db)@,
        r == Ok::<bool, StoreError>(true) ==> final(db)@ == with_server(old(db)@, server@),
        r == Ok::<bool, StoreError>(true) && readable(server@) ==> found(
            final(db)@,
            server@.server_id,
        ) == Ok::<_, StoreErrorView>(server@),
        old(db)@.sound() ==> final(db)@.sound(),
{
    if !is_complete(&db.columns) {
        return Err(refuse("Failed to insert mcp_server (if absent)", Cause::Schema));
    }
    if has_name(&db.servers, server.qualified_name.as_str()) {
        return Ok(false);
    }
    match place_of(&db.servers, server.server_id.as_str()) {
        Some(_) => Err(refuse("Failed to insert mcp_server (if absent)", Cause::DuplicateKey)),
        None => {
            push_server(db, server);
            Ok(true)
        },
    }
}

/// Add `server` unless its qualified name is taken, once the schema is up to date, and say
/// whether it was added.
pub fn insert_server_if_absent(db: &mut Database, server: &InstalledServer) -> (r: Result<
    bool,
    StoreError,
>)
    ensures
        outcome(r) == insertion_if_absent(current(old(db)@), server@),
        r != Ok::<bool, StoreError>(true) ==> final(db)@ == current(old(db)@),
        r == Ok::<bool, StoreError>(true) ==> final(db)@ == with_server(
            current(old(db)@),
            server@,
        ),
        r == Ok::<bool, StoreError>(true) && readable(server@) ==> found(
            final(db)@,
            server@.server_id,
        ) == Ok::<_, StoreErrorView>(server@),
        old(db)@.sound() ==> final(db)@.sound(),
{
    init_schema(db);
    insert_server_if_absent_conn(db, server)
}

/// Adding a server hides no other: what was found under another identity is found as before.
pub proof fn law_insertion_keeps_the_others(
    db: DatabaseView,
    server: InstalledServerView,
    id: Seq<char>,
)
    requires
        id != server.server_id,
    ensures
        found(with_server(db, server), id) == found(db, id),
{
    lemma_row_behind(db.servers, written(server), id, 0);
}

/// A name that was free is installed once, however often the installation is repeated: after one
/// insertion a second of the same name adds nothing.
pub proof fn law_a_name_is_installed_once(
    db: DatabaseView,
    first: InstalledServerView,
    second: InstalledServerView,
)
    requires
        insertion_if_absent(db, first) == Ok::<bool, StoreErrorView>(true),
        second.qualified_name == first.qualified_name,
    ensures
        insertion_if_absent(with_server(db, first), second) == Ok::<bool, StoreErrorView>(false),
{
    let after = with_server(db, first);
    assert(after.servers[after.servers.len() - 1].qualified_name == second.qualified_name);
}

/// A server is added unless its name is taken exactly where no row has its identity and no row has
/// exactly its name; it is said to be there already only where some row has exactly that name, and
/// an identity that is taken is refused under a name that is free. That a name is part of another
/// does not matter.
pub proof fn law_a_free_name_is_installed(db: DatabaseView, server: InstalledServerView)
    requires
        complete(db.columns),
    ensures
        ({
            let named = exists|i: int|
                0 <= i < db.servers.len() && (#[trigger] db.servers[i]).qualified_name
                    == server.qualified_name;
            let known = exists|i: int|
                0 <= i < db.servers.len() && (#[trigger] db.servers[i]).server_id
                    == server.server_id;
            &&& insertion_if_absent(db, server) == Ok::<bool, StoreErrorView>(true) <==> !named
                && !known
            &&& insertion_if_absent(db, server) == Ok::<bool, StoreErrorView>(false) <==> named
            &&& !named && known ==> insertion_if_absent(db, server) == Err::<bool, _>(
                StoreErrorView::Statement {
                    context: Some("Failed to insert mcp_server (if absent)"@),
                    cause: Cause::DuplicateKey,
                },
            )
        }),
{
    if row_of(db.servers, server.server_id) is Some {
        let i = lemma_row_from(db.servers, server.server_id, 0);
    } else if exists|i: int|
        0 <= i < db.servers.len() && (#[trigger] db.servers[i]).server_id == server.server_id {
        let i = choose|i: int|
            0 <= i < db.servers.len() && (#[trigger] db.servers[i]).server_id == server.server_id;
        lemma_row_of(db.servers, server.server_id, 0, i);
    }
}

/// A server is added, whatever its name, exactly where every column is there and no row has its
/// identity; otherwise it is refused for the schema or for the identity, under the context of the
/// statement.
pub proof fn law_a_new_identity_is_installed(
    db: DatabaseView,
    server: InstalledServerView,
    context: Seq<char>,
)
    ensures
        ({
            let known = exists|i: int|
                0 <= i < db.servers.len() && (#[trigger] db.servers[i]).server_id
                    == server.server_id;
            &&& insertion(db, server, context) is Ok <==> complete(db.columns) && !known
            &&& complete(db.columns) && known ==> insertion(db, server, context) == Err::<(), _>(
                StoreErrorView::Statement { context: Some(context), cause: Cause::DuplicateKey },
            )
            &&& !complete(db.columns) ==> insertion(db, server, context) == Err::<(), _>(
                StoreErrorView::Statement { context: Some(context), cause: Cause::Schema },
            )
            &&& !complete(db.columns) ==> insertion_if_absent(db, server) == Err::<bool, _>(
                StoreErrorView::Statement {
                    context: Some("Failed to insert mcp_server (if absent)"@),
                    cause: Cause::Schema,
                },
            )
        }),
{
    if row_of(db.servers, server.server_id) is Some {
        let i = lemma_row_from(db.servers, server.server_id, 0);
    } else if exists|i: int|
        0 <= i < db.servers.len() && (#[trigger] db.servers[i]).server_id == server.server_id {
        let i = choose|i: int|
            0 <= i < db.servers.len() && (#[trigger] db.servers[i]).server_id == server.server_id;
        lemma_row_of(db.servers, server.server_id, 0, i);
    }
}

/// An insertion adds one row behind the others, under the identity and the name of the server, and
/// changes nothing else in the store.
pub proof fn law_an_insertion_adds_one_row(db: DatabaseView, server: InstalledServerView)
    ensures
        ({
            let after = with_server(db, server);
            &&& after.servers.len() == db.servers.len() + 1
            &&& forall|i: int|
                0 <= i < db.servers.len() ==> #[trigger] after.servers[i] == db.servers[i]
            &&& after.servers.last().server_id == server.server_id
            &&& after.servers.last().qualified_name == server.qualified_name
            &&& after.servers.last().installed_at == server.installed_at
            &&& after.columns == db.columns
            &&& after.env_table == db.env_table
            &&& after.env == db.env
            &&& after.cache_table == db.cache_table
            &&& after.cache == db.cache
        }),
{
}

} // verus!
