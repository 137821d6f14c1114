//! The environment values of a server. They are read only to start it.

use crate::registry::database::{
    drop_env, env_of, env_rows, env_with, env_without, law_the_row_of_an_identity_is_the_first,
    outcome, place_of, refuse, refused, row_of, unprepare, unprepared, Cause, Database,
    DatabaseView, EnvRow, EnvTable, StoreError, StoreErrorView,
};
use crate::registry::env::{entry_map, EnvMap};
use crate::registry::schema::{column_there, current, has_column, init_schema};
use crate::registry::store::query::{found, found_by_name, listed};
use crate::text::same;
use vstd::prelude::*;

verus! {

/// How storing the values of a server ends: it is refused where the table is missing, or where
/// there are values and no server of that identity.
pub open spec fn values_stored(
    db: DatabaseView,
    id: Seq<char>,
    values: Map<Seq<char>, Seq<char>>,
) -> Result<(), StoreErrorView> {
    if !db.env_table {
        Err(refused("Failed to clear previous mcp_client_env rows"@, Cause::Schema))
    } else if values == Map::<Seq<char>, Seq<char>>::empty() {
        Ok(())
    } else if !has_column(db.columns, "server_id"@) {
        Err(refused("Failed to insert mcp_client_env"@, Cause::Schema))
    } else if row_of(db.servers, id) is None {
        Err(refused("Failed to insert mcp_client_env"@, Cause::ForeignKey))
    } else {
        Ok(())
    }
}

/// The store after the values of a server were stored, or refused. The former values are cleared
/// first, so they are gone where the new ones are refused.
pub open spec fn after_values(
    db: DatabaseView,
    id: Seq<char>,
    values: Map<Seq<char>, Seq<char>>,
) -> DatabaseView {
    if !db.env_table {
        db
    } else if values_stored(db, id, values) is Ok {
        DatabaseView { env: env_with(db.env, id, values), ..db }
    } else {
        DatabaseView { env: env_without(db.env, id), ..db }
    }
}

/// The rows of the values of one server, behind others.
fn push_values(rows: &mut Vec<EnvRow>, id: &str, env: &EnvMap)
    requires
        env_rows(old(rows)@) == env_without(env_rows(old(rows)@), id@),
    ensures
        env_rows(final(rows)@) == env_with(env_rows(old(rows)@), id@, env@),
{
    let ghost base = env_rows(rows@);
    let mut i: usize = 0;
    proof {
        let none = env.entries@.take(0);
        assert(base =~= env_with(base, id@, entry_map(none))) by {
            assert forall|k: (Seq<char>, Seq<char>)|
                base.dom().contains(k) implies k.0 != id@ by {
                assert(env_without(base, id@).dom().contains(k));
            }
        }
    }
    while i < env.entries.len()
        invariant
            i <= env.entries@.len(),
            env_rows(rows@) == env_with(base, id@, entry_map(env.entries@.take(i as int))),
        decreases env.entries@.len() - i,
    {
        let ghost before = rows@;
        proof {
            let head = env.entries@.take(i + 1);
            assert(head.drop_last() =~= env.entries@.take(i as int));
            assert(head.last() == env.entries@[i as int]);
        }
        rows.push(
            EnvRow {
                server_id: id.to_owned(),
                key: env.entries[i].0.clone(),
                value: env.entries[i].1.clone(),
            },
        );
        proof {
            assert(rows@.drop_last() =~= before);
            assert(env_rows(rows@) =~= env_with(
                base,
                id@,
                entry_map(env.entries@.take(i + 1)),
            ));
        }
        i = i + 1;
    }
    assert(env.entries@.take(env.entries@.len() as int) =~= env.entries@);
}

/// Values that belong to servers stay so when those of one known server change.
proof fn lemma_sound_values(
    db: DatabaseView,
    id: Seq<char>,
    values: Map<Seq<char>, Seq<char>>,
)
    requires
        db.sound(),
    ensures
        (DatabaseView { env: env_without(db.env, id), ..db }).sound(),
        values == Map::<Seq<char>, Seq<char>>::empty() || row_of(db.servers, id) is Some ==> (
        DatabaseView { env: env_with(db.env, id, values), ..db }).sound(),
{
    let cleared = DatabaseView { env: env_without(db.env, id), ..db };
    assert forall|k: (Seq<char>, Seq<char>)| #[trigger]
        cleared.env.dom().contains(k) implies row_of(cleared.servers, k.0) is Some by {
        assert(db.env.dom().contains(k));
    }
    let stored = DatabaseView { env: env_with(db.env, id, values), ..db };
    if values == Map::<Seq<char>, Seq<char>>::empty() || row_of(db.servers, id) is Some {
        assert forall|k: (Seq<char>, Seq<char>)| #[trigger]
            stored.env.dom().contains(k) implies row_of(stored.servers, k.0) is Some by {
            if k.0 == id {
                assert(values.dom().contains(k.1));
            } else {
                assert(db.env.dom().contains(k));
            }
        }
    }
}

/// Make `env` the values of a server, in place of all that it had.
pub fn set_env_values_conn(db: &mut Database, server_id: &str, env: &EnvMap) -> (r: Result<
    (),
    StoreError,
>)
    ensures
        outcome(r) == values_stored(old(db)@, server_id@, env@),
        final(db)@ == after_values(old(db)@, server_id@, env@),
        r is Ok ==> env_of(final(db)@.env, server_id@) == env@,
        old(db)@.sound() ==> final(db)@.sound(),
{
    if !db.env_table {
        return Err(refuse("Failed to clear previous mcp_client_env rows", Cause::Schema));
    }
    let ghost before = db@;
    proof {
        if before.sound() {
            lemma_sound_values(before, server_id@, env@);
        }
        assert(env_without(env_without(before.env, server_id@), server_id@) =~= env_without(
            before.env,
            server_id@,
        ));
        assert(env_with(env_without(before.env, server_id@), server_id@, env@) =~= env_with(
            before.env,
            server_id@,
            env@,
        ));
        assert(env_of(env_with(before.env, server_id@, env@), server_id@) =~= env@);
    }
    db.env = drop_env(&db.env, server_id);
    if env.is_empty() {
        assert(env_without(before.env, server_id@) =~= env_with(before.env, server_id@, env@));
        return Ok(());
    }
    if !column_there(&db.columns, "server_id") {
        return Err(refuse("Failed to insert mcp_client_env", Cause::Schema));
    }
    match place_of(&db.servers, server_id) {
        None => Err(refuse("Failed to insert mcp_client_env", Cause::ForeignKey)),
        Some(_) => {
            push_values(&mut db.env, server_id, env);
            Ok(())
        },
    }
}

/// Make `env` the values of a server, in place of all that it had, once the schema is up to date.
pub fn set_env_values(db: &mut Database, server_id: &str, env: &EnvMap) -> (r: Result<
    (),
    StoreError,
>)
    ensures
        outcome(r) == values_stored(current(old(db)@), server_id@, env@),
        final(db)@ == after_values(current(old(db)@), server_id@, env@),
        r is Ok ==> env_of(final(db)@.env, server_id@) == env@,
        old(db)@.sound() ==> final(db)@.sound(),
{
    init_schema(db);
    set_env_values_conn(db, server_id, env)
}

/// The values of a server.
pub open spec fn values_loaded(db: DatabaseView, id: Seq<char>) -> Result<
    Map<Seq<char>, Seq<char>>,
    StoreErrorView,
> {
    if db.env_table {
        Ok(env_of(db.env, id))
    } else {
        Err(unprepared())
    }
}

/// The values of a server.
pub fn load_env_values_conn(db: &Database, server_id: &str) -> (r: Result<EnvMap, StoreError>)
    ensures
        outcome(r) == values_loaded(db@, server_id@),
{
    if !db.env_table {
        return Err(unprepare());
    }
    let mut values: EnvMap = EnvMap::new();
    let mut i: usize = 0;
    assert(env_of(env_rows(db.env@.take(0)), server_id@) =~= values@);
    while i < db.env.len()
        invariant
            i <= db.env@.len(),
            values@ == env_of(env_rows(db.env@.take(i as int)), server_id@),
        decreases db.env@.len() - i,
    {
        let ghost before = values@;
        proof {
            let head = db.env@.take(i + 1);
            assert(head.drop_last() =~= db.env@.take(i as int));
            assert(head.last() == db.env@[i as int]);
        }
        if same(db.env[i].server_id.as_str(), server_id) {
            values.insert(db.env[i].key.clone(), db.env[i].value.clone());
        }
        assert(values@ =~= env_of(env_rows(db.env@.take(i + 1)), server_id@));
        i = i + 1;
    }
    assert(db.env@.take(db.env@.len() as int) =~= db.env@);
    Ok(values)
}

/// The values of a server, once the schema is up to date.
pub fn load_env_values(db: &mut Database, server_id: &str) -> (r: Result<EnvMap, StoreError>)
    ensures
        final(db)@ == current(old(db)@),
        outcome(r) == values_loaded(current(old(db)@), server_id@),
        old(db)@.sound() ==> final(db)@.sound(),
{
    init_schema(db);
    load_env_values_conn(db, server_id)
}

/// Loading gives back exactly what was stored, so that no key that was left out lingers, and the
/// values of every other server are what they were.
pub proof fn law_values_are_replaced_whole(
    db: DatabaseView,
    id: Seq<char>,
    values: Map<Seq<char>, Seq<char>>,
    other: Seq<char>,
)
    requires
        values_stored(db, id, values) is Ok,
        other != id,
    ensures
        values_loaded(after_values(db, id, values), id) == Ok::<_, StoreErrorView>(values),
        values_loaded(after_values(db, id, values), other) == values_loaded(db, other),
        after_values(db, id, values).servers == db.servers,
{
    assert(env_of(env_with(db.env, id, values), id) =~= values);
    assert(env_of(env_with(db.env, id, values), other) =~= env_of(db.env, other));
}

/// Storing the same values twice is storing them once.
pub proof fn law_storing_values_is_idempotent(
    db: DatabaseView,
    id: Seq<char>,
    values: Map<Seq<char>, Seq<char>>,
)
    ensures
        after_values(after_values(db, id, values), id, values) == after_values(db, id, values),
{
    assert(env_with(env_with(db.env, id, values), id, values) =~= env_with(db.env, id, values));
    assert(env_without(env_without(db.env, id), id) =~= env_without(db.env, id));
}

/// No value shows in what is listed or found of the servers: it is the same whatever the values
/// are.
pub proof fn law_values_show_in_no_listing(
    db: DatabaseView,
    env: EnvTable,
    id: Seq<char>,
    name: Seq<char>,
)
    ensures
        listed(DatabaseView { env, ..db }) == listed(db),
        found(DatabaseView { env, ..db }, id) == found(db, id),
        found_by_name(DatabaseView { env, ..db }, name) == found_by_name(db, name),
{
}

/// Values are stored exactly where their table is there and, if there are any, some row has the
/// identity; otherwise it is told what is missing.
pub proof fn law_values_are_stored_for_a_known_server(
    db: DatabaseView,
    id: Seq<char>,
    values: Map<Seq<char>, Seq<char>>,
)
    ensures
        ({
            let known = exists|i: int|
                0 <= i < db.servers.len() && (#[trigger] db.servers[i]).server_id == id;
            let empty = forall|k: Seq<char>| !(#[trigger] values.dom().contains(k));
            let identified = has_column(db.columns, "server_id"@);
            &&& values_stored(db, id, values) is Ok <==> db.env_table && (empty || (identified
                && known))
            &&& !db.env_table ==> values_stored(db, id, values) == Err::<(), _>(
                StoreErrorView::Statement {
                    context: Some("Failed to clear previous mcp_client_env rows"@),
                    cause: Cause::Schema,
                },
            )
            &&& db.env_table && !empty && !identified ==> values_stored(db, id, values) == Err::<
                (),
                _,
            >(
                StoreErrorView::Statement {
                    context: Some("Failed to insert mcp_client_env"@),
                    cause: Cause::Schema,
                },
            )
            &&& db.env_table && !empty && identified && !known ==> values_stored(db, id, values)
                == Err::<(), _>(
                StoreErrorView::Statement {
                    context: Some("Failed to insert mcp_client_env"@),
                    cause: Cause::ForeignKey,
                },
            )
        }),
{
    law_the_row_of_an_identity_is_the_first(db.servers, id, 0);
    if forall|k: Seq<char>| !(#[trigger] values.dom().contains(k)) {
        assert(values =~= Map::<Seq<char>, Seq<char>>::empty());
    }
}

/// After values were stored a key of the server is there exactly where it is among them, with its
/// value, and the values of every other server are as before. Where they are refused the former ones
/// of the server are gone, and where their table is missing nothing changes. No other table is
/// touched.
pub proof fn law_storing_values_touches_one_server(
    db: DatabaseView,
    id: Seq<char>,
    values: Map<Seq<char>, Seq<char>>,
    server: Seq<char>,
    key: Seq<char>,
)
    ensures
        ({
            let after = after_values(db, id, values);
            let stored = values_stored(db, id, values) is Ok;
            &&& after.servers == db.servers
            &&& after.columns == db.columns
            &&& after.env_table == db.env_table
            &&& after.cache_table == db.cache_table
            &&& after.cache == db.cache
            &&& !db.env_table ==> after == db
            &&& server != id ==> (after.env.dom().contains((server, key)) <==> db.env.dom().contains(
                (server, key),
            ))
            &&& server != id && db.env.dom().contains((server, key)) ==> after.env[(server, key)]
                == db.env[(server, key)]
            &&& stored ==> (after.env.dom().contains((id, key)) <==> values.dom().contains(key))
            &&& stored && values.dom().contains(key) ==> after.env[(id, key)] == values[key]
            &&& db.env_table && !stored ==> !after.env.dom().contains((id, key))
        }),
{
}

/// Loading gives the values of the server and of no other, key by key, where their table is there.
pub proof fn law_loading_gives_the_values_of_one_server(
    db: DatabaseView,
    id: Seq<char>,
    key: Seq<char>,
)
    ensures
        values_loaded(db, id) is Ok <==> db.env_table,
        !db.env_table ==> values_loaded(db, id) == Err::<Map<Seq<char>, Seq<char>>, _>(
            StoreErrorView::Statement { context: None, cause: Cause::Schema },
        ),
        db.env_table ==> (values_loaded(db, id)->Ok_0.dom().contains(key)
            <==> db.env.dom().contains((id, key))),
        db.env_table && db.env.dom().contains((id, key)) ==> values_loaded(db, id)->Ok_0[key]
            == db.env[(id, key)],
{
}

} // verus!
