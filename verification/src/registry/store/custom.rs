//! Servers that were entered by hand: adding one together with its environment, and editing one
//! as a single read, decision and write.

use crate::registry::database::{
    law_the_row_of_an_identity_is_the_first, lemma_row_behind, outcome, Database, DatabaseView,
    StoreError, StoreErrorView,
};
use crate::registry::env::EnvMap;
use crate::registry::rows::{readable, written};
use crate::registry::schema::{current, init_schema};
use crate::registry::store::edit::{
    custom_change, custom_edited, lemma_row_changed, update_server_custom_fields_conn, with_change,
};
use crate::registry::store::insert::{
    insert_server_if_absent_conn, insertion_if_absent, with_server,
};
use crate::registry::store::query::{found, get_server_conn};
use crate::registry::store::values::{
    after_values, law_storing_values_touches_one_server, law_values_are_stored_for_a_known_server,
    load_env_values_conn, set_env_values_conn, values_loaded,
};
use crate::registry::types::{InstalledServer, InstalledServerView};
use crate::text::texts;
use vstd::prelude::*;

verus! {

/// The store after an edit of the server `id`: its own fields, and its environment in whole.
pub open spec fn after_edit(
    db: DatabaseView,
    id: Seq<char>,
    server: InstalledServerView,
    values: Map<Seq<char>, Seq<char>>,
) -> DatabaseView {
    after_values(with_change(db, id, custom_change(server)), id, values)
}

/// How an edit ends whose decision came out as `reply`: the store, and what the caller is told. A
/// refusal leaves the store as it was. An edit is found and loaded as it was decided, and the
/// identity, name, install time and provenance are what they were.
pub open spec fn edit_ends(
    db: DatabaseView,
    id: Seq<char>,
    reply: Result<(InstalledServer, EnvMap), String>,
    after: DatabaseView,
    told: Result<InstalledServer, StoreError>,
) -> bool {
    match reply {
        Ok((server, values)) => {
            &&& told == Ok::<InstalledServer, StoreError>(server)
            &&& after == after_edit(db, id, server@, values@)
            &&& found(after, id) == Ok::<_, StoreErrorView>(
                custom_edited(found(db, id)->Ok_0, server@),
            )
            &&& values_loaded(after, id) == Ok::<_, StoreErrorView>(values@)
        },
        Err(message) => {
            &&& outcome(told) == Err::<InstalledServerView, _>(
                StoreErrorView::Rejected { message: message@ },
            )
            &&& after == db
        },
    }
}

/// Edit a server by a decision that is made on the record and the values as they stand, once the
/// schema is up to date. `build` sees both, and gives the fields to write and the values to store,
/// or refuses. A server that is gone is an error, and nothing is written.
pub fn update_custom_server_rmw<F>(db: &mut Database, server_id: &str, build: F) -> (r: Result<
    InstalledServer,
    StoreError,
>) where F: FnOnce(&InstalledServer, EnvMap) -> Result<(InstalledServer, EnvMap), String>
    requires
        forall|seen: InstalledServer, stored: EnvMap| #[trigger]
            call_requires(build, (&seen, stored)),
    ensures
        match found(current(old(db)@), server_id@) {
            Err(error) => {
                &&& outcome(r) == Err::<InstalledServerView, _>(error)
                &&& final(db)@ == current(old(db)@)
            },
            Ok(record) => exists|
                seen: InstalledServer,
                stored: EnvMap,
                reply: Result<(InstalledServer, EnvMap), String>,
            |
                {
                    &&& seen@ == record
                    &&& values_loaded(current(old(db)@), server_id@) == Ok::<_, StoreErrorView>(
                        stored@,
                    )
                    &&& #[trigger] call_ensures(build, (&seen, stored), reply)
                    &&& edit_ends(current(old(db)@), server_id@, reply, final(db)@, r)
                },
        },
        old(db)@.sound() ==> final(db)@.sound(),
{
    init_schema(db);
    let ghost before = db@;
    let seen: InstalledServer = match get_server_conn(db, server_id) {
        Ok(record) => record,
        Err(error) => return Err(error),
    };
    let stored: EnvMap = match load_env_values_conn(db, server_id) {
        Ok(values) => values,
        Err(error) => return Err(error),
    };
    let ghost held = stored;
    let reply: Result<(InstalledServer, EnvMap), String> = build(&seen, stored);
    let ghost given = reply;
    assert(call_ensures(build, (&seen, held), given));
    match reply {
        Ok((server, values)) => {
            proof {
                lemma_row_changed(before.servers, server_id@, custom_change(server@), server_id@, 0);
            }
            match update_server_custom_fields_conn(db, server_id, &server) {
                Ok(()) => (),
                Err(error) => return Err(error),
            }
            match set_env_values_conn(db, server_id, &values) {
                Ok(()) => (),
                Err(error) => return Err(error),
            }
            assert(edit_ends(
                before,
                server_id@,
                given,
                db@,
                Ok::<InstalledServer, StoreError>(server),
            ));
            Ok(server)
        },
        Err(message) => Err(StoreError::Rejected { message }),
    }
}

/// Add a server entered by hand together with its values, unless its name is taken, once the
/// schema is up to date, and say whether it was added. Either both are stored or neither.
pub fn insert_custom_server_with_env(
    db: &mut Database,
    server: &InstalledServer,
    env: &EnvMap,
) -> (r: Result<bool, StoreError>)
    ensures
        outcome(r) == insertion_if_absent(current(old(db)@), server@),
        r != Ok::<bool, StoreError>(true) ==> final(db)@ == current(old(db)@),
        r == Ok::<bool, StoreError>(true) ==> {
            &&& final(db)@ == after_values(
                with_server(current(old(db)@), server@),
                server@.server_id,
                env@,
            )
            &&& values_loaded(final(db)@, server@.server_id) == Ok::<_, StoreErrorView>(env@)
            &&& readable(server@) ==> found(final(db)@, server@.server_id) == Ok::<
                _,
                StoreErrorView,
            >(server@)
        },
        old(db)@.sound() ==> final(db)@.sound(),
{
    init_schema(db);
    let ghost before = db@;
    match insert_server_if_absent_conn(db, server) {
        Ok(true) => (),
        Ok(false) => return Ok(false),
        Err(error) => return Err(error),
    }
    proof {
        lemma_row_behind(before.servers, written(server@), server@.server_id, 0);
    }
    match set_env_values_conn(db, server.server_id.as_str(), env) {
        Ok(()) => Ok(true),
        Err(error) => Err(error),
    }
}

/// An edit of a server writes the columns that it owns in the rows of that identity and makes the
/// values that it gives the values of that server. Every other row, every value of another server
/// and the cache stay; a refused edit changes nothing.
pub proof fn law_an_edit_touches_one_server(
    db: DatabaseView,
    id: Seq<char>,
    server: InstalledServerView,
    values: Map<Seq<char>, Seq<char>>,
    other: Seq<char>,
    key: Seq<char>,
    i: int,
)
    requires
        db.env_table,
        found(db, id) is Ok,
    ensures
        ({
            let after = after_edit(db, id, server, values);
            &&& after.servers.len() == db.servers.len()
            &&& 0 <= i < db.servers.len() && db.servers[i].server_id != id ==> after.servers[i]
                == db.servers[i]
            &&& 0 <= i < db.servers.len() && db.servers[i].server_id == id ==> {
                let row = after.servers[i];
                &&& row.server_id == id
                &&& row.qualified_name == db.servers[i].qualified_name
                &&& row.installed_at == db.servers[i].installed_at
                &&& row.provenance == db.servers[i].provenance
                &&& row.enabled == db.servers[i].enabled
                &&& row.config_json == db.servers[i].config_json
                &&& row.display_name == server.display_name
                &&& row.description == server.description
                &&& row.command == server.command
            }
            &&& after.env.dom().contains((id, key)) <==> values.dom().contains(key)
            &&& values.dom().contains(key) ==> after.env[(id, key)] == values[key]
            &&& other != id ==> (after.env.dom().contains((other, key)) <==> db.env.dom().contains(
                (other, key),
            ))
            &&& other != id && db.env.dom().contains((other, key)) ==> after.env[(other, key)]
                == db.env[(other, key)]
            &&& after.columns == db.columns
            &&& after.cache == db.cache
        }),
{
    let changed = with_change(db, id, custom_change(server));
    lemma_row_changed(db.servers, id, custom_change(server), id, 0);
    law_storing_values_touches_one_server(changed, id, values, other, key);
    law_values_are_stored_for_a_known_server(changed, id, values);
    law_the_row_of_an_identity_is_the_first(changed.servers, id, 0);
}

/// A decision on an edit is handed on as it was made: what it gives is what the caller is told, and
/// what it refuses is told in its words and leaves the store.
pub proof fn law_a_decision_is_handed_on(
    db: DatabaseView,
    id: Seq<char>,
    reply: Result<(InstalledServer, EnvMap), String>,
    after: DatabaseView,
    told: Result<InstalledServer, StoreError>,
)
    requires
        edit_ends(db, id, reply, after, told),
    ensures
        reply is Ok <==> told is Ok,
        reply is Ok ==> told->Ok_0 == reply->Ok_0.0,
        reply is Ok ==> values_loaded(after, id) == Ok::<_, StoreErrorView>(reply->Ok_0.1@),
        reply is Ok ==> found(after, id) is Ok && found(after, id)->Ok_0.command
            == reply->Ok_0.0.command@ && found(after, id)->Ok_0.display_name
            == reply->Ok_0.0.display_name@ && found(after, id)->Ok_0.args == texts(
            reply->Ok_0.0.args@,
        ),
        reply is Err ==> after == db && told->Err_0 is Rejected && told->Err_0->message@
            == reply->Err_0@,
{
}

} // verus!
