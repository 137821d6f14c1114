//! Reading the installed servers.

use crate::registry::database::{
    law_the_row_of_an_identity_is_the_first, lemma_row_from, outcome, place_of, row_of, row_views,
    unprepare, unprepared, Cause, Database, DatabaseView, StoreError, StoreErrorView,
};
use crate::registry::rows::{map_server_row, read, BadColumnView, ServerRow, ServerRowView};
use crate::registry::schema::{complete, current, init_schema, is_complete};
use crate::registry::types::{InstalledServer, InstalledServerView};
use crate::text::same;
use vstd::prelude::*;

verus! {

/// What reading a row gives an operation of the store.
pub open spec fn row_read(row: ServerRowView) -> Result<InstalledServerView, StoreErrorView> {
    match read(row) {
        Ok(server) => Ok(server),
        Err(bad) => Err(StoreErrorView::Conversion { bad }),
    }
}

/// The server of the identity `id`.
pub open spec fn found(db: DatabaseView, id: Seq<char>) -> Result<
    InstalledServerView,
    StoreErrorView,
> {
    if !complete(db.columns) {
        Err(unprepared())
    } else {
        match row_of(db.servers, id) {
            Some(row) => row_read(row),
            None => Err(StoreErrorView::NotFound { server_id: id }),
        }
    }
}

/// Where a row installed at `time` goes among rows in the order of their installation: behind all
/// that were installed no later.
pub open spec fn place(rows: Seq<ServerRowView>, time: int) -> int
    decreases rows.len(),
{
    if rows.len() == 0 || rows.last().installed_at <= time {
        rows.len() as int
    } else {
        place(rows.drop_last(), time)
    }
}

/// The rows in the order of their installation; of rows installed at one time the one that was
/// inserted first comes first.
pub open spec fn in_order(rows: Seq<ServerRowView>) -> Seq<ServerRowView>
    decreases rows.len(),
{
    if rows.len() == 0 {
        Seq::empty()
    } else {
        let before = in_order(rows.drop_last());
        before.insert(place(before, rows.last().installed_at), rows.last())
    }
}

/// What reading each of some rows gives: every server, or the failure of the first row that does
/// not read.
pub open spec fn rows_read(rows: Seq<ServerRowView>) -> Result<
    Seq<InstalledServerView>,
    StoreErrorView,
>
    decreases rows.len(),
{
    if rows.len() == 0 {
        Ok(Seq::empty())
    } else {
        match rows_read(rows.drop_last()) {
            Ok(servers) => match row_read(rows.last()) {
                Ok(server) => Ok(servers.push(server)),
                Err(error) => Err(error),
            },
            Err(error) => Err(error),
        }
    }
}

/// Every server, in the order of their installation.
pub open spec fn listed(db: DatabaseView) -> Result<Seq<InstalledServerView>, StoreErrorView> {
    if !complete(db.columns) {
        Err(unprepared())
    } else {
        rows_read(in_order(db.servers))
    }
}

/// What each of some servers says.
pub open spec fn server_views(servers: Seq<InstalledServer>) -> Seq<InstalledServerView> {
    servers.map_values(|server: InstalledServer| server@)
}

/// The row of the qualified name that was installed first.
pub open spec fn earliest(rows: Seq<ServerRowView>, name: Seq<char>) -> Option<ServerRowView>
    decreases rows.len(),
{
    if rows.len() == 0 {
        None
    } else {
        let before = earliest(rows.drop_last(), name);
        let row = rows.last();
        if row.qualified_name == name && (before is None || row.installed_at
            < before->0.installed_at) {
            Some(row)
        } else {
            before
        }
    }
}

/// The server of the qualified name that was installed first.
pub open spec fn found_by_name(db: DatabaseView, name: Seq<char>) -> Result<
    Option<InstalledServerView>,
    StoreErrorView,
> {
    if !complete(db.columns) {
        Err(unprepared())
    } else {
        match earliest(db.servers, name) {
            None => Ok(None),
            Some(row) => match row_read(row) {
                Ok(server) => Ok(Some(server)),
                Err(error) => Err(error),
            },
        }
    }
}

/// How a search ended.
pub open spec fn search_outcome(r: Result<Option<InstalledServer>, StoreError>) -> Result<
    Option<InstalledServerView>,
    StoreErrorView,
> {
    match r {
        Ok(Some(server)) => Ok(Some(server@)),
        Ok(None) => Ok(None),
        Err(error) => Err(error@),
    }
}

/// How a listing ended.
pub open spec fn list_outcome(r: Result<Vec<InstalledServer>, StoreError>) -> Result<
    Seq<InstalledServerView>,
    StoreErrorView,
> {
    match r {
        Ok(servers) => Ok(server_views(servers@)),
        Err(error) => Err(error@),
    }
}

/// The server that a row stands for.
fn read_row(row: &ServerRow) -> (r: Result<InstalledServer, StoreError>)
    ensures
        outcome(r) == row_read(row@),
{
    match map_server_row(row) {
        Ok(server) => Ok(server),
        Err(bad) => Err(StoreError::Conversion { bad }),
    }
}

/// The server of the identity `server_id`.
pub fn get_server_conn(db: &Database, server_id: &str) -> (r: Result<InstalledServer, StoreError>)
    ensures
        outcome(r) == found(db@, server_id@),
{
    if !is_complete(&db.columns) {
        return Err(unprepare());
    }
    match place_of(&db.servers, server_id) {
        Some(i) => read_row(&db.servers[i]),
        None => Err(StoreError::NotFound { server_id: server_id.to_owned() }),
    }
}

/// The server of the identity `server_id`, once the schema is up to date.
pub fn get_server(db: &mut Database, server_id: &str) -> (r: Result<InstalledServer, StoreError>)
    ensures
        final(db)@ == current(old(db)@),
        outcome(r) == found(current(old(db)@), server_id@),
        old(db)@.sound() ==> final(db)@.sound(),
{
    init_schema(db);
    get_server_conn(db, server_id)
}

/// The first of the rows of a qualified name by the time of installation.
fn earliest_place(rows: &Vec<ServerRow>, name: &str) -> (r: Option<usize>)
    ensures
        match r {
            Some(i) => i < rows@.len() && earliest(row_views(rows@), name@) == Some(
                rows@[i as int]@,
            ),
            None => earliest(row_views(rows@), name@) is None,
        },
{
    let mut best: Option<usize> = None;
    let mut i: usize = 0;
    while i < rows.len()
        invariant
            i <= rows@.len(),
            match best {
                Some(b) => b < i && earliest(row_views(rows@).take(i as int), name@) == Some(
                    rows@[b as int]@,
                ),
                None => earliest(row_views(rows@).take(i as int), name@) is None,
            },
        decreases rows@.len() - i,
    {
        proof {
            let head = row_views(rows@).take(i + 1);
            assert(head.drop_last() =~= row_views(rows@).take(i as int));
            assert(head.last() == rows@[i as int]@);
        }
        if same(rows[i].qualified_name.as_str(), name) {
            match best {
                Some(b) => if rows[i].installed_at < rows[b].installed_at {
                    best = Some(i);
                },
                None => {
                    best = Some(i);
                },
            }
        }
        i = i + 1;
    }
    assert(row_views(rows@).take(rows@.len() as int) =~= row_views(rows@));
    best
}

/// The server of the qualified name that was installed first, if there is one. A name may be
/// installed more than once: the identity alone is unique.
pub fn find_server_by_qualified_name_conn(db: &Database, qualified_name: &str) -> (r: Result<
    Option<InstalledServer>,
    StoreError,
>)
    ensures
        search_outcome(r) == found_by_name(db@, qualified_name@),
{
    if !is_complete(&db.columns) {
        return Err(unprepare());
    }
    match earliest_place(&db.servers, qualified_name) {
        Some(i) => match read_row(&db.servers[i]) {
            Ok(server) => Ok(Some(server)),
            Err(error) => Err(error),
        },
        None => Ok(None),
    }
}

/// The server of the qualified name that was installed first, once the schema is up to date.
pub fn find_server_by_qualified_name(db: &mut Database, qualified_name: &str) -> (r: Result<
    Option<InstalledServer>,
    StoreError,
>)
    ensures
        final(db)@ == current(old(db)@),
        search_outcome(r) == found_by_name(current(old(db)@), qualified_name@),
        old(db)@.sound() ==> final(db)@.sound(),
{
    init_schema(db);
    find_server_by_qualified_name_conn(db, qualified_name)
}

/// The rows at some places.
spec fn rows_at(rows: Seq<ServerRowView>, places: Seq<usize>) -> Seq<ServerRowView> {
    places.map_values(|i: usize| rows[i as int])
}

/// The places of the rows in the order of their installation.
fn ordered_places(rows: &Vec<ServerRow>) -> (r: Vec<usize>)
    ensures
        forall|k: int| 0 <= k < r@.len() ==> (#[trigger] r@[k]) < rows@.len(),
        rows_at(row_views(rows@), r@) == in_order(row_views(rows@)),
{
    let mut places: Vec<usize> = Vec::new();
    let mut i: usize = 0;
    while i < rows.len()
        invariant
            i <= rows@.len(),
            forall|k: int| 0 <= k < places@.len() ==> (#[trigger] places@[k]) < rows@.len(),
            rows_at(row_views(rows@), places@) == in_order(row_views(rows@).take(i as int)),
        decreases rows@.len() - i,
    {
        let ghost all = row_views(rows@);
        let ghost sorted = rows_at(all, places@);
        let time: i64 = rows[i].installed_at;
        let mut p: usize = places.len();
        assert(sorted.take(p as int) =~= sorted);
        while p > 0 && rows[places[p - 1]].installed_at > time
            invariant
                p <= places@.len(),
                all == row_views(rows@),
                forall|k: int| 0 <= k < places@.len() ==> (#[trigger] places@[k]) < rows@.len(),
                sorted == rows_at(all, places@),
                place(sorted, time as int) == place(sorted.take(p as int), time as int),
            decreases p,
        {
            assert(sorted.take(p as int).last() == rows@[places@[p - 1] as int]@);
            assert(sorted.take(p as int).drop_last() =~= sorted.take(p - 1));
            p = p - 1;
        }
        proof {
            if p > 0 {
                assert(sorted.take(p as int).last() == rows@[places@[p - 1] as int]@);
            }
            assert(place(sorted, time as int) == p);
            assert(all.take(i + 1).drop_last() =~= all.take(i as int));
            assert(all.take(i + 1).last() == rows@[i as int]@);
        }
        let ghost before = places@;
        places.insert(p, i);
        proof {
            assert(rows_at(all, places@) =~= sorted.insert(p as int, all[i as int]));
            assert forall|k: int| 0 <= k < places@.len() implies (#[trigger] places@[k])
                < rows@.len() by {
                if k < p {
                    assert(places@[k] == before[k]);
                } else if k > p {
                    assert(places@[k] == before[k - 1]);
                }
            }
        }
        i = i + 1;
    }
    assert(row_views(rows@).take(rows@.len() as int) =~= row_views(rows@));
    places
}

/// Every server, in the order of their installation.
pub fn list_servers_conn(db: &Database) -> (r: Result<Vec<InstalledServer>, StoreError>)
    ensures
        list_outcome(r) == listed(db@),
{
    if !is_complete(&db.columns) {
        return Err(unprepare());
    }
    let places: Vec<usize> = ordered_places(&db.servers);
    let ghost rows = in_order(db@.servers);
    let mut servers: Vec<InstalledServer> = Vec::new();
    assert(server_views(servers@) =~= Seq::empty());
    let mut i: usize = 0;
    while i < places.len()
        invariant
            i <= places@.len(),
            forall|k: int| 0 <= k < places@.len() ==> (#[trigger] places@[k]) < db.servers@.len(),
            rows == rows_at(row_views(db.servers@), places@),
            rows_read(rows.take(i as int)) == Ok::<_, StoreErrorView>(server_views(servers@)),
            listed(db@) == rows_read(rows),
        decreases places@.len() - i,
    {
        proof {
            assert(rows.take(i + 1).drop_last() =~= rows.take(i as int));
            assert(rows.take(i + 1).last() == db.servers@[places@[i as int] as int]@);
        }
        match read_row(&db.servers[places[i]]) {
            Ok(server) => {
                let ghost before = servers@;
                servers.push(server);
                assert(server_views(servers@) =~= server_views(before).push(server@));
            },
            Err(error) => {
                proof {
                    lemma_first_failure(rows, i + 1);
                }
                return Err(error);
            },
        }
        i = i + 1;
    }
    assert(rows.take(places@.len() as int) =~= rows);
    Ok(servers)
}

/// Reading more rows does not undo the failure of an earlier one.
proof fn lemma_first_failure(rows: Seq<ServerRowView>, n: int)
    requires
        0 <= n <= rows.len(),
        rows_read(rows.take(n)) is Err,
    ensures
        rows_read(rows) == rows_read(rows.take(n)),
    decreases rows.len() - n,
{
    if n < rows.len() {
        assert(rows.take(n + 1).drop_last() =~= rows.take(n));
        lemma_first_failure(rows, n + 1);
    } else {
        assert(rows.take(n) =~= rows);
    }
}

/// Every server, in the order of their installation, once the schema is up to date.
pub fn list_servers(db: &mut Database) -> (r: Result<Vec<InstalledServer>, StoreError>)
    ensures
        final(db)@ == current(old(db)@),
        list_outcome(r) == listed(current(old(db)@)),
        old(db)@.sound() ==> final(db)@.sound(),
{
    init_schema(db);
    list_servers_conn(db)
}

/// Rows in the order of their installation.
pub open spec fn sorted(rows: Seq<ServerRowView>) -> bool {
    forall|i: int, j: int|
        0 <= i < j < rows.len() ==> (#[trigger] rows[i]).installed_at <= (
        #[trigger] rows[j]).installed_at
}

/// The rows that were installed at `time`, in order.
pub open spec fn installed_at(rows: Seq<ServerRowView>, time: int) -> Seq<ServerRowView> {
    rows.filter(|row: ServerRowView| row.installed_at == time)
}

/// The place of a row among sorted rows: all before it are no later, all behind it later.
proof fn lemma_place(rows: Seq<ServerRowView>, time: int)
    requires
        sorted(rows),
    ensures
        0 <= place(rows, time) <= rows.len(),
        forall|i: int|
            0 <= i < place(rows, time) ==> (#[trigger] rows[i]).installed_at <= time,
        forall|i: int|
            place(rows, time) <= i < rows.len() ==> (#[trigger] rows[i]).installed_at > time,
    decreases rows.len(),
{
    if rows.len() > 0 {
        if rows.last().installed_at <= time {
            assert forall|i: int| 0 <= i < rows.len() implies (#[trigger] rows[i]).installed_at
                <= time by {
                if i < rows.len() - 1 {
                    assert(rows[i].installed_at <= rows[rows.len() - 1].installed_at);
                }
            }
        } else {
            let shorter = rows.drop_last();
            lemma_place(shorter, time);
            assert forall|i: int| 0 <= i < place(rows, time) implies (
            #[trigger] rows[i]).installed_at <= time by {
                assert(shorter[i] == rows[i]);
            }
            assert forall|i: int| place(rows, time) <= i < rows.len() implies (
            #[trigger] rows[i]).installed_at > time by {
                if i < shorter.len() {
                    assert(shorter[i] == rows[i]);
                }
            }
        }
    }
}

/// No row is picked where none qualifies.
proof fn lemma_none_installed(rows: Seq<ServerRowView>, time: int)
    requires
        forall|i: int| 0 <= i < rows.len() ==> (#[trigger] rows[i]).installed_at != time,
    ensures
        installed_at(rows, time) == Seq::<ServerRowView>::empty(),
    decreases rows.len(),
{
    reveal(Seq::filter);
    if rows.len() > 0 {
        assert forall|i: int| 0 <= i < rows.drop_last().len() implies (
        #[trigger] rows.drop_last()[i]).installed_at != time by {
            assert(rows.drop_last()[i] == rows[i]);
        }
        lemma_none_installed(rows.drop_last(), time);
        assert(rows.last() == rows[rows.len() - 1]);
    }
}

/// Placing one more row keeps the others as they are.
proof fn lemma_placed(rows: Seq<ServerRowView>, row: ServerRowView, time: int)
    requires
        sorted(rows),
    ensures
        sorted(rows.insert(place(rows, row.installed_at), row)),
        installed_at(rows.insert(place(rows, row.installed_at), row), time) == if row.installed_at
            == time {
            installed_at(rows, time).push(row)
        } else {
            installed_at(rows, time)
        },
{
    let p = place(rows, row.installed_at);
    let at = |r: ServerRowView| r.installed_at == time;
    lemma_place(rows, row.installed_at);
    let after = rows.insert(p, row);
    assert forall|i: int, j: int| 0 <= i < j < after.len() implies (
    #[trigger] after[i]).installed_at <= (#[trigger] after[j]).installed_at by {
        let a = if i < p {
            i
        } else {
            i - 1
        };
        let b = if j < p {
            j
        } else {
            j - 1
        };
        if i != p {
            assert(after[i] == rows[a]);
        }
        if j != p {
            assert(after[j] == rows[b]);
        }
    }
    let head = rows.take(p);
    let tail = rows.skip(p);
    let one = seq![row];
    assert(after =~= head + one + tail);
    assert(rows =~= head + tail);
    Seq::filter_distributes_over_add(head + one, tail, at);
    Seq::filter_distributes_over_add(head, one, at);
    Seq::filter_distributes_over_add(head, tail, at);
    assert(one.filter(at) =~= if row.installed_at == time {
        one
    } else {
        Seq::empty()
    }) by {
        reveal(Seq::filter);
        assert(one.drop_last() =~= Seq::empty());
        assert(one.last() == row);
        assert(Seq::<ServerRowView>::empty().filter(at) =~= Seq::empty());
    }
    if row.installed_at == time {
        assert forall|i: int| 0 <= i < tail.len() implies (#[trigger] tail[i]).installed_at
            != time by {
            assert(tail[i] == rows[p + i]);
        }
        lemma_none_installed(tail, time);
        assert(installed_at(after, time) =~= installed_at(rows, time).push(row));
    } else {
        assert(installed_at(after, time) =~= installed_at(rows, time));
    }
}

/// A listing holds every row and no other, in the order of installation; rows installed at one
/// time keep the order in which they were inserted.
pub proof fn law_listing_order(rows: Seq<ServerRowView>, time: int)
    ensures
        sorted(in_order(rows)),
        installed_at(in_order(rows), time) == installed_at(rows, time),
        in_order(rows).len() == rows.len(),
    decreases rows.len(),
{
    reveal(Seq::filter);
    if rows.len() > 0 {
        let before = in_order(rows.drop_last());
        law_listing_order(rows.drop_last(), time);
        lemma_place(before, rows.last().installed_at);
        lemma_placed(before, rows.last(), time);
    }
}

/// A search by name gives a row of that name that no other row of the name precedes, by the time
/// of installation and then by the order of insertion; it gives none exactly where no row has the
/// name.
pub proof fn law_search_gives_the_earliest(rows: Seq<ServerRowView>, name: Seq<char>)
    ensures
        match earliest(rows, name) {
            None => forall|i: int|
                0 <= i < rows.len() ==> (#[trigger] rows[i]).qualified_name != name,
            Some(row) => exists|i: int|
                {
                    &&& 0 <= i < rows.len()
                    &&& #[trigger] rows[i] == row
                    &&& row.qualified_name == name
                    &&& forall|j: int|
                        0 <= j < rows.len() && (#[trigger] rows[j]).qualified_name == name ==> (
                        row.installed_at < rows[j].installed_at || (row.installed_at
                            == rows[j].installed_at && i <= j))
                },
        },
    decreases rows.len(),
{
    if rows.len() > 0 {
        let shorter = rows.drop_last();
        law_search_gives_the_earliest(shorter, name);
        assert forall|i: int| 0 <= i < shorter.len() implies #[trigger] rows[i] == shorter[i] by {}
        match earliest(shorter, name) {
            None => {
                if rows.last().qualified_name == name {
                    assert(rows[rows.len() - 1] == rows.last());
                }
            },
            Some(before) => {
                let k = choose|i: int|
                    {
                        &&& 0 <= i < shorter.len()
                        &&& #[trigger] shorter[i] == before
                        &&& before.qualified_name == name
                        &&& forall|j: int|
                            0 <= j < shorter.len() && (#[trigger] shorter[j]).qualified_name == name
                                ==> (before.installed_at < shorter[j].installed_at || (
                            before.installed_at == shorter[j].installed_at && i <= j))
                    };
                assert(rows[k] == before);
                assert forall|j: int|
                    0 <= j < shorter.len() && (
                    #[trigger] rows[j]).qualified_name == name implies before.installed_at
                    < rows[j].installed_at || (before.installed_at == rows[j].installed_at && k
                    <= j) by {
                    assert(shorter[j] == rows[j]);
                }
                assert(rows[rows.len() - 1] == rows.last());
            },
        }
    }
}

/// A server that is found by its identity has that identity.
pub proof fn law_found_servers_have_the_identity(db: DatabaseView, id: Seq<char>)
    ensures
        found(db, id) is Ok ==> found(db, id)->Ok_0.server_id == id,
{
    if row_of(db.servers, id) is Some {
        let i = lemma_row_from(db.servers, id, 0);
    }
}

/// A server is found by its identity exactly where every column is there and the first row of that
/// identity reads, and it is what that row reads as. Where no row has the identity, that is told
/// with the identity; where the row does not read, the column that does not.
pub proof fn law_the_first_row_of_an_identity_is_found(db: DatabaseView, id: Seq<char>, i: int)
    requires
        complete(db.columns),
    ensures
        (forall|k: int| 0 <= k < db.servers.len() ==> (#[trigger] db.servers[k]).server_id != id)
            ==> found(db, id) == Err::<InstalledServerView, _>(
            StoreErrorView::NotFound { server_id: id },
        ),
        0 <= i < db.servers.len() && db.servers[i].server_id == id && (forall|k: int|
            0 <= k < i ==> (#[trigger] db.servers[k]).server_id != id) ==> match read(
            db.servers[i],
        ) {
            Ok(server) => found(db, id) == Ok::<_, StoreErrorView>(server),
            Err(bad) => found(db, id) == Err::<InstalledServerView, _>(
                StoreErrorView::Conversion { bad },
            ),
        },
{
    law_the_row_of_an_identity_is_the_first(db.servers, id, i);
}

/// Nothing is read from a table that lacks a column.
pub proof fn law_an_incomplete_table_is_not_read(db: DatabaseView, id: Seq<char>)
    requires
        !complete(db.columns),
    ensures
        ({
            let refusal = StoreErrorView::Statement { context: None, cause: Cause::Schema };
            &&& found(db, id) == Err::<InstalledServerView, _>(refusal)
            &&& found_by_name(db, id) == Err::<Option<InstalledServerView>, _>(refusal)
            &&& listed(db) == Err::<Seq<InstalledServerView>, _>(refusal)
        }),
{
}

/// Some rows are read together exactly where each of them reads, as what each reads as and in their
/// order; otherwise the first that does not read is told.
pub proof fn law_rows_are_read_one_by_one(rows: Seq<ServerRowView>, i: int)
    ensures
        rows_read(rows) is Ok <==> forall|k: int|
            0 <= k < rows.len() ==> read(#[trigger] rows[k]) is Ok,
        rows_read(rows) is Ok ==> rows_read(rows)->Ok_0.len() == rows.len(),
        rows_read(rows) is Ok && 0 <= i < rows.len() ==> read(rows[i]) == Ok::<_, BadColumnView>(
            rows_read(rows)->Ok_0[i],
        ),
        0 <= i < rows.len() && read(rows[i]) is Err && (forall|k: int|
            0 <= k < i ==> read(#[trigger] rows[k]) is Ok) ==> rows_read(rows) == Err::<
            Seq<InstalledServerView>,
            _,
        >(StoreErrorView::Conversion { bad: read(rows[i])->Err_0 }),
    decreases rows.len(),
{
    if rows.len() > 0 {
        let front = rows.drop_last();
        law_rows_are_read_one_by_one(front, i);
        assert forall|k: int| 0 <= k < front.len() implies #[trigger] rows[k] == front[k] by {}
        assert(rows[rows.len() - 1] == rows.last());
        if forall|k: int| 0 <= k < rows.len() ==> read(#[trigger] rows[k]) is Ok {
            assert forall|k: int| 0 <= k < front.len() implies read(#[trigger] front[k]) is Ok by {
                assert(rows[k] == front[k]);
            }
        }
        if rows_read(rows) is Ok {
            assert forall|k: int| 0 <= k < rows.len() implies read(#[trigger] rows[k]) is Ok by {
                if k < front.len() {
                    assert(rows[k] == front[k]);
                }
            }
        }
        if i == rows.len() - 1 && read(rows[i]) is Err && (forall|k: int|
            0 <= k < i ==> read(#[trigger] rows[k]) is Ok) {
            assert forall|k: int| 0 <= k < front.len() implies read(#[trigger] front[k]) is Ok by {
                assert(rows[k] == front[k]);
            }
        }
    }
}

/// A listing gives every installed server, as many as there are rows, in the order of their
/// installation, and each row that is there; it fails where one of them does not read.
pub proof fn law_a_listing_gives_every_server(db: DatabaseView, i: int)
    requires
        complete(db.columns),
    ensures
        listed(db) is Ok <==> forall|k: int|
            0 <= k < db.servers.len() ==> read(#[trigger] db.servers[k]) is Ok,
        listed(db) is Ok ==> listed(db)->Ok_0.len() == db.servers.len(),
        listed(db) is Ok ==> forall|j: int, k: int|
            0 <= j < k < listed(db)->Ok_0.len() ==> (#[trigger] listed(db)->Ok_0[j]).installed_at
                <= (#[trigger] listed(db)->Ok_0[k]).installed_at,
        listed(db) is Ok && 0 <= i < db.servers.len() ==> listed(db)->Ok_0.contains(
            read(db.servers[i])->Ok_0,
        ),
{
    let rows = in_order(db.servers);
    law_listing_order(db.servers, 0);
    law_rows_are_read_one_by_one(rows, 0);
    assert forall|k: int| 0 <= k < db.servers.len() implies rows.contains(
        #[trigger] db.servers[k],
    ) by {
        lemma_in_order_members(db.servers, db.servers[k]);
    }
    assert forall|k: int| 0 <= k < rows.len() implies db.servers.contains(#[trigger] rows[k]) by {
        lemma_in_order_members(db.servers, rows[k]);
    }
    if forall|k: int| 0 <= k < db.servers.len() ==> read(#[trigger] db.servers[k]) is Ok {
        assert forall|k: int| 0 <= k < rows.len() implies read(#[trigger] rows[k]) is Ok by {
            let j = choose|j: int| 0 <= j < db.servers.len() && db.servers[j] == rows[k];
            assert(read(db.servers[j]) is Ok);
        }
    }
    if rows_read(rows) is Ok {
        let servers = rows_read(rows)->Ok_0;
        assert forall|k: int| 0 <= k < db.servers.len() implies read(
            #[trigger] db.servers[k],
        ) is Ok by {
            let j = choose|j: int| 0 <= j < rows.len() && rows[j] == db.servers[k];
            assert(read(rows[j]) is Ok);
        }
        assert forall|j: int, k: int| 0 <= j < k < servers.len() implies (
        #[trigger] servers[j]).installed_at <= (#[trigger] servers[k]).installed_at by {
            law_rows_are_read_one_by_one(rows, j);
            law_rows_are_read_one_by_one(rows, k);
            assert(rows[j].installed_at <= rows[k].installed_at);
        }
        if 0 <= i < db.servers.len() {
            let j = choose|j: int| 0 <= j < rows.len() && rows[j] == db.servers[i];
            law_rows_are_read_one_by_one(rows, j);
            assert(servers[j] == read(db.servers[i])->Ok_0);
        }
    }
}

/// Ordering rows neither adds nor drops one.
proof fn lemma_in_order_members(rows: Seq<ServerRowView>, row: ServerRowView)
    ensures
        in_order(rows).contains(row) <==> rows.contains(row),
    decreases rows.len(),
{
    if rows.len() > 0 {
        let front = rows.drop_last();
        let before = in_order(front);
        lemma_in_order_members(front, row);
        law_listing_order(front, 0);
        let p = place(before, rows.last().installed_at);
        lemma_place(before, rows.last().installed_at);
        let after = before.insert(p, rows.last());
        if rows.contains(row) {
            let i = choose|i: int| 0 <= i < rows.len() && rows[i] == row;
            if i < front.len() {
                assert(front[i] == row);
                let j = choose|j: int| 0 <= j < before.len() && before[j] == row;
                if j < p {
                    assert(after[j] == row);
                } else {
                    assert(after[j + 1] == row);
                }
            } else {
                assert(after[p] == row);
            }
        }
        if after.contains(row) {
            let j = choose|j: int| 0 <= j < after.len() && after[j] == row;
            if j == p {
                assert(rows[rows.len() - 1] == row);
            } else {
                if j < p {
                    assert(before[j] == row);
                } else {
                    assert(before[j - 1] == row);
                }
                let i = choose|i: int| 0 <= i < front.len() && front[i] == row;
                assert(rows[i] == row);
            }
        }
    }
}

/// A search by name gives none exactly where no row has exactly that name, and otherwise what the
/// row reads as that was installed first under it.
pub proof fn law_the_first_installed_of_a_name_is_found(db: DatabaseView, name: Seq<char>, i: int)
    requires
        complete(db.columns),
    ensures
        found_by_name(db, name) == Ok::<_, StoreErrorView>(None::<InstalledServerView>)
            <==> forall|k: int|
            0 <= k < db.servers.len() ==> (#[trigger] db.servers[k]).qualified_name != name,
        0 <= i < db.servers.len() && db.servers[i].qualified_name == name && (forall|k: int|
            0 <= k < db.servers.len() && k != i && (#[trigger] db.servers[k]).qualified_name == name
                ==> db.servers[i].installed_at < db.servers[k].installed_at || (
            db.servers[i].installed_at == db.servers[k].installed_at && i < k)) ==> match read(
            db.servers[i],
        ) {
            Ok(server) => found_by_name(db, name) == Ok::<_, StoreErrorView>(Some(server)),
            Err(bad) => found_by_name(db, name) == Err::<Option<InstalledServerView>, _>(
                StoreErrorView::Conversion { bad },
            ),
        },
{
    let rows = db.servers;
    law_search_gives_the_earliest(rows, name);
    if earliest(rows, name) is Some {
        let row = earliest(rows, name)->0;
        let m = choose|m: int|
            {
                &&& 0 <= m < rows.len()
                &&& #[trigger] rows[m] == row
                &&& row.qualified_name == name
                &&& forall|j: int|
                    0 <= j < rows.len() && (#[trigger] rows[j]).qualified_name == name ==> (
                    row.installed_at < rows[j].installed_at || (row.installed_at
                        == rows[j].installed_at && m <= j))
            };
        if 0 <= i < rows.len() && rows[i].qualified_name == name && (forall|k: int|
            0 <= k < rows.len() && k != i && (#[trigger] rows[k]).qualified_name == name
                ==> rows[i].installed_at < rows[k].installed_at || (rows[i].installed_at
                == rows[k].installed_at && i < k)) {
            assert(m == i);
        }
    }
}

/// How a listing or a search ended is what it gave: as many servers, each as it is, or the error.
pub proof fn law_an_outcome_is_what_was_given(
    servers: Vec<InstalledServer>,
    server: InstalledServer,
    error: StoreError,
    i: int,
)
    ensures
        list_outcome(Ok(servers)) is Ok,
        list_outcome(Ok(servers))->Ok_0.len() == servers@.len(),
        0 <= i < servers@.len() ==> list_outcome(Ok(servers))->Ok_0[i] == servers@[i]@,
        list_outcome(Err(error)) == Err::<Seq<InstalledServerView>, _>(error@),
        search_outcome(Ok(Some(server))) == Ok::<_, StoreErrorView>(Some(server@)),
        search_outcome(Ok(None)) == Ok::<_, StoreErrorView>(None::<InstalledServerView>),
        search_outcome(Err(error)) == Err::<Option<InstalledServerView>, _>(error@),
        outcome::<InstalledServer>(Ok(server)) == Ok::<_, StoreErrorView>(server@),
        outcome::<InstalledServer>(Err(error)) == Err::<InstalledServerView, _>(error@),
{
}

} // verus!
