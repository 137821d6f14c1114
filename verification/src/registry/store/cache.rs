//! The cached answers of the registries, and how long one is good for.

use crate::registry::database::{
    cache_rows, lemma_sound_with_same_ids, outcome, refuse, refused, CacheRow, CacheTable, Cause,
    Database, DatabaseView, StoreError, StoreErrorView,
};
use crate::registry::schema::{current, init_schema};
use crate::text::{opt_text, same};
use vstd::prelude::*;

verus! {

/// How long a cached answer is good for, in milliseconds: ten minutes.
pub const REGISTRY_CACHE_TTL_MS: i64 = 10 * 60 * 1_000;

/// The time in milliseconds, from the milliseconds since the epoch. A clock that stands before
/// the epoch, for which there are none, is at the epoch.
pub fn now_ms(since_epoch: Option<u128>) -> (r: i64)
    ensures
        r == match since_epoch {
            Some(ms) => ms as i64,
            None => 0,
        },
{
    match since_epoch {
        Some(ms) =>
        #[verifier::truncate]
        (ms as i64),
        None => 0,
    }
}

/// The answer that is cached under a key, unless it is too old at `now`.
pub open spec fn fresh(cache: CacheTable, key: Seq<char>, now: int) -> Option<Seq<char>> {
    if cache.dom().contains(key) && now - cache[key].1 < REGISTRY_CACHE_TTL_MS {
        Some(cache[key].0)
    } else {
        None
    }
}

/// What is cached under a key at `now`.
pub open spec fn cached(db: DatabaseView, key: Seq<char>, now: int) -> Result<
    Option<Seq<char>>,
    StoreErrorView,
> {
    if db.cache_table {
        Ok(fresh(db.cache, key, now))
    } else {
        Err(refused("Failed to query registry cache"@, Cause::Schema))
    }
}

/// How a look into the cache ended.
pub open spec fn cache_outcome(r: Result<Option<String>, StoreError>) -> Result<
    Option<Seq<char>>,
    StoreErrorView,
> {
    match r {
        Ok(body) => Ok(opt_text(body)),
        Err(error) => Err(error@),
    }
}

/// The answer that is cached under `cache_key`, unless it is too old at `now`.
pub fn get_cached_conn(db: &Database, cache_key: &str, now: i64) -> (r: Result<
    Option<String>,
    StoreError,
>)
    ensures
        cache_outcome(r) == cached(db@, cache_key@, now as int),
{
    if !db.cache_table {
        return Err(refuse("Failed to query registry cache", Cause::Schema));
    }
    let mut i: usize = db.cache.len();
    assert(db.cache@.take(i as int) =~= db.cache@);
    while i > 0
        invariant
            i <= db.cache@.len(),
            db@.cache_table,
            db@.cache.dom().contains(cache_key@) == cache_rows(
                db.cache@.take(i as int),
            ).dom().contains(cache_key@),
            db@.cache.dom().contains(cache_key@) ==> db@.cache[cache_key@] == cache_rows(
                db.cache@.take(i as int),
            )[cache_key@],
        decreases i,
    {
        let ghost head = db.cache@.take(i as int);
        assert(head.drop_last() =~= db.cache@.take(i - 1));
        assert(head.last() == db.cache@[i - 1]);
        let row: &CacheRow = &db.cache[i - 1];
        if same(row.cache_key.as_str(), cache_key) {
            let age: i128 = now as i128 - row.cached_at as i128;
            return if age < REGISTRY_CACHE_TTL_MS as i128 {
                Ok(Some(row.body_json.clone()))
            } else {
                Ok(None)
            };
        }
        i = i - 1;
    }
    Ok(None)
}

/// The answer that is cached under `cache_key`, unless it is too old at `now`, once the schema is
/// up to date.
pub fn get_cached(db: &mut Database, cache_key: &str, now: i64) -> (r: Result<
    Option<String>,
    StoreError,
>)
    ensures
        final(db)@ == current(old(db)@),
        cache_outcome(r) == cached(current(old(db)@), cache_key@, now as int),
        old(db)@.sound() ==> final(db)@.sound(),
{
    init_schema(db);
    get_cached_conn(db, cache_key, now)
}

/// The store with an answer cached under a key, in place of the one that was there.
pub open spec fn with_cached(
    db: DatabaseView,
    key: Seq<char>,
    body: Seq<char>,
    now: i64,
) -> DatabaseView {
    DatabaseView { cache: db.cache.insert(key, (body, now)), ..db }
}

/// How caching an answer ends.
pub open spec fn caching(db: DatabaseView) -> Result<(), StoreErrorView> {
    if db.cache_table {
        Ok(())
    } else {
        Err(refused("Failed to upsert registry cache"@, Cause::Schema))
    }
}

/// The rows of the other keys.
fn drop_cached(rows: &Vec<CacheRow>, key: &str) -> (r: Vec<CacheRow>)
    ensures
        cache_rows(r@) == cache_rows(rows@).remove(key@),
{
    let mut kept: Vec<CacheRow> = Vec::new();
    let mut i: usize = 0;
    while i < rows.len()
        invariant
            i <= rows@.len(),
            cache_rows(kept@) == cache_rows(rows@.take(i as int)).remove(key@),
        decreases rows@.len() - i,
    {
        let ghost before = kept@;
        proof {
            assert(rows@.take(i + 1).drop_last() =~= rows@.take(i as int));
            assert(rows@.take(i + 1).last() == rows@[i as int]);
        }
        if !same(rows[i].cache_key.as_str(), key) {
            kept.push(rows[i].clone());
            assert(kept@.drop_last() =~= before);
        }
        assert(cache_rows(kept@) =~= cache_rows(rows@.take(i + 1)).remove(key@));
        i = i + 1;
    }
    assert(rows@.take(rows@.len() as int) =~= rows@);
    kept
}

/// Cache an answer under `cache_key` at `now`, in place of the one that was there.
pub fn set_cached_conn(db: &mut Database, cache_key: &str, body_json: &str, now: i64) -> (r: Result<
    (),
    StoreError,
>)
    ensures
        outcome(r) == caching(old(db)@),
        r is Err ==> final(db)@ == old(db)@,
        r is Ok ==> final(db)@ == with_cached(old(db)@, cache_key@, body_json@, now),
        old(db)@.sound() ==> final(db)@.sound(),
{
    if !db.cache_table {
        return Err(refuse("Failed to upsert registry cache", Cause::Schema));
    }
    let ghost before = db@;
    let mut kept: Vec<CacheRow> = drop_cached(&db.cache, cache_key);
    let ghost others = kept@;
    kept.push(
        CacheRow { cache_key: cache_key.to_owned(), body_json: body_json.to_owned(), cached_at: now },
    );
    proof {
        assert(kept@.drop_last() =~= others);
        assert(cache_rows(kept@) =~= before.cache.insert(cache_key@, (body_json@, now)));
    }
    db.cache = kept;
    proof {
        if before.sound() {
            lemma_sound_with_same_ids(before, db@);
        }
    }
    Ok(())
}

/// Cache an answer under `cache_key` at `now`, once the schema is up to date.
pub fn set_cached(db: &mut Database, cache_key: &str, body_json: &str, now: i64) -> (r: Result<
    (),
    StoreError,
>)
    ensures
        outcome(r) == caching(current(old(db)@)),
        r is Err ==> final(db)@ == current(old(db)@),
        r is Ok ==> final(db)@ == with_cached(current(old(db)@), cache_key@, body_json@, now),
        old(db)@.sound() ==> final(db)@.sound(),
{
    init_schema(db);
    set_cached_conn(db, cache_key, body_json, now)
}

/// A cached answer is given for ten minutes from when it was stored, and from then on not at all.
pub proof fn law_an_answer_lasts_ten_minutes(
    db: DatabaseView,
    key: Seq<char>,
    body: Seq<char>,
    stored: i64,
    now: int,
)
    requires
        db.cache_table,
    ensures
        cached(with_cached(db, key, body, stored), key, now) == Ok::<_, StoreErrorView>(
            if now < stored + 600_000 {
                Some(body)
            } else {
                None
            },
        ),
{
}

/// Caching an answer under one key leaves what is cached under another.
pub proof fn law_caching_keeps_other_keys(
    db: DatabaseView,
    key: Seq<char>,
    body: Seq<char>,
    stored: i64,
    other: Seq<char>,
    now: int,
)
    requires
        other != key,
    ensures
        cached(with_cached(db, key, body, stored), other, now) == cached(db, other, now),
{
}

/// What is cached is given exactly where there is an answer under the key that is younger than ten
/// minutes, as it stands; an answer from the future is young. A table that is missing is told.
pub proof fn law_a_young_answer_is_given(db: DatabaseView, key: Seq<char>, now: int)
    ensures
        !db.cache_table ==> cached(db, key, now) == Err::<Option<Seq<char>>, _>(
            StoreErrorView::Statement {
                context: Some("Failed to query registry cache"@),
                cause: Cause::Schema,
            },
        ),
        db.cache_table && db.cache.dom().contains(key) && now - db.cache[key].1 < 600_000 ==> cached(
            db,
            key,
            now,
        ) == Ok::<_, StoreErrorView>(Some(db.cache[key].0)),
        db.cache_table && !(db.cache.dom().contains(key) && now - db.cache[key].1 < 600_000)
            ==> cached(db, key, now) == Ok::<_, StoreErrorView>(None::<Seq<char>>),
{
}

/// Caching writes one key, with the answer and the time, and changes nothing else in the store; it
/// is refused only where the table is missing.
pub proof fn law_caching_writes_one_key(
    db: DatabaseView,
    key: Seq<char>,
    body: Seq<char>,
    now: i64,
    other: Seq<char>,
)
    ensures
        caching(db) is Ok <==> db.cache_table,
        caching(db) is Err ==> caching(db)->Err_0 == (StoreErrorView::Statement {
            context: Some("Failed to upsert registry cache"@),
            cause: Cause::Schema,
        }),
        ({
            let after = with_cached(db, key, body, now);
            &&& after.cache.dom().contains(key)
            &&& after.cache[key] == (body, now)
            &&& other != key ==> (after.cache.dom().contains(other) <==> db.cache.dom().contains(
                other,
            ))
            &&& other != key && db.cache.dom().contains(other) ==> after.cache[other]
                == db.cache[other]
            &&& after.servers == db.servers
            &&& after.columns == db.columns
            &&& after.env_table == db.env_table
            &&& after.env == db.env
            &&& after.cache_table == db.cache_table
        }),
{
}

/// How a look into the cache ended is what it gave.
pub proof fn law_a_look_gives_the_answer(body: String, error: StoreError)
    ensures
        cache_outcome(Ok(Some(body))) == Ok::<_, StoreErrorView>(Some(body@)),
        cache_outcome(Ok(None)) == Ok::<_, StoreErrorView>(None::<Seq<char>>),
        cache_outcome(Err(error)) == Err::<Option<Seq<char>>, _>(error@),
        REGISTRY_CACHE_TTL_MS == 600_000,
{
}

} // verus!
