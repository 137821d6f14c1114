//! The three tables of the store as plain values, and what a statement over them can fail with.

use crate::registry::rows::{BadColumn, BadColumnView, ServerRow, ServerRowView};
use crate::text::{cat, copy_opt, opt_text, same, texts};
use vstd::prelude::*;

verus! {

/// One value of the environment of a server.
#[derive(Debug, PartialEq, Eq)]
pub struct EnvRow {
    pub server_id: String,
    pub key: String,
    pub value: String,
}

impl Clone for EnvRow {
    fn clone(&self) -> (r: Self)
        ensures
            r == *self,
    {
        EnvRow {
            server_id: self.server_id.clone(),
            key: self.key.clone(),
            value: self.value.clone(),
        }
    }
}

/// One cached answer of a registry, and when it was stored.
#[derive(Debug, PartialEq, Eq)]
pub struct CacheRow {
    pub cache_key: String,
    pub body_json: String,
    pub cached_at: i64,
}

impl Clone for CacheRow {
    fn clone(&self) -> (r: Self)
        ensures
            r == *self,
    {
        CacheRow {
            cache_key: self.cache_key.clone(),
            body_json: self.body_json.clone(),
            cached_at: self.cached_at,
        }
    }
}

/// The tables of the store. A table is there or not; the server table is there when it has
/// columns, and some of its columns may be missing. Rows stand in the order of their insertion.
#[derive(Debug)]
pub struct Database {
    pub columns: Vec<String>,
    pub servers: Vec<ServerRow>,
    pub env_table: bool,
    pub env: Vec<EnvRow>,
    pub cache_table: bool,
    pub cache: Vec<CacheRow>,
}

/// Environment values by server and key.
pub type EnvTable = Map<(Seq<char>, Seq<char>), Seq<char>>;

/// Cached answers with the time of each, by cache key.
pub type CacheTable = Map<Seq<char>, (Seq<char>, i64)>;

/// What a [`Database`] holds.
#[verifier::ext_equal]
pub struct DatabaseView {
    pub columns: Seq<Seq<char>>,
    pub servers: Seq<ServerRowView>,
    pub env_table: bool,
    pub env: EnvTable,
    pub cache_table: bool,
    pub cache: CacheTable,
}

/// What each of some server rows holds.
pub open spec fn row_views(rows: Seq<ServerRow>) -> Seq<ServerRowView> {
    rows.map_values(|row: ServerRow| row@)
}

/// The table that some environment rows make.
pub open spec fn env_rows(rows: Seq<EnvRow>) -> EnvTable
    decreases rows.len(),
{
    if rows.len() == 0 {
        Map::empty()
    } else {
        env_rows(rows.drop_last()).insert(
            (rows.last().server_id@, rows.last().key@),
            rows.last().value@,
        )
    }
}

/// The table that some cache rows make.
pub open spec fn cache_rows(rows: Seq<CacheRow>) -> CacheTable
    decreases rows.len(),
{
    if rows.len() == 0 {
        Map::empty()
    } else {
        cache_rows(rows.drop_last()).insert(
            rows.last().cache_key@,
            (rows.last().body_json@, rows.last().cached_at),
        )
    }
}

impl View for Database {
    type V = DatabaseView;

    open spec fn view(&self) -> DatabaseView {
        DatabaseView {
            columns: texts(self.columns@),
            servers: row_views(self.servers@),
            env_table: self.env_table,
            env: env_rows(self.env@),
            cache_table: self.cache_table,
            cache: cache_rows(self.cache@),
        }
    }
}

/// The first row with the identity `id` at or after the place `from`.
pub open spec fn row_from(
    rows: Seq<ServerRowView>,
    id: Seq<char>,
    from: int,
) -> Option<ServerRowView>
    decreases rows.len() - from,
{
    if from < 0 || from >= rows.len() {
        None
    } else if rows[from].server_id == id {
        Some(rows[from])
    } else {
        row_from(rows, id, from + 1)
    }
}

/// The row with the identity `id`.
pub open spec fn row_of(rows: Seq<ServerRowView>, id: Seq<char>) -> Option<ServerRowView> {
    row_from(rows, id, 0)
}

/// The values of the servers other than `id`.
pub open spec fn env_without(env: EnvTable, id: Seq<char>) -> EnvTable {
    Map::new(
        |k: (Seq<char>, Seq<char>)| env.dom().contains(k) && k.0 != id,
        |k: (Seq<char>, Seq<char>)| env[k],
    )
}

/// The values of the server `id`, by key.
pub open spec fn env_of(env: EnvTable, id: Seq<char>) -> Map<Seq<char>, Seq<char>> {
    Map::new(|k: Seq<char>| env.dom().contains((id, k)), |k: Seq<char>| env[(id, k)])
}

/// The values of the server `id` are `values` and no others.
pub open spec fn env_with(
    env: EnvTable,
    id: Seq<char>,
    values: Map<Seq<char>, Seq<char>>,
) -> EnvTable {
    Map::new(
        |k: (Seq<char>, Seq<char>)|
            if k.0 == id {
                values.dom().contains(k.1)
            } else {
                env.dom().contains(k)
            },
        |k: (Seq<char>, Seq<char>)|
            if k.0 == id {
                values[k.1]
            } else {
                env[k]
            },
    )
}

impl DatabaseView {
    /// No two servers have one identity, and every environment value belongs to a server.
    pub open spec fn sound(self) -> bool {
        &&& forall|i: int, j: int|
            0 <= i < j < self.servers.len() ==> (#[trigger] self.servers[i]).server_id != (
            #[trigger] self.servers[j]).server_id
        &&& forall|k: (Seq<char>, Seq<char>)| #[trigger]
            self.env.dom().contains(k) ==> row_of(self.servers, k.0) is Some
    }
}

impl Database {
    /// A store in which nothing was ever created.
    pub fn new() -> (r: Database)
        ensures
            r@ == (DatabaseView {
                columns: Seq::empty(),
                servers: Seq::empty(),
                env_table: false,
                env: Map::empty(),
                cache_table: false,
                cache: Map::empty(),
            }),
            r@.sound(),
    {
        Database {
            columns: Vec::new(),
            servers: Vec::new(),
            env_table: false,
            env: Vec::new(),
            cache_table: false,
            cache: Vec::new(),
        }
    }
}

/// Why a statement was refused.
#[derive(Clone, Copy, Debug, PartialEq, Eq, Structural)]
pub enum Cause {
    /// A table or a column that the statement names is not there.
    Schema,
    /// The identity is taken.
    DuplicateKey,
    /// The value belongs to no server.
    ForeignKey,
}

/// Why an operation on the store failed.
#[derive(Debug)]
pub enum StoreError {
    /// A statement was refused. The context says what it was for, where that is said.
    Statement { context: Option<String>, cause: Cause },
    /// A JSON column of a row does not read as what belongs there.
    Conversion { bad: BadColumn<serde_json::Error> },
    /// There is no server of that identity.
    NotFound { server_id: String },
    /// The edit itself was refused.
    Rejected { message: String },
}

/// What a [`StoreError`] says.
pub enum StoreErrorView {
    Statement { context: Option<Seq<char>>, cause: Cause },
    Conversion { bad: BadColumnView },
    NotFound { server_id: Seq<char> },
    Rejected { message: Seq<char> },
}

impl View for StoreError {
    type V = StoreErrorView;

    open spec fn view(&self) -> StoreErrorView {
        match self {
            StoreError::Statement { context, cause } => StoreErrorView::Statement {
                context: opt_text(*context),
                cause: *cause,
            },
            StoreError::Conversion { bad } => StoreErrorView::Conversion { bad: bad@ },
            StoreError::NotFound { server_id } => StoreErrorView::NotFound {
                server_id: server_id@,
            },
            StoreError::Rejected { message } => StoreErrorView::Rejected { message: message@ },
        }
    }
}

/// How an operation ended.
pub open spec fn outcome<T: View>(r: Result<T, StoreError>) -> Result<T::V, StoreErrorView> {
    match r {
        Ok(value) => Ok(value@),
        Err(error) => Err(error@),
    }
}

/// A refused statement with a context.
pub open spec fn refused(context: Seq<char>, cause: Cause) -> StoreErrorView {
    StoreErrorView::Statement { context: Some(context), cause }
}

/// A statement that was refused for want of a table or a column, without a context.
pub open spec fn unprepared() -> StoreErrorView {
    StoreErrorView::Statement { context: None, cause: Cause::Schema }
}

impl StoreErrorView {
    /// The line that is shown of an error, where the store words it. A refused statement
    /// without a context is worded by the database, and a column that does not read by the
    /// JSON reader.
    pub open spec fn line(self) -> Option<Seq<char>> {
        match self {
            StoreErrorView::Statement { context, .. } => context,
            StoreErrorView::Conversion { .. } => None,
            StoreErrorView::NotFound { server_id } => Some(
                "MCP server '"@ + server_id + "' not found"@,
            ),
            StoreErrorView::Rejected { message } => Some(message),
        }
    }
}

impl StoreError {
    /// The line that is shown of this error, where the store words it.
    pub fn message(&self) -> (r: Option<String>)
        ensures
            opt_text(r) == self@.line(),
    {
        match self {
            StoreError::Statement { context, .. } => copy_opt(context),
            StoreError::Conversion { .. } => None,
            StoreError::NotFound { server_id } => Some(
                cat(cat("MCP server '", server_id.as_str()).as_str(), "' not found"),
            ),
            StoreError::Rejected { message } => Some(message.clone()),
        }
    }
}

/// A refused statement with a context.
pub(crate) fn refuse(context: &str, cause: Cause) -> (r: StoreError)
    ensures
        r@ == refused(context@, cause),
{
    StoreError::Statement { context: Some(context.to_owned()), cause }
}

/// A statement that was refused for want of a table or a column, without a context.
pub(crate) fn unprepare() -> (r: StoreError)
    ensures
        r@ == unprepared(),
{
    StoreError::Statement { context: None, cause: Cause::Schema }
}

/// The place of the first row with the identity `id`.
pub(crate) fn place_of(rows: &Vec<ServerRow>, id: &str) -> (r: Option<usize>)
    ensures
        match r {
            Some(i) => i < rows@.len() && rows@[i as int]@.server_id == id@ && row_of(
                row_views(rows@),
                id@,
            ) == Some(rows@[i as int]@),
            None => row_of(row_views(rows@), id@) is None && forall|i: int|
                0 <= i < rows@.len() ==> (#[trigger] rows@[i])@.server_id != id@,
        },
{
    let mut i: usize = 0;
    while i < rows.len()
        invariant
            i <= rows@.len(),
            row_of(row_views(rows@), id@) == row_from(row_views(rows@), id@, i as int),
            forall|k: int| 0 <= k < i ==> (#[trigger] rows@[k])@.server_id != id@,
        decreases rows@.len() - i,
    {
        assert(row_views(rows@)[i as int] == rows@[i as int]@);
        if same(rows[i].server_id.as_str(), id) {
            return Some(i);
        }
        i = i + 1;
    }
    None
}

/// A row of that identity anywhere makes the identity a known one.
pub proof fn lemma_row_of(rows: Seq<ServerRowView>, id: Seq<char>, from: int, i: int)
    requires
        0 <= from <= i < rows.len(),
        rows[i].server_id == id,
    ensures
        row_from(rows, id, from) is Some,
    decreases i - from,
{
    if from < i && rows[from].server_id != id {
        lemma_row_of(rows, id, from + 1, i);
    }
}

/// A known identity is that of some row, and the first such row is the one that is found.
pub proof fn lemma_row_from(rows: Seq<ServerRowView>, id: Seq<char>, from: int) -> (i: int)
    requires
        0 <= from,
        row_from(rows, id, from) is Some,
    ensures
        from <= i < rows.len(),
        rows[i].server_id == id,
        row_from(rows, id, from) == Some(rows[i]),
        forall|k: int| from <= k < i ==> (#[trigger] rows[k]).server_id != id,
    decreases rows.len() - from,
{
    if rows[from].server_id == id {
        from
    } else {
        lemma_row_from(rows, id, from + 1)
    }
}

/// A row behind others is found where none of them has its identity, and hides none of them.
pub proof fn lemma_row_behind(
    rows: Seq<ServerRowView>,
    row: ServerRowView,
    id: Seq<char>,
    from: int,
)
    requires
        0 <= from <= rows.len(),
    ensures
        row_from(rows.push(row), id, from) == match row_from(rows, id, from) {
            Some(found) => Some(found),
            None => if row.server_id == id {
                Some(row)
            } else {
                None
            },
        },
    decreases rows.len() - from,
{
    let after = rows.push(row);
    if from < rows.len() {
        assert(after[from] == rows[from]);
        lemma_row_behind(rows, row, id, from + 1);
    } else {
        assert(after[from] == row);
        assert(row_from(after, id, from + 1) is None);
    }
}

/// Rows with the same identities in the same order know the same identities.
pub proof fn lemma_same_ids(a: Seq<ServerRowView>, b: Seq<ServerRowView>, id: Seq<char>, from: int)
    requires
        a.len() == b.len(),
        forall|i: int|
            0 <= i < a.len() ==> (#[trigger] a[i]).server_id == (#[trigger] b[i]).server_id,
        0 <= from,
    ensures
        row_from(a, id, from) is Some <==> row_from(b, id, from) is Some,
    decreases a.len() - from,
{
    if from < a.len() && a[from].server_id != id {
        lemma_same_ids(a, b, id, from + 1);
    }
}

/// Changing columns other than the identity keeps a store sound.
pub proof fn lemma_sound_with_same_ids(a: DatabaseView, b: DatabaseView)
    requires
        a.sound(),
        a.env == b.env,
        a.servers.len() == b.servers.len(),
        forall|i: int|
            0 <= i < a.servers.len() ==> (#[trigger] a.servers[i]).server_id == (
            #[trigger] b.servers[i]).server_id,
    ensures
        b.sound(),
{
    assert forall|i: int, j: int| 0 <= i < j < b.servers.len() implies (
    #[trigger] b.servers[i]).server_id != (#[trigger] b.servers[j]).server_id by {
        assert(a.servers[i].server_id == b.servers[i].server_id);
        assert(a.servers[j].server_id == b.servers[j].server_id);
    }
    assert forall|k: (Seq<char>, Seq<char>)| #[trigger] b.env.dom().contains(k) implies row_of(
        b.servers,
        k.0,
    ) is Some by {
        assert(a.env.dom().contains(k));
        lemma_same_ids(a.servers, b.servers, k.0, 0);
    }
}

/// The values of the servers other than `id`, as rows.
pub(crate) fn drop_env(rows: &Vec<EnvRow>, id: &str) -> (r: Vec<EnvRow>)
    ensures
        env_rows(r@) == env_without(env_rows(rows@), id@),
{
    let mut kept: Vec<EnvRow> = Vec::new();
    let mut i: usize = 0;
    while i < rows.len()
        invariant
            i <= rows@.len(),
            env_rows(kept@) == env_without(env_rows(rows@.take(i as int)), id@),
        decreases rows@.len() - i,
    {
        let ghost before = kept@;
        proof {
            assert(rows@.take(i + 1).drop_last() =~= rows@.take(i as int));
            assert(rows@.take(i + 1).last() == rows@[i as int]);
        }
        if !same(rows[i].server_id.as_str(), id) {
            kept.push(rows[i].clone());
            assert(kept@.drop_last() =~= before);
        }
        assert(env_rows(kept@) =~= env_without(env_rows(rows@.take(i + 1)), id@));
        i = i + 1;
    }
    assert(rows@.take(rows@.len() as int) =~= rows@);
    kept
}

/// The row of an identity is the first row that has it, and there is one exactly where some row has
/// it.
pub proof fn law_the_row_of_an_identity_is_the_first(rows: Seq<ServerRowView>, id: Seq<char>, i: int)
    ensures
        row_of(rows, id) is Some <==> exists|k: int|
            0 <= k < rows.len() && (#[trigger] rows[k]).server_id == id,
        0 <= i < rows.len() && rows[i].server_id == id && (forall|k: int|
            0 <= k < i ==> (#[trigger] rows[k]).server_id != id) ==> row_of(rows, id) == Some(
            rows[i],
        ),
{
    if row_of(rows, id) is Some {
        let k = lemma_row_from(rows, id, 0);
        if 0 <= i < rows.len() && rows[i].server_id == id && (forall|k: int|
            0 <= k < i ==> (#[trigger] rows[k]).server_id != id) {
            assert(k == i);
        }
    }
    if exists|k: int| 0 <= k < rows.len() && (#[trigger] rows[k]).server_id == id {
        let k = choose|k: int| 0 <= k < rows.len() && (#[trigger] rows[k]).server_id == id;
        lemma_row_of(rows, id, 0, k);
    }
    if 0 <= i < rows.len() && rows[i].server_id == id {
        lemma_row_of(rows, id, 0, i);
    }
}

/// The values of one server are taken out, read and replaced key by key, and those of every other
/// server are left as they are.
pub proof fn law_values_belong_to_one_server(
    env: EnvTable,
    id: Seq<char>,
    values: Map<Seq<char>, Seq<char>>,
    server: Seq<char>,
    key: Seq<char>,
)
    ensures
        env_without(env, id).dom().contains((server, key)) <==> server != id && env.dom().contains(
            (server, key),
        ),
        server != id && env.dom().contains((server, key)) ==> env_without(env, id)[(server, key)]
            == env[(server, key)],
        env_with(env, id, values).dom().contains((server, key)) <==> (if server == id {
            values.dom().contains(key)
        } else {
            env.dom().contains((server, key))
        }),
        server == id && values.dom().contains(key) ==> env_with(env, id, values)[(server, key)]
            == values[key],
        server != id && env.dom().contains((server, key)) ==> env_with(env, id, values)[(server, key)]
            == env[(server, key)],
        env_of(env, id).dom().contains(key) <==> env.dom().contains((id, key)),
        env.dom().contains((id, key)) ==> env_of(env, id)[key] == env[(id, key)],
{
}

/// Of environment rows for one server and key the last one stands, and a key is there exactly where
/// some row has it; so too with cached answers.
pub proof fn law_the_last_row_of_a_key_stands(
    env: Seq<EnvRow>,
    cache: Seq<CacheRow>,
    server: Seq<char>,
    key: Seq<char>,
    i: int,
)
    ensures
        env_rows(env).dom().contains((server, key)) <==> exists|k: int|
            0 <= k < env.len() && (#[trigger] env[k]).server_id@ == server && env[k].key@ == key,
        0 <= i < env.len() && env[i].server_id@ == server && env[i].key@ == key && (forall|k: int|
            i < k < env.len() ==> (#[trigger] env[k]).server_id@ != server || env[k].key@ != key)
            ==> env_rows(env)[(server, key)] == env[i].value@,
        cache_rows(cache).dom().contains(key) <==> exists|k: int|
            0 <= k < cache.len() && (#[trigger] cache[k]).cache_key@ == key,
        0 <= i < cache.len() && cache[i].cache_key@ == key && (forall|k: int|
            i < k < cache.len() ==> (#[trigger] cache[k]).cache_key@ != key) ==> cache_rows(
            cache,
        )[key] == (cache[i].body_json@, cache[i].cached_at),
    decreases env.len() + cache.len(),
{
    if env.len() > 0 {
        let front = env.drop_last();
        law_the_last_row_of_a_key_stands(front, cache, server, key, i);
        assert forall|k: int| 0 <= k < front.len() implies #[trigger] env[k] == front[k] by {}
        assert(env[env.len() - 1] == env.last());
    }
    if cache.len() > 0 {
        let front = cache.drop_last();
        law_the_last_row_of_a_key_stands(env, front, server, key, i);
        assert forall|k: int| 0 <= k < front.len() implies #[trigger] cache[k] == front[k] by {}
        assert(cache[cache.len() - 1] == cache.last());
    }
}

/// What is told of an error, where the store words it: the context of a statement, the identity that
/// was not found, and the words of a refused edit.
pub proof fn law_an_error_is_told_in_its_words(
    context: Option<Seq<char>>,
    cause: Cause,
    text: Seq<char>,
    bad: BadColumnView,
)
    ensures
        (StoreErrorView::Statement { context, cause }).line() == context,
        (StoreErrorView::NotFound { server_id: text }).line() == Some(
            "MCP server '"@ + text + "' not found"@,
        ),
        (StoreErrorView::Rejected { message: text }).line() == Some(text),
        (StoreErrorView::Conversion { bad }).line() is None,
        refused(text, cause) == (StoreErrorView::Statement { context: Some(text), cause }),
        unprepared() == (StoreErrorView::Statement { context: None, cause: Cause::Schema }),
{
}

/// What a store holds is what its tables hold, row by row.
pub proof fn law_a_store_holds_its_tables(db: Database, i: int)
    ensures
        db@.columns == texts(db.columns@),
        db@.servers.len() == db.servers@.len(),
        0 <= i < db.servers@.len() ==> db@.servers[i] == db.servers@[i]@,
        db@.env_table == db.env_table,
        db@.cache_table == db.cache_table,
        db@.env == env_rows(db.env@),
        db@.cache == cache_rows(db.cache@),
{
}

/// What an error says is what it holds.
pub proof fn law_an_error_says_what_it_holds(error: StoreError)
    ensures
        error is Statement ==> error@ is Statement && error@->cause == error->cause
            && error@->context == opt_text(error->context),
        error is Conversion ==> error@ is Conversion && error@->bad == error->bad@,
        error is NotFound ==> error@ is NotFound && error@->server_id == error->server_id@,
        error is Rejected ==> error@ is Rejected && error@->message == error->message@,
{
}

} // verus!
