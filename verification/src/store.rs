//! The notes' database: one table of texts and one of titles, with a row for each note.
//!
//! Titles have their own table, not a column, so a database from before they came needs no
//! migration.
use crate::text::{decimal, to_decimal};
use rusqlite::{Connection, OptionalExtension};
use vstd::prelude::*;

verus! {

/// `rusqlite::Connection`.
#[verifier::external_type_specification]
#[verifier::external_body]
pub struct ExConnection(rusqlite::Connection);

/// `rusqlite::Error`.
#[verifier::external_type_specification]
#[verifier::external_body]
pub struct ExError(rusqlite::Error);

/// The rows of each table: the text under each id.
pub type Tables = Map<Seq<char>, Map<i64, Seq<char>>>;

/// What a database in UTF-8 holds whose tables are those of `SCHEMA`, and to which nothing writes
/// while it is open but the statements of this module, through this connection. `None` of any other
/// database. One in memory belongs to its connection; of one in a file nothing shows that nothing
/// else writes to it.
pub uninterp spec fn tables(db: Connection) -> Option<Map<Seq<char>, Map<i64, Seq<char>>>>;

/// The path that a connection was opened with.
pub uninterp spec fn opened_at(db: Connection) -> Seq<char>;

/// The path of a database in memory.
pub const IN_MEMORY: &'static str = ":memory:";

/// Creates the tables that are not there.
pub const SCHEMA: &'static str =
    "CREATE TABLE IF NOT EXISTS notes (id INTEGER PRIMARY KEY, text TEXT NOT NULL);
         CREATE TABLE IF NOT EXISTS titles (id INTEGER PRIMARY KEY, text TEXT NOT NULL);";

/// Whether a database has a table of that name.
pub open spec fn is_table(name: Seq<char>) -> bool {
    name == "notes"@ || name == "titles"@
}

/// Whether both tables are there.
pub open spec fn is_complete(rows: Tables) -> bool {
    rows.contains_key("notes"@) && rows.contains_key("titles"@)
}

/// The statement that reads a row of `table`.
pub open spec fn select_statement(table: Seq<char>) -> Seq<char> {
    "SELECT text FROM "@ + table + " WHERE id = ?1"@
}

/// The statement that writes a row of `table`.
pub open spec fn replace_statement(table: Seq<char>) -> Seq<char> {
    "INSERT OR REPLACE INTO "@ + table + " (id, text) VALUES (?1, ?2)"@
}

/// `rows`, and an empty table if there was none of that name.
pub open spec fn with_table(rows: Tables, name: Seq<char>) -> Tables {
    if rows.contains_key(name) {
        rows
    } else {
        rows.insert(name, Map::empty())
    }
}

/// `rows`, with both tables.
pub open spec fn created(rows: Tables) -> Tables {
    with_table(with_table(rows, "notes"@), "titles"@)
}

/// The row of a note.
pub open spec fn row_id(id: usize) -> i64 {
    id as i64
}

/// `rows`, with `text` under the note's id, in place of what was there.
pub open spec fn saved(rows: Tables, table: Seq<char>, id: usize, text: Seq<char>) -> Tables {
    rows.insert(table, rows[table].insert(row_id(id), text))
}

/// What is under the note's id.
pub open spec fn stored(rows: Tables, table: Seq<char>, id: usize) -> Option<Seq<char>> {
    if rows[table].contains_key(row_id(id)) {
        Some(rows[table][row_id(id)])
    } else {
        None
    }
}

/// Calls `Connection::open`, which opens the database at `path`. The path `:memory:` opens one in
/// memory, which is empty and belongs to the connection.
#[verifier::external_body]
fn open(path: &str) -> (r: Result<Connection, rusqlite::Error>)
    ensures
        r matches Ok(db) ==> opened_at(db) == path@,
        path@ == IN_MEMORY@ ==> (r matches Ok(db) ==> tables(db) == Some(
            Map::<Seq<char>, Map<i64, Seq<char>>>::empty(),
        )),
{
    Connection::open(path)
}

/// Calls `Connection::execute_batch`. Where all is well, both tables of `SCHEMA` are there after
/// it: it creates those that were not, and leaves the others as they are. It is not said what a
/// batch that fails leaves behind: it may have created one of the two.
#[verifier::external_body]
fn execute_batch(db: &mut Connection, sql: &str) -> (r: Result<(), rusqlite::Error>)
    ensures
        opened_at(*final(db)) == opened_at(*old(db)),
        r is Ok && sql@ == SCHEMA@ ==> (tables(*final(db)) matches Some(rows) ==> is_complete(rows)),
        r is Ok && sql@ == SCHEMA@ ==> (tables(*old(db)) matches Some(rows) ==> tables(*final(db))
            == Some(created(rows))),
{
    db.execute_batch(sql)
}

/// Calls `Connection::execute`. Where all is well, the statement that writes a row of a table puts
/// `text` under `id`, in place of what was there, and changes nothing else. If it fails it changes
/// nothing, and it does fail if there is no such table.
#[verifier::external_body]
fn execute(db: &mut Connection, sql: &str, id: i64, text: &str) -> (r: Result<
    usize,
    rusqlite::Error,
>)
    ensures
        opened_at(*final(db)) == opened_at(*old(db)),
        forall|table: Seq<char>|
            r is Ok && is_table(table) && sql@ == #[trigger] replace_statement(table) ==> (
            tables(*old(db)) matches Some(rows) ==> rows.contains_key(table) && tables(*final(db))
                == Some(rows.insert(table, rows[table].insert(id, text@)))),
        forall|table: Seq<char>|
            r is Err && is_table(table) && sql@ == #[trigger] replace_statement(table)
                ==> tables(*final(db)) == tables(*old(db)),
{
    db.execute(sql, (id, text))
}

/// Calls `Connection::query_row` and `OptionalExtension::optional`. Where all is well, the
/// statement that reads a row of a table finds the text under `id`, and `None` exactly if there is
/// none. It fails if there is no such table.
#[verifier::external_body]
fn query_row(db: &Connection, sql: &str, id: i64) -> (r: Result<Option<String>, rusqlite::Error>)
    ensures
        forall|table: Seq<char>|
            is_table(table) && sql@ == #[trigger] select_statement(table) ==> (r matches Ok(found)
                ==> tables(*db) matches Some(rows) ==> rows.contains_key(table) && match found {
                Some(text) => rows[table].contains_key(id) && rows[table][id] == text@,
                None => !rows[table].contains_key(id),
            }),
{
    db.query_row(sql, [id], |row| row.get(0)).optional()
}

/// What the database would not do.
#[derive(Debug)]
pub enum StoreError {
    Open(rusqlite::Error),
    CreateTables(rusqlite::Error),
    Read(rusqlite::Error),
    Save(rusqlite::Error),
}

/// The statement that reads a row of `table`. `table` goes into the SQL as is.
pub fn select_sql(table: &'static str) -> (r: String)
    ensures
        r@ == select_statement(table@),
        r@ == "SELECT text FROM "@ + table@ + " WHERE id = ?1"@,
{
    "SELECT text FROM ".to_owned().concat(table).concat(" WHERE id = ?1")
}

/// The statement that writes a row of `table`. `table` goes into the SQL as is.
pub fn replace_sql(table: &'static str) -> (r: String)
    ensures
        r@ == replace_statement(table@),
        r@ == "INSERT OR REPLACE INTO "@ + table@ + " (id, text) VALUES (?1, ?2)"@,
{
    "INSERT OR REPLACE INTO ".to_owned().concat(table).concat(" (id, text) VALUES (?1, ?2)")
}

/// Whether creating the tables in a database can fail with `e`: `execute_batch` says what is known
/// of it.
pub closed spec fn batch_fails(db: Connection, e: rusqlite::Error) -> bool {
    exists|at: &mut Connection| *at == db && #[trigger] call_ensures(
        execute_batch,
        (at, SCHEMA),
        Err::<(), rusqlite::Error>(e),
    )
}

/// Whether creating the tables in a database can come to `done`: `execute_batch` says what is known
/// of it.
pub closed spec fn creates(db: &mut Connection, done: Result<(), rusqlite::Error>) -> bool {
    exists|sql: &str|
        sql@
            == "CREATE TABLE IF NOT EXISTS notes (id INTEGER PRIMARY KEY, text TEXT NOT NULL);
         CREATE TABLE IF NOT EXISTS titles (id INTEGER PRIMARY KEY, text TEXT NOT NULL);"@
            && #[trigger] call_ensures(execute_batch, (db, sql), done)
}

/// Whether writing `text` into the row of the note `id` can come to `done`: `execute` says what is
/// known of it.
pub closed spec fn writes(
    db: &mut Connection,
    table: Seq<char>,
    id: usize,
    text: Seq<char>,
    done: Result<usize, rusqlite::Error>,
) -> bool {
    exists|sql: &str, written: &str|
        sql@ == "INSERT OR REPLACE INTO "@ + table + " (id, text) VALUES (?1, ?2)"@ && written@
            == text && #[trigger] call_ensures(execute, (db, sql, id as i64, written), done)
}

/// Whether reading the row of the note `id` can come to `found`: `query_row` says what is known of
/// it.
pub closed spec fn reads(
    db: Connection,
    table: Seq<char>,
    id: usize,
    found: Result<Option<String>, rusqlite::Error>,
) -> bool {
    exists|sql: &str|
        sql@ == "SELECT text FROM "@ + table + " WHERE id = ?1"@ && #[trigger] call_ensures(
            query_row,
            (&db, sql, id as i64),
            found,
        )
}

/// Creates the tables that are not there, so that both are. It comes to what the one batch of
/// statements comes to.
pub fn create_tables(db: &mut Connection) -> (r: Result<(), StoreError>)
    ensures
        opened_at(*final(db)) == opened_at(*old(db)),
        r is Ok ==> (tables(*final(db)) matches Some(rows) ==> is_complete(rows)),
        r is Ok ==> (tables(*old(db)) matches Some(rows) ==> tables(*final(db)) == Some(
            created(rows),
        )),
        r matches Err(e) ==> (e matches StoreError::CreateTables(e) && batch_fails(*old(db), e)),
        exists|at: &mut Connection, done: Result<(), rusqlite::Error>|
            *at == *old(db) && *final(at) == *final(db) && #[trigger] creates(at, done)
                && match done {
                Ok(()) => r is Ok,
                Err(e) => r == Err::<(), StoreError>(StoreError::CreateTables(e)),
            },
{
    let done = execute_batch(db, SCHEMA);
    proof {
        let at = choose|at: &mut Connection|
            *at == *old(db) && *final(at) == *db && #[trigger] call_ensures(
                execute_batch,
                (at, SCHEMA),
                done,
            );
        assert(creates(at, done));
    }
    match done {
        Ok(()) => Ok(()),
        Err(e) => Err(StoreError::CreateTables(e)),
    }
}

/// Whether opening the database at `path` can come to `r`: `open` says what is known of it.
pub closed spec fn opens(path: &str, r: Result<Connection, rusqlite::Error>) -> bool {
    call_ensures(open, (path,), r)
}

/// Creates the tables that are not there in a database that was opened, so that both are.
pub fn prepared(opened: Result<Connection, rusqlite::Error>) -> (r: Result<Connection, StoreError>)
    ensures
        match opened {
            Err(e) => r == Err::<Connection, StoreError>(StoreError::Open(e)),
            Ok(before) => match r {
                Ok(db) => {
                    &&& opened_at(db) == opened_at(before)
                    &&& tables(db) matches Some(rows) ==> is_complete(rows)
                    &&& tables(before) matches Some(rows) ==> tables(db) == Some(created(rows))
                },
                Err(e) => e matches StoreError::CreateTables(e) && batch_fails(before, e),
            },
        },
        opened matches Ok(before) ==> exists|
            at: &mut Connection,
            done: Result<(), rusqlite::Error>,
        |
            *at == before && #[trigger] creates(at, done) && match done {
                Ok(()) => r == Ok::<Connection, StoreError>(*final(at)),
                Err(e) => r == Err::<Connection, StoreError>(StoreError::CreateTables(e)),
            },
{
    match opened {
        Ok(mut db) => match create_tables(&mut db) {
            Ok(()) => Ok(db),
            Err(e) => Err(e),
        },
        Err(e) => Err(StoreError::Open(e)),
    }
}

/// Opens the database at `path` and creates the tables that are not there, so that both are. What
/// is saved stays as it is. The tables of a database in memory are empty.
pub fn open_db(path: &str) -> (r: Result<Connection, StoreError>)
    ensures
        r matches Ok(db) ==> opened_at(db) == path@,
        r matches Ok(db) ==> (tables(db) matches Some(rows) ==> is_complete(rows)),
        r matches Ok(db) ==> exists|opened: Connection| #[trigger]
            opens(path, Ok(opened)) && (tables(opened) matches Some(rows) ==> tables(db) == Some(
                created(rows),
            )),
        path@ == IN_MEMORY@ ==> (r matches Ok(db) ==> tables(db) == Some(created(Map::empty()))),
        r matches Err(StoreError::Open(e)) ==> opens(path, Err(e)),
        r matches Err(StoreError::CreateTables(e)) ==> exists|opened: Connection| #[trigger]
            opens(path, Ok(opened)) && batch_fails(opened, e),
        r matches Err(e) ==> e is Open || e is CreateTables,
        exists|opened: Result<Connection, rusqlite::Error>| #[trigger]
            opens(path, opened) && match opened {
                Err(e) => r == Err::<Connection, StoreError>(StoreError::Open(e)),
                Ok(before) => exists|at: &mut Connection, done: Result<(), rusqlite::Error>|
                    *at == before && #[trigger] creates(at, done) && match done {
                        Ok(()) => r == Ok::<Connection, StoreError>(*final(at)),
                        Err(e) => r == Err::<Connection, StoreError>(StoreError::CreateTables(e)),
                    },
            },
{
    let opened = open(path);
    assert(opens(path, opened));
    prepared(opened)
}

/// The text of the note `id` in `table`, "notes" or "titles". `None` means that there is none; a
/// table that is not there is an error.
///
/// An error is fatal: starting blank would overwrite the saved note on the first keystroke.
pub fn load(db: &Connection, table: &'static str, id: usize) -> (r: Result<
    Option<String>,
    StoreError,
>)
    ensures
        is_table(table@) ==> (tables(*db) matches Some(rows) ==> (r matches Ok(found)
            ==> rows.contains_key(table@) && match found {
            Some(text) => stored(rows, table@, id) == Some(text@),
            None => stored(rows, table@, id) is None,
        })),
        is_table(table@) ==> (tables(*db) matches Some(rows) ==> !rows.contains_key(table@)
            ==> r is Err),
        r matches Err(e) ==> e is Read,
        table@ == "notes"@ || table@ == "titles"@ ==> (tables(*db) matches Some(rows) ==> (
        r matches Ok(found) ==> match found {
            Some(text) => rows[table@].contains_key(id as i64) && rows[table@][id as i64] == text@,
            None => !rows[table@].contains_key(id as i64),
        })),
        match r {
            Ok(found) => reads(*db, table@, id, Ok(found)),
            Err(StoreError::Read(e)) => reads(*db, table@, id, Err(e)),
            Err(_) => false,
        },
{
    let statement = select_sql(table);
    let found = query_row(db, statement.as_str(), id as i64);
    assert(reads(*db, table@, id, found));
    match found {
        Ok(found) => Ok(found),
        Err(e) => Err(StoreError::Read(e)),
    }
}

/// Saves the text of the note `id` in `table`, "notes" or "titles". A save that fails changes
/// nothing, and one into a table that is not there does fail.
pub fn save(db: &mut Connection, table: &'static str, id: usize, text: &str) -> (r: Result<
    (),
    StoreError,
>)
    ensures
        opened_at(*final(db)) == opened_at(*old(db)),
        r is Ok && is_table(table@) ==> (tables(*old(db)) matches Some(rows) ==> tables(*final(db))
            == Some(saved(rows, table@, id, text@))),
        is_table(table@) ==> (tables(*old(db)) matches Some(rows) ==> !rows.contains_key(table@)
            ==> r is Err),
        r is Err && is_table(table@) ==> tables(*final(db)) == tables(*old(db)),
        r matches Err(e) ==> e is Save,
        r is Ok && (table@ == "notes"@ || table@ == "titles"@) ==> (tables(
            *old(db),
        ) matches Some(rows) ==> tables(*final(db)) == Some(
            rows.insert(table@, rows[table@].insert(id as i64, text@)),
        )),
        exists|at: &mut Connection, done: Result<usize, rusqlite::Error>|
            *at == *old(db) && *final(at) == *final(db) && #[trigger] writes(
                at,
                table@,
                id,
                text@,
                done,
            ) && match done {
                Ok(_) => r is Ok,
                Err(e) => r == Err::<(), StoreError>(StoreError::Save(e)),
            },
{
    let statement = replace_sql(table);
    let sql = statement.as_str();
    let done = execute(db, sql, id as i64, text);
    proof {
        let at = choose|at: &mut Connection|
            *at == *old(db) && *final(at) == *db && #[trigger] call_ensures(
                execute,
                (at, sql, id as i64, text),
                done,
            );
        assert(writes(at, table@, id, text@, done));
    }
    match done {
        Ok(_) => Ok(()),
        Err(e) => Err(StoreError::Save(e)),
    }
}

/// What to log when the text of a note could not be saved. The next edit tries again.
pub fn save_failure(table: &str, id: usize, reason: &str) -> (r: String)
    ensures
        r@ == "can't save note"@ + decimal(id as nat) + " ("@ + table@ + "): "@ + reason@,
{
    "can't save note".to_owned().concat(to_decimal(id).as_str()).concat(" (").concat(table).concat(
        "): ",
    ).concat(reason)
}

/// Each note has its own row.
pub proof fn row_id_is_injective(id: usize, other: usize)
    requires
        row_id(id) == row_id(other),
    ensures
        id == other,
{
    assert(id as i64 == other as i64 ==> id == other) by (bit_vector);
}

/// What was saved last is what is loaded, whatever was there before. No other note, and no other
/// table, changes.
pub proof fn saved_is_loaded(
    rows: Tables,
    table: Seq<char>,
    id: usize,
    text: Seq<char>,
    other_table: Seq<char>,
    other_id: usize,
)
    ensures
        stored(saved(rows, table, id, text), table, id) == Some(text),
        (other_table, other_id) != (table, id) ==> stored(
            saved(rows, table, id, text),
            other_table,
            other_id,
        ) == stored(rows, other_table, other_id),
        saved(rows, table, id, text).dom() == rows.dom().insert(table),
{
    if other_table == table && row_id(other_id) == row_id(id) {
        row_id_is_injective(other_id, id);
    }
}

/// Of two saves of a note only the second counts.
pub proof fn last_save_wins(
    rows: Tables,
    table: Seq<char>,
    id: usize,
    first: Seq<char>,
    second: Seq<char>,
)
    ensures
        saved(saved(rows, table, id, first), table, id, second) == saved(rows, table, id, second),
{
    let twice = saved(saved(rows, table, id, first), table, id, second);
    assert(twice[table] =~= saved(rows, table, id, second)[table]);
    assert(twice =~= saved(rows, table, id, second));
}

/// Creating the tables loses nothing: a table that is there keeps its rows, and a new one is empty.
pub proof fn creating_tables_keeps_rows(rows: Tables, table: Seq<char>, id: usize)
    ensures
        rows.contains_key(table) ==> created(rows)[table] == rows[table],
        is_table(table) ==> created(rows).contains_key(table),
        is_table(table) && !rows.contains_key(table) ==> stored(created(rows), table, id) is None,
        is_complete(created(rows)),
        created(created(rows)) == created(rows),
{
}

/// Creating the tables adds those of the notes' texts and titles, and no others. A new one is
/// empty.
pub proof fn no_other_tables_are_created(rows: Tables, table: Seq<char>)
    ensures
        created(rows).contains_key(table) <==> rows.contains_key(table) || table == "notes"@
            || table == "titles"@,
        created(rows).contains_key(table) && !rows.contains_key(table) ==> created(rows)[table]
            == Map::<i64, Seq<char>>::empty(),
{
}

/// A note is saved in the row of its id. No other row of the table changes, and no other table.
pub proof fn one_row_is_saved(
    rows: Tables,
    table: Seq<char>,
    id: usize,
    text: Seq<char>,
    other: Seq<char>,
    row: i64,
)
    ensures
        ({
            let after = saved(rows, table, id, text);
            &&& after.contains_key(other) <==> rows.contains_key(other) || other == table
            &&& other != table ==> after[other] == rows[other]
            &&& after[table].contains_key(row) <==> rows[table].contains_key(row) || row
                == id as i64
            &&& row != id as i64 ==> after[table][row] == rows[table][row]
            &&& after[table][id as i64] == text
        }),
{
}

/// What is loaded for a note is the text in the row of its id, and nothing exactly if there is no
/// such row.
pub proof fn the_row_of_the_id_is_loaded(rows: Tables, table: Seq<char>, id: usize)
    ensures
        match stored(rows, table, id) {
            Some(text) => rows[table].contains_key(id as i64) && rows[table][id as i64] == text,
            None => !rows[table].contains_key(id as i64),
        },
{
}

/// Writing a note puts its text into one row of its table, or, if it fails, changes nothing.
pub proof fn one_row_is_written(
    db: &mut Connection,
    table: Seq<char>,
    id: usize,
    text: Seq<char>,
    done: Result<usize, rusqlite::Error>,
)
    requires
        writes(db, table, id, text, done),
        table == "notes"@ || table == "titles"@,
    ensures
        opened_at(*final(db)) == opened_at(*old(db)),
        tables(*old(db)) matches Some(rows) ==> match done {
            Ok(_) => rows.contains_key(table) && tables(*final(db)) == Some(
                rows.insert(table, rows[table].insert(id as i64, text)),
            ),
            Err(_) => tables(*final(db)) == tables(*old(db)),
        },
{
    assert(replace_statement(table) == "INSERT OR REPLACE INTO "@ + table
        + " (id, text) VALUES (?1, ?2)"@);
}

/// Reading a note finds the text in one row of its table, and nothing exactly if there is no such
/// row.
pub proof fn one_row_is_read(
    db: Connection,
    table: Seq<char>,
    id: usize,
    found: Option<String>,
)
    requires
        reads(db, table, id, Ok(found)),
        table == "notes"@ || table == "titles"@,
    ensures
        tables(db) matches Some(rows) ==> rows.contains_key(table) && match found {
            Some(text) => rows[table].contains_key(id as i64) && rows[table][id as i64] == text@,
            None => !rows[table].contains_key(id as i64),
        },
{
    assert(select_statement(table) == "SELECT text FROM "@ + table + " WHERE id = ?1"@);
}

/// A save fails only if its one statement does: the error is one that writing this text into the
/// note's row of this database can come to. So a save is done whenever the statement is.
pub proof fn a_save_fails_as_its_statement(
    db: &mut Connection,
    table: &'static str,
    id: usize,
    text: &str,
    r: Result<(), StoreError>,
)
    requires
        call_ensures(save, (db, table, id, text), r),
    ensures
        r matches Err(error) ==> exists|at: &mut Connection, e: rusqlite::Error|
            *at == *old(db) && error == StoreError::Save(e) && #[trigger] writes(
                at,
                table@,
                id,
                text@,
                Err(e),
            ),
        (forall|at: &mut Connection, done: Result<usize, rusqlite::Error>|
            *at == *old(db) && #[trigger] writes(at, table@, id, text@, done) ==> done is Ok)
            ==> r is Ok,
{
}

/// A load fails only if its one statement does: the error is one that reading the note's row of
/// this database can come to. So a load is done whenever the statement is, and then it gives what
/// the statement found.
pub proof fn a_load_fails_as_its_statement(
    db: &Connection,
    table: &'static str,
    id: usize,
    r: Result<Option<String>, StoreError>,
)
    requires
        call_ensures(load, (db, table, id), r),
    ensures
        r matches Err(error) ==> exists|e: rusqlite::Error|
            error == StoreError::Read(e) && #[trigger] reads(*db, table@, id, Err(e)),
        r matches Ok(found) ==> reads(*db, table@, id, Ok(found)),
        (forall|found: Result<Option<String>, rusqlite::Error>| #[trigger]
            reads(*db, table@, id, found) ==> found is Ok) ==> r is Ok,
{
}

} // verus!
