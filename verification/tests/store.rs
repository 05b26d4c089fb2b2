use focus::store::{
    create_tables, load, open_db, prepared, replace_sql, save, save_failure, select_sql, StoreError,
};
use focus::note::shown;
use rusqlite::{Connection, OpenFlags};

#[test]
fn notes_round_trip() {
    let mut db = open_db(":memory:").unwrap();
    assert_eq!(load(&db, "notes", 0).unwrap(), None);
    save(&mut db, "notes", 0, "first").unwrap();
    save(&mut db, "notes", 0, "second").unwrap();
    save(&mut db, "notes", 1, "").unwrap();
    save(&mut db, "titles", 0, "title").unwrap();
    assert_eq!(load(&db, "notes", 0).unwrap().as_deref(), Some("second"));
    assert_eq!(load(&db, "notes", 1).unwrap().as_deref(), Some(""));
    assert_eq!(load(&db, "titles", 0).unwrap().as_deref(), Some("title"));
    assert_eq!(load(&db, "titles", 1).unwrap(), None);
}

#[test]
fn any_text_and_any_note_round_trip() {
    let mut db = open_db(":memory:").unwrap();
    let texts = ["it's \"quoted\"; DROP TABLE notes;--", "a\0b", "\u{1f4dd}\n\r\t", " 12 ", "1.0"];
    let ids = [0, 3, usize::MAX, usize::MAX / 2, usize::MAX / 2 + 1];
    for (id, text) in ids.into_iter().zip(texts) {
        save(&mut db, "notes", id, text).unwrap();
    }
    for (id, text) in ids.into_iter().zip(texts) {
        assert_eq!(load(&db, "notes", id).unwrap().as_deref(), Some(text));
        assert_eq!(load(&db, "titles", id).unwrap(), None);
    }
}

#[test]
fn creating_tables_keeps_rows() {
    let mut db = open_db(":memory:").unwrap();
    save(&mut db, "notes", 2, "kept").unwrap();
    create_tables(&mut db).unwrap();
    assert_eq!(load(&db, "notes", 2).unwrap().as_deref(), Some("kept"));
}

/// A database from before the titles came.
#[test]
fn old_database_gets_titles() {
    let mut db = Connection::open_in_memory().unwrap();
    db.execute_batch("CREATE TABLE notes (id INTEGER PRIMARY KEY, text TEXT NOT NULL)").unwrap();
    save(&mut db, "notes", 0, "old").unwrap();
    assert!(matches!(load(&db, "titles", 0), Err(StoreError::Read(_))));
    create_tables(&mut db).unwrap();
    assert_eq!(load(&db, "notes", 0).unwrap().as_deref(), Some("old"));
    assert_eq!(load(&db, "titles", 0).unwrap(), None);
}

#[test]
fn failures_are_told_apart() {
    assert!(matches!(open_db("/no/such/directory/notes.sqlite"), Err(StoreError::Open(_))));
    assert!(matches!(open_db("a\0b"), Err(StoreError::Open(_))));
    let mut db = Connection::open_in_memory().unwrap();
    assert!(matches!(load(&db, "notes", 0), Err(StoreError::Read(_))));
    assert!(matches!(save(&mut db, "notes", 0, "x"), Err(StoreError::Save(_))));
    let mut db =
        Connection::open_with_flags(":memory:", OpenFlags::SQLITE_OPEN_READ_ONLY).unwrap();
    db.execute_batch("PRAGMA query_only = ON").unwrap();
    assert!(matches!(create_tables(&mut db), Err(StoreError::CreateTables(_))));
}

/// The tables of a database, by name.
fn names(db: &Connection) -> Vec<String> {
    let mut statement =
        db.prepare("SELECT name FROM sqlite_master WHERE type = 'table' ORDER BY name").unwrap();
    let names = statement.query_map([], |row| row.get(0)).unwrap();
    names.map(|name| name.unwrap()).collect()
}

#[test]
fn missing_table_is_an_error() {
    let mut db = Connection::open_in_memory().unwrap();
    assert!(load(&db, "notes", 0).is_err());
    let reason = match save(&mut db, "notes", 3, "x") {
        Err(StoreError::Save(e)) => e.to_string(),
        other => panic!("{other:?}"),
    };
    assert!(save_failure("notes", 3, &reason).starts_with("can't save note3 (notes): "));
    assert!(names(&db).is_empty());
    create_tables(&mut db).unwrap();
    assert_eq!(names(&db), ["notes", "titles"]);
}

#[test]
fn failed_save_changes_nothing() {
    let mut db = open_db(":memory:").unwrap();
    save(&mut db, "notes", 0, "kept").unwrap();
    db.execute_batch("PRAGMA query_only = ON").unwrap();
    assert!(matches!(save(&mut db, "notes", 0, "lost"), Err(StoreError::Save(_))));
    assert_eq!(load(&db, "notes", 0).unwrap().as_deref(), Some("kept"));
}

#[test]
fn open_db_opens_the_path() {
    // A shared database in memory, which lives as long as a connection to it.
    let path = "file:focus-open-db?mode=memory&cache=shared";
    let mut one = open_db(path).unwrap();
    let two = open_db(path).unwrap();
    save(&mut one, "notes", 1, "seen").unwrap();
    assert_eq!(load(&two, "notes", 1).unwrap().as_deref(), Some("seen"));
    assert_eq!(names(&two), ["notes", "titles"]);
    assert_eq!(load(&open_db(":memory:").unwrap(), "notes", 1).unwrap(), None);
}

#[test]
fn opening_keeps_what_is_saved() {
    let path = "file:focus-kept?mode=memory&cache=shared";
    let mut one = open_db(path).unwrap();
    save(&mut one, "notes", 0, "text").unwrap();
    save(&mut one, "titles", 0, "title").unwrap();
    let two = open_db(path).unwrap();
    assert_eq!(shown(&two, 0).unwrap(), (Some("text".to_string()), "title".to_string()));
}

#[test]
fn failures_to_open_and_to_create_differ() {
    let failed = Connection::open("/no/such/directory/notes.sqlite");
    let reason = failed.as_ref().unwrap_err().to_string();
    match prepared(failed) {
        Err(StoreError::Open(e)) => assert_eq!(e.to_string(), reason),
        other => panic!("{other:?}"),
    }
    let db = Connection::open_in_memory().unwrap();
    db.execute_batch("PRAGMA query_only = ON").unwrap();
    assert!(matches!(prepared(Ok(db)), Err(StoreError::CreateTables(_))));
    assert_eq!(names(&prepared(Connection::open_in_memory()).unwrap()), ["notes", "titles"]);
}

#[test]
fn note_shows_its_text_and_title() {
    let mut db = open_db(":memory:").unwrap();
    assert_eq!(shown(&db, 0).unwrap(), (None, String::new()));
    save(&mut db, "notes", 0, "text").unwrap();
    assert_eq!(shown(&db, 0).unwrap(), (Some("text".to_string()), String::new()));
    save(&mut db, "titles", 0, "title").unwrap();
    assert_eq!(shown(&db, 0).unwrap(), (Some("text".to_string()), "title".to_string()));
    assert_eq!(shown(&db, 1).unwrap(), (None, String::new()));
    db.execute_batch("DROP TABLE titles").unwrap();
    assert!(matches!(shown(&db, 0), Err(StoreError::Read(_))));
}

#[test]
fn statements() {
    assert_eq!(select_sql("titles"), "SELECT text FROM titles WHERE id = ?1");
    assert_eq!(
        replace_sql("notes"),
        "INSERT OR REPLACE INTO notes (id, text) VALUES (?1, ?2)"
    );
    assert_eq!(
        save_failure("notes", 10, "disk I/O error"),
        "can't save note10 (notes): disk I/O error"
    );
}
