use anime_ingest::mapper::{map_entries, map_entry};
use anime_ingest::model::{AnimeEntry, AnimeSeason};
use anime_ingest::store::{create_table_statement, insert_statement, row_binds, BindValue, MemStore};

fn entry(title: &str, year: Option<i32>) -> AnimeEntry {
    AnimeEntry {
        sources: vec![String::from("https://example.org/a/1")],
        title: String::from(title),
        kind: String::from("TV"),
        episodes: 26,
        status: String::from("FINISHED"),
        season: AnimeSeason { season: String::from("SPRING"), year },
        picture: String::from("p.jpg"),
        thumbnail: String::from("t.jpg"),
        synonyms: vec![String::from("other name")],
        related_anime: vec![],
        tags: vec![String::from("action")],
    }
}

#[test]
fn year_present_maps_verbatim() {
    let row = map_entry(entry("Cowboy Bebop", Some(1998)));
    assert_eq!(row.year, 1998);
}

#[test]
fn year_absent_maps_to_zero() {
    let row = map_entry(entry("Cowboy Bebop", None));
    assert_eq!(row.year, 0);
}

#[test]
fn fields_copied_verbatim() {
    let row = map_entry(entry("Cowboy Bebop", Some(1998)));
    assert_eq!(row.title, "Cowboy Bebop");
    assert_eq!(row.kind, "TV");
    assert_eq!(row.episodes, 26);
    assert_eq!(row.status, "FINISHED");
    assert_eq!(row.season, "SPRING");
    assert_eq!(row.picture, "p.jpg");
    assert_eq!(row.thumbnail, "t.jpg");
}

#[test]
fn empty_strings_pass_through() {
    let mut e = entry("", Some(0));
    e.kind = String::new();
    e.status = String::new();
    e.season.season = String::new();
    e.picture = String::new();
    e.thumbnail = String::new();
    let row = map_entry(e);
    assert_eq!(row.title, "");
    assert_eq!(row.kind, "");
    assert_eq!(row.status, "");
    assert_eq!(row.season, "");
    assert_eq!(row.picture, "");
    assert_eq!(row.thumbnail, "");
    assert_eq!(row.year, 0);
}

#[test]
fn map_entries_keeps_order_and_count() {
    let rows = map_entries(vec![entry("A", Some(1)), entry("B", None), entry("C", Some(3))]);
    assert_eq!(rows.len(), 3);
    assert_eq!(rows[0].title, "A");
    assert_eq!(rows[1].title, "B");
    assert_eq!(rows[2].title, "C");
    assert_eq!(rows[0].year, 1);
    assert_eq!(rows[1].year, 0);
    assert_eq!(rows[2].year, 3);
}

#[test]
fn create_table_statement_text() {
    let s = create_table_statement();
    assert_eq!(
        s,
        "CREATE TABLE IF NOT EXISTS anime ( id INTEGER PRIMARY KEY AUTOINCREMENT, title TEXT NOT NULL, kind TEXT NOT NULL, episodes INTEGER NOT NULL, status TEXT NOT NULL, season TEXT NOT NULL, year INTEGER NOT NULL, picture TEXT NOT NULL, thumbnail TEXT NOT NULL, created_at DATETIME DEFAULT CURRENT_TIMESTAMP )"
    );
}

#[test]
fn insert_statement_text() {
    let s = insert_statement();
    assert_eq!(
        s,
        "INSERT INTO anime (title, kind, episodes, status, season, year, picture, thumbnail) VALUES (?1,?2,?3,?4,?5,?6,?7,?8)"
    );
}

#[test]
fn bind_order_is_exact() {
    let row = map_entry(entry("Cowboy Bebop", Some(1998)));
    let binds = row_binds(row);
    assert_eq!(binds.len(), 8);
    assert_eq!(binds[0], BindValue::Text(String::from("Cowboy Bebop")));
    assert_eq!(binds[1], BindValue::Text(String::from("TV")));
    assert_eq!(binds[2], BindValue::Int(26));
    assert_eq!(binds[3], BindValue::Text(String::from("FINISHED")));
    assert_eq!(binds[4], BindValue::Text(String::from("SPRING")));
    assert_eq!(binds[5], BindValue::Int(1998));
    assert_eq!(binds[6], BindValue::Text(String::from("p.jpg")));
    assert_eq!(binds[7], BindValue::Text(String::from("t.jpg")));
}

#[test]
fn schema_creation_is_idempotent() {
    let mut store = MemStore::new();
    assert!(!store.table_exists);
    store.ensure_table();
    assert!(store.table_exists);
    store.insert_row(map_entry(entry("A", Some(1))));
    let before = store.rows.clone();
    store.ensure_table();
    assert!(store.table_exists);
    assert_eq!(store.rows, before);
}
