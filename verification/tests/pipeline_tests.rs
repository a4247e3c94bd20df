use anime_ingest::loader::{ingest, run, start, Action, FailCause, Loader, Stage};
use anime_ingest::model::{AnimeDatabase, AnimeEntry, AnimeSeason, License};
use anime_ingest::store::MemStore;

fn scenario_text() -> String {
    String::from(
        "{\"license\":{\"name\":\"X\",\"url\":\"Y\"},\"repository\":\"R\",\"lastUpdate\":\"2024-01-01\",\"data\":[{\"sources\":[],\"title\":\"Cowboy Bebop\",\"type\":\"TV\",\"episodes\":26,\"status\":\"FINISHED\",\"animeSeason\":{\"season\":\"SPRING\",\"year\":1998},\"picture\":\"p.jpg\",\"thumbnail\":\"t.jpg\",\"synonyms\":[],\"relatedAnime\":[],\"tags\":[]}]}",
    )
}

fn entry(title: &str, year: Option<i32>) -> AnimeEntry {
    AnimeEntry {
        sources: vec![],
        title: String::from(title),
        kind: String::from("TV"),
        episodes: 12,
        status: String::from("ONGOING"),
        season: AnimeSeason { season: String::from("FALL"), year },
        picture: String::from("p.jpg"),
        thumbnail: String::from("t.jpg"),
        synonyms: vec![],
        related_anime: vec![],
        tags: vec![],
    }
}

fn document(entries: Vec<AnimeEntry>) -> AnimeDatabase {
    AnimeDatabase {
        license: License { name: String::from("L"), url: String::from("U") },
        repository: String::from("repo"),
        last_update: String::from("2024-01-01"),
        data: entries,
    }
}

#[test]
fn scenario_run_inserts_exact_row() {
    let mut store = MemStore::new();
    let n = run(&scenario_text(), &mut store).unwrap();
    assert_eq!(n, 1);
    assert!(store.table_exists);
    assert_eq!(store.rows.len(), 1);
    let row = &store.rows[0];
    assert_eq!(row.title, "Cowboy Bebop");
    assert_eq!(row.kind, "TV");
    assert_eq!(row.episodes, 26);
    assert_eq!(row.status, "FINISHED");
    assert_eq!(row.season, "SPRING");
    assert_eq!(row.year, 1998);
    assert_eq!(row.picture, "p.jpg");
    assert_eq!(row.thumbnail, "t.jpg");
}

#[test]
fn scenario_missing_year_inserts_zero() {
    let text = scenario_text().replace(",\"year\":1998", "");
    let mut store = MemStore::new();
    let n = run(&text, &mut store).unwrap();
    assert_eq!(n, 1);
    assert_eq!(store.rows[0].year, 0);
}

#[test]
fn malformed_input_leaves_store_untouched() {
    let text = scenario_text().replace("\"title\":\"Cowboy Bebop\",", "");
    let mut store = MemStore::new();
    store.ensure_table();
    let before = store.clone();
    let r = run(&text, &mut store);
    assert!(r.is_err());
    assert_eq!(store, before);
    assert!(store.table_exists);
    assert_eq!(store.rows.len(), 0);
}

#[test]
fn row_count_grows_by_entry_count() {
    let mut store = MemStore::new();
    let n = ingest(document(vec![entry("A", Some(1)), entry("B", None)]), &mut store);
    assert_eq!(n, 2);
    assert_eq!(store.rows.len(), 2);
    assert_eq!(store.rows[0].title, "A");
    assert_eq!(store.rows[1].title, "B");
}

#[test]
fn rerun_appends_duplicate_rows() {
    let mut store = MemStore::new();
    ingest(document(vec![entry("A", Some(1))]), &mut store);
    ingest(document(vec![entry("A", Some(1))]), &mut store);
    assert_eq!(store.rows.len(), 2);
    assert_eq!(store.rows[0], store.rows[1]);
}

#[test]
fn machine_walks_through_a_full_run() {
    let mut l = Loader::from_document(document(vec![entry("A", Some(1)), entry("B", None)]));
    assert_eq!(l.stage, Stage::Parsed);
    assert_eq!(l.next_action(), Action::EnsureSchema);
    l.schema_done(true);
    assert_eq!(l.stage, Stage::SchemaReady);
    assert_eq!(l.next_action(), Action::Insert);
    assert_eq!(l.current_row().title, "A");
    l.insert_done(true);
    assert_eq!(l.stage, Stage::Inserting);
    assert_eq!(l.next_action(), Action::Insert);
    assert_eq!(l.current_row().title, "B");
    l.insert_done(true);
    assert_eq!(l.stage, Stage::Done);
    assert_eq!(l.next_action(), Action::Finish);
}

#[test]
fn machine_aborts_on_schema_failure() {
    let mut l = Loader::from_document(document(vec![entry("A", Some(1))]));
    l.schema_done(false);
    assert_eq!(l.stage, Stage::Failed);
    assert_eq!(l.cause, Some(FailCause::Schema));
    assert_eq!(l.next_action(), Action::Stop);
}

#[test]
fn machine_aborts_on_insert_failure() {
    let mut l = Loader::from_document(document(vec![entry("A", Some(1)), entry("B", None)]));
    l.schema_done(true);
    l.insert_done(true);
    l.insert_done(false);
    assert_eq!(l.stage, Stage::Failed);
    assert_eq!(l.cause, Some(FailCause::Insert));
    assert_eq!(l.next, 1);
}

#[test]
fn start_builds_machine_from_text() {
    let l = start(&scenario_text()).unwrap();
    assert_eq!(l.stage, Stage::Parsed);
    assert_eq!(l.rows.len(), 1);
    assert_eq!(l.rows[0].title, "Cowboy Bebop");
    let bad = scenario_text().replace("\"status\":\"FINISHED\",", "");
    assert!(start(&bad).is_err());
}

#[test]
fn empty_document_inserts_nothing() {
    let mut store = MemStore::new();
    let n = ingest(document(vec![]), &mut store);
    assert_eq!(n, 0);
    assert!(store.table_exists);
    assert_eq!(store.rows.len(), 0);
}
