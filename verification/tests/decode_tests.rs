use anime_ingest::decode::{decode_document, DecodeError};

fn scenario_text() -> String {
    String::from(
        "{\"license\":{\"name\":\"X\",\"url\":\"Y\"},\"repository\":\"R\",\"lastUpdate\":\"2024-01-01\",\"data\":[{\"sources\":[],\"title\":\"Cowboy Bebop\",\"type\":\"TV\",\"episodes\":26,\"status\":\"FINISHED\",\"animeSeason\":{\"season\":\"SPRING\",\"year\":1998},\"picture\":\"p.jpg\",\"thumbnail\":\"t.jpg\",\"synonyms\":[],\"relatedAnime\":[],\"tags\":[]}]}",
    )
}

#[test]
fn decodes_scenario_document() {
    let doc = decode_document(&scenario_text()).unwrap();
    assert_eq!(doc.license.name, "X");
    assert_eq!(doc.license.url, "Y");
    assert_eq!(doc.repository, "R");
    assert_eq!(doc.last_update, "2024-01-01");
    assert_eq!(doc.data.len(), 1);
    let e = &doc.data[0];
    assert_eq!(e.title, "Cowboy Bebop");
    assert_eq!(e.kind, "TV");
    assert_eq!(e.episodes, 26);
    assert_eq!(e.status, "FINISHED");
    assert_eq!(e.season.season, "SPRING");
    assert_eq!(e.season.year, Some(1998));
    assert_eq!(e.picture, "p.jpg");
    assert_eq!(e.thumbnail, "t.jpg");
    assert!(e.sources.is_empty());
    assert!(e.synonyms.is_empty());
    assert!(e.related_anime.is_empty());
    assert!(e.tags.is_empty());
}

#[test]
fn missing_title_is_refused() {
    let text = scenario_text().replace("\"title\":\"Cowboy Bebop\",", "");
    let err = decode_document(&text).unwrap_err();
    assert_eq!(err, DecodeError::MissingField("title"));
}

#[test]
fn missing_year_key_gives_none() {
    let text = scenario_text().replace(",\"year\":1998", "");
    let doc = decode_document(&text).unwrap();
    assert_eq!(doc.data[0].season.year, None);
}

#[test]
fn null_year_gives_none() {
    let text = scenario_text().replace("\"year\":1998", "\"year\":null");
    let doc = decode_document(&text).unwrap();
    assert_eq!(doc.data[0].season.year, None);
}

#[test]
fn truncated_text_is_refused() {
    let text = scenario_text();
    let cut = &text[..text.len() - 3];
    assert!(decode_document(cut).is_err());
}

#[test]
fn wrong_type_for_episodes_is_refused() {
    let text = scenario_text().replace("\"episodes\":26", "\"episodes\":\"26\"");
    assert!(decode_document(&text).is_err());
}

#[test]
fn fractional_episodes_is_refused() {
    let text = scenario_text().replace("\"episodes\":26", "\"episodes\":26.5");
    assert!(decode_document(&text).is_err());
}

#[test]
fn out_of_range_episodes_is_refused() {
    let text = scenario_text().replace("\"episodes\":26", "\"episodes\":3000000000");
    let err = decode_document(&text).unwrap_err();
    assert!(matches!(err, DecodeError::OutOfRange(_)));
}

#[test]
fn negative_year_is_kept() {
    let text = scenario_text().replace("\"year\":1998", "\"year\":-5");
    let doc = decode_document(&text).unwrap();
    assert_eq!(doc.data[0].season.year, Some(-5));
}

#[test]
fn leading_zero_number_is_refused() {
    let text = scenario_text().replace("\"episodes\":26", "\"episodes\":007");
    assert!(decode_document(&text).is_err());
}

#[test]
fn duplicate_key_is_refused() {
    let text = scenario_text().replace(
        "\"repository\":\"R\",",
        "\"repository\":\"R\",\"repository\":\"R2\",",
    );
    assert!(decode_document(&text).is_err());
}

#[test]
fn unknown_members_are_skipped() {
    let text = scenario_text().replace(
        "\"repository\":\"R\",",
        "\"repository\":\"R\",\"extra\":{\"deep\":[1,2,{\"x\":\"y\"}],\"f\":3.25,\"b\":true,\"n\":null},",
    );
    let doc = decode_document(&text).unwrap();
    assert_eq!(doc.repository, "R");
    assert_eq!(doc.data.len(), 1);
}

#[test]
fn escapes_are_decoded() {
    let text = scenario_text().replace(
        "\"title\":\"Cowboy Bebop\"",
        "\"title\":\"A\\\"B\\\\C\\nD\\u0041\\u00e9\\ud83d\\ude00\"",
    );
    let doc = decode_document(&text).unwrap();
    assert_eq!(doc.data[0].title, "A\"B\\C\nDA\u{e9}\u{1f600}");
}

#[test]
fn unpaired_surrogate_is_refused() {
    let text = scenario_text().replace(
        "\"title\":\"Cowboy Bebop\"",
        "\"title\":\"bad\\ud83dx\"",
    );
    assert!(decode_document(&text).is_err());
}

#[test]
fn control_character_in_string_is_refused() {
    let text = scenario_text().replace("\"repository\":\"R\"", "\"repository\":\"a\u{0001}b\"");
    assert!(decode_document(&text).is_err());
}

#[test]
fn surrounding_whitespace_is_accepted() {
    let text = format!("  \n\t{} \r\n", scenario_text());
    assert!(decode_document(&text).is_ok());
}

#[test]
fn trailing_garbage_is_refused() {
    let text = format!("{}x", scenario_text());
    assert!(decode_document(&text).is_err());
}

#[test]
fn empty_data_array_is_accepted() {
    let text = String::from(
        "{\"license\":{\"name\":\"X\",\"url\":\"Y\"},\"repository\":\"R\",\"lastUpdate\":\"2024-01-01\",\"data\":[]}",
    );
    let doc = decode_document(&text).unwrap();
    assert_eq!(doc.data.len(), 0);
}

#[test]
fn trailing_comma_is_refused() {
    let text = scenario_text().replace("\"tags\":[]}", "\"tags\":[],}");
    assert!(decode_document(&text).is_err());
}

#[test]
fn agrees_with_reference_json_parser() {
    let text = scenario_text();
    let doc = decode_document(&text).unwrap();
    let val: serde_json::Value = serde_json::from_str(&text).unwrap();
    assert_eq!(
        doc.data[0].title.as_str(),
        val.get("data").unwrap()[0].get("title").unwrap().as_str().unwrap()
    );
    assert_eq!(
        i64::from(doc.data[0].episodes),
        val.get("data").unwrap()[0].get("episodes").unwrap().as_i64().unwrap()
    );
    assert_eq!(
        doc.repository.as_str(),
        val.get("repository").unwrap().as_str().unwrap()
    );
}

#[test]
fn mismatched_brackets_in_skipped_member_are_refused() {
    let text = scenario_text().replace(
        "\"repository\":\"R\",",
        "\"repository\":\"R\",\"junk\":[},",
    );
    assert!(decode_document(&text).is_err());
}

#[test]
fn junk_word_in_skipped_member_is_refused() {
    let text = scenario_text().replace(
        "\"repository\":\"R\",",
        "\"repository\":\"R\",\"junk\":[hello],",
    );
    assert!(decode_document(&text).is_err());
}

#[test]
fn bad_exponent_in_skipped_member_is_refused() {
    let text = scenario_text().replace(
        "\"repository\":\"R\",",
        "\"repository\":\"R\",\"junk\":1e++,",
    );
    assert!(decode_document(&text).is_err());
}

#[test]
fn well_formed_float_in_skipped_member_is_accepted() {
    let text = scenario_text().replace(
        "\"repository\":\"R\",",
        "\"repository\":\"R\",\"junk\":[-1.25e+10,0.5,2E3],",
    );
    assert!(decode_document(&text).is_ok());
}

#[test]
fn missing_url_is_named() {
    let text = scenario_text().replace("\"url\":\"Y\"", "\"urn\":\"Y\"");
    let err = decode_document(&text).unwrap_err();
    assert_eq!(err, DecodeError::MissingField("url"));
}

#[test]
fn missing_data_is_named() {
    let text = String::from(
        "{\"license\":{\"name\":\"X\",\"url\":\"Y\"},\"repository\":\"R\",\"lastUpdate\":\"2024-01-01\"}",
    );
    let err = decode_document(&text).unwrap_err();
    assert_eq!(err, DecodeError::MissingField("data"));
}
