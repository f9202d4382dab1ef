use jankenoboe::models::{
    create_data_fields, get_fields, parse_fields, search_columns, search_fields,
    update_data_fields, validate_fields, validate_table,
};
use jankenoboe::table_config::get;

#[test]
fn test_get_fields_invalid_table() {
    assert_eq!(
        get_fields("bad").unwrap_err().message(),
        "Invalid table for get: bad"
    );
}

#[test]
fn test_search_columns_invalid_table() {
    assert_eq!(
        search_columns("bad").unwrap_err().message(),
        "Invalid table for search with columns: bad"
    );
}

#[test]
fn test_search_fields_invalid_table() {
    assert_eq!(
        search_fields("bad").unwrap_err().message(),
        "Invalid table for search with fields: bad"
    );
}

#[test]
fn test_create_data_fields_invalid_table() {
    assert_eq!(
        create_data_fields("bad").unwrap_err().message(),
        "Invalid table for create: bad"
    );
}

#[test]
fn test_update_data_fields_invalid_table() {
    assert_eq!(
        update_data_fields("bad").unwrap_err().message(),
        "Invalid table for update: bad"
    );
}

#[test]
fn test_get_fields_all_tables() {
    assert!(get_fields("artist").unwrap().contains(&"name"));
    assert!(get_fields("show").unwrap().contains(&"vintage"));
    assert!(get_fields("song").unwrap().contains(&"artist_id"));
    assert!(get_fields("play_history").unwrap().contains(&"media_url"));
    assert!(get_fields("learning").unwrap().contains(&"level"));
}

#[test]
fn test_search_columns_all_tables() {
    assert!(search_columns("artist").unwrap().contains(&"name"));
    assert!(search_columns("show").unwrap().contains(&"vintage"));
    assert!(search_columns("song").unwrap().contains(&"artist_id"));
    assert!(search_columns("play_history").unwrap().contains(&"song_id"));
    assert!(search_columns("rel_show_song").unwrap().contains(&"show_id"));
}

#[test]
fn test_search_fields_all_tables() {
    assert!(search_fields("artist").unwrap().contains(&"name"));
    assert!(search_fields("show").unwrap().contains(&"vintage"));
    assert!(search_fields("song").unwrap().contains(&"artist_id"));
    assert!(search_fields("play_history").unwrap().contains(&"media_url"));
    assert!(search_fields("rel_show_song").unwrap().contains(&"media_url"));
}

#[test]
fn test_create_data_fields_all_tables() {
    assert!(create_data_fields("artist").unwrap().contains(&"name"));
    assert!(create_data_fields("show").unwrap().contains(&"vintage"));
    assert!(create_data_fields("song").unwrap().contains(&"artist_id"));
    assert!(create_data_fields("play_history").unwrap().contains(&"media_url"));
    assert!(create_data_fields("learning").unwrap().contains(&"song_id"));
    assert!(create_data_fields("rel_show_song").unwrap().contains(&"show_id"));
}

#[test]
fn test_update_data_fields_all_tables() {
    assert!(update_data_fields("artist").unwrap().contains(&"status"));
    assert!(update_data_fields("show").unwrap().contains(&"status"));
    assert!(update_data_fields("song").unwrap().contains(&"status"));
    assert!(update_data_fields("play_history").unwrap().contains(&"status"));
    assert!(update_data_fields("learning").unwrap().contains(&"level"));
}

#[test]
fn test_validate_table_accepts_known() {
    assert!(validate_table("artist", &jankenoboe::models::get_tables()).is_ok());
}

#[test]
fn test_validate_table_rejects_unknown() {
    let err = validate_table("nope", &jankenoboe::models::get_tables()).unwrap_err();
    assert_eq!(
        err.message(),
        "Invalid table: nope. Allowed: artist, show, song, play_history, learning"
    );
}

#[test]
fn test_validate_fields_accepts_known() {
    let allowed = get_fields("artist").unwrap();
    let fields = vec!["id".to_string(), "name".to_string()];
    assert!(validate_fields(&fields, &allowed).is_ok());
}

#[test]
fn test_validate_fields_rejects_unknown() {
    let allowed = search_columns("artist").unwrap();
    let fields = vec!["name".to_string(), "password".to_string()];
    let err = validate_fields(&fields, &allowed).unwrap_err();
    assert_eq!(
        err.message(),
        "Invalid field: password. Allowed: name, name_context"
    );
}

#[test]
fn test_parse_fields_trims_and_drops_empty() {
    assert_eq!(
        parse_fields(" id, name ,,level "),
        vec!["id".to_string(), "name".to_string(), "level".to_string()]
    );
}

#[test]
fn test_now_unix_is_positive() {
    assert!(jankenoboe::models::now_unix() > 0);
}

#[test]
fn test_get_timestamp_is_positive() {
    assert!(jankenoboe::utils::get_timestamp() > 0);
}

#[test]
fn test_http_err_tag() {
    assert_eq!(jankenoboe::err::http_err_tag(), "http_error");
}

#[test]
fn test_http_err_msg() {
    let msg = "test";
    let expected_status_code = 400u16;
    let expected_msg = "http_error:400 -=> test";
    let actual_msg = jankenoboe::err::http_err_msg(msg, expected_status_code);
    assert_eq!(actual_msg, expected_msg, "message encoded correctly");
}

#[test]
fn test_parse_http_err_code() {
    let msg = "http_error:400 -=> test";
    let expected_status_code = 400u16;
    assert_eq!(
        jankenoboe::err::parse_http_err_code(msg).unwrap(),
        expected_status_code,
        "status code parsed correctly"
    );
}

#[test]
fn test_parse_http_err_code_untagged() {
    assert!(jankenoboe::err::parse_http_err_code("plain failure").is_none());
}

#[test]
fn test_parse_http_err_code_bad_digits() {
    // A tagged message whose code does not parse falls back to 500.
    assert_eq!(
        jankenoboe::err::parse_http_err_code("http_error:4x0 -=> test").unwrap(),
        500
    );
    assert_eq!(
        jankenoboe::err::parse_http_err_code("http_error:099 -=> test").unwrap(),
        500
    );
}

#[test]
fn test_parse_http_err_code_no_colon() {
    assert!(jankenoboe::err::parse_http_err_code("http_error -=> test").is_none());
}

// --- per-table configuration ---

#[test]
fn test_get_known_table() {
    let config = get("artist").unwrap();
    assert!(config.selectable.contains(&"name"));
    assert!(config.searchable.contains(&"name"));
    assert!(config.creatable.contains(&"name"));
    assert!(config.updatable.contains(&"status"));
}

#[test]
fn test_get_unknown_table() {
    assert!(get("nonexistent").is_none());
}

#[test]
fn test_all_tables_have_selectable() {
    for name in ["artist", "show", "song", "play_history", "learning", "rel_show_song"] {
        let config = get(name).unwrap();
        assert!(
            !config.selectable.is_empty(),
            "Table {name} has no selectable fields"
        );
    }
}

#[test]
fn test_rel_show_song_has_no_updatable() {
    let config = get("rel_show_song").unwrap();
    assert!(config.updatable.is_empty());
}

#[test]
fn test_learning_searchable_fields() {
    let config = get("learning").unwrap();
    assert!(config.searchable.contains(&"song_id"));
    assert!(config.searchable.contains(&"level"));
    assert!(config.searchable.contains(&"graduated"));
}
