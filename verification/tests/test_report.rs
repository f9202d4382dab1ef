use jankenoboe::report::{
    build_review_html, escape_html, escape_json_string, extract_url_extension, level_histogram,
    EnrichedSong,
};

// --- escape_html ---

#[test]
fn test_escape_html_special_chars() {
    assert_eq!(escape_html("<b>bold</b>"), "&lt;b&gt;bold&lt;/b&gt;");
    assert_eq!(escape_html("a & b"), "a &amp; b");
    assert_eq!(escape_html("\"quoted\""), "&quot;quoted&quot;");
    assert_eq!(escape_html("it's"), "it&#39;s");
}

#[test]
fn test_escape_html_plain_text() {
    assert_eq!(escape_html("hello world"), "hello world");
    assert_eq!(escape_html(""), "");
}

#[test]
fn test_escape_json_string() {
    assert_eq!(escape_json_string("a\\b"), "a\\\\b");
    assert_eq!(escape_json_string("say \"hi\""), "say \\\"hi\\\"");
    assert_eq!(escape_json_string("plain"), "plain");
}

// --- extract_url_extension ---

#[test]
fn test_extract_url_extension_mp3() {
    assert_eq!(
        extract_url_extension("https://example.com/song.mp3"),
        ".mp3"
    );
}

#[test]
fn test_extract_url_extension_with_query() {
    assert_eq!(
        extract_url_extension("https://example.com/video.webm?t=123"),
        ".webm"
    );
}

#[test]
fn test_extract_url_extension_with_fragment() {
    assert_eq!(
        extract_url_extension("https://example.com/file.wav#anchor"),
        ".wav"
    );
}

#[test]
fn test_extract_url_extension_no_extension() {
    assert_eq!(extract_url_extension("https://example.com/noext"), "");
}

#[test]
fn test_extract_url_extension_empty_url() {
    assert_eq!(extract_url_extension(""), "");
}

#[test]
fn test_extract_url_extension_uppercase() {
    assert_eq!(
        extract_url_extension("https://example.com/song.MP3"),
        ".mp3"
    );
}

// --- level_histogram ---

#[test]
fn test_level_histogram_counts_and_order() {
    let h = level_histogram(&vec![5, 3, 5, 0, 3, 5]);
    assert_eq!(h, vec![(0, 1), (3, 2), (5, 3)]);
}

#[test]
fn test_level_histogram_empty() {
    let h = level_histogram(&vec![]);
    assert!(h.is_empty());
}

// --- build_review_html ---

fn song(
    name: &str,
    level: i64,
    wait_days: i64,
    artist: &str,
    shows: Vec<&str>,
    urls: Vec<&str>,
) -> EnrichedSong {
    EnrichedSong {
        song_name: name.to_string(),
        level,
        wait_days,
        artist_name: artist.to_string(),
        show_names: shows.into_iter().map(|s| s.to_string()).collect(),
        media_urls: urls.into_iter().map(|s| s.to_string()).collect(),
    }
}

#[test]
fn test_build_review_html_empty() {
    let songs: Vec<EnrichedSong> = vec![];
    let dist: Vec<(i64, u64)> = vec![];
    let html = build_review_html(&songs, &dist);
    assert!(html.contains("Total due: 0 songs"));
    assert!(html.contains("SONGS = []"));
    assert!(html.contains("LEVEL_DIST = []"));
}

#[test]
fn test_build_review_html_with_songs() {
    let songs = vec![song(
        "Test Song",
        5,
        3,
        "Test Artist",
        vec!["Show A"],
        vec!["https://example.com/video.webm"],
    )];
    let dist = vec![(5, 1)];
    let html = build_review_html(&songs, &dist);
    assert!(html.contains("Total due: 1 songs"));
    assert!(html.contains("Test Song"));
    assert!(html.contains("Test Artist"));
    assert!(html.contains("Show A"));
    assert!(html.contains("https://example.com/video.webm"));
    assert!(html.contains(".webm"));
    // Level display: stored 5 is shown as 6
    assert!(html.contains("\"level\":6"));
}

#[test]
fn test_build_review_html_no_media() {
    let songs = vec![song("No Media Song", 0, 1, "Artist", vec![], vec![])];
    let dist = vec![(0, 1)];
    let html = build_review_html(&songs, &dist);
    assert!(html.contains("\"mediaUrls\":[]"));
}

#[test]
fn test_build_review_html_html_escaping() {
    let songs = vec![song(
        "<script>alert('xss')</script>",
        0,
        1,
        "O'Brien & Co",
        vec!["Show <1>"],
        vec![],
    )];
    let dist = vec![(0, 1)];
    let html = build_review_html(&songs, &dist);
    assert!(!html.contains("<script>alert"));
    assert!(html.contains("&lt;script&gt;"));
    assert!(html.contains("O&#39;Brien &amp; Co"));
}

#[test]
fn test_build_review_html_dist_levels_shifted() {
    let songs = vec![song("S", 2, 1, "A", vec![], vec![])];
    let dist = vec![(2, 1)];
    let html = build_review_html(&songs, &dist);
    assert!(html.contains("{\"level\":3,\"count\":1}"));
}
