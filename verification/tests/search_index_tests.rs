use search_index::errors::IndexError;
use search_index::{Record, SearchIndex};

fn record(file_location: &str, url_path: &str, content: &str) -> Record {
    Record {
        file_location: String::from(file_location),
        url_path: String::from(url_path),
        content: String::from(content),
    }
}

#[test]
fn round_trip_exact_values() {
    let mut index = SearchIndex::new();
    index
        .insert(vec![record("docs/a.md", "/docs/a", "rust search engine")])
        .unwrap();
    let hits = index.search(String::from("search")).unwrap();
    assert_eq!(hits.len(), 1);
    assert_eq!(hits[0].file_location, "docs/a.md");
    assert_eq!(hits[0].url_path, "/docs/a");
    assert_eq!(hits[0].content, "rust search engine");
}

#[test]
fn search_matches_content_only() {
    let mut index = SearchIndex::new();
    index
        .insert(vec![record("guide.md", "/guide", "plain body text")])
        .unwrap();
    // Terms that occur only in the other stored fields are not default-matched.
    let hits = index.search(String::from("guide.md")).unwrap();
    assert_eq!(hits.len(), 0);
    let hits = index.search(String::from("body")).unwrap();
    assert_eq!(hits.len(), 1);
}

#[test]
fn empty_index_finds_nothing() {
    let index = SearchIndex::new();
    let hits = index.search(String::from("anything")).unwrap();
    assert_eq!(hits.len(), 0);
}

#[test]
fn each_insert_is_visible_at_once() {
    let mut index = SearchIndex::new();
    index.insert(vec![record("a.md", "/a", "first wave")]).unwrap();
    index.insert(vec![record("b.md", "/b", "second wave")]).unwrap();
    let hits = index.search(String::from("wave")).unwrap();
    assert_eq!(hits.len(), 2);
}

#[test]
fn clear_empties_the_index() {
    let mut index = SearchIndex::new();
    index.insert(vec![record("a.md", "/a", "short lived")]).unwrap();
    index.clear().unwrap();
    let hits = index.search(String::from("lived")).unwrap();
    assert_eq!(hits.len(), 0);
    // Clearing again changes nothing.
    index.clear().unwrap();
    let hits = index.search(String::from("lived")).unwrap();
    assert_eq!(hits.len(), 0);
}

#[test]
fn malformed_query_reported() {
    let index = SearchIndex::new();
    let r = index.search(String::from("nosuchfield:term"));
    assert_eq!(r.err(), Some(IndexError::QueryParse));
}

#[test]
fn repeated_search_is_identical() {
    let mut index = SearchIndex::new();
    index.insert(vec![
        record("a.md", "/a", "shared token alpha"),
        record("b.md", "/b", "shared token beta"),
    ])
    .unwrap();
    let first = index.search(String::from("token")).unwrap();
    let second = index.search(String::from("token")).unwrap();
    assert_eq!(first.len(), 2);
    assert_eq!(first.len(), second.len());
    for (a, b) in first.iter().zip(second.iter()) {
        assert_eq!(a.file_location, b.file_location);
        assert_eq!(a.url_path, b.url_path);
        assert_eq!(a.content, b.content);
    }
}

#[test]
fn insert_nothing_changes_nothing() {
    let mut index = SearchIndex::new();
    index.insert(vec![record("a.md", "/a", "kept content")]).unwrap();
    index.insert(Vec::new()).unwrap();
    let hits = index.search(String::from("kept")).unwrap();
    assert_eq!(hits.len(), 1);
}

#[test]
fn empty_query_is_ok_and_empty() {
    let mut index = SearchIndex::new();
    index.insert(vec![record("a.md", "/a", "anything at all")]).unwrap();
    let hits = index.search(String::from("")).unwrap();
    assert_eq!(hits.len(), 0);
}
