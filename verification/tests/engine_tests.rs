use search_index::document::Document;
use search_index::engine::Engine;
use search_index::errors::IndexError;
use search_index::schema::{FieldSpec, Schema};

fn text_field(name: &str) -> FieldSpec {
    FieldSpec { name: String::from(name), indexed: true, stored: true }
}

fn path_body_schema() -> Schema {
    Schema::build(vec![text_field("path"), text_field("body")]).unwrap()
}

fn doc(pairs: &[(&str, &str)]) -> Document {
    let mut d = Document::new();
    for (name, value) in pairs {
        d.add(String::from(*name), String::from(*value));
    }
    d
}

fn value_of(d: &Document, name: &str) -> String {
    d.get(&String::from(name)).unwrap().clone()
}

#[test]
fn scenario_two_documents() {
    let mut engine = Engine::open(path_body_schema());
    engine.insert(doc(&[("path", "a.md"), ("body", "rust search engine")])).unwrap();
    engine.insert(doc(&[("path", "b.md"), ("body", "go web server")])).unwrap();
    engine.commit().unwrap();

    let hits = engine.search(&String::from("search"), 10).unwrap();
    assert_eq!(hits.len(), 1);
    assert_eq!(value_of(&hits[0], "path"), "a.md");

    let hits = engine.search(&String::from("server"), 10).unwrap();
    assert_eq!(hits.len(), 1);
    assert_eq!(value_of(&hits[0], "path"), "b.md");

    let hits = engine.search(&String::from("python"), 10).unwrap();
    assert_eq!(hits.len(), 0);

    engine.clear().unwrap();
    let hits = engine.search(&String::from("search"), 10).unwrap();
    assert_eq!(hits.len(), 0);
}

#[test]
fn insert_alone_is_invisible_until_commit() {
    let mut engine = Engine::open(path_body_schema());
    engine.insert(doc(&[("path", "a.md"), ("body", "hidden words")])).unwrap();
    let hits = engine.search(&String::from("hidden"), 10).unwrap();
    assert_eq!(hits.len(), 0);
    engine.commit().unwrap();
    let hits = engine.search(&String::from("hidden"), 10).unwrap();
    assert_eq!(hits.len(), 1);
}

#[test]
fn snapshot_isolation() {
    let mut engine = Engine::open(path_body_schema());
    engine.insert(doc(&[("path", "a.md"), ("body", "alpha")])).unwrap();
    engine.commit().unwrap();

    let snap = engine.snapshot().unwrap();
    let defaults = vec![String::from("body")];

    engine.insert(doc(&[("path", "b.md"), ("body", "beta")])).unwrap();
    engine.commit().unwrap();

    // The old snapshot still sees only what was committed when it was taken.
    let hits = snap.search(&defaults, &String::from("beta"), 10).unwrap();
    assert_eq!(hits.len(), 0);
    let hits = snap.search(&defaults, &String::from("alpha"), 10).unwrap();
    assert_eq!(hits.len(), 1);

    // A fresh search sees the new document.
    let hits = engine.search(&String::from("beta"), 10).unwrap();
    assert_eq!(hits.len(), 1);
}

#[test]
fn clear_twice_idempotent() {
    let mut engine = Engine::open(path_body_schema());
    engine.insert(doc(&[("path", "a.md"), ("body", "something searchable")])).unwrap();
    engine.commit().unwrap();
    engine.clear().unwrap();
    engine.clear().unwrap();
    let hits = engine.search(&String::from("searchable"), 10).unwrap();
    assert_eq!(hits.len(), 0);
    let hits = engine.search(&String::from("path"), 10).unwrap();
    assert_eq!(hits.len(), 0);
}

#[test]
fn search_deterministic() {
    let mut engine = Engine::open(path_body_schema());
    engine.insert(doc(&[("path", "a.md"), ("body", "term common alpha")])).unwrap();
    engine.insert(doc(&[("path", "b.md"), ("body", "term common beta")])).unwrap();
    engine.insert(doc(&[("path", "c.md"), ("body", "term common gamma")])).unwrap();
    engine.commit().unwrap();

    let snap = engine.snapshot().unwrap();
    let defaults = vec![String::from("body")];
    let first = snap.search(&defaults, &String::from("common"), 10).unwrap();
    let second = snap.search(&defaults, &String::from("common"), 10).unwrap();
    assert_eq!(first.len(), 3);
    assert_eq!(first, second);
}

#[test]
fn unknown_field_insert_rejected() {
    let mut engine = Engine::open(path_body_schema());
    let r = engine.insert(doc(&[("path", "a.md"), ("title", "not a field")]));
    assert_eq!(r, Err(IndexError::UnknownField));
    // The rejected document left no trace: nothing to commit, nothing found.
    engine.commit().unwrap();
    let hits = engine.search(&String::from("field"), 10).unwrap();
    assert_eq!(hits.len(), 0);
}

#[test]
fn duplicate_document_field_rejected() {
    let mut engine = Engine::open(path_body_schema());
    let r = engine.insert(doc(&[("body", "once"), ("body", "twice")]));
    assert_eq!(r, Err(IndexError::DuplicateField));
}

#[test]
fn unknown_field_query_rejected() {
    let mut engine = Engine::open(path_body_schema());
    engine.insert(doc(&[("path", "a.md"), ("body", "plain words")])).unwrap();
    engine.commit().unwrap();
    let r = engine.search(&String::from("title:words"), 10);
    assert_eq!(r, Err(IndexError::QueryParse));
    // The failed query mutated nothing.
    let hits = engine.search(&String::from("words"), 10).unwrap();
    assert_eq!(hits.len(), 1);
}

#[test]
fn duplicate_schema_field_rejected() {
    let r = Schema::build(vec![text_field("path"), text_field("path")]);
    assert!(matches!(r, Err(IndexError::DuplicateField)));
}

#[test]
fn resolve_fields() {
    let schema = path_body_schema();
    assert_eq!(schema.resolve(&String::from("path")), Ok(0));
    assert_eq!(schema.resolve(&String::from("body")), Ok(1));
    assert_eq!(schema.resolve(&String::from("title")), Err(IndexError::UnknownField));
}

#[test]
fn empty_query_matches_nothing() {
    let mut engine = Engine::open(path_body_schema());
    engine.insert(doc(&[("path", "a.md"), ("body", "anything at all")])).unwrap();
    engine.commit().unwrap();
    let hits = engine.search(&String::from(""), 10).unwrap();
    assert_eq!(hits.len(), 0);
}

#[test]
fn limit_truncates() {
    let mut engine = Engine::open(path_body_schema());
    engine.insert(doc(&[("path", "a.md"), ("body", "shared word")])).unwrap();
    engine.insert(doc(&[("path", "b.md"), ("body", "shared word")])).unwrap();
    engine.insert(doc(&[("path", "c.md"), ("body", "shared word")])).unwrap();
    engine.commit().unwrap();
    let hits = engine.search(&String::from("shared"), 2).unwrap();
    assert_eq!(hits.len(), 2);
    let hits = engine.search(&String::from("shared"), 10).unwrap();
    assert_eq!(hits.len(), 3);
}

#[test]
fn limit_zero_returns_nothing() {
    let mut engine = Engine::open(path_body_schema());
    engine.insert(doc(&[("path", "a.md"), ("body", "present")])).unwrap();
    engine.commit().unwrap();
    let hits = engine.search(&String::from("present"), 0).unwrap();
    assert_eq!(hits.len(), 0);
}

#[test]
fn indexed_only_field_is_not_retrieved() {
    let schema = Schema::build(vec![
        text_field("path"),
        FieldSpec { name: String::from("body"), indexed: true, stored: false },
    ])
    .unwrap();
    let mut engine = Engine::open(schema);
    engine.insert(doc(&[("path", "a.md"), ("body", "findable words")])).unwrap();
    engine.commit().unwrap();
    let hits = engine.search(&String::from("findable"), 10).unwrap();
    assert_eq!(hits.len(), 1);
    assert_eq!(value_of(&hits[0], "path"), "a.md");
    assert!(hits[0].get(&String::from("body")).is_none());
}

#[test]
fn rollback_discards_buffer() {
    let mut engine = Engine::open(path_body_schema());
    engine.insert(doc(&[("path", "a.md"), ("body", "discarded")])).unwrap();
    engine.rollback();
    engine.commit().unwrap();
    let hits = engine.search(&String::from("discarded"), 10).unwrap();
    assert_eq!(hits.len(), 0);
}

#[test]
fn document_get_returns_first_value() {
    let d = doc(&[("path", "a.md"), ("body", "text")]);
    assert_eq!(d.get(&String::from("path")).unwrap(), "a.md");
    assert_eq!(d.get(&String::from("body")).unwrap(), "text");
    assert!(d.get(&String::from("title")).is_none());
    assert_eq!(d.len(), 2);
}

#[test]
fn commit_empty_buffer_is_ok() {
    let mut engine = Engine::open(path_body_schema());
    engine.commit().unwrap();
    let hits = engine.search(&String::from("anything"), 10).unwrap();
    assert_eq!(hits.len(), 0);
}

#[test]
fn multi_term_query_matches() {
    let mut engine = Engine::open(path_body_schema());
    engine.insert(doc(&[("path", "a.md"), ("body", "rust search engine")])).unwrap();
    engine.insert(doc(&[("path", "b.md"), ("body", "go web server")])).unwrap();
    engine.commit().unwrap();
    let hits = engine.search(&String::from("rust engine"), 10).unwrap();
    assert_eq!(hits.len(), 1);
    assert_eq!(value_of(&hits[0], "path"), "a.md");
}

#[test]
fn invalid_field_name_rejected() {
    let r = Schema::build(vec![text_field("")]);
    assert_eq!(r.err(), Some(IndexError::InvalidFieldName));
    let r = Schema::build(vec![text_field("path"), text_field("-flag")]);
    assert_eq!(r.err(), Some(IndexError::InvalidFieldName));
    // An unacceptable name is reported even when a duplicate also exists.
    let r = Schema::build(vec![text_field("path"), text_field("path"), text_field("")]);
    assert_eq!(r.err(), Some(IndexError::InvalidFieldName));
}

#[test]
fn default_fields_are_the_indexed_ones() {
    // "body" is the only indexed field, so an unqualified term searches it
    // and not the stored-only "note" field.
    let schema = Schema::build(vec![
        FieldSpec { name: String::from("note"), indexed: false, stored: true },
        text_field("body"),
    ])
    .unwrap();
    let mut engine = Engine::open(schema);
    engine.insert(doc(&[("note", "quiet remark"), ("body", "loud text")])).unwrap();
    engine.commit().unwrap();
    assert_eq!(engine.search(&String::from("loud"), 10).unwrap().len(), 1);
    assert_eq!(engine.search(&String::from("quiet"), 10).unwrap().len(), 0);
}
