//! An embeddable full-text index: documents of named text fields go in,
//! ranked records of their stored fields come out. The schema registry, the
//! write buffer, document validation and the retrieval contracts are
//! verified; the inverted index, tokenizer and ranker behind them are
//! tantivy's, reached through a small trusted boundary.
mod backend;
pub mod document;
pub mod engine;
pub mod errors;
pub mod schema;

use vstd::prelude::*;

use crate::document::{lemma_map_of_three, Document};
use crate::engine::{Engine, Snapshot};
use crate::errors::IndexError;
use crate::schema::{field_names, fields_view, names_view, stored_names, valid_field_name, FieldSpec, Schema};

verus! {

/// The fixed schema of `SearchIndex`: three text fields, each indexed and
/// stored.
pub open spec fn record_fields() -> Seq<(Seq<char>, bool, bool)> {
    seq![("fileLocation"@, true, true), ("urlPath"@, true, true), ("content"@, true, true)]
}

/// The three field names of the fixed schema.
pub open spec fn record_keys() -> Set<Seq<char>> {
    set!["fileLocation"@, "urlPath"@, "content"@]
}

/// One document of the fixed schema: the three stored text fields, as they
/// are inserted and as they come back from a search.
#[derive(Debug, Clone)]
pub struct Record {
    pub file_location: String,
    pub url_path: String,
    pub content: String,
}

impl View for Record {
    type V = Map<Seq<char>, Seq<char>>;

    open spec fn view(&self) -> Self::V {
        Map::<Seq<char>, Seq<char>>::empty().insert("content"@, self.content@).insert(
            "urlPath"@,
            self.url_path@,
        ).insert("fileLocation"@, self.file_location@)
    }
}

/// A full-text index over the fixed three-field schema. Inserting publishes
/// at once; searching matches the query text against the content field and
/// returns the stored fields of the matching documents.
pub struct SearchIndex {
    engine: Engine,
}

impl SearchIndex {
    /// The stored form of the committed documents, in commit order.
    pub closed spec fn docs(self) -> Seq<Map<Seq<char>, Seq<char>>> {
        self.engine.committed()
    }

    /// Whether the query text parses against the fixed schema, with the
    /// content field as the default field.
    pub closed spec fn query_ok(self, q: Seq<char>) -> bool {
        backend::parse_ok(record_fields(), seq!["content"@], q)
    }

    /// Validity: the engine is well formed over the fixed schema, nothing
    /// sits unpublished in its buffer, and every committed document carries
    /// exactly the three fields.
    pub closed spec fn wf(self) -> bool {
        &&& self.engine.wf()
        &&& self.engine.schema_view() == record_fields()
        &&& self.engine.buffered().len() == 0
        &&& (forall|k: int|
            0 <= k < self.docs().len() ==> (#[trigger] self.docs()[k]).dom() == record_keys())
    }

    /// Opens a fresh, empty, in-memory index over the fixed schema.
    pub fn new() -> (s: SearchIndex)
        ensures
            s.wf(),
            s.docs().len() == 0,
    {
        let mut fields: Vec<FieldSpec> = Vec::new();
        fields.push(FieldSpec { name: String::from_str("fileLocation"), indexed: true, stored: true });
        fields.push(FieldSpec { name: String::from_str("urlPath"), indexed: true, stored: true });
        fields.push(FieldSpec { name: String::from_str("content"), indexed: true, stored: true });
        proof {
            lemma_fixed_names_distinct();
            assert(fields_view(fields@) =~= record_fields());
            assert(crate::schema::valid_names(record_fields())) by {
                assert forall|k: int| 0 <= k < record_fields().len() implies valid_field_name(
                    (#[trigger] record_fields()[k]).0,
                ) by {
                    lemma_fixed_names_distinct();
                    if k == 0 {
                        assert(record_fields()[0].0 == "fileLocation"@);
                    } else if k == 1 {
                        assert(record_fields()[1].0 == "urlPath"@);
                    } else {
                        assert(record_fields()[2].0 == "content"@);
                    }
                }
            }
        }
        let schema = match Schema::build(fields) {
            Ok(s) => s,
            Err(_) => unreached(),
        };
        let engine = Engine::open(schema);
        SearchIndex { engine }
    }

    /// Validates, buffers and publishes the given records as one atomic
    /// commit: on success their stored fields are appended, in order, to the
    /// visible documents. On failure nothing becomes visible and nothing is
    /// retained for later.
    pub fn insert(&mut self, records: Vec<Record>) -> (r: Result<(), IndexError>)
        requires
            old(self).wf(),
        ensures
            final (self).wf(),
            r is Ok ==> final (self).docs() == old(self).docs() + records@.map(
                |k: int, rec: Record| rec@,
            ),
            r is Err ==> final (self).docs() == old(self).docs(),
            r matches Err(e) ==> e == IndexError::Commit || e == IndexError::WriterBusy,
    {
        let ghost recs = records@.map(|k: int, rec: Record| rec@);
        proof {
            crate::engine::lemma_buffered_lens(self.engine);
        }
        let n = records.len();
        for k in 0..n
            invariant
                n == records@.len(),
                recs == records@.map(|k: int, rec: Record| rec@),
                self.engine.wf(),
                self.engine.schema_view() == record_fields(),
                self.engine.committed() == old(self).engine.committed(),
                self.engine.buffered_stored().len() == k,
                forall|y: int|
                    0 <= y < k ==> self.engine.buffered_stored()[y] == #[trigger] recs[y],
        {
            let mut doc = Document::new();
            doc.add(String::from_str("fileLocation"), records[k].file_location.clone());
            doc.add(String::from_str("urlPath"), records[k].url_path.clone());
            doc.add(String::from_str("content"), records[k].content.clone());
            proof {
                assert(doc.pairs() =~= seq![
                    ("fileLocation"@, records@[k as int].file_location@),
                    ("urlPath"@, records@[k as int].url_path@),
                    ("content"@, records@[k as int].content@),
                ]);
                lemma_record_doc(doc, records@[k as int]);
                assert(recs[k as int] == records@[k as int]@);
            }
            match self.engine.insert(doc) {
                Ok(()) => {},
                Err(_) => {
                    proof {
                        assert(false);
                    }
                },
            }
        }
        let ghost before = self.engine.buffered_stored();
        proof {
            assert(before =~= recs);
        }
        match self.engine.commit() {
            Ok(()) => {
                proof {
                    assert(self.docs() == old(self).docs() + recs);
                    assert forall|y: int| 0 <= y < self.docs().len() implies (
                    #[trigger] self.docs()[y]).dom() == record_keys() by {
                        if y < old(self).docs().len() {
                            assert(self.docs()[y] == old(self).docs()[y]);
                        } else {
                            assert(self.docs()[y] == recs[y - old(self).docs().len()]);
                            lemma_record_dom(records@[y - old(self).docs().len()]);
                        }
                    }
                }
                Ok(())
            },
            Err(e) => {
                self.engine.rollback();
                Err(e)
            },
        }
    }

    /// Removes every committed document; the removal is itself published, so
    /// any search that follows finds nothing. On failure nothing changes.
    pub fn clear(&mut self) -> (r: Result<(), IndexError>)
        requires
            old(self).wf(),
        ensures
            final (self).wf(),
            r is Ok ==> final (self).docs().len() == 0,
            r is Err ==> final (self).docs() == old(self).docs(),
            r matches Err(e) ==> e == IndexError::Commit || e == IndexError::WriterBusy,
    {
        let r = self.engine.clear();
        proof {
            if r is Err {
                assert(self.docs() == old(self).docs());
                assert forall|k: int| 0 <= k < self.docs().len() implies (
                #[trigger] self.docs()[k]).dom() == record_keys() by {
                    assert(self.docs()[k] == old(self).docs()[k]);
                }
            }
        }
        r
    }

    /// Searches the committed documents: the query text is matched against
    /// the content field, and the stored fields of each matching document
    /// come back as one record, best match first, at most ten thousand. The
    /// records returned are exactly what a snapshot of the committed
    /// documents returns for the query; a query the grammar rejects fails;
    /// an empty query succeeds and matches nothing; a search of an empty
    /// index finds nothing, whatever the query.
    pub fn search(&self, text: String) -> (r: Result<Vec<Record>, IndexError>)
        requires
            self.wf(),
        ensures
            r matches Ok(out) ==> exists|sp: Snapshot|
                #[trigger] sp.docs() == self.docs() && sp.fields() == record_fields()
                    && out@.map(|k: int, rec: Record| rec@) == sp.results_of(
                    seq!["content"@],
                    text@,
                    10000,
                ),
            r matches Ok(out) ==> forall|k: int|
                0 <= k < out@.len() ==> self.docs().contains((#[trigger] out@[k])@),
            r matches Ok(out) ==> out@.len() <= 10000,
            r matches Ok(out) ==> (self.docs().len() == 0 ==> out@.len() == 0),
            (r matches Err(e) && e == IndexError::QueryParse) ==> !self.query_ok(text@),
            !self.query_ok(text@) ==> r is Err,
            r matches Ok(out) ==> (text@.len() == 0 ==> out@.len() == 0),
            text@.len() == 0 ==> !(r matches Err(e) && e == IndexError::QueryParse),
            r matches Err(e) ==> e == IndexError::QueryParse || e == IndexError::Storage,
    {
        let snap = match self.engine.snapshot() {
            Ok(s) => s,
            Err(e) => return Err(e),
        };
        let mut defaults: Vec<String> = Vec::new();
        defaults.push(String::from_str("content"));
        proof {
            assert(field_names(snap.fields())[2] == "content"@);
            assert(crate::schema::names_view(defaults@) =~= seq!["content"@]);
        }
        let hits = match snap.search(&defaults, &text, 10000) {
            Ok(h) => h,
            Err(e) => {
                proof {
                    crate::engine::lemma_snapshot_query_ok(snap, names_view(defaults@), text@);
                }
                return Err(e);
            },
        };
        proof {
            crate::engine::lemma_snapshot_query_ok(snap, names_view(defaults@), text@);
            assert(self.query_ok(text@));
        }
        let fl_name = String::from_str("fileLocation");
        let up_name = String::from_str("urlPath");
        let ct_name = String::from_str("content");
        let m = hits.len();
        let mut out: Vec<Record> = Vec::new();
        for k in 0..m
            invariant
                m == hits@.len(),
                self.wf(),
                out@.len() == k,
                fl_name@ == "fileLocation"@ && up_name@ == "urlPath"@ && ct_name@ == "content"@,
                forall|y: int|
                    0 <= y < m ==> self.docs().contains((#[trigger] hits@[y]).as_map()),
                forall|y: int| 0 <= y < k ==> (#[trigger] out@[y])@ == hits@[y].as_map(),
                forall|y: int|
                    0 <= y < k ==> self.docs().contains((#[trigger] out@[y])@),
        {
            proof {
                let dm = hits@[k as int].as_map();
                let j = choose|j: int| 0 <= j < self.docs().len() && self.docs()[j] == dm;
                assert(dm.dom() == record_keys());
                assert(dm.contains_key("fileLocation"@) && dm.contains_key("urlPath"@)
                    && dm.contains_key("content"@));
            }
            let file_location = match hits[k].get(&fl_name) {
                Some(v) => v.clone(),
                None => unreached(),
            };
            let url_path = match hits[k].get(&up_name) {
                Some(v) => v.clone(),
                None => unreached(),
            };
            let content = match hits[k].get(&ct_name) {
                Some(v) => v.clone(),
                None => unreached(),
            };
            let rec = Record { file_location, url_path, content };
            proof {
                assert(rec@ =~= hits@[k as int].as_map());
            }
            out.push(rec);
        }
        proof {
            assert(out@.map(|k: int, rec: Record| rec@) =~= hits@.map(
                |k: int, d: Document| d.as_map(),
            ));
            assert(names_view(defaults@) =~= seq!["content"@]);
            assert(snap.docs() == self.docs() && snap.fields() == record_fields()
                && out@.map(|k: int, rec: Record| rec@) == snap.results_of(
                seq!["content"@],
                text@,
                10000,
            ));
        }
        Ok(out)
    }
}

/// The three fixed field names are pairwise distinct, and each is a name
/// the engine accepts.
proof fn lemma_fixed_names_distinct()
    ensures
        "fileLocation"@ != "urlPath"@,
        "fileLocation"@ != "content"@,
        "urlPath"@ != "content"@,
        valid_field_name("fileLocation"@),
        valid_field_name("urlPath"@),
        valid_field_name("content"@),
{
    reveal_strlit("fileLocation");
    reveal_strlit("urlPath");
    reveal_strlit("content");
    assert("fileLocation"@.len() == 12);
    assert("urlPath"@.len() == 7);
    assert("content"@.len() == 7);
    assert("fileLocation"@[0] == 'f');
    assert("urlPath"@[0] == 'u');
    assert("content"@[0] == 'c');
}

/// A document built from a record is valid for the fixed schema; its stored
/// form is exactly the record's mapping, which carries the three keys.
proof fn lemma_record_doc(doc: Document, rec: Record)
    requires
        doc.pairs() =~= seq![
            ("fileLocation"@, rec.file_location@),
            ("urlPath"@, rec.url_path@),
            ("content"@, rec.content@),
        ],
    ensures
        doc.valid_for(record_fields()),
        doc.as_map() == rec@,
        doc.stored_view(record_fields()) == rec@,
{
    lemma_fixed_names_distinct();
    assert(doc.keys() =~= seq!["fileLocation"@, "urlPath"@, "content"@]);
    assert(field_names(record_fields())[0] == "fileLocation"@);
    assert(field_names(record_fields())[1] == "urlPath"@);
    assert(field_names(record_fields())[2] == "content"@);
    assert(doc.distinct_keys()) by {
        assert(forall|i: int, j: int|
            0 <= i < j < 3 ==> doc.keys()[i] != doc.keys()[j]);
    }
    lemma_map_of_three(doc.pairs());
    assert(doc.as_map() =~= rec@);
    lemma_record_dom(rec);
    assert(stored_names(record_fields()).contains("fileLocation"@)) by {
        assert(record_fields()[0].0 == "fileLocation"@ && record_fields()[0].2);
    }
    assert(stored_names(record_fields()).contains("urlPath"@)) by {
        assert(record_fields()[1].0 == "urlPath"@ && record_fields()[1].2);
    }
    assert(stored_names(record_fields()).contains("content"@)) by {
        assert(record_fields()[2].0 == "content"@ && record_fields()[2].2);
    }
    assert(doc.stored_view(record_fields()) =~= rec@);
}

/// A record's mapping carries exactly the three fixed keys.
proof fn lemma_record_dom(rec: Record)
    ensures
        rec@.dom() == record_keys(),
{
    assert(rec@.dom() =~= record_keys());
}

} // verus!

