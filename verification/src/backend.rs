use vstd::prelude::*;

use crate::document::Document;
use crate::errors::IndexError;
use crate::schema::{field_names, names_view, Schema};
use tantivy::collector::TopDocs;
use tantivy::query::QueryParser;
use tantivy::schema::Document as StoredDocument;
use tantivy::schema::OwnedValue;
use tantivy::TantivyDocument;

verus! {

// The full-text machinery itself — tokenizing, postings, ranking, snapshots —
// is tantivy's. The declarations and wrappers here are the trusted boundary:
// Verus believes their contracts and verifies the rest of the crate against
// them.
#[verifier::external_type_specification]
#[verifier::external_body]
pub struct ExIndex(tantivy::Index);

#[verifier::external_type_specification]
#[verifier::external_body]
pub struct ExSearcher(tantivy::Searcher);

#[verifier::external_type_specification]
#[verifier::external_body]
pub struct ExTantivyDocument(TantivyDocument);

/// The fields of the index's schema: for each, its name and whether it is
/// indexed and stored, in schema order.
pub uninterp spec fn index_fields(i: tantivy::Index) -> Seq<(Seq<char>, bool, bool)>;

/// The stored form of the committed documents of the index, in commit order:
/// for each, the mapping from stored field name to the value as given.
pub uninterp spec fn index_docs(i: tantivy::Index) -> Seq<Map<Seq<char>, Seq<char>>>;

/// The fields of the schema behind a searcher.
pub uninterp spec fn snap_fields(s: tantivy::Searcher) -> Seq<(Seq<char>, bool, bool)>;

/// The stored form of the documents a searcher sees: the committed documents
/// of its index at acquisition time, pinned for the searcher's lifetime.
pub uninterp spec fn snap_docs(s: tantivy::Searcher) -> Seq<Map<Seq<char>, Seq<char>>>;

/// The records a searcher returns for a query: the stored form of the
/// matching documents, ranked by descending relevance score with ties broken
/// by document address, cut off at `limit`. For a fixed searcher the result
/// is a function of the query and the limit alone.
pub uninterp spec fn snap_hits(
    s: tantivy::Searcher,
    defaults: Seq<Seq<char>>,
    q: Seq<char>,
    limit: int,
) -> Seq<Map<Seq<char>, Seq<char>>>;

/// The stored fields of a document retrieved from a searcher: its text
/// values under their field names, per the searcher's schema.
pub uninterp spec fn td_stored(s: tantivy::Searcher, td: TantivyDocument) -> Map<
    Seq<char>,
    Seq<char>,
>;

/// No documents: what a fresh or a cleared index holds.
pub open spec fn no_docs() -> Seq<Map<Seq<char>, Seq<char>>> {
    Seq::empty()
}

/// Whether tantivy's query grammar accepts the query text, parsed against a
/// schema of text fields with the given default fields. An empty query text
/// is accepted and matches nothing.
pub uninterp spec fn parse_ok(
    fields: Seq<(Seq<char>, bool, bool)>,
    defaults: Seq<Seq<char>>,
    q: Seq<char>,
) -> bool;

/// Relies on tantivy::Index::create_in_ram and SchemaBuilder::add_text_field:
/// a fresh in-memory index carries exactly the given text fields and holds no
/// documents. add_text_field panics on a repeated name and on a name the
/// engine rejects (empty, or starting with a dash); the precondition rules
/// both out.
#[verifier::external_body]
pub(crate) fn create_ram_index(schema: &Schema) -> (i: tantivy::Index)
    requires
        schema.wf(),
    ensures
        index_fields(i) == schema@,
        index_docs(i) == no_docs(),
{
    let mut builder = tantivy::schema::Schema::builder();
    for f in schema.fields.iter() {
        let mut opts = tantivy::schema::TextOptions::default();
        if f.indexed {
            opts = opts | tantivy::schema::TEXT;
        }
        if f.stored {
            opts = opts.set_stored();
        }
        builder.add_text_field(&f.name, opts);
    }
    tantivy::Index::create_in_ram(builder.build())
}

/// Relies on tantivy::IndexWriter: add_document buffers each document and
/// commit publishes them all at once; a writer dropped without committing
/// leaves the index at its last committed state, so a failure changes
/// nothing visible.
#[verifier::external_body]
pub(crate) fn add_and_commit(i: &mut tantivy::Index, schema: &Schema, docs: &Vec<Document>) -> (r: Result<(), IndexError>)
    requires
        schema.wf(),
        index_fields(*old(i)) == schema@,
        forall|k: int| 0 <= k < docs@.len() ==> (#[trigger] docs@[k]).valid_for(schema@),
    ensures
        index_fields(*final (i)) == index_fields(*old(i)),
        r is Ok ==> index_docs(*final (i)) == index_docs(*old(i)) + docs@.map(
            |k: int, d: Document| d.stored_view(schema@),
        ),
        r is Err ==> index_docs(*final (i)) == index_docs(*old(i)),
        r matches Err(e) ==> e == IndexError::Commit || e == IndexError::WriterBusy,
{
    let mut writer: tantivy::IndexWriter = match i.writer(50_000_000) {
        Ok(w) => w,
        Err(_) => return Err(IndexError::WriterBusy),
    };
    for d in docs.iter() {
        let mut td = TantivyDocument::default();
        for (name, value) in d.fields.iter() {
            let field = i.schema().get_field(name).map_err(|_| IndexError::Commit)?;
            td.add_text(field, value);
        }
        writer.add_document(td).map_err(|_| IndexError::Commit)?;
    }
    writer.commit().map_err(|_| IndexError::Commit)?;
    Ok(())
}

/// Relies on tantivy::IndexWriter::delete_all_documents followed by commit:
/// afterwards the index holds no documents; on failure the writer is dropped
/// uncommitted and nothing visible changes.
#[verifier::external_body]
pub(crate) fn clear_and_commit(i: &mut tantivy::Index) -> (r: Result<(), IndexError>)
    ensures
        index_fields(*final (i)) == index_fields(*old(i)),
        r is Ok ==> index_docs(*final (i)) == no_docs(),
        r is Err ==> index_docs(*final (i)) == index_docs(*old(i)),
        r matches Err(e) ==> e == IndexError::Commit || e == IndexError::WriterBusy,
{
    let mut writer: tantivy::IndexWriter = match i.writer(50_000_000) {
        Ok(w) => w,
        Err(_) => return Err(IndexError::WriterBusy),
    };
    writer.delete_all_documents().map_err(|_| IndexError::Commit)?;
    writer.commit().map_err(|_| IndexError::Commit)?;
    Ok(())
}

/// Relies on tantivy::IndexReader::searcher: the searcher is a consistent
/// snapshot of the segments committed at acquisition time; later commits
/// never reach it.
#[verifier::external_body]
pub(crate) fn acquire_searcher(i: &tantivy::Index) -> (r: Result<tantivy::Searcher, IndexError>)
    ensures
        r matches Ok(s) ==> snap_fields(s) == index_fields(*i) && snap_docs(s) == index_docs(*i),
        r matches Err(e) ==> e == IndexError::Storage,
{
    let reader: tantivy::IndexReader = i
        .reader_builder()
        .reload_policy(tantivy::ReloadPolicy::OnCommitWithDelay)
        .try_into()
        .map_err(|_| IndexError::Storage)?;
    Ok(reader.searcher())
}

/// Relies on tantivy's QueryParser, TopDocs and Searcher::doc: the query is
/// parsed against the given default fields, every matching document is
/// scored, and the `limit` best are retrieved, best first. An empty query
/// text parses to the query that matches nothing. TopDocs panics on a zero
/// limit, and get_field on an absent default field; the preconditions rule
/// both out.
#[verifier::external_body]
pub(crate) fn snap_search(
    s: &tantivy::Searcher,
    defaults: &Vec<String>,
    q: &String,
    limit: usize,
) -> (r: Result<Vec<TantivyDocument>, IndexError>)
    requires
        limit >= 1,
        forall|k: int|
            0 <= k < defaults@.len() ==> field_names(snap_fields(*s)).contains(
                #[trigger] defaults@[k]@,
            ),
    ensures
        r matches Ok(tds) ==> ({
            let hits = snap_hits(*s, names_view(defaults@), q@, limit as int);
            &&& tds@.map(|k: int, td: TantivyDocument| td_stored(*s, td)) == hits
            &&& hits.len() <= limit
            &&& (forall|k: int|
                0 <= k < hits.len() ==> snap_docs(*s).contains(#[trigger] hits[k]))
        }),
        (r matches Err(e) && e == IndexError::QueryParse) <==> !parse_ok(snap_fields(*s), names_view(defaults@), q@),
        r matches Err(e) ==> e == IndexError::QueryParse || e == IndexError::Storage,
        q@.len() == 0 ==> !(r matches Err(e) && e == IndexError::QueryParse),
        r matches Ok(tds) ==> (q@.len() == 0 ==> snap_hits(*s, names_view(defaults@), q@, limit as int) == no_docs()),
{
    let mut dfs = Vec::new();
    for n in defaults.iter() {
        dfs.push(s.schema().get_field(n).unwrap());
    }
    let query = QueryParser::for_index(s.index(), dfs).parse_query(q).map_err(|_| IndexError::QueryParse)?;
    let top = s.search(&query, &TopDocs::with_limit(limit).order_by_score()).map_err(|_| IndexError::Storage)?;
    let mut out = Vec::new();
    for hit in top {
        out.push(s.doc(hit.1).map_err(|_| IndexError::Storage)?);
    }
    Ok(out)
}

/// Relies on to_named_doc: the stored fields of a document retrieved from
/// the searcher, each text value listed once under its field name.
#[verifier::external_body]
pub(crate) fn stored_pairs(s: &tantivy::Searcher, td: &TantivyDocument) -> (d: Document)
    ensures
        d.as_map() == td_stored(*s, *td),
        d.distinct_keys(),
{
    let pairs = StoredDocument::to_named_doc(td, s.schema()).0.into_iter();
    Document {
        fields: pairs.filter_map(|p| match p.1.into_iter().next() {
            Some(OwnedValue::Str(t)) => Some((p.0, t)),
            _ => None,
        }).collect(),
    }
}

} // verus!
