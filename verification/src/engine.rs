use vstd::prelude::*;

use crate::backend;
use crate::document::Document;
use crate::errors::IndexError;
use crate::schema::{field_names, indexed_names_of, names_view, Schema};

verus! {

/// The index engine: a schema, the committed documents, and the write
/// buffer. Inserts buffer; a commit publishes the buffer atomically; readers
/// see committed documents only, through snapshots.
pub struct Engine {
    index: tantivy::Index,
    schema: Schema,
    buffer: Vec<Document>,
    defaults: Vec<String>,
}

impl Engine {
    /// The schema the engine was opened with.
    pub closed spec fn schema_view(self) -> Seq<(Seq<char>, bool, bool)> {
        self.schema@
    }

    /// The stored form of the committed documents, in commit order.
    pub closed spec fn committed(self) -> Seq<Map<Seq<char>, Seq<char>>> {
        backend::index_docs(self.index)
    }

    /// The documents inserted since the last commit, as mappings, in order.
    pub closed spec fn buffered(self) -> Seq<Map<Seq<char>, Seq<char>>> {
        self.buffer@.map(|k: int, d: Document| d.as_map())
    }

    /// The stored form the buffered documents will take once committed:
    /// their mappings restricted to the schema's stored fields.
    pub closed spec fn buffered_stored(self) -> Seq<Map<Seq<char>, Seq<char>>> {
        self.buffer@.map(|k: int, d: Document| d.stored_view(self.schema@))
    }

    /// The default fields: the fields an unqualified query term is matched
    /// against. Fixed at open time to the schema's indexed fields.
    pub closed spec fn default_fields(self) -> Seq<Seq<char>> {
        names_view(self.defaults@)
    }

    /// Whether the query text parses against this engine's schema, with the
    /// indexed fields as default fields.
    pub closed spec fn query_ok(self, q: Seq<char>) -> bool {
        backend::parse_ok(self.schema@, names_view(self.defaults@), q)
    }

    /// Validity of the engine: the schema is well formed, the underlying
    /// index carries exactly that schema, every buffered document was
    /// validated, and the default fields are fields of the schema.
    pub closed spec fn wf(self) -> bool {
        &&& self.schema.wf()
        &&& backend::index_fields(self.index) == self.schema@
        &&& (forall|k: int|
            0 <= k < self.buffer@.len() ==> (#[trigger] self.buffer@[k]).valid_for(self.schema@))
        &&& (forall|k: int|
            0 <= k < self.defaults@.len() ==> field_names(self.schema@).contains(
                #[trigger] self.defaults@[k]@,
            ))
    }

    /// Opens a fresh, empty, in-memory index bound to the given schema.
    /// Queries without a field qualifier are matched against every indexed
    /// field of the schema.
    pub fn open(schema: Schema) -> (e: Engine)
        requires
            schema.wf(),
        ensures
            e.wf(),
            e.schema_view() == schema@,
            e.default_fields() == indexed_names_of(schema@),
            e.committed().len() == 0,
            e.buffered().len() == 0,
    {
        let defaults = schema.indexed_names();
        let index = backend::create_ram_index(&schema);
        Engine { index, schema, buffer: Vec::new(), defaults }
    }

    /// Validates the document against the schema and appends it to the write
    /// buffer. Nothing becomes visible to any reader before a commit.
    /// Succeeds exactly when the document is valid for the schema; a
    /// rejected document leaves the engine unchanged.
    pub fn insert(&mut self, doc: Document) -> (r: Result<(), IndexError>)
        requires
            old(self).wf(),
        ensures
            final (self).wf(),
            final (self).schema_view() == old(self).schema_view(),
            final (self).default_fields() == old(self).default_fields(),
            final (self).committed() == old(self).committed(),
            r is Ok <==> doc.valid_for(old(self).schema_view()),
            r is Ok ==> final (self).buffered() == old(self).buffered().push(doc.as_map()),
            r is Ok ==> final (self).buffered_stored() == old(self).buffered_stored().push(
                doc.stored_view(old(self).schema_view()),
            ),
            r is Err ==> final (self).buffered() == old(self).buffered() && final (self).buffered_stored() == old(self).buffered_stored(),
            (r matches Err(e) && e == IndexError::UnknownField) <==> !doc.keys_known(
                old(self).schema_view(),
            ),
            (r matches Err(e) && e == IndexError::DuplicateField) <==> (doc.keys_known(
                old(self).schema_view(),
            ) && !doc.distinct_keys()),
    {
        match doc.validate(&self.schema) {
            Ok(()) => {
                self.buffer.push(doc);
                proof {
                    assert(self.buffered() =~= old(self).buffered().push(doc.as_map()));
                    assert(self.buffered_stored() =~= old(self).buffered_stored().push(
                        doc.stored_view(self.schema@),
                    ));
                }
                Ok(())
            },
            Err(e) => Err(e),
        }
    }

    /// Publishes the write buffer as one atomic commit. On success the
    /// buffered documents are appended, in order and in stored form, to the
    /// committed documents, and the buffer empties. On failure the index
    /// keeps its last committed state and the buffer is kept for a retry.
    pub fn commit(&mut self) -> (r: Result<(), IndexError>)
        requires
            old(self).wf(),
        ensures
            final (self).wf(),
            final (self).schema_view() == old(self).schema_view(),
            final (self).default_fields() == old(self).default_fields(),
            r is Ok ==> final (self).committed() == old(self).committed() + old(self).buffered_stored() && final (self).buffered().len() == 0,
            r is Err ==> final (self).committed() == old(self).committed() && final (self).buffered() == old(self).buffered() && final (self).buffered_stored() == old(self).buffered_stored(),
            r matches Err(e) ==> e == IndexError::Commit || e == IndexError::WriterBusy,
    {
        let r = backend::add_and_commit(&mut self.index, &self.schema, &self.buffer);
        match r {
            Ok(()) => {
                proof {
                    assert(self.buffer@.map(|k: int, d: Document| d.stored_view(self.schema@))
                        =~= old(self).buffered_stored());
                    assert(self.committed() =~= old(self).committed() + old(
                        self,
                    ).buffered_stored());
                }
                self.buffer = Vec::new();
                proof {
                    assert(self.buffered() =~= Seq::<Map<Seq<char>, Seq<char>>>::empty());
                }
                Ok(())
            },
            Err(e) => Err(e),
        }
    }

    /// Discards the buffered, uncommitted documents. The committed state is
    /// untouched. Cannot fail.
    pub fn rollback(&mut self)
        requires
            old(self).wf(),
        ensures
            final (self).wf(),
            final (self).schema_view() == old(self).schema_view(),
            final (self).default_fields() == old(self).default_fields(),
            final (self).committed() == old(self).committed(),
            final (self).buffered().len() == 0,
    {
        self.buffer = Vec::new();
    }

    /// Removes every committed document and discards the write buffer; the
    /// removal is itself committed, so readers acquired afterwards see an
    /// empty index. On failure nothing changes.
    pub fn clear(&mut self) -> (r: Result<(), IndexError>)
        requires
            old(self).wf(),
        ensures
            final (self).wf(),
            final (self).schema_view() == old(self).schema_view(),
            final (self).default_fields() == old(self).default_fields(),
            r is Ok ==> final (self).committed().len() == 0 && final (self).buffered().len() == 0,
            r is Err ==> final (self).committed() == old(self).committed() && final (self).buffered() == old(self).buffered(),
            r matches Err(e) ==> e == IndexError::Commit || e == IndexError::WriterBusy,
    {
        let r = backend::clear_and_commit(&mut self.index);
        match r {
            Ok(()) => {
                self.buffer = Vec::new();
                Ok(())
            },
            Err(e) => Err(e),
        }
    }

    /// Acquires a point-in-time snapshot of the committed documents. Later
    /// inserts, commits and clears never reach a snapshot already acquired.
    pub fn snapshot(&self) -> (r: Result<Snapshot, IndexError>)
        requires
            self.wf(),
        ensures
            r matches Ok(s) ==> s.docs() == self.committed() && s.fields() == self.schema_view(),
            r matches Err(e) ==> e == IndexError::Storage,
    {
        match backend::acquire_searcher(&self.index) {
            Ok(searcher) => Ok(Snapshot { searcher }),
            Err(e) => Err(e),
        }
    }

    /// One-shot search: acquires a fresh snapshot of the committed documents
    /// and runs the query against it. The records returned are exactly what
    /// that snapshot returns for the query — each the stored form of one
    /// committed document, best first, at most `limit` of them. A query the
    /// grammar rejects fails; an empty query succeeds and matches nothing; a
    /// limit of zero returns none.
    pub fn search(&self, q: &String, limit: usize) -> (r: Result<Vec<Document>, IndexError>)
        requires
            self.wf(),
        ensures
            r matches Ok(out) ==> limit >= 1 ==> exists|sp: Snapshot|
                #[trigger] sp.docs() == self.committed() && sp.fields() == self.schema_view()
                    && out@.map(|k: int, d: Document| d.as_map()) == sp.results_of(
                    self.default_fields(),
                    q@,
                    limit as int,
                ),
            r matches Ok(out) ==> out@.len() <= limit,
            r matches Ok(out) ==> forall|k: int|
                0 <= k < out@.len() ==> self.committed().contains((#[trigger] out@[k]).as_map()),
            r matches Ok(out) ==> forall|k: int|
                0 <= k < out@.len() ==> (#[trigger] out@[k]).distinct_keys(),
            r matches Ok(out) ==> (self.committed().len() == 0 ==> out@.len() == 0),
            (r matches Err(e) && e == IndexError::QueryParse) ==> !self.query_ok(q@),
            limit >= 1 && !self.query_ok(q@) ==> r is Err,
            r matches Ok(out) ==> (q@.len() == 0 ==> out@.len() == 0),
            q@.len() == 0 ==> !(r matches Err(e) && e == IndexError::QueryParse),
            r matches Err(e) ==> e == IndexError::QueryParse || e == IndexError::Storage,
            limit == 0 ==> r is Ok,
    {
        if limit == 0 {
            return Ok(Vec::new());
        }
        let snap = match self.snapshot() {
            Ok(s) => s,
            Err(e) => return Err(e),
        };
        let r = snap.search(&self.defaults, q, limit);
        proof {
            if r is Ok {
                let out = r->Ok_0;
                assert(snap.docs() == self.committed() && snap.fields() == self.schema_view()
                    && out@.map(|k: int, d: Document| d.as_map()) == snap.results_of(
                    self.default_fields(),
                    q@,
                    limit as int,
                ));
            }
        }
        r
    }
}

/// A point-in-time view of the committed documents, isolated from every
/// later change of the engine: its visible documents and its query results
/// are functions of the snapshot value alone.
pub struct Snapshot {
    searcher: tantivy::Searcher,
}

impl Snapshot {
    /// The stored form of the documents the snapshot sees: the documents
    /// committed when it was acquired.
    pub closed spec fn docs(self) -> Seq<Map<Seq<char>, Seq<char>>> {
        backend::snap_docs(self.searcher)
    }

    /// The fields of the schema behind the snapshot.
    pub closed spec fn fields(self) -> Seq<(Seq<char>, bool, bool)> {
        backend::snap_fields(self.searcher)
    }

    /// Whether the query text parses against the snapshot's schema, with the
    /// given default fields.
    pub closed spec fn query_ok(self, defaults: Seq<Seq<char>>, q: Seq<char>) -> bool {
        backend::parse_ok(self.fields(), defaults, q)
    }

    /// The records this snapshot returns for default fields, a query and a
    /// limit. A function of the snapshot value and the arguments alone:
    /// repeating the same call yields the same records in the same order.
    pub closed spec fn results_of(self, defaults: Seq<Seq<char>>, q: Seq<char>, limit: int) -> Seq<
        Map<Seq<char>, Seq<char>>,
    > {
        if limit <= 0 {
            Seq::empty()
        } else {
            backend::snap_hits(self.searcher, defaults, q, limit)
        }
    }

    /// Runs a query against the snapshot. The records returned are exactly
    /// `results_of(query, limit)`: matching documents in stored form, best
    /// first, at most `limit` of them, each one a document the snapshot
    /// sees. Fails with a parse error exactly when the query text is
    /// malformed for this schema (a limit of zero asks for nothing, and
    /// nothing is parsed). An empty query text is well formed and matches
    /// nothing.
    pub fn search(&self, defaults: &Vec<String>, q: &String, limit: usize) -> (r: Result<
        Vec<Document>,
        IndexError,
    >)
        requires
            forall|k: int|
                0 <= k < defaults@.len() ==> field_names(self.fields()).contains(
                    #[trigger] defaults@[k]@,
                ),
        ensures
            r matches Ok(out) ==> out@.map(|k: int, d: Document| d.as_map()) == self.results_of(
                names_view(defaults@),
                q@,
                limit as int,
            ),
            r matches Ok(out) ==> out@.len() <= limit,
            r matches Ok(out) ==> forall|k: int|
                0 <= k < out@.len() ==> self.docs().contains((#[trigger] out@[k]).as_map()),
            r matches Ok(out) ==> forall|k: int|
                0 <= k < out@.len() ==> (#[trigger] out@[k]).distinct_keys(),
            r matches Ok(out) ==> (self.docs().len() == 0 ==> out@.len() == 0),
            (r matches Err(e) && e == IndexError::QueryParse) <==> (limit >= 1 && !self.query_ok(
                names_view(defaults@),
                q@,
            )),
            r matches Ok(out) ==> (q@.len() == 0 ==> out@.len() == 0),
            q@.len() == 0 ==> !(r matches Err(e) && e == IndexError::QueryParse),
            r matches Err(e) ==> e == IndexError::QueryParse || e == IndexError::Storage,
            limit == 0 ==> r is Ok,
    {
        if limit == 0 {
            let out: Vec<Document> = Vec::new();
            proof {
                assert(out@.map(|k: int, d: Document| d.as_map()) =~= self.results_of(
                    names_view(defaults@),
                    q@,
                    0,
                ));
            }
            return Ok(out);
        }
        let tds = match backend::snap_search(&self.searcher, defaults, q, limit) {
            Ok(t) => t,
            Err(e) => return Err(e),
        };
        let ghost hits = backend::snap_hits(self.searcher, names_view(defaults@), q@, limit as int);
        proof {
            assert(forall|k: int|
                0 <= k < tds@.len() ==> backend::td_stored(self.searcher, #[trigger] tds@[k])
                    == hits[k]);
        }
        let m = tds.len();
        let mut out: Vec<Document> = Vec::new();
        for k in 0..m
            invariant
                m == tds@.len() == hits.len(),
                out@.len() == k,
                forall|y: int|
                    0 <= y < m ==> backend::td_stored(self.searcher, #[trigger] tds@[y])
                        == hits[y],
                forall|y: int|
                    0 <= y < k ==> (#[trigger] out@[y]).as_map() == hits[y]
                        && out@[y].distinct_keys(),
        {
            out.push(backend::stored_pairs(&self.searcher, &tds[k]));
        }
        proof {
            assert(out@.map(|k: int, d: Document| d.as_map()) =~= hits);
            assert(forall|k: int|
                0 <= k < out@.len() ==> self.docs().contains((#[trigger] out@[k]).as_map()));
            if self.docs().len() == 0 && out@.len() > 0 {
                assert(self.docs().contains(hits[0]));
            }
        }
        Ok(out)
    }
}

/// The buffer has as many documents as it has stored forms.
pub(crate) proof fn lemma_buffered_lens(e: Engine)
    ensures
        e.buffered().len() == e.buffered_stored().len(),
{
}

/// What a snapshot accepts as a query is the engine-independent parse
/// predicate over its fields and the default fields.
pub(crate) proof fn lemma_snapshot_query_ok(s: Snapshot, defaults: Seq<Seq<char>>, q: Seq<char>)
    ensures
        s.query_ok(defaults, q) == backend::parse_ok(s.fields(), defaults, q),
{
}

/// Determinism of retrieval: one snapshot, one query, one limit — one
/// result. Any two result sequences of the same search on the same snapshot
/// are equal, in content and in order.
pub proof fn lemma_search_deterministic(
    s: Snapshot,
    defaults: Seq<Seq<char>>,
    q: Seq<char>,
    limit: int,
    r1: Seq<Map<Seq<char>, Seq<char>>>,
    r2: Seq<Map<Seq<char>, Seq<char>>>,
)
    requires
        r1 == s.results_of(defaults, q, limit),
        r2 == s.results_of(defaults, q, limit),
    ensures
        r1 == r2,
{
}

/// Snapshot isolation: a snapshot keeps showing exactly the documents
/// committed when it was acquired. A commit that appends documents gives the
/// engine a committed set the old snapshot does not show.
pub proof fn lemma_snapshot_isolation(
    s: Snapshot,
    before: Seq<Map<Seq<char>, Seq<char>>>,
    added: Seq<Map<Seq<char>, Seq<char>>>,
    after: Seq<Map<Seq<char>, Seq<char>>>,
)
    requires
        s.docs() == before,
        after == before + added,
    ensures
        s.docs() == before,
        added.len() > 0 ==> s.docs() != after,
{
    if added.len() > 0 {
        assert(after.len() == before.len() + added.len());
    }
}

/// Idempotence of clearing: a successful clear leaves no committed and no
/// buffered documents, so clearing twice in a row ends in the same state as
/// clearing once.
pub proof fn lemma_clear_idempotent(once: Engine, twice: Engine)
    requires
        once.committed().len() == 0,
        once.buffered().len() == 0,
        twice.committed().len() == 0,
        twice.buffered().len() == 0,
    ensures
        once.committed() =~= twice.committed(),
        once.buffered() =~= twice.buffered(),
{
}

} // verus!
