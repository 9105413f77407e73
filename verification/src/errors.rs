use vstd::prelude::*;

verus! {

/// The error taxonomy of the engine. Every fallible operation reports one of
/// these values; no operation panics.
#[derive(Clone, Copy, Debug, PartialEq, Eq, Structural)]
pub enum IndexError {
    /// Two fields of a schema under construction share a name.
    DuplicateField,
    /// A field name the engine cannot accept: empty, or starting with a
    /// dash.
    InvalidFieldName,
    /// A document or a lookup referenced a field absent from the schema.
    UnknownField,
    /// The query text is malformed or names a field absent from the schema.
    QueryParse,
    /// Publishing buffered documents to the index failed; the previously
    /// committed state is intact.
    Commit,
    /// The single writer of the index could not be acquired.
    WriterBusy,
    /// The index storage could not be read.
    Storage,
}

} // verus!
