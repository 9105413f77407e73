use vstd::prelude::*;

use crate::errors::IndexError;

verus! {

/// One field of a schema: its name and whether its text is indexed for
/// matching and stored for retrieval.
pub struct FieldSpec {
    pub name: String,
    pub indexed: bool,
    pub stored: bool,
}

impl View for FieldSpec {
    type V = (Seq<char>, bool, bool);

    open spec fn view(&self) -> Self::V {
        (self.name@, self.indexed, self.stored)
    }
}

/// The names of the fields, in schema order.
pub open spec fn field_names(fields: Seq<(Seq<char>, bool, bool)>) -> Seq<Seq<char>> {
    fields.map(|k: int, f: (Seq<char>, bool, bool)| f.0)
}

/// The set of names of the fields whose values are stored for retrieval.
pub open spec fn stored_names(fields: Seq<(Seq<char>, bool, bool)>) -> Set<Seq<char>> {
    Set::new(
        |n: Seq<char>|
            exists|k: int| 0 <= k < fields.len() && fields[k].0 == n && fields[k].2,
    )
}

/// No two fields share a name.
pub open spec fn distinct_names(fields: Seq<(Seq<char>, bool, bool)>) -> bool {
    forall|i: int, j: int| 0 <= i < j < fields.len() ==> fields[i].0 != fields[j].0
}

/// A field name the engine accepts: non-empty and not starting with a dash.
pub open spec fn valid_field_name(n: Seq<char>) -> bool {
    n.len() > 0 && n[0] != '-'
}

/// Every field name is one the engine accepts.
pub open spec fn valid_names(fields: Seq<(Seq<char>, bool, bool)>) -> bool {
    forall|k: int| 0 <= k < fields.len() ==> valid_field_name((#[trigger] fields[k]).0)
}

/// The names of the indexed fields, in schema order.
pub open spec fn indexed_names_of(fields: Seq<(Seq<char>, bool, bool)>) -> Seq<Seq<char>>
    decreases fields.len(),
{
    if fields.len() == 0 {
        Seq::empty()
    } else if fields.last().1 {
        indexed_names_of(fields.drop_last()).push(fields.last().0)
    } else {
        indexed_names_of(fields.drop_last())
    }
}

pub open spec fn fields_view(fs: Seq<FieldSpec>) -> Seq<(Seq<char>, bool, bool)> {
    fs.map(|k: int, f: FieldSpec| f@)
}

/// The views of a list of names.
pub open spec fn names_view(ss: Seq<String>) -> Seq<Seq<char>> {
    ss.map(|k: int, s: String| s@)
}

/// An ordered set of fields with pairwise distinct names, fixed once built.
/// Every component of the engine resolves field references against it.
pub struct Schema {
    pub(crate) fields: Vec<FieldSpec>,
}

impl View for Schema {
    type V = Seq<(Seq<char>, bool, bool)>;

    closed spec fn view(&self) -> Self::V {
        fields_view(self.fields@)
    }
}

impl Schema {
    /// A schema is well formed when its field names are pairwise distinct
    /// and each is a name the engine accepts.
    pub open spec fn wf(self) -> bool {
        distinct_names(self@) && valid_names(self@)
    }

    /// Builds a schema from an ordered list of fields. Succeeds exactly when
    /// every field name is acceptable and no two fields share a name;
    /// otherwise nothing is built and the first broken rule is reported,
    /// unacceptable names before duplicates.
    pub fn build(fields: Vec<FieldSpec>) -> (r: Result<Schema, IndexError>)
        ensures
            r matches Ok(s) ==> s@ == fields_view(fields@) && s.wf(),
            r is Ok <==> distinct_names(fields_view(fields@)) && valid_names(fields_view(fields@)),
            (r matches Err(e) && e == IndexError::InvalidFieldName) <==> !valid_names(
                fields_view(fields@),
            ),
            (r matches Err(e) && e == IndexError::DuplicateField) <==> (valid_names(
                fields_view(fields@),
            ) && !distinct_names(fields_view(fields@))),
    {
        let n = fields.len();
        for i in 0..n
            invariant
                n == fields@.len(),
                forall|y: int| 0 <= y < i ==> valid_field_name(fields_view(fields@)[y].0),
        {
            let name = fields[i].name.as_str();
            if name.unicode_len() == 0 || name.get_char(0) == '-' {
                proof {
                    assert(!valid_field_name(fields_view(fields@)[i as int].0));
                }
                return Err(IndexError::InvalidFieldName);
            }
        }
        for i in 0..n
            invariant
                n == fields@.len(),
                valid_names(fields_view(fields@)),
                forall|x: int, y: int| 0 <= x < y < i ==> fields_view(fields@)[x].0
                    != fields_view(fields@)[y].0,
        {
            for j in 0..i
                invariant
                    i < n == fields@.len(),
                    valid_names(fields_view(fields@)),
                    forall|x: int, y: int| 0 <= x < y < i ==> fields_view(fields@)[x].0
                        != fields_view(fields@)[y].0,
                    forall|y: int| 0 <= y < j ==> fields_view(fields@)[y].0 != fields_view(
                        fields@,
                    )[i as int].0,
            {
                if fields[j].name == fields[i].name {
                    proof {
                        assert(fields_view(fields@)[j as int].0 == fields_view(
                            fields@,
                        )[i as int].0);
                    }
                    return Err(IndexError::DuplicateField);
                }
            }
        }
        Ok(Schema { fields })
    }

    /// Resolves a field name to its position in the schema. Succeeds exactly
    /// when the schema has a field of that name.
    pub fn resolve(&self, name: &String) -> (r: Result<usize, IndexError>)
        ensures
            r matches Ok(k) ==> k < self@.len() && self@[k as int].0 == name@,
            r is Err ==> r == Err::<usize, IndexError>(IndexError::UnknownField),
            r is Ok <==> field_names(self@).contains(name@),
    {
        let n = self.fields.len();
        for k in 0..n
            invariant
                n == self.fields@.len(),
                forall|y: int| 0 <= y < k ==> self@[y].0 != name@,
        {
            if self.fields[k].name == *name {
                proof {
                    assert(field_names(self@)[k as int] == name@);
                }
                return Ok(k);
            }
        }
        proof {
            assert(forall|y: int| 0 <= y < self@.len() ==> field_names(self@)[y] != name@);
        }
        Err(IndexError::UnknownField)
    }

    /// The names of the indexed fields, exactly and in schema order. These
    /// are the fields a query without an explicit field qualifier is matched
    /// against.
    pub fn indexed_names(&self) -> (r: Vec<String>)
        ensures
            names_view(r@) == indexed_names_of(self@),
            forall|k: int|
                0 <= k < r@.len() ==> field_names(self@).contains(#[trigger] r@[k]@),
    {
        let n = self.fields.len();
        let mut out: Vec<String> = Vec::new();
        for k in 0..n
            invariant
                n == self.fields@.len(),
                names_view(out@) =~= indexed_names_of(self@.take(k as int)),
                forall|y: int|
                    0 <= y < out@.len() ==> field_names(self@).contains(#[trigger] out@[y]@),
        {
            proof {
                assert(self@.take(k as int + 1).drop_last() =~= self@.take(k as int));
                assert(self@.take(k as int + 1).last() == self@[k as int]);
            }
            if self.fields[k].indexed {
                let name = self.fields[k].name.clone();
                proof {
                    assert(field_names(self@)[k as int] == name@);
                    assert(names_view(out@.push(name)) =~= names_view(out@).push(name@));
                }
                out.push(name);
            }
        }
        proof {
            assert(self@.take(n as int) =~= self@);
        }
        out
    }
}

} // verus!
