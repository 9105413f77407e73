use vstd::prelude::*;

use crate::errors::IndexError;
use crate::schema::{field_names, stored_names, Schema};

verus! {

/// The mapping that an ordered list of (field, value) pairs denotes: when a
/// field name repeats, the earliest pair wins, as retrieval by name does.
pub open spec fn map_of(pairs: Seq<(Seq<char>, Seq<char>)>) -> Map<Seq<char>, Seq<char>>
    decreases pairs.len(),
{
    if pairs.len() == 0 {
        Map::empty()
    } else {
        map_of(pairs.skip(1)).insert(pairs[0].0, pairs[0].1)
    }
}

/// A document: field names mapped to single text values, immutable once
/// handed to the engine.
#[derive(Debug, Clone, PartialEq)]
pub struct Document {
    pub(crate) fields: Vec<(String, String)>,
}

impl Document {
    /// The pairs as given, in order.
    pub closed spec fn pairs(self) -> Seq<(Seq<char>, Seq<char>)> {
        self.fields@.map(|k: int, p: (String, String)| (p.0@, p.1@))
    }

    /// The mapping the document denotes.
    pub open spec fn as_map(self) -> Map<Seq<char>, Seq<char>> {
        map_of(self.pairs())
    }

    /// The field names, in the order the document lists them.
    pub open spec fn keys(self) -> Seq<Seq<char>> {
        self.pairs().map(|k: int, p: (Seq<char>, Seq<char>)| p.0)
    }

    /// No field name repeats: the document really is a mapping.
    pub open spec fn distinct_keys(self) -> bool {
        forall|i: int, j: int| 0 <= i < j < self.keys().len() ==> self.keys()[i] != self.keys()[j]
    }

    /// Every field the document references exists in the given schema.
    pub open spec fn keys_known(self, fields: Seq<(Seq<char>, bool, bool)>) -> bool {
        forall|k: int|
            0 <= k < self.keys().len() ==> field_names(fields).contains(#[trigger] self.keys()[k])
    }

    /// The document references only fields of the given schema, each once.
    pub open spec fn valid_for(self, fields: Seq<(Seq<char>, bool, bool)>) -> bool {
        self.distinct_keys() && self.keys_known(fields)
    }

    /// The part of the document that the index stores for retrieval: its
    /// mapping restricted to the schema's stored fields.
    pub open spec fn stored_view(self, fields: Seq<(Seq<char>, bool, bool)>) -> Map<
        Seq<char>,
        Seq<char>,
    > {
        self.as_map().restrict(stored_names(fields))
    }

    /// An empty document.
    pub fn new() -> (d: Document)
        ensures
            d.pairs() == Seq::<(Seq<char>, Seq<char>)>::empty(),
            d.as_map() == Map::<Seq<char>, Seq<char>>::empty(),
    {
        Document { fields: Vec::new() }
    }

    /// Appends one field value.
    pub fn add(&mut self, name: String, value: String) -> (r: ())
        ensures
            final (self).pairs() == old(self).pairs().push((name@, value@)),
    {
        self.fields.push((name, value));
        proof {
            assert(self.pairs() =~= old(self).pairs().push((name@, value@)));
        }
    }

    /// The number of field values the document lists.
    pub fn len(&self) -> (n: usize)
        ensures
            n == self.pairs().len(),
    {
        self.fields.len()
    }

    /// Checks the document against a schema: every referenced field must
    /// exist, and none may repeat. Reports which rule failed; an unknown
    /// field is reported before a repeated one.
    pub fn validate(&self, schema: &Schema) -> (r: Result<(), IndexError>)
        ensures
            r is Ok <==> self.valid_for(schema@),
            (r matches Err(e) && e == IndexError::UnknownField) <==> !self.keys_known(schema@),
            (r matches Err(e) && e == IndexError::DuplicateField) <==> (self.keys_known(schema@)
                && !self.distinct_keys()),
    {
        let n = self.fields.len();
        for k in 0..n
            invariant
                n == self.fields@.len(),
                forall|y: int|
                    0 <= y < k ==> field_names(schema@).contains(#[trigger] self.keys()[y]),
        {
            if schema.resolve(&self.fields[k].0).is_err() {
                proof {
                    assert(self.keys()[k as int] == self.fields@[k as int].0@);
                }
                return Err(IndexError::UnknownField);
            }
            proof {
                assert(self.keys()[k as int] == self.fields@[k as int].0@);
            }
        }
        for i in 0..n
            invariant
                n == self.fields@.len(),
                self.keys_known(schema@),
                forall|x: int, y: int| 0 <= x < y < i ==> self.keys()[x] != self.keys()[y],
        {
            for j in 0..i
                invariant
                    i < n == self.fields@.len(),
                    self.keys_known(schema@),
                    forall|x: int, y: int| 0 <= x < y < i ==> self.keys()[x] != self.keys()[y],
                    forall|y: int| 0 <= y < j ==> self.keys()[y] != self.keys()[i as int],
            {
                if self.fields[j].0 == self.fields[i].0 {
                    proof {
                        assert(self.keys()[j as int] == self.keys()[i as int]);
                    }
                    return Err(IndexError::DuplicateField);
                }
                proof {
                    assert(self.keys()[j as int] == self.fields@[j as int].0@);
                    assert(self.keys()[i as int] == self.fields@[i as int].0@);
                }
            }
        }
        Ok(())
    }

    /// The value of the named field: the first one listed under that name,
    /// which is the one the document's mapping carries.
    pub fn get(&self, name: &String) -> (r: Option<&String>)
        ensures
            match r {
                Some(v) => self.as_map().contains_key(name@) && v@ == self.as_map()[name@],
                None => !self.as_map().contains_key(name@),
            },
    {
        let n = self.fields.len();
        for k in 0..n
            invariant
                n == self.fields@.len(),
                forall|y: int| 0 <= y < k ==> self.pairs()[y].0 != name@,
        {
            if self.fields[k].0 == *name {
                proof {
                    lemma_map_of_prefix(self.pairs(), name@, k as int);
                    assert(self.pairs().skip(k as int)[0] == self.pairs()[k as int]);
                }
                return Some(&self.fields[k].1);
            }
        }
        proof {
            lemma_map_of_prefix(self.pairs(), name@, n as int);
            assert(self.pairs().skip(n as int) =~= Seq::<(Seq<char>, Seq<char>)>::empty());
        }
        None
    }
}

/// The mapping of a three-pair list, written out as its inserts.
pub(crate) proof fn lemma_map_of_three(p: Seq<(Seq<char>, Seq<char>)>)
    requires
        p.len() == 3,
    ensures
        map_of(p) == Map::<Seq<char>, Seq<char>>::empty().insert(p[2].0, p[2].1).insert(
            p[1].0,
            p[1].1,
        ).insert(p[0].0, p[0].1),
{
    assert(p.skip(2).skip(1) =~= Seq::<(Seq<char>, Seq<char>)>::empty());
    assert(p.skip(1).skip(1) =~= p.skip(2));
    assert(p.skip(2)[0] == p[2]);
    assert(p.skip(1)[0] == p[1]);
    assert(map_of(Seq::<(Seq<char>, Seq<char>)>::empty()) == Map::<Seq<char>, Seq<char>>::empty());
    assert(map_of(p.skip(2)) == Map::<Seq<char>, Seq<char>>::empty().insert(p[2].0, p[2].1));
    assert(map_of(p.skip(1)) == Map::<Seq<char>, Seq<char>>::empty().insert(p[2].0, p[2].1).insert(
        p[1].0,
        p[1].1,
    ));
}

/// When no pair before position `i` carries the key, the mapping of the whole
/// list agrees with the mapping of the tail that starts at `i` on that key.
proof fn lemma_map_of_prefix(pairs: Seq<(Seq<char>, Seq<char>)>, key: Seq<char>, i: int)
    requires
        0 <= i <= pairs.len(),
        forall|y: int| 0 <= y < i ==> pairs[y].0 != key,
    ensures
        map_of(pairs).contains_key(key) == map_of(pairs.skip(i)).contains_key(key),
        map_of(pairs.skip(i)).contains_key(key) ==> map_of(pairs)[key] == map_of(pairs.skip(i))[key],
    decreases i,
{
    if i > 0 {
        lemma_map_of_prefix(pairs, key, i - 1);
        assert(pairs.skip(i - 1).len() > 0);
        assert(pairs.skip(i - 1)[0] == pairs[i - 1]);
        assert(pairs.skip(i - 1).skip(1) =~= pairs.skip(i));
        assert(map_of(pairs.skip(i - 1)) == map_of(pairs.skip(i)).insert(
            pairs[i - 1].0,
            pairs[i - 1].1,
        ));
    } else {
        assert(pairs.skip(0) =~= pairs);
    }
}

} // verus!
