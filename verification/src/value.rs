//! Concrete value trees: the data a schema is encoded against.

use vstd::prelude::*;
use crate::strutil::str_eq;

verus! {

/// A dynamically-typed value tree: a string, an unsigned integer, or a
/// mapping from field names to nested values. A value must structurally
/// match the schema it is encoded against; mismatches and absent fields
/// contribute nothing to an encoding rather than raising an error.
pub enum Value {
    Str(String),
    Uint(u64),
    Obj(Vec<(String, Value)>),
}

/// The value of the first entry named `name`, if any.
pub open spec fn entries_get(entries: Seq<(String, Value)>, name: Seq<char>) -> Option<Value>
    decreases entries.len(),
{
    if entries.len() == 0 {
        None
    } else if entries[0].0@ == name {
        Some(entries[0].1)
    } else {
        entries_get(entries.drop_first(), name)
    }
}

/// A value returned by `entries_get` sits in the entry list.
pub proof fn lemma_entries_get_element(entries: Seq<(String, Value)>, name: Seq<char>)
    requires
        entries_get(entries, name) is Some,
    ensures
        exists|i: int|
            0 <= i < entries.len() && (#[trigger] entries[i]).1 == entries_get(
                entries,
                name,
            ).unwrap(),
    decreases entries.len(),
{
    if entries.len() == 0 {
    } else if entries[0].0@ == name {
        assert(entries[0].1 == entries_get(entries, name).unwrap());
    } else {
        lemma_entries_get_element(entries.drop_first(), name);
        let i = choose|i: int|
            0 <= i < entries.drop_first().len() && (#[trigger] entries.drop_first()[i]).1
                == entries_get(entries.drop_first(), name).unwrap();
        assert(entries[i + 1] == entries.drop_first()[i]);
    }
}

impl Value {
    /// The field named `name` of a mapping value; a non-mapping has no
    /// fields.
    pub open spec fn get_spec(self, name: Seq<char>) -> Option<Value> {
        match self {
            Value::Obj(entries) => entries_get(entries@, name),
            _ => None,
        }
    }

    /// Looks up the field named `name`, where `self` is a mapping that holds
    /// it.
    pub fn get<'a>(&'a self, name: &str) -> (r: Option<&'a Value>)
        ensures
            match r {
                Some(v) => self.get_spec(name@) == Some(*v),
                None => self.get_spec(name@) is None,
            },
    {
        match self {
            Value::Obj(entries) => {
                let ghost es = entries@;
                proof {
                    assert(es.skip(0) =~= es);
                }
                let mut i: usize = 0;
                while i < entries.len()
                    invariant
                        i <= es.len(),
                        es == entries@,
                        self.get_spec(name@) == entries_get(es, name@),
                        entries_get(es, name@) == entries_get(es.skip(i as int), name@),
                    decreases es.len() - i,
                {
                    proof {
                        assert(es.skip(i as int)[0] == es[i as int]);
                        assert(es.skip(i as int).drop_first() =~= es.skip(i as int + 1));
                    }
                    if str_eq(entries[i].0.as_str(), name) {
                        proof {
                            assert(es[i as int].0@ == name@);
                            assert(entries_get(es.skip(i as int), name@) == Some(es[i as int].1));
                        }
                        return Some(&entries[i].1);
                    }
                    i += 1;
                }
                proof {
                    assert(es.skip(es.len() as int) =~= Seq::<(String, Value)>::empty());
                }
                None
            },
            _ => None,
        }
    }
}

} // verus!
