//! The type registry: named struct schemas with ordered field lists.

use vstd::prelude::*;
use crate::strutil::str_eq;

verus! {

/// The view of one registered schema: its name and its ordered
/// (field type, field name) pairs.
pub type SchemaEntry = (Seq<char>, Seq<(Seq<char>, Seq<char>)>);

/// The views of a field list: (type, name) character sequences, in order.
pub open spec fn fields_views(fields: Seq<(String, String)>) -> Seq<(Seq<char>, Seq<char>)> {
    fields.map_values(|f: (String, String)| (f.0@, f.1@))
}

/// The fields of the first schema named `name`, if any is registered.
pub open spec fn lookup_entries(entries: Seq<SchemaEntry>, name: Seq<char>) -> Option<
    Seq<(Seq<char>, Seq<char>)>,
>
    decreases entries.len(),
{
    if entries.len() == 0 {
        None
    } else if entries[0].0 == name {
        Some(entries[0].1)
    } else {
        lookup_entries(entries.drop_first(), name)
    }
}

/// Registering a schema replaces the entry of the same name in place, or
/// appends a new entry.
pub open spec fn define_entries(
    entries: Seq<SchemaEntry>,
    name: Seq<char>,
    fields: Seq<(Seq<char>, Seq<char>)>,
) -> Seq<SchemaEntry>
    decreases entries.len(),
{
    if entries.len() == 0 {
        seq![(name, fields)]
    } else if entries[0].0 == name {
        seq![(name, fields)] + entries.drop_first()
    } else {
        seq![entries[0]] + define_entries(entries.drop_first(), name, fields)
    }
}

/// A registry of named struct schemas: a mapping from schema name to an
/// ordered field list. Names are unique; field order is fixed at definition
/// time and never reordered.
pub struct Registry {
    schemas: Vec<(String, Vec<(String, String)>)>,
}

impl Registry {
    /// The registered schemas, in definition order.
    pub closed spec fn entries(self) -> Seq<SchemaEntry> {
        self.schemas@.map_values(
            |p: (String, Vec<(String, String)>)| (p.0@, fields_views(p.1@)),
        )
    }

    /// Schema names are unique.
    pub open spec fn wf(self) -> bool {
        forall|i: int, j: int|
            0 <= i < j < self.entries().len() ==> (#[trigger] self.entries()[i]).0 != (
            #[trigger] self.entries()[j]).0
    }

    /// An empty registry.
    pub fn new() -> (r: Registry)
        ensures
            r.entries() == Seq::<SchemaEntry>::empty(),
            r.wf(),
    {
        let r = Registry { schemas: Vec::new() };
        proof {
            assert(r.entries() =~= Seq::<SchemaEntry>::empty());
        }
        r
    }

    /// The number of registered schemas.
    pub fn len(&self) -> (n: usize)
        ensures
            n == self.entries().len(),
    {
        self.schemas.len()
    }

    /// Registers a schema under `name`, replacing any schema of that name.
    pub fn define(&mut self, name: String, fields: Vec<(String, String)>)
        ensures
            final(self).entries() == define_entries(
                old(self).entries(),
                name@,
                fields_views(fields@),
            ),
            old(self).wf() ==> final(self).wf(),
    {
        let ghost e = old(self).entries();
        let ghost nv = name@;
        let ghost fv = fields_views(fields@);
        proof {
            assert(e.skip(0) =~= e);
            assert(e.take(0) + define_entries(e, nv, fv) =~= define_entries(e, nv, fv));
        }
        let mut i: usize = 0;
        while i < self.schemas.len()
            invariant
                i <= e.len(),
                e == self.entries(),
                e == old(self).entries(),
                nv == name@,
                fv == fields_views(fields@),
                forall|j: int| 0 <= j < i ==> (#[trigger] e[j]).0 != nv,
                define_entries(e, nv, fv) == e.take(i as int) + define_entries(
                    e.skip(i as int),
                    nv,
                    fv,
                ),
            decreases e.len() - i,
        {
            proof {
                assert(e.skip(i as int)[0] == e[i as int]);
                assert(e.skip(i as int).drop_first() =~= e.skip(i as int + 1));
            }
            if str_eq(self.schemas[i].0.as_str(), name.as_str()) {
                proof {
                    assert(e[i as int].0 == nv);
                    assert(define_entries(e.skip(i as int), nv, fv) == seq![(nv, fv)] + e.skip(
                        i as int + 1,
                    ));
                }
                self.schemas.remove(i);
                self.schemas.insert(i, (name, fields));
                proof {
                    assert(self.entries() =~= e.take(i as int) + (seq![(nv, fv)] + e.skip(
                        i as int + 1,
                    )));
                    assert(self.entries().len() == e.len());
                    assert(forall|k: int|
                        0 <= k < e.len() ==> (#[trigger] self.entries()[k]).0 == e[k].0);
                    assert(self.entries() == define_entries(e, nv, fv));
                }
                return ;
            }
            proof {
                assert(define_entries(e.skip(i as int), nv, fv) == seq![e[i as int]]
                    + define_entries(e.skip(i as int + 1), nv, fv));
                assert(e.take(i as int) + (seq![e[i as int]] + define_entries(
                    e.skip(i as int + 1),
                    nv,
                    fv,
                )) =~= e.take(i as int + 1) + define_entries(e.skip(i as int + 1), nv, fv));
            }
            i += 1;
        }
        proof {
            assert(e.skip(e.len() as int) =~= Seq::<SchemaEntry>::empty());
        }
        self.schemas.push((name, fields));
        proof {
            assert(self.entries() =~= e + seq![(nv, fv)]);
            assert(e.take(e.len() as int) =~= e);
            assert(self.entries() =~= define_entries(e, nv, fv));
            assert(forall|k: int|
                0 <= k < e.len() ==> (#[trigger] self.entries()[k]).0 == e[k].0);
            assert(self.entries()[e.len() as int].0 == nv);
            assert(self.entries() == define_entries(e, nv, fv));
        }
    }

    /// The field list registered under `name`, if any; absence is not an
    /// error, it only means `name` is not a struct type.
    pub(crate) fn lookup_ref<'a>(&'a self, name: &str) -> (r: Option<&'a Vec<(String, String)>>)
        ensures
            match r {
                Some(fields) => lookup_entries(self.entries(), name@) == Some(
                    fields_views(fields@),
                ),
                None => lookup_entries(self.entries(), name@) is None,
            },
    {
        let ghost e = self.entries();
        proof {
            assert(e.skip(0) =~= e);
        }
        let mut i: usize = 0;
        while i < self.schemas.len()
            invariant
                i <= e.len(),
                e == self.entries(),
                lookup_entries(e, name@) == lookup_entries(e.skip(i as int), name@),
            decreases e.len() - i,
        {
            proof {
                assert(e.skip(i as int)[0] == e[i as int]);
                assert(e.skip(i as int).drop_first() =~= e.skip(i as int + 1));
            }
            if str_eq(self.schemas[i].0.as_str(), name) {
                proof {
                    assert(e[i as int].0 == name@);
                    assert(lookup_entries(e.skip(i as int), name@) == Some(e[i as int].1));
                }
                return Some(&self.schemas[i].1);
            }
            i += 1;
        }
        proof {
            assert(e.skip(e.len() as int) =~= Seq::<SchemaEntry>::empty());
        }
        None
    }

    /// Whether a schema named `name` is registered.
    pub fn contains_schema(&self, name: &str) -> (r: bool)
        ensures
            r == (lookup_entries(self.entries(), name@) is Some),
    {
        match self.lookup_ref(name) {
            Some(_) => true,
            None => false,
        }
    }

    /// The field list registered under `name`, copied out, if any.
    pub fn lookup(&self, name: &str) -> (r: Option<Vec<(String, String)>>)
        ensures
            match r {
                Some(fields) => lookup_entries(self.entries(), name@) == Some(
                    fields_views(fields@),
                ),
                None => lookup_entries(self.entries(), name@) is None,
            },
    {
        match self.lookup_ref(name) {
            Some(fields) => {
                let mut out: Vec<(String, String)> = Vec::new();
                let mut i: usize = 0;
                while i < fields.len()
                    invariant
                        i <= fields@.len(),
                        out@.len() == i,
                        forall|j: int| 0 <= j < i ==> out@[j] == fields@[j],
                    decreases fields@.len() - i,
                {
                    out.push((fields[i].0.clone(), fields[i].1.clone()));
                    i += 1;
                }
                proof {
                    assert(out@ =~= fields@);
                }
                Some(out)
            },
            None => None,
        }
    }
}

} // verus!
