//! Schema-name interning: a two-way map between schema names and ids.
//!
//! Ids are handed out sequentially starting at 1, and within one job the
//! pairing of names and ids is bijective: interning the same name again
//! yields the same id, and an id looks back up to exactly the name that
//! produced it.

use vstd::prelude::*;
use crate::types::HostError;

verus! {

#[verifier::external_type_specification]
#[verifier::external_body]
#[verifier::reject_recursive_types(L)]
#[verifier::reject_recursive_types(R)]
#[verifier::reject_recursive_types(LS)]
#[verifier::reject_recursive_types(RS)]
pub struct ExBiHashMap<L, R, LS, RS>(bimap::BiHashMap<L, R, LS, RS>);

/// The name-to-id direction of a two-way map.
pub uninterp spec fn bimap_left(m: bimap::BiHashMap<String, u32>) -> Map<Seq<char>, u32>;

/// The id-to-name direction of a two-way map.
pub uninterp spec fn bimap_right(m: bimap::BiHashMap<String, u32>) -> Map<u32, Seq<char>>;

/// Relies on `BiHashMap::new`: the new map holds no pairs, in either
/// direction.
#[verifier::external_body]
fn bimap_new() -> (r: bimap::BiHashMap<String, u32>)
    ensures
        bimap_left(r).is_empty(),
        bimap_right(r).is_empty(),
{
    bimap::BiHashMap::new()
}

/// Relies on `BiHashMap::get_by_left`: the id paired with the given name,
/// if the pair is in the map.
#[verifier::external_body]
fn bimap_get_by_left(m: &bimap::BiHashMap<String, u32>, name: &String) -> (r: Option<u32>)
    ensures
        r is Some <==> bimap_left(*m).dom().contains(name@),
        r matches Some(v) ==> bimap_left(*m)[name@] == v,
{
    m.get_by_left(name).copied()
}

/// Relies on `BiHashMap::get_by_right`: the name paired with the given id,
/// if the pair is in the map.
#[verifier::external_body]
fn bimap_get_by_right(m: &bimap::BiHashMap<String, u32>, id: u32) -> (r: Option<String>)
    ensures
        r is Some <==> bimap_right(*m).dom().contains(id),
        r matches Some(n) ==> bimap_right(*m)[id] == n@,
{
    m.get_by_right(&id).cloned()
}

/// Relies on `BiHashMap::insert`: the pair is added to both directions.
/// With neither side already present, no existing pair is disturbed.
#[verifier::external_body]
fn bimap_insert(m: &mut bimap::BiHashMap<String, u32>, name: String, id: u32)
    requires
        !bimap_left(*old(m)).dom().contains(name@),
        !bimap_right(*old(m)).dom().contains(id),
    ensures
        bimap_left(*final(m)) == bimap_left(*old(m)).insert(name@, id),
        bimap_right(*final(m)) == bimap_right(*old(m)).insert(id, name@),
{
    m.insert(name, id);
}

/// The id that interning `name` yields: the existing id when the name is
/// known, the next sequential id otherwise, and nothing when the 32-bit id
/// space is exhausted.
pub open spec fn intern_id(names: Map<Seq<char>, u32>, count: u32, name: Seq<char>) -> Option<
    u32,
> {
    if names.dom().contains(name) {
        Some(names[name])
    } else if count < u32::MAX {
        Some((count + 1) as u32)
    } else {
        None
    }
}

/// The name-to-id map after interning `name`.
pub open spec fn intern_names(names: Map<Seq<char>, u32>, count: u32, name: Seq<char>) -> Map<
    Seq<char>,
    u32,
> {
    if !names.dom().contains(name) && count < u32::MAX {
        names.insert(name, (count + 1) as u32)
    } else {
        names
    }
}

/// The id count after interning `name`.
pub open spec fn intern_count(names: Map<Seq<char>, u32>, count: u32, name: Seq<char>) -> u32 {
    if !names.dom().contains(name) && count < u32::MAX {
        (count + 1) as u32
    } else {
        count
    }
}

/// The schema-name interner of one job.
pub struct SchemaTable {
    map: bimap::BiHashMap<String, u32>,
    count: u32,
}

impl SchemaTable {
    /// The name-to-id pairing recorded so far.
    pub closed spec fn names(&self) -> Map<Seq<char>, u32> {
        bimap_left(self.map)
    }

    /// The id-to-name pairing recorded so far.
    pub closed spec fn ids(&self) -> Map<u32, Seq<char>> {
        bimap_right(self.map)
    }

    /// How many schema ids have been handed out.
    pub closed spec fn count(&self) -> u32 {
        self.count
    }

    /// The two directions are inverse to each other, and the ids handed out
    /// are exactly 1 up to `count`.
    pub closed spec fn wf(&self) -> bool {
        &&& forall|n: Seq<char>| #[trigger]
            self.names().dom().contains(n) ==> self.ids().dom().contains(self.names()[n])
                && self.ids()[self.names()[n]] == n
        &&& forall|i: u32| #[trigger]
            self.ids().dom().contains(i) ==> self.names().dom().contains(self.ids()[i])
                && self.names()[self.ids()[i]] == i
        &&& forall|i: u32| #[trigger] self.ids().dom().contains(i) <==> 1 <= i <= self.count
    }

    /// An empty interner: no names, no ids.
    pub fn new() -> (r: SchemaTable)
        ensures
            r.wf(),
            r.names().is_empty(),
            r.ids().is_empty(),
            r.count() == 0,
    {
        SchemaTable { map: bimap_new(), count: 0 }
    }

    /// Interns a schema name: hands back the id already paired with it, or
    /// pairs it with the next sequential id. Fails only when the 32-bit id
    /// space is exhausted.
    pub fn intern(&mut self, name: String) -> (r: Result<u32, HostError>)
        requires
            old(self).wf(),
        ensures
            final(self).wf(),
            r is Ok <==> intern_id(old(self).names(), old(self).count(), name@) is Some,
            r matches Ok(id) ==> Some(id) == intern_id(old(self).names(), old(self).count(), name@),
            final(self).names() == intern_names(old(self).names(), old(self).count(), name@),
            final(self).count() == intern_count(old(self).names(), old(self).count(), name@),
            r matches Err(e) ==> e is TableFull && *final(self) == *old(self),
            final(self).ids() == (if !old(self).names().dom().contains(name@) && old(self).count()
                < u32::MAX {
                old(self).ids().insert((old(self).count() + 1) as u32, name@)
            } else {
                old(self).ids()
            }),
    {
        match bimap_get_by_left(&self.map, &name) {
            Some(id) => Ok(id),
            None => {
                if self.count == u32::MAX {
                    Err(HostError::TableFull)
                } else {
                    let id = self.count + 1;
                    proof {
                        assert(!old(self).ids().dom().contains(id));
                    }
                    bimap_insert(&mut self.map, name, id);
                    self.count = id;
                    proof {
                        let names0 = old(self).names();
                        let ids0 = old(self).ids();
                        assert forall|n: Seq<char>| #[trigger]
                            self.names().dom().contains(n) implies self.ids().dom().contains(
                            self.names()[n],
                        ) && self.ids()[self.names()[n]] == n by {
                            if n =~= name@ {
                            } else {
                                assert(names0.dom().contains(n));
                                assert(ids0.dom().contains(names0[n]));
                            }
                        }
                        assert forall|i: u32| #[trigger]
                            self.ids().dom().contains(i) implies self.names().dom().contains(
                            self.ids()[i],
                        ) && self.names()[self.ids()[i]] == i by {
                            if i != id {
                                assert(ids0.dom().contains(i));
                                assert(names0.dom().contains(ids0[i]));
                                assert(ids0[i] !~= name@);
                            }
                        }
                        assert forall|i: u32|
                            #[trigger] self.ids().dom().contains(i) <==> 1 <= i
                                <= self.count by {
                            if self.ids().dom().contains(i) && i != id {
                                assert(ids0.dom().contains(i));
                            }
                        }
                    }
                    Ok(id)
                }
            },
        }
    }

    /// The name paired with an id, if the id was handed out.
    pub fn name_of(&self, id: u32) -> (r: Option<String>)
        requires
            self.wf(),
        ensures
            r is Some <==> self.ids().dom().contains(id),
            r matches Some(n) ==> self.ids()[id] == n@,
    {
        bimap_get_by_right(&self.map, id)
    }

    /// What well-formedness gives a caller: the two directions are
    /// inverse to each other — a name's id looks back up to exactly that
    /// name, an id's name looks back up to exactly that id — and the ids
    /// handed out are exactly 1 up to `count`.
    pub proof fn lemma_inverse(&self)
        requires
            self.wf(),
        ensures
            forall|n: Seq<char>| #[trigger]
                self.names().dom().contains(n) ==> self.ids().dom().contains(self.names()[n])
                    && self.ids()[self.names()[n]] == n,
            forall|i: u32| #[trigger]
                self.ids().dom().contains(i) ==> self.names().dom().contains(self.ids()[i])
                    && self.names()[self.ids()[i]] == i,
            forall|i: u32| #[trigger] self.ids().dom().contains(i) <==> 1 <= i <= self.count(),
    {
    }

    /// Within one job the recorded (name, id) pairs are bijective: two names
    /// carrying the same id are the same name, and the id looks back up to
    /// exactly that name.
    pub proof fn lemma_bijective(&self, n1: Seq<char>, n2: Seq<char>)
        requires
            self.wf(),
            self.names().dom().contains(n1),
            self.names().dom().contains(n2),
            self.names()[n1] == self.names()[n2],
        ensures
            n1 == n2,
            self.ids().dom().contains(self.names()[n1]),
            self.ids()[self.names()[n1]] == n1,
    {
    }
}

/// Interning a name a second time yields the same id and leaves the table
/// unchanged.
pub proof fn lemma_intern_idempotent(names: Map<Seq<char>, u32>, count: u32, name: Seq<char>)
    requires
        intern_id(names, count, name) is Some,
    ensures
        ({
            let names2 = intern_names(names, count, name);
            let count2 = intern_count(names, count, name);
            &&& intern_id(names2, count2, name) == intern_id(names, count, name)
            &&& intern_names(names2, count2, name) == names2
            &&& intern_count(names2, count2, name) == count2
        }),
{
}

} // verus!
