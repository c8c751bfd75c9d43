//! The in-memory record cache: all committed records, in ascending id
//! order. The persistence collaborator hands rows in; the cache never
//! changes except through the operations here.

use vstd::prelude::*;
use crate::house::House;
use crate::house::committed_house;
use crate::house::kind_index_of;

verus! {

/// Field-wise equality of two records.
pub open spec fn house_eq(a: House, b: House) -> bool {
    &&& a.id == b.id
    &&& a.kind@ == b.kind@
    &&& a.street@ == b.street@
    &&& a.number == b.number
    &&& a.floor == b.floor
    &&& a.postcode == b.postcode
    &&& a.rooms == b.rooms
    &&& a.baths == b.baths
    &&& a.area == b.area
}

impl Clone for House {
    /// A field-for-field copy of the record.
    fn clone(&self) -> (r: Self)
        ensures
            house_eq(r, *self),
    {
        House {
            id: self.id,
            kind: self.kind.clone(),
            street: self.street.clone(),
            number: self.number,
            floor: self.floor,
            postcode: self.postcode,
            rooms: self.rooms,
            baths: self.baths,
            area: self.area,
        }
    }
}

/// Record ids strictly ascend along the sequence; in particular they are
/// unique.
pub open spec fn ids_ascending(s: Seq<House>) -> bool {
    forall|i: int, j: int| 0 <= i < j < s.len() ==> s[i].id < s[j].id
}

/// Every record of the sequence is a well-formed committed record.
pub open spec fn all_committed(s: Seq<House>) -> bool {
    forall|i: int| 0 <= i < s.len() ==> committed_house(s[i])
}

/// Some record of the sequence carries the given id.
pub open spec fn contains_id(s: Seq<House>, id: int) -> bool {
    exists|i: int| 0 <= i < s.len() && s[i].id == id
}

/// Whether the record is well-formed for the cache.
pub fn is_committed(h: &House) -> (r: bool)
    ensures
        r == committed_house(*h),
{
    h.id >= 0 && h.number >= 0 && h.floor >= 0 && h.postcode >= 0 && h.rooms >= 0 && h.baths >= 0
        && h.area >= 0 && kind_index_of(&h.kind) >= 0
}

/// The record cache. Its contents are the authoritative committed records,
/// in ascending id order.
pub struct Store {
    houses: Vec<House>,
}

impl View for Store {
    type V = Seq<House>;

    closed spec fn view(&self) -> Seq<House> {
        self.houses@
    }
}

impl Store {
    /// Cache invariant: ascending unique ids, every record well formed.
    pub open spec fn wf(self) -> bool {
        ids_ascending(self@) && all_committed(self@)
    }

    /// An empty cache.
    pub fn new() -> (r: Store)
        ensures
            r@ =~= Seq::<House>::empty(),
            r.wf(),
    {
        Store { houses: Vec::new() }
    }

    /// Number of cached records.
    pub fn len(&self) -> (r: usize)
        ensures
            r == self@.len(),
    {
        self.houses.len()
    }

    /// The cached record at an index.
    pub fn at(&self, k: usize) -> (r: &House)
        requires
            k < self@.len(),
        ensures
            *r == self@[k as int],
    {
        &self.houses[k]
    }

    /// The cached records, in ascending id order.
    pub fn records(&self) -> (r: &Vec<House>)
        ensures
            r@ == self@,
    {
        &self.houses
    }

    /// Replaces the whole cache with the rows the persistence collaborator
    /// returned. The rows must arrive in ascending id order and be well
    /// formed; otherwise the collaborator broke its contract and the cache
    /// stays as it was.
    pub fn load(&mut self, rows: Vec<House>) -> (ok: bool)
        ensures
            ok == (ids_ascending(rows@) && all_committed(rows@)),
            ok ==> final(self)@ == rows@ && final(self).wf(),
            !ok ==> final(self)@ == old(self)@,
    {
        let n = rows.len();
        let mut i: usize = 0;
        while i < n
            invariant
                0 <= i <= n,
                n == rows@.len(),
                forall|a: int, b: int| 0 <= a < b < i ==> rows@[a].id < rows@[b].id,
                forall|a: int| 0 <= a < i ==> committed_house(rows@[a]),
            decreases n - i,
        {
            if !is_committed(&rows[i]) {
                return false;
            }
            if i > 0 && rows[i - 1].id >= rows[i].id {
                return false;
            }
            proof {
                assert(forall|a: int| 0 <= a < i - 1 ==> (#[trigger] rows@[a]).id < rows@[
                    i - 1
                ].id);
            }
            i += 1;
        }
        self.houses = rows;
        true
    }

    /// Index of the record with the given id, if any is cached.
    pub fn find_id(&self, id: i32) -> (r: Option<usize>)
        ensures
            match r {
                Some(k) => 0 <= k < self@.len() && self@[k as int].id == id,
                None => !contains_id(self@, id as int),
            },
    {
        let n = self.houses.len();
        let mut i: usize = 0;
        while i < n
            invariant
                0 <= i <= n,
                n == self@.len(),
                forall|a: int| 0 <= a < i ==> self@[a].id != id,
            decreases n - i,
        {
            if self.houses[i].id == id {
                return Some(i);
            }
            i += 1;
        }
        None
    }

    /// The cached record with the given id, or nothing: a stale id
    /// resolves to "nothing selected".
    pub fn get(&self, id: i32) -> (r: Option<&House>)
        ensures
            match r {
                Some(h) => self@.contains(*h) && h.id == id,
                None => !contains_id(self@, id as int),
            },
    {
        match self.find_id(id) {
            Some(k) => {
                let h = &self.houses[k];
                proof {
                    assert(self@[k as int] == *h);
                }
                Some(h)
            },
            None => None,
        }
    }

    /// Adds a freshly committed record, keeping ascending id order. The
    /// persistence collaborator has already assigned the id, which must be
    /// new to the cache.
    pub fn insert_committed(&mut self, h: House) -> (k: usize)
        requires
            old(self).wf(),
            committed_house(h),
            !contains_id(old(self)@, h.id as int),
        ensures
            final(self).wf(),
            0 <= k <= old(self)@.len(),
            final(self)@ == old(self)@.insert(k as int, h),
            contains_id(final(self)@, h.id as int),
    {
        let n = self.houses.len();
        let mut i: usize = 0;
        while i < n && self.houses[i].id < h.id
            invariant
                0 <= i <= n,
                n == self@.len(),
                self@ == old(self)@,
                forall|a: int| 0 <= a < i ==> self@[a].id < h.id,
            decreases n - i,
        {
            i += 1;
        }
        proof {
            if i < self@.len() {
                assert(self@[i as int].id >= h.id);
                assert(self@[i as int].id != h.id);
            }
        }
        self.houses.insert(i, h);
        proof {
            let s = self@;
            let o = old(self)@;
            assert(forall|a: int, b: int| 0 <= a < b < s.len() ==> s[a].id < s[b].id) by {
                assert(forall|a: int| 0 <= a < i ==> s[a] == o[a]);
                assert(s[i as int] == h);
                assert(forall|a: int| i < a < s.len() ==> s[a] == o[a - 1]);
                assert(forall|a: int| i <= a < o.len() ==> o[a].id > h.id) by {
                    assert(forall|a: int| i < a < o.len() ==> o[i as int].id < o[a].id);
                }
            }
            assert(contains_id(s, h.id as int)) by {
                assert(s[i as int] == h);
            }
        }
        i
    }

    /// Replaces the cached record that carries the same id as the given
    /// record.
    pub fn update_committed(&mut self, h: House) -> (ok: bool)
        requires
            old(self).wf(),
            committed_house(h),
        ensures
            final(self).wf(),
            ok == contains_id(old(self)@, h.id as int),
            ok ==> exists|k: int|
                0 <= k < old(self)@.len() && old(self)@[k].id == h.id && final(self)@ == old(
                    self,
                )@.update(k, h),
            !ok ==> final(self)@ == old(self)@,
    {
        match self.find_id(h.id) {
            Some(k) => {
                proof {
                    let o = old(self)@;
                    let s = o.update(k as int, h);
                    assert(forall|a: int, b: int| 0 <= a < b < s.len() ==> s[a].id < s[b].id) by {
                        assert(forall|a: int| 0 <= a < s.len() && a != k ==> s[a] == o[a]);
                        assert(s[k as int].id == o[k as int].id);
                    }
                }
                self.houses.set(k, h);
                true
            },
            None => false,
        }
    }

    /// Removes the record with the given id from the cache, reporting
    /// whether one was there; no other record is touched.
    pub fn remove_id(&mut self, id: i32) -> (ok: bool)
        requires
            old(self).wf(),
        ensures
            final(self).wf(),
            ok == contains_id(old(self)@, id as int),
            ok ==> exists|k: int|
                0 <= k < old(self)@.len() && old(self)@[k].id == id && final(self)@ == old(
                    self,
                )@.remove(k),
            !ok ==> final(self)@ == old(self)@,
            !contains_id(final(self)@, id as int),
    {
        match self.find_id(id) {
            Some(k) => {
                proof {
                    let o = old(self)@;
                    let s = o.remove(k as int);
                    assert(forall|a: int, b: int| 0 <= a < b < s.len() ==> s[a].id < s[b].id) by {
                        assert(forall|a: int| 0 <= a < k ==> s[a] == o[a]);
                        assert(forall|a: int| k <= a < s.len() ==> s[a] == o[a + 1]);
                    }
                    assert(!contains_id(s, id as int)) by {
                        assert(forall|a: int| 0 <= a < k ==> o[a].id < o[k as int].id);
                        assert(forall|a: int| k < a < o.len() ==> o[k as int].id < o[a].id);
                    }
                }
                self.houses.remove(k);
                true
            },
            None => false,
        }
    }
}

/// Round trip of a created record: once a record with a fresh id is
/// inserted, looking that id up finds it, and finds it with exactly the
/// fields it was created with — no other record answers to the id.
pub proof fn lemma_create_roundtrip(s: Seq<House>, s2: Seq<House>, k: int, h: House)
    requires
        !contains_id(s, h.id as int),
        0 <= k <= s.len(),
        s2 == s.insert(k, h),
    ensures
        contains_id(s2, h.id as int),
        forall|i: int| 0 <= i < s2.len() && (#[trigger] s2[i]).id == h.id ==> s2[i] == h,
{
    assert(s2[k] == h);
    assert(contains_id(s2, h.id as int));
    assert forall|i: int| 0 <= i < s2.len() && (#[trigger] s2[i]).id == h.id implies s2[i]
        == h by {
        if i < k {
            assert(s2[i] == s[i]);
        } else if i > k {
            assert(s2[i] == s[i - 1]);
        }
    }
}

} // verus!
