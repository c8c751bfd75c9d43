//! The selection list model: a 1-based mapping from visible row position
//! to record id, with a human-readable label per row and, while a new
//! record is being created, one trailing placeholder row without an id.
//! Position 0 always means "nothing selected".

use vstd::prelude::*;
use crate::filter::Filter;
use crate::filter::filtered_houses;
use crate::house::House;
use crate::numtext::dec_digits;
use crate::numtext::nonneg_to_string;
use crate::store::contains_id;
use crate::store::ids_ascending;

verus! {

/// One visible row: its record id — none for the placeholder row — and
/// its display label.
pub struct Entry {
    pub id: Option<i32>,
    pub label: String,
}

/// The display label of a record row: the street, then the house number.
pub open spec fn label_of(street: Seq<char>, number: int) -> Seq<char> {
    street + " al "@ + dec_digits(number)
}

/// Builds the display label of a record row.
pub fn house_label(street: &String, number: i32) -> (r: String)
    requires
        number >= 0,
    ensures
        r@ == label_of(street@, number as int),
{
    let mut r = street.clone();
    r.append(" al ");
    r.append(nonneg_to_string(number).as_str());
    r
}

/// The label of the placeholder row for a record being created.
pub open spec fn placeholder_label() -> Seq<char> {
    "«nuevo»"@
}

/// The marker text of the placeholder row.
pub fn placeholder_marker() -> (r: &'static str)
    ensures
        r@ == placeholder_label(),
{
    "«nuevo»"
}

/// The rows of the list correspond to the visible records: same length,
/// and each row carries the record's id and label.
pub open spec fn rows_match(rows: Seq<Entry>, vis: Seq<House>) -> bool {
    &&& rows.len() == vis.len()
    &&& forall|i: int| 0 <= i < vis.len() ==> (#[trigger] rows[i]).id == Some(vis[i].id)
        && rows[i].label@ == label_of(vis[i].street@, vis[i].number as int)
}

/// The rows of a list apart from its placeholder, if one is present.
pub open spec fn base_rows(l: SelectionList) -> Seq<Entry> {
    if l.has_placeholder() {
        l.rows().drop_last()
    } else {
        l.rows()
    }
}

/// The selection list model.
pub struct SelectionList {
    entries: Vec<Entry>,
    selected: usize,
}

impl SelectionList {
    /// The visible rows, top down.
    pub closed spec fn rows(self) -> Seq<Entry> {
        self.entries@
    }

    /// The highlighted position: 0 for none, else 1-based.
    pub closed spec fn sel(self) -> int {
        self.selected as int
    }

    /// List invariant: the highlight is a real position or 0, and only the
    /// last row may be a placeholder without id.
    pub open spec fn wf(self) -> bool {
        &&& 0 <= self.sel() <= self.rows().len()
        &&& forall|i: int| 0 <= i < self.rows().len() - 1 ==> (#[trigger] self.rows()[i]).id
            is Some
    }

    /// Whether the list currently ends in the placeholder row.
    pub open spec fn has_placeholder(self) -> bool {
        self.rows().len() > 0 && self.rows().last().id is None
    }

    /// What a position resolves to: 0 and out-of-range positions mean
    /// nothing, the placeholder row has no id, any other row has its
    /// record's id.
    pub open spec fn spec_resolve(self, pos: int) -> Option<i32> {
        if pos < 1 || pos > self.rows().len() {
            None
        } else {
            self.rows()[pos - 1].id
        }
    }

    /// An empty list with nothing selected.
    pub fn new() -> (r: SelectionList)
        ensures
            r.rows() =~= Seq::<Entry>::empty(),
            r.sel() == 0,
            r.wf(),
    {
        SelectionList { entries: Vec::new(), selected: 0 }
    }

    /// Number of visible rows.
    pub fn len(&self) -> (r: usize)
        ensures
            r == self.rows().len(),
    {
        self.entries.len()
    }

    /// The highlighted position, 0 for none.
    pub fn selected_pos(&self) -> (r: usize)
        ensures
            r == self.sel(),
    {
        self.selected
    }

    /// The record id a position stands for, or nothing for position 0,
    /// positions beyond the list and the placeholder row.
    pub fn resolve(&self, pos: usize) -> (r: Option<i32>)
        ensures
            r == self.spec_resolve(pos as int),
    {
        if pos < 1 || pos > self.entries.len() {
            None
        } else {
            self.entries[pos - 1].id
        }
    }

    /// The label shown at a position.
    pub fn label_at(&self, pos: usize) -> (r: &String)
        requires
            1 <= pos <= self.rows().len(),
        ensures
            r == &self.rows()[pos - 1].label,
    {
        &self.entries[pos - 1].label
    }

    /// Rebuilds the rows from the records that pass the filter, in their
    /// stored (ascending id) order, labelling each. A row keeps the
    /// highlight when its record carries the id to keep; otherwise the
    /// highlight clears. The rebuilt list never contains a placeholder.
    pub fn rebuild(&mut self, houses: &Vec<House>, f: &Filter, keep_id: i32) -> (n: usize)
        requires
            forall|i: int| 0 <= i < houses@.len() ==> (#[trigger] houses@[i]).number >= 0,
        ensures
            final(self).wf(),
            rows_match(final(self).rows(), filtered_houses(houses@, *f)),
            !final(self).has_placeholder(),
            n == final(self).rows().len(),
            contains_id(filtered_houses(houses@, *f), keep_id as int) ==> 1 <= final(self).sel()
                <= final(self).rows().len() && final(self).rows()[final(self).sel() - 1].id
                == Some(keep_id),
            !contains_id(filtered_houses(houses@, *f), keep_id as int) ==> final(self).sel() == 0,
    {
        let len = houses.len();
        let mut entries: Vec<Entry> = Vec::new();
        let mut selected: usize = 0;
        let mut i: usize = 0;
        while i < len
            invariant
                0 <= i <= len,
                len == houses@.len(),
                forall|k: int| 0 <= k < len ==> (#[trigger] houses@[k]).number >= 0,
                rows_match(entries@, filtered_houses(houses@.subrange(0, i as int), *f)),
                0 <= selected <= entries@.len(),
                contains_id(filtered_houses(houses@.subrange(0, i as int), *f), keep_id as int)
                    ==> 1 <= selected && entries@[selected - 1].id == Some(keep_id),
                !contains_id(filtered_houses(houses@.subrange(0, i as int), *f), keep_id as int)
                    ==> selected == 0,
            decreases len - i,
        {
            let ghost pre = filtered_houses(houses@.subrange(0, i as int), *f);
            proof {
                let sub = houses@.subrange(0, i + 1);
                assert(sub.drop_last() =~= houses@.subrange(0, i as int));
                assert(sub.last() == houses@[i as int]);
            }
            let h = &houses[i];
            if f.valid(h) {
                let e = Entry { id: Some(h.id), label: house_label(&h.street, h.number) };
                entries.push(e);
                if h.id == keep_id {
                    selected = entries.len();
                }
                proof {
                    let post = filtered_houses(houses@.subrange(0, i + 1), *f);
                    assert(post == pre.push(houses@[i as int]));
                    if h.id != keep_id && contains_id(post, keep_id as int) {
                        let k = choose|k: int|
                            0 <= k < post.len() && post[k].id == keep_id as int;
                        if k < post.len() - 1 {
                            assert(pre[k].id == keep_id);
                        }
                    }
                    if h.id != keep_id && contains_id(pre, keep_id as int) {
                        let k = choose|k: int| 0 <= k < pre.len() && pre[k].id == keep_id as int;
                        assert(post[k].id == keep_id);
                    }
                    if h.id == keep_id {
                        assert(post[post.len() - 1].id == keep_id as int);
                        assert(contains_id(post, keep_id as int));
                    }
                }
            } else {
                proof {
                    assert(filtered_houses(houses@.subrange(0, i + 1), *f) == pre);
                }
            }
            i += 1;
        }
        proof {
            assert(houses@.subrange(0, len as int) =~= houses@);
        }
        let n = entries.len();
        self.entries = entries;
        self.selected = selected;
        n
    }

    /// Appends the placeholder row for a record being created and
    /// highlights it. Only one placeholder can exist at a time.
    pub fn append_placeholder(&mut self)
        requires
            old(self).wf(),
            !old(self).has_placeholder(),
        ensures
            final(self).wf(),
            final(self).has_placeholder(),
            final(self).rows().len() == old(self).rows().len() + 1,
            forall|i: int| 0 <= i < old(self).rows().len() ==> final(self).rows()[i] == old(
                self,
            ).rows()[i],
            final(self).rows().last().id is None,
            final(self).rows().last().label@ == placeholder_label(),
            final(self).sel() == final(self).rows().len(),
    {
        let e = Entry { id: None, label: placeholder_marker().to_owned() };
        self.entries.push(e);
        self.selected = self.entries.len();
    }

    /// Discards an abandoned placeholder: when the list ends in the
    /// placeholder row and the newly chosen position is a different row,
    /// the placeholder is removed; a highlight that sat on it clears.
    pub fn discard_abandoned(&mut self, pos: usize)
        requires
            old(self).wf(),
        ensures
            final(self).wf(),
            old(self).has_placeholder() && pos != old(self).rows().len() ==> final(self).rows()
                == old(self).rows().drop_last() && !final(self).has_placeholder()
                && final(self).sel() == (if old(self).sel() == old(self).rows().len() {
                0int
            } else {
                old(self).sel()
            }),
            !(old(self).has_placeholder() && pos != old(self).rows().len()) ==> final(self).rows()
                == old(self).rows() && final(self).sel() == old(self).sel(),
    {
        let len = self.entries.len();
        if len > 0 && pos != len {
            let last_is_placeholder = self.entries[len - 1].id.is_none();
            if last_is_placeholder {
                self.entries.pop();
                if self.selected == len {
                    self.selected = 0;
                }
                proof {
                    assert(self.entries@ =~= old(self).rows().drop_last());
                }
            }
        }
    }

    /// Moves the highlight to a position, first discarding an abandoned
    /// placeholder, and reports what the position stands for.
    pub fn select(&mut self, pos: usize) -> (r: Option<i32>)
        requires
            old(self).wf(),
            pos <= old(self).rows().len(),
        ensures
            final(self).wf(),
            old(self).has_placeholder() && pos != old(self).rows().len() ==> final(self).rows()
                == old(self).rows().drop_last() && !final(self).has_placeholder(),
            !(old(self).has_placeholder() && pos != old(self).rows().len()) ==> final(self).rows()
                == old(self).rows(),
            final(self).sel() == pos,
            r == final(self).spec_resolve(pos as int),
    {
        self.discard_abandoned(pos);
        self.selected = pos;
        self.resolve(pos)
    }
}

/// Positions enumerate the visible records contiguously from 1 in
/// ascending id order, and position 0 denotes "none": after a rebuild
/// from an ascending record cache, resolving positions 1..N yields the
/// visible records' ids in strictly ascending order, and position 0
/// resolves to nothing.
pub proof fn lemma_positions_ascending(l: SelectionList, houses: Seq<House>, f: Filter)
    requires
        ids_ascending(houses),
        rows_match(l.rows(), filtered_houses(houses, f)),
    ensures
        l.spec_resolve(0) is None,
        forall|p: int| 1 <= p <= l.rows().len() ==> l.spec_resolve(p) == Some(
            filtered_houses(houses, f)[p - 1].id,
        ),
        forall|p: int, q: int| 1 <= p < q <= l.rows().len() ==> l.spec_resolve(p).unwrap()
            < l.spec_resolve(q).unwrap(),
{
    let vis = filtered_houses(houses, f);
    crate::filter::lemma_filtered_ascending(houses, f);
    assert forall|p: int, q: int| 1 <= p < q <= l.rows().len() implies l.spec_resolve(p).unwrap()
        < l.spec_resolve(q).unwrap() by {
        assert(vis[p - 1].id < vis[q - 1].id);
    }
}

/// Placeholder discard law: once a position other than the placeholder's
/// is selected, the placeholder row is gone — every remaining row carries
/// a record id — and a rebuild never brings one back, as its contract
/// states.
pub proof fn lemma_placeholder_discarded(l0: SelectionList, l1: SelectionList, pos: int)
    requires
        l0.wf(),
        l0.has_placeholder(),
        pos != l0.rows().len(),
        l1.rows() == l0.rows().drop_last(),
    ensures
        !l1.has_placeholder(),
        forall|i: int| 0 <= i < l1.rows().len() ==> (#[trigger] l1.rows()[i]).id is Some,
{
    assert(forall|i: int| 0 <= i < l0.rows().len() - 1 ==> (#[trigger] l0.rows()[i]).id is Some);
    assert(forall|i: int| 0 <= i < l1.rows().len() ==> l1.rows()[i] == l0.rows()[i]);
}

} // verus!
