//! The record filter: a conjunction of per-field predicates. Text fields are
//! matched fuzzily through strsim's Jaro-Winkler similarity, numeric fields
//! through inclusive ranges.

use vstd::prelude::*;
use crate::house::House;
use crate::house::nonneg_fields;

verus! {

/// Whether strsim's Jaro-Winkler similarity of the two character sequences
/// exceeds the match threshold. The similarity is a pure function of the two
/// sequences, so the predicate gets a name rather than a definition.
pub uninterp spec fn similar(a: Seq<char>, b: Seq<char>) -> bool;

/// Bit pattern of the similarity threshold 0.69 as an IEEE-754 double.
/// Non-negative doubles order the same way as their bit patterns, so the
/// threshold test can be done on bits, which keeps floating point out of
/// the verified surface.
pub const SIMILARITY_THRESHOLD_BITS: u64 = 0x3FE6147AE147AE14;

/// Relies on strsim::jaro_winkler: the similarity depends on the two
/// character sequences alone and lies in [0, 1]; equal sequences score 1.0
/// and a pair of which exactly one side is empty scores 0.0, while the
/// threshold is 0.69, so those two cases decide the comparison.
#[verifier::external_body]
fn jaro_winkler_exceeds(a: &str, b: &str) -> (r: bool)
    ensures
        r == similar(a@, b@),
        a@ == b@ ==> r,
        (a@.len() == 0) != (b@.len() == 0) ==> !r,
{
    let sim = strsim::jaro_winkler(a, b);
    sim.to_bits() > SIMILARITY_THRESHOLD_BITS
}

/// A fuzzy text predicate: the empty pattern accepts everything, any other
/// pattern accepts the values it is similar to.
pub open spec fn text_matches(pattern: Seq<char>, value: Seq<char>) -> bool {
    pattern.len() == 0 || similar(pattern, value)
}

/// An inclusive numeric range predicate.
pub open spec fn in_range(min: int, max: int, value: int) -> bool {
    min <= value <= max
}

/// Fuzzy text match rule for one field.
pub struct Text {
    pub text: String,
}

impl Text {
    /// Whether this rule accepts the given field text.
    pub fn apply(&self, value: &str) -> (r: bool)
        ensures
            r == text_matches(self.text@, value@),
    {
        self.text.as_str().unicode_len() == 0 || jaro_winkler_exceeds(self.text.as_str(), value)
    }
}

impl Default for Text {
    /// The default rule has an empty pattern and so accepts every value.
    fn default() -> (r: Text)
        ensures
            r.text@.len() == 0,
    {
        Text { text: String::new() }
    }
}

/// Inclusive numeric range rule for one field, in the field's own unit.
pub struct Range {
    pub min: i32,
    pub max: i32,
}

impl Range {
    /// Whether the value lies within the range, bounds included.
    pub fn apply(&self, value: i32) -> (r: bool)
        ensures
            r == in_range(self.min as int, self.max as int, value as int),
    {
        self.min <= value && value <= self.max
    }
}

impl Default for Range {
    /// The default range is unconstrained: every non-negative value lies in it.
    fn default() -> (r: Range)
        ensures
            r.min == 0,
            r.max == i32::MAX,
    {
        Range { min: 0, max: i32::MAX }
    }
}

/// The whole filter: one rule per record field, all of which must accept.
pub struct Filter {
    pub kind: Text,
    pub street: Text,
    pub number: Range,
    pub floor: Range,
    pub postcode: Range,
    pub rooms: Range,
    pub baths: Range,
    pub area: Range,
}

/// What it means for a record to pass the filter: every per-field rule holds.
pub open spec fn filter_matches(f: Filter, h: House) -> bool {
    &&& text_matches(f.kind.text@, h.kind@)
    &&& text_matches(f.street.text@, h.street@)
    &&& in_range(f.number.min as int, f.number.max as int, h.number as int)
    &&& in_range(f.floor.min as int, f.floor.max as int, h.floor as int)
    &&& in_range(f.postcode.min as int, f.postcode.max as int, h.postcode as int)
    &&& in_range(f.rooms.min as int, f.rooms.max as int, h.rooms as int)
    &&& in_range(f.baths.min as int, f.baths.max as int, h.baths as int)
    &&& in_range(f.area.min as int, f.area.max as int, h.area as int)
}

/// A filter with every rule at its default.
pub open spec fn default_filter(f: Filter) -> bool {
    &&& f.kind.text@.len() == 0
    &&& f.street.text@.len() == 0
    &&& f.number.min == 0 && f.number.max == i32::MAX
    &&& f.floor.min == 0 && f.floor.max == i32::MAX
    &&& f.postcode.min == 0 && f.postcode.max == i32::MAX
    &&& f.rooms.min == 0 && f.rooms.max == i32::MAX
    &&& f.baths.min == 0 && f.baths.max == i32::MAX
    &&& f.area.min == 0 && f.area.max == i32::MAX
}

impl Filter {
    /// Whether the record passes every per-field rule of this filter.
    pub fn valid(&self, house: &House) -> (r: bool)
        ensures
            r == filter_matches(*self, *house),
    {
        self.kind.apply(house.kind.as_str()) && self.street.apply(house.street.as_str())
            && self.number.apply(house.number) && self.floor.apply(house.floor)
            && self.postcode.apply(house.postcode) && self.rooms.apply(house.rooms)
            && self.baths.apply(house.baths) && self.area.apply(house.area)
    }
}

impl Default for Filter {
    /// The "no filter" state: every rule at its default.
    fn default() -> (r: Filter)
        ensures
            default_filter(r),
    {
        Filter {
            kind: Text::default(),
            street: Text::default(),
            number: Range::default(),
            floor: Range::default(),
            postcode: Range::default(),
            rooms: Range::default(),
            baths: Range::default(),
            area: Range::default(),
        }
    }
}

/// The subsequence of records that pass the filter, in their original
/// order.
pub open spec fn filtered_houses(s: Seq<House>, f: Filter) -> Seq<House>
    decreases s.len(),
{
    if s.len() == 0 {
        Seq::empty()
    } else {
        let rest = filtered_houses(s.drop_last(), f);
        if filter_matches(f, s.last()) {
            rest.push(s.last())
        } else {
            rest
        }
    }
}

/// Filter soundness and completeness: the visible records are exactly the
/// stored records that the filter accepts — every visible record is stored
/// and accepted, and no stored accepted record is left out.
pub proof fn lemma_filtered_sound_complete(s: Seq<House>, f: Filter)
    ensures
        forall|h: House| #[trigger] filtered_houses(s, f).contains(h) ==> s.contains(h)
            && filter_matches(f, h),
        forall|h: House| s.contains(h) && filter_matches(f, h) ==> filtered_houses(s, f).contains(
            h,
        ),
    decreases s.len(),
{
    let vis = filtered_houses(s, f);
    if s.len() == 0 {
        assert(forall|h: House| !s.contains(h));
        assert(forall|h: House| !vis.contains(h));
    } else {
        let rest = s.drop_last();
        let vrest = filtered_houses(rest, f);
        lemma_filtered_sound_complete(rest, f);
        assert forall|h: House| #[trigger] vis.contains(h) implies s.contains(h)
            && filter_matches(f, h) by {
            if filter_matches(f, s.last()) && h == s.last() {
                assert(s[s.len() - 1] == h);
            } else {
                assert(vrest.contains(h)) by {
                    let k = choose|k: int| 0 <= k < vis.len() && vis[k] == h;
                    if filter_matches(f, s.last()) {
                        assert(vis[k] == vrest[k] || vis[k] == s.last());
                    }
                }
                assert(rest.contains(h));
                let k = choose|k: int| 0 <= k < rest.len() && rest[k] == h;
                assert(s[k] == h);
            }
        }
        assert forall|h: House| s.contains(h) && filter_matches(f, h) implies vis.contains(h) by {
            let k = choose|k: int| 0 <= k < s.len() && s[k] == h;
            if k < s.len() - 1 {
                assert(rest[k] == h);
                assert(vrest.contains(h));
                let j = choose|j: int| 0 <= j < vrest.len() && vrest[j] == h;
                assert(vis[j] == h);
            } else {
                assert(h == s.last());
                assert(vis.last() == h);
            }
        }
    }
}

/// Filtering keeps the ascending id order of the record cache.
pub proof fn lemma_filtered_ascending(s: Seq<House>, f: Filter)
    requires
        crate::store::ids_ascending(s),
    ensures
        crate::store::ids_ascending(filtered_houses(s, f)),
    decreases s.len(),
{
    if s.len() > 0 {
        let rest = s.drop_last();
        let vrest = filtered_houses(rest, f);
        assert(crate::store::ids_ascending(rest));
        lemma_filtered_ascending(rest, f);
        lemma_filtered_sound_complete(rest, f);
        if filter_matches(f, s.last()) {
            let vis = filtered_houses(s, f);
            assert forall|i: int, j: int| 0 <= i < j < vis.len() implies vis[i].id < vis[j].id by {
                if j < vis.len() - 1 {
                    assert(vrest[i].id < vrest[j].id);
                } else {
                    assert(vis[j] == s.last());
                    assert(vrest.contains(vrest[i]));
                    assert(rest.contains(vrest[i]));
                    let k = choose|k: int| 0 <= k < rest.len() && rest[k] == vis[i];
                    assert(s[k].id < s.last().id);
                }
            }
        }
    }
}

/// Every record of the filtered subsequence is well formed when every
/// stored record is.
pub proof fn lemma_filtered_committed(s: Seq<House>, f: Filter)
    requires
        crate::store::all_committed(s),
    ensures
        crate::store::all_committed(filtered_houses(s, f)),
    decreases s.len(),
{
    if s.len() > 0 {
        let rest = s.drop_last();
        assert(crate::store::all_committed(rest));
        lemma_filtered_committed(rest, f);
    }
}

/// The empty text pattern accepts every value.
pub proof fn lemma_empty_pattern_matches_all(value: Seq<char>)
    ensures
        text_matches(Seq::<char>::empty(), value),
{
}

/// A filter with every rule at its default accepts every record whose
/// numeric fields are non-negative; it is the "no filter" state.
pub proof fn lemma_default_filter_matches_all(f: Filter, h: House)
    requires
        default_filter(f),
        nonneg_fields(h),
    ensures
        filter_matches(f, h),
{
}

} // verus!
