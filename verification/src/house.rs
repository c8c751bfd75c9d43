//! The housing-unit record and its basic well-formedness rules.

use vstd::prelude::*;

verus! {

/// Error of the persistence collaborator: an operation against the backing
/// store failed. The store reports no further detail, so neither do we.
pub struct Error;

/// One housing-unit record.
///
/// All numeric fields are plain integers. The floor area is kept in
/// hundredths of a square metre (`area == 12050` means 120.50 m2), so the
/// whole record stays in integer arithmetic.
///
/// `id == -1` marks a record that has not been committed yet; the store
/// assigns a non-negative id on creation.
#[derive(Debug)]
pub struct House {
    pub id: i32,
    pub kind: String,
    pub street: String,
    pub number: i32,
    pub floor: i32,
    pub postcode: i32,
    pub rooms: i32,
    pub baths: i32,
    pub area: i32,
}

/// The fixed enumeration of housing-type labels, as character sequences.
pub open spec fn kind_labels() -> Seq<Seq<char>> {
    seq!["Casa"@, "Loft"@, "Chalet"@, "Dúplex"@, "Apartamento"@]
}

/// Index of a kind label within the fixed enumeration, or -1 when the
/// text is none of the labels.
pub open spec fn spec_kind_index(k: Seq<char>) -> int {
    if k == kind_labels()[0] {
        0
    } else if k == kind_labels()[1] {
        1
    } else if k == kind_labels()[2] {
        2
    } else if k == kind_labels()[3] {
        3
    } else if k == kind_labels()[4] {
        4
    } else {
        -1
    }
}

/// A kind text is valid when it is one of the fixed labels.
pub open spec fn valid_kind(k: Seq<char>) -> bool {
    spec_kind_index(k) >= 0
}

/// The numeric fields of a record are all non-negative. Every persisted
/// record satisfies this; the filter never matches a record that does not.
pub open spec fn nonneg_fields(h: House) -> bool {
    &&& h.number >= 0
    &&& h.floor >= 0
    &&& h.postcode >= 0
    &&& h.rooms >= 0
    &&& h.baths >= 0
    &&& h.area >= 0
}

/// Well-formedness of a committed (persisted) record: a non-negative id,
/// non-negative numeric fields, and a kind out of the fixed enumeration.
pub open spec fn committed_house(h: House) -> bool {
    &&& h.id >= 0
    &&& nonneg_fields(h)
    &&& valid_kind(h.kind@)
}

/// The fixed enumeration of housing-type labels, for display and lookup.
pub fn house_types() -> (r: Vec<String>)
    ensures
        r@.len() == kind_labels().len(),
        forall|i: int| 0 <= i < r@.len() ==> r@[i]@ == kind_labels()[i],
{
    let mut r: Vec<String> = Vec::new();
    r.push(String::from_str("Casa"));
    r.push(String::from_str("Loft"));
    r.push(String::from_str("Chalet"));
    r.push(String::from_str("Dúplex"));
    r.push(String::from_str("Apartamento"));
    r
}

/// Position of a kind text within the fixed enumeration, -1 when absent.
pub fn kind_index_of(kind: &String) -> (r: i32)
    ensures
        r == spec_kind_index(kind@),
{
    let types = house_types();
    if *kind == types[0] {
        0
    } else if *kind == types[1] {
        1
    } else if *kind == types[2] {
        2
    } else if *kind == types[3] {
        3
    } else if *kind == types[4] {
        4
    } else {
        -1
    }
}

/// The label of the fixed enumeration at a given position.
pub fn kind_label(index: i32) -> (r: String)
    requires
        0 <= index < kind_labels().len(),
    ensures
        r@ == kind_labels()[index as int],
{
    let types = house_types();
    let i = index as usize;
    types[i].clone()
}

} // verus!
