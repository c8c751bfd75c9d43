//! The form state controller: the screen's state machine. It owns the
//! record cache, the active filter and the selection list, holds the form
//! field texts, validates them, and decides for each user action what must
//! happen — including which persistence request the surrounding event loop
//! has to perform on its behalf.

use vstd::prelude::*;
use crate::filter::Filter;
use crate::filter::filtered_houses;
use crate::house::House;
use crate::house::kind_index_of;
use crate::house::kind_label;
use crate::house::kind_labels;
use crate::house::nonneg_fields;
use crate::house::spec_kind_index;
use crate::house::valid_kind;
use crate::numtext::centi_digits;
use crate::numtext::centi_to_string;
use crate::numtext::dec_digits;
use crate::numtext::decimal_centi_value;
use crate::numtext::int_literal_value;
use crate::numtext::nonneg_decimal_text;
use crate::numtext::nonneg_int_text;
use crate::numtext::nonneg_to_string;
use crate::numtext::parse_decimal_centi;
use crate::numtext::parse_i32;
use crate::numtext::spec_trim;
use crate::numtext::test_positive_and_zero_decimal;
use crate::numtext::test_positive_and_zero_number;
use crate::numtext::trim;
use crate::select::SelectionList;
use crate::select::rows_match;
use crate::store::Store;
use crate::store::all_committed;
use crate::store::contains_id;
use crate::store::ids_ascending;

verus! {

/// The form field texts as the user typed them, plus the housing-type
/// choice as its index (-1 while nothing is chosen).
pub struct FormFields {
    pub kind_index: i32,
    pub street: String,
    pub number: String,
    pub floor: String,
    pub postcode: String,
    pub rooms: String,
    pub baths: String,
    pub area: String,
}

/// Per-field validation outcome, for inline highlighting: each failing
/// field is flagged distinctly from the passing ones.
pub struct FieldFlags {
    pub kind_ok: bool,
    pub street_ok: bool,
    pub number_ok: bool,
    pub floor_ok: bool,
    pub postcode_ok: bool,
    pub rooms_ok: bool,
    pub baths_ok: bool,
    pub area_ok: bool,
}

/// A housing-type choice index is valid when it names one of the fixed
/// labels.
pub open spec fn kind_choice_valid(i: int) -> bool {
    0 <= i < kind_labels().len()
}

/// Full form validity: a kind is chosen, the street is non-empty, and
/// every numeric field holds a non-negative number of the model's range.
pub open spec fn form_valid(f: FormFields) -> bool {
    &&& kind_choice_valid(f.kind_index as int)
    &&& f.street@.len() > 0
    &&& nonneg_int_text(f.number@)
    &&& nonneg_int_text(f.floor@)
    &&& nonneg_int_text(f.postcode@)
    &&& nonneg_int_text(f.rooms@)
    &&& nonneg_int_text(f.baths@)
    &&& nonneg_decimal_text(f.area@)
}

/// The per-field flags that validation must report for a form.
pub open spec fn spec_flags(f: FormFields) -> FieldFlags {
    FieldFlags {
        kind_ok: kind_choice_valid(f.kind_index as int),
        street_ok: f.street@.len() > 0,
        number_ok: nonneg_int_text(f.number@),
        floor_ok: nonneg_int_text(f.floor@),
        postcode_ok: nonneg_int_text(f.postcode@),
        rooms_ok: nonneg_int_text(f.rooms@),
        baths_ok: nonneg_int_text(f.baths@),
        area_ok: nonneg_decimal_text(f.area@),
    }
}

/// Whether every per-field flag passed.
pub open spec fn all_ok(fl: FieldFlags) -> bool {
    fl.kind_ok && fl.street_ok && fl.number_ok && fl.floor_ok && fl.postcode_ok && fl.rooms_ok
        && fl.baths_ok && fl.area_ok
}

/// Runs field-level validation, one flag per field.
pub fn validate(f: &FormFields) -> (fl: FieldFlags)
    ensures
        fl == spec_flags(*f),
        all_ok(fl) == form_valid(*f),
{
    FieldFlags {
        kind_ok: 0 <= f.kind_index && f.kind_index < 5,
        street_ok: f.street.as_str().unicode_len() > 0,
        number_ok: test_positive_and_zero_number(f.number.as_str()),
        floor_ok: test_positive_and_zero_number(f.floor.as_str()),
        postcode_ok: test_positive_and_zero_number(f.postcode.as_str()),
        rooms_ok: test_positive_and_zero_number(f.rooms.as_str()),
        baths_ok: test_positive_and_zero_number(f.baths.as_str()),
        area_ok: test_positive_and_zero_decimal(f.area.as_str()),
    }
}

/// The record a valid form describes, with the given id.
pub open spec fn house_of_form(h: House, f: FormFields, id: int) -> bool {
    &&& h.id == id
    &&& h.kind@ == kind_labels()[f.kind_index as int]
    &&& h.street@ == f.street@
    &&& h.number == int_literal_value(spec_trim(f.number@))
    &&& h.floor == int_literal_value(spec_trim(f.floor@))
    &&& h.postcode == int_literal_value(spec_trim(f.postcode@))
    &&& h.rooms == int_literal_value(spec_trim(f.rooms@))
    &&& h.baths == int_literal_value(spec_trim(f.baths@))
    &&& h.area == decimal_centi_value(spec_trim(f.area@))
}

/// Parses one integer form field that validation has passed.
fn parse_field(s: &String) -> (r: i32)
    requires
        nonneg_int_text(s@),
    ensures
        r == int_literal_value(spec_trim(s@)),
        r >= 0,
{
    let t = trim(s.as_str());
    match parse_i32(t) {
        Some(n) => n,
        None => 0,
    }
}

/// Builds the record a valid form describes, under the given id.
pub fn house_from_form(f: &FormFields, id: i32) -> (h: House)
    requires
        form_valid(*f),
    ensures
        house_of_form(h, *f, id as int),
        nonneg_fields(h),
        valid_kind(h.kind@),
{
    let area = {
        let t = trim(f.area.as_str());
        match parse_decimal_centi(t) {
            Some(n) => n,
            None => 0,
        }
    };
    House {
        id,
        kind: kind_label(f.kind_index),
        street: f.street.clone(),
        number: parse_field(&f.number),
        floor: parse_field(&f.floor),
        postcode: parse_field(&f.postcode),
        rooms: parse_field(&f.rooms),
        baths: parse_field(&f.baths),
        area,
    }
}

/// An empty form: no kind chosen, every text blank.
pub open spec fn form_cleared(f: FormFields) -> bool {
    &&& f.kind_index == -1
    &&& f.street@.len() == 0
    &&& f.number@.len() == 0
    &&& f.floor@.len() == 0
    &&& f.postcode@.len() == 0
    &&& f.rooms@.len() == 0
    &&& f.baths@.len() == 0
    &&& f.area@.len() == 0
}

/// Builds an empty form.
pub fn empty_form() -> (f: FormFields)
    ensures
        form_cleared(f),
{
    FormFields {
        kind_index: -1,
        street: String::new(),
        number: String::new(),
        floor: String::new(),
        postcode: String::new(),
        rooms: String::new(),
        baths: String::new(),
        area: String::new(),
    }
}

/// The form texts that display a record: the kind as its choice index,
/// the numbers in decimal, the area in its unit.
pub open spec fn form_shows_house(f: FormFields, h: House) -> bool {
    &&& f.kind_index == spec_kind_index(h.kind@)
    &&& f.street@ == h.street@
    &&& f.number@ == dec_digits(h.number as int)
    &&& f.floor@ == dec_digits(h.floor as int)
    &&& f.postcode@ == dec_digits(h.postcode as int)
    &&& f.rooms@ == dec_digits(h.rooms as int)
    &&& f.baths@ == dec_digits(h.baths as int)
    &&& f.area@ == centi_digits(h.area as int)
}

/// Fills a form with a record's values for display.
pub fn form_of_house(h: &House) -> (f: FormFields)
    requires
        nonneg_fields(*h),
    ensures
        form_shows_house(f, *h),
{
    FormFields {
        kind_index: kind_index_of(&h.kind),
        street: h.street.clone(),
        number: nonneg_to_string(h.number),
        floor: nonneg_to_string(h.floor),
        postcode: nonneg_to_string(h.postcode),
        rooms: nonneg_to_string(h.rooms),
        baths: nonneg_to_string(h.baths),
        area: centi_to_string(h.area),
    }
}

/// What a save request asks of the surrounding event loop: rejected by
/// validation (with the per-field flags to highlight), or a persistence
/// call to perform — create a record, or update the selected one.
pub enum SaveAction {
    Reject(FieldFlags),
    Create(House),
    Update(House),
}

/// Index of the record with the given id within a sequence.
pub open spec fn id_index(s: Seq<House>, id: int) -> int {
    choose|i: int| 0 <= i < s.len() && s[i].id == id
}

/// Within an ascending sequence, an id occurs at one index only.
pub proof fn lemma_id_unique(s: Seq<House>, i: int, j: int)
    requires
        ids_ascending(s),
        0 <= i < s.len(),
        0 <= j < s.len(),
        s[i].id == s[j].id,
    ensures
        i == j,
{
    if i < j {
        assert(s[i].id < s[j].id);
    }
    if j < i {
        assert(s[j].id < s[i].id);
    }
}

/// The screen's state machine. It decides; the event loop around it does
/// the toolkit and persistence work and reports back.
pub struct Controller {
    store: Store,
    filter: Filter,
    list: SelectionList,
    form: FormFields,
    selected_id: i32,
    dirty: bool,
    can_new: bool,
    can_save: bool,
    can_delete: bool,
    can_unfilter: bool,
}

impl Controller {
    /// The cached committed records, ascending by id.
    pub closed spec fn records(self) -> Seq<House> {
        self.store@
    }

    /// The filter currently applied to the record list.
    pub closed spec fn active_filter(self) -> Filter {
        self.filter
    }

    /// The selection list model.
    pub closed spec fn list_model(self) -> SelectionList {
        self.list
    }

    /// The current form field texts.
    pub closed spec fn form_state(self) -> FormFields {
        self.form
    }

    /// Id of the selected committed record, -1 for none.
    pub closed spec fn selected(self) -> int {
        self.selected_id as int
    }

    /// Whether a field changed since the last load, save or selection.
    pub closed spec fn is_dirty(self) -> bool {
        self.dirty
    }

    /// Whether the New button is enabled.
    pub closed spec fn btn_new(self) -> bool {
        self.can_new
    }

    /// Whether the Save button is enabled.
    pub closed spec fn btn_save(self) -> bool {
        self.can_save
    }

    /// Whether the Delete button is enabled.
    pub closed spec fn btn_delete(self) -> bool {
        self.can_delete
    }

    /// Whether the Unfilter button is enabled.
    pub closed spec fn btn_unfilter(self) -> bool {
        self.can_unfilter
    }

    /// Whether the highlight sits on the uncommitted placeholder row.
    pub open spec fn editing_placeholder(self) -> bool {
        self.list_model().has_placeholder() && self.list_model().sel()
            == self.list_model().rows().len()
    }

    /// Controller invariant, which every operation preserves. It carries
    /// the button-enablement rule of every quiescent state: New is enabled
    /// exactly while no uncommitted placeholder row is being edited, Save
    /// exactly while a change has been made and the fields validate, and
    /// Delete exactly while a committed record is selected.
    pub open spec fn wf(self) -> bool {
        &&& ids_ascending(self.records())
        &&& all_committed(self.records())
        &&& self.list_model().wf()
        &&& self.selected() >= -1
        &&& self.btn_new() == !self.editing_placeholder()
        &&& self.btn_save() == (self.is_dirty() && form_valid(self.form_state()))
        &&& self.btn_delete() == (self.selected() >= 0)
    }

    /// A fresh screen before the first load: empty cache, no filter,
    /// nothing selected, New enabled, Save and Delete disabled.
    pub fn new() -> (c: Controller)
        ensures
            c.wf(),
            c.records() =~= Seq::<House>::empty(),
            crate::filter::default_filter(c.active_filter()),
            c.selected() == -1,
            form_cleared(c.form_state()),
            c.btn_new(),
            !c.btn_save(),
            !c.btn_delete(),
            !c.btn_unfilter(),
            !c.is_dirty(),
    {
        Controller {
            store: Store::new(),
            filter: Filter::default(),
            list: SelectionList::new(),
            form: empty_form(),
            selected_id: -1,
            dirty: false,
            can_new: true,
            can_save: false,
            can_delete: false,
            can_unfilter: false,
        }
    }

    /// Replaces the cache with freshly fetched rows and rebuilds the
    /// visible list under the active filter. A selection whose record is
    /// still visible is kept and its fields shown again; otherwise the
    /// selection and the form clear. Rows that break the persistence
    /// contract (out of order or malformed) leave the state untouched.
    pub fn reload(&mut self, rows: Vec<House>) -> (ok: bool)
        requires
            old(self).wf(),
        ensures
            final(self).wf(),
            ok == (ids_ascending(rows@) && all_committed(rows@)),
            !ok ==> final(self).records() == old(self).records() && final(self).active_filter()
                == old(self).active_filter() && final(self).list_model() == old(self).list_model()
                && final(self).form_state() == old(self).form_state() && final(self).selected()
                == old(self).selected() && final(self).btn_new() == old(self).btn_new() && final(self).btn_save() == old(self).btn_save() && final(self).btn_delete() == old(self).btn_delete() && final(self).btn_unfilter() == old(self).btn_unfilter() && final(self).is_dirty() == old(self).is_dirty(),
            ok ==> final(self).records() == rows@ && final(self).active_filter() == old(self).active_filter(),
            ok ==> rows_match(
                final(self).list_model().rows(),
                filtered_houses(rows@, old(self).active_filter()),
            ) && !final(self).list_model().has_placeholder(),
            ok ==> final(self).btn_new() && !final(self).btn_save() && !final(self).is_dirty(),
            ok ==> final(self).btn_unfilter() == (filtered_houses(
                rows@,
                old(self).active_filter(),
            ).len() < rows@.len()),
            ok && old(self).selected() >= 0 && contains_id(
                filtered_houses(rows@, old(self).active_filter()),
                old(self).selected(),
            ) ==> final(self).selected() == old(self).selected() && final(self).btn_delete()
                && form_shows_house(
                final(self).form_state(),
                rows@[id_index(rows@, old(self).selected())],
            ),
            ok && !(old(self).selected() >= 0 && contains_id(
                filtered_houses(rows@, old(self).active_filter()),
                old(self).selected(),
            )) ==> final(self).selected() == -1 && !final(self).btn_delete() && form_cleared(
                final(self).form_state(),
            ) && final(self).list_model().sel() == 0,
    {
        let total = rows.len();
        if !self.store.load(rows) {
            return false;
        }
        proof {
            assert(forall|i: int|
                0 <= i < self.store@.len() ==> (#[trigger] self.store@[i]).number >= 0);
        }
        let n = self.list.rebuild(self.store.records(), &self.filter, self.selected_id);
        let ghost vis = filtered_houses(self.store@, self.filter);
        proof {
            crate::filter::lemma_filtered_committed(self.store@, self.filter);
            if self.selected_id < 0 && contains_id(vis, self.selected_id as int) {
                let k = choose|k: int| 0 <= k < vis.len() && vis[k].id == self.selected_id as int;
                assert(crate::house::committed_house(vis[k]));
            }
        }
        let pos = self.list.selected_pos();
        if pos > 0 {
            proof {
                assert(contains_id(vis, self.selected_id as int));
                let s = self.store@;
                let id = self.selected_id as int;
                assert(contains_id(s, id)) by {
                    crate::filter::lemma_filtered_sound_complete(s, self.filter);
                    let v = choose|v: int| 0 <= v < vis.len() && vis[v].id == id;
                    assert(vis.contains(vis[v]));
                }
            }
            match self.store.find_id(self.selected_id) {
                Some(k) => {
                    let f = form_of_house(self.store.at(k));
                    proof {
                        let s = self.store@;
                        let id = self.selected_id as int;
                        let j = id_index(s, id);
                        assert(0 <= j < s.len() && s[j].id == id);
                        lemma_id_unique(s, k as int, j);
                    }
                    self.form = f;
                    self.can_delete = true;
                },
                None => {
                    proof {
                        assert(false);
                    }
                },
            }
        } else {
            self.selected_id = -1;
            self.form = empty_form();
            self.can_delete = false;
        }
        self.can_new = true;
        self.can_save = false;
        self.dirty = false;
        self.can_unfilter = n < total;
        true
    }

    /// The New action: discard any abandoned placeholder, clear the form,
    /// append the placeholder row and highlight it. Editing starts clean:
    /// Save stays disabled until a field changes, Delete and New disable.
    pub fn on_new(&mut self)
        requires
            old(self).wf(),
        ensures
            final(self).wf(),
            final(self).records() == old(self).records(),
            final(self).active_filter() == old(self).active_filter(),
            form_cleared(final(self).form_state()),
            final(self).list_model().has_placeholder(),
            final(self).editing_placeholder(),
            crate::select::base_rows(final(self).list_model()) == crate::select::base_rows(
                old(self).list_model(),
            ),
            final(self).selected() == -1,
            !final(self).btn_new(),
            !final(self).btn_save(),
            !final(self).btn_delete(),
            !final(self).is_dirty(),
    {
        self.list.discard_abandoned(0);
        self.form = empty_form();
        self.list.append_placeholder();
        proof {
            assert(crate::select::base_rows(self.list) =~= crate::select::base_rows(
                old(self).list,
            ));
        }
        self.selected_id = -1;
        self.dirty = false;
        self.can_new = false;
        self.can_save = false;
        self.can_delete = false;
    }

    /// A field changed: record the new form texts, mark the form dirty,
    /// re-run field validation and enable Save exactly when every required
    /// field validates. Returns the per-field flags for highlighting.
    pub fn on_change(&mut self, form: FormFields) -> (fl: FieldFlags)
        requires
            old(self).wf(),
        ensures
            final(self).wf(),
            final(self).records() == old(self).records(),
            final(self).active_filter() == old(self).active_filter(),
            final(self).list_model() == old(self).list_model(),
            final(self).form_state() == form,
            final(self).selected() == old(self).selected(),
            final(self).is_dirty(),
            final(self).btn_save() == form_valid(form),
            final(self).btn_new() == old(self).btn_new(),
            final(self).btn_delete() == old(self).btn_delete(),
            fl == spec_flags(form),
    {
        let fl = validate(&form);
        let ok = fl.kind_ok && fl.street_ok && fl.number_ok && fl.floor_ok && fl.postcode_ok
            && fl.rooms_ok && fl.baths_ok && fl.area_ok;
        self.form = form;
        self.dirty = true;
        self.can_save = ok;
        fl
    }

    /// The Save action. An invalid form is rejected with its per-field
    /// flags and nothing changes. A valid form becomes a persistence
    /// request: create when nothing committed is selected (a fresh or
    /// placeholder row), update of the selected record otherwise.
    pub fn on_save(&self) -> (r: SaveAction)
        requires
            self.wf(),
        ensures
            !form_valid(self.form_state()) ==> r == SaveAction::Reject(
                spec_flags(self.form_state()),
            ),
            form_valid(self.form_state()) && self.selected() < 0 ==> (r matches SaveAction::Create(h)
                && house_of_form(h, self.form_state(), -1)),
            form_valid(self.form_state()) && self.selected() >= 0 ==> (r matches SaveAction::Update(h)
                && house_of_form(h, self.form_state(), self.selected())),
    {
        let fl = validate(&self.form);
        let ok = fl.kind_ok && fl.street_ok && fl.number_ok && fl.floor_ok && fl.postcode_ok
            && fl.rooms_ok && fl.baths_ok && fl.area_ok;
        if !ok {
            SaveAction::Reject(fl)
        } else if self.selected_id < 0 {
            SaveAction::Create(house_from_form(&self.form, -1))
        } else {
            SaveAction::Update(house_from_form(&self.form, self.selected_id))
        }
    }

    /// The persistence collaborator committed a save under the given id:
    /// select that record, mark the form clean and disable Save. The event
    /// loop reloads next.
    pub fn save_committed(&mut self, id: i32)
        requires
            old(self).wf(),
            id >= 0,
        ensures
            final(self).wf(),
            final(self).records() == old(self).records(),
            final(self).active_filter() == old(self).active_filter(),
            final(self).list_model() == old(self).list_model(),
            final(self).form_state() == old(self).form_state(),
            final(self).selected() == id,
            !final(self).btn_save(),
            !final(self).is_dirty(),
            final(self).btn_delete(),
            final(self).btn_new() == old(self).btn_new(),
    {
        self.selected_id = id;
        self.dirty = false;
        self.can_save = false;
        self.can_delete = true;
    }

    /// The Delete action asks for the selected record's id; with nothing
    /// committed selected there is nothing to do.
    pub fn delete_requested(&self) -> (r: Option<i32>)
        ensures
            self.selected() >= 0 ==> r == Some(self.selected() as i32),
            self.selected() < 0 ==> r is None,
    {
        if self.selected_id >= 0 {
            Some(self.selected_id)
        } else {
            None
        }
    }

    /// The persistence collaborator committed the delete: the selected
    /// record — exactly that id, nothing else — leaves the cache and the
    /// selection clears. With nothing selected this is a no-operation.
    pub fn delete_committed(&mut self) -> (ok: bool)
        requires
            old(self).wf(),
        ensures
            final(self).wf(),
            final(self).active_filter() == old(self).active_filter(),
            final(self).list_model() == old(self).list_model(),
            old(self).selected() < 0 ==> !ok && final(self).records() == old(self).records()
                && final(self).selected() == old(self).selected() && final(self).btn_save() == old(self).btn_save() && final(self).is_dirty() == old(self).is_dirty(),
            old(self).selected() >= 0 ==> {
                &&& final(self).selected() == -1
                &&& !final(self).btn_delete()
                &&& !final(self).btn_save()
                &&& !final(self).is_dirty()
                &&& ok == contains_id(old(self).records(), old(self).selected())
                &&& !contains_id(final(self).records(), old(self).selected())
                &&& (ok ==> exists|k: int|
                    0 <= k < old(self).records().len() && old(self).records()[k].id == old(self).selected() && final(self).records() == old(self).records().remove(k))
                &&& (!ok ==> final(self).records() == old(self).records())
            },
    {
        if self.selected_id < 0 {
            return false;
        }
        let ok = self.store.remove_id(self.selected_id);
        self.selected_id = -1;
        self.dirty = false;
        self.can_save = false;
        self.can_delete = false;
        ok
    }

    /// The Select action: move the highlight, first discarding an
    /// abandoned placeholder. A position that resolves to a cached record
    /// shows its fields and enables Delete; position 0, the placeholder
    /// and a stale id clear the form and the selection.
    pub fn on_select(&mut self, pos: usize)
        requires
            old(self).wf(),
            pos <= old(self).list_model().rows().len(),
        ensures
            final(self).wf(),
            final(self).records() == old(self).records(),
            final(self).active_filter() == old(self).active_filter(),
            final(self).list_model().sel() == pos,
            old(self).list_model().has_placeholder() && pos != old(self).list_model().rows().len() ==> final(self).list_model().rows() == old(self).list_model().rows().drop_last(),
            !(old(self).list_model().has_placeholder() && pos != old(self).list_model().rows().len()) ==> final(self).list_model().rows() == old(self).list_model().rows(),
            !final(self).btn_save(),
            !final(self).is_dirty(),
            ({
                let r = final(self).list_model().spec_resolve(pos as int);
                &&& (r is Some && contains_id(final(self).records(), r.unwrap() as int) ==> final(self).selected() == r.unwrap() && final(self).btn_delete() && form_shows_house(
                    final(self).form_state(),
                    final(self).records()[id_index(final(self).records(), r.unwrap() as int)],
                ))
                &&& (!(r is Some && contains_id(final(self).records(), r.unwrap() as int))
                    ==> final(self).selected() == -1 && !final(self).btn_delete() && form_cleared(
                    final(self).form_state(),
                ))
            }),
    {
        let r = self.list.select(pos);
        let mut found = false;
        match r {
            Some(id) => {
                match self.store.find_id(id) {
                    Some(k) => {
                        let f = form_of_house(self.store.at(k));
                        proof {
                            let s = self.store@;
                            let j = id_index(s, id as int);
                            assert(0 <= j < s.len() && s[j].id == id);
                            lemma_id_unique(s, k as int, j);
                        }
                        self.form = f;
                        self.selected_id = id;
                        found = true;
                    },
                    None => {
                        self.form = empty_form();
                        self.selected_id = -1;
                    },
                }
            },
            None => {
                self.form = empty_form();
                self.selected_id = -1;
            },
        }
        self.can_delete = found;
        self.can_save = false;
        self.dirty = false;
        let len = self.list.len();
        let still_placeholder = len > 0 && pos == len && self.list.resolve(pos).is_none();
        self.can_new = !still_placeholder;
        proof {
            assert(self.editing_placeholder() == still_placeholder);
        }
    }

    /// Applies a filter the filter dialog returned: replace the active
    /// filter, discard an abandoned placeholder and leave editing state.
    /// The event loop reloads next.
    pub fn apply_filter(&mut self, f: Filter)
        requires
            old(self).wf(),
        ensures
            final(self).wf(),
            final(self).records() == old(self).records(),
            final(self).active_filter() == f,
            !final(self).list_model().has_placeholder(),
            !final(self).btn_save(),
            !final(self).is_dirty(),
            final(self).btn_new(),
            final(self).selected() == old(self).selected(),
    {
        self.list.discard_abandoned(0);
        self.filter = f;
        self.dirty = false;
        self.can_save = false;
        self.can_new = true;
    }

    /// Clears filtering: the active filter returns to the default, which
    /// accepts every record. The event loop reloads next.
    pub fn clear_filter(&mut self)
        requires
            old(self).wf(),
        ensures
            final(self).wf(),
            final(self).records() == old(self).records(),
            crate::filter::default_filter(final(self).active_filter()),
            !final(self).list_model().has_placeholder(),
            !final(self).btn_save(),
            !final(self).is_dirty(),
            final(self).btn_new(),
            final(self).selected() == old(self).selected(),
    {
        self.apply_filter(Filter::default());
    }

    /// Whether a change since the last load or save would be discarded by
    /// closing; the surrounding loop decides the confirmation policy.
    pub fn has_unsaved_changes(&self) -> (r: bool)
        ensures
            r == self.is_dirty(),
    {
        self.dirty
    }

    /// The current form field texts, for display.
    pub fn current_form(&self) -> (r: &FormFields)
        ensures
            *r == self.form_state(),
    {
        &self.form
    }

    /// The visible list, for display: row count, labels and highlight.
    pub fn visible_list(&self) -> (r: &SelectionList)
        ensures
            *r == self.list_model(),
    {
        &self.list
    }

    /// Id of the selected committed record, -1 for none.
    pub fn selection(&self) -> (r: i32)
        ensures
            r as int == self.selected(),
    {
        self.selected_id
    }

    /// Number of cached records.
    pub fn record_count(&self) -> (r: usize)
        ensures
            r == self.records().len(),
    {
        self.store.len()
    }

    /// Whether the New button is enabled.
    pub fn new_enabled(&self) -> (r: bool)
        ensures
            r == self.btn_new(),
    {
        self.can_new
    }

    /// Whether the Save button is enabled.
    pub fn save_enabled(&self) -> (r: bool)
        ensures
            r == self.btn_save(),
    {
        self.can_save
    }

    /// Whether the Delete button is enabled.
    pub fn delete_enabled(&self) -> (r: bool)
        ensures
            r == self.btn_delete(),
    {
        self.can_delete
    }

    /// Whether the Unfilter button is enabled.
    pub fn unfilter_enabled(&self) -> (r: bool)
        ensures
            r == self.btn_unfilter(),
    {
        self.can_unfilter
    }
}

} // verus!
