use wohnen::controller::{empty_form, validate, Controller, FormFields, SaveAction};
use wohnen::house::House;

fn house(id: i32, street: &str, number: i32) -> House {
    House {
        id,
        kind: "Casa".to_string(),
        street: street.to_string(),
        number,
        floor: 1,
        postcode: 1000,
        rooms: 3,
        baths: 1,
        area: 8000,
    }
}

fn filled_form() -> FormFields {
    FormFields {
        kind_index: 1,
        street: "Av. Siempre Viva".to_string(),
        number: "742".to_string(),
        floor: "0".to_string(),
        postcode: "90210".to_string(),
        rooms: "4".to_string(),
        baths: "2".to_string(),
        area: "120.5".to_string(),
    }
}

#[test]
fn initial_state_has_new_enabled_only() {
    let c = Controller::new();
    assert!(c.new_enabled());
    assert!(!c.save_enabled());
    assert!(!c.delete_enabled());
    assert!(!c.unfilter_enabled());
    assert_eq!(c.selection(), -1);
    assert_eq!(c.record_count(), 0);
}

#[test]
fn reload_rejects_rows_that_break_the_contract() {
    let mut c = Controller::new();
    assert!(!c.reload(vec![house(2, "B", 2), house(1, "A", 1)]));
    assert_eq!(c.record_count(), 0);
    assert!(c.reload(vec![house(1, "A", 1), house(2, "B", 2)]));
    assert_eq!(c.record_count(), 2);
    assert_eq!(c.visible_list().len(), 2);
}

#[test]
fn selecting_a_row_shows_its_fields() {
    let mut c = Controller::new();
    assert!(c.reload(vec![house(1, "A", 1), house(2, "Av. Siempre Viva", 742)]));
    c.on_select(2);
    assert_eq!(c.selection(), 2);
    assert!(c.delete_enabled());
    assert!(!c.save_enabled());
    let f = c.current_form();
    assert_eq!(f.kind_index, 0);
    assert_eq!(f.street.as_str(), "Av. Siempre Viva");
    assert_eq!(f.number.as_str(), "742");
    assert_eq!(f.floor.as_str(), "1");
    assert_eq!(f.postcode.as_str(), "1000");
    assert_eq!(f.rooms.as_str(), "3");
    assert_eq!(f.baths.as_str(), "1");
    assert_eq!(f.area.as_str(), "80");
}

#[test]
fn selecting_position_zero_clears_the_form() {
    let mut c = Controller::new();
    assert!(c.reload(vec![house(1, "A", 1)]));
    c.on_select(1);
    assert_eq!(c.selection(), 1);
    c.on_select(0);
    assert_eq!(c.selection(), -1);
    assert!(!c.delete_enabled());
    assert_eq!(c.current_form().kind_index, -1);
    assert_eq!(c.current_form().street.as_str(), "");
}

#[test]
fn new_appends_a_selected_placeholder_and_disables_buttons() {
    let mut c = Controller::new();
    assert!(c.reload(vec![house(1, "A", 1)]));
    c.on_new();
    assert!(!c.new_enabled());
    assert!(!c.save_enabled());
    assert!(!c.delete_enabled());
    assert_eq!(c.selection(), -1);
    let l = c.visible_list();
    assert_eq!(l.len(), 2);
    assert_eq!(l.selected_pos(), 2);
    assert_eq!(l.resolve(2), None);
}

#[test]
fn abandoned_placeholder_is_discarded_on_select_and_stays_gone() {
    let mut c = Controller::new();
    assert!(c.reload(vec![house(1, "A", 1), house(2, "B", 2)]));
    c.on_new();
    assert_eq!(c.visible_list().len(), 3);
    c.on_select(1);
    assert!(c.new_enabled());
    assert_eq!(c.visible_list().len(), 2);
    assert_eq!(c.visible_list().resolve(1), Some(1));
    assert_eq!(c.visible_list().resolve(2), Some(2));
    // the next rebuild contains no placeholder either
    assert!(c.reload(vec![house(1, "A", 1), house(2, "B", 2)]));
    assert_eq!(c.visible_list().len(), 2);
    assert_eq!(c.visible_list().resolve(2), Some(2));
}

#[test]
fn field_change_enables_save_only_when_all_fields_validate() {
    let mut c = Controller::new();
    assert!(c.reload(vec![]));
    c.on_new();
    let fl = c.on_change(filled_form());
    assert!(fl.kind_ok && fl.street_ok && fl.number_ok && fl.floor_ok);
    assert!(fl.postcode_ok && fl.rooms_ok && fl.baths_ok && fl.area_ok);
    assert!(c.save_enabled());
    let mut bad = filled_form();
    bad.rooms = "-2".to_string();
    let fl = c.on_change(bad);
    assert!(!fl.rooms_ok);
    assert!(fl.street_ok);
    assert!(!c.save_enabled());
}

#[test]
fn save_on_a_fresh_form_creates_one_record_and_disables_save() {
    let mut c = Controller::new();
    assert!(c.reload(vec![]));
    c.on_new();
    c.on_change(filled_form());
    let created = match c.on_save() {
        SaveAction::Create(h) => h,
        _ => panic!("a valid fresh form must become a create request"),
    };
    assert_eq!(created.id, -1);
    assert_eq!(created.kind, "Loft");
    assert_eq!(created.street, "Av. Siempre Viva");
    assert_eq!(created.number, 742);
    assert_eq!(created.floor, 0);
    assert_eq!(created.postcode, 90210);
    assert_eq!(created.rooms, 4);
    assert_eq!(created.baths, 2);
    assert_eq!(created.area, 12050);
    // persistence assigns a fresh id and the screen reloads
    let mut stored = created;
    stored.id = 11;
    c.save_committed(11);
    assert!(c.reload(vec![stored]));
    assert_eq!(c.record_count(), 1);
    assert!(!c.save_enabled());
    assert_eq!(c.selection(), 11);
    assert!(c.delete_enabled());
}

#[test]
fn save_with_empty_street_is_rejected_without_any_mutation() {
    let mut c = Controller::new();
    assert!(c.reload(vec![house(1, "A", 1)]));
    c.on_new();
    let mut form = filled_form();
    form.street = String::new();
    c.on_change(form);
    assert!(!c.save_enabled());
    let flags = match c.on_save() {
        SaveAction::Reject(fl) => fl,
        _ => panic!("an empty street must be rejected"),
    };
    assert!(!flags.street_ok);
    assert!(flags.kind_ok && flags.number_ok && flags.area_ok);
    assert_eq!(c.record_count(), 1);
}

#[test]
fn save_on_a_selected_record_updates_it() {
    let mut c = Controller::new();
    assert!(c.reload(vec![house(4, "A", 1)]));
    c.on_select(1);
    c.on_change(filled_form());
    match c.on_save() {
        SaveAction::Update(h) => {
            assert_eq!(h.id, 4);
            assert_eq!(h.street, "Av. Siempre Viva");
        },
        _ => panic!("a valid form on a selected record must become an update"),
    }
}

#[test]
fn delete_removes_exactly_the_selected_id_and_clears_selection() {
    let mut c = Controller::new();
    assert!(c.reload(vec![house(1, "A", 1), house(2, "B", 2), house(3, "C", 3)]));
    c.on_select(2);
    assert_eq!(c.delete_requested(), Some(2));
    assert!(c.delete_committed());
    assert_eq!(c.selection(), -1);
    assert!(!c.delete_enabled());
    assert_eq!(c.record_count(), 2);
    assert!(c.reload(vec![house(1, "A", 1), house(3, "C", 3)]));
    assert_eq!(c.visible_list().resolve(1), Some(1));
    assert_eq!(c.visible_list().resolve(2), Some(3));
}

#[test]
fn delete_with_nothing_selected_is_a_no_operation() {
    let mut c = Controller::new();
    assert!(c.reload(vec![house(1, "A", 1)]));
    assert_eq!(c.delete_requested(), None);
    assert!(!c.delete_committed());
    assert_eq!(c.record_count(), 1);
}

#[test]
fn reload_keeps_a_selection_that_is_still_visible() {
    let mut c = Controller::new();
    assert!(c.reload(vec![house(1, "A", 1), house(2, "B", 2)]));
    c.on_select(2);
    assert!(c.reload(vec![house(1, "A", 1), house(2, "B", 2), house(5, "E", 5)]));
    assert_eq!(c.selection(), 2);
    assert_eq!(c.visible_list().selected_pos(), 2);
    assert!(c.delete_enabled());
    // a selection whose record is gone clears
    assert!(c.reload(vec![house(1, "A", 1)]));
    assert_eq!(c.selection(), -1);
    assert!(!c.delete_enabled());
}

#[test]
fn filtering_narrows_the_list_and_enables_unfilter() {
    let mut c = Controller::new();
    let mut loft = house(2, "B", 2);
    loft.kind = "Loft".to_string();
    assert!(c.reload(vec![house(1, "A", 1), loft.clone()]));
    assert!(!c.unfilter_enabled());
    let mut f = wohnen::Filter::default();
    f.kind.text = "Loft".to_string();
    c.apply_filter(f);
    assert!(c.reload(vec![house(1, "A", 1), loft]));
    assert_eq!(c.visible_list().len(), 1);
    assert_eq!(c.visible_list().resolve(1), Some(2));
    assert!(c.unfilter_enabled());
    c.clear_filter();
    let mut loft = house(2, "B", 2);
    loft.kind = "Loft".to_string();
    assert!(c.reload(vec![house(1, "A", 1), loft]));
    assert_eq!(c.visible_list().len(), 2);
    assert!(!c.unfilter_enabled());
}

#[test]
fn close_asks_about_unsaved_changes() {
    let mut c = Controller::new();
    assert!(c.reload(vec![]));
    assert!(!c.has_unsaved_changes());
    c.on_new();
    c.on_change(filled_form());
    assert!(c.has_unsaved_changes());
}

#[test]
fn validate_flags_each_failing_field_distinctly() {
    let mut f = empty_form();
    let fl = validate(&f);
    assert!(!fl.kind_ok && !fl.street_ok && !fl.number_ok && !fl.area_ok);
    f = filled_form();
    f.kind_index = -1;
    f.area = "abc".to_string();
    let fl = validate(&f);
    assert!(!fl.kind_ok);
    assert!(!fl.area_ok);
    assert!(fl.street_ok && fl.number_ok && fl.floor_ok && fl.postcode_ok && fl.rooms_ok && fl.baths_ok);
}
