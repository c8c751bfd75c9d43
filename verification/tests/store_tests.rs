use wohnen::house::House;
use wohnen::store::Store;

fn house(id: i32, street: &str, number: i32) -> House {
    House {
        id,
        kind: "Casa".to_string(),
        street: street.to_string(),
        number,
        floor: 1,
        postcode: 1000,
        rooms: 3,
        baths: 1,
        area: 8000,
    }
}

#[test]
fn load_installs_well_formed_rows() {
    let mut s = Store::new();
    assert_eq!(s.len(), 0);
    assert!(s.load(vec![house(1, "A", 1), house(2, "B", 2), house(5, "C", 3)]));
    assert_eq!(s.len(), 3);
    assert_eq!(s.get(2).unwrap().street, "B");
}

#[test]
fn load_rejects_rows_out_of_order() {
    let mut s = Store::new();
    assert!(s.load(vec![house(1, "A", 1)]));
    assert!(!s.load(vec![house(2, "B", 2), house(2, "C", 3)]));
    assert!(!s.load(vec![house(3, "B", 2), house(2, "C", 3)]));
    // the failed loads left the cache as it was
    assert_eq!(s.len(), 1);
    assert_eq!(s.get(1).unwrap().street, "A");
}

#[test]
fn load_rejects_malformed_rows() {
    let mut s = Store::new();
    let mut bad = house(1, "A", 1);
    bad.rooms = -1;
    assert!(!s.load(vec![bad]));
    let mut bad = house(1, "A", 1);
    bad.kind = "Palace".to_string();
    assert!(!s.load(vec![bad]));
    let bad = house(-1, "A", 1);
    assert!(!s.load(vec![bad]));
    assert_eq!(s.len(), 0);
}

#[test]
fn get_reports_missing_ids() {
    let mut s = Store::new();
    assert!(s.load(vec![house(1, "A", 1), house(3, "B", 2)]));
    assert!(s.get(2).is_none());
    assert!(s.get(-1).is_none());
    assert_eq!(s.get(3).unwrap().number, 2);
}

#[test]
fn insert_keeps_ascending_order() {
    let mut s = Store::new();
    assert!(s.load(vec![house(1, "A", 1), house(5, "B", 2)]));
    s.insert_committed(house(3, "C", 3));
    assert_eq!(s.len(), 3);
    let r = s.records();
    assert_eq!(r[0].id, 1);
    assert_eq!(r[1].id, 3);
    assert_eq!(r[2].id, 5);
}

#[test]
fn created_record_reads_back_unchanged() {
    let mut s = Store::new();
    assert!(s.load(vec![house(1, "A", 1)]));
    let created = house(7, "Av. Siempre Viva", 742);
    s.insert_committed(created);
    let back = s.get(7).expect("the created record must be found by its id");
    assert_eq!(back.id, 7);
    assert_eq!(back.kind, "Casa");
    assert_eq!(back.street, "Av. Siempre Viva");
    assert_eq!(back.number, 742);
    assert_eq!(back.floor, 1);
    assert_eq!(back.postcode, 1000);
    assert_eq!(back.rooms, 3);
    assert_eq!(back.baths, 1);
    assert_eq!(back.area, 8000);
}

#[test]
fn update_replaces_the_record_with_that_id() {
    let mut s = Store::new();
    assert!(s.load(vec![house(1, "A", 1), house(2, "B", 2)]));
    let mut changed = house(2, "B'", 9);
    changed.rooms = 6;
    assert!(s.update_committed(changed));
    assert_eq!(s.get(2).unwrap().street, "B'");
    assert_eq!(s.get(2).unwrap().rooms, 6);
    assert_eq!(s.get(1).unwrap().street, "A");
    assert!(!s.update_committed(house(9, "X", 1)));
}

#[test]
fn remove_takes_out_exactly_one_id() {
    let mut s = Store::new();
    assert!(s.load(vec![house(1, "A", 1), house(2, "B", 2), house(3, "C", 3)]));
    assert!(s.remove_id(2));
    assert_eq!(s.len(), 2);
    assert!(s.get(2).is_none());
    assert!(s.get(1).is_some());
    assert!(s.get(3).is_some());
    assert!(!s.remove_id(2));
    assert_eq!(s.len(), 2);
}
