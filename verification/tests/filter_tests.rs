use wohnen::filter::{Filter, Range, Text};
use wohnen::house::House;

fn sample_house() -> House {
    House {
        id: 1,
        kind: "Loft".to_string(),
        street: "Av. Siempre Viva".to_string(),
        number: 742,
        floor: 0,
        postcode: 90210,
        rooms: 4,
        baths: 2,
        area: 12050,
    }
}

#[test]
fn empty_text_pattern_matches_everything() {
    let t = Text { text: String::new() };
    assert!(t.apply("anything"));
    assert!(t.apply(""));
    assert!(t.apply("Av. Siempre Viva"));
}

#[test]
fn text_match_accepts_equal_and_similar_strings() {
    let t = Text { text: "Av. Siempre Viva".to_string() };
    assert!(t.apply("Av. Siempre Viva"));
    // one typo keeps the similarity above the threshold
    let t = Text { text: "cheeseburger".to_string() };
    assert!(t.apply("cheese fries"));
}

#[test]
fn text_match_rejects_unrelated_strings() {
    let t = Text { text: "Friedrich Nietzsche".to_string() };
    assert!(!t.apply("Jean-Paul Sartre"));
    let t = Text { text: "abc".to_string() };
    assert!(!t.apply("xyz"));
    // a non-empty pattern never matches an empty value
    assert!(!t.apply(""));
}

#[test]
fn range_is_inclusive_on_both_bounds() {
    let r = Range { min: 10, max: 20 };
    assert!(r.apply(10));
    assert!(r.apply(15));
    assert!(r.apply(20));
    assert!(!r.apply(9));
    assert!(!r.apply(21));
}

#[test]
fn default_range_rejects_negative_values() {
    let r = Range::default();
    assert_eq!(r.min, 0);
    assert_eq!(r.max, i32::MAX);
    assert!(r.apply(0));
    assert!(r.apply(i32::MAX));
    assert!(!r.apply(-1));
}

#[test]
fn default_filter_matches_every_record() {
    let f = Filter::default();
    assert!(f.valid(&sample_house()));
    let other = House {
        id: 9,
        kind: "Casa".to_string(),
        street: "X".to_string(),
        number: 0,
        floor: 0,
        postcode: 0,
        rooms: 0,
        baths: 0,
        area: 0,
    };
    assert!(f.valid(&other));
}

#[test]
fn filter_is_a_conjunction_over_fields() {
    let mut f = Filter::default();
    f.kind.text = "Loft".to_string();
    f.rooms = Range { min: 3, max: 5 };
    let h = sample_house();
    assert!(f.valid(&h));
    f.rooms = Range { min: 5, max: 9 };
    assert!(!f.valid(&h));
    f.rooms = Range::default();
    f.kind.text = "Chalet".to_string();
    assert!(!f.valid(&h));
}

#[test]
fn filter_never_matches_negative_fields() {
    let f = Filter::default();
    let mut h = sample_house();
    h.floor = -1;
    assert!(!f.valid(&h));
}
