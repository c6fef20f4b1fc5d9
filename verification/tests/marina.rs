use slipway::layout::nav_links;
use slipway::marina::{berths, find_berth, Status, FEATURED};

#[test]
fn an_unknown_slug_renders_a_missing_card() {
    assert!(find_berth("nope").is_none());
    assert!(find_berth("a1").is_some());
}

#[test]
fn the_seed_data_has_four_berths_in_order() {
    let all = berths();
    let names: Vec<&str> = all.iter().map(|b| b.name).collect();
    assert_eq!(names, ["A1", "A2", "B7", "C3"]);
    let lengths: Vec<u8> = all.iter().map(|b| b.length_m).collect();
    assert_eq!(lengths, [8, 8, 12, 15]);
}

#[test]
fn every_berth_is_found_by_its_slug_and_links_to_itself() {
    for berth in berths() {
        let found = find_berth(berth.slug).expect("seeded berth");
        assert_eq!(found.name, berth.name);
        assert_eq!(found.url(), format!("/berths/{}", berth.slug));
    }
    assert_eq!(find_berth("b7").unwrap().url(), "/berths/b7");
    assert_eq!(find_berth(FEATURED).unwrap().name, "A1");
}

#[test]
fn slugs_match_exactly() {
    assert!(find_berth("A1").is_none());
    assert!(find_berth("a").is_none());
    assert!(find_berth("a12").is_none());
    assert!(find_berth("").is_none());
}

#[test]
fn status_badges_use_the_matching_arm() {
    let a1 = find_berth("a1").unwrap();
    assert_eq!(a1.status.badge_label(), "Occupied by Lady Jane");
    assert_eq!(a1.status.badge_class(), "badge-occupied");
    let a2 = find_berth("a2").unwrap();
    assert_eq!(a2.status.badge_label(), "Vacant");
    assert_eq!(a2.status.badge_class(), "badge-vacant");
    let b7 = find_berth("b7").unwrap();
    assert_eq!(b7.status.badge_label(), "Maintenance");
    assert_eq!(b7.status.badge_class(), "badge-maintenance");
    assert!(matches!(b7.status, Status::Maintenance));
}

#[test]
fn vessel_is_named_only_for_occupied_berths() {
    assert_eq!(find_berth("a1").unwrap().vessel(), Some("Lady Jane"));
    assert_eq!(find_berth("c3").unwrap().vessel(), Some("Sea Urchin"));
    assert_eq!(find_berth("a2").unwrap().vessel(), None);
    assert_eq!(find_berth("b7").unwrap().vessel(), None);
}

#[test]
fn berth_length_is_written_in_decimal() {
    assert_eq!(find_berth("a1").unwrap().length_text(), "8");
    assert_eq!(find_berth("c3").unwrap().length_text(), "15");
}

#[test]
fn nav_highlights_only_the_current_page() {
    let links = nav_links();
    let hrefs: Vec<&str> = links.iter().map(|l| l.href).collect();
    assert_eq!(hrefs, ["/", "/berths", "/vessels", "/vessels/htmx"]);
    let current: Vec<bool> = links.iter().map(|l| l.is_current("/")).collect();
    assert_eq!(current, [true, false, false, false]);
    let current: Vec<bool> = links.iter().map(|l| l.is_current("/berths")).collect();
    assert_eq!(current, [false, true, false, false]);
    let current: Vec<bool> = links.iter().map(|l| l.is_current("/berths/a1")).collect();
    assert_eq!(current, [false, false, false, false]);
}
