use slipway::form::urlencode;
use slipway::vessels::{
    htmx_search, normalized_query, search_vessels, vessel_dom_id, vessels, HtmxSearch,
    QueryTooLong, MAX_QUERY_LEN,
};

fn names(query: &str) -> Vec<&'static str> {
    search_vessels(query)
        .ok()
        .expect("query within limits")
        .iter()
        .map(|v| v.name)
        .collect()
}

#[test]
fn a_query_matches_names_that_contain_it() {
    assert_eq!(names("Lady"), ["Lady Jane"]);
    assert_eq!(names("  Lady  "), ["Lady Jane"]);
    assert_eq!(names("n"), ["Lady Jane", "Sea Urchin", "Morning Star", "Blue Moon"]);
    assert_eq!(names("Moon"), ["Blue Moon"]);
}

#[test]
fn matching_is_case_sensitive() {
    assert!(names("lady").is_empty());
    assert!(names("Zebra").is_empty());
}

#[test]
fn an_empty_query_lists_every_vessel() {
    let every: Vec<&str> = vessels().iter().map(|v| v.name).collect();
    assert_eq!(names(""), every);
    assert_eq!(names(" \t\n "), every);
}

#[test]
fn a_long_query_is_refused_after_trimming() {
    let just_right = "x".repeat(MAX_QUERY_LEN);
    assert!(search_vessels(&just_right).is_ok());
    let padded = format!("   {just_right}   ");
    assert!(search_vessels(&padded).is_ok());
    let too_long = "x".repeat(MAX_QUERY_LEN + 1);
    assert!(matches!(search_vessels(&too_long), Err(QueryTooLong)));
    // The limit counts bytes: forty two-byte characters fit, forty-one do not.
    assert!(search_vessels(&"é".repeat(40)).is_ok());
    assert!(search_vessels(&"é".repeat(41)).is_err());
}

#[test]
fn the_query_is_trimmed_of_unicode_white_space() {
    assert_eq!(normalized_query("  Lady\u{3000}"), "Lady");
    assert_eq!(normalized_query("\u{a0}x y\t"), "x y");
}

#[test]
fn result_rows_get_stable_ids() {
    assert_eq!(vessel_dom_id("Lady Jane"), "vessel-lady-jane");
    assert_eq!(vessel_dom_id("Morning Star"), "vessel-morning-star");
    assert_eq!(vessel_dom_id("ÉA b"), "vessel-Éa-b");
}

#[test]
fn urlencode_keeps_unreserved_and_escapes_the_rest() {
    assert_eq!(urlencode("Lady Jane"), "Lady+Jane");
    assert_eq!(urlencode("a-b_c.d~e"), "a-b_c.d~e");
    assert_eq!(urlencode("a&b=c"), "a%26b%3Dc");
    assert_eq!(urlencode("é"), "%C3%A9");
    assert_eq!(urlencode(""), "");
    assert_eq!(urlencode("/?#%+"), "%2F%3F%23%25%2B");
}

#[test]
fn htmx_search_needs_an_htmx_request() {
    assert!(matches!(htmx_search(false, "Lady"), HtmxSearch::Redirect));
}

#[test]
fn htmx_search_reports_a_long_query() {
    let too_long = "x".repeat(MAX_QUERY_LEN + 1);
    assert!(matches!(htmx_search(true, &too_long), HtmxSearch::TooLong));
}

#[test]
fn htmx_search_pushes_the_encoded_query_and_counts_matches() {
    match htmx_search(true, "Sea Urchin") {
        HtmxSearch::Found { pushed_url, count } => {
            assert_eq!(pushed_url, "/vessels/htmx?q=Sea+Urchin");
            assert_eq!(count, 1);
        }
        _ => panic!("expected matches"),
    }
    match htmx_search(true, "") {
        HtmxSearch::Found { pushed_url, count } => {
            assert_eq!(pushed_url, "/vessels/htmx?q=");
            assert_eq!(count, 4);
        }
        _ => panic!("expected matches"),
    }
}

#[test]
fn narrowing_a_search_never_adds_results() {
    for (wide, narrow) in [("", "Lady"), ("a", "Lady Jane"), ("n", "Moon"), (" S ", "Sea")] {
        let wide_names = names(wide);
        for name in names(narrow) {
            assert!(wide_names.contains(&name), "{narrow} gave {name} but {wide} did not");
        }
    }
}

#[test]
fn trimming_leaves_inner_white_space_alone() {
    assert_eq!(normalized_query(""), "");
    assert_eq!(normalized_query("   "), "");
    assert_eq!(normalized_query(" \u{2028}a \u{205f} b\u{85}"), "a \u{205f} b");
    assert_eq!(normalized_query("\u{200b}x"), "\u{200b}x");
}
