use slipway::auth::{AppState, MAGIC_LINK_LIFETIME};
use slipway::clock::instant_from;
use slipway::login::{
    email_from_query, login_request_path, magic_link_path, magic_link_sent, token_from_query,
};
use slipway::work_orders::{
    mark_work_order_complete, work_order_exists, work_orders, UnknownWorkOrder,
};

const T0: i128 = 1_700_000_000_000_000_000;

#[test]
fn magic_link_tokens_count_up_from_one() {
    let mut state = AppState::new();
    assert_eq!(state.new_magic_link_at("ada@example.com".to_owned(), T0), "magic-1");
    assert_eq!(state.new_magic_link_at("bo@example.com".to_owned(), T0), "magic-2");
    let mut state = AppState::default();
    assert_eq!(state.new_magic_link("cy@example.com".to_owned()), "magic-1");
}

#[test]
fn a_magic_link_signs_in_once() {
    let mut state = AppState::new();
    let token = state.new_magic_link_at("ada@example.com".to_owned(), T0);
    let link = state.consume_magic_link_at(&token, T0 + 1).expect("fresh link");
    assert_eq!(link.email, "ada@example.com");
    assert_eq!(link.expires_at, T0 + MAGIC_LINK_LIFETIME);
    assert!(state.consume_magic_link_at(&token, T0 + 2).is_none());
}

#[test]
fn an_expired_magic_link_is_used_up_and_refused() {
    let mut state = AppState::new();
    let token = state.new_magic_link_at("ada@example.com".to_owned(), T0);
    assert!(state.consume_magic_link_at(&token, T0 + MAGIC_LINK_LIFETIME).is_none());
    assert!(state.consume_magic_link_at(&token, T0).is_none());
}

#[test]
fn an_unknown_token_signs_nobody_in() {
    let mut state = AppState::new();
    assert!(state.consume_magic_link_at("magic-7", T0).is_none());
    assert!(state.consume_magic_link("").is_none());
}

#[test]
fn a_fresh_link_from_the_clock_signs_in() {
    let mut state = AppState::new();
    let token = state.new_magic_link("ada@example.com".to_owned());
    let link = state.consume_magic_link(&token).expect("fresh link");
    assert_eq!(link.email, "ada@example.com");
}

#[test]
fn sessions_identify_their_visitor_until_they_expire() {
    let mut state = AppState::new();
    let hash = [7u8; 32];
    state.record_session(hash, T0 + 100, "ada@example.com".to_owned());
    assert_eq!(state.current_email_at(&hash, T0), Some("ada@example.com".to_owned()));
    assert_eq!(state.current_email_at(&[8u8; 32], T0), None);
    assert_eq!(state.current_email_at(&hash, T0 + 100), None);
    // The expired record was dropped.
    assert_eq!(state.current_email_at(&hash, T0), None);
}

#[test]
fn signing_out_ends_the_session() {
    let mut state = AppState::new();
    let hash = [1u8; 32];
    let other = [2u8; 32];
    state.record_session(hash, T0 + 100, "ada@example.com".to_owned());
    state.record_session(other, T0 + 100, "bo@example.com".to_owned());
    state.remove_session(&hash);
    assert_eq!(state.current_email_at(&hash, T0), None);
    assert_eq!(state.current_email_at(&other, T0), Some("bo@example.com".to_owned()));
}

#[test]
fn recording_again_replaces_the_record() {
    let mut state = AppState::new();
    let hash = [3u8; 32];
    state.record_session(hash, T0 + 100, "ada@example.com".to_owned());
    state.record_session(hash, T0 + 200, "bo@example.com".to_owned());
    assert_eq!(state.current_email_at(&hash, T0 + 150), Some("bo@example.com".to_owned()));
}

#[test]
fn refreshing_moves_the_expiry() {
    let mut state = AppState::new();
    let hash = [4u8; 32];
    state.record_session(hash, T0 + 100, "ada@example.com".to_owned());
    state.update_expiry(hash, T0 + 500);
    assert_eq!(state.current_email_at(&hash, T0 + 300), Some("ada@example.com".to_owned()));
    state.update_expiry([5u8; 32], T0 + 500);
    assert_eq!(state.current_email_at(&[5u8; 32], T0), None);
}

#[test]
fn rotation_moves_the_visitor_to_the_new_token() {
    let mut state = AppState::new();
    let old = [6u8; 32];
    let new = [9u8; 32];
    state.record_session(old, T0 + 100, "ada@example.com".to_owned());
    state.rotate_session_at(&old, new, T0 + 900, T0 + 50);
    assert_eq!(state.current_email_at(&old, T0 + 60), None);
    assert_eq!(state.current_email_at(&new, T0 + 600), Some("ada@example.com".to_owned()));
}

#[test]
fn rotating_an_expired_session_keeps_no_email() {
    let mut state = AppState::new();
    let old = [6u8; 32];
    let new = [9u8; 32];
    state.record_session(old, T0 + 100, "ada@example.com".to_owned());
    state.rotate_session_at(&old, new, T0 + 900, T0 + 100);
    assert_eq!(state.current_email_at(&new, T0 + 600), Some(String::new()));
}

#[test]
fn a_session_recorded_far_ahead_is_current_now() {
    let mut state = AppState::new();
    let hash = [10u8; 32];
    state.record_session(hash, i128::MAX, "ada@example.com".to_owned());
    assert_eq!(state.current_email(&hash), Some("ada@example.com".to_owned()));
    state.rotate_session(&hash, [11u8; 32], i128::MAX);
    assert_eq!(state.current_email(&[11u8; 32]), Some("ada@example.com".to_owned()));
}

#[test]
fn login_reads_the_address_from_the_query() {
    assert_eq!(email_from_query(Some("email=ada@example.com")), "ada@example.com");
    assert_eq!(email_from_query(Some("mail=ada@example.com")), "captain@example.com");
    assert_eq!(email_from_query(None), "captain@example.com");
    assert_eq!(email_from_query(Some("email=")), "");
}

#[test]
fn verify_reads_the_token_from_the_query() {
    assert_eq!(token_from_query(Some("token=magic-3")), "magic-3");
    assert_eq!(token_from_query(Some("x=1")), "");
    assert_eq!(token_from_query(None), "");
}

#[test]
fn links_and_messages_name_their_targets() {
    assert_eq!(magic_link_path("magic-1"), "/login/verify?token=magic-1");
    assert_eq!(
        login_request_path("ada@example.com"),
        "/login/request?email=ada@example.com"
    );
    assert_eq!(
        magic_link_sent("/login/verify?token=magic-1"),
        "Magic link sent. Open /login/verify?token=magic-1"
    );
}

#[test]
fn the_work_order_list_is_known() {
    let ids: Vec<&str> = work_orders().iter().map(|o| o.id).collect();
    assert_eq!(ids, ["wo-a1-antifoul", "wo-c3-mooring"]);
    assert!(work_order_exists("wo-a1-antifoul"));
    assert!(work_order_exists("wo-c3-mooring"));
    assert!(!work_order_exists("wo-b7"));
    assert!(!work_order_exists(""));
}

#[test]
fn completing_a_work_order_persists() {
    let mut state = AppState::new();
    assert!(!state.work_order_is_complete("wo-a1-antifoul"));
    assert!(state.complete_work_order("wo-a1-antifoul"));
    assert!(state.work_order_is_complete("wo-a1-antifoul"));
    assert!(!state.complete_work_order("wo-a1-antifoul"));
}

#[test]
fn the_procedure_rejects_unknown_ids() {
    let mut state = AppState::new();
    assert_eq!(mark_work_order_complete(&mut state, "wo-a1-antifoul"), Ok(true));
    assert!(state.work_order_is_complete("wo-a1-antifoul"));
    assert_eq!(
        mark_work_order_complete(&mut state, "wo-nope"),
        Err(UnknownWorkOrder)
    );
    assert!(!state.work_order_is_complete("wo-nope"));
}

#[test]
fn instants_before_the_epoch_keep_their_order() {
    assert_eq!(instant_from(true, 5), 5);
    assert_eq!(instant_from(false, 5), -5);
    assert_eq!(instant_from(false, 0), 0);
    let mut state = AppState::new();
    let hash = [12u8; 32];
    // A session that expires before the epoch is still current earlier on.
    state.record_session(hash, instant_from(false, 100), "ada@example.com".to_owned());
    assert_eq!(
        state.current_email_at(&hash, instant_from(false, 200)),
        Some("ada@example.com".to_owned())
    );
    assert_eq!(state.current_email_at(&hash, instant_from(false, 50)), None);
}

#[test]
fn a_link_issued_before_the_epoch_still_works_for_fifteen_minutes() {
    let mut state = AppState::new();
    let issued_at = -(MAGIC_LINK_LIFETIME * 2);
    let token = state.new_magic_link_at("ada@example.com".to_owned(), issued_at);
    assert!(state.consume_magic_link_at(&token, issued_at + 1).is_some());
}
