use slipway::redirect::{return_to_for_request, validated_return_to, DEFAULT_RETURN_TO};

#[test]
fn return_to_accepts_a_local_path() {
    assert_eq!(
        validated_return_to(Some("/dashboard?tab=open".to_owned())),
        "/dashboard?tab=open"
    );
}

#[test]
fn return_to_rejects_unsafe_destinations() {
    for destination in [
        "//evil.com",
        r"/\evil.com",
        "http://evil.com",
        "https:/evil.com",
    ] {
        assert_eq!(
            validated_return_to(Some(destination.to_owned())),
            DEFAULT_RETURN_TO,
            "{destination}"
        );
    }
}

#[test]
fn return_to_rejects_dot_dot() {
    assert_eq!(
        validated_return_to(Some("/dashboard/../admin".to_owned())),
        DEFAULT_RETURN_TO
    );
}

#[test]
fn return_to_defaults_when_nothing_was_remembered() {
    assert_eq!(validated_return_to(None), "/admin");
    assert_eq!(validated_return_to(Some(String::new())), "/admin");
}

#[test]
fn return_to_keeps_the_root_and_single_dots() {
    assert_eq!(validated_return_to(Some("/".to_owned())), "/");
    assert_eq!(validated_return_to(Some("/a.b/c".to_owned())), "/a.b/c");
}

#[test]
fn validating_twice_changes_nothing() {
    for target in ["/dashboard", "//evil.com", "/x/../y", "relative"] {
        let once = validated_return_to(Some(target.to_owned()));
        let twice = validated_return_to(Some(once.clone()));
        assert_eq!(once, twice, "{target}");
        assert!(once.starts_with('/') && !once.starts_with("//"), "{once}");
    }
}

#[test]
fn only_safe_requests_remember_where_they_were() {
    assert_eq!(
        return_to_for_request(true, Some("/admin?x=1")),
        Some("/admin?x=1".to_owned())
    );
    assert_eq!(return_to_for_request(true, None), Some("/".to_owned()));
    assert_eq!(return_to_for_request(false, Some("/admin")), None);
}
