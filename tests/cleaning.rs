use link_rewrite::message::{better_links, extract_links, Entity};
use link_rewrite::rules::{is_allowed_param, is_insecure_scheme, kept_pairs, replacement_host};
use link_rewrite::sanitize::{clean_link, sanitize_link, CleanError};

fn clean(s: &str) -> Option<String> {
    sanitize_link(s)
}

#[test]
fn twitter_host_mirrored_and_tracking_dropped() {
    assert_eq!(
        clean("https://twitter.com/user/status/123?utm_source=x"),
        Some("https://fxtwitter.com/user/status/123".to_string())
    );
}

#[test]
fn x_host_mirrored() {
    assert_eq!(clean("https://x.com/a/status/1"), Some("https://fxtwitter.com/a/status/1".to_string()));
}

#[test]
fn instagram_mirrored_and_upgraded() {
    assert_eq!(clean("http://www.instagram.com/p/abc"), Some("https://eeinstagram.com/p/abc".to_string()));
}

#[test]
fn reddit_short_link_mirrored() {
    assert_eq!(clean("https://redd.it/abc123"), Some("https://rxddit.com/abc123".to_string()));
}

#[test]
fn tiktok_short_link_mirrored() {
    assert_eq!(clean("https://vm.tiktok.com/ZMabc/"), Some("https://tiktokez.com/ZMabc/".to_string()));
}

#[test]
fn bluesky_mirrored() {
    assert_eq!(
        clean("https://bsky.app/profile/a.b/post/1"),
        Some("https://fxbsky.app/profile/a.b/post/1".to_string())
    );
}

#[test]
fn youtube_keeps_video_id_only() {
    let original = "https://youtube.com/watch?v=abc123&utm_campaign=x";
    let cleaned = clean(original).unwrap();
    assert_eq!(cleaned, "https://youtube.com/watch?v=abc123");
    assert_ne!(cleaned, original);
}

#[test]
fn allowed_pairs_kept_in_order() {
    assert_eq!(
        clean("https://example.com/w?a=1&v=x&b=2&v=y%20z"),
        Some("https://example.com/w?v=x&v=y+z".to_string())
    );
}

#[test]
fn clean_url_is_unchanged() {
    let original = "https://example.com/watch?v=abc";
    assert_eq!(clean(original), Some(original.to_string()));
}

#[test]
fn plain_http_upgraded_elsewhere() {
    assert_eq!(clean("http://example.com/a"), Some("https://example.com/a".to_string()));
}

#[test]
fn fragment_survives() {
    assert_eq!(
        clean("https://reddit.com/r/x?utm_source=y#top"),
        Some("https://rxddit.com/r/x#top".to_string())
    );
}

#[test]
fn not_a_url_gives_nothing() {
    assert_eq!(clean("not a url"), None);
}

#[test]
fn url_without_host_gives_nothing() {
    assert_eq!(clean("mailto:rms@example.net"), None);
}

#[test]
fn upper_case_opaque_host_is_matched() {
    assert_eq!(clean("foo://X.COM/a?utm=1"), Some("foo://fxtwitter.com/a".to_string()));
}

#[test]
fn cleaning_twice_is_cleaning_once() {
    for u in [
        "https://twitter.com/user/status/123?utm_source=x",
        "http://www.instagram.com/p/abc",
        "https://youtube.com/watch?v=abc123&utm_campaign=x",
        "http://example.com/w?a=1&v=x&b=2&v=y%20z#f",
        "foo://X.COM/a?utm=1",
        "https://vm.tiktok.com/ZMabc/",
    ] {
        let once = clean(u).unwrap();
        assert_eq!(clean(&once), Some(once.clone()));
    }
}

#[test]
fn only_v_is_allowed() {
    assert!(is_allowed_param("v"));
    assert!(!is_allowed_param("V"));
    assert!(!is_allowed_param("utm_source"));
    assert!(!is_allowed_param(""));
}

#[test]
fn only_http_is_insecure() {
    assert!(is_insecure_scheme("http"));
    assert!(!is_insecure_scheme("https"));
    assert!(!is_insecure_scheme("ftp"));
}

#[test]
fn host_table() {
    assert_eq!(replacement_host("twitter.com"), Some("fxtwitter.com".to_string()));
    assert_eq!(replacement_host("www.reddit.com"), Some("rxddit.com".to_string()));
    assert_eq!(replacement_host("www.tiktok.com"), Some("tiktokez.com".to_string()));
    assert_eq!(replacement_host("www.bsky.app"), Some("fxbsky.app".to_string()));
    assert_eq!(replacement_host("instagram.com"), Some("eeinstagram.com".to_string()));
    assert_eq!(replacement_host("fxtwitter.com"), None);
    assert_eq!(replacement_host("Twitter.com"), None);
    assert_eq!(replacement_host("youtube.com"), None);
}

#[test]
fn kept_pairs_filters_in_order() {
    let p = |k: &str, v: &str| (k.to_string(), v.to_string());
    let pairs = vec![p("utm", "1"), p("v", "a"), p("x", "2"), p("v", "b")];
    assert_eq!(kept_pairs(&pairs), vec![p("v", "a"), p("v", "b")]);
    assert_eq!(kept_pairs(&vec![p("utm", "1")]), vec![]);
    assert_eq!(kept_pairs(&vec![]), vec![]);
}

#[test]
fn span_after_surrogate_pair_is_exact() {
    // The emoji takes two UTF-16 units, so the link starts at unit 3.
    let text = "😀 https://x.com/a";
    let entities = vec![Entity::PlainUrl { offset: 3, length: 15 }];
    assert_eq!(extract_links(text, &entities), vec!["https://x.com/a".to_string()]);
}

#[test]
fn span_inside_surrogate_pair_is_skipped() {
    let text = "😀 https://x.com/a";
    let entities = vec![
        Entity::PlainUrl { offset: 1, length: 5 },
        Entity::Other,
        Entity::PlainUrl { offset: 3, length: 15 },
        Entity::Hyperlink { target: "https://redd.it/q".to_string() },
    ];
    assert_eq!(
        extract_links(text, &entities),
        vec!["https://x.com/a".to_string(), "https://redd.it/q".to_string()]
    );
}

#[test]
fn span_past_the_end_is_cut_off() {
    let text = "see https://x.com";
    let entities = vec![
        Entity::PlainUrl { offset: 4, length: usize::MAX },
        Entity::PlainUrl { offset: 100, length: 5 },
        Entity::PlainUrl { offset: 0, length: 0 },
    ];
    assert_eq!(
        extract_links(text, &entities),
        vec!["https://x.com".to_string(), String::new(), String::new()]
    );
}

#[test]
fn message_reports_changed_links_only() {
    let text = "a https://example.com/x b https://twitter.com/u?s=1 c";
    let entities = vec![
        Entity::PlainUrl { offset: 2, length: 21 },
        Entity::PlainUrl { offset: 26, length: 25 },
        Entity::Hyperlink { target: "http://www.instagram.com/p/abc".to_string() },
        Entity::Hyperlink { target: "not a url".to_string() },
        Entity::Other,
    ];
    assert_eq!(
        better_links(text, &entities),
        vec![
            ("https://twitter.com/u?s=1".to_string(), "https://fxtwitter.com/u".to_string()),
            ("http://www.instagram.com/p/abc".to_string(), "https://eeinstagram.com/p/abc".to_string()),
        ]
    );
}

#[test]
fn empty_message_reports_nothing() {
    assert_eq!(better_links("", &vec![]), vec![]);
}

#[test]
fn reasons_for_no_cleaned_form() {
    assert_eq!(clean_link("not a url"), Err(CleanError::NotAUrl));
    assert_eq!(clean_link(""), Err(CleanError::NotAUrl));
    assert_eq!(clean_link("mailto:rms@example.net"), Err(CleanError::NoHost));
    assert_eq!(clean_link("http://redd.it/a"), Ok("https://rxddit.com/a".to_string()));
}
