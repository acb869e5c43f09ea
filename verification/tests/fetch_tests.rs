use six_degrees::fetch::{
    build_url, check_status, classify_payload, get_api_root, requested_title, extract_links_from, get_cache_directories_from, hex_of,
    try_build_url, FetchError, Link, Links, MaxlagAction, MaxlagRetry, Page, PARSE_ERROR,
};

fn link(ns: i32, title: &str) -> Link {
    Link { ns, exists: Some(String::new()), title: title.to_string() }
}

/// The page that the API returns for "Value network".
fn value_network() -> Page {
    Page {
        parse: Links {
            title: "Value network".to_string(),
            pageid: 1614337,
            links: vec![
                link(1, "Talk:Value network"),
                link(0, "Adolescent cliques"),
                link(0, "Assortative mixing"),
                link(11, "Template talk:Social networking"),
                link(12, "Help:Maintenance template removal"),
            ],
        },
    }
}

#[test]
fn test_build_url() {
    let root_url = "https://en.wikipedia.org/";
    let url = build_url(root_url, "Value network");
    assert_eq!(
        url.as_str(),
        "https://en.wikipedia.org/?action=parse&format=json&page=Value+network&prop=links"
    );
}

#[test]
fn build_url_refuses_a_relative_root() {
    assert_eq!(try_build_url("not a url", "Value network"), None);
    assert_eq!(
        try_build_url("https://en.wikipedia.org/w/api.php", "A&B").as_deref(),
        Some("https://en.wikipedia.org/w/api.php?action=parse&format=json&page=A%26B&prop=links")
    );
}

#[test]
fn page_keeps_article_links_in_order() {
    let entry = extract_links_from(value_network()).ok().unwrap();
    assert_eq!(entry.title, "Value network");
    assert_eq!(
        entry.digest,
        [165, 46, 141, 56, 102, 47, 14, 148, 186, 90, 70, 92, 181, 12, 96, 46]
    );
    assert_eq!(entry.outbound.len(), 2);
    assert_eq!(entry.outbound[0], "Adolescent cliques");
    assert_eq!(entry.outbound[1], "Assortative mixing");
}

#[test]
fn page_without_article_links() {
    let page = Page {
        parse: Links { title: "Empty".to_string(), pageid: 1, links: vec![link(4, "Wikipedia:About")] },
    };
    let entry = extract_links_from(page).ok().unwrap();
    assert!(entry.outbound.is_empty());
}

#[test]
fn payload_page_comes_first() {
    let result = classify_payload(Some(value_network()), Some(1), true);
    assert_eq!(result.ok().unwrap().outbound.len(), 2);
}

#[test]
fn payload_lag() {
    let result = classify_payload(None, Some(0.596f32.to_bits()), true);
    match result {
        Err(FetchError::Lag(lag)) => assert_eq!(f32::from_bits(lag), 0.596),
        _ => panic!("expected a lag"),
    }
}

#[test]
fn payload_missing_title() {
    assert!(matches!(classify_payload(None, None, true), Err(FetchError::MissingTitle)));
}

#[test]
fn payload_unknown() {
    match classify_payload(None, None, false) {
        Err(FetchError::Parse(message)) => assert_eq!(message, PARSE_ERROR),
        _ => panic!("expected a parse error"),
    }
}

#[test]
fn lag_is_retried_four_times() {
    let mut retry = MaxlagRetry::new();
    let lag: Result<_, FetchError> = Err(FetchError::Lag(0));
    for _ in 0..4 {
        assert_eq!(retry.next_action(&lag), MaxlagAction::RetryAfterDelay);
    }
    assert_eq!(retry.next_action(&lag), MaxlagAction::Return);
    assert_eq!(retry.next_action(&lag), MaxlagAction::Return);
}

#[test]
fn page_or_other_error_ends_retries() {
    let mut retry = MaxlagRetry::new();
    let page = extract_links_from(value_network());
    assert_eq!(retry.next_action(&page), MaxlagAction::CacheAndReturn);
    let missing: Result<_, FetchError> = Err(FetchError::MissingTitle);
    assert_eq!(retry.next_action(&missing), MaxlagAction::Return);
    assert_eq!(retry.tries, 4);
    let http: Result<_, FetchError> = Err(FetchError::Http(503));
    assert_eq!(retry.next_action(&http), MaxlagAction::Return);
}

#[test]
fn hex_names() {
    assert_eq!(hex_of(0), "00");
    assert_eq!(hex_of(10), "0a");
    assert_eq!(hex_of(165), "a5");
    assert_eq!(hex_of(255), "ff");
    for b in 0..=255u8 {
        assert_eq!(hex_of(b), format!("{:02x?}", b));
    }
}

#[test]
fn cache_directories_follow_digest() {
    assert_eq!(get_cache_directories_from("Value network"), vec!["2e", "a5"]);
    assert_eq!(get_cache_directories_from("Rail transport"), vec!["63", "0b"]);
}

#[test]
fn status_decides_body() {
    assert!(check_status(200).is_ok());
    assert!(matches!(check_status(404), Err(FetchError::Http(404))));
    assert!(matches!(check_status(503), Err(FetchError::Http(503))));
}

#[test]
fn api_root_has_one_slash() {
    assert_eq!(get_api_root("https://en.wikipedia.org/"), "https://en.wikipedia.org/w/api.php");
    assert_eq!(get_api_root("https://en.wikipedia.org"), "https://en.wikipedia.org/w/api.php");
}

#[test]
fn titles_are_trimmed() {
    assert_eq!(requested_title("  Value network\n"), "Value network");
    assert_eq!(requested_title("\u{3000}Rail transport\u{a0}"), "Rail transport");
    assert_eq!(requested_title("   "), "");
    assert_eq!(requested_title("A  B"), "A  B");
    for text in [" x ", "\t\r\ny\u{2028}", "\u{200b}z", "", "\u{85}\u{1680}w\u{205f}"] {
        assert_eq!(requested_title(text), text.trim());
    }
}
