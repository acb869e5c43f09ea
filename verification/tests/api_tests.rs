use six_degrees::api::{
    api_reply, checked_address, default_api_socket, get_address, try_v4_address, ApiReply,
    SocketAddress, StartFrom,
};
use six_degrees::decimal::{decimal_above_u16, parse_i32, parse_u16};

fn localhost_api() -> SocketAddress {
    SocketAddress { octets: [127, 0, 0, 1], port: 6457 }
}

#[test]
fn test_api_v4_success() {
    let address = localhost_api();
    assert_eq!(get_address("192.168.1.2:3303"), address);
}

#[test]
fn test_api_v4_address_only_success() {
    let address = localhost_api();
    assert_eq!(get_address("192.168.1.2"), address);
}

#[test]
fn test_api_v4_port_only_success() {
    let address = localhost_api();
    assert_eq!(get_address(":3303"), address);
}

#[test]
fn address_octet_too_large_is_refused() {
    assert_eq!(checked_address("266.168.1.2:3303"), None);
}

#[test]
fn address_port_too_large_is_refused() {
    assert_eq!(checked_address("192.168.1.2:67034"), None);
}

#[test]
fn accepted_addresses() {
    assert_eq!(checked_address("255.255.255.255:65535"), Some(localhost_api()));
    assert_eq!(checked_address(""), Some(localhost_api()));
    assert_eq!(try_v4_address("10.0.0.1"), Some(localhost_api()));
    assert_eq!(default_api_socket(), localhost_api());
}

fn connections(reply: ApiReply) -> (i32, Option<StartFrom>) {
    match reply {
        ApiReply::Connections { depth, root } => (depth, root),
        ApiReply::NotFound { .. } => panic!("expected connections"),
    }
}

fn not_found(reply: ApiReply) -> String {
    match reply {
        ApiReply::NotFound { body } => body,
        ApiReply::Connections { .. } => panic!("expected not found"),
    }
}

#[test]
fn only_get_is_answered() {
    assert_eq!(not_found(api_reply(false, "/connections", None)), "");
}

#[test]
fn other_paths_are_not_found() {
    assert_eq!(not_found(api_reply(true, "/other", None)), "Nothing found at /other");
    assert_eq!(
        not_found(api_reply(true, "/connections/more", None)),
        "Nothing found at /connections/more"
    );
    assert_eq!(not_found(api_reply(true, "/", None)), "Nothing found at /");
}

#[test]
fn connections_defaults() {
    let (depth, root) = connections(api_reply(true, "/connections", None));
    assert_eq!(depth, 2);
    assert!(root.is_none());
    let (depth, _) = connections(api_reply(true, "/CONNECTIONS", Some("")));
    assert_eq!(depth, 2);
}

#[test]
fn connections_depth_is_clamped() {
    assert_eq!(connections(api_reply(true, "/connections", Some("depth=9"))).0, 6);
    assert_eq!(connections(api_reply(true, "/connections", Some("depth=-3"))).0, 1);
    assert_eq!(connections(api_reply(true, "/connections", Some("depth=4"))).0, 4);
    assert_eq!(connections(api_reply(true, "/connections", Some("depth=four"))).0, 2);
    assert_eq!(connections(api_reply(true, "/connections", Some("depth=3&depth=5"))).0, 5);
}

#[test]
fn connections_root() {
    match connections(api_reply(true, "/Connections", Some("url=u&title=Rail+transport"))).1 {
        Some(StartFrom::Title(title)) => assert_eq!(title, "Rail transport"),
        _ => panic!("expected a title"),
    }
    match connections(api_reply(true, "/connections", Some("url=https%3A%2F%2Fx"))).1 {
        Some(StartFrom::Url(url)) => assert_eq!(url, "https://x"),
        _ => panic!("expected a url"),
    }
}

#[test]
fn decimal_reading() {
    assert_eq!(parse_u16("65535"), Some(65535));
    assert_eq!(parse_u16("65536"), None);
    assert_eq!(parse_u16("+7"), Some(7));
    assert_eq!(parse_u16("-7"), None);
    assert_eq!(parse_u16(""), None);
    assert_eq!(parse_u16("+"), None);
    assert_eq!(parse_u16("1a"), None);
    assert_eq!(parse_i32("-2147483648"), Some(i32::MIN));
    assert_eq!(parse_i32("2147483647"), Some(i32::MAX));
    assert_eq!(parse_i32("2147483648"), None);
    assert_eq!(parse_i32("-0"), Some(0));
    assert_eq!(parse_i32("-"), None);
    for text in ["0", "12", "+3", "-45", "99999999999", "x", " 1"] {
        assert_eq!(parse_i32(text), text.parse::<i32>().ok());
        assert_eq!(parse_u16(text), text.parse::<u16>().ok());
    }
}

#[test]
fn port_in_other_digits_is_accepted() {
    // `\d` also matches non-ASCII decimal digits; such a port is never read as a number.
    assert_eq!(checked_address("192.168.1.2:\u{0661}\u{0662}\u{0663}"), Some(localhost_api()));
    assert_eq!(checked_address(":65535"), Some(localhost_api()));
    assert_eq!(checked_address(":65536"), None);
}

#[test]
fn decimal_above_u16_limit() {
    assert!(decimal_above_u16("65536"));
    assert!(decimal_above_u16("99999"));
    assert!(!decimal_above_u16("65535"));
    assert!(!decimal_above_u16(""));
    assert!(!decimal_above_u16("+70000"));
    assert!(!decimal_above_u16("\u{0661}\u{0662}"));
}
