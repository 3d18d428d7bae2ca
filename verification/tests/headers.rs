use portfu::headers::{header_contains_value, header_value_lists, is_upgrade_request, websocket_accept, UpgradeError};
use portfu::net::{choose_public_ip, ip_in_prefix, is_cloudflare_ip, IpAddress};

#[test]
fn header_lists_are_trimmed_and_case_blind() {
    assert!(header_value_lists("keep-alive, Upgrade", "upgrade"));
    assert!(!header_value_lists("keep-alive", "upgrade"));
    assert!(header_value_lists(" websocket ", "WebSocket"));
    assert!(!header_value_lists("", "x"));
    assert!(header_contains_value(&vec!["a".to_string(), "b, c".to_string()], "C"));
    assert!(!header_contains_value(&vec![], "c"));
}

#[test]
fn upgrade_requests_need_both_headers() {
    let conn = vec!["keep-alive, Upgrade".to_string()];
    let up = vec!["websocket".to_string()];
    assert!(is_upgrade_request(&conn, &up));
    assert!(!is_upgrade_request(&conn, &vec!["h2c".to_string()]));
    assert!(!is_upgrade_request(&vec![], &up));
}

#[test]
fn websocket_accept_key_from_rfc() {
    assert_eq!(
        websocket_accept(Some(b"dGhlIHNhbXBsZSBub25jZQ=="), Some(b"13"), true),
        Ok("s3pPLMBiTxaQ9kYGzzhZRbK+xOo=".to_string())
    );
}

#[test]
fn websocket_accept_errors() {
    assert_eq!(websocket_accept(None, Some(b"13"), true), Err(UpgradeError::MissingSecWebSocketKey));
    assert_eq!(
        websocket_accept(Some(b"k"), Some(b"12"), true),
        Err(UpgradeError::MissingSecWebSocketVersionHeader)
    );
    assert_eq!(websocket_accept(Some(b"k"), None, true), Err(UpgradeError::MissingSecWebSocketVersionHeader));
    assert_eq!(websocket_accept(Some(b"k"), Some(b"13"), false), Err(UpgradeError::InvalidCloseSequence));
}

fn v4(a: u8, b: u8, c: u8, d: u8) -> IpAddress {
    IpAddress::V4(u32::from_be_bytes([a, b, c, d]))
}

#[test]
fn prefixes() {
    assert!(ip_in_prefix(&v4(10, 1, 2, 3), &v4(10, 0, 0, 0), 8));
    assert!(!ip_in_prefix(&v4(11, 1, 2, 3), &v4(10, 0, 0, 0), 8));
    assert!(ip_in_prefix(&v4(1, 2, 3, 4), &v4(9, 9, 9, 9), 0));
    assert!(ip_in_prefix(&v4(1, 2, 3, 4), &v4(1, 2, 3, 4), 32));
    assert!(!ip_in_prefix(&v4(1, 2, 3, 4), &IpAddress::V6(0), 0));
}

#[test]
fn cloudflare_addresses() {
    assert!(is_cloudflare_ip(&v4(173, 245, 48, 1)));
    assert!(is_cloudflare_ip(&v4(104, 16, 0, 1)));
    assert!(!is_cloudflare_ip(&v4(8, 8, 8, 8)));
    let v6: u128 = 0x2606_4700_0000_0000_0000_0000_0000_0001;
    assert!(is_cloudflare_ip(&IpAddress::V6(v6)));
    assert!(!is_cloudflare_ip(&IpAddress::V6(1)));
}

#[test]
fn public_ip_choice() {
    assert_eq!(choose_public_ip("1.1.1.1".to_string(), false, Some("2.2.2.2".to_string()), "3.3.3.3".to_string()), "1.1.1.1");
    assert_eq!(choose_public_ip("1.1.1.1".to_string(), true, Some("2.2.2.2".to_string()), "3.3.3.3".to_string()), "2.2.2.2");
    assert_eq!(choose_public_ip("1.1.1.1".to_string(), true, None, "3.3.3.3".to_string()), "3.3.3.3");
}
