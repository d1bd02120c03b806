use axum::http::{HeaderMap, HeaderName, HeaderValue};
use vault_identity::error::AppError;
use vault_identity::headers::{
    find_cookie, get_cookie, header_i64, header_str, no_headers, set_cookie,
};

fn with(name: &'static str, value: &[u8]) -> HeaderMap {
    let mut headers = HeaderMap::new();
    headers.append(name, HeaderValue::from_bytes(value).unwrap());
    headers
}

#[test]
fn fields_are_found_whatever_the_case_of_their_name() {
    let headers = with("device-type", b"9");
    assert_eq!(header_str(&headers, "device-type"), Some("9".to_string()));
    assert_eq!(header_str(&headers, "Device-Type"), Some("9".to_string()));
    assert_eq!(header_str(&headers, "DEVICE-TYPE"), Some("9".to_string()));
    assert_eq!(header_str(&headers, "device-name"), None);
    assert_eq!(header_str(&headers, "not a name"), None);
    assert_eq!(header_str(&headers, ""), None);
}

#[test]
fn a_name_with_a_quote_is_not_found() {
    let mut headers = HeaderMap::new();
    headers.insert(HeaderName::from_static("x\"y"), HeaderValue::from_static("9"));
    assert_eq!(headers.len(), 1);
    assert_eq!(header_str(&headers, "x\"y"), None);
    assert_eq!(header_i64(&headers, "x\"y"), None);
    assert_eq!(header_str(&headers, "x\0y"), None);
    assert_eq!(header_str(&headers, "xy"), None);
}

#[test]
fn a_long_name_with_a_quote_is_not_found_either() {
    let name = "x\"y-0123456789-0123456789-0123456789-0123456789-0123456789-0123456789";
    assert!(name.len() > 64);
    let mut headers = HeaderMap::new();
    headers.insert(HeaderName::from_static(name), HeaderValue::from_static("9"));
    assert_eq!(header_str(&headers, name), None);
}

#[test]
fn a_long_name_is_found_whatever_its_case() {
    let name = "x-y-0123456789-0123456789-0123456789-0123456789-0123456789-0123456789";
    assert!(name.len() > 64);
    let headers = with(name, b"9");
    assert_eq!(header_str(&headers, name), Some("9".to_string()));
    assert_eq!(header_str(&headers, &name.to_uppercase()), Some("9".to_string()));
}

#[test]
fn a_long_text_that_is_no_name_is_looked_for_with_nul() {
    let filed = "x y-0123456789-0123456789-0123456789-0123456789-0123456789-0123456789";
    assert!(filed.len() > 64);
    let headers = with(filed, b"9");
    assert!(headers.keys().all(|k| k.as_str().starts_with("x\0y-")));
    for mark in [" ", "\"", "\0", "("] {
        let name = filed.replacen(" ", mark, 1);
        assert_eq!(header_str(&headers, &name), Some("9".to_string()));
        assert_eq!(header_i64(&headers, &name.to_uppercase()), Some(9));
    }
    assert_eq!(header_str(&headers, &filed.replacen(" ", "-", 1)), None);
    assert_eq!(header_str(&headers, &filed.replacen(" ", "é", 1)), None);
}

#[test]
fn of_several_values_the_first_is_read() {
    let mut headers = with("x-a", b"one");
    headers.append("x-a", HeaderValue::from_static("two"));
    assert_eq!(header_str(&headers, "x-a"), Some("one".to_string()));
}

#[test]
fn a_value_that_is_not_visible_is_not_read() {
    assert_eq!(header_str(&with("x-a", b"caf\xe9"), "x-a"), None);
    assert_eq!(header_str(&with("x-a", "é".as_bytes()), "x-a"), None);
    assert_eq!(header_str(&with("x-a", b"a\tb ~"), "x-a"), Some("a\tb ~".to_string()));
    let mut headers = with("x-a", b"\xff");
    headers.append("x-a", HeaderValue::from_static("two"));
    assert_eq!(header_str(&headers, "x-a"), None);
}

#[test]
fn integers_are_read_from_fields() {
    assert_eq!(header_i64(&with("device-type", b" 14 "), "Device-Type"), Some(14));
    assert_eq!(header_i64(&with("device-type", b"-9223372036854775808"), "device-type"), Some(i64::MIN));
    assert_eq!(header_i64(&with("device-type", b"9223372036854775808"), "device-type"), None);
    assert_eq!(header_i64(&with("device-type", b"web"), "device-type"), None);
    assert_eq!(header_i64(&with("device-type", b""), "device-type"), None);
    assert_eq!(header_i64(&HeaderMap::new(), "device-type"), None);
}

#[test]
fn cookies_are_read() {
    assert_eq!(find_cookie("a=1; b=2", "a"), Some("1".to_string()));
    assert_eq!(find_cookie("a=1; b=2", "b"), Some("2".to_string()));
    assert_eq!(find_cookie("a=1; b=2", "c"), None);
    assert_eq!(find_cookie("", "a"), None);
    assert_eq!(find_cookie("a", "a"), None);
    assert_eq!(find_cookie("a=", "a"), Some("".to_string()));
    assert_eq!(find_cookie("=x", ""), Some("x".to_string()));
    assert_eq!(find_cookie(";; a = 1 ;", "a"), Some("1".to_string()));
    assert_eq!(find_cookie("a=b=c", "a"), Some("b=c".to_string()));
    assert_eq!(find_cookie("A=1", "a"), None);
}

#[test]
fn the_first_cookie_of_a_name_is_read() {
    assert_eq!(find_cookie("a=1; a=2", "a"), Some("1".to_string()));
    assert_eq!(find_cookie("x; a=1; a=2", "a"), Some("1".to_string()));
}

#[test]
fn cookies_of_a_request_are_read_from_its_first_field() {
    assert_eq!(get_cookie(&with("cookie", b"t=1"), "t"), Some("1".to_string()));
    assert_eq!(get_cookie(&HeaderMap::new(), "t"), None);
    assert_eq!(get_cookie(&with("cookie", b"t=\xff"), "t"), None);
    let mut headers = with("cookie", b"a=1");
    headers.append("cookie", HeaderValue::from_static("t=1"));
    assert_eq!(get_cookie(&headers, "t"), None);
}

#[test]
fn cookies_are_sent_with_their_attributes() {
    let mut headers = no_headers();
    assert!(headers.is_empty());
    assert!(set_cookie(&mut headers, "bw_access_token", "x.y.z", 7200).is_ok());
    assert!(set_cookie(&mut headers, "n", "", -5).is_ok());
    let sent: Vec<&str> =
        headers.get_all("set-cookie").iter().map(|v| v.to_str().unwrap()).collect();
    assert_eq!(
        sent,
        vec![
            "bw_access_token=x.y.z; Max-Age=7200; Path=/; HttpOnly; Secure; SameSite=Lax",
            "n=; Max-Age=-5; Path=/; HttpOnly; Secure; SameSite=Lax",
        ]
    );
    assert_eq!(headers.keys_len(), 1);
}

#[test]
fn a_cookie_goes_behind_other_fields() {
    let mut headers = with("content-type", b"application/json");
    assert!(set_cookie(&mut headers, "a", "é", 1).is_ok());
    assert_eq!(headers.get("content-type").unwrap().as_bytes(), b"application/json");
    assert_eq!(
        headers.get("set-cookie").unwrap().as_bytes(),
        "a=é; Max-Age=1; Path=/; HttpOnly; Secure; SameSite=Lax".as_bytes()
    );
}

#[test]
fn a_cookie_with_a_control_character_is_not_sent() {
    let mut headers = no_headers();
    for value in ["a\nb", "a\u{0}", "\u{7f}"] {
        let r = set_cookie(&mut headers, "a", value, 1);
        assert!(matches!(r, Err(AppError::Internal)));
    }
    assert!(headers.is_empty());
    assert!(set_cookie(&mut headers, "a", "b\tc", 1).is_ok());
}

#[test]
fn a_sent_cookie_reads_back() {
    for (name, value) in [("twoFactorRemember", "AbC-_9"), ("bw_refresh_token", "e30.e30.x=y")] {
        let mut headers = no_headers();
        assert!(set_cookie(&mut headers, name, value, 2592000).is_ok());
        let line = headers.get("set-cookie").unwrap().to_str().unwrap().to_string();
        let pair = line.split(';').next().unwrap().to_string();
        let raw = format!("other=1;  {}; {}=late", pair, name);
        assert_eq!(find_cookie(&pair, name), Some(value.to_string()));
        assert_eq!(find_cookie(&raw, name), Some(value.to_string()));
        assert_eq!(find_cookie(&pair, "other"), None);
    }
}
