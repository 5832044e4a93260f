use hyper_accelerator::cookies::{
    cookies_iter, is_cookie_expired_at, is_cookie_expired_by_date, set_cookies_iter, Cookie,
    CookieParseError,
};
use hyper_accelerator::headers::{HeaderMap, HeaderValue};

fn append(headers: &mut HeaderMap, name: &str, value: &str) {
    headers.append(name, HeaderValue::from_str(value).unwrap()).unwrap();
}

#[test]
fn iter_over_cookies() {
    let mut headers = HeaderMap::new();
    append(&mut headers, "beginning", "name=value");
    append(&mut headers, "Cookie", "name0=value0; name1=value1; name0=value2");
    append(&mut headers, "middle", "foobar");
    append(&mut headers, "middle", "foobar");
    append(&mut headers, "cOOKIE", "name2=value3; name0=value4");
    append(&mut headers, "middle", "foobar");
    append(&mut headers, "middle", "foobar");
    append(&mut headers, "cookie", "name3=value5");
    append(&mut headers, "end", "foobar");

    let mut iter = cookies_iter(&headers);

    let cookie = iter.next().unwrap().unwrap();
    assert_eq!(cookie.name(), "name0");
    assert_eq!(cookie.value(), "value0");

    let cookie = iter.next().unwrap().unwrap();
    assert_eq!(cookie.name(), "name1");
    assert_eq!(cookie.value(), "value1");

    let cookie = iter.next().unwrap().unwrap();
    assert_eq!(cookie.name(), "name0");
    assert_eq!(cookie.value(), "value2");

    let cookie = iter.next().unwrap().unwrap();
    assert_eq!(cookie.name(), "name2");
    assert_eq!(cookie.value(), "value3");

    let cookie = iter.next().unwrap().unwrap();
    assert_eq!(cookie.name(), "name0");
    assert_eq!(cookie.value(), "value4");

    let cookie = iter.next().unwrap().unwrap();
    assert_eq!(cookie.name(), "name3");
    assert_eq!(cookie.value(), "value5");

    assert!(iter.next().is_none());
}

#[test]
fn iter_over_set_cookies() {
    let mut headers = HeaderMap::new();
    append(&mut headers, "beginning", "name=value");
    append(&mut headers, "Set-Cookie", "name0=value0");
    append(&mut headers, "middle", "foobar");
    append(&mut headers, "middle", "foobar");
    append(&mut headers, "set-cOOKIE", "name1=value1");
    append(&mut headers, "middle", "foobar");
    append(&mut headers, "middle", "foobar");
    append(&mut headers, "set-cookie", "name2=value2");
    append(&mut headers, "end", "foobar");

    let mut iter = set_cookies_iter(&headers);

    let cookie = iter.next().unwrap().unwrap();
    assert_eq!(cookie.name(), "name0");
    assert_eq!(cookie.value(), "value0");

    let cookie = iter.next().unwrap().unwrap();
    assert_eq!(cookie.name(), "name1");
    assert_eq!(cookie.value(), "value1");

    let cookie = iter.next().unwrap().unwrap();
    assert_eq!(cookie.name(), "name2");
    assert_eq!(cookie.value(), "value2");

    assert!(iter.next().is_none());
}

#[test]
fn cookie_values_are_percent_decoded() {
    let mut headers = HeaderMap::new();
    append(&mut headers, "cookie", "a=b%20c");
    let mut iter = cookies_iter(&headers);
    let cookie = iter.next().unwrap().unwrap();
    assert_eq!(cookie.name(), "a");
    assert_eq!(cookie.value(), "b c");
    assert!(iter.next().is_none());
}

#[test]
fn blank_pieces_are_skipped_and_bad_pieces_reported() {
    let mut headers = HeaderMap::new();
    append(&mut headers, "cookie", "a=1;; ;novalue; b=2");
    let mut iter = cookies_iter(&headers);
    assert_eq!(iter.next().unwrap().unwrap().name(), "a");
    assert!(matches!(iter.next(), Some(Err(CookieParseError::CookieParseError(_)))));
    assert_eq!(iter.next().unwrap().unwrap().name(), "b");
    assert!(iter.next().is_none());
}

#[test]
fn unreadable_header_gives_one_error_and_reading_goes_on() {
    let mut headers = HeaderMap::new();
    headers.append("cookie", HeaderValue::from_bytes(&[b'a', b'=', 0xff]).unwrap()).unwrap();
    append(&mut headers, "cookie", "b=2");
    let mut iter = cookies_iter(&headers);
    assert!(matches!(iter.next(), Some(Err(CookieParseError::ToStr(_)))));
    assert_eq!(iter.next().unwrap().unwrap().name(), "b");
    assert!(iter.next().is_none());

    let mut iter = set_cookies_iter(&headers);
    assert!(iter.next().is_none());
    let mut headers = HeaderMap::new();
    headers.append("set-cookie", HeaderValue::from_bytes(&[0xfe]).unwrap()).unwrap();
    append(&mut headers, "set-cookie", "=x");
    let mut iter = set_cookies_iter(&headers);
    assert!(matches!(iter.next(), Some(Err(CookieParseError::ToStr(_)))));
    assert!(matches!(iter.next(), Some(Err(CookieParseError::CookieParseError(_)))));
    assert!(iter.next().is_none());
}

#[test]
fn set_cookie_expiry_is_read_in_nanoseconds() {
    let mut headers = HeaderMap::new();
    append(&mut headers, "set-cookie", "t=1; Expires=Thu, 01 Jan 1970 00:00:10 GMT; HttpOnly");
    append(&mut headers, "set-cookie", "u=2");
    let mut iter = set_cookies_iter(&headers);
    let cookie = iter.next().unwrap().unwrap();
    assert_eq!(cookie.name, "t");
    assert_eq!(cookie.expires, Some(10_000_000_000));
    let cookie = iter.next().unwrap().unwrap();
    assert_eq!(cookie.expires, None);
}

#[test]
fn expiry_is_compared_with_the_given_time() {
    let cookie = Cookie { name: "a".to_string(), value: "b".to_string(), expires: Some(100) };
    assert!(is_cookie_expired_at(&cookie, 101));
    assert!(!is_cookie_expired_at(&cookie, 100));
    assert!(!is_cookie_expired_at(&cookie, 99));
    let never = Cookie { name: "a".to_string(), value: "b".to_string(), expires: None };
    assert!(!is_cookie_expired_at(&never, i128::MAX));
}

#[test]
fn expiry_by_the_clock() {
    let old = Cookie { name: "a".to_string(), value: "b".to_string(), expires: Some(0) };
    assert!(is_cookie_expired_by_date(&old));
    let far = Cookie { name: "a".to_string(), value: "b".to_string(), expires: Some(i128::MAX) };
    assert!(!is_cookie_expired_by_date(&far));
    let never = Cookie { name: "a".to_string(), value: "b".to_string(), expires: None };
    assert!(!is_cookie_expired_by_date(&never));
}
