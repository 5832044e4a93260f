use hyper_accelerator::content_type::ContentType;
use hyper_accelerator::headers::{
    bytes_eq, normalize_name, HeaderMap, HeaderValue, InvalidHeaderName, InvalidHeaderValue,
    ToStrError, MAX_HEADER_NAME_LEN,
};

fn value(text: &str) -> HeaderValue {
    HeaderValue::from_str(text).unwrap()
}

fn pairs(map: &HeaderMap) -> Vec<(String, String)> {
    (0..map.len())
        .map(|i| {
            let e = map.entry(i);
            (
                String::from_utf8(e.name().clone()).unwrap(),
                String::from_utf8(e.value().as_bytes().clone()).unwrap(),
            )
        })
        .collect()
}

#[test]
fn names_are_checked_and_lowered() {
    assert_eq!(normalize_name("Content-Type"), Ok(b"content-type".to_vec()));
    assert_eq!(normalize_name("x_y.z~1"), Ok(b"x_y.z~1".to_vec()));
    assert_eq!(normalize_name("!#$%&'*+-.^_`|~09AZaz"), Ok(b"!#$%&'*+-.^_`|~09azaz".to_vec()));
    assert_eq!(normalize_name(""), Err(InvalidHeaderName));
    assert_eq!(normalize_name("a b"), Err(InvalidHeaderName));
    assert_eq!(normalize_name("a:b"), Err(InvalidHeaderName));
    assert_eq!(normalize_name("a\"b"), Err(InvalidHeaderName));
    assert_eq!(normalize_name("a(b"), Err(InvalidHeaderName));
    assert_eq!(normalize_name("a@b"), Err(InvalidHeaderName));
    assert_eq!(normalize_name("a[b"), Err(InvalidHeaderName));
    assert_eq!(normalize_name("a{b"), Err(InvalidHeaderName));
    assert_eq!(normalize_name("é"), Err(InvalidHeaderName));
    let long = "a".repeat(MAX_HEADER_NAME_LEN);
    assert_eq!(normalize_name(&long).map(|n| n.len()), Ok(MAX_HEADER_NAME_LEN));
    let too_long = "a".repeat(MAX_HEADER_NAME_LEN + 1);
    assert_eq!(normalize_name(&too_long), Err(InvalidHeaderName));
}

#[test]
fn names_agree_with_the_http_crate() {
    for b in 0u8..128 {
        let text = String::from_utf8(vec![b'x', b]).unwrap();
        let theirs = hyper::header::HeaderName::from_bytes(text.as_bytes());
        let ours = normalize_name(&text);
        assert_eq!(ours.is_ok(), theirs.is_ok());
        if let (Ok(o), Ok(t)) = (ours, theirs) {
            assert_eq!(o, t.as_str().as_bytes().to_vec());
        }
    }
}

#[test]
fn values_are_checked() {
    assert!(HeaderValue::from_str("text/plain; charset=utf-8").is_ok());
    assert!(HeaderValue::from_str("a\tb").is_ok());
    assert!(HeaderValue::from_str("").is_ok());
    assert!(matches!(HeaderValue::from_str("a\nb"), Err(InvalidHeaderValue)));
    assert!(matches!(HeaderValue::from_str("a\u{7f}"), Err(InvalidHeaderValue)));
    assert!(matches!(HeaderValue::from_bytes(&[0]), Err(InvalidHeaderValue)));
    assert_eq!(HeaderValue::from_bytes(&[0xff, 0x80]).unwrap().as_bytes(), &vec![0xff, 0x80]);
    assert_eq!(HeaderValue::from_str("héllo").unwrap().as_bytes(), &"héllo".as_bytes().to_vec());
}

#[test]
fn values_agree_with_the_http_crate() {
    for b in 0u8..=255 {
        let theirs = hyper::header::HeaderValue::from_bytes(&[b'x', b]);
        let ours = HeaderValue::from_bytes(&[b'x', b]);
        assert_eq!(ours.is_ok(), theirs.is_ok());
        if let (Ok(o), Ok(t)) = (ours, theirs) {
            assert_eq!(o.to_str().is_ok(), t.to_str().is_ok());
        }
    }
}

#[test]
fn values_read_as_text_only_when_visible() {
    assert_eq!(value("abc def").to_str(), Ok("abc def".to_string()));
    assert_eq!(value("a\tb").to_str(), Ok("a\tb".to_string()));
    assert_eq!(HeaderValue::from_bytes(&[b'a', 0x80]).unwrap().to_str(), Err(ToStrError));
    assert_eq!(value("é").to_str(), Err(ToStrError));
    let copy = value("abc").clone();
    assert_eq!(copy.as_bytes(), b"abc");
}

#[test]
fn append_keeps_earlier_values() {
    let mut map = HeaderMap::new();
    assert_eq!(map.len(), 0);
    map.append("Accept", value("a")).unwrap();
    map.append("Host", value("h")).unwrap();
    map.append("accept", value("b")).unwrap();
    assert_eq!(
        pairs(&map),
        vec![
            ("accept".to_string(), "a".to_string()),
            ("host".to_string(), "h".to_string()),
            ("accept".to_string(), "b".to_string()),
        ]
    );
    assert_eq!(map.append("bad name", value("x")), Err(InvalidHeaderName));
    assert_eq!(map.len(), 3);
}

#[test]
fn insert_replaces_all_values_of_the_name() {
    let mut map = HeaderMap::new();
    map.append("a", value("1")).unwrap();
    map.append("b", value("2")).unwrap();
    map.append("A", value("3")).unwrap();
    map.append("c", value("4")).unwrap();
    map.insert("A", value("5")).unwrap();
    assert_eq!(
        pairs(&map),
        vec![
            ("b".to_string(), "2".to_string()),
            ("c".to_string(), "4".to_string()),
            ("a".to_string(), "5".to_string()),
        ]
    );
    assert_eq!(map.insert("", value("x")), Err(InvalidHeaderName));
    assert_eq!(map.len(), 3);
    map.insert("d", value("6")).unwrap();
    assert_eq!(map.len(), 4);
}

#[test]
fn get_finds_the_first_value() {
    let mut map = HeaderMap::new();
    map.append("a", value("1")).unwrap();
    map.append("b", value("2")).unwrap();
    map.append("a", value("3")).unwrap();
    assert_eq!(map.get("A").unwrap().as_bytes(), b"1");
    assert_eq!(map.get("b").unwrap().as_bytes(), b"2");
    assert!(map.get("c").is_none());
    assert!(map.get("no name").is_none());
}

#[test]
fn extend_adds_behind() {
    let mut map = HeaderMap::new();
    map.append("a", value("1")).unwrap();
    let mut other = HeaderMap::new();
    other.append("a", value("2")).unwrap();
    other.append("b", value("3")).unwrap();
    map.extend(&other);
    assert_eq!(
        pairs(&map),
        vec![
            ("a".to_string(), "1".to_string()),
            ("a".to_string(), "2".to_string()),
            ("b".to_string(), "3".to_string()),
        ]
    );
    assert_eq!(other.len(), 2);
}

#[test]
fn bytes_are_compared() {
    assert!(bytes_eq(b"abc", b"abc"));
    assert!(!bytes_eq(b"abc", b"abd"));
    assert!(!bytes_eq(b"abc", b"ab"));
    assert!(bytes_eq(b"", b""));
}

#[test]
fn content_types_have_their_text() {
    assert_eq!(ContentType::TextPlain.as_str(), "text/plain");
    assert_eq!(ContentType::ApplicationJson.as_str(), "application/json");
    assert_eq!(ContentType::ApplicationOctetstream.as_str(), "application/octet-stream");
    assert_eq!(ContentType::TextPlain.header_value().as_bytes(), b"text/plain");
    assert_eq!(ContentType::ApplicationJson.header_value().as_bytes(), b"application/json");
    assert_eq!(
        ContentType::ApplicationOctetstream.header_value().as_bytes(),
        b"application/octet-stream"
    );
}
