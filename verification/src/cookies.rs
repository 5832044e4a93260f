use vstd::prelude::*;
use vstd::string::StringSliceAdditionalSpecFns;
use vstd::utf8::{decode_utf8, encode_utf8, encode_utf8_decode_utf8};
use crate::headers::{bytes_eq, is_visible_text, HeaderMap, ToStrError};

verus! {

#[verifier::external_type_specification]
#[verifier::external_body]
pub struct ExCookieParseError(cookie::ParseError);

/// Why a header gave no cookie.
#[derive(Debug)]
pub enum CookieParseError {
    /// The header's value is not visible ASCII.
    ToStr(ToStrError),
    /// The parser refused the text.
    CookieParseError(cookie::ParseError),
}

/// What the library reads of a cookie: its name, its value, and the moment
/// at which it expires, in nanoseconds since 1970-01-01T00:00:00Z, where it
/// names one.
#[derive(Debug)]
pub struct Cookie {
    pub name: String,
    pub value: String,
    pub expires: Option<i128>,
}

impl Cookie {
    /// The cookie as a triple of name, value and expiry.
    pub open spec fn triple(&self) -> (Seq<char>, Seq<char>, Option<int>) {
        (
            self.name@,
            self.value@,
            match self.expires {
                Some(t) => Some(t as int),
                None => None,
            },
        )
    }

    pub fn name(&self) -> (name: &str)
        ensures
            name@ == self.name@,
    {
        self.name.as_str()
    }

    pub fn value(&self) -> (value: &str)
        ensures
            value@ == self.value@,
    {
        self.value.as_str()
    }
}

/// What the cookie parser makes of the text of one `Set-Cookie` header, with
/// name and value percent-decoded: the cookie's triple, or nothing where the
/// parser refuses the text.
pub uninterp spec fn parsed_cookie(text: Seq<char>) -> Option<(Seq<char>, Seq<char>, Option<int>)>;

/// What the cookie parser makes of the text of one `Cookie` header: for each
/// of its pieces between semicolons that is not blank, in their order, what
/// the parser makes of that piece.
pub uninterp spec fn parsed_cookie_pairs(text: Seq<char>) -> Seq<
    Option<(Seq<char>, Seq<char>, Option<int>)>,
>;

/// Whether `item` is what the parser made, given as `parsed`.
pub open spec fn is_parse_of(
    item: Result<Cookie, cookie::ParseError>,
    parsed: Option<(Seq<char>, Seq<char>, Option<int>)>,
) -> bool {
    match item {
        Ok(c) => parsed == Some(c.triple()),
        Err(_) => parsed is None,
    }
}

/// `cookie::Cookie::parse_encoded`: parses the text of one `Set-Cookie`
/// header. The result is `parsed_cookie` of the text, and the parser's own
/// error where that is nothing.
#[verifier::external_body]
fn parse_encoded(text: &str) -> (r: Result<Cookie, cookie::ParseError>)
    ensures
        is_parse_of(r, parsed_cookie(text@)),
{
    match cookie::Cookie::parse_encoded(text) {
        Ok(c) => Ok(
            Cookie {
                name: c.name().to_string(),
                value: c.value().to_string(),
                expires: c.expires_datetime().map(|t| t.unix_timestamp_nanos()),
            },
        ),
        Err(e) => Err(e),
    }
}

/// `cookie::Cookie::split_parse_encoded`: parses the text of one `Cookie`
/// header, piece by piece. The results are `parsed_cookie_pairs` of the
/// text, each with the parser's own error where it is nothing.
#[verifier::external_body]
fn split_parse_encoded(text: &str) -> (r: Vec<Result<Cookie, cookie::ParseError>>)
    ensures
        r@.len() == parsed_cookie_pairs(text@).len(),
        forall|i: int| 0 <= i < r@.len() ==> is_parse_of(#[trigger] r@[i], parsed_cookie_pairs(text@)[i]),
{
    cookie::Cookie::split_parse_encoded(text).map(
        |item| match item {
            Ok(c) => Ok(
                Cookie {
                    name: c.name().to_string(),
                    value: c.value().to_string(),
                    expires: c.expires_datetime().map(|t| t.unix_timestamp_nanos()),
                },
            ),
            Err(e) => Err(e),
        },
    ).collect()
}

/// The current time of the system clock (`std::time::SystemTime::now`), in
/// nanoseconds since 1970-01-01T00:00:00Z.
#[verifier::external_body]
pub(crate) fn unix_now_nanos() -> i128 {
    cookie::time::OffsetDateTime::from(std::time::SystemTime::now()).unix_timestamp_nanos()
}

/// One item that reading cookies from headers gives.
pub enum CookieItem {
    /// A cookie, as its triple.
    Parsed((Seq<char>, Seq<char>, Option<int>)),
    /// A header whose value is not visible ASCII.
    Unreadable,
    /// A piece that the parser refused.
    Refused,
}

/// What `item` is, without the cookie's storage and the errors' details.
pub open spec fn item_view(item: Result<Cookie, CookieParseError>) -> CookieItem {
    match item {
        Ok(c) => CookieItem::Parsed(c.triple()),
        Err(CookieParseError::ToStr(_)) => CookieItem::Unreadable,
        Err(CookieParseError::CookieParseError(_)) => CookieItem::Refused,
    }
}

/// The item for what the parser made of one piece.
pub open spec fn parsed_item(parsed: Option<(Seq<char>, Seq<char>, Option<int>)>) -> CookieItem {
    match parsed {
        Some(t) => CookieItem::Parsed(t),
        None => CookieItem::Refused,
    }
}

/// The items that one header gives to the reading of `Cookie` headers:
/// nothing where it has another name, one item for an unreadable value, else
/// one item for each piece of its text.
pub open spec fn cookie_header_items(entry: (Seq<u8>, Seq<u8>)) -> Seq<CookieItem> {
    if entry.0 != "cookie".spec_bytes() {
        Seq::empty()
    } else if !is_visible_text(entry.1) {
        seq![CookieItem::Unreadable]
    } else {
        parsed_cookie_pairs(decode_utf8(entry.1)).map_values(
            |p: Option<(Seq<char>, Seq<char>, Option<int>)>| parsed_item(p),
        )
    }
}

/// The items that `entries` give to the reading of `Cookie` headers, header
/// by header in their order.
pub open spec fn cookie_items(entries: Seq<(Seq<u8>, Seq<u8>)>) -> Seq<CookieItem>
    decreases entries.len(),
{
    if entries.len() == 0 {
        Seq::empty()
    } else {
        cookie_items(entries.drop_last()) + cookie_header_items(entries.last())
    }
}

/// The items that one header gives to the reading of `Set-Cookie` headers:
/// nothing where it has another name, else one item.
pub open spec fn set_cookie_header_items(entry: (Seq<u8>, Seq<u8>)) -> Seq<CookieItem> {
    if entry.0 != "set-cookie".spec_bytes() {
        Seq::empty()
    } else if !is_visible_text(entry.1) {
        seq![CookieItem::Unreadable]
    } else {
        seq![parsed_item(parsed_cookie(decode_utf8(entry.1)))]
    }
}

/// The items that `entries` give to the reading of `Set-Cookie` headers,
/// header by header in their order.
pub open spec fn set_cookie_items(entries: Seq<(Seq<u8>, Seq<u8>)>) -> Seq<CookieItem>
    decreases entries.len(),
{
    if entries.len() == 0 {
        Seq::empty()
    } else {
        set_cookie_items(entries.drop_last()) + set_cookie_header_items(entries.last())
    }
}

/// The views of `items`.
pub open spec fn item_views(items: Seq<Result<Cookie, CookieParseError>>) -> Seq<CookieItem> {
    items.map_values(|item: Result<Cookie, CookieParseError>| item_view(item))
}

/// The cookies of the `Cookie` headers of a request, one after the other.
pub struct CookieIter {
    items: Vec<Result<Cookie, CookieParseError>>,
}

impl CookieIter {
    /// The items still to come.
    pub closed spec fn remaining(&self) -> Seq<CookieItem> {
        item_views(self.items@)
    }

    /// The next cookie, or the reason why a header or a piece gave none; and
    /// `None` when the headers are used up.
    pub fn next(&mut self) -> (r: Option<Result<Cookie, CookieParseError>>)
        ensures
            match r {
                Some(item) => old(self).remaining().len() > 0 && item_view(item) == old(
                    self,
                ).remaining()[0] && final(self).remaining() == old(self).remaining().drop_first(),
                None => old(self).remaining().len() == 0 && final(self).remaining().len() == 0,
            },
    {
        if self.items.len() == 0 {
            None
        } else {
            let item = self.items.remove(0);
            assert(self.remaining() =~= old(self).remaining().drop_first());
            Some(item)
        }
    }
}

/// Reads the cookies of the `Cookie` headers among `headers`.
pub fn cookies_iter(headers: &HeaderMap) -> (iter: CookieIter)
    ensures
        iter.remaining() == cookie_items(headers@),
{
    let mut items: Vec<Result<Cookie, CookieParseError>> = Vec::new();
    let n = headers.len();
    let mut i: usize = 0;
    while i < n
        invariant
            n == headers@.len(),
            i <= n,
            item_views(items@) == cookie_items(headers@.take(i as int)),
        decreases n - i,
    {
        let entry = headers.entry(i);
        let ghost before = items@;
        proof {
            assert(headers@.take(i + 1).drop_last() =~= headers@.take(i as int));
            assert(headers@.take(i + 1).last() == headers@[i as int]);
        }
        if bytes_eq(entry.name().as_slice(), "cookie".as_bytes()) {
            match entry.value().to_str() {
                Ok(text) => {
                    proof {
                        encode_utf8_decode_utf8(text@);
                    }
                    let mut parsed = split_parse_encoded(text.as_str());
                    let ghost pairs = parsed_cookie_pairs(text@);
                    let ghost count = parsed@.len();
                    let ghost mut k: int = 0;
                    while parsed.len() > 0
                        invariant
                            count == pairs.len(),
                            0 <= k,
                            k + parsed@.len() == count,
                            forall|j: int|
                                0 <= j < parsed@.len() ==> is_parse_of(
                                    #[trigger] parsed@[j],
                                    pairs[k + j],
                                ),
                            item_views(items@) == item_views(before) + pairs.take(k).map_values(
                                |p: Option<(Seq<char>, Seq<char>, Option<int>)>| parsed_item(p),
                            ),
                        decreases parsed@.len(),
                    {
                        let ghost first = parsed@[0];
                        let ghost shown = items@;
                        let item = parsed.remove(0);
                        let mapped = match item {
                            Ok(c) => Ok(c),
                            Err(e) => Err(CookieParseError::CookieParseError(e)),
                        };
                        assert(is_parse_of(first, pairs[k]));
                        assert(item_view(mapped) == parsed_item(pairs[k]));
                        items.push(mapped);
                        assert(item_views(items@) =~= item_views(shown).push(item_view(mapped)));
                        assert(pairs.take(k + 1) =~= pairs.take(k).push(pairs[k]));
                        assert(item_views(items@) =~= item_views(before) + pairs.take(
                            k + 1,
                        ).map_values(
                            |p: Option<(Seq<char>, Seq<char>, Option<int>)>| parsed_item(p),
                        ));
                        proof {
                            k = k + 1;
                        }
                    }
                    assert(pairs.take(k) =~= pairs);
                },
                Err(e) => {
                    items.push(Err(CookieParseError::ToStr(e)));
                    assert(item_views(items@) =~= item_views(before) + seq![
                        CookieItem::Unreadable,
                    ]);
                },
            }
        } else {
            assert(item_views(items@) =~= item_views(before) + Seq::<CookieItem>::empty());
        }
        i += 1;
    }
    assert(headers@.take(n as int) =~= headers@);
    CookieIter { items }
}

/// The cookies of the `Set-Cookie` headers of a response, one after the other.
pub struct SetCookieIter {
    items: Vec<Result<Cookie, CookieParseError>>,
}

impl SetCookieIter {
    /// The items still to come.
    pub closed spec fn remaining(&self) -> Seq<CookieItem> {
        item_views(self.items@)
    }

    /// The next cookie, or the reason why a header gave none; and `None`
    /// when the headers are used up.
    pub fn next(&mut self) -> (r: Option<Result<Cookie, CookieParseError>>)
        ensures
            match r {
                Some(item) => old(self).remaining().len() > 0 && item_view(item) == old(
                    self,
                ).remaining()[0] && final(self).remaining() == old(self).remaining().drop_first(),
                None => old(self).remaining().len() == 0 && final(self).remaining().len() == 0,
            },
    {
        if self.items.len() == 0 {
            None
        } else {
            let item = self.items.remove(0);
            assert(self.remaining() =~= old(self).remaining().drop_first());
            Some(item)
        }
    }
}

/// Reads the cookies of the `Set-Cookie` headers among `headers`.
pub fn set_cookies_iter(headers: &HeaderMap) -> (iter: SetCookieIter)
    ensures
        iter.remaining() == set_cookie_items(headers@),
{
    let mut items: Vec<Result<Cookie, CookieParseError>> = Vec::new();
    let n = headers.len();
    let mut i: usize = 0;
    while i < n
        invariant
            n == headers@.len(),
            i <= n,
            item_views(items@) == set_cookie_items(headers@.take(i as int)),
        decreases n - i,
    {
        let entry = headers.entry(i);
        let ghost before = items@;
        proof {
            assert(headers@.take(i + 1).drop_last() =~= headers@.take(i as int));
            assert(headers@.take(i + 1).last() == headers@[i as int]);
        }
        if bytes_eq(entry.name().as_slice(), "set-cookie".as_bytes()) {
            let item = match entry.value().to_str() {
                Ok(text) => {
                    proof {
                        encode_utf8_decode_utf8(text@);
                    }
                    match parse_encoded(text.as_str()) {
                        Ok(c) => Ok(c),
                        Err(e) => Err(CookieParseError::CookieParseError(e)),
                    }
                },
                Err(e) => Err(CookieParseError::ToStr(e)),
            };
            items.push(item);
            assert(item_views(items@) =~= item_views(before) + seq![item_view(item)]);
        } else {
            assert(item_views(items@) =~= item_views(before) + Seq::<CookieItem>::empty());
        }
        i += 1;
    }
    assert(headers@.take(n as int) =~= headers@);
    SetCookieIter { items }
}

/// Whether `cookie` names a moment of expiry that lies before `now`, both in
/// nanoseconds since 1970-01-01T00:00:00Z.
pub open spec fn expires_before(cookie: Cookie, now: int) -> bool {
    cookie.expires matches Some(t) && t < now
}

/// Whether `cookie` names a moment of expiry that lies before `now`, both in
/// nanoseconds since 1970-01-01T00:00:00Z.
pub fn is_cookie_expired_at(cookie: &Cookie, now: i128) -> (expired: bool)
    ensures
        expired == expires_before(*cookie, now as int),
{
    match cookie.expires {
        Some(date_time) => date_time < now,
        None => false,
    }
}

/// Whether `cookie` names a moment of expiry that lies before the current
/// time of the system clock. A cookie that names none is not expired.
pub fn is_cookie_expired_by_date(cookie: &Cookie) -> (expired: bool)
    ensures
        cookie.expires is None ==> !expired,
        exists|now: int| expired == #[trigger] expires_before(*cookie, now),
{
    let now = unix_now_nanos();
    let expired = is_cookie_expired_at(cookie, now);
    assert(expired == expires_before(*cookie, now as int));
    expired
}

} // verus!
