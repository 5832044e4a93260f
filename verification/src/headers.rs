use vstd::prelude::*;
use vstd::string::StringSliceAdditionalSpecFns;
use vstd::utf8::{
    encode_utf8, is_leading_byte_width_1, partial_valid_utf8,
    partial_valid_utf8_extend_ascii_block, valid_utf8,
};
use vstd::slice::slice_to_vec;

verus! {

/// Whether `b` may stand in a header name: a letter, a digit, or one of
/// `` ! # $ % & ' * + - . ^ _ ` | ~ ``.
pub open spec fn is_token_byte(b: u8) -> bool {
    ||| (0x30 <= b <= 0x39)
    ||| (0x41 <= b <= 0x5a)
    ||| (0x61 <= b <= 0x7a)
    ||| b == 0x21
    ||| (0x23 <= b <= 0x27)
    ||| b == 0x2a
    ||| b == 0x2b
    ||| b == 0x2d
    ||| b == 0x2e
    ||| (0x5e <= b <= 0x60)
    ||| b == 0x7c
    ||| b == 0x7e
}

/// `b` with an upper-case letter turned into its lower-case form.
pub open spec fn lower_byte(b: u8) -> u8 {
    if 0x41 <= b <= 0x5a {
        (b + 0x20) as u8
    } else {
        b
    }
}

/// The longest header name that is accepted, in bytes.
pub const MAX_HEADER_NAME_LEN: usize = 65535;

/// Whether `name` is a header name: not empty, not too long, token bytes only.
pub open spec fn is_header_name(name: Seq<u8>) -> bool {
    &&& 0 < name.len() <= MAX_HEADER_NAME_LEN
    &&& forall|i: int| 0 <= i < name.len() ==> is_token_byte(#[trigger] name[i])
}

/// The form under which a header name is stored and compared: lower case.
pub open spec fn normalized_name(name: Seq<u8>) -> Seq<u8> {
    name.map_values(|b: u8| lower_byte(b))
}

/// Whether `b` may stand in a header value: not a control byte, but for the tab.
pub open spec fn is_value_byte(b: u8) -> bool {
    (b >= 32 && b != 127) || b == 9
}

/// Whether `b` is a tab or a printable ASCII byte.
pub open spec fn is_visible_ascii(b: u8) -> bool {
    (32 <= b < 127) || b == 9
}

/// Whether every byte of `value` may stand in a header value.
pub open spec fn is_header_value(value: Seq<u8>) -> bool {
    forall|i: int| 0 <= i < value.len() ==> is_value_byte(#[trigger] value[i])
}

/// Whether `value` can be read as text: visible ASCII only.
pub open spec fn is_visible_text(value: Seq<u8>) -> bool {
    forall|i: int| 0 <= i < value.len() ==> is_visible_ascii(#[trigger] value[i])
}

/// A name that was refused as a header name.
#[derive(Debug, Clone, Copy, PartialEq, Eq, Structural)]
pub struct InvalidHeaderName;

/// Bytes that were refused as a header value.
#[derive(Debug, Clone, Copy, PartialEq, Eq, Structural)]
pub struct InvalidHeaderValue;

/// A header value that holds bytes other than visible ASCII.
#[derive(Debug, Clone, Copy, PartialEq, Eq, Structural)]
pub struct ToStrError;

/// Checks `name` and returns its stored form, lower case.
pub fn normalize_name(name: &str) -> (r: Result<Vec<u8>, InvalidHeaderName>)
    ensures
        r is Ok <==> is_header_name(name.spec_bytes()),
        r matches Ok(stored) ==> stored@ == normalized_name(name.spec_bytes()),
{
    let bytes = name.as_bytes();
    let n = bytes.len();
    if n == 0 || n > MAX_HEADER_NAME_LEN {
        return Err(InvalidHeaderName);
    }
    let mut stored: Vec<u8> = Vec::new();
    let mut i: usize = 0;
    while i < n
        invariant
            bytes@ == name.spec_bytes(),
            n == bytes@.len(),
            i <= n,
            stored@ == normalized_name(bytes@.take(i as int)),
            forall|k: int| 0 <= k < i ==> is_token_byte(#[trigger] bytes@[k]),
        decreases n - i,
    {
        let b = bytes[i];
        let token = (0x30 <= b && b <= 0x39) || (0x41 <= b && b <= 0x5a) || (0x61 <= b && b
            <= 0x7a) || b == 0x21 || (0x23 <= b && b <= 0x27) || b == 0x2a || b == 0x2b || b
            == 0x2d || b == 0x2e || (0x5e <= b && b <= 0x60) || b == 0x7c || b == 0x7e;
        if !token {
            return Err(InvalidHeaderName);
        }
        let low: u8 = if 0x41 <= b && b <= 0x5a {
            b + 0x20
        } else {
            b
        };
        stored.push(low);
        assert(bytes@.take(i + 1) =~= bytes@.take(i as int).push(b));
        assert(stored@ =~= normalized_name(bytes@.take(i + 1)));
        i += 1;
    }
    assert(bytes@.take(n as int) =~= bytes@);
    Ok(stored)
}

/// `String::from_utf8` of std: the text that `bytes` encode in UTF-8, where
/// they are such an encoding, and nothing where they are not.
#[verifier::external_body]
fn string_from_utf8(bytes: Vec<u8>) -> (r: Option<String>)
    ensures
        r is Some <==> valid_utf8(bytes@),
        r matches Some(text) ==> encode_utf8(text@) == bytes@,
{
    String::from_utf8(bytes).ok()
}

/// The bytes of one header value. It never holds a control byte but the tab.
#[derive(Debug)]
pub struct HeaderValue {
    bytes: Vec<u8>,
}

impl View for HeaderValue {
    type V = Seq<u8>;

    closed spec fn view(&self) -> Seq<u8> {
        self.bytes@
    }
}

impl Clone for HeaderValue {
    fn clone(&self) -> (copy: HeaderValue)
        ensures
            copy@ == self@,
    {
        proof {
            use_type_invariant(self);
        }
        HeaderValue { bytes: slice_to_vec(self.bytes.as_slice()) }
    }
}

impl HeaderValue {
    #[verifier::type_invariant]
    spec fn well_formed(&self) -> bool {
        is_header_value(self.bytes@)
    }

    /// Takes `src` as a header value where every byte of it is fit for one.
    pub fn from_bytes(src: &[u8]) -> (r: Result<HeaderValue, InvalidHeaderValue>)
        ensures
            r is Ok <==> is_header_value(src@),
            r matches Ok(value) ==> value@ == src@,
    {
        let n = src.len();
        let mut i: usize = 0;
        while i < n
            invariant
                n == src@.len(),
                i <= n,
                forall|k: int| 0 <= k < i ==> is_value_byte(#[trigger] src@[k]),
            decreases n - i,
        {
            let b = src[i];
            if !((b >= 32 && b != 127) || b == 9) {
                return Err(InvalidHeaderValue);
            }
            i += 1;
        }
        Ok(HeaderValue { bytes: slice_to_vec(src) })
    }

    /// Takes the UTF-8 bytes of `src` as a header value, as `from_bytes` does.
    pub fn from_str(src: &str) -> (r: Result<HeaderValue, InvalidHeaderValue>)
        ensures
            r is Ok <==> is_header_value(src.spec_bytes()),
            r matches Ok(value) ==> value@ == src.spec_bytes(),
    {
        HeaderValue::from_bytes(src.as_bytes())
    }

    /// The bytes of the value.
    pub fn as_bytes(&self) -> (bytes: &Vec<u8>)
        ensures
            bytes@ == self@,
            is_header_value(self@),
    {
        proof {
            use_type_invariant(self);
        }
        &self.bytes
    }

    /// The value as text, where it holds visible ASCII only.
    pub fn to_str(&self) -> (r: Result<String, ToStrError>)
        ensures
            r is Ok <==> is_visible_text(self@),
            r matches Ok(text) ==> encode_utf8(text@) == self@,
    {
        let n = self.bytes.len();
        let mut i: usize = 0;
        while i < n
            invariant
                n == self.bytes@.len(),
                i <= n,
                forall|k: int| 0 <= k < i ==> is_visible_ascii(#[trigger] self.bytes@[k]),
            decreases n - i,
        {
            let b = self.bytes[i];
            if !((32 <= b && b < 127) || b == 9) {
                return Err(ToStrError);
            }
            i += 1;
        }
        proof {
            let bytes = self.bytes@;
            assert forall|k: int| 0 <= k < bytes.len() implies #[trigger] is_leading_byte_width_1(
                bytes[k],
            ) by {
                let b = bytes[k];
                assert(is_visible_ascii(b));
                assert(b < 128 ==> is_leading_byte_width_1(b)) by (bit_vector);
            }
            assert(bytes.subrange(0, 0) =~= Seq::<u8>::empty());
            assert(partial_valid_utf8(bytes, 0));
            partial_valid_utf8_extend_ascii_block(bytes, 0, bytes.len() as int);
            assert(bytes.subrange(0, bytes.len() as int) =~= bytes);
        }
        match string_from_utf8(self.bytes.clone()) {
            Some(text) => Ok(text),
            None => Err(ToStrError),
        }
    }
}

/// What is left of `entries` when those named `name` are taken out.
pub open spec fn without_name(entries: Seq<(Seq<u8>, Seq<u8>)>, name: Seq<u8>) -> Seq<
    (Seq<u8>, Seq<u8>),
>
    decreases entries.len(),
{
    if entries.len() == 0 {
        Seq::empty()
    } else if entries.last().0 == name {
        without_name(entries.drop_last(), name)
    } else {
        without_name(entries.drop_last(), name).push(entries.last())
    }
}

/// The values that `entries` hold under `name`, in their order in `entries`.
pub open spec fn values_of(entries: Seq<(Seq<u8>, Seq<u8>)>, name: Seq<u8>) -> Seq<Seq<u8>>
    decreases entries.len(),
{
    if entries.len() == 0 {
        Seq::empty()
    } else if entries.last().0 == name {
        values_of(entries.drop_last(), name).push(entries.last().1)
    } else {
        values_of(entries.drop_last(), name)
    }
}

/// Whether two byte strings are the same.
pub fn bytes_eq(a: &[u8], b: &[u8]) -> (same: bool)
    ensures
        same == (a@ == b@),
{
    if a.len() != b.len() {
        return false;
    }
    let n = a.len();
    let mut i: usize = 0;
    while i < n
        invariant
            n == a@.len(),
            n == b@.len(),
            i <= n,
            forall|k: int| 0 <= k < i ==> a@[k] == b@[k],
        decreases n - i,
    {
        if a[i] != b[i] {
            return false;
        }
        i += 1;
    }
    assert(a@ =~= b@);
    true
}

/// One header: its name in lower case, and its value.
#[derive(Debug)]
pub struct HeaderEntry {
    name: Vec<u8>,
    value: HeaderValue,
}

impl HeaderEntry {
    /// The entry as a pair of name and value bytes.
    pub closed spec fn pair(&self) -> (Seq<u8>, Seq<u8>) {
        (self.name@, self.value@)
    }

    /// The name, in lower case.
    pub fn name(&self) -> (name: &Vec<u8>)
        ensures
            name@ == self.pair().0,
    {
        &self.name
    }

    /// The value.
    pub fn value(&self) -> (value: &HeaderValue)
        ensures
            value@ == self.pair().1,
    {
        &self.value
    }
}

/// A multimap of headers: a name may have several values, and the entries
/// keep the order in which they were added.
#[derive(Debug)]
pub struct HeaderMap {
    entries: Vec<HeaderEntry>,
}

impl View for HeaderMap {
    type V = Seq<(Seq<u8>, Seq<u8>)>;

    closed spec fn view(&self) -> Seq<(Seq<u8>, Seq<u8>)> {
        self.entries@.map_values(|e: HeaderEntry| e.pair())
    }
}

impl HeaderMap {
    /// A map without entries.
    pub fn new() -> (map: HeaderMap)
        ensures
            map@ == Seq::<(Seq<u8>, Seq<u8>)>::empty(),
    {
        let map = HeaderMap { entries: Vec::new() };
        assert(map@ =~= Seq::<(Seq<u8>, Seq<u8>)>::empty());
        map
    }

    /// The number of entries, each value of a name counted.
    pub fn len(&self) -> (n: usize)
        ensures
            n == self@.len(),
    {
        self.entries.len()
    }

    /// The entry at `index`.
    pub fn entry(&self, index: usize) -> (entry: &HeaderEntry)
        requires
            index < self@.len(),
        ensures
            entry.pair() == self@[index as int],
    {
        &self.entries[index]
    }

    /// Adds `value` under `name`, beside the values that the name has already.
    /// A name that is no header name is refused and nothing changes.
    pub fn append(&mut self, name: &str, value: HeaderValue) -> (r: Result<(), InvalidHeaderName>)
        ensures
            r is Ok <==> is_header_name(name.spec_bytes()),
            r is Ok ==> final(self)@ == old(self)@.push(
                (normalized_name(name.spec_bytes()), value@),
            ),
            r is Err ==> final(self)@ == old(self)@,
    {
        match normalize_name(name) {
            Ok(stored) => {
                let entry = HeaderEntry { name: stored, value };
                self.entries.push(entry);
                assert(self@ =~= old(self)@.push((normalized_name(name.spec_bytes()), value@)));
                Ok(())
            },
            Err(e) => Err(e),
        }
    }

    /// Sets `name` to the one value `value`: the values that the name had are
    /// dropped. A name that is no header name is refused and nothing changes.
    pub fn insert(&mut self, name: &str, value: HeaderValue) -> (r: Result<(), InvalidHeaderName>)
        ensures
            r is Ok <==> is_header_name(name.spec_bytes()),
            r is Ok ==> final(self)@ == without_name(
                old(self)@,
                normalized_name(name.spec_bytes()),
            ).push((normalized_name(name.spec_bytes()), value@)),
            r is Err ==> final(self)@ == old(self)@,
    {
        match normalize_name(name) {
            Ok(stored) => {
                let ghost before = self@;
                let ghost key = stored@;
                let mut i: usize = 0;
                let ghost mut seen: int = 0;
                while i < self.entries.len()
                    invariant
                        key == stored@,
                        0 <= seen <= before.len(),
                        i <= self.entries@.len(),
                        self@.len() - i == before.len() - seen,
                        self@.take(i as int) == without_name(before.take(seen), key),
                        self@.skip(i as int) == before.skip(seen),
                    decreases self.entries@.len() - i,
                {
                    let ghost current = self@;
                    assert(current[i as int] == before.skip(seen)[0]);
                    assert forall|j: int| i <= j < current.len() implies #[trigger] current[j]
                        == before[seen + j - i] by {
                        assert(current.skip(i as int)[j - i] == before.skip(seen)[j - i]);
                    }
                    assert(before.take(seen + 1).drop_last() =~= before.take(seen));
                    if bytes_eq(self.entries[i].name.as_slice(), stored.as_slice()) {
                        self.entries.remove(i);
                        assert(self@ =~= current.remove(i as int));
                        assert(self@.take(i as int) =~= current.take(i as int));
                        assert(self@.skip(i as int) =~= before.skip(seen + 1));
                    } else {
                        assert(self@.take(i + 1) =~= current.take(i as int).push(
                            current[i as int],
                        ));
                        assert(self@.skip(i + 1) =~= before.skip(seen + 1));
                        i += 1;
                    }
                    proof {
                        seen = seen + 1;
                    }
                }
                assert(self@.take(i as int) =~= self@);
                assert(before.take(seen) =~= before);
                let ghost kept = self@;
                let entry = HeaderEntry { name: stored, value };
                self.entries.push(entry);
                assert(self@ =~= kept.push((key, value@)));
                Ok(())
            },
            Err(e) => Err(e),
        }
    }

    /// The first value under `name`, if the name has one.
    pub fn get(&self, name: &str) -> (r: Option<&HeaderValue>)
        ensures
            match r {
                Some(value) => exists|i: int|
                    0 <= i < self@.len() && #[trigger] self@[i] == (
                        normalized_name(name.spec_bytes()),
                        value@,
                    ) && forall|j: int|
                        0 <= j < i ==> (#[trigger] self@[j]).0 != normalized_name(
                            name.spec_bytes(),
                        ),
                None => !is_header_name(name.spec_bytes()) || forall|j: int|
                    0 <= j < self@.len() ==> (#[trigger] self@[j]).0 != normalized_name(
                        name.spec_bytes(),
                    ),
            },
    {
        match normalize_name(name) {
            Ok(stored) => {
                let mut i: usize = 0;
                while i < self.entries.len()
                    invariant
                        i <= self@.len(),
                        stored@ == normalized_name(name.spec_bytes()),
                        forall|j: int| 0 <= j < i ==> (#[trigger] self@[j]).0 != stored@,
                    decreases self@.len() - i,
                {
                    if bytes_eq(self.entries[i].name.as_slice(), stored.as_slice()) {
                        assert(self@[i as int] == (stored@, self.entries[i as int].value@));
                        return Some(&self.entries[i].value);
                    }
                    i += 1;
                }
                None
            },
            Err(_) => None,
        }
    }

    /// Adds a copy of every entry of `other` behind the entries that are
    /// here already: no value that a name had is replaced.
    pub fn extend(&mut self, other: &HeaderMap)
        ensures
            final(self)@ == old(self)@ + other@,
    {
        let n = other.entries.len();
        let mut i: usize = 0;
        while i < n
            invariant
                n == other@.len(),
                i <= n,
                self@ == old(self)@ + other@.take(i as int),
            decreases n - i,
        {
            let source = &other.entries[i];
            let entry = HeaderEntry {
                name: slice_to_vec(source.name.as_slice()),
                value: source.value.clone(),
            };
            assert(entry.pair() == other@[i as int]);
            let ghost prev = self@;
            self.entries.push(entry);
            assert(self@ =~= prev.push(other@[i as int]));
            assert(other@.take(i + 1) =~= other@.take(i as int).push(other@[i as int]));
            assert(self@ =~= old(self)@ + other@.take(i + 1));
            i += 1;
        }
        assert(other@.take(n as int) =~= other@);
    }
}

/// The values under a name in two lists of entries joined are the values in
/// the first list followed by those in the second.
pub proof fn lemma_values_of_concat(
    first: Seq<(Seq<u8>, Seq<u8>)>,
    second: Seq<(Seq<u8>, Seq<u8>)>,
    name: Seq<u8>,
)
    ensures
        values_of(first + second, name) == values_of(first, name) + values_of(second, name),
    decreases second.len(),
{
    if second.len() == 0 {
        assert(first + second =~= first);
        assert(values_of(first, name) + values_of(second, name) =~= values_of(first, name));
    } else {
        lemma_values_of_concat(first, second.drop_last(), name);
        assert((first + second).drop_last() =~= first + second.drop_last());
        assert((first + second).last() == second.last());
        if second.last().0 == name {
            assert(values_of(first, name) + values_of(second.drop_last(), name).push(
                second.last().1,
            ) =~= (values_of(first, name) + values_of(second.drop_last(), name)).push(
                second.last().1,
            ));
        }
    }
}

} // verus!
