use vstd::prelude::*;

use vstd::string::StringSliceAdditionalSpecFns;

use crate::error::DecoderError;

verus! {

/// A decoded header field.
///
/// Pseudo-header values and ordinary header names and values are held as
/// raw bytes; a `:status` value is held as its three-digit code.
#[derive(Debug, Clone, PartialEq, Eq)]
pub enum Entry {
    Authority(Vec<u8>),
    Method(Vec<u8>),
    Scheme(Vec<u8>),
    Path(Vec<u8>),
    Status(u16),
    Header { name: Vec<u8>, value: Vec<u8> },
}

/// The mathematical value of an [`Entry`].
pub ghost enum EntryView {
    Authority(Seq<u8>),
    Method(Seq<u8>),
    Scheme(Seq<u8>),
    Path(Seq<u8>),
    Status(u16),
    Header { name: Seq<u8>, value: Seq<u8> },
}

impl View for Entry {
    type V = EntryView;

    open spec fn view(&self) -> EntryView {
        match self {
            Entry::Authority(v) => EntryView::Authority(v@),
            Entry::Method(v) => EntryView::Method(v@),
            Entry::Scheme(v) => EntryView::Scheme(v@),
            Entry::Path(v) => EntryView::Path(v@),
            Entry::Status(c) => EntryView::Status(*c),
            Entry::Header { name, value } => EntryView::Header { name: name@, value: value@ },
        }
    }
}

/// The bytes of a string.
pub open spec fn bytes_of(s: &str) -> Seq<u8> {
    s.spec_bytes()
}

/// Size of an entry as the dynamic table accounts it: the length of the
/// name, the length of the value, and 32.
pub open spec fn entry_size(e: EntryView) -> nat {
    match e {
        EntryView::Authority(v) => 10 + v.len() + 32,
        EntryView::Method(v) => 7 + v.len() + 32,
        EntryView::Scheme(v) => 7 + v.len() + 32,
        EntryView::Path(v) => 5 + v.len() + 32,
        EntryView::Status(_) => 7 + 3 + 32,
        EntryView::Header { name, value } => name.len() + value.len() + 32,
    }
}

/// Whether a byte is an ASCII decimal digit.
pub open spec fn is_digit(b: u8) -> bool {
    48 <= b <= 57
}

/// A status code written as three ASCII digits, the first of them not zero.
pub open spec fn status_of(v: Seq<u8>) -> Option<u16> {
    if v.len() == 3 && 49 <= v[0] <= 57 && is_digit(v[1]) && is_digit(v[2]) {
        Some(((v[0] - 48) * 100 + (v[1] - 48) * 10 + (v[2] - 48)) as u16)
    } else {
        None
    }
}

/// Whether every byte may stand in a header value: visible ASCII, space,
/// tab, and any byte from 128 up.
pub open spec fn header_value_ok(s: Seq<u8>) -> bool {
    forall|i: int| 0 <= i < s.len() ==> (s[i] >= 32 && s[i] != 127) || s[i] == 9
}

/// The header name that `http::HeaderName::from_bytes` makes of the bytes
/// (lower case), or `None` where it refuses them.
pub uninterp spec fn header_name_of(s: Seq<u8>) -> Option<Seq<u8>>;

/// Whether `http::Method::from_bytes` accepts the bytes as a method.
pub uninterp spec fn method_valid(s: Seq<u8>) -> bool;

/// Whether the bytes are well-formed UTF-8, as `std::str::from_utf8` decides.
pub uninterp spec fn utf8_valid(s: Seq<u8>) -> bool;

/// The entry that keeps the name (and the kind) of `key` and takes `value`.
pub open spec fn with_value(key: EntryView, value: Seq<u8>) -> Result<EntryView, DecoderError> {
    match key {
        EntryView::Authority(_) => if utf8_valid(value) {
            Ok(EntryView::Authority(value))
        } else {
            Err(DecoderError::InvalidUtf8)
        },
        EntryView::Method(_) => if method_valid(value) {
            Ok(EntryView::Method(value))
        } else {
            Err(DecoderError::InvalidUtf8)
        },
        EntryView::Scheme(_) => if utf8_valid(value) {
            Ok(EntryView::Scheme(value))
        } else {
            Err(DecoderError::InvalidUtf8)
        },
        EntryView::Path(_) => if utf8_valid(value) {
            Ok(EntryView::Path(value))
        } else {
            Err(DecoderError::InvalidUtf8)
        },
        EntryView::Status(_) => match status_of(value) {
            Some(c) => Ok(EntryView::Status(c)),
            None => Err(DecoderError::InvalidStatusCode),
        },
        EntryView::Header { name, value: _ } => if header_value_ok(value) {
            Ok(EntryView::Header { name, value })
        } else {
            Err(DecoderError::InvalidUtf8)
        },
    }
}

/// The entry for a literal name and value: a name that starts with `:` must
/// be one of the five pseudo-headers.
pub open spec fn entry_new(name: Seq<u8>, value: Seq<u8>) -> Result<EntryView, DecoderError> {
    if name.len() > 0 && name[0] == 58 {
        let tail = name.drop_first();
        if tail == bytes_of("authority") {
            with_value(EntryView::Authority(Seq::empty()), value)
        } else if tail == bytes_of("method") {
            with_value(EntryView::Method(Seq::empty()), value)
        } else if tail == bytes_of("scheme") {
            with_value(EntryView::Scheme(Seq::empty()), value)
        } else if tail == bytes_of("path") {
            with_value(EntryView::Path(Seq::empty()), value)
        } else if tail == bytes_of("status") {
            with_value(EntryView::Status(200), value)
        } else {
            Err(DecoderError::InvalidPseudoheader)
        }
    } else {
        match header_name_of(name) {
            Some(n) => with_value(EntryView::Header { name: n, value: Seq::empty() }, value),
            None => Err(DecoderError::InvalidUtf8),
        }
    }
}

/// The view of a result that carries an entry.
pub open spec fn result_view(r: Result<Entry, DecoderError>) -> Result<EntryView, DecoderError> {
    match r {
        Ok(e) => Ok(e@),
        Err(err) => Err(err),
    }
}

/// Relies on std::str::from_utf8: whether it accepts the bytes.
#[verifier::external_body]
fn is_utf8(b: &[u8]) -> (r: bool)
    ensures
        r == utf8_valid(b@),
{
    std::str::from_utf8(b).is_ok()
}

/// Relies on http::HeaderName::from_bytes: the name it makes of the bytes,
/// as bytes, or `None` where it refuses them.
#[verifier::external_body]
fn header_name(b: &[u8]) -> (r: Option<Vec<u8>>)
    ensures
        match r {
            Some(v) => header_name_of(b@) == Some(v@),
            None => header_name_of(b@) is None,
        },
{
    match http::HeaderName::from_bytes(b) {
        Ok(n) => Some(n.as_str().as_bytes().to_vec()),
        Err(_) => None,
    }
}

/// Relies on http::HeaderValue::from_bytes: it accepts the bytes exactly
/// when each is visible ASCII, space, tab, or from 128 up.
#[verifier::external_body]
fn header_value_valid(b: &[u8]) -> (r: bool)
    ensures
        r == header_value_ok(b@),
{
    http::HeaderValue::from_bytes(b).is_ok()
}

/// Relies on http::Method::from_bytes: whether it accepts the bytes; it
/// refuses the empty method.
#[verifier::external_body]
fn method_bytes_valid(b: &[u8]) -> (r: bool)
    ensures
        r == method_valid(b@),
        b@.len() == 0 ==> !r,
{
    http::Method::from_bytes(b).is_ok()
}

/// Relies on http::StatusCode::from_bytes: three ASCII digits, the first not
/// zero, give the code they write; anything else is refused.
#[verifier::external_body]
fn status_code(b: &[u8]) -> (r: Option<u16>)
    ensures
        r == status_of(b@),
{
    match http::StatusCode::from_bytes(b) {
        Ok(c) => Some(c.as_u16()),
        Err(_) => None,
    }
}

/// A fresh vector holding the bytes of `b`.
pub fn copy_bytes(b: &[u8]) -> (r: Vec<u8>)
    ensures
        r@ == b@,
{
    let mut r: Vec<u8> = Vec::new();
    let mut i: usize = 0;
    while i < b.len()
        invariant
            i <= b.len(),
            r@ == b@.subrange(0, i as int),
        decreases b.len() - i,
    {
        r.push(b[i]);
        i = i + 1;
        assert(r@ =~= b@.subrange(0, i as int));
    }
    assert(r@ =~= b@);
    r
}

/// The bytes of a string, in a fresh vector.
pub fn str_vec(s: &str) -> (r: Vec<u8>)
    ensures
        r@ == bytes_of(s),
{
    copy_bytes(s.as_bytes())
}

/// Whether `name` is `:` followed by the bytes of `s`.
fn tail_is(name: &[u8], s: &str) -> (r: bool)
    requires
        name.len() >= 1,
    ensures
        r == (name@.drop_first() == bytes_of(s)),
{
    let t = s.as_bytes();
    assert(t@ =~= bytes_of(s));
    if name.len() - 1 != t.len() {
        assert(name@.drop_first().len() != t@.len());
        return false;
    }
    let mut i: usize = 0;
    while i < t.len()
        invariant
            name.len() - 1 == t.len(),
            t@ == bytes_of(s),
            i <= t.len(),
            forall|j: int| 0 <= j < i ==> name@[j + 1] == t@[j],
        decreases t.len() - i,
    {
        if name[i + 1] != t[i] {
            assert(name@.drop_first()[i as int] == name@[i + 1]);
            assert(name@.drop_first()[i as int] != t@[i as int]);
            assert(name@.drop_first() != t@);
            return false;
        }
        i = i + 1;
    }
    assert(name@.drop_first() =~= t@);
    true
}

impl Entry {
    /// A copy of this entry.
    pub fn duplicate(&self) -> (r: Entry)
        ensures
            r@ == self@,
    {
        match self {
            Entry::Authority(v) => Entry::Authority(copy_bytes(v.as_slice())),
            Entry::Method(v) => Entry::Method(copy_bytes(v.as_slice())),
            Entry::Scheme(v) => Entry::Scheme(copy_bytes(v.as_slice())),
            Entry::Path(v) => Entry::Path(copy_bytes(v.as_slice())),
            Entry::Status(c) => Entry::Status(*c),
            Entry::Header { name, value } => Entry::Header {
                name: copy_bytes(name.as_slice()),
                value: copy_bytes(value.as_slice()),
            },
        }
    }

    /// The size of this entry in the dynamic table, or `None` where it does
    /// not fit in a `usize`.
    pub fn size(&self) -> (r: Option<usize>)
        ensures
            r is Some <==> entry_size(self@) <= usize::MAX,
            r is Some ==> r->Some_0 == entry_size(self@),
    {
        let (name_len, value_len): (usize, usize) = match self {
            Entry::Authority(v) => (10, v.len()),
            Entry::Method(v) => (7, v.len()),
            Entry::Scheme(v) => (7, v.len()),
            Entry::Path(v) => (5, v.len()),
            Entry::Status(_) => (7, 3),
            Entry::Header { name, value } => (name.len(), value.len()),
        };
        match name_len.checked_add(value_len) {
            Some(n) => n.checked_add(32),
            None => None,
        }
    }

    /// The entry that keeps this entry's name (and kind) and takes `value`.
    pub fn with_value(&self, value: Vec<u8>) -> (r: Result<Entry, DecoderError>)
        ensures
            result_view(r) == with_value(self@, value@),
    {
        match self {
            Entry::Authority(_) => if is_utf8(value.as_slice()) {
                Ok(Entry::Authority(value))
            } else {
                Err(DecoderError::InvalidUtf8)
            },
            Entry::Method(_) => if method_bytes_valid(value.as_slice()) {
                Ok(Entry::Method(value))
            } else {
                Err(DecoderError::InvalidUtf8)
            },
            Entry::Scheme(_) => if is_utf8(value.as_slice()) {
                Ok(Entry::Scheme(value))
            } else {
                Err(DecoderError::InvalidUtf8)
            },
            Entry::Path(_) => if is_utf8(value.as_slice()) {
                Ok(Entry::Path(value))
            } else {
                Err(DecoderError::InvalidUtf8)
            },
            Entry::Status(_) => match status_code(value.as_slice()) {
                Some(c) => Ok(Entry::Status(c)),
                None => Err(DecoderError::InvalidStatusCode),
            },
            Entry::Header { name, value: _ } => if header_value_valid(value.as_slice()) {
                Ok(Entry::Header { name: copy_bytes(name.as_slice()), value })
            } else {
                Err(DecoderError::InvalidUtf8)
            },
        }
    }

    /// The entry for a literal name and value.
    pub fn new(name: Vec<u8>, value: Vec<u8>) -> (r: Result<Entry, DecoderError>)
        ensures
            result_view(r) == entry_new(name@, value@),
    {
        if name.len() > 0 && name[0] == 58 {
            let n = name.as_slice();
            if tail_is(n, "authority") {
                Entry::Authority(Vec::new()).with_value(value)
            } else if tail_is(n, "method") {
                Entry::Method(Vec::new()).with_value(value)
            } else if tail_is(n, "scheme") {
                Entry::Scheme(Vec::new()).with_value(value)
            } else if tail_is(n, "path") {
                Entry::Path(Vec::new()).with_value(value)
            } else if tail_is(n, "status") {
                Entry::Status(200).with_value(value)
            } else {
                Err(DecoderError::InvalidPseudoheader)
            }
        } else {
            match header_name(name.as_slice()) {
                Some(n) => Entry::Header { name: n, value: Vec::new() }.with_value(value),
                None => Err(DecoderError::InvalidUtf8),
            }
        }
    }
}

} // verus!
