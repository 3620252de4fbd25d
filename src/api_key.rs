use base64::Engine as _;
use vstd::prelude::*;
use vstd::string::StringSliceAdditionalSpecFns;

use crate::error::ErrorKind;

verus! {

/// The padded URL-safe base64 text (RFC 4648, section 5) of `bytes`, as the
/// bytes of that ASCII text.
pub uninterp spec fn url_safe_encoding(bytes: Seq<u8>) -> Seq<u8>;

/// The bytes that the padded URL-safe base64 text `text` stands for, or
/// `None` where `text` is not such a text.
pub uninterp spec fn url_safe_decoding(text: Seq<u8>) -> Option<Seq<u8>>;

/// base64's decoding error, carried opaquely and mapped to `InvalidCredential`.
#[verifier::external_type_specification]
#[verifier::external_body]
pub struct ExDecodeError(base64::DecodeError);

/// Whether `b` is a symbol of padded URL-safe base64 text: a letter, a
/// digit, `-`, `_`, or the padding `=`.
pub open spec fn is_url_safe_symbol(b: u8) -> bool {
    (65 <= b <= 90) || (97 <= b <= 122) || (48 <= b <= 57) || b == 45 || b == 95 || b == 61
}

/// Relies on `Engine::encode` of base64's `general_purpose::URL_SAFE` engine:
/// it writes the canonical padded encoding (four symbols for each started
/// group of three bytes, `=` only in the last two places), which the same
/// engine decodes back to the input bytes.
#[verifier::external_body]
fn encode_url_safe(bytes: &[u8]) -> (r: Vec<u8>)
    ensures
        r@ == url_safe_encoding(bytes@),
        url_safe_decoding(r@) == Some(bytes@),
        r@.len() == 4 * ((bytes@.len() + 2) / 3),
        forall|i: int| 0 <= i < r@.len() ==> is_url_safe_symbol(#[trigger] r@[i]),
        forall|i: int| 0 <= i < r@.len() - 2 ==> #[trigger] r@[i] != 61u8,
{
    base64::engine::general_purpose::URL_SAFE.encode(bytes).into_bytes()
}

/// Relies on `Engine::decode` of base64's `general_purpose::URL_SAFE` engine:
/// it returns the decoded bytes, or an error on text that is not canonical
/// padded URL-safe base64 (the engine requires canonical padding and zero
/// trailing bits), so a text that decodes is the encoding of its bytes.
#[verifier::external_body]
fn decode_url_safe(text: &[u8]) -> (r: Result<Vec<u8>, base64::DecodeError>)
    ensures
        match r {
            Ok(v) => url_safe_decoding(text@) == Some(v@) && url_safe_encoding(v@) == text@,
            Err(_) => url_safe_decoding(text@) is None,
        },
{
    base64::engine::general_purpose::URL_SAFE.decode(text)
}

/// Copies a byte slice into a new vector.
pub(crate) fn copy_bytes(bytes: &[u8]) -> (r: Vec<u8>)
    ensures
        r@ == bytes@,
{
    let mut r: Vec<u8> = Vec::new();
    let mut i: usize = 0;
    while i < bytes.len()
        invariant
            i <= bytes@.len(),
            r@ == bytes@.subrange(0, i as int),
        decreases bytes@.len() - i,
    {
        r.push(bytes[i]);
        i = i + 1;
    }
    assert(r@ =~= bytes@);
    r
}

/// Whether two byte slices hold the same bytes.
pub fn bytes_equal(a: &[u8], b: &[u8]) -> (r: bool)
    ensures
        r == (a@ == b@),
{
    if a.len() != b.len() {
        return false;
    }
    let mut i: usize = 0;
    while i < a.len()
        invariant
            a@.len() == b@.len(),
            i <= a@.len(),
            forall|j: int| 0 <= j < i ==> a@[j] == b@[j],
        decreases a@.len() - i,
    {
        if a[i] != b[i] {
            return false;
        }
        i = i + 1;
    }
    assert(a@ =~= b@);
    true
}

/// A shared-secret key, as raw bytes.
#[derive(Clone, Debug, PartialEq, Eq, Hash)]
pub struct ApiKey(pub Vec<u8>);

impl View for ApiKey {
    type V = Seq<u8>;

    open spec fn view(&self) -> Seq<u8> {
        self.0@
    }
}

/// A key in its wire form: the bytes of its URL-safe base64 text, as carried
/// in the key header.
#[derive(Clone, Debug, PartialEq, Eq, Hash)]
pub struct ApiKeyBase64(pub Vec<u8>);

impl View for ApiKeyBase64 {
    type V = Seq<u8>;

    open spec fn view(&self) -> Seq<u8> {
        self.0@
    }
}

/// Whether `b` may stand in a header value that reads as text: visible ASCII
/// or a horizontal tab.
pub open spec fn is_visible_ascii(b: u8) -> bool {
    (32 <= b && b < 127) || b == 9
}

/// The key that a key header with value `value` presents: the header must
/// read as text, and that text must be padded URL-safe base64.
pub open spec fn presented_key(value: Seq<u8>) -> Option<Seq<u8>> {
    if forall|i: int| 0 <= i < value.len() ==> is_visible_ascii(#[trigger] value[i]) {
        url_safe_decoding(value)
    } else {
        None
    }
}

impl ApiKeyBase64 {
    /// The wire form carried by a key header whose value is `value`; fails
    /// where the value holds a byte that is not visible ASCII or a tab.
    pub fn from_header_value(value: &[u8]) -> (r: Result<ApiKeyBase64, ErrorKind>)
        ensures
            (forall|i: int| 0 <= i < value@.len() ==> is_visible_ascii(#[trigger] value@[i]))
                ==> r is Ok && r->Ok_0@ == value@,
            !(forall|i: int| 0 <= i < value@.len() ==> is_visible_ascii(#[trigger] value@[i]))
                ==> r == Err::<ApiKeyBase64, ErrorKind>(ErrorKind::InvalidCredential),
    {
        let mut i: usize = 0;
        while i < value.len()
            invariant
                i <= value@.len(),
                forall|j: int| 0 <= j < i ==> is_visible_ascii(#[trigger] value@[j]),
            decreases value@.len() - i,
        {
            let b = value[i];
            if !((32 <= b && b < 127) || b == 9) {
                return Err(ErrorKind::InvalidCredential);
            }
            i = i + 1;
        }
        Ok(ApiKeyBase64(copy_bytes(value)))
    }
}

impl ApiKey {
    /// The key held by the key environment variable, given its value as read
    /// (`None` where it is unset).
    pub fn from_env(value: Option<&str>) -> (r: Result<ApiKey, ErrorKind>)
        ensures
            match value {
                None => r == Err::<ApiKey, ErrorKind>(ErrorKind::MissingCredentialConfig),
                Some(s) => r is Ok && r->Ok_0@ == s.spec_bytes(),
            },
    {
        match value {
            None => Err(ErrorKind::MissingCredentialConfig),
            Some(s) => Ok(ApiKey(copy_bytes(s.as_bytes()))),
        }
    }

    /// The wire form of this key: four URL-safe symbols for each started
    /// group of three bytes, a valid header value that presents this key.
    pub fn to_base64(&self) -> (r: ApiKeyBase64)
        ensures
            r@ == url_safe_encoding(self@),
            url_safe_decoding(r@) == Some(self@),
            r@.len() == 4 * ((self@.len() + 2) / 3),
            forall|i: int| 0 <= i < r@.len() ==> is_url_safe_symbol(#[trigger] r@[i]),
            forall|i: int| 0 <= i < r@.len() ==> is_visible_ascii(#[trigger] r@[i]),
            presented_key(r@) == Some(self@),
    {
        let r = ApiKeyBase64(encode_url_safe(self.0.as_slice()));
        assert(forall|i: int| 0 <= i < r@.len() ==> is_visible_ascii(#[trigger] r@[i])) by {
            assert(forall|i: int| 0 <= i < r@.len() ==> is_url_safe_symbol(#[trigger] r@[i]));
        }
        r
    }

    /// The key whose wire form is `encoded`; fails where `encoded` is not
    /// canonical padded URL-safe base64, so each key has one accepted form.
    pub fn try_from_base64(encoded: &ApiKeyBase64) -> (r: Result<ApiKey, ErrorKind>)
        ensures
            match url_safe_decoding(encoded@) {
                Some(bytes) => r is Ok && r->Ok_0@ == bytes && url_safe_encoding(bytes) == encoded@,
                None => r == Err::<ApiKey, ErrorKind>(ErrorKind::InvalidCredential),
            },
    {
        match decode_url_safe(encoded.0.as_slice()) {
            Ok(bytes) => Ok(ApiKey(bytes)),
            Err(_) => Err(ErrorKind::InvalidCredential),
        }
    }
}

} // verus!
