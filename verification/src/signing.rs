//! Signed exchange requests: form encoding of request parameters, the
//! HMAC-SHA256 query signature (hex encoded), and the RSA PKCS#1 v1.5
//! signature over a SHA-256 digest (base64 encoded).
use vstd::prelude::*;
use vstd::utf8::encode_utf8;
use hmac::Mac;
use sha2::Digest;
use rsa::pkcs8::DecodePrivateKey;
use base64::Engine;
use crate::text::{join_seq, string_views};

verus! {

/// Bytes that form encoding writes as they are.
pub open spec fn form_unchanged(b: u8) -> bool {
    b == 42 || b == 45 || b == 46 || (48 <= b <= 57) || (65 <= b <= 90) || b == 95 || (97 <= b <= 122)
}

/// Upper-case hexadecimal digit of `v` (`0 <= v < 16`).
pub open spec fn upper_hex_digit(v: int) -> char {
    if v < 10 { (48 + v) as char } else { (55 + v) as char }
}

/// Lower-case hexadecimal digit of `v` (`0 <= v < 16`).
pub open spec fn lower_hex_digit(v: int) -> char {
    if v < 10 { (48 + v) as char } else { (87 + v) as char }
}

/// Form encoding of one byte: unchanged bytes as themselves, a space as `+`,
/// every other byte as `%` and two upper-case hex digits.
pub open spec fn form_byte(b: u8) -> Seq<char> {
    if form_unchanged(b) {
        seq![b as char]
    } else if b == 32 {
        seq!['+']
    } else {
        seq!['%', upper_hex_digit(b as int / 16), upper_hex_digit(b as int % 16)]
    }
}

/// Form encoding (`application/x-www-form-urlencoded`) of a byte string.
pub open spec fn form_bytes(bs: Seq<u8>) -> Seq<char>
    decreases bs.len(),
{
    if bs.len() == 0 {
        Seq::empty()
    } else {
        form_bytes(bs.drop_last()) + form_byte(bs.last())
    }
}

/// The views of name-value pairs.
pub open spec fn pair_views(pairs: Seq<(String, String)>) -> Seq<(Seq<char>, Seq<char>)> {
    pairs.map_values(|p: (String, String)| (p.0@, p.1@))
}

/// One encoded pair: the name and the value, each as UTF-8 form encoded,
/// joined by `=`.
pub open spec fn form_pair(p: (Seq<char>, Seq<char>)) -> Seq<char> {
    form_bytes(encode_utf8(p.0)) + seq!['='] + form_bytes(encode_utf8(p.1))
}

/// The form-encoded query of the pairs, in order, separated by `&`.
pub open spec fn form_query(pairs: Seq<(Seq<char>, Seq<char>)>) -> Seq<char> {
    join_seq(pairs.map_values(|p: (Seq<char>, Seq<char>)| form_pair(p)), seq!['&'])
}

/// Lower-case hex encoding, two digits per byte.
pub open spec fn hex_lower(bs: Seq<u8>) -> Seq<char>
    decreases bs.len(),
{
    if bs.len() == 0 {
        Seq::empty()
    } else {
        hex_lower(bs.drop_last()) + seq![lower_hex_digit(bs.last() as int / 16), lower_hex_digit(bs.last() as int % 16)]
    }
}

/// Whether `c` is one of the digits that `hex_lower` writes.
pub open spec fn is_lower_hex(c: char) -> bool {
    ('0' <= c <= '9') || ('a' <= c <= 'f')
}

proof fn lemma_hex_lower_shape(bs: Seq<u8>)
    ensures
        hex_lower(bs).len() == 2 * bs.len(),
        forall|i: int| 0 <= i < hex_lower(bs).len() ==> is_lower_hex(#[trigger] hex_lower(bs)[i]),
    decreases bs.len(),
{
    if bs.len() > 0 {
        lemma_hex_lower_shape(bs.drop_last());
        let hi = bs.last() as int / 16;
        let lo = bs.last() as int % 16;
        assert(is_lower_hex(lower_hex_digit(hi)) && is_lower_hex(lower_hex_digit(lo)));
        let prev = hex_lower(bs.drop_last());
        assert forall|i: int| 0 <= i < hex_lower(bs).len() implies is_lower_hex(#[trigger] hex_lower(bs)[i]) by {
            if i < prev.len() {
                assert(hex_lower(bs)[i] == prev[i]);
            }
        }
    }
}

/// The standard base64 alphabet.
pub open spec fn base64_digit(v: int) -> char {
    if v < 26 {
        (65 + v) as char
    } else if v < 52 {
        (71 + v) as char
    } else if v < 62 {
        (v - 4) as char
    } else if v == 62 {
        '+'
    } else {
        '/'
    }
}

/// Standard base64 with `=` padding: each group of three bytes becomes four
/// digits; a final group of one or two bytes is padded.
pub open spec fn base64_standard(bs: Seq<u8>) -> Seq<char>
    decreases bs.len(),
{
    if bs.len() == 0 {
        Seq::empty()
    } else if bs.len() == 1 {
        seq![base64_digit(bs[0] as int / 4), base64_digit((bs[0] as int % 4) * 16), '=', '=']
    } else if bs.len() == 2 {
        seq![
            base64_digit(bs[0] as int / 4),
            base64_digit((bs[0] as int % 4) * 16 + bs[1] as int / 16),
            base64_digit((bs[1] as int % 16) * 4),
            '=',
        ]
    } else {
        seq![
            base64_digit(bs[0] as int / 4),
            base64_digit((bs[0] as int % 4) * 16 + bs[1] as int / 16),
            base64_digit((bs[1] as int % 16) * 4 + bs[2] as int / 64),
            base64_digit(bs[2] as int % 64),
        ] + base64_standard(bs.subrange(3, bs.len() as int))
    }
}

/// The HMAC-SHA256 tag of `message` under `key`.
pub uninterp spec fn hmac_sha256(key: Seq<u8>, message: Seq<u8>) -> Seq<u8>;

/// The SHA-256 digest of `data`.
pub uninterp spec fn sha256(data: Seq<u8>) -> Seq<u8>;

/// The RSASSA-PKCS1-v1_5 signature, with the SHA-256 digest prefix, of a
/// digest under the PKCS#8 PEM private key `pem`; `None` when the key does
/// not parse or the digest cannot be signed with it.
pub uninterp spec fn pkcs1v15_sha256_signature(pem: Seq<char>, digest: Seq<u8>) -> Option<Seq<u8>>;

/// `url::form_urlencoded::Serializer` over the pairs, as `Url::parse_with_params`
/// writes a query: each pair as its UTF-8 bytes form encoded (`*-._`,
/// digits and ASCII letters unchanged, space as `+`, other bytes as `%XX` in
/// upper case), name and value joined by `=`, pairs joined by `&`.
#[verifier::external_body]
pub(crate) fn form_urlencode(pairs: &Vec<(String, String)>) -> (query: String)
    ensures
        query@ == form_query(pair_views(pairs@)),
{
    url::form_urlencoded::Serializer::new(String::new()).extend_pairs(pairs.iter()).finish()
}

/// `Hmac::<Sha256>::new_from_slice(key)`, `update(message)`, `finalize()`:
/// the tag, which has the 32 bytes of SHA-256's output. Keys of any length
/// are accepted by this constructor (longer ones are hashed first).
#[verifier::external_body]
fn hmac_sha256_tag(key: &[u8], message: &[u8]) -> (tag: Vec<u8>)
    ensures
        tag@ == hmac_sha256(key@, message@),
        tag@.len() == 32,
{
    let mut mac = hmac::Hmac::<sha2::Sha256>::new_from_slice(key).unwrap();
    mac.update(message);
    mac.finalize().into_bytes().to_vec()
}

/// `sha2::Sha256::digest`: the 32-byte digest of `data`.
#[verifier::external_body]
fn sha256_digest(data: &[u8]) -> (digest: Vec<u8>)
    ensures
        digest@ == sha256(data@),
        digest@.len() == 32,
{
    sha2::Sha256::digest(data).to_vec()
}

/// `hex::encode`: two lower-case hex digits per byte.
#[verifier::external_body]
fn hex_encode(data: &[u8]) -> (text: String)
    ensures
        text@ == hex_lower(data@),
{
    hex::encode(data)
}

/// `base64::engine::general_purpose::STANDARD.encode`: standard alphabet with
/// padding. The crate panics only when the encoded length overflows `usize`,
/// which no input of at most `isize::MAX` bytes does.
#[verifier::external_body]
fn base64_encode(data: &[u8]) -> (text: String)
    requires
        data@.len() <= isize::MAX,
    ensures
        text@ == base64_standard(data@),
{
    base64::engine::general_purpose::STANDARD.encode(data)
}

/// `RsaPrivateKey::from_pkcs8_pem(pem)` and then `sign` with
/// `Pkcs1v15Sign::new::<Sha256>()` over `digest`. Signing without a random
/// source, as `sign` does, is deterministic, so the result depends only on the
/// key text and the digest. Like every allocation, the returned vector holds
/// at most `isize::MAX` bytes.
#[verifier::external_body]
fn rsa_sign_digest(pem: &str, digest: &[u8]) -> (signature: Option<Vec<u8>>)
    ensures
        match signature {
            Some(s) => pkcs1v15_sha256_signature(pem@, digest@) == Some(s@) && s@.len() <= isize::MAX,
            None => pkcs1v15_sha256_signature(pem@, digest@) is None,
        },
{
    match rsa::RsaPrivateKey::from_pkcs8_pem(pem) {
        Ok(key) => key.sign(rsa::Pkcs1v15Sign::new::<rsa::sha2::Sha256>(), digest).ok(),
        Err(_) => None,
    }
}

/// The query of a signed request: the form-encoded parameters followed by
/// the `signature` pair, whose value is the hex HMAC-SHA256 tag of that query
/// under `secret`.
pub open spec fn spec_signed_query(secret: Seq<char>, pairs: Seq<(Seq<char>, Seq<char>)>) -> Seq<char> {
    let query = form_query(pairs);
    let tag = hex_lower(hmac_sha256(encode_utf8(secret), encode_utf8(query)));
    if query.len() == 0 {
        "signature="@ + tag
    } else {
        query + "&signature="@ + tag
    }
}

/// Builds the query of a signed request from its parameters.
pub fn signed_query(secret: &str, params: &Vec<(String, String)>) -> (query: String)
    ensures
        query@ == spec_signed_query(secret@, pair_views(params@)),
        query@.len() >= 64,
        forall|i: int| query@.len() - 64 <= i < query@.len() ==> is_lower_hex(#[trigger] query@[i]),
        query@.subrange(0, query@.len() - 64) == (if form_query(pair_views(params@)).len() == 0 {
            "signature="@
        } else {
            form_query(pair_views(params@)) + "&signature="@
        }),
{
    let mut query = form_urlencode(params);
    let tag = hmac_sha256_tag(secret.as_bytes(), query.as_str().as_bytes());
    let text = hex_encode(tag.as_slice());
    proof {
        lemma_hex_lower_shape(tag@);
        reveal_strlit("signature=");
        reveal_strlit("&signature=");
    }
    if query.unicode_len() == 0 {
        let mut q = String::new();
        q.append("signature=");
        q.append(text.as_str());
        assert(q@ =~= spec_signed_query(secret@, pair_views(params@)));
        assert(q@.subrange(0, q@.len() - 64) =~= "signature="@);
        assert forall|i: int| q@.len() - 64 <= i < q@.len() implies is_lower_hex(#[trigger] q@[i]) by {
            assert(q@[i] == text@[i - (q@.len() - 64)]);
        }
        q
    } else {
        let ghost before = query@;
        query.append("&signature=");
        query.append(text.as_str());
        assert(query@ =~= spec_signed_query(secret@, pair_views(params@)));
        assert(query@.subrange(0, query@.len() - 64) =~= before + "&signature="@);
        assert forall|i: int| query@.len() - 64 <= i < query@.len() implies is_lower_hex(#[trigger] query@[i]) by {
            assert(query@[i] == text@[i - (query@.len() - 64)]);
        }
        query
    }
}

/// The payload that an order request signs: `name=value` for each pair, as
/// written (not encoded), joined by `&`.
pub open spec fn spec_raw_payload(pairs: Seq<(Seq<char>, Seq<char>)>) -> Seq<char> {
    join_seq(pairs.map_values(|p: (Seq<char>, Seq<char>)| p.0 + seq!['='] + p.1), seq!['&'])
}

/// Writes the pairs as `name=value` joined by `&`.
pub fn raw_payload(params: &Vec<(String, String)>) -> (payload: String)
    ensures
        payload@ == spec_raw_payload(pair_views(params@)),
{
    let ghost pieces = pair_views(params@).map_values(|p: (Seq<char>, Seq<char>)| p.0 + seq!['='] + p.1);
    let mut payload = String::new();
    let mut i: usize = 0;
    proof {
        reveal_strlit("=");
        reveal_strlit("&");
        assert("="@ =~= seq!['=']);
        assert("&"@ =~= seq!['&']);
    }
    while i < params.len()
        invariant
            i <= params.len(),
            pieces == pair_views(params@).map_values(|p: (Seq<char>, Seq<char>)| p.0 + seq!['='] + p.1),
            payload@ == join_seq(pieces.take(i as int), seq!['&']),
            "="@ == seq!['='],
            "&"@ == seq!['&'],
        decreases params.len() - i,
    {
        if i > 0 {
            payload.append("&");
        }
        payload.append(params[i].0.as_str());
        payload.append("=");
        payload.append(params[i].1.as_str());
        assert(pieces.take(i + 1).drop_last() =~= pieces.take(i as int));
        assert(pieces[i as int] =~= params@[i as int].0@ + seq!['='] + params@[i as int].1@);
        assert(payload@ =~= join_seq(pieces.take(i + 1), seq!['&']));
        i = i + 1;
    }
    assert(pieces.take(params.len() as int) =~= pieces);
    payload
}

/// The base64 RSA signature of an order payload: PKCS#1 v1.5 over the
/// SHA-256 digest of the payload's UTF-8 bytes, with the key `pem`; `None`
/// when the key cannot sign.
pub open spec fn spec_payload_signature(pem: Seq<char>, payload: Seq<char>) -> Option<Seq<char>> {
    match pkcs1v15_sha256_signature(pem, sha256(encode_utf8(payload))) {
        Some(sig) => Some(base64_standard(sig)),
        None => None,
    }
}

/// Signs an order payload with an RSA key and encodes the signature in base64.
pub fn payload_signature(pem: &str, payload: &str) -> (signature: Option<String>)
    ensures
        match signature {
            Some(s) => spec_payload_signature(pem@, payload@) == Some(s@),
            None => spec_payload_signature(pem@, payload@) is None,
        },
{
    let digest = sha256_digest(payload.as_bytes());
    match rsa_sign_digest(pem, digest.as_slice()) {
        Some(sig) => Some(base64_encode(sig.as_slice())),
        None => None,
    }
}

/// A name-value pair of owned strings.
pub fn text_pair(name: &str, value: &str) -> (p: (String, String))
    ensures
        p.0@ == name@,
        p.1@ == value@,
{
    (name.to_owned(), value.to_owned())
}

/// A copy of name-value pairs.
pub fn copy_pairs(params: &Vec<(String, String)>) -> (out: Vec<(String, String)>)
    ensures
        pair_views(out@) == pair_views(params@),
{
    let mut out: Vec<(String, String)> = Vec::new();
    let mut i: usize = 0;
    while i < params.len()
        invariant
            i <= params.len(),
            out@.len() == i,
            pair_views(out@) == pair_views(params@).take(i as int),
        decreases params.len() - i,
    {
        let p = text_pair(params[i].0.as_str(), params[i].1.as_str());
        assert(p.0@ == params@[i as int].0@ && p.1@ == params@[i as int].1@);
        let ghost before = out@;
        out.push(p);
        assert(out@ == before.push(p));
        assert(pair_views(out@)[i as int] == pair_views(params@)[i as int]);
        assert(pair_views(out@) =~= pair_views(params@).take(i + 1));
        i = i + 1;
    }
    assert(pair_views(params@).take(params.len() as int) =~= pair_views(params@));
    out
}

/// Characters that form encoding leaves as they are: ASCII letters and
/// digits, `*`, `-`, `.` and `_`.
pub open spec fn form_plain(s: Seq<char>) -> bool {
    forall|i: int| 0 <= i < s.len() ==> {
        let c = #[trigger] s[i];
        c == '*' || c == '-' || c == '.' || c == '_' || ('0' <= c <= '9') || ('A' <= c <= 'Z') || ('a' <= c <= 'z')
    }
}

proof fn lemma_form_bytes_plain(bs: Seq<u8>)
    requires
        forall|i: int| 0 <= i < bs.len() ==> form_unchanged(#[trigger] bs[i]),
    ensures
        form_bytes(bs) == bs.map_values(|b: u8| b as char),
    decreases bs.len(),
{
    if bs.len() > 0 {
        let prev = bs.drop_last();
        assert forall|i: int| 0 <= i < prev.len() implies form_unchanged(#[trigger] prev[i]) by {
            assert(prev[i] == bs[i]);
        }
        lemma_form_bytes_plain(prev);
        assert(form_unchanged(bs[bs.len() - 1]));
        assert(bs.map_values(|b: u8| b as char) =~= prev.map_values(|b: u8| b as char).push(bs.last() as char));
    }
}

proof fn lemma_form_plain_text(s: Seq<char>)
    requires
        form_plain(s),
    ensures
        form_bytes(encode_utf8(s)) == s,
{
    assert(vstd::utf8::is_ascii_chars(s)) by {
        assert forall|i: int| 0 <= i < s.len() implies '\0' <= #[trigger] s[i] <= '\u{7f}' by {
            let c = s[i];
            assert(c == '*' || c == '-' || c == '.' || c == '_' || ('0' <= c <= '9') || ('A' <= c <= 'Z') || ('a' <= c <= 'z'));
        }
    }
    vstd::utf8::is_ascii_chars_encode_utf8(s);
    let bs = encode_utf8(s);
    assert forall|i: int| 0 <= i < bs.len() implies form_unchanged(#[trigger] bs[i]) by {
        let c = s[i];
        assert(c == '*' || c == '-' || c == '.' || c == '_' || ('0' <= c <= '9') || ('A' <= c <= 'Z') || ('a' <= c <= 'z'));
        assert(bs[i] == c as u8);
    }
    lemma_form_bytes_plain(bs);
    let chars = bs.map_values(|b: u8| b as char);
    assert(chars =~= s) by {
        assert forall|i: int| 0 <= i < s.len() implies #[trigger] chars[i] == s[i] by {
            let c = s[i];
            assert(c == '*' || c == '-' || c == '.' || c == '_' || ('0' <= c <= '9') || ('A' <= c <= 'Z') || ('a' <= c <= 'z'));
            assert(bs[i] == c as u8);
        }
    }
}

/// For parameters written only with characters that form encoding leaves
/// as they are, the payload that an order signs is exactly the form-encoded
/// query that is sent.
pub proof fn law_plain_payload_is_form_query(pairs: Seq<(Seq<char>, Seq<char>)>)
    requires
        forall|i: int| 0 <= i < pairs.len() ==> form_plain((#[trigger] pairs[i]).0) && form_plain(pairs[i].1),
    ensures
        spec_raw_payload(pairs) == form_query(pairs),
{
    let raw = pairs.map_values(|p: (Seq<char>, Seq<char>)| p.0 + seq!['='] + p.1);
    let encoded = pairs.map_values(|p: (Seq<char>, Seq<char>)| form_pair(p));
    assert forall|i: int| 0 <= i < pairs.len() implies #[trigger] raw[i] == encoded[i] by {
        lemma_form_plain_text(pairs[i].0);
        lemma_form_plain_text(pairs[i].1);
    }
    assert(raw =~= encoded);
}

} // verus!
