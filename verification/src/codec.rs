//! Base64 and UTF-8 conversions, and the site's base64 manga keys.
//!
//! The site writes a manga key `m:{id}` in its URLs as the standard base64
//! of the key with the `=` padding stripped.
use vstd::prelude::*;
use vstd::utf8::*;
use base64::Engine;
use crate::error::SourceError;
use crate::text::{before_char, before_char_str, lemma_first_char_at, trim_end_char, trim_end_char_str};

verus! {

broadcast use {vstd::utf8::group_utf8_lib, vstd::string::group_string_axioms};

// ---------------------------------------------------------------------------
// Trusted items: the base64 crate and std's UTF-8 decoding
// ---------------------------------------------------------------------------

/// What `base64::engine::general_purpose::STANDARD.encode` returns for `bytes`.
pub uninterp spec fn standard_encode(bytes: Seq<u8>) -> Seq<char>;

/// What `base64::engine::general_purpose::STANDARD.decode` returns for `text`
/// (`None` for any decode error).
pub uninterp spec fn standard_decode(text: Seq<u8>) -> Option<Seq<u8>>;

/// What `base64::engine::general_purpose::URL_SAFE_NO_PAD.decode` returns for
/// `text` (`None` for any decode error).
pub uninterp spec fn url_safe_no_pad_decode(text: Seq<u8>) -> Option<Seq<u8>>;

/// A symbol of the standard base64 alphabet (`A-Z`, `a-z`, `0-9`, `+`, `/`).
pub open spec fn is_standard_symbol(c: char) -> bool {
    ('A' <= c <= 'Z') || ('a' <= c <= 'z') || ('0' <= c <= '9') || c == '+' || c == '/'
}

/// The shape of padded base64 text: a multiple of four characters, alphabet
/// symbols followed by at most two `=`.
pub open spec fn standard_shape(s: Seq<char>) -> bool {
    let u = trim_end_char(s, '=');
    &&& s.len() % 4 == 0
    &&& s.len() - u.len() <= 2
    &&& forall|i: int| 0 <= i < u.len() ==> is_standard_symbol(#[trigger] s[i])
}

/// Calls `STANDARD.encode` of the base64 crate (alphabet `A-Z a-z 0-9 + /`,
/// padding on). Claimed of the result, as the crate's source and documentation
/// show: it is the encoding named by `standard_encode`; it consists of alphabet
/// symbols followed by the one or two `=` needed to reach a multiple of four
/// characters; it has `4 * ceil(n / 3)` characters for `n` bytes, of which
/// `ceil(4 * n / 3)` are symbols (`encoded_len` with and without padding);
/// and `STANDARD.decode` of its bytes gives `bytes` back.
#[verifier::external_body]
fn encode_standard(bytes: &[u8]) -> (text: String)
    ensures
        text@ == standard_encode(bytes@),
        standard_shape(text@),
        text@.len() == 4 * ((bytes@.len() + 2) / 3),
        trim_end_char(text@, '=').len() == (4 * bytes@.len() + 2) / 3,
        standard_decode(encode_utf8(text@)) == Some(bytes@),
{
    base64::engine::general_purpose::STANDARD.encode(bytes)
}

/// Calls `STANDARD.decode` of the base64 crate; claims only that the result
/// (with any error as `None`) is the one named by `standard_decode`.
#[verifier::external_body]
fn decode_standard(text: &[u8]) -> (bytes: Option<Vec<u8>>)
    ensures
        match bytes {
            Some(b) => standard_decode(text@) == Some(b@),
            None => standard_decode(text@) is None,
        },
{
    base64::engine::general_purpose::STANDARD.decode(text).ok()
}

/// Calls `URL_SAFE_NO_PAD.decode` of the base64 crate; claims only that the
/// result (with any error as `None`) is the one named by `url_safe_no_pad_decode`.
#[verifier::external_body]
pub(crate) fn decode_url_safe_no_pad(text: &[u8]) -> (bytes: Option<Vec<u8>>)
    ensures
        match bytes {
            Some(b) => url_safe_no_pad_decode(text@) == Some(b@),
            None => url_safe_no_pad_decode(text@) is None,
        },
{
    base64::engine::general_purpose::URL_SAFE_NO_PAD.decode(text).ok()
}

/// Calls std's `String::from_utf8`: it succeeds exactly on valid UTF-8, and
/// the string then holds the characters that the bytes encode.
#[verifier::external_body]
pub(crate) fn utf8_to_string(bytes: Vec<u8>) -> (s: Option<String>)
    ensures
        s is Some <==> valid_utf8(bytes@),
        s matches Some(t) ==> t@ == decode_utf8(bytes@),
{
    String::from_utf8(bytes).ok()
}

// ---------------------------------------------------------------------------
// Models
// ---------------------------------------------------------------------------

/// The byte of `=`.
pub open spec fn pad_byte() -> u8 {
    61
}

/// `b` followed by the `=` bytes that bring its length to a multiple of four.
pub open spec fn pad_b64(b: Seq<u8>) -> Seq<u8> {
    b + Seq::new(((4 - b.len() % 4) % 4) as nat, |i: int| pad_byte())
}

/// The bytes that possibly unpadded standard base64 `s` stands for.
pub open spec fn unpadded_decode(s: Seq<char>) -> Option<Seq<u8>> {
    standard_decode(pad_b64(encode_utf8(s)))
}

/// The manga key that the work id `code` stands for: the UTF-8 text that its
/// base64 decodes to, or `code` itself when it is not such base64.
pub open spec fn work_id_key(code: Seq<char>) -> Seq<char> {
    match unpadded_decode(code) {
        Some(b) => if valid_utf8(b) {
            decode_utf8(b)
        } else {
            code
        },
        None => code,
    }
}

/// The manga key of a `/works/` slug: the key of the slug's part before the first `-`.
pub open spec fn slug_key(slug: Seq<char>) -> Seq<char> {
    work_id_key(before_char(slug, '-'))
}

/// The standard base64 of `b`, without its `=` padding.
pub open spec fn unpadded_encode_bytes(b: Seq<u8>) -> Seq<char> {
    trim_end_char(standard_encode(b), '=')
}

/// The standard base64 of the UTF-8 bytes of `s`, without its `=` padding.
pub open spec fn unpadded_encode(s: Seq<char>) -> Seq<char> {
    unpadded_encode_bytes(encode_utf8(s))
}

/// The `=` characters that bring a text of `n` characters to a multiple of four.
pub open spec fn pad_chars(n: nat) -> Seq<char> {
    Seq::new(((4 - n % 4) % 4) as nat, |i: int| '=')
}

// ---------------------------------------------------------------------------
// Lemmas
// ---------------------------------------------------------------------------

/// Trimming `c` from the end of `s` keeps a prefix of `s`, and all that was cut is `c`.
pub proof fn lemma_trim_end_char(s: Seq<char>, c: char)
    ensures
        trim_end_char(s, c).len() <= s.len(),
        trim_end_char(s, c) == s.take(trim_end_char(s, c).len() as int),
        forall|i: int| trim_end_char(s, c).len() <= i < s.len() ==> s[i] == c,
        trim_end_char(s, c).len() > 0 ==> s[trim_end_char(s, c).len() - 1] != c,
    decreases s.len(),
{
    if s.len() > 0 && s.last() == c {
        lemma_trim_end_char(s.drop_last(), c);
        let t = trim_end_char(s.drop_last(), c);
        assert(s.drop_last().take(t.len() as int) =~= s.take(t.len() as int));
        assert forall|i: int| t.len() <= i < s.len() implies s[i] == c by {
            if i < s.len() - 1 {
                assert(s[i] == s.drop_last()[i]);
            }
        }
    } else {
        assert(s.take(s.len() as int) =~= s);
    }
}

/// Padded base64 is its unpadded part followed by the padding that the unpadded part needs.
pub proof fn lemma_pad_chars(enc: Seq<char>)
    requires
        standard_shape(enc),
    ensures
        trim_end_char(enc, '=') + pad_chars(trim_end_char(enc, '=').len()) == enc,
{
    let id = trim_end_char(enc, '=');
    lemma_trim_end_char(enc, '=');
    let k = enc.len() - id.len();
    assert((4 - id.len() % 4) % 4 == k);
    assert forall|i: int| 0 <= i < enc.len() implies (id + pad_chars(id.len()))[i] == enc[i] by {
        if i < id.len() {
            assert(id[i] == enc[i]);
        }
    }
    assert(id + pad_chars(id.len()) =~= enc);
}

/// Restoring the padding of unpadded standard base64 gives back the padded text.
pub proof fn lemma_pad_restores(enc: Seq<char>)
    requires
        standard_shape(enc),
    ensures
        pad_b64(encode_utf8(trim_end_char(enc, '='))) == encode_utf8(enc),
        is_ascii_chars(enc),
        forall|i: int|
            0 <= i < trim_end_char(enc, '=').len() ==> is_standard_symbol(
                #[trigger] trim_end_char(enc, '=')[i],
            ),
{
    let id = trim_end_char(enc, '=');
    lemma_trim_end_char(enc, '=');
    assert forall|i: int| 0 <= i < enc.len() implies '\0' <= #[trigger] enc[i] <= '\u{7f}' by {
        if i < id.len() {
            assert(is_standard_symbol(enc[i]));
        }
    }
    assert(is_ascii_chars(id));
    is_ascii_chars_encode_utf8(enc);
    is_ascii_chars_encode_utf8(id);
    let k = enc.len() - id.len();
    assert((4 - id.len() % 4) % 4 == k);
    let lhs = pad_b64(encode_utf8(id));
    let rhs = encode_utf8(enc);
    assert forall|i: int| 0 <= i < rhs.len() implies lhs[i] == rhs[i] by {
        if i < id.len() {
            assert(id[i] == enc[i]);
        } else {
            assert(enc[i] == '=');
        }
    }
    assert(lhs =~= rhs);
}

// ---------------------------------------------------------------------------
// Executable functions
// ---------------------------------------------------------------------------

/// Decodes base64 that may have its padding stripped (the site strips `=`).
pub fn decode_b64(input: &str) -> (r: Result<Vec<u8>, SourceError>)
    ensures
        match r {
            Ok(b) => unpadded_decode(input@) == Some(b@),
            Err(e) => unpadded_decode(input@) is None && e == SourceError::InvalidBase64,
        },
{
    let bytes = input.as_bytes();
    let mut padded: Vec<u8> = Vec::new();
    let mut i: usize = 0;
    while i < bytes.len()
        invariant
            i <= bytes.len(),
            padded@ == bytes@.take(i as int),
        decreases bytes.len() - i,
    {
        padded.push(bytes[i]);
        assert(bytes@.take(i + 1) =~= bytes@.take(i as int).push(bytes@[i as int]));
        i = i + 1;
    }
    assert(bytes@.take(bytes.len() as int) =~= bytes@);
    let rem = padded.len() % 4;
    let count: usize = if rem != 0 {
        4 - rem
    } else {
        0
    };
    let mut j: usize = 0;
    while j < count
        invariant
            j <= count,
            count == (4 - bytes@.len() % 4) % 4,
            padded@ == bytes@ + Seq::new(j as nat, |i: int| pad_byte()),
        decreases count - j,
    {
        padded.push(61u8);
        assert(bytes@ + Seq::new((j + 1) as nat, |i: int| pad_byte()) =~= (bytes@ + Seq::new(
            j as nat,
            |i: int| pad_byte(),
        )).push(61u8));
        j = j + 1;
    }
    match decode_standard(padded.as_slice()) {
        Some(b) => Ok(b),
        None => Err(SourceError::InvalidBase64),
    }
}

/// Decodes the site's base64 work id (e.g. `bToxNTAzMQ` gives `m:15031`); the
/// base64 decodes to `m:{numeric_id}`. Text that is not such base64 is kept as it is.
pub fn decode_work_id(encoded: &str) -> (key: String)
    ensures
        key@ == work_id_key(encoded@),
{
    match decode_b64(encoded) {
        Ok(bytes) => match utf8_to_string(bytes) {
            Some(s) => s,
            None => String::from_str(encoded),
        },
        Err(_) => String::from_str(encoded),
    }
}

/// The manga key of a `/works/` slug (e.g. `bToyMzQ3NQ-yi-ren-zhi-xia-tencent-531490-17793`
/// gives `m:23475`): the leading id segment, base64-decoded; the raw segment when
/// decoding fails.
pub fn works_slug_to_key(slug: &str) -> (key: String)
    ensures
        key@ == slug_key(slug@),
{
    let encoded = before_char_str(slug, '-');
    decode_work_id(encoded.as_str())
}

/// The standard base64 of `bytes`, with the `=` padding stripped. The result
/// has `ceil(4 * n / 3)` symbols for `n` bytes, putting the padding back gives
/// the padded encoding, and `decode_b64` recovers `bytes` from either form.
pub fn encode_unpadded(bytes: &[u8]) -> (id: String)
    ensures
        id@ == unpadded_encode_bytes(bytes@),
        id@.len() == (4 * bytes@.len() + 2) / 3,
        id@ + pad_chars(id@.len()) == standard_encode(bytes@),
        forall|i: int| 0 <= i < id@.len() ==> is_standard_symbol(#[trigger] id@[i]),
        unpadded_decode(id@) == Some(bytes@),
        unpadded_decode(standard_encode(bytes@)) == Some(bytes@),
{
    let enc = encode_standard(bytes);
    let id = trim_end_char_str(enc.as_str(), '=');
    proof {
        lemma_pad_restores(enc@);
        lemma_pad_chars(enc@);
        let full = encode_utf8(enc@);
        is_ascii_chars_encode_utf8(enc@);
        assert(full.len() % 4 == 0);
        assert(pad_b64(full) =~= full);
    }
    id
}

/// The leading `/works/` id segment for a manga key (e.g. `m:23475` gives
/// `bToyMzQ3NQ`): its standard base64 with the `=` padding stripped, the site's
/// canonical form. Reading the id back with `works_slug_to_key` gives the key.
pub fn key_to_works_id(key: &str) -> (id: String)
    ensures
        id@ == unpadded_encode(key@),
        id@.len() == (4 * encode_utf8(key@).len() + 2) / 3,
        id@ + pad_chars(id@.len()) == standard_encode(encode_utf8(key@)),
        forall|i: int| 0 <= i < id@.len() ==> is_standard_symbol(#[trigger] id@[i]),
        slug_key(id@) == key@,
{
    let id = encode_unpadded(key.as_bytes());
    proof {
        assert forall|j: int| 0 <= j < id@.len() implies id@[j] != '-' by {
            assert(is_standard_symbol(id@[j]));
        }
        lemma_first_char_at(id@, '-', id@.len() as int);
    }
    id
}

} // verus!
