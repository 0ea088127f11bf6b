//! Chapter pages: the reading API's chapter id, and the decoder of its
//! scrambled `data.images` payload.
use vstd::prelude::*;
use vstd::string::StringSliceAdditionalSpecFns;
use vstd::utf8::{decode_utf8, valid_utf8};
use crate::codec::{
    decode_b64, decode_url_safe_no_pad, encode_unpadded, unpadded_decode, unpadded_encode,
    url_safe_no_pad_decode, utf8_to_string,
};
use crate::error::SourceError;
use crate::json::{field_of, json_string_items, parse_string_items, Json};
use crate::text::{keep_strings, present_texts, rsplit_once_char, rsplit_once_char_str, rsplit_once_match, rsplit_once_match_str};

verus! {

broadcast use {vstd::utf8::group_utf8_lib, vstd::string::group_string_axioms};

// ---------------------------------------------------------------------------
// The substitution alphabet
// ---------------------------------------------------------------------------

/// The reader's scrambled alphabet, `_-9876543210a…zA…Z`: its `i`-th byte.
pub open spec fn scramble_symbol(i: int) -> u8 {
    if i == 0 {
        95  // '_'
    } else if i == 1 {
        45  // '-'
    } else if i < 12 {
        (59 - i) as u8  // '9' down to '0'
    } else if i < 38 {
        (85 + i) as u8  // 'a' to 'z'
    } else {
        (27 + i) as u8  // 'A' to 'Z'
    }
}

/// The URL-safe base64 alphabet, `A…Za…z0…9-_`: its `i`-th byte.
pub open spec fn url_safe_symbol(i: int) -> u8 {
    if i < 26 {
        (65 + i) as u8  // 'A' to 'Z'
    } else if i < 52 {
        (71 + i) as u8  // 'a' to 'z'
    } else if i < 62 {
        (i - 4) as u8  // '0' to '9'
    } else if i == 62 {
        45  // '-'
    } else {
        95  // '_'
    }
}

/// The position of `b` in the scrambled alphabet, if it is there.
pub open spec fn scramble_index(b: u8) -> Option<int> {
    if b == 95 {
        Some(0)
    } else if b == 45 {
        Some(1)
    } else if 48 <= b <= 57 {
        Some(59 - b)
    } else if 97 <= b <= 122 {
        Some(b - 85)
    } else if 65 <= b <= 90 {
        Some(b - 27)
    } else {
        None
    }
}

/// The reader's substitution: the `i`-th symbol of the scrambled alphabet
/// becomes the `i`-th symbol of the URL-safe alphabet; other bytes stay.
pub open spec fn substitute(b: u8) -> u8 {
    match scramble_index(b) {
        Some(i) => url_safe_symbol(i),
        None => b,
    }
}

/// `scramble_index` inverts `scramble_symbol`: the substitution maps the
/// scrambled alphabet onto the URL-safe one position by position and leaves
/// every other byte alone.
pub proof fn lemma_scramble_alphabet()
    ensures
        forall|i: int| 0 <= i < 64 ==> scramble_index(#[trigger] scramble_symbol(i)) == Some(i),
        forall|b: u8|
            #[trigger] scramble_index(b) matches Some(i) ==> 0 <= i < 64 && scramble_symbol(i)
                == b,
        forall|i: int| 0 <= i < 64 ==> substitute(#[trigger] scramble_symbol(i)) == url_safe_symbol(i),
{
}

/// Applies the substitution to one byte.
pub fn substitute_byte(b: u8) -> (r: u8)
    ensures
        r == substitute(b),
{
    let idx: u8 = if b == 95 {
        0
    } else if b == 45 {
        1
    } else if 48 <= b && b <= 57 {
        59 - b
    } else if 97 <= b && b <= 122 {
        b - 85
    } else if 65 <= b && b <= 90 {
        b - 27
    } else {
        return b;
    };
    if idx < 26 {
        65 + idx
    } else if idx < 52 {
        71 + idx
    } else if idx < 62 {
        idx - 4
    } else if idx == 62 {
        45
    } else {
        95
    }
}

// ---------------------------------------------------------------------------
// Model of the payload
// ---------------------------------------------------------------------------

/// The payload is framed by `qM9` at the start and `Z7` at the end, and has at least 8 bytes.
pub open spec fn has_frame(s: Seq<u8>) -> bool {
    &&& s.len() >= 8
    &&& s[0] == 113 && s[1] == 77 && s[2] == 57  // "qM9"
    &&& s[s.len() - 2] == 90 && s[s.len() - 1] == 55  // "Z7"
}

/// The payload without its frame.
pub open spec fn inner(s: Seq<u8>) -> Seq<u8> {
    s.subrange(3, s.len() - 2)
}

/// Length of the `K` segment in the layout `A Vx B pL0 K` of `n` bytes.
pub open spec fn k_len(n: int) -> int {
    (n - 5) / 3
}

/// Length of the `A` segment.
pub open spec fn a_len(n: int) -> int {
    (n - 5 - k_len(n)) / 2
}

/// Length of the `B` segment.
pub open spec fn b_len(n: int) -> int {
    n - 5 - k_len(n) - a_len(n)
}

/// The separators `Vx` and `pL0` stand where the layout puts them.
pub open spec fn layout_ok(t: Seq<u8>) -> bool {
    let a = a_len(t.len() as int);
    let b = b_len(t.len() as int);
    &&& t[a] == 86 && t[a + 1] == 120  // "Vx"
    &&& t[a + 2 + b] == 112 && t[a + 3 + b] == 76 && t[a + 4 + b] == 48  // "pL0"
}

/// `A Vx B pL0 K` recombined as `K A B`.
pub open spec fn recombine(t: Seq<u8>) -> Seq<u8> {
    let n = t.len() as int;
    let a = a_len(n);
    let b = b_len(n);
    t.subrange(a + 5 + b, n) + t.subrange(0, a) + t.subrange(a + 2, a + 2 + b)
}

/// For the byte at position `i` of a text of `len` bytes cut in 7-byte chunks:
/// the position it comes from when every odd-numbered chunk is reversed.
pub open spec fn chunk_source(len: int, i: int) -> int {
    let start = (i / 7) * 7;
    let end = if start + 7 <= len {
        start + 7
    } else {
        len
    };
    if (i / 7) % 2 == 1 {
        start + end - 1 - i
    } else {
        i
    }
}

/// Every odd-numbered 7-byte chunk reversed, and every byte substituted.
pub open spec fn unscramble(c: Seq<u8>) -> Seq<u8> {
    Seq::new(c.len(), |i: int| substitute(c[chunk_source(c.len() as int, i)]))
}

/// The payload inputs on which the layout arithmetic would index out of bounds
/// (a frame around fewer than five bytes).
pub open spec fn payload_too_short(s: Seq<u8>) -> bool {
    has_frame(s) && s.len() < 10
}

/// The URL-safe base64 text hidden in the payload, or the error for a bad payload.
pub open spec fn images_base64_spec(s: Seq<u8>) -> Result<Seq<u8>, SourceError> {
    if !has_frame(s) {
        Err(SourceError::InvalidImagesPayload)
    } else if !layout_ok(inner(s)) {
        Err(SourceError::UnexpectedImagesLayout)
    } else {
        Ok(unscramble(recombine(inner(s))))
    }
}

// ---------------------------------------------------------------------------
// Executable decoding
// ---------------------------------------------------------------------------

proof fn lemma_chunk_of(chunk: int, i: int)
    requires
        0 <= chunk,
        7 * chunk <= i < 7 * chunk + 7,
    ensures
        i / 7 == chunk,
{
}

/// Reverses every odd-numbered 7-byte chunk of `c` and substitutes every byte.
pub fn unscramble_exec(c: &Vec<u8>) -> (out: Vec<u8>)
    ensures
        out@ == unscramble(c@),
{
    let n = c.len();
    let mut out: Vec<u8> = Vec::new();
    let mut start: usize = 0;
    let mut chunk: usize = 0;
    while start < n
        invariant
            start == n || start == 7 * chunk,
            start <= n == c.len(),
            out@.len() == start,
            forall|i: int|
                0 <= i < start ==> out@[i] == substitute(c@[chunk_source(n as int, i)]),
        decreases n - start,
    {
        let end = if n - start >= 7 {
            start + 7
        } else {
            n
        };
        if chunk % 2 == 1 {
            let mut q = end;
            while q > start
                invariant
                    start <= q <= end <= n == c.len(),
                    start == 7 * chunk,
                    chunk % 2 == 1,
                    end == (if start + 7 <= n {
                        start + 7
                    } else {
                        n as int
                    }),
                    out@.len() == start + (end - q),
                    forall|i: int|
                        0 <= i < out@.len() ==> out@[i] == substitute(
                            c@[chunk_source(n as int, i)],
                        ),
                decreases q,
            {
                q = q - 1;
                let ghost pos = out@.len() as int;
                proof {
                    lemma_chunk_of(chunk as int, pos);
                }
                out.push(substitute_byte(c[q]));
            }
        } else {
            let mut q = start;
            while q < end
                invariant
                    start <= q <= end <= n == c.len(),
                    start == 7 * chunk,
                    chunk % 2 == 0,
                    end <= start + 7,
                    out@.len() == q,
                    forall|i: int|
                        0 <= i < out@.len() ==> out@[i] == substitute(
                            c@[chunk_source(n as int, i)],
                        ),
                decreases end - q,
            {
                proof {
                    lemma_chunk_of(chunk as int, q as int);
                }
                out.push(substitute_byte(c[q]));
                q = q + 1;
            }
        }
        start = end;
        chunk = chunk + 1;
    }
    assert(out@ =~= unscramble(c@));
    out
}

/// Appends `s[lo..hi]` to `v`.
fn push_bytes(v: &mut Vec<u8>, s: &[u8], lo: usize, hi: usize)
    requires
        lo <= hi <= s@.len(),
    ensures
        final(v)@ == old(v)@ + s@.subrange(lo as int, hi as int),
{
    let mut i = lo;
    while i < hi
        invariant
            lo <= i <= hi <= s@.len(),
            v@ == old(v)@ + s@.subrange(lo as int, i as int),
        decreases hi - i,
    {
        v.push(s[i]);
        assert(s@.subrange(lo as int, i + 1) =~= s@.subrange(lo as int, i as int).push(s@[i as int]));
        i = i + 1;
    }
}

/// The URL-safe base64 text hidden in an images payload: the payload must be
/// framed as `qM9…Z7`; its inside, laid out as `A Vx B pL0 K`, is recombined as
/// `K A B`, every odd-numbered 7-byte chunk is reversed and every byte is
/// substituted from the reader's scrambled alphabet to the URL-safe one.
pub fn images_base64(encrypted: &str) -> (r: Result<Vec<u8>, SourceError>)
    requires
        !payload_too_short(encrypted.spec_bytes()),
    ensures
        match r {
            Ok(t) => images_base64_spec(encrypted.spec_bytes()) == Ok::<Seq<u8>, SourceError>(t@),
            Err(e) => images_base64_spec(encrypted.spec_bytes()) == Err::<Seq<u8>, SourceError>(e),
        },
{
    let input = encrypted.as_bytes();
    let len = input.len();
    if len < 8 || !(input[0] == 113 && input[1] == 77 && input[2] == 57) || !(input[len - 2] == 90
        && input[len - 1] == 55) {
        return Err(SourceError::InvalidImagesPayload);
    }
    assert(has_frame(input@));
    let n = len - 5;
    if !layout_ok_exec(input, n) {
        return Err(SourceError::UnexpectedImagesLayout);
    }
    let combined = recombine_exec(input, n);
    Ok(unscramble_exec(&combined))
}

/// Whether the separators of the framed payload `input` (inside of `n` bytes) stand in place.
fn layout_ok_exec(input: &[u8], n: usize) -> (ok: bool)
    requires
        has_frame(input@),
        input@.len() >= 10,
        n == input@.len() - 5,
    ensures
        ok == layout_ok(inner(input@)),
{
    let ghost t = inner(input@);
    let total = n - 5;
    let k = total / 3;
    let a = (total - k) / 2;
    let b = total - k - a;
    assert(k == k_len(n as int) && a == a_len(n as int) && b == b_len(n as int));
    assert(t.len() == n);
    assert(t[a as int] == input@[3 + a]);
    assert(t[a + 1] == input@[3 + a + 1]);
    assert(t[a + 2 + b] == input@[3 + a + 2 + b]);
    assert(t[a + 3 + b] == input@[3 + a + 3 + b]);
    assert(t[a + 4 + b] == input@[3 + a + 4 + b]);
    input[3 + a] == 86 && input[3 + a + 1] == 120 && input[3 + a + 2 + b] == 112 && input[3 + a + 3
        + b] == 76 && input[3 + a + 4 + b] == 48
}

/// The inside `A Vx B pL0 K` of the framed payload `input`, recombined as `K A B`.
fn recombine_exec(input: &[u8], n: usize) -> (combined: Vec<u8>)
    requires
        has_frame(input@),
        input@.len() >= 10,
        n == input@.len() - 5,
    ensures
        combined@ == recombine(inner(input@)),
{
    let ghost t = inner(input@);
    let total = n - 5;
    let k = total / 3;
    let a = (total - k) / 2;
    let b = total - k - a;
    assert(k == k_len(n as int) && a == a_len(n as int) && b == b_len(n as int));
    let mut combined: Vec<u8> = Vec::new();
    push_bytes(&mut combined, input, 3 + a + 5 + b, input.len() - 2);
    push_bytes(&mut combined, input, 3, 3 + a);
    push_bytes(&mut combined, input, 3 + a + 2, 3 + a + 2 + b);
    assert(combined@ =~= recombine(t));
    combined
}


// ---------------------------------------------------------------------------
// Image paths
// ---------------------------------------------------------------------------

/// The image paths that the hidden URL-safe base64 `text` stands for: the text
/// decoded without padding, read as UTF-8, parsed as a JSON array, and its
/// string items kept.
pub open spec fn decode_hidden(text: Seq<u8>) -> Result<Seq<Seq<char>>, SourceError> {
    match url_safe_no_pad_decode(text) {
        None => Err(SourceError::ImagesBase64),
        Some(bytes) => if !valid_utf8(bytes) {
            Err(SourceError::ImagesUtf8)
        } else {
            match json_string_items(decode_utf8(bytes)) {
                None => Err(SourceError::ImagesJson),
                Some(None) => Err(SourceError::ImagesNotArray),
                Some(Some(items)) => Ok(keep_strings(items)),
            }
        },
    }
}

/// What `decode_images` gives for the bytes `s` of a payload.
pub open spec fn decode_images_spec(s: Seq<u8>) -> Result<Seq<Seq<char>>, SourceError> {
    match images_base64_spec(s) {
        Err(e) => Err(e),
        Ok(text) => decode_hidden(text),
    }
}

// ---------------------------------------------------------------------------
// The reader's scrambling, which the decoder undoes
// ---------------------------------------------------------------------------

/// The position of `b` in the URL-safe alphabet, if it is there.
pub open spec fn url_safe_index(b: u8) -> Option<int> {
    if 65 <= b <= 90 {
        Some(b - 65)
    } else if 97 <= b <= 122 {
        Some(b - 71)
    } else if 48 <= b <= 57 {
        Some(b + 4)
    } else if b == 45 {
        Some(62)
    } else if b == 95 {
        Some(63)
    } else {
        None
    }
}

/// The reader's substitution the other way: the `i`-th URL-safe symbol becomes
/// the `i`-th scrambled symbol; other bytes stay.
pub open spec fn unsubstitute(b: u8) -> u8 {
    match url_safe_index(b) {
        Some(i) => scramble_symbol(i),
        None => b,
    }
}

/// Every byte of `t` substituted the other way, then every odd-numbered 7-byte chunk reversed.
pub open spec fn scramble_chunks(t: Seq<u8>) -> Seq<u8> {
    Seq::new(t.len(), |i: int| unsubstitute(t[chunk_source(t.len() as int, i)]))
}

/// The payload in which the reader hides the URL-safe base64 text `t`: the
/// scrambled text `c`, cut as `K A B` with `K` of `n / 3` bytes and `A` of
/// `(n - |K|) / 2` bytes, laid out as `qM9 A Vx B pL0 K Z7`.
pub open spec fn reader_payload(t: Seq<u8>) -> Seq<u8> {
    let c = scramble_chunks(t);
    let total = c.len() as int;
    let k = total / 3;
    let a = (total - k) / 2;
    seq![113u8, 77, 57] + c.subrange(k, k + a) + seq![86u8, 120] + c.subrange(k + a, total) + seq![
        112u8,
        76,
        48,
    ] + c.subrange(0, k) + seq![90u8, 55]
}

/// Substituting one way and then the other gives the byte back.
pub proof fn lemma_unsubstitute(b: u8)
    ensures
        substitute(unsubstitute(b)) == b,
{
}

/// Reversing the odd-numbered chunks twice puts every position back.
pub proof fn lemma_chunk_source_involution(len: int, i: int)
    requires
        0 <= i < len,
    ensures
        0 <= chunk_source(len, i) < len,
        chunk_source(len, chunk_source(len, i)) == i,
{
    let j = i / 7;
    let start = j * 7;
    assert(start <= i < start + 7);
    if j % 2 == 1 {
        let end = if start + 7 <= len {
            start + 7
        } else {
            len
        };
        let src = start + end - 1 - i;
        assert(start <= src < end);
        assert(src / 7 == j);
    }
}

/// The decoder undoes the reader's scrambling: for every hidden text `t`, the
/// payload that hides it is long enough, its hidden text is `t`, and decoding
/// it gives what `t` stands for.
pub proof fn lemma_decoder_undoes_scrambling(t: Seq<u8>)
    ensures
        !payload_too_short(reader_payload(t)),
        images_base64_spec(reader_payload(t)) == Ok::<Seq<u8>, SourceError>(t),
        decode_images_spec(reader_payload(t)) == decode_hidden(t),
{
    let c = scramble_chunks(t);
    let total = c.len() as int;
    let k = total / 3;
    let a = (total - k) / 2;
    let s = reader_payload(t);
    assert(s.len() == total + 10);
    assert(has_frame(s));
    let t_in = inner(s);
    let n = t_in.len() as int;
    assert(n == total + 5);
    assert(k_len(n) == k && a_len(n) == a && b_len(n) == total - k - a);
    let mid = c.subrange(k, k + a) + seq![86u8, 120] + c.subrange(k + a, total) + seq![
        112u8,
        76,
        48,
    ] + c.subrange(0, k);
    assert(t_in =~= mid);
    assert(layout_ok(t_in));
    assert(recombine(t_in) =~= c);
    assert forall|i: int| 0 <= i < t.len() implies unscramble(c)[i] == t[i] by {
        lemma_chunk_source_involution(total, i);
        let src = chunk_source(total, i);
        lemma_unsubstitute(t[chunk_source(total, src)]);
    }
    assert(unscramble(c) =~= t);
}

/// Decodes the encrypted `data.images` payload into the list of relative image
/// paths: the hidden URL-safe base64 (see `images_base64`) is decoded without
/// padding, read as UTF-8, parsed as a JSON array, and its string items kept.
pub fn decode_images(encrypted: &str) -> (r: Result<Vec<String>, SourceError>)
    requires
        !payload_too_short(encrypted.spec_bytes()),
    ensures
        match r {
            Ok(paths) => decode_images_spec(encrypted.spec_bytes()) == Ok::<
                Seq<Seq<char>>,
                SourceError,
            >(paths@.map_values(|p: String| p@)),
            Err(e) => decode_images_spec(encrypted.spec_bytes()) == Err::<Seq<Seq<char>>, SourceError>(
                e,
            ),
        },
{
    let substituted = match images_base64(encrypted) {
        Ok(t) => t,
        Err(e) => return Err(e),
    };
    let decoded = match decode_url_safe_no_pad(substituted.as_slice()) {
        Some(b) => b,
        None => return Err(SourceError::ImagesBase64),
    };
    let json_str = match utf8_to_string(decoded) {
        Some(s) => s,
        None => return Err(SourceError::ImagesUtf8),
    };
    match parse_string_items(json_str.as_str()) {
        None => Err(SourceError::ImagesJson),
        Some(None) => Err(SourceError::ImagesNotArray),
        Some(Some(items)) => Ok(present_texts(&items)),
    }
}

// ---------------------------------------------------------------------------
// The reading API's chapter id and image hosts
// ---------------------------------------------------------------------------

/// The reading API's chapter endpoint.
pub const CHAPTER_API: &'static str = "https://hipapi1.s3file.top/v2/chapter";

/// The default image host. The reader maps the API's `line` onto a fixed set of
/// hosts; `hip-tx-{n}` exists only for n in {1, 2}, so the host is never derived
/// from the number.
pub const IMAGE_BASE: &'static str = "https://hip-tx-1.s3imgs.top";

/// The reader's "secure" image host, used for `line == 9`.
pub const IMAGE_BASE_SECURE: &'static str = "https://hip-tx-s1.s3imgs.top";

/// The image host for a chapter's `line`.
pub open spec fn image_base_spec(line: i64) -> Seq<char> {
    if line == 9 {
        IMAGE_BASE_SECURE@
    } else {
        IMAGE_BASE@
    }
}

/// Selects the image CDN host for a chapter, as the site's reader does:
/// `line == 9` uses the "secure" host; every other value uses the default host.
pub fn image_base(line: i64) -> (base: &'static str)
    ensures
        base@ == image_base_spec(line),
        line == 9 ==> base@ == IMAGE_BASE_SECURE@,
        line != 9 ==> base@ == IMAGE_BASE@,
{
    if line == 9 {
        IMAGE_BASE_SECURE
    } else {
        IMAGE_BASE
    }
}

/// Only line 9 selects the secure host; every other line, 1, 2, 3 or any
/// other value, serves from the default host, and the two hosts differ.
pub proof fn lemma_image_host(line: i64)
    ensures
        line == 9 ==> image_base_spec(line) == IMAGE_BASE_SECURE@,
        line != 9 ==> image_base_spec(line) == IMAGE_BASE@,
        IMAGE_BASE@ != IMAGE_BASE_SECURE@,
{
    reveal_strlit("https://hip-tx-1.s3imgs.top");
    reveal_strlit("https://hip-tx-s1.s3imgs.top");
    assert(IMAGE_BASE@[15] != IMAGE_BASE_SECURE@[15]);
}

/// The `api_hid` that the reading API expects for a chapter key, or the error.
pub open spec fn api_hid(key: Seq<char>) -> Result<Seq<char>, SourceError> {
    match rsplit_once_char(key, '-') {
        None => Err(SourceError::InvalidChapterKey),
        Some((seg1, seg2)) => match unpadded_decode(seg1) {
            None => Err(SourceError::InvalidBase64),
            Some(b) => if !valid_utf8(b) {
                Err(SourceError::InvalidHidSegment)
            } else {
                match rsplit_once_match(decode_utf8(b), "-c:"@) {
                    None => Err(SourceError::UnexpectedHidFormat),
                    Some((_, cid)) => Ok(unpadded_encode("c:"@ + cid) + "-"@ + seg2),
                }
            },
        },
    }
}

/// Derives the `api_hid` the reading API expects from a chapter `hid`
/// (`base64("m:{mid}-c:{cid}")` `-` `base64("{mid}:{num}.00")`, padding
/// stripped): `base64("c:{cid}")` without padding, `-`, the second segment.
pub fn derive_api_hid(chapter_key: &str) -> (r: Result<String, SourceError>)
    ensures
        match r {
            Ok(h) => api_hid(chapter_key@) == Ok::<Seq<char>, SourceError>(h@),
            Err(e) => api_hid(chapter_key@) == Err::<Seq<char>, SourceError>(e),
        },
{
    let (seg1, seg2) = match rsplit_once_char_str(chapter_key, '-') {
        Some(p) => p,
        None => return Err(SourceError::InvalidChapterKey),
    };
    let decoded = match decode_b64(seg1.as_str()) {
        Ok(b) => b,
        Err(e) => return Err(e),
    };
    let decoded = match utf8_to_string(decoded) {
        Some(s) => s,
        None => return Err(SourceError::InvalidHidSegment),
    };
    let cid = match rsplit_once_match_str(decoded.as_str(), "-c:") {
        Some((_, cid)) => cid,
        None => return Err(SourceError::UnexpectedHidFormat),
    };
    let mut tagged = String::from_str("c:");
    tagged.append(cid.as_str());
    let mut hid = encode_unpadded(tagged.as_str().as_bytes());
    hid.append("-");
    hid.append(seg2.as_str());
    Ok(hid)
}

/// Fetching a chapter's pages: the request URL and the reading of the answer.
pub struct PageList;

/// The text of `data.images` in a chapter response, if it is a string.
pub open spec fn images_text(json: Json) -> Option<Seq<char>> {
    match field_of(json.field("data"@), "images"@) {
        Some(v) => v.text(),
        None => None,
    }
}

/// The chapter responses that the payload decoder can take without indexing out
/// of bounds (those without a framed `data.images` of fewer than ten bytes).
pub open spec fn pages_input_ok(json: Json) -> bool {
    match images_text(json) {
        Some(t) => !payload_too_short(vstd::utf8::encode_utf8(t)),
        None => true,
    }
}

/// The line that a chapter response names (`data.line`), 1 when absent.
pub open spec fn line_of(json: Json) -> i64 {
    match field_of(json.field("data"@), "line"@) {
        Some(v) => match v.integer() {
            Some(n) => n,
            None => 1,
        },
        None => 1,
    }
}

/// What `get_pages` gives for a chapter response.
pub open spec fn pages_spec(json: Json) -> Result<Seq<Seq<char>>, SourceError> {
    match json.field("data"@) {
        None => Err(SourceError::MissingData),
        Some(data) => match images_text(json) {
            None => Err(SourceError::MissingImages),
            Some(t) => match decode_images_spec(vstd::utf8::encode_utf8(t)) {
                Err(e) => Err(e),
                Ok(paths) => Ok(
                    paths.map_values(|p: Seq<char>| image_base_spec(line_of(json)) + p),
                ),
            },
        },
    }
}

impl PageList {
    /// The reading API's request URL for a chapter key:
    /// `https://hipapi1.s3file.top/v2/chapter?hid={api_hid}`.
    pub fn chapter_url(chapter_key: &str) -> (r: Result<String, SourceError>)
        ensures
            match r {
                Ok(u) => api_hid(chapter_key@) matches Ok(h) && u@ == CHAPTER_API@ + "?hid="@ + h,
                Err(e) => api_hid(chapter_key@) == Err::<Seq<char>, SourceError>(e),
            },
    {
        let hid = match derive_api_hid(chapter_key) {
            Ok(h) => h,
            Err(e) => return Err(e),
        };
        let mut url = String::from_str(CHAPTER_API);
        url.append("?hid=");
        url.append(hid.as_str());
        Ok(url)
    }

    /// The page image URLs of a chapter response: each path that the
    /// `data.images` payload decodes to, behind the image host that `data.line`
    /// selects, in order.
    pub fn get_pages(json: &Json) -> (r: Result<Vec<String>, SourceError>)
        requires
            pages_input_ok(*json),
        ensures
            match r {
                Ok(pages) => pages_spec(*json) == Ok::<Seq<Seq<char>>, SourceError>(
                    pages@.map_values(|p: String| p@),
                ),
                Err(e) => pages_spec(*json) == Err::<Seq<Seq<char>>, SourceError>(e),
            },
            r matches Ok(pages) ==> forall|i: int|
                0 <= i < pages@.len() ==> {
                    let u = (#[trigger] pages@[i])@;
                    &&& line_of(*json) == 9 ==> u.len() >= IMAGE_BASE_SECURE@.len() && u.subrange(
                        0,
                        IMAGE_BASE_SECURE@.len() as int,
                    ) == IMAGE_BASE_SECURE@
                    &&& line_of(*json) != 9 ==> u.len() >= IMAGE_BASE@.len() && u.subrange(
                        0,
                        IMAGE_BASE@.len() as int,
                    ) == IMAGE_BASE@
                },
    {
        let data = match json.get("data") {
            Some(d) => d,
            None => return Err(SourceError::MissingData),
        };
        let images = match data.get("images") {
            Some(v) => match v.as_str() {
                Some(s) => s,
                None => return Err(SourceError::MissingImages),
            },
            None => return Err(SourceError::MissingImages),
        };
        let line = match data.get("line") {
            Some(v) => match v.as_i64() {
                Some(n) => n,
                None => 1,
            },
            None => 1,
        };
        let base = image_base(line);
        let paths = match decode_images(images.as_str()) {
            Ok(p) => p,
            Err(e) => return Err(e),
        };
        let ghost path_views = paths@.map_values(|p: String| p@);
        let mut pages: Vec<String> = Vec::new();
        let mut i: usize = 0;
        while i < paths.len()
            invariant
                i <= paths@.len(),
                path_views == paths@.map_values(|p: String| p@),
                pages@.len() == i,
                forall|j: int|
                    0 <= j < i ==> (#[trigger] pages@[j])@ == base@ + path_views[j],
            decreases paths.len() - i,
        {
            let mut page = String::from_str(base);
            page.append(paths[i].as_str());
            pages.push(page);
            i = i + 1;
        }
        assert(pages@.map_values(|p: String| p@) =~= path_views.map_values(
            |p: Seq<char>| base@ + p,
        ));
        proof {
            lemma_image_host(line);
            assert forall|i: int| 0 <= i < pages@.len() implies (#[trigger] pages@[i])@.subrange(
                0,
                base@.len() as int,
            ) == base@ by {
                assert(pages@[i]@.subrange(0, base@.len() as int) =~= base@);
            }
        }
        Ok(pages)
    }
}

} // verus!
