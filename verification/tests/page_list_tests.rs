use base64::Engine;
use hipmh::error::SourceError;
use hipmh::json::{Json, JsonNumber};
use hipmh::page_list::{
    decode_images, derive_api_hid, image_base, images_base64, substitute_byte, unscramble_exec,
    PageList,
};

const FROM: &[u8] = b"_-9876543210abcdefghijklmnopqrstuvwxyzABCDEFGHIJKLMNOPQRSTUVWXYZ";
const TO: &[u8] = b"ABCDEFGHIJKLMNOPQRSTUVWXYZabcdefghijklmnopqrstuvwxyz0123456789-_";

/// Hides URL-safe base64 text the way the reader's payload does.
fn scramble_text(b64: &[u8]) -> String {
    let sub: Vec<u8> = b64
        .iter()
        .map(|&c| match TO.iter().position(|&t| t == c) {
            Some(i) => FROM[i],
            None => c,
        })
        .collect();
    let mut reordered = Vec::new();
    for (idx, chunk) in sub.chunks(7).enumerate() {
        if idx % 2 == 1 {
            reordered.extend(chunk.iter().rev());
        } else {
            reordered.extend(chunk.iter());
        }
    }
    let total = reordered.len();
    let k = total / 3;
    let a = (total - k) / 2;
    let seg_k = &reordered[..k];
    let seg_a = &reordered[k..k + a];
    let seg_b = &reordered[k + a..];
    let mut out = b"qM9".to_vec();
    out.extend_from_slice(seg_a);
    out.extend_from_slice(b"Vx");
    out.extend_from_slice(seg_b);
    out.extend_from_slice(b"pL0");
    out.extend_from_slice(seg_k);
    out.extend_from_slice(b"Z7");
    String::from_utf8(out).unwrap()
}

fn scramble(json: &[u8]) -> String {
    scramble_text(base64::engine::general_purpose::URL_SAFE_NO_PAD.encode(json).as_bytes())
}

fn s(t: &str) -> Json {
    Json::Str(t.to_string())
}

fn num(n: i64) -> Json {
    Json::Number(JsonNumber { int: Some(n), float_bits: (n as f64).to_bits() })
}

fn obj(members: Vec<(&str, Json)>) -> Json {
    Json::Object(members.into_iter().map(|(k, v)| (k.to_string(), v)).collect())
}

#[test]
fn substitution_maps_scrambled_alphabet_to_url_safe() {
    for i in 0..64 {
        assert_eq!(substitute_byte(FROM[i]), TO[i]);
    }
    assert_eq!(substitute_byte(b'!'), b'!');
    assert_eq!(substitute_byte(b'/'), b'/');
    assert_eq!(substitute_byte(0xff), 0xff);
}

#[test]
fn unscramble_reverses_odd_chunks() {
    // Chunk 0 stays, chunk 1 is reversed, chunk 2 stays; then every byte is substituted.
    let input: Vec<u8> = b"abcdefghijklmnopq".to_vec();
    let out = unscramble_exec(&input);
    let mut expected: Vec<u8> = Vec::new();
    expected.extend(b"abcdefg");
    expected.extend(b"nmlkjih");
    expected.extend(b"opq");
    let expected: Vec<u8> = expected.iter().map(|&b| substitute_byte(b)).collect();
    assert_eq!(out, expected);
}

#[test]
fn decode_images_round_trip() {
    let json = br#"["/a/001.jpg","/a/002.jpg","/a/003.webp"]"#;
    let payload = scramble(json);
    assert_eq!(
        decode_images(&payload).unwrap(),
        vec!["/a/001.jpg".to_string(), "/a/002.jpg".to_string(), "/a/003.webp".to_string()]
    );
}

#[test]
fn images_base64_recovers_hidden_text() {
    let text = b"SGVsbG8sIHdvcmxkIQ";
    let payload = scramble_text(text);
    assert_eq!(images_base64(&payload).unwrap(), text.to_vec());
}

#[test]
fn decode_images_keeps_only_strings() {
    let payload = scramble(br#"["/x.jpg",1,null,"/y.jpg",{"a":2}]"#);
    assert_eq!(
        decode_images(&payload).unwrap(),
        vec!["/x.jpg".to_string(), "/y.jpg".to_string()]
    );
}

#[test]
fn decode_images_empty_array() {
    let payload = scramble(b"[]");
    assert_eq!(decode_images(&payload).unwrap(), Vec::<String>::new());
}

#[test]
fn decode_images_rejects_bad_frame() {
    assert_eq!(decode_images("short"), Err(SourceError::InvalidImagesPayload));
    assert_eq!(decode_images("xM9abcdefghijZ7"), Err(SourceError::InvalidImagesPayload));
    assert_eq!(decode_images("qM9abcdefghijZ8"), Err(SourceError::InvalidImagesPayload));
    assert_eq!(decode_images(""), Err(SourceError::InvalidImagesPayload));
}

#[test]
fn decode_images_rejects_bad_layout() {
    let good = scramble(br#"["/a.jpg"]"#);
    let mut bytes = good.into_bytes();
    // Break the "Vx" separator.
    let pos = bytes.windows(2).position(|w| w == b"Vx").unwrap();
    bytes[pos] = b'W';
    let bad = String::from_utf8(bytes).unwrap();
    assert_eq!(decode_images(&bad), Err(SourceError::UnexpectedImagesLayout));
}

#[test]
fn decode_images_rejects_invalid_base64() {
    let payload = scramble_text(b"ab!cd");
    assert_eq!(decode_images(&payload), Err(SourceError::ImagesBase64));
}

#[test]
fn decode_images_rejects_non_utf8() {
    let payload = scramble(&[0xff, 0xfe, 0xfd]);
    assert_eq!(decode_images(&payload), Err(SourceError::ImagesUtf8));
}

#[test]
fn decode_images_rejects_non_json() {
    let payload = scramble(b"not json at all");
    assert_eq!(decode_images(&payload), Err(SourceError::ImagesJson));
}

#[test]
fn decode_images_rejects_non_array() {
    let payload = scramble(br#"{"images":["/a.jpg"]}"#);
    assert_eq!(decode_images(&payload), Err(SourceError::ImagesNotArray));
}

#[test]
fn image_base_selects_host() {
    assert_eq!(image_base(9), "https://hip-tx-s1.s3imgs.top");
    assert_eq!(image_base(1), "https://hip-tx-1.s3imgs.top");
    assert_eq!(image_base(3), "https://hip-tx-1.s3imgs.top");
    assert_eq!(image_base(-9), "https://hip-tx-1.s3imgs.top");
}

#[test]
fn derive_api_hid_example() {
    assert_eq!(
        derive_api_hid("bToyMzQ3NS1jOjc4MzI5-MjM0NzU6ODI1LjAw").unwrap(),
        "Yzo3ODMyOQ-MjM0NzU6ODI1LjAw"
    );
}

#[test]
fn derive_api_hid_uses_last_separators() {
    // base64 of "m:1-c:2-c:345" is "bToxLWM6Mi1jOjM0NQ"
    assert_eq!(
        derive_api_hid("bToxLWM6Mi1jOjM0NQ-y").unwrap(),
        format!("{}-y", base64::engine::general_purpose::STANDARD.encode("c:345").trim_end_matches('='))
    );
}

#[test]
fn derive_api_hid_errors() {
    assert_eq!(derive_api_hid("nodash"), Err(SourceError::InvalidChapterKey));
    assert_eq!(derive_api_hid("!!!-x"), Err(SourceError::InvalidBase64));
    assert_eq!(derive_api_hid("//4-x"), Err(SourceError::InvalidHidSegment));
    assert_eq!(derive_api_hid("bTox-x"), Err(SourceError::UnexpectedHidFormat));
}

#[test]
fn chapter_url_example() {
    assert_eq!(
        PageList::chapter_url("bToyMzQ3NS1jOjc4MzI5-MjM0NzU6ODI1LjAw").unwrap(),
        "https://hipapi1.s3file.top/v2/chapter?hid=Yzo3ODMyOQ-MjM0NzU6ODI1LjAw"
    );
    assert_eq!(PageList::chapter_url("x"), Err(SourceError::InvalidChapterKey));
}

#[test]
fn get_pages_builds_urls() {
    let payload = scramble(br#"["/c/1.jpg","/c/2.jpg"]"#);
    let resp = obj(vec![("data", obj(vec![("images", s(&payload)), ("line", num(9))]))]);
    assert_eq!(
        PageList::get_pages(&resp).unwrap(),
        vec![
            "https://hip-tx-s1.s3imgs.top/c/1.jpg".to_string(),
            "https://hip-tx-s1.s3imgs.top/c/2.jpg".to_string()
        ]
    );
    let resp = obj(vec![("data", obj(vec![("images", s(&payload))]))]);
    assert_eq!(
        PageList::get_pages(&resp).unwrap(),
        vec![
            "https://hip-tx-1.s3imgs.top/c/1.jpg".to_string(),
            "https://hip-tx-1.s3imgs.top/c/2.jpg".to_string()
        ]
    );
}

#[test]
fn get_pages_errors() {
    assert_eq!(PageList::get_pages(&obj(vec![])), Err(SourceError::MissingData));
    assert_eq!(
        PageList::get_pages(&obj(vec![("data", obj(vec![]))])),
        Err(SourceError::MissingImages)
    );
    assert_eq!(
        PageList::get_pages(&obj(vec![("data", obj(vec![("images", num(3))]))])),
        Err(SourceError::MissingImages)
    );
    assert_eq!(
        PageList::get_pages(&obj(vec![("data", obj(vec![("images", s("oops"))]))])),
        Err(SourceError::InvalidImagesPayload)
    );
    assert_eq!(PageList::get_pages(&Json::Null), Err(SourceError::MissingData));
}

#[test]
fn hidden_text_of_any_length_is_recovered() {
    let alphabet = b"ABCDEFGHIJKLMNOPQRSTUVWXYZabcdefghijklmnopqrstuvwxyz0123456789-_";
    for len in 0..40 {
        let text: Vec<u8> = (0..len).map(|i| alphabet[(i * 7 + 3) % 64]).collect();
        let payload = scramble_text(&text);
        assert!(payload.len() >= 10);
        assert_eq!(images_base64(&payload).unwrap(), text);
    }
}
