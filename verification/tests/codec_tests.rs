use base64::Engine;
use hipmh::codec::{decode_b64, decode_work_id, encode_unpadded, key_to_works_id, works_slug_to_key};
use hipmh::deep_link::DeepLinkResult;
use hipmh::Hipmh;
use hipmh::error::SourceError;

#[test]
fn key_to_works_id_strips_padding() {
    assert_eq!(key_to_works_id("m:23475"), "bToyMzQ3NQ");
    assert_eq!(key_to_works_id("m:15031"), "bToxNTAzMQ");
    assert_eq!(key_to_works_id(""), "");
}

#[test]
fn works_slug_to_key_reads_leading_segment() {
    assert_eq!(
        works_slug_to_key("bToyMzQ3NQ-yi-ren-zhi-xia-tencent-531490-17793"),
        "m:23475"
    );
    assert_eq!(works_slug_to_key("bToxNTAzMQ--xia-ri-chong-sheng"), "m:15031");
}

#[test]
fn works_slug_to_key_falls_back_to_raw_segment() {
    assert_eq!(works_slug_to_key("x!y-slug"), "x!y");
    assert_eq!(works_slug_to_key("plain"), "plain");
}

#[test]
fn decode_work_id_decodes_unpadded_base64() {
    assert_eq!(decode_work_id("bToxNTAzMQ"), "m:15031");
    assert_eq!(decode_work_id("bToxNTAzMQ=="), "m:15031");
}

#[test]
fn decode_work_id_keeps_text_that_is_not_base64() {
    assert_eq!(decode_work_id("not base64!"), "not base64!");
    assert_eq!(decode_work_id("a"), "a");
}

#[test]
fn decode_work_id_keeps_text_that_is_not_utf8() {
    // "//4" is the base64 of the bytes ff fe, which are not UTF-8.
    assert_eq!(decode_work_id("//4"), "//4");
}

#[test]
fn decode_b64_pads_before_decoding() {
    assert_eq!(decode_b64("aGVsbG8").unwrap(), b"hello".to_vec());
    assert_eq!(decode_b64("aGVsbG8=").unwrap(), b"hello".to_vec());
    assert_eq!(decode_b64("aGVsbA").unwrap(), b"hell".to_vec());
    assert_eq!(decode_b64("aGVs").unwrap(), b"hel".to_vec());
    assert_eq!(decode_b64("").unwrap(), Vec::<u8>::new());
}

#[test]
fn decode_b64_rejects_invalid_text() {
    assert_eq!(decode_b64("a"), Err(SourceError::InvalidBase64));
    assert_eq!(decode_b64("a-b_"), Err(SourceError::InvalidBase64));
    assert_eq!(decode_b64("aGVsbG8h!"), Err(SourceError::InvalidBase64));
}

#[test]
fn encode_unpadded_examples() {
    assert_eq!(encode_unpadded(b"c:78329"), "Yzo3ODMyOQ");
    assert_eq!(encode_unpadded(b"m:1"), "bTox");
    assert_eq!(encode_unpadded("m:漫画".as_bytes()), "bTrmvKvnlLs");
    assert_eq!(encode_unpadded(&[0xff, 0xfe]), "//4");
}

#[test]
fn works_id_round_trips_to_key() {
    for key in ["m:23475", "m:1", "m:15031", "m:漫画", "", "abc-def", "m:0000000"] {
        let id = key_to_works_id(key);
        assert!(!id.contains('='));
        assert!(!id.contains('-'));
        assert_eq!(works_slug_to_key(&id), key);
        assert_eq!(works_slug_to_key(&format!("{}-some-slug", id)), key);
    }
}

#[test]
fn works_url_deep_links_back_to_manga() {
    let source = Hipmh::new();
    for key in ["m:23475", "m:15031", "m:9"] {
        let url = Hipmh::works_url(key);
        assert_eq!(url, format!("https://m.hipmh.com/works/{}", key_to_works_id(key)));
        match source.handle_deep_link(&url) {
            Some(DeepLinkResult::Manga { key: k }) => assert_eq!(k, key),
            other => panic!("unexpected {:?}", other),
        }
    }
}

#[test]
fn error_messages() {
    assert_eq!(SourceError::InvalidChapterKey.message(), "Invalid chapter key");
    assert_eq!(SourceError::InvalidBase64.message(), "Invalid base64");
    assert_eq!(SourceError::ImagesJson.message(), "Failed to parse images JSON");
    assert_eq!(SourceError::MissingData.message(), "Expected data object");
    assert_eq!(SourceError::InvalidListing.message(), "Invalid listing");
}

#[test]
fn decode_b64_recovers_bytes_from_both_forms() {
    for bytes in [vec![], vec![0u8], vec![0xff, 0xfe], vec![1, 2, 3], vec![9, 8, 7, 6, 5]] {
        let padded = base64::engine::general_purpose::STANDARD.encode(&bytes);
        let stripped = encode_unpadded(&bytes);
        assert_eq!(stripped, padded.trim_end_matches('='));
        assert_eq!(decode_b64(&stripped).unwrap(), bytes);
        assert_eq!(decode_b64(&padded).unwrap(), bytes);
    }
}

#[test]
fn works_id_length_and_padding() {
    for key in ["m:23475", "m:1", "m:12", "", "m:漫画"] {
        let id = key_to_works_id(key);
        assert_eq!(id.len(), (4 * key.len() + 2) / 3);
        let pad = "=".repeat((4 - id.len() % 4) % 4);
        assert_eq!(format!("{}{}", id, pad), base64::engine::general_purpose::STANDARD.encode(key));
    }
}
