use hipmh::deep_link::DeepLinkResult;
use hipmh::Hipmh;

fn link(url: &str) -> Option<DeepLinkResult> {
    Hipmh::new().handle_deep_link(url)
}

#[test]
fn works_link_decodes_base64_id() {
    match link("https://m.hipmh.com/works/bToxNTAzMQ--xia-ri-chong-sheng") {
        Some(DeepLinkResult::Manga { key }) => assert_eq!(key, "m:15031"),
        other => panic!("unexpected {:?}", other),
    }
}

#[test]
fn works_link_with_undecodable_id_keeps_it() {
    match link("https://m.hipmh.com/works/zz!--slug") {
        Some(DeepLinkResult::Manga { key }) => assert_eq!(key, "zz!"),
        other => panic!("unexpected {:?}", other),
    }
}

#[test]
fn works_link_without_id_is_none() {
    assert!(link("https://m.hipmh.com/works").is_none());
}

#[test]
fn manga_link() {
    match link("https://m.hipmh.com/manga/12345") {
        Some(DeepLinkResult::Manga { key }) => assert_eq!(key, "12345"),
        other => panic!("unexpected {:?}", other),
    }
}

#[test]
fn chapter_link() {
    match link("https://m.hipmh.com/manga/12345/678") {
        Some(DeepLinkResult::Chapter { manga_key, key }) => {
            assert_eq!(manga_key, "12345");
            assert_eq!(key, "678");
        }
        other => panic!("unexpected {:?}", other),
    }
}

#[test]
fn manga_link_without_id_is_none() {
    assert!(link("https://m.hipmh.com/manga").is_none());
}

#[test]
fn other_links_are_none() {
    assert!(link("https://m.hipmh.com/author/someone").is_none());
    assert!(link("https://m.hipmh.com/").is_none());
    assert!(link("").is_none());
}

#[test]
fn repeated_base_is_trimmed() {
    match link("https://m.hipmh.comhttps://m.hipmh.com/manga/7") {
        Some(DeepLinkResult::Manga { key }) => assert_eq!(key, "7"),
        other => panic!("unexpected {:?}", other),
    }
}

#[test]
fn relative_path_links() {
    match link("/manga/abc") {
        Some(DeepLinkResult::Manga { key }) => assert_eq!(key, "abc"),
        other => panic!("unexpected {:?}", other),
    }
}
