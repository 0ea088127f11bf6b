use hipmh::catalog::{
    build_mangas_filter_url, listing_url, parse_manga_list, search_request, search_url,
    FilterValue, MangaStatus, SearchRequest, Viewer,
};
use hipmh::error::SourceError;
use hipmh::json::{Json, JsonNumber};

fn s(t: &str) -> Json {
    Json::Str(t.to_string())
}

fn num(n: i64) -> Json {
    Json::Number(JsonNumber { int: Some(n), float_bits: (n as f64).to_bits() })
}

fn obj(members: Vec<(&str, Json)>) -> Json {
    Json::Object(members.into_iter().map(|(k, v)| (k.to_string(), v)).collect())
}

fn listing_response() -> Json {
    obj(vec![(
        "data",
        obj(vec![
            (
                "items",
                Json::Array(vec![
                    obj(vec![
                        ("mid", s("bToyMzQ3NQ-yi-ren-zhi-xia")),
                        ("title", s("一人之下")),
                        ("vertical_image_url", s("/covers/1.jpg")),
                    ]),
                    Json::Null,
                    obj(vec![
                        ("mid", s("bToxNTAzMQ--xia-ri")),
                        ("title", s("夏日重生")),
                        ("cover_image_url", s("https://cdn.example/2.jpg")),
                    ]),
                ]),
            ),
            ("total_pages", num(3)),
        ]),
    )])
}

#[test]
fn parse_listing_response() {
    let res = parse_manga_list(&listing_response(), 1).unwrap();
    assert_eq!(res.entries.len(), 2);
    assert!(res.has_next_page);
    assert_eq!(res.entries[0].key, "m:23475");
    assert_eq!(res.entries[0].title, "一人之下");
    assert_eq!(res.entries[0].cover.as_deref(), Some("https://cover.s3imgs.top/covers/1.jpg"));
    assert_eq!(res.entries[0].status, MangaStatus::Unknown);
    assert_eq!(res.entries[0].viewer, Viewer::Unknown);
    assert!(res.entries[0].url.is_none());
    assert_eq!(res.entries[1].key, "m:15031");
    assert_eq!(res.entries[1].cover.as_deref(), Some("https://cdn.example/2.jpg"));
}

#[test]
fn last_page_has_no_next() {
    assert!(!parse_manga_list(&listing_response(), 3).unwrap().has_next_page);
    assert!(!parse_manga_list(&listing_response(), 4).unwrap().has_next_page);
    assert!(parse_manga_list(&listing_response(), 2).unwrap().has_next_page);
}

#[test]
fn parse_search_response() {
    let resp = obj(vec![(
        "data",
        obj(vec![(
            "data",
            Json::Array(vec![obj(vec![("id", s("bTox-slug")), ("title", Json::Null)])]),
        )]),
    )]);
    let res = parse_manga_list(&resp, 1).unwrap();
    assert_eq!(res.entries.len(), 1);
    assert_eq!(res.entries[0].key, "m:1");
    assert_eq!(res.entries[0].title, "");
    assert_eq!(res.entries[0].cover.as_deref(), Some(""));
    // No total_pages: one page.
    assert!(!res.has_next_page);
}

#[test]
fn cover_that_is_not_a_string_is_empty() {
    let resp = obj(vec![(
        "data",
        obj(vec![(
            "items",
            Json::Array(vec![obj(vec![("mid", s("x")), ("vertical_image_url", num(5))])]),
        )]),
    )]);
    let res = parse_manga_list(&resp, 0).unwrap();
    assert_eq!(res.entries[0].cover.as_deref(), Some(""));
    assert_eq!(res.entries[0].key, "x");
}

#[test]
fn parse_errors() {
    assert_eq!(parse_manga_list(&obj(vec![]), 1).err(), Some(SourceError::MissingData));
    assert_eq!(
        parse_manga_list(&obj(vec![("data", obj(vec![]))]), 1).err(),
        Some(SourceError::MissingItems)
    );
    // `items` present but not an array: no fallback to `data`.
    let resp = obj(vec![(
        "data",
        obj(vec![("items", Json::Null), ("data", Json::Array(vec![]))]),
    )]);
    assert_eq!(parse_manga_list(&resp, 1).err(), Some(SourceError::MissingItems));
}

#[test]
fn filter_url_maps_status_select() {
    let filters = vec![
        FilterValue::Text { id: "q".to_string(), value: "x".to_string() },
        FilterValue::Select { id: "状态".to_string(), value: "1".to_string() },
        FilterValue::Select { id: "类型".to_string(), value: "0".to_string() },
    ];
    assert_eq!(
        build_mangas_filter_url(2, &filters),
        "https://hipapi1.s3file.top/v1/mangas?page=2&per_page=18&status=completed"
    );
    let filters = vec![FilterValue::Select { id: "状态".to_string(), value: "0".to_string() }];
    assert_eq!(
        build_mangas_filter_url(1, &filters),
        "https://hipapi1.s3file.top/v1/mangas?page=1&per_page=18&status=ongoing"
    );
    let filters = vec![
        FilterValue::Select { id: "状态".to_string(), value: "2".to_string() },
        FilterValue::Other,
    ];
    assert_eq!(
        build_mangas_filter_url(-3, &filters),
        "https://hipapi1.s3file.top/v1/mangas?page=-3&per_page=18"
    );
    assert_eq!(
        build_mangas_filter_url(10, &vec![]),
        "https://hipapi1.s3file.top/v1/mangas?page=10&per_page=18"
    );
}

#[test]
fn listing_urls() {
    assert_eq!(
        listing_url("popularity", 1).unwrap(),
        "https://hipapi1.s3file.top/v1/mangas?sort=popular&page=1&per_page=18"
    );
    assert_eq!(
        listing_url("weekly", 2).unwrap(),
        "https://hipapi1.s3file.top/v1/mangas?sort=weekly&page=2&per_page=18"
    );
    assert_eq!(
        listing_url("newReleases", 3).unwrap(),
        "https://hipapi1.s3file.top/v1/mangas?sort=latest&page=3&per_page=18"
    );
    assert_eq!(
        listing_url("completed", 4).unwrap(),
        "https://hipapi1.s3file.top/v1/mangas?status=completed&sort=popular&page=4&per_page=18"
    );
    assert_eq!(
        listing_url("ongoing", 5).unwrap(),
        "https://hipapi1.s3file.top/v1/mangas?status=ongoing&sort=popular&page=5&per_page=18"
    );
    assert_eq!(listing_url("other", 1), Err(SourceError::InvalidListing));
}

#[test]
fn search_prefers_text_filter() {
    let filters = vec![
        FilterValue::Text { id: "a".to_string(), value: "".to_string() },
        FilterValue::Text { id: "b".to_string(), value: "海贼".to_string() },
    ];
    match search_request(Some("ignored".to_string()), 1, &filters) {
        SearchRequest::Query(q) => assert_eq!(q, "海贼"),
        other => panic!("unexpected {:?}", other),
    }
}

#[test]
fn search_uses_query_without_text_filter() {
    match search_request(Some("one piece".to_string()), 1, &vec![]) {
        SearchRequest::Query(q) => assert_eq!(q, "one piece"),
        other => panic!("unexpected {:?}", other),
    }
}

#[test]
fn blank_search_browses() {
    let filters = vec![FilterValue::Select { id: "状态".to_string(), value: "0".to_string() }];
    match search_request(Some(" \t\u{3000} ".to_string()), 2, &filters) {
        SearchRequest::Browse(u) => assert_eq!(
            u,
            "https://hipapi1.s3file.top/v1/mangas?page=2&per_page=18&status=ongoing"
        ),
        other => panic!("unexpected {:?}", other),
    }
    match search_request(None, 1, &vec![]) {
        SearchRequest::Browse(u) => {
            assert_eq!(u, "https://hipapi1.s3file.top/v1/mangas?page=1&per_page=18")
        }
        other => panic!("unexpected {:?}", other),
    }
    // A text filter of white space wins over the query, and is then no search.
    let filters = vec![FilterValue::Text { id: "t".to_string(), value: "  ".to_string() }];
    match search_request(Some("query".to_string()), 1, &filters) {
        SearchRequest::Browse(_) => {}
        other => panic!("unexpected {:?}", other),
    }
}

#[test]
fn search_url_example() {
    assert_eq!(
        search_url("%E6%B5%B7", 3),
        "https://hipapi1.s3file.top/v1/search?q=%E6%B5%B7&page=3&page_size=20"
    );
}
