use hipmh::chapter_list::ChapterList;
use hipmh::error::SourceError;
use hipmh::json::{Json, JsonNumber};

fn s(t: &str) -> Json {
    Json::Str(t.to_string())
}

fn num(n: i64) -> Json {
    Json::Number(JsonNumber { int: Some(n), float_bits: (n as f64).to_bits() })
}

fn float(x: f64) -> Json {
    Json::Number(JsonNumber { int: None, float_bits: x.to_bits() })
}

fn obj(members: Vec<(&str, Json)>) -> Json {
    Json::Object(members.into_iter().map(|(k, v)| (k.to_string(), v)).collect())
}

fn page(items: Vec<Json>, total: Option<i64>) -> Json {
    let mut data = vec![("items", Json::Array(items))];
    if let Some(t) = total {
        data.push(("total_pages", num(t)));
    }
    obj(vec![("data", obj(data))])
}

#[test]
fn manga_id_strips_prefix() {
    assert_eq!(ChapterList::manga_id("m:23475"), "23475");
    assert_eq!(ChapterList::manga_id("23475"), "23475");
    assert_eq!(ChapterList::manga_id("m:"), "");
}

#[test]
fn chapters_url_example() {
    assert_eq!(
        ChapterList::chapters_url("m:23475", 2),
        "https://hipapi1.s3file.top/v1/manga/chapters?mid=23475&page=2&per_page=50&order=desc"
    );
}

#[test]
fn total_pages_from_first_page() {
    assert_eq!(ChapterList::total_pages(&page(vec![], Some(4))), 4);
    assert_eq!(ChapterList::total_pages(&page(vec![], Some(0))), 1);
    assert_eq!(ChapterList::total_pages(&page(vec![], Some(-5))), 1);
    assert_eq!(ChapterList::total_pages(&page(vec![], None)), 1);
    assert_eq!(ChapterList::total_pages(&Json::Null), 1);
}

#[test]
fn chapters_keep_page_order() {
    let p1 = page(
        vec![
            obj(vec![("hid", s("h3")), ("title", s("第3话")), ("chapter_number", num(3))]),
            obj(vec![("hid", s("h2")), ("title", s("第2话")), ("chapter_number", float(2.5))]),
        ],
        Some(2),
    );
    let p2 = page(vec![s("skip me"), obj(vec![("hid", s("h1"))])], None);
    let cs = ChapterList::get_chapters("m:77", &vec![p1, p2]).unwrap();
    assert_eq!(cs.len(), 3);
    assert_eq!(cs[0].key, "h3");
    assert_eq!(cs[0].title.as_deref(), Some("第3话"));
    assert_eq!(f64::from_bits(cs[0].number_bits), 3.0);
    assert_eq!(cs[0].url.as_deref(), Some("https://m.hipmh.com/chapter/go?hid=h3&m=77"));
    assert_eq!(cs[1].key, "h2");
    assert_eq!(f64::from_bits(cs[1].number_bits), 2.5);
    assert_eq!(cs[2].key, "h1");
    assert_eq!(cs[2].title.as_deref(), Some(""));
    assert_eq!(cs[2].number_bits, 0);
    assert_eq!(cs[2].url.as_deref(), Some("https://m.hipmh.com/chapter/go?hid=h1&m=77"));
}

#[test]
fn no_pages_no_chapters() {
    assert!(ChapterList::get_chapters("m:1", &vec![]).unwrap().is_empty());
}

#[test]
fn bad_page_gives_its_error() {
    let good = page(vec![obj(vec![("hid", s("a"))])], None);
    let no_items = obj(vec![("data", obj(vec![]))]);
    assert_eq!(
        ChapterList::get_chapters("m:1", &vec![good, no_items]).err(),
        Some(SourceError::MissingItems)
    );
    let good = page(vec![], None);
    assert_eq!(
        ChapterList::get_chapters("m:1", &vec![good, obj(vec![]), obj(vec![("data", obj(vec![]))])])
            .err(),
        Some(SourceError::MissingData)
    );
}

#[test]
fn remaining_page_urls_cover_pages_two_to_n() {
    let first = page(vec![], Some(3));
    assert_eq!(
        ChapterList::remaining_page_urls("m:7", &first),
        vec![
            "https://hipapi1.s3file.top/v1/manga/chapters?mid=7&page=2&per_page=50&order=desc"
                .to_string(),
            "https://hipapi1.s3file.top/v1/manga/chapters?mid=7&page=3&per_page=50&order=desc"
                .to_string(),
        ]
    );
    assert!(ChapterList::remaining_page_urls("42", &page(vec![], Some(0))).is_empty());
    assert!(ChapterList::remaining_page_urls("42", &page(vec![], None)).is_empty());
    assert!(ChapterList::remaining_page_urls("42", &page(vec![], Some(1))).is_empty());
}

#[test]
fn two_page_example() {
    let p1 = page(
        vec![obj(vec![("hid", s("h1")), ("title", s("A")), ("chapter_number", num(2))])],
        Some(2),
    );
    assert_eq!(ChapterList::remaining_page_urls("m:7", &p1).len(), 1);
    let p2 = page(
        vec![obj(vec![("hid", s("h0")), ("title", s("B")), ("chapter_number", num(0))])],
        None,
    );
    let cs = ChapterList::get_chapters("m:7", &vec![p1, p2]).unwrap();
    assert_eq!(cs.len(), 2);
    assert_eq!(cs[0].key, "h1");
    assert_eq!(f64::from_bits(cs[0].number_bits), 2.0);
    assert_eq!(cs[1].key, "h0");
    assert_eq!(f64::from_bits(cs[1].number_bits), 0.0);
    assert_eq!(cs[1].url.as_deref(), Some("https://m.hipmh.com/chapter/go?hid=h0&m=7"));
}
