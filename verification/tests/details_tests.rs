use hipmh::catalog::{Manga, MangaStatus, Viewer};
use hipmh::Hipmh;
use hipmh::details::{MangaInfoPage, MangaPage, WorksPage};

fn names(v: &[Option<&str>]) -> Option<Vec<Option<String>>> {
    Some(v.iter().map(|o| o.map(|s| s.to_string())).collect())
}

fn works_page() -> WorksPage {
    WorksPage {
        title: Some("夏日重现".to_string()),
        cover: Some("https://img.example/c.jpg".to_string()),
        authors: names(&[Some("田中"), None, Some("佐藤")]),
        description: Some("  \n 一段简介\t ".to_string()),
        genres: names(&[Some("悬疑"), Some("热血")]),
        completed_link: false,
        ongoing_link: true,
    }
}

#[test]
fn works_page_fills_details() {
    let mut m = Manga::new("m:15031".to_string());
    m.title = "old".to_string();
    works_page().update_details(&mut m);
    assert_eq!(m.key, "m:15031");
    assert_eq!(m.title, "夏日重现");
    assert_eq!(m.cover.as_deref(), Some("https://img.example/c.jpg"));
    assert_eq!(m.authors, Some(vec!["田中, 佐藤".to_string()]));
    assert_eq!(m.description.as_deref(), Some("一段简介"));
    assert_eq!(m.tags, Some(vec!["悬疑".to_string(), "热血".to_string()]));
    assert_eq!(m.status, MangaStatus::Ongoing);
    assert_eq!(m.viewer, Viewer::Webtoon);
    assert!(m.url.is_none());
}

#[test]
fn works_page_keeps_title_and_reads_status() {
    let page = WorksPage {
        title: None,
        cover: None,
        authors: None,
        description: None,
        genres: None,
        completed_link: true,
        ongoing_link: true,
    };
    let mut m = Manga::new("k".to_string());
    m.title = "kept".to_string();
    page.update_details(&mut m);
    assert_eq!(m.title, "kept");
    assert!(m.cover.is_none());
    assert_eq!(m.authors, Some(vec!["".to_string()]));
    assert_eq!(m.description.as_deref(), Some(""));
    assert_eq!(m.tags, Some(vec![]));
    assert_eq!(m.status, MangaStatus::Completed);

    let page = WorksPage { completed_link: false, ongoing_link: false, ..page };
    page.update_details(&mut m);
    assert_eq!(m.status, MangaStatus::Unknown);
}

#[test]
fn manga_info_page_fills_details_and_url() {
    let page = MangaInfoPage {
        cover: Some("/c.png".to_string()),
        title: None,
        authors: names(&[Some("A")]),
        description: Some("text".to_string()),
        categories: names(&[None, Some("x")]),
    };
    let mut m = Manga::new("abc".to_string());
    m.title = "dropped".to_string();
    page.update_details(&mut m);
    assert_eq!(m.title, "");
    assert_eq!(m.cover.as_deref(), Some("/c.png"));
    assert_eq!(m.authors, Some(vec!["A".to_string()]));
    assert_eq!(m.tags, Some(vec!["x".to_string()]));
    assert_eq!(m.viewer, Viewer::Webtoon);
    assert_eq!(m.url.as_deref(), Some("https://m.hipmh.com/manga/abc"));
}

#[test]
fn update_manga_details_sets_works_url() {
    let mut m = Manga::new("m:23475".to_string());
    Hipmh::update_manga_details(&mut m, &works_page());
    assert_eq!(m.url.as_deref(), Some("https://m.hipmh.com/works/bToyMzQ3NQ"));
    assert_eq!(m.title, "夏日重现");
}
