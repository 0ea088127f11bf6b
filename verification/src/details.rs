//! Manga details read from the site's detail pages.
//!
//! The pages are HTML that the host application queries; a page here holds
//! what those queries gave, and the logic fills a manga's details from it.
use vstd::prelude::*;
use crate::catalog::{Manga, MangaStatus, MangaView, Viewer};
use crate::codec::unpadded_encode;
use crate::text::{join, join_str, keep_strings, opt_text, present_texts, trim_str, trim_ws};
use crate::{Hipmh, BASE_URL};

verus! {

/// The views of a list of optional strings.
pub open spec fn opt_texts(v: Seq<Option<String>>) -> Seq<Option<Seq<char>>> {
    v.map_values(|o: Option<String>| opt_text(o))
}

/// The texts of the selected elements that have text; none when the selection failed.
pub open spec fn names(o: Option<Vec<Option<String>>>) -> Seq<Seq<char>> {
    match o {
        Some(v) => keep_strings(opt_texts(v@)),
        None => Seq::empty(),
    }
}

/// The names joined with `", "`.
pub open spec fn joined_names(o: Option<Vec<Option<String>>>) -> Seq<char> {
    join(names(o), ", "@)
}

/// A text without surrounding white space; empty when absent.
pub open spec fn trimmed_text(o: Option<String>) -> Seq<char> {
    match o {
        Some(t) => trim_ws(t@),
        None => Seq::empty(),
    }
}

/// A manga page that fills in a manga's details.
pub trait MangaPage {
    /// The manga that `update_details` makes of `before`.
    spec fn details(&self, before: MangaView) -> MangaView;

    /// Fills in the manga's details from this page.
    fn update_details(&self, manga: &mut Manga)
        ensures
            final(manga)@ == self.details(old(manga)@),
    ;
}

/// What the queries on a `/works/{base64_id}` detail page gave. The container
/// carries `data-manga-title` and `data-cover-url`; the description sits in
/// `#d-info-content p`; authors and tags are links; the status is a link to
/// `/completed` (完結) or `/ongoing` (連載中).
#[derive(Debug)]
pub struct WorksPage {
    /// The `data-manga-title` attribute of the first `[data-manga-title]`.
    pub title: Option<String>,
    /// The `data-cover-url` attribute of the first `[data-cover-url]`.
    pub cover: Option<String>,
    /// The texts of the `a[href^='/author/']` links (`None` if the selection failed).
    pub authors: Option<Vec<Option<String>>>,
    /// The text of the first `#d-info-content p`.
    pub description: Option<String>,
    /// The texts of the `a[href^='/genre/']` links (`None` if the selection failed).
    pub genres: Option<Vec<Option<String>>>,
    /// Whether the page has an `a[href='/completed']`.
    pub completed_link: bool,
    /// Whether the page has an `a[href='/ongoing']`.
    pub ongoing_link: bool,
}

/// What the queries on a `/manga/{key}` page gave.
#[derive(Debug)]
pub struct MangaInfoPage {
    /// The `src` of the first `.mg-cover>mip-img`.
    pub cover: Option<String>,
    /// The text of the first `h2.mg-title`.
    pub title: Option<String>,
    /// The texts of the `.mg-sub-title>a` links (`None` if the selection failed).
    pub authors: Option<Vec<Option<String>>>,
    /// The text of `#showmore`.
    pub description: Option<String>,
    /// The texts of the `.mg-cate>a` links (`None` if the selection failed).
    pub categories: Option<Vec<Option<String>>>,
}

/// The texts among `o`'s items, or none.
fn names_exec(o: &Option<Vec<Option<String>>>) -> (r: Vec<String>)
    ensures
        r@.map_values(|p: String| p@) == names(*o),
{
    match o {
        Some(v) => present_texts(v),
        None => {
            let r: Vec<String> = Vec::new();
            assert(r@.map_values(|p: String| p@) =~= Seq::<Seq<char>>::empty());
            r
        },
    }
}

/// A text without surrounding white space; empty when absent.
fn trimmed_text_exec(o: &Option<String>) -> (r: String)
    ensures
        r@ == trimmed_text(*o),
{
    match o {
        Some(t) => trim_str(t.as_str()),
        None => String::new(),
    }
}

/// A single-author list: the joined author names.
fn author_list(o: &Option<Vec<Option<String>>>) -> (r: Vec<String>)
    ensures
        r@.map_values(|p: String| p@) == seq![joined_names(*o)],
{
    let names = names_exec(o);
    let author = join_str(&names, ", ");
    let mut r: Vec<String> = Vec::new();
    r.push(author);
    assert(r@.map_values(|p: String| p@) =~= seq![joined_names(*o)]);
    r
}

/// The status that the status links show.
pub open spec fn works_status(completed_link: bool, ongoing_link: bool) -> MangaStatus {
    if completed_link {
        MangaStatus::Completed
    } else if ongoing_link {
        MangaStatus::Ongoing
    } else {
        MangaStatus::Unknown
    }
}

impl MangaPage for WorksPage {
    /// The title from `data-manga-title` (the manga's own title when absent),
    /// the cover, the authors joined with `", "` as one author, the trimmed
    /// description, the genres as tags, the status from the status links, and
    /// the webtoon viewer; the key and URL are kept.
    open spec fn details(&self, m: MangaView) -> MangaView {
        MangaView {
            title: match self.title {
                Some(t) => t@,
                None => m.title,
            },
            cover: opt_text(self.cover),
            authors: Some(seq![joined_names(self.authors)]),
            description: Some(trimmed_text(self.description)),
            tags: Some(names(self.genres)),
            status: works_status(self.completed_link, self.ongoing_link),
            viewer: Viewer::Webtoon,
            ..m
        }
    }

    fn update_details(&self, manga: &mut Manga)
        ensures
            self.completed_link ==> final(manga).status == MangaStatus::Completed,
            !self.completed_link && self.ongoing_link ==> final(manga).status
                == MangaStatus::Ongoing,
            !self.completed_link && !self.ongoing_link ==> final(manga).status
                == MangaStatus::Unknown,
            self.title matches Some(t) ==> final(manga).title@ == t@,
            self.title is None ==> final(manga).title@ == old(manga).title@,
            final(manga).key@ == old(manga).key@,
            final(manga).url == old(manga).url,
            final(manga).viewer == Viewer::Webtoon,
    {
        match &self.title {
            Some(t) => {
                manga.title = t.clone();
            },
            None => {},
        }
        manga.cover = match &self.cover {
            Some(c) => Some(c.clone()),
            None => None,
        };
        manga.authors = Some(author_list(&self.authors));
        manga.description = Some(trimmed_text_exec(&self.description));
        manga.tags = Some(names_exec(&self.genres));
        manga.status = if self.completed_link {
            MangaStatus::Completed
        } else if self.ongoing_link {
            MangaStatus::Ongoing
        } else {
            MangaStatus::Unknown
        };
        manga.viewer = Viewer::Webtoon;
    }
}

/// The address of a manga's `/manga/{key}` page.
pub open spec fn manga_page_url(key: Seq<char>) -> Seq<char> {
    BASE_URL@ + "/manga/"@ + key
}

impl MangaPage for MangaInfoPage {
    /// The cover, the title (empty when absent), the authors joined with `", "`
    /// as one author, the trimmed description, the categories as tags, the
    /// webtoon viewer, and the page's address as the URL; key and status are kept.
    open spec fn details(&self, m: MangaView) -> MangaView {
        MangaView {
            cover: opt_text(self.cover),
            title: match self.title {
                Some(t) => t@,
                None => Seq::empty(),
            },
            authors: Some(seq![joined_names(self.authors)]),
            description: Some(trimmed_text(self.description)),
            tags: Some(names(self.categories)),
            viewer: Viewer::Webtoon,
            url: Some(manga_page_url(m.key)),
            ..m
        }
    }

    fn update_details(&self, manga: &mut Manga)
        ensures
            self.title matches Some(t) ==> final(manga).title@ == t@,
            self.title is None ==> final(manga).title@ == Seq::<char>::empty(),
            final(manga).key@ == old(manga).key@,
            final(manga).status == old(manga).status,
            final(manga).viewer == Viewer::Webtoon,
            final(manga).url matches Some(u) && u@ == BASE_URL@ + "/manga/"@ + old(manga).key@,
    {
        let mut url = String::from_str(BASE_URL);
        url.append("/manga/");
        url.append(manga.key.as_str());
        manga.cover = match &self.cover {
            Some(c) => Some(c.clone()),
            None => None,
        };
        manga.title = match &self.title {
            Some(t) => t.clone(),
            None => String::new(),
        };
        manga.authors = Some(author_list(&self.authors));
        manga.description = Some(trimmed_text_exec(&self.description));
        manga.tags = Some(names_exec(&self.categories));
        manga.viewer = Viewer::Webtoon;
        manga.url = Some(url);
    }
}

/// What a `/works/` page does to a manga: a page that links to `/completed`
/// marks it completed; one that links only to `/ongoing` marks it ongoing; one
/// with neither leaves the status unknown. The page's title replaces the
/// manga's when the page has one; the key and URL stay; the viewer is webtoon.
pub proof fn lemma_works_page_details(page: WorksPage, m: MangaView)
    ensures
        page.completed_link ==> page.details(m).status == MangaStatus::Completed,
        !page.completed_link && page.ongoing_link ==> page.details(m).status
            == MangaStatus::Ongoing,
        !page.completed_link && !page.ongoing_link ==> page.details(m).status
            == MangaStatus::Unknown,
        page.title matches Some(t) ==> page.details(m).title == t@,
        page.title is None ==> page.details(m).title == m.title,
        page.details(m).key == m.key,
        page.details(m).url == m.url,
        page.details(m).viewer == Viewer::Webtoon,
{
}

/// What a `/manga/` page does to a manga: its `h2.mg-title` text becomes the
/// title (empty when the page has none); the key and status stay; the viewer is
/// webtoon; the URL is the page's address `/manga/{key}`.
pub proof fn lemma_manga_info_details(page: MangaInfoPage, m: MangaView)
    ensures
        page.title matches Some(t) ==> page.details(m).title == t@,
        page.title is None ==> page.details(m).title == Seq::<char>::empty(),
        page.details(m).key == m.key,
        page.details(m).status == m.status,
        page.details(m).viewer == Viewer::Webtoon,
        page.details(m).url == Some(BASE_URL@ + "/manga/"@ + m.key),
{
}

/// The address of a manga's `/works/` detail page.
pub open spec fn works_url_spec(key: Seq<char>) -> Seq<char> {
    BASE_URL@ + "/works/"@ + unpadded_encode(key)
}

impl Hipmh {
    /// Fills in a manga's details from its `/works/` page, and sets its URL to
    /// that page's address.
    pub fn update_manga_details(manga: &mut Manga, page: &WorksPage)
        ensures
            final(manga)@ == (MangaView {
                url: Some(works_url_spec(old(manga)@.key)),
                ..page.details(old(manga)@)
            }),
            page.completed_link ==> final(manga).status == MangaStatus::Completed,
            !page.completed_link && page.ongoing_link ==> final(manga).status
                == MangaStatus::Ongoing,
            !page.completed_link && !page.ongoing_link ==> final(manga).status
                == MangaStatus::Unknown,
            page.title matches Some(t) ==> final(manga).title@ == t@,
            final(manga).key@ == old(manga).key@,
            final(manga).url matches Some(u) && u@ == BASE_URL@ + "/works/"@ + unpadded_encode(
                old(manga).key@,
            ),
    {
        let url = Hipmh::works_url(manga.key.as_str());
        page.update_details(manga);
        manga.url = Some(url);
    }
}

} // verus!
