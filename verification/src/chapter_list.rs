//! A manga's chapter list, which the API serves in pages of at most 50 chapters.
use vstd::prelude::*;
use crate::error::SourceError;
use crate::json::{field_of, objects, text_or_empty, text_or_empty_exec, Json};
use crate::text::{decimal, push_decimal, starts_with_str, strip_prefix_or_self};
use crate::BASE_URL;

verus! {

/// A chapter, with the fields this source fills in.
#[derive(Debug)]
pub struct Chapter {
    pub key: String,
    pub title: Option<String>,
    /// The bit pattern of the `f64` chapter number that the API gave (0, the
    /// bits of `0.0`, when it gave none); a number above zero is the chapter's number.
    pub number_bits: u64,
    pub url: Option<String>,
}

/// The mathematical model of a `Chapter`.
pub struct ChapterView {
    pub key: Seq<char>,
    pub title: Option<Seq<char>>,
    pub number_bits: u64,
    pub url: Option<Seq<char>>,
}

impl View for Chapter {
    type V = ChapterView;

    open spec fn view(&self) -> ChapterView {
        ChapterView {
            key: self.key@,
            title: match self.title {
                Some(t) => Some(t@),
                None => None,
            },
            number_bits: self.number_bits,
            url: match self.url {
                Some(u) => Some(u@),
                None => None,
            },
        }
    }
}

/// The models of a list of chapters.
pub open spec fn chapters_view(v: Seq<Chapter>) -> Seq<ChapterView> {
    v.map_values(|c: Chapter| c@)
}

/// The numeric id that the chapter API wants for a manga key `m:{numeric_id}`
/// (the key itself when it lacks the `m:` prefix).
pub open spec fn manga_id(key: Seq<char>) -> Seq<char> {
    strip_prefix_or_self(key, "m:"@)
}

/// The chapter API's URL for one page of a manga's chapters, newest first.
pub open spec fn chapters_url_spec(key: Seq<char>, page: nat) -> Seq<char> {
    "https://hipapi1.s3file.top/v1/manga/chapters?mid="@ + manga_id(key) + "&page="@ + decimal(
        page,
    ) + "&per_page=50&order=desc"@
}

/// The number of chapter pages that the first page names (`data.total_pages`,
/// at least 1; 1 when absent).
pub open spec fn total_pages_spec(first: Json) -> usize {
    match field_of(first.field("data"@), "total_pages"@) {
        Some(v) => match v.integer() {
            Some(n) => if n < 1 {
                1
            } else {
                n as usize
            },
            None => 1,
        },
        None => 1,
    }
}

/// The chapter that a chapter item describes, for the manga with numeric id `mid`.
pub open spec fn chapter_of(item: Json, mid: Seq<char>) -> ChapterView {
    let hid = text_or_empty(item.field("hid"@));
    ChapterView {
        key: hid,
        title: Some(text_or_empty(item.field("title"@))),
        number_bits: match item.field("chapter_number"@) {
            Some(v) => match v.number_bits() {
                Some(b) => b,
                None => 0,
            },
            None => 0,
        },
        url: Some(BASE_URL@ + "/chapter/go?hid="@ + hid + "&m="@ + mid),
    }
}

/// The chapters of one page of the chapter API's answer.
pub open spec fn page_chapters(json: Json, mid: Seq<char>) -> Result<Seq<ChapterView>, SourceError> {
    match json.field("data"@) {
        None => Err(SourceError::MissingData),
        Some(data) => match field_of(Some(data), "items"@) {
            Some(v) => match v.array_items() {
                Some(items) => Ok(objects(items).map_values(|item: Json| chapter_of(item, mid))),
                None => Err(SourceError::MissingItems),
            },
            None => Err(SourceError::MissingItems),
        },
    }
}

/// The chapters of all pages, in page order; the first bad page's error otherwise.
pub open spec fn all_chapters(pages: Seq<Json>, mid: Seq<char>) -> Result<
    Seq<ChapterView>,
    SourceError,
>
    decreases pages.len(),
{
    if pages.len() == 0 {
        Ok(Seq::empty())
    } else {
        match all_chapters(pages.drop_last(), mid) {
            Err(e) => Err(e),
            Ok(before) => match page_chapters(pages.last(), mid) {
                Err(e) => Err(e),
                Ok(cs) => Ok(before + cs),
            },
        }
    }
}

/// Once a prefix of the pages gives an error, every longer prefix gives it.
proof fn lemma_all_chapters_err_extends(pages: Seq<Json>, k: int, m: int, mid: Seq<char>, e: SourceError)
    requires
        0 <= k <= m <= pages.len(),
        all_chapters(pages.take(k), mid) == Err::<Seq<ChapterView>, SourceError>(e),
    ensures
        all_chapters(pages.take(m), mid) == Err::<Seq<ChapterView>, SourceError>(e),
    decreases m - k,
{
    if m > k {
        lemma_all_chapters_err_extends(pages, k, m - 1, mid, e);
        assert(pages.take(m).drop_last() =~= pages.take(m - 1));
    }
}

/// A bad page after good pages makes the whole answer give that page's error.
proof fn lemma_all_chapters_err(pages: Seq<Json>, p: int, mid: Seq<char>, e: SourceError)
    requires
        0 <= p < pages.len(),
        all_chapters(pages.take(p), mid) is Ok,
        page_chapters(pages[p], mid) == Err::<Seq<ChapterView>, SourceError>(e),
    ensures
        all_chapters(pages, mid) == Err::<Seq<ChapterView>, SourceError>(e),
{
    assert(pages.take(p + 1).drop_last() =~= pages.take(p));
    assert(pages.take(p + 1).last() == pages[p]);
    lemma_all_chapters_err_extends(pages, p + 1, pages.len() as int, mid, e);
    assert(pages.take(pages.len() as int) =~= pages);
}

/// The chapter that one chapter item describes.
fn chapter_of_exec(item: &Json, mid: &String) -> (c: Chapter)
    ensures
        c@ == chapter_of(*item, mid@),
{
    let hid = text_or_empty_exec(item.get("hid"));
    let title = text_or_empty_exec(item.get("title"));
    let number_bits = match item.get("chapter_number") {
        Some(v) => match v.as_f64_bits() {
            Some(b) => b,
            None => 0,
        },
        None => 0,
    };
    let mut url = String::from_str(BASE_URL);
    url.append("/chapter/go?hid=");
    url.append(hid.as_str());
    url.append("&m=");
    url.append(mid.as_str());
    Chapter { key: hid, title: Some(title), number_bits, url: Some(url) }
}

/// Appends the chapters of one page of the answer to `all`, or gives the page's error.
fn page_chapters_exec(json: &Json, mid: &String, all: &mut Vec<Chapter>) -> (r: Result<(), SourceError>)
    ensures
        match r {
            Ok(()) => page_chapters(*json, mid@) matches Ok(cs) && chapters_view(final(all)@)
                == chapters_view(old(all)@) + cs,
            Err(e) => page_chapters(*json, mid@) == Err::<Seq<ChapterView>, SourceError>(e),
        },
{
    let data = match json.get("data") {
        Some(d) => d,
        None => return Err(SourceError::MissingData),
    };
    let items = match data.get("items") {
        Some(v) => match v.as_array() {
            Some(a) => a,
            None => return Err(SourceError::MissingItems),
        },
        None => return Err(SourceError::MissingItems),
    };
    let ghost start = chapters_view(all@);
    let mut i: usize = 0;
    while i < items.len()
        invariant
            i <= items@.len(),
            chapters_view(all@) == start + objects(items@.take(i as int)).map_values(
                |item: Json| chapter_of(item, mid@),
            ),
        decreases items.len() - i,
    {
        assert(items@.take(i + 1).drop_last() =~= items@.take(i as int));
        if items[i].is_object_exec() {
            let c = chapter_of_exec(&items[i], mid);
            let ghost before = chapters_view(all@);
            all.push(c);
            assert(chapters_view(all@) =~= before.push(c@));
            assert(objects(items@.take(i + 1)).map_values(|item: Json| chapter_of(item, mid@))
                =~= objects(items@.take(i as int)).map_values(|item: Json| chapter_of(item, mid@)).push(c@));
        }
        i = i + 1;
    }
    assert(items@.take(items@.len() as int) =~= items@);
    Ok(())
}

/// Fetching a manga's chapters from `https://hipapi1.s3file.top/v1/manga/chapters`.
pub struct ChapterList;

/// How many pages remain to fetch after the first, when there are `n` in all.
pub open spec fn remaining_count(n: usize) -> int {
    if n >= 1 {
        n - 1
    } else {
        0
    }
}

impl ChapterList {
    /// The URLs of the chapter pages still to fetch once the first page has
    /// come back: pages 2 to `total_pages(first)`, in order (none when there
    /// is one page). The answers, with the first page's before them, are what
    /// `get_chapters` reads.
    pub fn remaining_page_urls(manga_key: &str, first: &Json) -> (urls: Vec<String>)
        ensures
            urls@.len() == remaining_count(total_pages_spec(*first)),
            forall|i: int|
                0 <= i < urls@.len() ==> (#[trigger] urls@[i])@ == chapters_url_spec(
                    manga_key@,
                    (i + 2) as nat,
                ),
    {
        let n = ChapterList::total_pages(first);
        let mut urls: Vec<String> = Vec::new();
        let mut i: usize = 1;
        while i < n
            invariant
                n == total_pages_spec(*first),
                1 <= i,
                i <= n || (n == 0 && i == 1),
                urls@.len() == i - 1,
                forall|j: int|
                    0 <= j < urls@.len() ==> (#[trigger] urls@[j])@ == chapters_url_spec(
                        manga_key@,
                        (j + 2) as nat,
                    ),
            decreases n - i,
        {
            urls.push(ChapterList::chapters_url(manga_key, i + 1));
            i = i + 1;
        }
        urls
    }

    /// The numeric id in a manga key `m:{numeric_id}`.
    pub fn manga_id(manga_key: &str) -> (mid: String)
        ensures
            mid@ == manga_id(manga_key@),
    {
        let v = crate::text::chars_of(manga_key);
        if starts_with_str(manga_key, "m:") {
            proof {
                reveal_strlit("m:");
            }
            let r = crate::text::string_of_range(&v, 2, v.len());
            assert(r@ =~= manga_key@.skip(2));
            r
        } else {
            String::from_str(manga_key)
        }
    }

    /// The URL of one page of a manga's chapters. The API caps `per_page` at
    /// 50; `order=desc` lists the newest chapters first.
    pub fn chapters_url(manga_key: &str, page: usize) -> (url: String)
        ensures
            url@ == chapters_url_spec(manga_key@, page as nat),
    {
        let mid = ChapterList::manga_id(manga_key);
        let mut url = String::from_str("https://hipapi1.s3file.top/v1/manga/chapters?mid=");
        url.append(mid.as_str());
        url.append("&page=");
        push_decimal(&mut url, page as u64);
        url.append("&per_page=50&order=desc");
        url
    }

    /// The number of chapter pages, from the first page's `data.total_pages`
    /// (at least 1; 1 when absent).
    pub fn total_pages(first: &Json) -> (n: usize)
        ensures
            n == total_pages_spec(*first),
    {
        let value = match first.get("data") {
            Some(d) => d.get("total_pages"),
            None => None,
        };
        let n = match value {
            Some(v) => match v.as_i64() {
                Some(n) => if n < 1 {
                    1
                } else {
                    n as usize
                },
                None => 1,
            },
            None => 1,
        };
        n
    }

    /// The chapters that the pages of the chapter API's answer list, in page
    /// order and, within a page, in item order (so the newest-first order of
    /// `order=desc` is kept). Items that are not objects are skipped.
    pub fn get_chapters(manga_key: &str, pages: &Vec<Json>) -> (r: Result<Vec<Chapter>, SourceError>)
        ensures
            match r {
                Ok(cs) => all_chapters(pages@, manga_id(manga_key@)) == Ok::<
                    Seq<ChapterView>,
                    SourceError,
                >(chapters_view(cs@)),
                Err(e) => all_chapters(pages@, manga_id(manga_key@)) == Err::<
                    Seq<ChapterView>,
                    SourceError,
                >(e),
            },
    {
        let mid = ChapterList::manga_id(manga_key);
        let mut all: Vec<Chapter> = Vec::new();
        let mut p: usize = 0;
        assert(pages@.take(0) =~= Seq::<Json>::empty());
        assert(chapters_view(all@) =~= Seq::<ChapterView>::empty());
        while p < pages.len()
            invariant
                p <= pages@.len(),
                mid@ == manga_id(manga_key@),
                all_chapters(pages@.take(p as int), mid@) == Ok::<Seq<ChapterView>, SourceError>(
                    chapters_view(all@),
                ),
            decreases pages.len() - p,
        {
            assert(pages@.take(p + 1).drop_last() =~= pages@.take(p as int));
            assert(pages@.take(p + 1).last() == pages@[p as int]);
            match page_chapters_exec(&pages[p], &mid, &mut all) {
                Ok(()) => {},
                Err(e) => {
                    proof {
                        lemma_all_chapters_err(pages@, p as int, mid@, e);
                    }
                    return Err(e);
                },
            }
            p = p + 1;
        }
        assert(pages@.take(pages@.len() as int) =~= pages@);
        Ok(all)
    }
}

} // verus!
