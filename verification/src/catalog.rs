//! Manga records, catalogue and search requests, and the reading of the
//! catalogue and search responses.
use vstd::prelude::*;
use crate::codec::{slug_key, works_slug_to_key};
use crate::error::SourceError;
use crate::json::{first_present, objects, text_or_empty, text_or_empty_exec, Json};
use crate::text::{
    all_white_space, decimal_int, opt_text, is_blank, push_decimal_i64, starts_with, starts_with_str,
};
use crate::API_URL;

verus! {

// ---------------------------------------------------------------------------
// Manga records
// ---------------------------------------------------------------------------

/// Publication status of a manga.
#[derive(Debug, Clone, Copy, PartialEq, Eq, Structural)]
pub enum MangaStatus {
    Unknown,
    Ongoing,
    Completed,
}

/// How a manga is best read.
#[derive(Debug, Clone, Copy, PartialEq, Eq, Structural)]
pub enum Viewer {
    Unknown,
    Webtoon,
}

/// A manga, with the fields this source fills in.
#[derive(Debug)]
pub struct Manga {
    pub key: String,
    pub title: String,
    pub cover: Option<String>,
    pub authors: Option<Vec<String>>,
    pub description: Option<String>,
    pub tags: Option<Vec<String>>,
    pub status: MangaStatus,
    pub viewer: Viewer,
    pub url: Option<String>,
}

/// The mathematical model of a `Manga`.
pub struct MangaView {
    pub key: Seq<char>,
    pub title: Seq<char>,
    pub cover: Option<Seq<char>>,
    pub authors: Option<Seq<Seq<char>>>,
    pub description: Option<Seq<char>>,
    pub tags: Option<Seq<Seq<char>>>,
    pub status: MangaStatus,
    pub viewer: Viewer,
    pub url: Option<Seq<char>>,
}

/// The texts of a list of strings.
pub open spec fn strings_view(v: Seq<String>) -> Seq<Seq<char>> {
    v.map_values(|s: String| s@)
}

/// The view of an optional list of strings.
pub open spec fn opt_strings_view(o: Option<Vec<String>>) -> Option<Seq<Seq<char>>> {
    match o {
        Some(v) => Some(strings_view(v@)),
        None => None,
    }
}

impl View for Manga {
    type V = MangaView;

    open spec fn view(&self) -> MangaView {
        MangaView {
            key: self.key@,
            title: self.title@,
            cover: opt_text(self.cover),
            authors: opt_strings_view(self.authors),
            description: opt_text(self.description),
            tags: opt_strings_view(self.tags),
            status: self.status,
            viewer: self.viewer,
            url: opt_text(self.url),
        }
    }
}

/// A manga with only its key, and every other field empty or unknown.
pub open spec fn bare_manga(key: Seq<char>) -> MangaView {
    MangaView {
        key,
        title: Seq::empty(),
        cover: None,
        authors: None,
        description: None,
        tags: None,
        status: MangaStatus::Unknown,
        viewer: Viewer::Unknown,
        url: None,
    }
}

impl Manga {
    /// A manga with the given key; every other field is empty or unknown.
    pub fn new(key: String) -> (m: Manga)
        ensures
            m@ == bare_manga(key@),
    {
        Manga {
            key,
            title: String::new(),
            cover: None,
            authors: None,
            description: None,
            tags: None,
            status: MangaStatus::Unknown,
            viewer: Viewer::Unknown,
            url: None,
        }
    }
}

/// One page of a catalogue or search listing.
#[derive(Debug)]
pub struct MangaPageResult {
    pub entries: Vec<Manga>,
    pub has_next_page: bool,
}

/// The manga models of a list of manga.
pub open spec fn mangas_view(v: Seq<Manga>) -> Seq<MangaView> {
    v.map_values(|m: Manga| m@)
}

// ---------------------------------------------------------------------------
// Reading a catalogue or search response
// ---------------------------------------------------------------------------

/// A cover path made absolute: kept when it starts with `http`, else put behind the cover host.
pub open spec fn cover_url(u: Seq<char>) -> Seq<char> {
    if starts_with(u, "http"@) {
        u
    } else {
        "https://cover.s3imgs.top"@ + u
    }
}

/// The manga that a listing item describes: its key from the `mid` (listings)
/// or `id` (search) slug, its title, and its cover from `vertical_image_url`
/// or `cover_image_url`.
pub open spec fn listed_manga(item: Json) -> MangaView {
    let mid = text_or_empty(first_present(item.field("mid"@), item.field("id"@)));
    let title = text_or_empty(item.field("title"@));
    let cover = match first_present(
        item.field("vertical_image_url"@),
        item.field("cover_image_url"@),
    ) {
        Some(v) => match v.text() {
            Some(u) => cover_url(u),
            None => Seq::empty(),
        },
        None => Seq::empty(),
    };
    MangaView { title, cover: Some(cover), ..bare_manga(slug_key(mid)) }
}

/// What a listing item gives: the key comes from the `mid` slug when the item
/// has a `mid` member, and from the `id` slug only when it has none; the title
/// is the `title` text; the cover is the `vertical_image_url` text made
/// absolute when the item has that member, else the `cover_image_url` one.
pub proof fn lemma_listed_manga(item: Json)
    ensures
        item.field("mid"@) matches Some(v) ==> listed_manga(item).key == slug_key(
            text_or_empty(Some(v)),
        ),
        item.field("mid"@) is None ==> listed_manga(item).key == slug_key(
            text_or_empty(item.field("id"@)),
        ),
        listed_manga(item).title == text_or_empty(item.field("title"@)),
        item.field("vertical_image_url"@) matches Some(v) ==> listed_manga(item).cover == Some(
            match v.text() {
                Some(u) => cover_url(u),
                None => Seq::<char>::empty(),
            },
        ),
        item.field("vertical_image_url"@) is None ==> listed_manga(item).cover == Some(
            match item.field("cover_image_url"@) {
                Some(v) => match v.text() {
                    Some(u) => cover_url(u),
                    None => Seq::<char>::empty(),
                },
                None => Seq::<char>::empty(),
            },
        ),
{
}

/// The items of a response's `data`: `data.items` (listings) or, when that is
/// absent, `data.data` (search); it must be an array.
pub open spec fn listing_items(data: Json) -> Option<Seq<Json>> {
    match first_present(data.field("items"@), data.field("data"@)) {
        Some(v) => v.array_items(),
        None => None,
    }
}

/// The page count that a response's `data` names (`total_pages`), 1 when absent.
pub open spec fn total_pages_of(data: Json) -> i64 {
    match data.field("total_pages"@) {
        Some(v) => match v.integer() {
            Some(n) => n,
            None => 1,
        },
        None => 1,
    }
}

/// What `parse_manga_list` gives for a response and the requested page.
pub open spec fn manga_list_spec(json: Json, page: i32) -> Result<
    (Seq<MangaView>, bool),
    SourceError,
> {
    match json.field("data"@) {
        None => Err(SourceError::MissingData),
        Some(data) => match listing_items(data) {
            None => Err(SourceError::MissingItems),
            Some(items) => Ok(
                (
                    objects(items).map_values(|item: Json| listed_manga(item)),
                    page < (total_pages_of(data) as i32),
                ),
            ),
        },
    }
}

/// The absolute cover URL for a cover path.
fn cover_url_exec(u: &str) -> (r: String)
    ensures
        r@ == cover_url(u@),
{
    if starts_with_str(u, "http") {
        String::from_str(u)
    } else {
        let mut r = String::from_str("https://cover.s3imgs.top");
        r.append(u);
        r
    }
}

/// The manga that one listing item describes.
fn listed_manga_exec(item: &Json) -> (m: Manga)
    ensures
        m@ == listed_manga(*item),
        item.field("mid"@) matches Some(v) ==> m.key@ == slug_key(text_or_empty(Some(v))),
        item.field("mid"@) is None ==> m.key@ == slug_key(text_or_empty(item.field("id"@))),
        m.title@ == text_or_empty(item.field("title"@)),
{
    let mid_value = match item.get("mid") {
        Some(v) => Some(v),
        None => item.get("id"),
    };
    let mid = text_or_empty_exec(mid_value);
    let title = text_or_empty_exec(item.get("title"));
    let cover_value = match item.get("vertical_image_url") {
        Some(v) => Some(v),
        None => item.get("cover_image_url"),
    };
    let cover = match cover_value {
        Some(v) => match v.as_str() {
            Some(u) => cover_url_exec(u.as_str()),
            None => String::new(),
        },
        None => String::new(),
    };
    let mut m = Manga::new(works_slug_to_key(mid.as_str()));
    m.title = title;
    m.cover = Some(cover);
    proof {
        lemma_listed_manga(*item);
    }
    m
}

/// Parses a `/v1/mangas` or `/v1/search` response into one page of listing.
/// Handles both `data.items` (listings) and `data.data` (search) item arrays,
/// and both `mid` (listings) and `id` (search) item keys; items that are not
/// objects are skipped. There is a next page when `page` is below the
/// response's `total_pages` (1 when absent).
pub fn parse_manga_list(json: &Json, page: i32) -> (r: Result<MangaPageResult, SourceError>)
    ensures
        match r {
            Ok(res) => manga_list_spec(*json, page) == Ok::<(Seq<MangaView>, bool), SourceError>(
                (mangas_view(res.entries@), res.has_next_page),
            ),
            Err(e) => manga_list_spec(*json, page) == Err::<(Seq<MangaView>, bool), SourceError>(e),
        },
        r matches Ok(res) ==> json.field("data"@) matches Some(data) && listing_items(data) matches Some(
            items,
        ) && res.entries@.len() == objects(items).len() && forall|i: int|
            0 <= i < res.entries@.len() ==> {
                let item = #[trigger] objects(items)[i];
                &&& item.field("mid"@) matches Some(v) ==> res.entries@[i].key@ == slug_key(
                    text_or_empty(Some(v)),
                )
                &&& item.field("mid"@) is None ==> res.entries@[i].key@ == slug_key(
                    text_or_empty(item.field("id"@)),
                )
                &&& res.entries@[i].title@ == text_or_empty(item.field("title"@))
            },
        r matches Ok(res) ==> json.field("data"@) matches Some(data) && (res.has_next_page <==> page
            < (total_pages_of(data) as i32)),
{
    let data = match json.get("data") {
        Some(d) => d,
        None => return Err(SourceError::MissingData),
    };
    let items_value = match data.get("items") {
        Some(v) => Some(v),
        None => data.get("data"),
    };
    let items = match items_value {
        Some(v) => match v.as_array() {
            Some(a) => a,
            None => return Err(SourceError::MissingItems),
        },
        None => return Err(SourceError::MissingItems),
    };
    let total_pages: i64 = match data.get("total_pages") {
        Some(v) => match v.as_i64() {
            Some(n) => n,
            None => 1,
        },
        None => 1,
    };
    let mut mangas: Vec<Manga> = Vec::new();
    let mut i: usize = 0;
    while i < items.len()
        invariant
            i <= items@.len(),
            mangas_view(mangas@) == objects(items@.take(i as int)).map_values(
                |item: Json| listed_manga(item),
            ),
        decreases items.len() - i,
    {
        assert(items@.take(i + 1).drop_last() =~= items@.take(i as int));
        if items[i].is_object_exec() {
            let m = listed_manga_exec(&items[i]);
            let ghost before = mangas_view(mangas@);
            mangas.push(m);
            assert(mangas_view(mangas@) =~= before.push(m@));
        }
        i = i + 1;
    }
    assert(items@.take(items@.len() as int) =~= items@);
    proof {
        let objs = objects(items@);
        assert forall|i: int| 0 <= i < mangas@.len() implies ({
            let item = #[trigger] objs[i];
            &&& item.field("mid"@) matches Some(v) ==> mangas@[i].key@ == slug_key(
                text_or_empty(Some(v)),
            )
            &&& item.field("mid"@) is None ==> mangas@[i].key@ == slug_key(
                text_or_empty(item.field("id"@)),
            )
            &&& mangas@[i].title@ == text_or_empty(item.field("title"@))
        }) by {
            assert(mangas_view(mangas@)[i] == listed_manga(objs[i]));
            lemma_listed_manga(objs[i]);
        }
    }
    let total32 = total_pages as i32;
    Ok(MangaPageResult { entries: mangas, has_next_page: page < total32 })
}

// ---------------------------------------------------------------------------
// Filters and request URLs
// ---------------------------------------------------------------------------

/// A filter setting that the user chose, as the source reads it.
#[derive(Debug)]
pub enum FilterValue {
    /// A text filter.
    Text { id: String, value: String },
    /// A single-choice filter.
    Select { id: String, value: String },
    /// Any other kind of filter, which this source ignores.
    Other,
}

/// The id of the status (状态) select filter.
pub const STATUS_FILTER: &'static str = "状态";

/// The `&status=` parameter that a filter adds to the browse URL: the status
/// select's `0` is `ongoing` and `1` is `completed`; every other filter adds nothing.
pub open spec fn status_param(f: FilterValue) -> Seq<char> {
    match f {
        FilterValue::Select { id, value } => if id@ == STATUS_FILTER@ {
            if value@ == "0"@ {
                "&status=ongoing"@
            } else if value@ == "1"@ {
                "&status=completed"@
            } else {
                Seq::empty()
            }
        } else {
            Seq::empty()
        },
        _ => Seq::empty(),
    }
}

/// The parameters that the filters add, in order.
pub open spec fn status_params(fs: Seq<FilterValue>) -> Seq<char>
    decreases fs.len(),
{
    if fs.len() == 0 {
        Seq::empty()
    } else {
        status_params(fs.drop_last()) + status_param(fs.last())
    }
}

/// The browse URL for a page and the chosen filters.
pub open spec fn filter_url(page: i32, fs: Seq<FilterValue>) -> Seq<char> {
    API_URL@ + "?page="@ + decimal_int(page as int) + "&per_page=18"@ + status_params(fs)
}

/// Whether `s` is the text `t`.
fn same_text(s: &String, t: &str) -> (b: bool)
    ensures
        b == (s@ == t@),
{
    s.eq(&String::from_str(t))
}

/// Builds a `/v1/mangas` browse URL from the Chinese filter selects. Only the
/// 状态 (status) select maps directly (`status=ongoing|completed`); the other
/// filters need numeric ids that the API does not expose, so they are skipped.
pub fn build_mangas_filter_url(page: i32, filters: &Vec<FilterValue>) -> (url: String)
    ensures
        url@ == filter_url(page, filters@),
{
    let mut url = String::from_str(API_URL);
    url.append("?page=");
    push_decimal_i64(&mut url, page as i64);
    url.append("&per_page=18");
    let ghost head = url@;
    let mut i: usize = 0;
    while i < filters.len()
        invariant
            i <= filters@.len(),
            url@ == head + status_params(filters@.take(i as int)),
        decreases filters.len() - i,
    {
        assert(filters@.take(i + 1).drop_last() =~= filters@.take(i as int));
        let ghost before = url@;
        match &filters[i] {
            FilterValue::Select { id, value } => {
                if same_text(id, STATUS_FILTER) {
                    if same_text(value, "0") {
                        url.append("&status=ongoing");
                    } else if same_text(value, "1") {
                        url.append("&status=completed");
                    }
                }
            },
            _ => {},
        }
        assert(url@ =~= before + status_param(filters@[i as int]));
        i = i + 1;
    }
    assert(filters@.take(filters@.len() as int) =~= filters@);
    url
}

/// The query part that selects a listing, or `None` for a listing this source lacks.
pub open spec fn listing_query(id: Seq<char>) -> Option<Seq<char>> {
    if id == "popularity"@ {
        Some("sort=popular"@)
    } else if id == "weekly"@ {
        Some("sort=weekly"@)
    } else if id == "newReleases"@ {
        Some("sort=latest"@)
    } else if id == "completed"@ {
        Some("status=completed&sort=popular"@)
    } else if id == "ongoing"@ {
        Some("status=ongoing&sort=popular"@)
    } else {
        None
    }
}

/// The catalogue URL for a listing and a page:
/// `{API_URL}?{query}&page={page}&per_page=18`; an unknown listing is refused.
pub fn listing_url(id: &str, page: i32) -> (r: Result<String, SourceError>)
    ensures
        match r {
            Ok(u) => listing_query(id@) matches Some(q) && u@ == API_URL@ + "?"@ + q + "&page="@
                + decimal_int(page as int) + "&per_page=18"@,
            Err(e) => listing_query(id@) is None && e == SourceError::InvalidListing,
        },
{
    let key = String::from_str(id);
    let query = if same_text(&key, "popularity") {
        "sort=popular"
    } else if same_text(&key, "weekly") {
        "sort=weekly"
    } else if same_text(&key, "newReleases") {
        "sort=latest"
    } else if same_text(&key, "completed") {
        "status=completed&sort=popular"
    } else if same_text(&key, "ongoing") {
        "status=ongoing&sort=popular"
    } else {
        return Err(SourceError::InvalidListing);
    };
    let mut url = String::from_str(API_URL);
    url.append("?");
    url.append(query);
    url.append("&page=");
    push_decimal_i64(&mut url, page as i64);
    url.append("&per_page=18");
    Ok(url)
}

/// The value of the first text filter with a non-empty value.
pub open spec fn first_text(fs: Seq<FilterValue>) -> Option<Seq<char>>
    decreases fs.len(),
{
    if fs.len() == 0 {
        None
    } else {
        match fs[0] {
            FilterValue::Text { id, value } => if value@.len() > 0 {
                Some(value@)
            } else {
                first_text(fs.drop_first())
            },
            _ => first_text(fs.drop_first()),
        }
    }
}

/// `first_text` picks the leftmost text filter with a non-empty value: it gives
/// `v` exactly when some filter `i` is a text filter with the non-empty value
/// `v` and no filter before `i` is a text filter with a non-empty value; it
/// gives none exactly when no filter is a text filter with a non-empty value.
pub proof fn lemma_first_text(fs: Seq<FilterValue>)
    ensures
        match first_text(fs) {
            Some(v) => exists|i: int|
                0 <= i < fs.len() && (#[trigger] fs[i] matches FilterValue::Text { id, value }
                    && value@ == v && v.len() > 0) && forall|j: int|
                    0 <= j < i ==> !(#[trigger] fs[j] matches FilterValue::Text { id, value } && value@.len()
                        > 0),
            None => forall|i: int|
                0 <= i < fs.len() ==> !(#[trigger] fs[i] matches FilterValue::Text { id, value }
                    && value@.len() > 0),
        },
    decreases fs.len(),
{
    if fs.len() > 0 {
        let rest = fs.drop_first();
        lemma_first_text(rest);
        assert forall|j: int| 1 <= j < fs.len() implies fs[j] == rest[j - 1] by {}
        match fs[0] {
            FilterValue::Text { id, value } => {
                if value@.len() > 0 {
                    assert(fs[0] matches FilterValue::Text { id, value } && value@ == value@);
                } else {
                    match first_text(rest) {
                        Some(v) => {
                            let i = choose|i: int|
                                0 <= i < rest.len() && (#[trigger] rest[i] matches FilterValue::Text {
                                    id,
                                    value,
                                } && value@ == v && v.len() > 0) && forall|j: int|
                                    0 <= j < i ==> !(#[trigger] rest[j] matches FilterValue::Text {
                                        id,
                                        value,
                                    } && value@.len() > 0);
                            assert(fs[i + 1] == rest[i]);
                        },
                        None => {},
                    }
                }
            },
            _ => {
                match first_text(rest) {
                    Some(v) => {
                        let i = choose|i: int|
                            0 <= i < rest.len() && (#[trigger] rest[i] matches FilterValue::Text {
                                id,
                                value,
                            } && value@ == v && v.len() > 0) && forall|j: int|
                                0 <= j < i ==> !(#[trigger] rest[j] matches FilterValue::Text { id, value }
                                    && value@.len() > 0);
                        assert(fs[i + 1] == rest[i]);
                    },
                    None => {},
                }
            },
        }
    }
}

/// The search text: a non-empty text filter wins over the query; a text that is
/// only white space is no search.
pub open spec fn search_query(query: Option<Seq<char>>, fs: Seq<FilterValue>) -> Option<Seq<char>> {
    let q = match first_text(fs) {
        Some(t) => Some(t),
        None => query,
    };
    match q {
        Some(s) => if all_white_space(s) {
            None
        } else {
            Some(s)
        },
        None => None,
    }
}

/// The value of the first text filter with a non-empty value.
fn first_text_exec(filters: &Vec<FilterValue>) -> (r: Option<String>)
    ensures
        opt_text(r) == first_text(filters@),
        match r {
            Some(v) => exists|i: int|
                0 <= i < filters@.len() && (#[trigger] filters@[i] matches FilterValue::Text {
                    id,
                    value,
                } && value@ == v@ && v@.len() > 0) && forall|j: int|
                    0 <= j < i ==> !(#[trigger] filters@[j] matches FilterValue::Text { id, value }
                        && value@.len() > 0),
            None => forall|i: int|
                0 <= i < filters@.len() ==> !(#[trigger] filters@[i] matches FilterValue::Text {
                    id,
                    value,
                } && value@.len() > 0),
        },
{
    proof {
        lemma_first_text(filters@);
    }
    let mut i: usize = 0;
    assert(filters@.skip(0) =~= filters@);
    while i < filters.len()
        invariant
            i <= filters@.len(),
            first_text(filters@) == first_text(filters@.skip(i as int)),
        decreases filters.len() - i,
    {
        assert(filters@.skip(i as int).drop_first() =~= filters@.skip(i + 1));
        assert(filters@.skip(i as int)[0] == filters@[i as int]);
        match &filters[i] {
            FilterValue::Text { id, value } => {
                if !value.as_str().is_empty() {
                    proof {
                        lemma_first_text(filters@);
                    }
                    return Some(value.clone());
                }
            },
            _ => {},
        }
        i = i + 1;
    }
    None
}

/// What a search asks for: a text search, or browsing the catalogue at a URL.
#[derive(Debug)]
pub enum SearchRequest {
    /// Search for this text (to be URI-encoded into `search_url`).
    Query(String),
    /// Browse the catalogue at this URL.
    Browse(String),
}

/// Chooses what a search asks for: a text filter with a non-empty value is
/// treated as the search query, in place of `query`; a query that is only white
/// space counts as none; with no query the catalogue is browsed with the filters.
pub fn search_request(query: Option<String>, page: i32, filters: &Vec<FilterValue>) -> (r:
    SearchRequest)
    ensures
        match search_query(opt_text(query), filters@) {
            Some(q) => r matches SearchRequest::Query(s) && s@ == q,
            None => r matches SearchRequest::Browse(u) && u@ == filter_url(page, filters@),
        },
{
    let text = first_text_exec(filters);
    let chosen = match text {
        Some(t) => Some(t),
        None => query,
    };
    match chosen {
        Some(q) => {
            if is_blank(q.as_str()) {
                SearchRequest::Browse(build_mangas_filter_url(page, filters))
            } else {
                SearchRequest::Query(q)
            }
        },
        None => SearchRequest::Browse(build_mangas_filter_url(page, filters)),
    }
}

/// The search URL for an already URI-encoded query:
/// `https://hipapi1.s3file.top/v1/search?q={query}&page={page}&page_size=20`.
pub fn search_url(encoded_query: &str, page: i32) -> (url: String)
    ensures
        url@ == "https://hipapi1.s3file.top/v1/search?q="@ + encoded_query@ + "&page="@
            + decimal_int(page as int) + "&page_size=20"@,
{
    let mut url = String::from_str("https://hipapi1.s3file.top/v1/search?q=");
    url.append(encoded_query);
    url.append("&page=");
    push_decimal_i64(&mut url, page as i64);
    url.append("&page_size=20");
    url
}

} // verus!
