//! Deep links into the source from the site's URLs.
use vstd::prelude::*;
use crate::codec::{
    decode_work_id, is_standard_symbol, key_to_works_id, slug_key, unpadded_encode, work_id_key,
};
use crate::text::{
    before_char, before_match, before_match_str, lemma_first_char_at, lemma_first_match_at,
    lemma_split_char_at, lemma_split_char_none, matches_at, split_char, split_char_str,
    starts_with, trim_start_match, trim_start_match_str,
};
use crate::{Hipmh, BASE_URL};

verus! {

/// Where a deep link leads.
#[derive(Debug)]
pub enum DeepLinkResult {
    Manga { key: String },
    Chapter { manga_key: String, key: String },
}

/// The model of where a deep link leads.
pub enum DeepLinkTarget {
    Manga(Seq<char>),
    Chapter(Seq<char>, Seq<char>),
}

/// The model of a `DeepLinkResult`.
pub open spec fn target_of(r: DeepLinkResult) -> DeepLinkTarget {
    match r {
        DeepLinkResult::Manga { key } => DeepLinkTarget::Manga(key@),
        DeepLinkResult::Chapter { manga_key, key } => DeepLinkTarget::Chapter(manga_key@, key@),
    }
}

/// The path segments of a site URL: the pieces between `/` once the site's
/// address is trimmed from the front (the first piece is what precedes the first `/`).
pub open spec fn url_pieces(url: Seq<char>) -> Seq<Seq<char>> {
    split_char(trim_start_match(url, BASE_URL@), '/')
}

/// Where a site URL leads:
/// `/works/{base64_id}--{slug}` to the manga whose key the base64 id encodes;
/// `/manga/{id}` to that manga; `/manga/{id}/{chapter}` to that chapter.
pub open spec fn deep_link(url: Seq<char>) -> Option<DeepLinkTarget> {
    let p = url_pieces(url);
    if p.len() < 2 {
        None
    } else if p[1] == "works"@ {
        if p.len() >= 3 {
            Some(DeepLinkTarget::Manga(work_id_key(before_match(p[2], "--"@))))
        } else {
            None
        }
    } else if p[1] == "manga"@ {
        if p.len() == 3 {
            Some(DeepLinkTarget::Manga(p[2]))
        } else if p.len() >= 4 {
            Some(DeepLinkTarget::Chapter(p[2], p[3]))
        } else {
            None
        }
    } else {
        None
    }
}

/// A `/works/{id}` address whose id is base64 without `/` leads to the manga
/// whose key the id encodes.
proof fn lemma_works_url_link(key: Seq<char>, id: Seq<char>)
    requires
        forall|i: int| 0 <= i < id.len() ==> is_standard_symbol(#[trigger] id[i]),
        forall|i: int| 0 <= i < id.len() ==> id[i] != '/',
        slug_key(id) == key,
    ensures
        deep_link(BASE_URL@ + "/works/"@ + id) == Some(DeepLinkTarget::Manga(key)),
{
    reveal_strlit("https://m.hipmh.com");
    reveal_strlit("/works/");
    reveal_strlit("works");
    reveal_strlit("works/");
    reveal_strlit("--");
    let base = BASE_URL@;
    let tail = "/works/"@ + id;
    let url = base + tail;
    assert(url =~= BASE_URL@ + "/works/"@ + id);
    assert(url.subrange(0, base.len() as int) =~= base);
    assert(url.skip(base.len() as int) =~= tail);
    assert(!starts_with(tail, base)) by {
        if starts_with(tail, base) {
            assert(tail.subrange(0, base.len() as int)[0] == base[0]);
        }
    }
    assert(trim_start_match(tail, base) == tail);
    assert(trim_start_match(url, base) == tail);
    lemma_split_char_at(tail, '/', 0);
    let t1 = tail.skip(1);
    assert(t1 =~= "works/"@ + id);
    lemma_split_char_at(t1, '/', 5);
    assert(t1.take(5) =~= "works"@);
    let t2 = t1.skip(6);
    assert(t2 =~= id);
    lemma_split_char_none(id, '/');
    assert(url_pieces(url) =~= seq![tail.take(0), "works"@, id]);
    assert forall|j: int| 0 <= j < id.len() implies id[j] != '-' by {
        assert(is_standard_symbol(id[j]));
    }
    assert forall|j: int| 0 <= j < id.len() implies !matches_at(id, "--"@, j) by {
        if matches_at(id, "--"@, j) {
            assert(id.subrange(j, j + 2)[0] == id[j]);
        }
    }
    lemma_first_match_at(id, "--"@, id.len() as int);
    lemma_first_char_at(id, '-', id.len() as int);
    assert(before_char(id, '-') == id);
}

impl Hipmh {
    /// The address of a manga's `/works/` detail page:
    /// `https://m.hipmh.com/works/{id}` with the id from `key_to_works_id`.
    /// When the id holds no `/`, the address deep-links back to the manga.
    pub fn works_url(key: &str) -> (url: String)
        ensures
            url@ == BASE_URL@ + "/works/"@ + unpadded_encode(key@),
            (forall|i: int|
                0 <= i < unpadded_encode(key@).len() ==> unpadded_encode(key@)[i] != '/')
                ==> deep_link(url@) == Some(DeepLinkTarget::Manga(key@)),
    {
        let id = key_to_works_id(key);
        let mut url = String::from_str(BASE_URL);
        url.append("/works/");
        url.append(id.as_str());
        proof {
            if forall|i: int| 0 <= i < id@.len() ==> id@[i] != '/' {
                lemma_works_url_link(key@, id@);
            }
        }
        url
    }

    /// Handles URLs like `https://m.hipmh.com/works/bToxNTAzMQ--xia-ri-chong-sheng`
    /// (a manga, whose key the base64 part `m:{numeric_id}` gives) and
    /// `https://m.hipmh.com/manga/{id}` or `.../manga/{id}/{chapter}`.
    pub fn handle_deep_link(&self, url: &str) -> (r: Option<DeepLinkResult>)
        ensures
            match deep_link(url@) {
                Some(t) => r matches Some(d) && target_of(d) == t,
                None => r is None,
            },
    {
        proof {
            reveal_strlit("https://m.hipmh.com");
        }
        let trimmed = trim_start_match_str(url, BASE_URL);
        let pieces = split_char_str(trimmed.as_str(), '/');
        let ghost p = pieces@.map_values(|s: String| s@);
        assert(p == url_pieces(url@));
        if pieces.len() < 2 {
            return None;
        }
        assert(p[1] == pieces@[1]@);
        if pieces[1].eq(&String::from_str("works")) {
            if pieces.len() >= 3 {
                assert(p[2] == pieces@[2]@);
                let code = before_match_str(pieces[2].as_str(), "--");
                return Some(DeepLinkResult::Manga { key: decode_work_id(code.as_str()) });
            }
            None
        } else if pieces[1].eq(&String::from_str("manga")) {
            if pieces.len() == 3 {
                assert(p[2] == pieces@[2]@);
                Some(DeepLinkResult::Manga { key: pieces[2].clone() })
            } else if pieces.len() >= 4 {
                assert(p[2] == pieces@[2]@);
                assert(p[3] == pieces@[3]@);
                Some(DeepLinkResult::Chapter { manga_key: pieces[2].clone(), key: pieces[3].clone() })
            } else {
                None
            }
        } else {
            None
        }
    }
}

} // verus!
