//! Source logic for the hipmh manga site (m.hipmh.com): URL building, API
//! response parsing, deep-link handling and the chapter image payload decoder.
use vstd::prelude::*;

pub mod catalog;
pub mod chapter_list;
pub mod codec;
pub mod deep_link;
pub mod details;
pub mod error;
pub mod json;
pub mod page_list;
pub mod text;

verus! {

/// The site's address.
pub const BASE_URL: &'static str = "https://m.hipmh.com";

/// The API's manga catalogue endpoint.
pub const API_URL: &'static str = "https://hipapi1.s3file.top/v1/mangas";

/// The source itself.
pub struct Hipmh;

impl Hipmh {
    /// The source.
    pub fn new() -> Hipmh {
        Hipmh
    }
}

} // verus!
