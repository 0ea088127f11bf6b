//! Errors that the source reports.
use vstd::prelude::*;

verus! {

/// The ways in which a request can fail inside the source's own logic.
#[derive(Debug, Clone, Copy, PartialEq, Eq, Structural)]
pub enum SourceError {
    /// A chapter key without the `-` that separates its two segments.
    InvalidChapterKey,
    /// Text that is not valid base64 once its padding is restored.
    InvalidBase64,
    /// A decoded chapter segment that is not UTF-8.
    InvalidHidSegment,
    /// A decoded chapter segment without `-c:`.
    UnexpectedHidFormat,
    /// An images payload without its `qM9` / `Z7` framing.
    InvalidImagesPayload,
    /// An images payload whose `Vx` / `pL0` separators are out of place.
    UnexpectedImagesLayout,
    /// An images payload that is not URL-safe base64 once unscrambled.
    ImagesBase64,
    /// An images payload that does not decode to UTF-8.
    ImagesUtf8,
    /// An images payload that does not decode to JSON.
    ImagesJson,
    /// An images payload whose JSON is not an array.
    ImagesNotArray,
    /// A response without a `data` member.
    MissingData,
    /// A response without an array of items.
    MissingItems,
    /// A chapter response without an `images` string.
    MissingImages,
    /// A listing this source does not offer.
    InvalidListing,
}

/// The message that the source reports for `e`.
pub open spec fn error_message(e: SourceError) -> Seq<char> {
    match e {
        SourceError::InvalidChapterKey => "Invalid chapter key"@,
        SourceError::InvalidBase64 => "Invalid base64"@,
        SourceError::InvalidHidSegment => "Invalid hid segment"@,
        SourceError::UnexpectedHidFormat => "Unexpected hid segment format"@,
        SourceError::InvalidImagesPayload => "Invalid images payload"@,
        SourceError::UnexpectedImagesLayout => "Unexpected images layout"@,
        SourceError::ImagesBase64 => "Failed to decode images base64"@,
        SourceError::ImagesUtf8 => "Invalid images JSON"@,
        SourceError::ImagesJson => "Failed to parse images JSON"@,
        SourceError::ImagesNotArray => "Expected images array"@,
        SourceError::MissingData => "Expected data object"@,
        SourceError::MissingItems => "Expected items array"@,
        SourceError::MissingImages => "Expected images string"@,
        SourceError::InvalidListing => "Invalid listing"@,
    }
}

impl SourceError {
    /// The message that the source reports for this error.
    pub fn message(&self) -> (m: &'static str)
        ensures
            m@ == error_message(*self),
    {
        match self {
            SourceError::InvalidChapterKey => "Invalid chapter key",
            SourceError::InvalidBase64 => "Invalid base64",
            SourceError::InvalidHidSegment => "Invalid hid segment",
            SourceError::UnexpectedHidFormat => "Unexpected hid segment format",
            SourceError::InvalidImagesPayload => "Invalid images payload",
            SourceError::UnexpectedImagesLayout => "Unexpected images layout",
            SourceError::ImagesBase64 => "Failed to decode images base64",
            SourceError::ImagesUtf8 => "Invalid images JSON",
            SourceError::ImagesJson => "Failed to parse images JSON",
            SourceError::ImagesNotArray => "Expected images array",
            SourceError::MissingData => "Expected data object",
            SourceError::MissingItems => "Expected items array",
            SourceError::MissingImages => "Expected images string",
            SourceError::InvalidListing => "Invalid listing",
        }
    }
}

} // verus!
