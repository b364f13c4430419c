//! The records of the blob catalog.

use vstd::prelude::*;

verus! {

/// The content of an optional string.
pub open spec fn opt_view(text: Option<String>) -> Option<Seq<char>> {
    match text {
        Some(s) => Some(s@),
        None => None,
    }
}

/// A copy of an optional string.
pub fn clone_opt(text: &Option<String>) -> (r: Option<String>)
    ensures
        opt_view(r) == opt_view(*text),
{
    match text {
        Some(s) => Some(s.clone()),
        None => None,
    }
}

/// A blob as the catalog knows it, with one of its paths.
#[derive(Debug, Clone, PartialEq, Eq)]
pub struct BlobInfo {
    pub sha256: String,
    pub filename: Option<String>,
    pub size: i64,
    pub mime: String,
    pub created_ms: i64,
    pub mtime_ms: i64,
    pub path: Option<String>,
    pub health: Option<String>,
}

/// The mathematical content of a [`BlobInfo`].
pub struct BlobInfoV {
    pub sha256: Seq<char>,
    pub filename: Option<Seq<char>>,
    pub size: i64,
    pub mime: Seq<char>,
    pub created_ms: i64,
    pub mtime_ms: i64,
    pub path: Option<Seq<char>>,
    pub health: Option<Seq<char>>,
}

impl View for BlobInfo {
    type V = BlobInfoV;

    open spec fn view(&self) -> BlobInfoV {
        BlobInfoV {
            sha256: self.sha256@,
            filename: opt_view(self.filename),
            size: self.size,
            mime: self.mime@,
            created_ms: self.created_ms,
            mtime_ms: self.mtime_ms,
            path: opt_view(self.path),
            health: opt_view(self.health),
        }
    }
}

/// A blob with what is known of its content: page count of a document,
/// dimensions of an image, line count of a text.
#[derive(Debug, Clone, PartialEq, Eq)]
pub struct BlobWithMetadata {
    pub sha256: String,
    pub filename: Option<String>,
    pub size: i64,
    pub mime: String,
    pub created_ms: i64,
    pub mtime_ms: i64,
    pub path: Option<String>,
    pub health: Option<String>,
    pub page_count: Option<i32>,
    pub image_width: Option<i32>,
    pub image_height: Option<i32>,
    pub line_count: Option<i32>,
}

/// The mathematical content of a [`BlobWithMetadata`].
pub struct BlobWithMetadataV {
    pub sha256: Seq<char>,
    pub filename: Option<Seq<char>>,
    pub size: i64,
    pub mime: Seq<char>,
    pub created_ms: i64,
    pub mtime_ms: i64,
    pub path: Option<Seq<char>>,
    pub health: Option<Seq<char>>,
    pub page_count: Option<i32>,
    pub image_width: Option<i32>,
    pub image_height: Option<i32>,
    pub line_count: Option<i32>,
}

impl View for BlobWithMetadata {
    type V = BlobWithMetadataV;

    open spec fn view(&self) -> BlobWithMetadataV {
        BlobWithMetadataV {
            sha256: self.sha256@,
            filename: opt_view(self.filename),
            size: self.size,
            mime: self.mime@,
            created_ms: self.created_ms,
            mtime_ms: self.mtime_ms,
            path: opt_view(self.path),
            health: opt_view(self.health),
            page_count: self.page_count,
            image_width: self.image_width,
            image_height: self.image_height,
            line_count: self.line_count,
        }
    }
}

impl From<BlobInfo> for BlobWithMetadata {
    /// The blob with nothing known of its content.
    fn from(info: BlobInfo) -> (r: BlobWithMetadata) {
        BlobWithMetadata {
            sha256: info.sha256,
            filename: info.filename,
            size: info.size,
            mime: info.mime,
            created_ms: info.created_ms,
            mtime_ms: info.mtime_ms,
            path: info.path,
            health: info.health,
            page_count: None,
            image_width: None,
            image_height: None,
            line_count: None,
        }
    }
}

impl vstd::std_specs::convert::FromSpecImpl<BlobInfo> for BlobWithMetadata {
    open spec fn obeys_from_spec() -> bool {
        true
    }

    open spec fn from_spec(info: BlobInfo) -> BlobWithMetadata {
        BlobWithMetadata {
            sha256: info.sha256,
            filename: info.filename,
            size: info.size,
            mime: info.mime,
            created_ms: info.created_ms,
            mtime_ms: info.mtime_ms,
            path: info.path,
            health: info.health,
            page_count: None,
            image_width: None,
            image_height: None,
            line_count: None,
        }
    }
}

/// What a scan of the storage root found.
#[derive(Debug, Clone, PartialEq, Eq)]
pub struct ScanResult {
    /// Files whose hash the catalog did not know.
    pub added: i32,
    /// Files whose hash the catalog knew.
    pub updated: i32,
    /// Catalog entries that no file on disk backs.
    pub deleted: i32,
    /// One message for each file that could not be processed.
    pub errors: Vec<String>,
}

/// The health of the catalog in numbers.
#[derive(Debug, Clone, Copy, PartialEq, Eq, Structural)]
pub struct HealthReport {
    pub total_blobs: i32,
    pub healthy: i32,
    pub missing: i32,
    pub modified: i32,
    pub relocated: i32,
    pub total_size: i64,
}

} // verus!
