//! The requests a deploy client sends and the responses it gets back.

use vstd::prelude::*;
use crate::fingerprint::{texts, PathAndHash};

verus! {

/// A file on its way to the store: its fingerprint and its bytes.
#[derive(Debug, PartialEq, Eq)]
pub struct UploadedFile {
    pub pah: PathAndHash,
    pub contents: Vec<u8>,
}

/// What an [`UploadedFile`] stands for.
pub struct UploadedFileView {
    pub pah: Seq<char>,
    pub contents: Seq<u8>,
}

impl View for UploadedFile {
    type V = UploadedFileView;

    open spec fn view(&self) -> UploadedFileView {
        UploadedFileView { pah: self.pah@, contents: self.contents@ }
    }
}

/// What a list of uploaded files stands for, in order.
pub open spec fn file_views(files: Seq<UploadedFile>) -> Seq<UploadedFileView> {
    files.map_values(|file: UploadedFile| file@)
}

/// A request to the ingest service.
#[derive(Debug, PartialEq, Eq)]
#[allow(inconsistent_fields)]
pub enum ApiRequest {
    /// Which of these fingerprints does the store lack?
    ListMissingFiles { candidates: Vec<PathAndHash> },
    /// Store these files.
    UploadFiles { files: Vec<UploadedFile> },
    /// Publish a revision made of these fingerprints.
    MakeRevision { files: Vec<PathAndHash> },
}

/// What an [`ApiRequest`] stands for.
#[allow(inconsistent_fields)]
pub enum ApiRequestView {
    ListMissingFiles { candidates: Seq<Seq<char>> },
    UploadFiles { files: Seq<UploadedFileView> },
    MakeRevision { files: Seq<Seq<char>> },
}

impl View for ApiRequest {
    type V = ApiRequestView;

    open spec fn view(&self) -> ApiRequestView {
        match self {
            ApiRequest::ListMissingFiles { candidates } => ApiRequestView::ListMissingFiles {
                candidates: texts(candidates@),
            },
            ApiRequest::UploadFiles { files } => ApiRequestView::UploadFiles {
                files: file_views(files@),
            },
            ApiRequest::MakeRevision { files } => ApiRequestView::MakeRevision {
                files: texts(files@),
            },
        }
    }
}

/// A response of the ingest service.
#[derive(Debug, PartialEq, Eq)]
pub enum ApiResponse {
    /// The candidates that the store lacks.
    ListMissingFiles { missing: Vec<PathAndHash> },
    /// Whether every file was stored.
    UploadFiles { success: bool },
    /// Whether the revision was published, and under which identifier.
    MakeRevision { success: bool, revision_id: String },
}

/// What an [`ApiResponse`] stands for.
pub enum ApiResponseView {
    ListMissingFiles { missing: Seq<Seq<char>> },
    UploadFiles { success: bool },
    MakeRevision { success: bool, revision_id: Seq<char> },
}

impl View for ApiResponse {
    type V = ApiResponseView;

    open spec fn view(&self) -> ApiResponseView {
        match self {
            ApiResponse::ListMissingFiles { missing } => ApiResponseView::ListMissingFiles {
                missing: texts(missing@),
            },
            ApiResponse::UploadFiles { success } => ApiResponseView::UploadFiles {
                success: *success,
            },
            ApiResponse::MakeRevision { success, revision_id } => ApiResponseView::MakeRevision {
                success: *success,
                revision_id: revision_id@,
            },
        }
    }
}

} // verus!
