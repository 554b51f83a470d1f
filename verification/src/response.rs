//! What goes back to the client: the status of an answer or of a failure, the
//! content type of a body, and the target of a redirect.

use crate::oci::{MEDIA_TYPE_CONFIG, MEDIA_TYPE_MANIFEST};
use crate::path::PathError;
use crate::registry::{BlobsError, BlobsResult, BlobsResultView, LayerError, LayerResult, LayerResultView};
use vstd::prelude::*;

verus! {

/// Status of an answer that carries a body.
pub const STATUS_OK: u16 = 200;

/// Status of a redirect.
pub const STATUS_FOUND: u16 = 302;

/// Status of a request that is malformed, or that names a malformed pointer
/// document, or no pointer document at all.
pub const STATUS_BAD_REQUEST: u16 = 400;

/// Status of a request for a blob that the content identifier does not have.
pub const STATUS_NOT_FOUND: u16 = 404;

/// Status of a failure of the content network.
pub const STATUS_BAD_GATEWAY: u16 = 502;

/// Why no pointer document could be had from the content network.
#[derive(Debug, Clone, Copy, PartialEq, Eq, Structural)]
pub enum FetchError {
    /// The gateway could not be reached, or did not answer in full.
    Transport,
    /// The answer is not a pointer document.
    Decode,
}

impl FetchError {
    /// The status that reports the failure: a failure of the transport lies
    /// with the content network, an answer that is no pointer document with
    /// the content identifier that the client named.
    pub open spec fn status_code(self) -> u16 {
        match self {
            FetchError::Transport => STATUS_BAD_GATEWAY,
            FetchError::Decode => STATUS_BAD_REQUEST,
        }
    }

    /// The status that reports the failure.
    pub fn status(&self) -> (code: u16)
        ensures
            code == self.status_code(),
    {
        match self {
            FetchError::Transport => STATUS_BAD_GATEWAY,
            FetchError::Decode => STATUS_BAD_REQUEST,
        }
    }
}

impl PathError {
    /// The status that reports the error: the request is malformed.
    pub fn status(&self) -> (code: u16)
        ensures
            code == STATUS_BAD_REQUEST,
    {
        STATUS_BAD_REQUEST
    }
}

impl LayerError {
    /// The status that reports the error: a digest that names nothing is
    /// not found, everything else is a bad request.
    pub open spec fn status_code(self) -> u16 {
        match self {
            LayerError::Blobs(BlobsError::UnknownManifest) => STATUS_NOT_FOUND,
            _ => STATUS_BAD_REQUEST,
        }
    }

    /// The status that reports the error. It always lies with the client.
    pub fn status(&self) -> (code: u16)
        ensures
            code == self.status_code(),
            400 <= code < 500,
    {
        match self {
            LayerError::Blobs(BlobsError::UnknownManifest) => STATUS_NOT_FOUND,
            _ => STATUS_BAD_REQUEST,
        }
    }
}

impl LayerResultView {
    /// The status of the answer: a redirect for the layer tarball, success
    /// for a body.
    pub open spec fn status_code(self) -> u16 {
        match self {
            LayerResultView::Blobs(BlobsResultView::Tarball(_)) => STATUS_FOUND,
            _ => STATUS_OK,
        }
    }

    /// The content type of the body, where the answer has one.
    pub open spec fn content_type(self) -> Option<Seq<char>> {
        match self {
            LayerResultView::Manifests(_) => Some(MEDIA_TYPE_MANIFEST@),
            LayerResultView::Blobs(BlobsResultView::Config(_)) => Some(MEDIA_TYPE_CONFIG@),
            LayerResultView::Blobs(BlobsResultView::Tarball(_)) => None,
        }
    }

    /// The target of the redirect, where the answer is one.
    pub open spec fn location(self) -> Option<Seq<char>> {
        match self {
            LayerResultView::Blobs(BlobsResultView::Tarball(url)) => Some(url),
            _ => None,
        }
    }
}

impl LayerResult {
    /// The status of the answer.
    pub fn status(&self) -> (code: u16)
        ensures
            code == self@.status_code(),
    {
        match self {
            LayerResult::Blobs(BlobsResult::Tarball(_)) => STATUS_FOUND,
            _ => STATUS_OK,
        }
    }

    /// The content type of the body, where the answer has one.
    pub fn content_type(&self) -> (r: Option<&'static str>)
        ensures
            match r {
                Some(media_type) => self@.content_type() == Some(media_type@),
                None => self@.content_type() is None,
            },
    {
        match self {
            LayerResult::Manifests(_) => Some(MEDIA_TYPE_MANIFEST),
            LayerResult::Blobs(BlobsResult::Config(_)) => Some(MEDIA_TYPE_CONFIG),
            LayerResult::Blobs(BlobsResult::Tarball(_)) => None,
        }
    }

    /// The target of the redirect, where the answer is one.
    pub fn location(&self) -> (r: Option<&String>)
        ensures
            match r {
                Some(url) => self@.location() == Some(url@),
                None => self@.location() is None,
            },
    {
        match self {
            LayerResult::Blobs(BlobsResult::Tarball(url)) => Some(url),
            _ => None,
        }
    }
}

} // verus!
