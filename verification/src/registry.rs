//! Answers to registry requests: the image manifest of a pointer document, and
//! the blob that a digest names.

use crate::digest::{config_digest, config_json, Digest, DigestError, SHA256_MAX_BYTES};
use crate::oci::{
    derive_config, descriptors_view, Annotations, Descriptor, DescriptorView, ImageConfig,
    ImageConfigView, ImageManifest, ImageManifestView, LayerManifest, LayerManifestError,
    LayerManifestView, ANNOTATION_CID, ANNOTATION_FS_DIGEST, MEDIA_TYPE_CONFIG,
    MEDIA_TYPE_MANIFEST,
};
use crate::path::{LayerRequest, LayerRequestView};
use vstd::prelude::*;

verus! {

/// Host of the gateway to the content network.
pub const IPFS_GATEWAY: &'static str = "ipfs.io";

/// Where the gateway serves the content with the identifier `cid`.
pub open spec fn gateway_location(cid: Seq<char>) -> Seq<char> {
    "https://"@ + IPFS_GATEWAY@ + "/ipfs/"@ + cid
}

/// The URL under which the gateway serves the content with the identifier
/// `cid`.
pub fn gateway_url(cid: &str) -> (r: String)
    ensures
        r@ == gateway_location(cid@),
{
    let mut url = "https://".to_owned();
    url.append(IPFS_GATEWAY);
    url.append("/ipfs/");
    url.append(cid);
    assert(url@ =~= gateway_location(cid@));
    url
}

/// A digest that names no blob of the content identifier.
#[derive(Debug, Clone, Copy, PartialEq, Eq, Structural)]
pub enum BlobsError {
    UnknownManifest,
}

impl BlobsError {
    /// The message of the error.
    pub open spec fn message(self) -> Seq<char> {
        "Unknown manifest"@
    }

    /// The message of the error, for display.
    pub fn to_string(&self) -> (r: String)
        ensures
            r@ == self.message(),
    {
        "Unknown manifest".to_owned()
    }
}

/// Why a request for a fetched pointer document cannot be answered.
#[derive(Debug, Clone, Copy, PartialEq, Eq, Structural)]
pub enum LayerError {
    /// The pointer document lacks a required annotation.
    Manifest(LayerManifestError),
    /// The derived configuration cannot be hashed.
    Digest(DigestError),
    /// The requested digest names no blob.
    Blobs(BlobsError),
}

impl LayerError {
    /// The message of the error.
    pub open spec fn message(self) -> Seq<char> {
        match self {
            LayerError::Manifest(e) => e.message(),
            LayerError::Digest(e) => e.message(),
            LayerError::Blobs(e) => e.message(),
        }
    }

    /// The message of the error, for display.
    pub fn to_string(&self) -> (r: String)
        ensures
            r@ == self.message(),
    {
        match self {
            LayerError::Manifest(e) => e.to_string(),
            LayerError::Digest(e) => e.to_string(),
            LayerError::Blobs(e) => e.to_string(),
        }
    }
}

/// The blob that a digest names: the derived configuration itself, or the
/// place from which the layer tarball is served.
#[derive(Debug, Clone)]
pub enum BlobsResult {
    /// The image configuration, to be sent as the body.
    Config(ImageConfig),
    /// The URL to which the client is redirected for the layer tarball.
    Tarball(String),
}

/// What a [`BlobsResult`] holds.
pub enum BlobsResultView {
    Config(ImageConfigView),
    Tarball(Seq<char>),
}

impl View for BlobsResult {
    type V = BlobsResultView;

    open spec fn view(&self) -> BlobsResultView {
        match self {
            BlobsResult::Config(config) => BlobsResultView::Config(config@),
            BlobsResult::Tarball(url) => BlobsResultView::Tarball(url@),
        }
    }
}

/// The answer to a request below the `layer` route.
#[derive(Debug, Clone)]
pub enum LayerResult {
    Manifests(ImageManifest),
    Blobs(BlobsResult),
}

/// What a [`LayerResult`] holds.
pub enum LayerResultView {
    Manifests(ImageManifestView),
    Blobs(BlobsResultView),
}

impl View for LayerResult {
    type V = LayerResultView;

    open spec fn view(&self) -> LayerResultView {
        match self {
            LayerResult::Manifests(manifest) => LayerResultView::Manifests(manifest@),
            LayerResult::Blobs(blob) => LayerResultView::Blobs(blob@),
        }
    }
}

/// The descriptor under which a manifest lists a derived configuration: its
/// digest and the length of its canonical text, without annotations.
pub open spec fn config_descriptor(config: ImageConfigView) -> DescriptorView {
    DescriptorView {
        media_type: MEDIA_TYPE_CONFIG@,
        digest: config_digest(config),
        size: config_json(config).len() as u64,
        annotations: Map::empty(),
    }
}

/// The image manifest of a pointer document: the descriptor of the derived
/// configuration, and the document's layer as the only layer.
pub open spec fn manifest_for(lm: LayerManifestView) -> Result<ImageManifestView, LayerError> {
    match derive_config(lm) {
        Err(e) => Err(LayerError::Manifest(e)),
        Ok(config) => if config_json(config).len() > SHA256_MAX_BYTES {
            Err(LayerError::Digest(DigestError::TooLarge))
        } else {
            Ok(
                ImageManifestView {
                    schema_version: 2,
                    media_type: MEDIA_TYPE_MANIFEST@,
                    config: config_descriptor(config),
                    layers: seq![lm.layer],
                },
            )
        },
    }
}

/// The blob of a pointer document that `digest` names.
///
/// The layer's own digest names the layer tarball, which the gateway serves
/// under the identifier in the layer's annotations. Any other digest is held
/// against the digest of the derived configuration.
pub open spec fn blob_for(lm: LayerManifestView, digest: Seq<char>) -> Result<
    BlobsResultView,
    LayerError,
> {
    if digest == lm.layer.digest {
        if lm.layer.annotations.contains_key(ANNOTATION_CID@) {
            Ok(BlobsResultView::Tarball(gateway_location(lm.layer.annotations[ANNOTATION_CID@])))
        } else {
            Err(LayerError::Manifest(LayerManifestError::MissingCID))
        }
    } else {
        match derive_config(lm) {
            Err(e) => Err(LayerError::Manifest(e)),
            Ok(config) => if config_json(config).len() > SHA256_MAX_BYTES {
                Err(LayerError::Digest(DigestError::TooLarge))
            } else if digest == config_digest(config) {
                Ok(BlobsResultView::Config(config))
            } else {
                Err(LayerError::Blobs(BlobsError::UnknownManifest))
            },
        }
    }
}

/// The answer that a pointer document gives to a request.
pub open spec fn answer_for(request: LayerRequestView, lm: LayerManifestView) -> Result<
    LayerResultView,
    LayerError,
> {
    match request {
        LayerRequestView::Manifests { .. } => match manifest_for(lm) {
            Ok(manifest) => Ok(LayerResultView::Manifests(manifest)),
            Err(e) => Err(e),
        },
        LayerRequestView::Blobs { digest, .. } => match blob_for(lm, digest) {
            Ok(blob) => Ok(LayerResultView::Blobs(blob)),
            Err(e) => Err(e),
        },
    }
}

/// A pointer document as the content network is meant to hold it: its layer
/// carries both annotations.
pub open spec fn complete(lm: LayerManifestView) -> bool {
    &&& lm.layer.annotations.contains_key(ANNOTATION_CID@)
    &&& lm.layer.annotations.contains_key(ANNOTATION_FS_DIGEST@)
}

/// The tag selects nothing, and neither does the content identifier once its
/// pointer document is fetched: all manifest requests are answered alike.
pub proof fn lemma_tag_selects_nothing(
    a: LayerRequestView,
    b: LayerRequestView,
    lm: LayerManifestView,
)
    requires
        a is Manifests,
        b is Manifests,
    ensures
        answer_for(a, lm) == answer_for(b, lm),
{
}

/// The derived configuration, its canonical text, its digest and with them
/// the configuration's descriptor in the manifest depend on nothing in the
/// pointer document but the filesystem digest annotation.
pub proof fn lemma_config_digest_determined(a: LayerManifestView, b: LayerManifestView)
    requires
        a.layer.annotations.contains_key(ANNOTATION_FS_DIGEST@)
            == b.layer.annotations.contains_key(ANNOTATION_FS_DIGEST@),
        a.layer.annotations.contains_key(ANNOTATION_FS_DIGEST@)
            ==> a.layer.annotations[ANNOTATION_FS_DIGEST@]
            == b.layer.annotations[ANNOTATION_FS_DIGEST@],
    ensures
        derive_config(a) == derive_config(b),
        derive_config(a) matches Ok(config) ==> {
            &&& derive_config(b) matches Ok(other)
            &&& config_json(config) == config_json(other)
            &&& config_digest(config) == config_digest(other)
        },
        manifest_for(a) matches Ok(manifest) ==> {
            &&& manifest_for(b) matches Ok(other)
            &&& manifest.config == other.config
        },
        manifest_for(a) matches Err(e) ==> manifest_for(b) == Err::<ImageManifestView, LayerError>(
            e,
        ),
{
}

/// Where a manifest is resolved, the digest of its configuration names that
/// configuration: the blob is the configuration that the digest was computed
/// over, so that hashing it again gives the requested digest. The layer's
/// own digest is served first, so it must be another one.
pub proof fn lemma_config_round_trip(lm: LayerManifestView)
    requires
        manifest_for(lm) is Ok,
        manifest_for(lm)->Ok_0.config.digest != lm.layer.digest,
    ensures
        blob_for(lm, manifest_for(lm)->Ok_0.config.digest) matches Ok(
            BlobsResultView::Config(config),
        ) && derive_config(lm) == Ok::<ImageConfigView, LayerManifestError>(config)
            && config_digest(config) == manifest_for(lm)->Ok_0.config.digest
            && config_descriptor(config) == manifest_for(lm)->Ok_0.config,
{
}

/// A complete pointer document serves exactly two digests: the layer's own
/// digest leads to the layer tarball at the gateway, the digest of the
/// derived configuration to that configuration, and any other digest is
/// unknown. The two digests are taken to differ.
pub proof fn lemma_blob_dispatch(lm: LayerManifestView, digest: Seq<char>)
    requires
        complete(lm),
        derive_config(lm) matches Ok(config) && config_json(config).len() <= SHA256_MAX_BYTES
            && config_digest(config) != lm.layer.digest,
    ensures
        digest == lm.layer.digest ==> blob_for(lm, digest) == Ok::<BlobsResultView, LayerError>(
            BlobsResultView::Tarball(gateway_location(lm.layer.annotations[ANNOTATION_CID@])),
        ),
        digest == config_digest(derive_config(lm)->Ok_0) ==> blob_for(lm, digest) == Ok::<
            BlobsResultView,
            LayerError,
        >(BlobsResultView::Config(derive_config(lm)->Ok_0)),
        digest != lm.layer.digest && digest != config_digest(derive_config(lm)->Ok_0)
            ==> blob_for(lm, digest) == Err::<BlobsResultView, LayerError>(
            LayerError::Blobs(BlobsError::UnknownManifest),
        ),
{
}

/// Without the filesystem digest annotation every request fails for want of
/// it, and no configuration is made up. The one request that does not come
/// to derive a configuration is left out: the blob with the layer's own
/// digest.
pub proof fn lemma_missing_fs_digest(lm: LayerManifestView, request: LayerRequestView)
    requires
        !lm.layer.annotations.contains_key(ANNOTATION_FS_DIGEST@),
        !(request matches LayerRequestView::Blobs { digest, .. } && digest == lm.layer.digest),
    ensures
        answer_for(request, lm) == Err::<LayerResultView, LayerError>(
            LayerError::Manifest(LayerManifestError::MissingTarDigest),
        ),
        manifest_for(lm) == Err::<ImageManifestView, LayerError>(
            LayerError::Manifest(LayerManifestError::MissingTarDigest),
        ),
{
}

/// Without the content identifier annotation the layer's own digest is not
/// served.
pub proof fn lemma_missing_cid(lm: LayerManifestView)
    requires
        !lm.layer.annotations.contains_key(ANNOTATION_CID@),
    ensures
        blob_for(lm, lm.layer.digest) == Err::<BlobsResultView, LayerError>(
            LayerError::Manifest(LayerManifestError::MissingCID),
        ),
{
}

/// The image manifest of a fetched pointer document.
///
/// The tag selects nothing: every tag gives the same manifest.
pub fn manifests(lman: LayerManifest, _tag: &str) -> (r: Result<ImageManifest, LayerError>)
    ensures
        match r {
            Ok(manifest) => manifest_for(lman@) == Ok::<ImageManifestView, LayerError>(manifest@),
            Err(e) => manifest_for(lman@) == Err::<ImageManifestView, LayerError>(e),
        },
{
    let config = match ImageConfig::try_from(&lman) {
        Ok(config) => config,
        Err(e) => {
            return Err(LayerError::Manifest(e));
        },
    };
    let digest = match Digest::new(&config) {
        Ok(digest) => digest,
        Err(e) => {
            return Err(LayerError::Digest(e));
        },
    };
    let ghost layer = lman.layer@;
    let layers = vec![lman.layer];
    assert(descriptors_view(layers@) =~= seq![layer]);
    Ok(
        ImageManifest {
            schema_version: 2,
            media_type: MEDIA_TYPE_MANIFEST.to_owned(),
            config: Descriptor {
                media_type: MEDIA_TYPE_CONFIG.to_owned(),
                size: digest.size,
                digest: digest.to_string(),
                annotations: Annotations::new(),
            },
            layers,
        },
    )
}

/// The blob of a fetched pointer document that `digest` names.
pub fn blobs(lman: &LayerManifest, digest: &str) -> (r: Result<BlobsResult, LayerError>)
    ensures
        match r {
            Ok(blob) => blob_for(lman@, digest@) == Ok::<BlobsResultView, LayerError>(blob@),
            Err(e) => blob_for(lman@, digest@) == Err::<BlobsResultView, LayerError>(e),
        },
{
    let requested = digest.to_owned();
    if requested == lman.layer.digest {
        match lman.layer.annotations.get(ANNOTATION_CID) {
            Some(lcid) => Ok(BlobsResult::Tarball(gateway_url(lcid.as_str()))),
            None => Err(LayerError::Manifest(LayerManifestError::MissingCID)),
        }
    } else {
        let config = match ImageConfig::try_from(lman) {
            Ok(config) => config,
            Err(e) => {
                return Err(LayerError::Manifest(e));
            },
        };
        let d = match Digest::new(&config) {
            Ok(d) => d,
            Err(e) => {
                return Err(LayerError::Digest(e));
            },
        };
        if requested == d.to_string() {
            Ok(BlobsResult::Config(config))
        } else {
            Err(LayerError::Blobs(BlobsError::UnknownManifest))
        }
    }
}

/// The answer to a request, given the pointer document that was fetched for
/// the request's content identifier.
pub fn layer(request: &LayerRequest, lman: LayerManifest) -> (r: Result<LayerResult, LayerError>)
    ensures
        match r {
            Ok(answer) => answer_for(request@, lman@) == Ok::<LayerResultView, LayerError>(
                answer@,
            ),
            Err(e) => answer_for(request@, lman@) == Err::<LayerResultView, LayerError>(e),
        },
{
    match request {
        LayerRequest::Manifests { tag, .. } => match manifests(lman, tag.as_str()) {
            Ok(manifest) => Ok(LayerResult::Manifests(manifest)),
            Err(e) => Err(e),
        },
        LayerRequest::Blobs { digest, .. } => match blobs(&lman, digest.as_str()) {
            Ok(blob) => Ok(LayerResult::Blobs(blob)),
            Err(e) => Err(e),
        },
    }
}

} // verus!
