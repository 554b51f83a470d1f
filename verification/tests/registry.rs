use ocipfs::digest::Digest;
use ocipfs::oci::{
    Annotations, Descriptor, ImageConfig, LayerManifest, LayerManifestError, ANNOTATION_CID,
    ANNOTATION_FS_DIGEST,
};
use ocipfs::path::LayerRequest;
use ocipfs::registry::{
    blobs, gateway_url, layer, manifests, BlobsError, BlobsResult, LayerError, LayerResult,
    IPFS_GATEWAY,
};

const CONFIG_JSON: &str = "{\"architecture\":\"amd64\",\"os\":\"linux\",\"rootfs\":{\"type\":\"layers\",\"diff_ids\":[\"sha256:BBB\"]}}";
const CONFIG_DIGEST: &str =
    "sha256:3e1ce9c2db21cb097e995b5c1d7530490c5874ccb984aca11a20e7d0b8cc4bb5";

fn pointer(layer_digest: &str, cid: Option<&str>, fs_digest: Option<&str>) -> LayerManifest {
    let mut annotations = Annotations::new();
    if let Some(cid) = cid {
        annotations.insert(ANNOTATION_CID.to_string(), cid.to_string());
    }
    if let Some(fs_digest) = fs_digest {
        annotations.insert(ANNOTATION_FS_DIGEST.to_string(), fs_digest.to_string());
    }
    annotations.insert("org.example.note".to_string(), "kept".to_string());
    LayerManifest {
        media_type: "application/vnd.ocipfs.layer.v1+json".to_string(),
        layer: Descriptor {
            media_type: "application/vnd.oci.image.layer.v1.tar+gzip".to_string(),
            digest: layer_digest.to_string(),
            size: 10,
            annotations,
        },
    }
}

fn complete() -> LayerManifest {
    pointer("sha256:AAA", Some("Qm123"), Some("sha256:BBB"))
}

fn sha256_text(text: &str) -> String {
    format!("sha256:{:x}", <sha2::Sha256 as sha2::Digest>::digest(text.as_bytes()))
}

#[test]
fn gateway_url_of_content_id() {
    assert_eq!(IPFS_GATEWAY, "ipfs.io");
    assert_eq!(gateway_url("Qm999"), "https://ipfs.io/ipfs/Qm999");
    assert_eq!(gateway_url("ipns/example.org"), "https://ipfs.io/ipfs/ipns/example.org");
    assert_eq!(gateway_url(""), "https://ipfs.io/ipfs/");
}

#[test]
fn manifest_of_pointer_document() {
    // The document as it would be fetched for the content identifier Qm999.
    let manifest = manifests(complete(), "latest").unwrap();
    assert_eq!(manifest.layers[0].digest, "sha256:AAA");
    assert_eq!(manifest.config.digest, sha256_text(CONFIG_JSON));
    assert_eq!(manifest.config.digest, CONFIG_DIGEST);
}

#[test]
fn manifest_fields() {
    let manifest = manifests(complete(), "latest").unwrap();
    assert_eq!(manifest.schema_version, 2);
    assert_eq!(manifest.media_type, "application/vnd.oci.image.manifest.v1+json");
    assert_eq!(manifest.config.media_type, "application/vnd.oci.image.config.v1+json");
    assert_eq!(manifest.config.size, 90);
    assert!(manifest.config.annotations.entries().is_empty());
    assert_eq!(manifest.layers.len(), 1);
}

#[test]
fn manifest_copies_the_layer_through() {
    let manifest = manifests(complete(), "latest").unwrap();
    let layer = &manifest.layers[0];
    assert_eq!(layer.media_type, "application/vnd.oci.image.layer.v1.tar+gzip");
    assert_eq!(layer.digest, "sha256:AAA");
    assert_eq!(layer.size, 10);
    assert_eq!(layer.annotations.get(ANNOTATION_CID), Some(&"Qm123".to_string()));
    assert_eq!(layer.annotations.get(ANNOTATION_FS_DIGEST), Some(&"sha256:BBB".to_string()));
    assert_eq!(layer.annotations.get("org.example.note"), Some(&"kept".to_string()));
    assert_eq!(layer.annotations.entries().len(), 3);
}

#[test]
fn every_tag_gives_the_same_manifest() {
    let a = manifests(complete(), "latest").unwrap();
    let b = manifests(complete(), "v1.2.3").unwrap();
    assert_eq!(a.config.digest, b.config.digest);
    assert_eq!(a.config.size, b.config.size);
    assert_eq!(a.layers[0].digest, b.layers[0].digest);
}

#[test]
fn config_digest_depends_on_the_fs_digest_alone() {
    let a = manifests(pointer("sha256:AAA", Some("Qm123"), Some("sha256:BBB")), "t").unwrap();
    let b = manifests(pointer("sha256:DDD", None, Some("sha256:BBB")), "t").unwrap();
    let c = manifests(pointer("sha256:AAA", Some("Qm123"), Some("sha256:CCC")), "t").unwrap();
    assert_eq!(a.config.digest, b.config.digest);
    assert_eq!(a.config.size, b.config.size);
    assert_ne!(a.config.digest, c.config.digest);
}

#[test]
fn manifest_without_fs_digest_is_refused() {
    let r = manifests(pointer("sha256:AAA", Some("Qm123"), None), "latest");
    assert_eq!(r.err(), Some(LayerError::Manifest(LayerManifestError::MissingTarDigest)));
}

#[test]
fn layer_digest_redirects_to_the_gateway() {
    match blobs(&complete(), "sha256:AAA") {
        Ok(BlobsResult::Tarball(url)) => assert_eq!(url, "https://ipfs.io/ipfs/Qm123"),
        other => panic!("unexpected {:?}", other),
    }
}

#[test]
fn config_digest_gives_the_config() {
    match blobs(&complete(), CONFIG_DIGEST) {
        Ok(BlobsResult::Config(config)) => {
            assert_eq!(config.architecture, "amd64");
            assert_eq!(config.os, "linux");
            assert_eq!(config.rootfs._type, "layers");
            assert_eq!(config.rootfs.diff_ids, vec!["sha256:BBB".to_string()]);
        }
        other => panic!("unexpected {:?}", other),
    }
}

#[test]
fn any_other_digest_is_unknown() {
    for digest in ["sha256:CCC", "", "sha256:BBB", "sha256:aaa", &CONFIG_DIGEST[..70]] {
        let r = blobs(&complete(), digest);
        assert_eq!(r.err(), Some(LayerError::Blobs(BlobsError::UnknownManifest)));
    }
}

#[test]
fn config_blob_hashes_to_the_requested_digest() {
    let lman = complete();
    let manifest = manifests(lman.clone(), "latest").unwrap();
    match blobs(&lman, &manifest.config.digest) {
        Ok(BlobsResult::Config(config)) => {
            let again = Digest::new(&config).unwrap();
            assert_eq!(again.to_string(), manifest.config.digest);
            assert_eq!(again.size, manifest.config.size);
        }
        other => panic!("unexpected {:?}", other),
    }
}

#[test]
fn layer_digest_is_served_before_the_config() {
    // A document whose layer digest is the digest of its own derived config.
    let lman = pointer(CONFIG_DIGEST, Some("Qm123"), Some("sha256:BBB"));
    match blobs(&lman, CONFIG_DIGEST) {
        Ok(BlobsResult::Tarball(url)) => assert_eq!(url, "https://ipfs.io/ipfs/Qm123"),
        other => panic!("unexpected {:?}", other),
    }
}

#[test]
fn layer_blob_without_cid_is_refused() {
    let lman = pointer("sha256:AAA", None, Some("sha256:BBB"));
    let r = blobs(&lman, "sha256:AAA");
    assert_eq!(r.err(), Some(LayerError::Manifest(LayerManifestError::MissingCID)));
    // The configuration is still served.
    assert!(matches!(blobs(&lman, CONFIG_DIGEST), Ok(BlobsResult::Config(_))));
}

#[test]
fn blobs_without_fs_digest_are_refused() {
    let lman = pointer("sha256:AAA", Some("Qm123"), None);
    for digest in ["sha256:CCC", CONFIG_DIGEST, ""] {
        let r = blobs(&lman, digest);
        assert_eq!(r.err(), Some(LayerError::Manifest(LayerManifestError::MissingTarDigest)));
    }
    // The layer's own digest does not come to derive a configuration.
    assert!(matches!(blobs(&lman, "sha256:AAA"), Ok(BlobsResult::Tarball(_))));
}

#[test]
fn layer_answers_a_manifest_request() {
    let request = LayerRequest::parse(b"Qm999/manifests/latest").unwrap();
    match layer(&request, complete()) {
        Ok(LayerResult::Manifests(manifest)) => {
            assert_eq!(manifest.config.digest, CONFIG_DIGEST);
            assert_eq!(manifest.layers[0].digest, "sha256:AAA");
        }
        other => panic!("unexpected {:?}", other),
    }
}

#[test]
fn layer_answers_a_blob_request() {
    let request = LayerRequest::parse(b"Qm999/blobs/sha256:AAA").unwrap();
    match layer(&request, complete()) {
        Ok(LayerResult::Blobs(BlobsResult::Tarball(url))) => {
            assert_eq!(url, "https://ipfs.io/ipfs/Qm123")
        }
        other => panic!("unexpected {:?}", other),
    }
    let path = format!("Qm999/blobs/{}", CONFIG_DIGEST);
    let request = LayerRequest::parse(path.as_bytes()).unwrap();
    assert!(matches!(
        layer(&request, complete()),
        Ok(LayerResult::Blobs(BlobsResult::Config(_)))
    ));
}

#[test]
fn layer_reports_failures() {
    let request = LayerRequest::parse(b"Qm999/blobs/sha256:CCC").unwrap();
    let r = layer(&request, complete());
    assert_eq!(r.err(), Some(LayerError::Blobs(BlobsError::UnknownManifest)));
    let request = LayerRequest::parse(b"Qm999/manifests/latest").unwrap();
    let r = layer(&request, pointer("sha256:AAA", Some("Qm123"), None));
    assert_eq!(r.err(), Some(LayerError::Manifest(LayerManifestError::MissingTarDigest)));
}

#[test]
fn derived_config_matches_the_manifest() {
    let lman = complete();
    let config = ImageConfig::try_from(&lman).unwrap();
    let digest = Digest::new(&config).unwrap();
    let manifest = manifests(lman, "latest").unwrap();
    assert_eq!(manifest.config.digest, digest.to_string());
    assert_eq!(manifest.config.size, digest.size);
}

#[test]
fn error_messages() {
    assert_eq!(BlobsError::UnknownManifest.to_string(), "Unknown manifest");
    assert_eq!(LayerError::Blobs(BlobsError::UnknownManifest).to_string(), "Unknown manifest");
    assert_eq!(
        LayerError::Manifest(LayerManifestError::MissingCID).to_string(),
        "Missing io.ocipfs.layer.ipfs.cid annotation"
    );
    assert_eq!(
        LayerError::Manifest(LayerManifestError::MissingTarDigest).to_string(),
        "Missing io.ocipfs.layer.fs.digest annotation"
    );
}
