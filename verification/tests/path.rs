use ocipfs::path::{LayerRequest, PathError};

fn below_layer(path: &str) -> &[u8] {
    path.strip_prefix("/v2/layer/").unwrap().as_bytes()
}

#[test]
fn parses_manifest_request() {
    match LayerRequest::parse(b"QmAbc/manifests/latest") {
        Ok(LayerRequest::Manifests { cid, tag }) => {
            assert_eq!(cid, "QmAbc");
            assert_eq!(tag, "latest");
        }
        other => panic!("unexpected {:?}", other),
    }
}

#[test]
fn parses_blob_request() {
    match LayerRequest::parse(b"QmAbc/blobs/sha256:0123") {
        Ok(LayerRequest::Blobs { cid, digest }) => {
            assert_eq!(cid, "QmAbc");
            assert_eq!(digest, "sha256:0123");
        }
        other => panic!("unexpected {:?}", other),
    }
}

#[test]
fn content_id_keeps_its_segments() {
    let request = LayerRequest::parse(b"ipns/example.org/img/manifests/v1").unwrap();
    assert_eq!(request.cid(), "ipns/example.org/img");
    match request {
        LayerRequest::Manifests { tag, .. } => assert_eq!(tag, "v1"),
        other => panic!("unexpected {:?}", other),
    }
}

#[test]
fn content_id_of_blob_request() {
    let request = LayerRequest::parse(b"Qm1/blobs/sha256:ff").unwrap();
    assert_eq!(request.cid(), "Qm1");
}

#[test]
fn empty_tag_is_refused() {
    let r = LayerRequest::parse(below_layer("/v2/layer/abc/manifests/"));
    assert!(matches!(r, Err(PathError::NoLastComponent)));
}

#[test]
fn missing_content_id_is_refused() {
    let r = LayerRequest::parse(below_layer("/v2/layer/manifests/tag"));
    assert!(matches!(r, Err(PathError::NoCid)));
}

#[test]
fn empty_content_id_is_refused() {
    let r = LayerRequest::parse(b"/manifests/tag");
    assert!(matches!(r, Err(PathError::NoCid)));
}

#[test]
fn empty_path_has_no_base() {
    assert!(matches!(LayerRequest::parse(b""), Err(PathError::NoBaseComponent)));
}

#[test]
fn single_segment_has_no_operation() {
    assert!(matches!(LayerRequest::parse(b"abc"), Err(PathError::NoOp)));
}

#[test]
fn empty_operation_is_refused() {
    assert!(matches!(LayerRequest::parse(b"abc//tag"), Err(PathError::NoOp)));
    assert!(matches!(LayerRequest::parse(b"/tag"), Err(PathError::NoOp)));
}

#[test]
fn lone_separator_has_no_operation() {
    assert!(matches!(LayerRequest::parse(b"/"), Err(PathError::NoOp)));
}

#[test]
fn unknown_operation_is_named() {
    match LayerRequest::parse(b"abc/tags/list") {
        Err(PathError::UnknownOperation(op)) => assert_eq!(op, "tags"),
        other => panic!("unexpected {:?}", other),
    }
}

#[test]
fn operation_names_are_case_sensitive() {
    match LayerRequest::parse(b"abc/Manifests/latest") {
        Err(PathError::UnknownOperation(op)) => assert_eq!(op, "Manifests"),
        other => panic!("unexpected {:?}", other),
    }
}

#[test]
fn bad_utf8_in_operation() {
    let r = LayerRequest::parse(b"abc/\xff\xfe/tag");
    assert!(matches!(r, Err(PathError::BadUTF8)));
}

#[test]
fn bad_utf8_in_last_segment() {
    let r = LayerRequest::parse(b"abc/manifests/\xc3");
    assert!(matches!(r, Err(PathError::BadUTF8)));
}

#[test]
fn bad_utf8_in_content_id() {
    let r = LayerRequest::parse(b"a\x80c/blobs/sha256:00");
    assert!(matches!(r, Err(PathError::BadUTF8)));
}

#[test]
fn operation_is_examined_before_the_last_segment() {
    // Both the operation and the final segment are missing.
    assert!(matches!(LayerRequest::parse(b"abc//"), Err(PathError::NoOp)));
    // The operation is malformed and the final segment is missing.
    assert!(matches!(LayerRequest::parse(b"abc/\xff/"), Err(PathError::BadUTF8)));
}

#[test]
fn last_segment_is_examined_before_the_content_id() {
    assert!(matches!(LayerRequest::parse(b"manifests/"), Err(PathError::NoLastComponent)));
}

#[test]
fn non_ascii_segments_are_decoded() {
    let request = LayerRequest::parse("ünï/manifests/tåg".as_bytes()).unwrap();
    match request {
        LayerRequest::Manifests { cid, tag } => {
            assert_eq!(cid, "ünï");
            assert_eq!(tag, "tåg");
        }
        other => panic!("unexpected {:?}", other),
    }
}

#[test]
fn path_error_messages() {
    assert_eq!(PathError::NoLastComponent.to_string(), "No last component");
    assert_eq!(PathError::NoBaseComponent.to_string(), "No base component");
    assert_eq!(PathError::NoOp.to_string(), "No operation");
    assert_eq!(PathError::NoCid.to_string(), "No CID");
    assert_eq!(PathError::BadUTF8.to_string(), "Cannot convert to UTF-8");
    assert_eq!(
        PathError::UnknownOperation("tags".to_string()).to_string(),
        "Unknown operation tags"
    );
}
