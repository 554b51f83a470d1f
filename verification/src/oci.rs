//! The OCI data model: descriptors, pointer documents, image configurations and
//! image manifests, together with the derivation of a configuration from a
//! pointer document.

use vstd::prelude::*;

verus! {

/// Annotation that locates the raw layer tarball on the content network.
pub const ANNOTATION_CID: &'static str = "io.ocipfs.layer.ipfs.cid";

/// Annotation that carries the digest of the uncompressed layer contents.
pub const ANNOTATION_FS_DIGEST: &'static str = "io.ocipfs.layer.fs.digest";

/// Media type of a synthesized image manifest.
pub const MEDIA_TYPE_MANIFEST: &'static str = "application/vnd.oci.image.manifest.v1+json";

/// Media type of a derived image configuration.
pub const MEDIA_TYPE_CONFIG: &'static str = "application/vnd.oci.image.config.v1+json";

/// Key of the entry at position `i`.
pub open spec fn key_at(entries: Seq<(String, String)>, i: int) -> Seq<char> {
    entries[i].0@
}

/// Value of the entry at position `i`.
pub open spec fn value_at(entries: Seq<(String, String)>, i: int) -> Seq<char> {
    entries[i].1@
}

/// No key occurs at two positions.
pub open spec fn distinct_keys(entries: Seq<(String, String)>) -> bool {
    forall|i: int, j: int|
        0 <= i < j < entries.len() ==> #[trigger] key_at(entries, i) != #[trigger] key_at(
            entries,
            j,
        )
}

/// Some entry has the key `key`.
pub open spec fn has_key(entries: Seq<(String, String)>, key: Seq<char>) -> bool {
    exists|i: int| 0 <= i < entries.len() && #[trigger] key_at(entries, i) == key
}

/// A position at which `key` occurs, if it occurs at all.
pub open spec fn key_index(entries: Seq<(String, String)>, key: Seq<char>) -> int {
    choose|i: int| 0 <= i < entries.len() && #[trigger] key_at(entries, i) == key
}

/// The mapping that a list of entries stands for.
pub open spec fn entries_map(entries: Seq<(String, String)>) -> Map<Seq<char>, Seq<char>> {
    Map::new(
        |key: Seq<char>| has_key(entries, key),
        |key: Seq<char>| value_at(entries, key_index(entries, key)),
    )
}

/// With distinct keys, each entry is what the mapping holds for its key.
pub proof fn lemma_entries_map_at(entries: Seq<(String, String)>, i: int)
    requires
        distinct_keys(entries),
        0 <= i < entries.len(),
    ensures
        entries_map(entries).contains_key(key_at(entries, i)),
        entries_map(entries)[key_at(entries, i)] == value_at(entries, i),
{
    let key = key_at(entries, i);
    let j = key_index(entries, key);
    assert(0 <= j < entries.len() && key_at(entries, j) == key);
    assert(i == j);
}

/// Replacing the entry of a key by another entry with that key keeps the
/// keys distinct, and stores the new value under the key.
proof fn lemma_entries_map_update(entries: Seq<(String, String)>, i: int, entry: (String, String))
    requires
        distinct_keys(entries),
        0 <= i < entries.len(),
        key_at(entries, i) == entry.0@,
    ensures
        distinct_keys(entries.update(i, entry)),
        entries_map(entries.update(i, entry)) == entries_map(entries).insert(entry.0@, entry.1@),
{
    let after = entries.update(i, entry);
    assert forall|a: int| 0 <= a < after.len() implies key_at(after, a) == key_at(entries, a) by {}
    assert forall|key: Seq<char>| has_key(after, key) <==> has_key(entries, key) by {
        if has_key(after, key) {
            assert(key_at(entries, key_index(after, key)) == key);
        }
        if has_key(entries, key) {
            assert(key_at(after, key_index(entries, key)) == key);
        }
    }
    assert forall|key: Seq<char>| has_key(after, key) implies entries_map(after)[key]
        == entries_map(entries).insert(entry.0@, entry.1@)[key] by {
        let j = key_index(after, key);
        lemma_entries_map_at(after, j);
        if j != i {
            assert(key_at(entries, j) == key);
            lemma_entries_map_at(entries, j);
        }
    }
    assert(key_at(entries, i) == entry.0@);
    assert(entries_map(after) =~= entries_map(entries).insert(entry.0@, entry.1@));
}

/// Appending an entry with a new key keeps the keys distinct, and stores the
/// value under the key.
proof fn lemma_entries_map_push(entries: Seq<(String, String)>, entry: (String, String))
    requires
        distinct_keys(entries),
        !has_key(entries, entry.0@),
    ensures
        distinct_keys(entries.push(entry)),
        entries_map(entries.push(entry)) == entries_map(entries).insert(entry.0@, entry.1@),
{
    let after = entries.push(entry);
    let n = entries.len() as int;
    assert forall|a: int| 0 <= a < n implies key_at(after, a) == key_at(entries, a) by {}
    assert(key_at(after, n) == entry.0@);
    assert forall|key: Seq<char>| has_key(after, key) <==> (key == entry.0@ || has_key(
        entries,
        key,
    )) by {
        if has_key(after, key) && key_index(after, key) < n {
            assert(key_at(entries, key_index(after, key)) == key);
        }
        if has_key(entries, key) {
            assert(key_at(after, key_index(entries, key)) == key);
        }
    }
    assert forall|key: Seq<char>| has_key(after, key) implies entries_map(after)[key]
        == entries_map(entries).insert(entry.0@, entry.1@)[key] by {
        let j = key_index(after, key);
        lemma_entries_map_at(after, j);
        if j < n {
            assert(key_at(entries, j) == key);
            lemma_entries_map_at(entries, j);
        }
    }
    assert(entries_map(after) =~= entries_map(entries).insert(entry.0@, entry.1@));
}

/// The position of `key` among the entries.
fn position(entries: &Vec<(String, String)>, key: &String) -> (r: Option<usize>)
    ensures
        match r {
            Some(i) => i < entries@.len() && key_at(entries@, i as int) == key@,
            None => !has_key(entries@, key@),
        },
{
    let mut i: usize = 0;
    while i < entries.len()
        invariant
            i <= entries@.len(),
            forall|j: int| 0 <= j < i ==> #[trigger] key_at(entries@, j) != key@,
        decreases entries@.len() - i,
    {
        if entries[i].0 == *key {
            return Some(i);
        }
        i += 1;
    }
    None
}

/// An unordered mapping from annotation names to values.
///
/// The entries are kept in a vector in which no key occurs twice.
#[derive(Debug)]
pub struct Annotations {
    entries: Vec<(String, String)>,
}

impl View for Annotations {
    type V = Map<Seq<char>, Seq<char>>;

    closed spec fn view(&self) -> Map<Seq<char>, Seq<char>> {
        entries_map(self.entries@)
    }
}

impl Clone for Annotations {
    fn clone(&self) -> (r: Self)
        ensures
            r@ == self@,
    {
        proof {
            use_type_invariant(self);
        }
        let mut entries: Vec<(String, String)> = Vec::new();
        let mut i: usize = 0;
        while i < self.entries.len()
            invariant
                i <= self.entries@.len(),
                entries@ == self.entries@.take(i as int),
            decreases self.entries@.len() - i,
        {
            let key = self.entries[i].0.clone();
            let value = self.entries[i].1.clone();
            entries.push((key, value));
            i += 1;
            assert(entries@ =~= self.entries@.take(i as int));
        }
        assert(entries@ =~= self.entries@);
        Annotations { entries }
    }
}

impl Annotations {
    #[verifier::type_invariant]
    closed spec fn well_formed(&self) -> bool {
        distinct_keys(self.entries@)
    }

    /// An empty mapping.
    pub fn new() -> (r: Annotations)
        ensures
            r@ == Map::<Seq<char>, Seq<char>>::empty(),
    {
        let r = Annotations { entries: Vec::new() };
        assert(r@ =~= Map::<Seq<char>, Seq<char>>::empty());
        r
    }

    /// The value stored under `key`, if there is one.
    pub fn get(&self, key: &str) -> (r: Option<&String>)
        ensures
            match r {
                Some(value) => self@.contains_key(key@) && self@[key@] == value@,
                None => !self@.contains_key(key@),
            },
    {
        proof {
            use_type_invariant(self);
        }
        let wanted = key.to_owned();
        match position(&self.entries, &wanted) {
            Some(i) => {
                proof {
                    lemma_entries_map_at(self.entries@, i as int);
                }
                Some(&self.entries[i].1)
            },
            None => None,
        }
    }

    /// Stores `value` under `key`, replacing what was stored under it before.
    pub fn insert(&mut self, key: String, value: String)
        ensures
            final(self)@ == old(self)@.insert(key@, value@),
    {
        proof {
            use_type_invariant(&*self);
        }
        let mut entries: Vec<(String, String)> = Vec::new();
        core::mem::swap(&mut self.entries, &mut entries);
        let entry = (key, value);
        match position(&entries, &entry.0) {
            Some(i) => {
                proof {
                    lemma_entries_map_update(entries@, i as int, entry);
                }
                entries.set(i, entry);
            },
            None => {
                proof {
                    lemma_entries_map_push(entries@, entry);
                }
                entries.push(entry);
            },
        }
        core::mem::swap(&mut self.entries, &mut entries);
    }

    /// The entries, each key once, in no particular order.
    pub fn entries(&self) -> (r: &Vec<(String, String)>)
        ensures
            distinct_keys(r@),
            entries_map(r@) == self@,
    {
        proof {
            use_type_invariant(self);
        }
        &self.entries
    }
}

/// The character sequences of a list of strings.
pub open spec fn strings_view(strings: Seq<String>) -> Seq<Seq<char>> {
    strings.map_values(|s: String| s@)
}

/// The root filesystem of an image: the digests of its uncompressed layers.
#[derive(Debug, Clone)]
pub struct RootFS {
    pub _type: String,
    pub diff_ids: Vec<String>,
}

/// What a [`RootFS`] holds.
pub struct RootFSView {
    pub _type: Seq<char>,
    pub diff_ids: Seq<Seq<char>>,
}

impl View for RootFS {
    type V = RootFSView;

    open spec fn view(&self) -> RootFSView {
        RootFSView { _type: self._type@, diff_ids: strings_view(self.diff_ids@) }
    }
}

/// An image configuration. It is always derived, never fetched.
#[derive(Debug, Clone)]
pub struct ImageConfig {
    pub architecture: String,
    pub os: String,
    pub rootfs: RootFS,
}

/// What an [`ImageConfig`] holds.
pub struct ImageConfigView {
    pub architecture: Seq<char>,
    pub os: Seq<char>,
    pub rootfs: RootFSView,
}

impl View for ImageConfig {
    type V = ImageConfigView;

    open spec fn view(&self) -> ImageConfigView {
        ImageConfigView {
            architecture: self.architecture@,
            os: self.os@,
            rootfs: self.rootfs@,
        }
    }
}

/// A reference to a blob: its media type, digest and size, with annotations.
#[derive(Debug, Clone)]
pub struct Descriptor {
    pub media_type: String,
    pub digest: String,
    pub size: u64,
    pub annotations: Annotations,
}

/// What a [`Descriptor`] holds.
pub struct DescriptorView {
    pub media_type: Seq<char>,
    pub digest: Seq<char>,
    pub size: u64,
    pub annotations: Map<Seq<char>, Seq<char>>,
}

impl View for Descriptor {
    type V = DescriptorView;

    open spec fn view(&self) -> DescriptorView {
        DescriptorView {
            media_type: self.media_type@,
            digest: self.digest@,
            size: self.size,
            annotations: self.annotations@,
        }
    }
}

/// The pointer document of one layer, as the content network stores it.
#[derive(Debug, Clone)]
pub struct LayerManifest {
    pub media_type: String,
    pub layer: Descriptor,
}

/// What a [`LayerManifest`] holds.
pub struct LayerManifestView {
    pub media_type: Seq<char>,
    pub layer: DescriptorView,
}

impl View for LayerManifest {
    type V = LayerManifestView;

    open spec fn view(&self) -> LayerManifestView {
        LayerManifestView { media_type: self.media_type@, layer: self.layer@ }
    }
}

/// What a list of descriptors holds.
pub open spec fn descriptors_view(descriptors: Seq<Descriptor>) -> Seq<DescriptorView> {
    descriptors.map_values(|d: Descriptor| d@)
}

/// An image manifest, synthesized for one request.
#[derive(Debug, Clone)]
pub struct ImageManifest {
    pub schema_version: i32,
    pub media_type: String,
    pub config: Descriptor,
    pub layers: Vec<Descriptor>,
}

/// What an [`ImageManifest`] holds.
pub struct ImageManifestView {
    pub schema_version: i32,
    pub media_type: Seq<char>,
    pub config: DescriptorView,
    pub layers: Seq<DescriptorView>,
}

impl View for ImageManifest {
    type V = ImageManifestView;

    open spec fn view(&self) -> ImageManifestView {
        ImageManifestView {
            schema_version: self.schema_version,
            media_type: self.media_type@,
            config: self.config@,
            layers: descriptors_view(self.layers@),
        }
    }
}

/// A pointer document that lacks a required annotation.
#[derive(Debug, Clone, Copy, PartialEq, Eq, Structural)]
pub enum LayerManifestError {
    MissingCID,
    MissingTarDigest,
}

impl LayerManifestError {
    /// The message of the error.
    pub open spec fn message(self) -> Seq<char> {
        match self {
            LayerManifestError::MissingCID => "Missing io.ocipfs.layer.ipfs.cid annotation"@,
            LayerManifestError::MissingTarDigest => "Missing io.ocipfs.layer.fs.digest annotation"@,
        }
    }

    /// The message of the error, for display.
    pub fn to_string(&self) -> (r: String)
        ensures
            r@ == self.message(),
    {
        match self {
            LayerManifestError::MissingCID => {
                "Missing io.ocipfs.layer.ipfs.cid annotation".to_owned()
            },
            LayerManifestError::MissingTarDigest => {
                "Missing io.ocipfs.layer.fs.digest annotation".to_owned()
            },
        }
    }
}

/// The configuration whose only layer has the filesystem digest `fs_digest`.
pub open spec fn config_for(fs_digest: Seq<char>) -> ImageConfigView {
    ImageConfigView {
        architecture: "amd64"@,
        os: "linux"@,
        rootfs: RootFSView { _type: "layers"@, diff_ids: seq![fs_digest] },
    }
}

/// The configuration that a pointer document determines: it exists exactly
/// when the layer carries the filesystem digest annotation.
pub open spec fn derive_config(lm: LayerManifestView) -> Result<
    ImageConfigView,
    LayerManifestError,
> {
    if lm.layer.annotations.contains_key(ANNOTATION_FS_DIGEST@) {
        Ok(config_for(lm.layer.annotations[ANNOTATION_FS_DIGEST@]))
    } else {
        Err(LayerManifestError::MissingTarDigest)
    }
}

impl ImageConfig {
    /// Derives the image configuration from a pointer document.
    pub fn try_from(lm: &LayerManifest) -> (r: Result<ImageConfig, LayerManifestError>)
        ensures
            match r {
                Ok(config) => derive_config(lm@) == Ok::<ImageConfigView, LayerManifestError>(
                    config@,
                ),
                Err(e) => derive_config(lm@) == Err::<ImageConfigView, LayerManifestError>(e),
            },
    {
        match lm.layer.annotations.get(ANNOTATION_FS_DIGEST) {
            None => Err(LayerManifestError::MissingTarDigest),
            Some(tsha) => {
                let diff_ids = vec![tsha.clone()];
                assert(strings_view(diff_ids@) =~= seq![tsha@]);
                Ok(
                    ImageConfig {
                        architecture: "amd64".to_owned(),
                        os: "linux".to_owned(),
                        rootfs: RootFS { _type: "layers".to_owned(), diff_ids },
                    },
                )
            },
        }
    }
}

} // verus!
