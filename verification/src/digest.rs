//! Content digests: the SHA-256 hash of the canonical JSON text of a value,
//! together with the length of that text.
//!
//! The text is never held in memory as a whole. Its pieces go, as they are
//! produced, through a byte counter into the hasher, so that the hash and the
//! size are taken from the same bytes.

use crate::oci::{strings_view, ImageConfig, ImageConfigView, RootFS, RootFSView};
use count_write::CountWrite;
use generic_array::typenum::U32;
use generic_array::GenericArray;
use sha2::Sha256;
use vstd::prelude::*;
use vstd::string::StringSliceAdditionalSpecFns;

verus! {

/// `sha2::Sha256`, a SHA-256 hasher. What is inside it is not seen here.
#[verifier::external_type_specification]
#[verifier::external_body]
pub struct ExSha256(Sha256);

/// `count_write::CountWrite`, a writer that counts the bytes it hands on to
/// the writer inside it. What is inside it is not seen here.
#[verifier::external_type_specification]
#[verifier::external_body]
#[verifier::reject_recursive_types(W)]
pub struct ExCountWrite<W>(CountWrite<W>);

/// The SHA-256 hash of a byte sequence: what `sha2::Digest::finalize` returns
/// for a `sha2::Sha256` that has absorbed exactly these bytes.
pub uninterp spec fn sha256(data: Seq<u8>) -> Seq<u8>;

/// The JSON string literal for `s`, quotes and escapes included, as UTF-8:
/// what `serde_json::to_vec` returns for a string.
pub uninterp spec fn json_string(s: Seq<char>) -> Seq<u8>;

/// Every byte that the hasher has absorbed since it was made, in order.
pub uninterp spec fn absorbed(hasher: Sha256) -> Seq<u8>;

/// Every byte that the hasher inside the counter has absorbed since it was
/// made, in order.
pub uninterp spec fn hashed(sink: CountWrite<Sha256>) -> Seq<u8>;

/// The number of bytes that the counter reports.
pub uninterp spec fn counted(sink: CountWrite<Sha256>) -> u64;

/// The longest input, in bytes, that the hasher takes: it counts the bits of
/// its input in 64 bits.
pub const SHA256_MAX_BYTES: u64 = 0x1fff_ffff_ffff_ffff;

/// `sha2::Digest::new` for `sha2::Sha256`: a hasher that has absorbed
/// nothing.
#[verifier::external_body]
fn hasher_new() -> (hasher: Sha256)
    ensures
        absorbed(hasher) == Seq::<u8>::empty(),
{
    <Sha256 as sha2::Digest>::new()
}

/// `sha2::Digest::finalize` for `sha2::Sha256`: the SHA-256 hash of what the
/// hasher has absorbed, as an array.
#[verifier::external_body]
fn hasher_finalize(hasher: Sha256) -> (hash: [u8; 32])
    ensures
        hash@ == sha256(absorbed(hasher)),
{
    sha2::Digest::finalize(hasher).into()
}

/// `count_write::CountWrite::from`: the hasher behind a counter that stands
/// at zero.
#[verifier::external_body]
fn sink_from(hasher: Sha256) -> (sink: CountWrite<Sha256>)
    ensures
        hashed(sink) == absorbed(hasher),
        counted(sink) == 0,
{
    CountWrite::from(hasher)
}

/// `std::io::Write::write_all` on the counter: the hasher absorbs `data` and
/// the counter advances by its length. The hasher's `write` takes every
/// buffer whole and reports no error, so neither does `write_all`. The bound
/// keeps the hasher's bit count and the counter within 64 bits, so that the
/// call does not panic.
#[verifier::external_body]
fn sink_write(sink: &mut CountWrite<Sha256>, data: &[u8])
    requires
        hashed(*old(sink)).len() + data@.len() <= SHA256_MAX_BYTES,
        counted(*old(sink)) + data@.len() <= u64::MAX,
    ensures
        hashed(*final(sink)) == hashed(*old(sink)) + data@,
        counted(*final(sink)) == counted(*old(sink)) + data@.len(),
    no_unwind
{
    let _ = std::io::Write::write_all(sink, data);
}

/// `count_write::CountWrite::count`: the counter's value.
#[verifier::external_body]
fn sink_count(sink: &CountWrite<Sha256>) -> (n: u64)
    ensures
        n == counted(*sink),
{
    sink.count()
}

/// `count_write::CountWrite::into_inner`: the hasher, with all that it has
/// absorbed.
#[verifier::external_body]
fn sink_into_inner(sink: CountWrite<Sha256>) -> (hasher: Sha256)
    ensures
        absorbed(hasher) == hashed(sink),
{
    sink.into_inner()
}

/// `serde_json::to_vec` on a string: its JSON string literal. The serializer
/// fails on a string only when its writer does, and a vector takes every
/// write, so the call reports no error.
#[verifier::external_body]
fn json_encode(s: &str) -> (r: Vec<u8>)
    ensures
        r@ == json_string(s@),
{
    serde_json::to_vec(s).unwrap_or_default()
}

/// The hexadecimal digit, in lower case, of a number below sixteen.
pub open spec fn hex_digit(n: u8) -> char {
    if n < 10 {
        ('0' as u8 + n) as char
    } else {
        ('a' as u8 + (n - 10)) as char
    }
}

/// Two hexadecimal digits for each byte, the high one first, in lower case.
pub open spec fn lower_hex(bytes: Seq<u8>) -> Seq<char> {
    Seq::new(
        2 * bytes.len(),
        |i: int|
            hex_digit(
                if i % 2 == 0 {
                    bytes[i / 2] / 16
                } else {
                    bytes[i / 2] % 16
                },
            ),
    )
}

/// `LowerHex` of `generic_array::GenericArray<u8, U32>`: the hash in
/// hexadecimal digits.
#[verifier::external_body]
fn hex_string(hash: &[u8; 32]) -> (r: String)
    ensures
        r@ == lower_hex(hash@),
{
    format!("{:x}", GenericArray::<u8, U32>::from(*hash))
}

/// The JSON string literals of `items`, separated by commas.
pub open spec fn json_strings(items: Seq<Seq<char>>) -> Seq<u8>
    decreases items.len(),
{
    if items.len() == 0 {
        Seq::empty()
    } else if items.len() == 1 {
        json_string(items[0])
    } else {
        json_strings(items.drop_last()) + ",".spec_bytes() + json_string(items.last())
    }
}

/// The canonical JSON text of a root filesystem: its fields in the order of
/// their declaration, without white space.
pub open spec fn rootfs_json(rootfs: RootFSView) -> Seq<u8> {
    "{\"type\":".spec_bytes() + json_string(rootfs._type) + ",\"diff_ids\":[".spec_bytes()
        + json_strings(rootfs.diff_ids) + "]}".spec_bytes()
}

/// The canonical JSON text of an image configuration: its fields in the order
/// of their declaration, without white space.
pub open spec fn config_json(config: ImageConfigView) -> Seq<u8> {
    "{\"architecture\":".spec_bytes() + json_string(config.architecture) + ",\"os\":".spec_bytes()
        + json_string(config.os) + ",\"rootfs\":".spec_bytes() + rootfs_json(config.rootfs)
        + "}".spec_bytes()
}

/// The name of the hash algorithm, as digests are tagged with it.
pub const ALGORITHM: &'static str = "sha256";

/// How a digest with the hash `hash` is written: the algorithm, a colon, and
/// the hash in hexadecimal digits.
pub open spec fn digest_text(hash: Seq<u8>) -> Seq<char> {
    ALGORITHM@ + ":"@ + lower_hex(hash)
}

/// The digest of an image configuration, as it is written.
pub open spec fn config_digest(config: ImageConfigView) -> Seq<char> {
    digest_text(sha256(config_json(config)))
}

/// A value whose canonical text cannot be hashed.
#[derive(Debug, Clone, Copy, PartialEq, Eq, Structural)]
pub enum DigestError {
    /// The text is longer than the hasher takes.
    TooLarge,
}

impl DigestError {
    /// The message of the error.
    pub open spec fn message(self) -> Seq<char> {
        "Serialized value is too large to hash"@
    }

    /// The message of the error, for display.
    pub fn to_string(&self) -> (r: String)
        ensures
            r@ == self.message(),
    {
        "Serialized value is too large to hash".to_owned()
    }
}

/// A SHA-256 content digest, with the number of bytes that were hashed.
#[derive(Debug, Clone, Copy)]
pub struct Digest {
    pub hash: [u8; 32],
    pub size: u64,
}

/// A hasher behind a byte counter, which takes a text piece by piece.
///
/// Text that the hasher cannot take in full is not hashed at all, whatever
/// follows it.
pub struct DigestWriter {
    /// The hasher behind the counter, with what it has taken of the text.
    sink: CountWrite<Sha256>,
    /// Whether the text has outgrown the hasher.
    overflow: bool,
    /// The whole text, once it has outgrown the hasher.
    lost: Ghost<Seq<u8>>,
}

impl DigestWriter {
    #[verifier::type_invariant]
    closed spec fn well_formed(&self) -> bool {
        &&& counted(self.sink) == hashed(self.sink).len()
        &&& hashed(self.sink).len() <= SHA256_MAX_BYTES
        &&& self.overflow ==> self.lost@.len() > SHA256_MAX_BYTES
    }

    /// The text that was written so far.
    pub closed spec fn text(&self) -> Seq<u8> {
        if self.overflow {
            self.lost@
        } else {
            hashed(self.sink)
        }
    }

    /// A writer to which nothing was written yet.
    pub fn new() -> (w: DigestWriter)
        ensures
            w.text() == Seq::<u8>::empty(),
    {
        DigestWriter { sink: sink_from(hasher_new()), overflow: false, lost: Ghost(Seq::empty()) }
    }

    /// Appends `data` to the text.
    pub fn write(&mut self, data: &[u8])
        ensures
            final(self).text() == old(self).text() + data@,
    {
        proof {
            use_type_invariant(&*self);
        }
        if self.overflow {
            proof {
                self.lost@ = self.lost@ + data@;
            }
        } else {
            let count = sink_count(&self.sink);
            if data.len() as u64 <= SHA256_MAX_BYTES - count {
                sink_write(&mut self.sink, data);
            } else {
                proof {
                    self.lost@ = hashed(self.sink) + data@;
                }
                self.overflow = true;
            }
        }
    }

    /// Appends the JSON string literal for `s` to the text.
    pub fn write_string(&mut self, s: &str)
        ensures
            final(self).text() == old(self).text() + json_string(s@),
    {
        let literal = json_encode(s);
        self.write(literal.as_slice());
    }

    /// The digest of the text. There is none exactly when the text is longer
    /// than the hasher takes.
    pub fn finish(self) -> (r: Result<Digest, DigestError>)
        ensures
            r is Ok <==> self.text().len() <= SHA256_MAX_BYTES,
            r matches Ok(digest) ==> digest.hash@ == sha256(self.text()) && digest.size
                == self.text().len(),
    {
        proof {
            use_type_invariant(&self);
        }
        if self.overflow {
            Err(DigestError::TooLarge)
        } else {
            let size = sink_count(&self.sink);
            let hash = hasher_finalize(sink_into_inner(self.sink));
            Ok(Digest { hash, size })
        }
    }
}

/// A value with a canonical JSON text: one text for each value, with a fixed
/// order of fields and fixed keys.
pub trait CanonicalJson {
    /// The canonical JSON text of the value.
    spec fn json(&self) -> Seq<u8>;

    /// Appends the canonical JSON text of the value to what `w` holds.
    fn write_json(&self, w: &mut DigestWriter)
        ensures
            final(w).text() == old(w).text() + self.json(),
    ;
}

impl CanonicalJson for RootFS {
    open spec fn json(&self) -> Seq<u8> {
        rootfs_json(self@)
    }

    fn write_json(&self, w: &mut DigestWriter) {
        let ghost before = w.text();
        w.write("{\"type\":".as_bytes());
        w.write_string(self._type.as_str());
        w.write(",\"diff_ids\":[".as_bytes());
        let ghost head = w.text();
        let ghost ids = strings_view(self.diff_ids@);
        let mut i: usize = 0;
        while i < self.diff_ids.len()
            invariant
                i <= self.diff_ids@.len(),
                ids == strings_view(self.diff_ids@),
                w.text() == head + json_strings(ids.take(i as int)),
            decreases self.diff_ids@.len() - i,
        {
            if i > 0 {
                w.write(",".as_bytes());
            }
            w.write_string(self.diff_ids[i].as_str());
            proof {
                let now = ids.take(i + 1);
                assert(now.drop_last() =~= ids.take(i as int));
                assert(now.last() == self.diff_ids@[i as int]@);
                assert(w.text() =~= head + json_strings(now));
            }
            i += 1;
        }
        assert(ids.take(i as int) =~= ids);
        w.write("]}".as_bytes());
        assert(w.text() =~= before + rootfs_json(self@));
    }
}

impl CanonicalJson for ImageConfig {
    open spec fn json(&self) -> Seq<u8> {
        config_json(self@)
    }

    fn write_json(&self, w: &mut DigestWriter) {
        let ghost before = w.text();
        w.write("{\"architecture\":".as_bytes());
        w.write_string(self.architecture.as_str());
        w.write(",\"os\":".as_bytes());
        w.write_string(self.os.as_str());
        w.write(",\"rootfs\":".as_bytes());
        self.rootfs.write_json(w);
        w.write("}".as_bytes());
        assert(w.text() =~= before + config_json(self@));
    }
}

impl Digest {
    /// Hashes the canonical JSON text of `value`.
    ///
    /// This fails exactly when the text is longer than the hasher takes.
    pub fn new<T: CanonicalJson>(value: &T) -> (r: Result<Digest, DigestError>)
        ensures
            r is Ok <==> value.json().len() <= SHA256_MAX_BYTES,
            r matches Ok(digest) ==> digest.hash@ == sha256(value.json()) && digest.size
                == value.json().len(),
    {
        let mut w = DigestWriter::new();
        value.write_json(&mut w);
        assert(w.text() =~= value.json());
        w.finish()
    }

    /// The digest as it is written.
    pub open spec fn text(self) -> Seq<char> {
        digest_text(self.hash@)
    }

    /// The digest as it is written: the algorithm, a colon, and the hash in
    /// hexadecimal digits.
    pub fn to_string(&self) -> (r: String)
        ensures
            r@ == self.text(),
    {
        let mut text = ALGORITHM.to_owned();
        text.append(":");
        text.append(hex_string(&self.hash).as_str());
        text
    }
}

} // verus!
