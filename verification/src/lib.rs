//! An OCI registry front for layers that live on IPFS.
//!
//! A client asks for the image manifest or for a blob of a content
//! identifier. The content network holds, under that identifier, a small
//! pointer document that names one layer. From it the library derives the
//! image configuration, hashes the configuration's canonical JSON text, and
//! answers with a synthesized manifest, with the configuration itself, or
//! with a redirect to the gateway that serves the layer tarball.
//!
//! - [`path`] reads the request path.
//! - [`oci`] holds the data model and derives the image configuration.
//! - [`digest`] hashes canonical JSON text.
//! - [`registry`] resolves manifests and blobs and states what holds of them.
//! - [`response`] says how answers and failures go back to the client.
//!
//! Fetching and decoding the pointer document is left to the caller; every
//! function here works on values that are already in memory.

pub mod digest;
pub mod oci;
pub mod path;
pub mod registry;
pub mod response;
