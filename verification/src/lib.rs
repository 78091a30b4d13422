//! A container runtime that runs WebAssembly modules as CRI containers:
//! the pod and container lifecycle state machines, the module catalog, and
//! the reference and filter logic the RPC surface rests on. The wire
//! machinery, the filesystem and the WASM engines live in the embedding;
//! every call in here says exactly what it computes and changes.

pub mod addr;
pub mod cri;
pub mod foreign;
pub mod handler;
pub mod image;
pub mod oci;
pub mod reference;
pub mod registry;
pub mod runtime;
pub mod store;
pub mod strmap;
pub mod text;
pub mod version;
pub mod wascc;
