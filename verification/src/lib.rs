//! A sidecar command bridge: a host application invokes an out-of-process
//! worker synchronously, exchanging one structured document over the worker's
//! standard input and output per call, and turning process-level and
//! data-level failures into a typed error taxonomy.
//!
//! The library holds everything that can be stated and proved: the document
//! model and its wire format (`doc`, `wire`, `parse`), the law that the wire
//! format round-trips (`roundtrip`), the classification of a finished worker
//! process into a response or an error (`sidecar`), and the per-command
//! request builders and response decoders (`router`). Running the worker
//! process itself is the embedding application's job: it drives a
//! `sidecar::BridgeCall` and hands every observed event back to the library.

pub mod doc;
pub mod parse;
pub mod roundtrip;
pub mod router;
pub mod sidecar;
pub mod wire;
