//! DNS resolution results normalized into the DoH JSON response shape.
//!
//! The library holds the logic that is easy to break and worth proving:
//! parsing server addresses and IP literals (`ip`), building the
//! canonical reverse-lookup name (`reverse`), rendering every supported
//! record payload into its fixed textual form (`rdata`), classifying
//! resolver failures into response statuses (`status`), assembling the
//! response object and its exact JSON text with the omit-if-empty rules
//! (`response`), and putting those together per query (`executor`).
//! Network traffic, the async runtime and the foreign-call boundary stay
//! outside; they hand this library plain values and take plain values
//! back.
pub mod executor;
pub mod ip;
pub mod rdata;
pub mod response;
pub mod reverse;
pub mod status;
pub mod text;
