//! A canonical byte- and text-representation layer.
//!
//! Values are carried across system boundaries either as canonical
//! messagepack bytes (`SerializedBytes`) or as canonical JSON text
//! (`JsonString`).  Both containers are produced and consumed only through
//! conversion functions with verified contracts, and the conversions are
//! proved to round-trip.

pub mod bytes;
pub mod error;
pub mod json;
pub mod text;
pub mod value;

pub use bytes::{decode, encode, SerializedBytes, SerializedBytesError, UnsafeBytes};
pub use error::{IoFailureKind, JsonError, JsonResult};
pub use json::{DefaultJson, JsonString, JsonStringOption, RawString};
pub use value::CodecValue;
