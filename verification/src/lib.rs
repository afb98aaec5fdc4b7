//! Static ASN.1 type metadata: tags, tag trees, constraints, field and
//! variant descriptors, and the capability traits that bind a Rust type to
//! its ASN.1 semantics. Encoding-rule codecs consume these descriptors; no
//! byte-level serialization happens here.

pub mod bindings;
pub mod constraints;
pub mod fields;
pub mod integer;
pub mod lookup;
pub mod sample;
pub mod tag;
pub mod types;

pub use constraints::{Constraint, Constraints, Extensible};
pub use integer::{ConstrainedInteger, Integer};
pub use tag::{Class, Tag, TagTree};
pub use types::{AsnType, Choice, Constructed, DecodeChoice, Enumerated};
