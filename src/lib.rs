//! Typed data points and batches rendered to the line protocol of
//! time-series ingestion endpoints.
use vstd::prelude::*;

pub mod error;
pub mod precision;
pub mod timestamp;
mod text;
pub mod escape;
pub mod name_restriction;
mod measurement;
pub mod tag;
pub mod field;
pub mod point;
pub mod batch;
mod into_point;

pub use error::Error;
pub use precision::Precision;
pub use timestamp::Timestamp;
pub use measurement::Measurement;
pub use tag::{Tag, TagKey, TagValue};
pub use field::{Field, FieldKey, FieldString, FieldValue, FloatValue};
pub use point::{Point, PointBuilder};
pub use batch::Batch;
pub use into_point::IntoPoint;

verus! {

/// Fields of a point, in order.
pub type FiledSet = Vec<Field>;

/// Tags of a point, in order.
pub type TagSet = Vec<Tag>;

} // verus!
