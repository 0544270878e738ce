//! Nearest known address point for a latitude and longitude.
//!
//! The crate holds the decisions of a reverse geocoding service: which entries
//! of a geographic dataset become address points, which of the points that a
//! spatial search found is the answer to a query, and what the service
//! replies. Distances reach it as integers that order as the distances do, so
//! that every choice it makes is stated and proved over plain values.

pub mod handler;
pub mod index;
pub mod record;
pub mod source;

pub use handler::{healthcheck, search_handler, ApiResponse, Status};
pub use index::{Candidate, SpatialIndex};
pub use record::MyPoint;
pub use source::{make_rtree, Attribute, Shape, SourceEntry};
