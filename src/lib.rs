//! Geotagged photo datasets: coordinates from image metadata, GeoJSON and
//! KML records, and merging newly found files into a prior export.
//!
//! `codec` turns degree / minute / second rationals into signed decimal
//! degrees; `location` holds one file's record and its four conversions;
//! `dataset` loads, merges, filters by capture time and renders; `document`
//! models the parts of JSON and KML documents that are read; `text` writes
//! numbers and escaped strings.
pub mod codec;
pub mod text;
pub mod document;
pub mod location;
pub mod dataset;
