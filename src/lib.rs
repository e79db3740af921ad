//! Joins a geospatial feature extract with a flat file of property
//! transactions: address keys are normalized, the feature stream is indexed
//! by key and by node id, each transaction row is probed against the index,
//! the matched element is re-read from its seek point, and the match is kept
//! only where the row's postcode is among those nearest to the building.
pub mod feature;
pub mod index;
pub mod join;
pub mod materialize;
pub mod normalize;
pub mod record;
