//! The traits of the crate: featurizers, conversions and accumulators.
pub use crate::accum_ftzr::{Accumulates, Ftzr, LinearFixed};
pub use crate::feature_from::FeatureFrom;
