//! Composable n-gram featurization: windowing featurizers and combinators that
//! visit groups of tokens, conversions from token groups to features, and
//! accumulators that fold features into containers.
//!
//! Every featurizer states, as a sequence of values, the token groups it finds
//! in an input (`Ftzr::spec_groups`); `featurize` is proved to convert exactly
//! those groups, in order, and to fold them into the chosen container.
pub mod val;
pub mod convert;
pub mod feature_from;
pub mod accum_ftzr;
pub mod accumulators;
pub mod tokengroup;
pub mod hashedfeature;
pub mod n_slice;
pub mod n_gram;
pub mod whole_empty;
pub mod multiftzr;
pub mod bookends;
pub mod gap_gram;
pub mod skip_schema;
pub mod for_each;
pub mod bench_criterionized;
pub mod traits;
pub mod ftzrs;
pub use hashedfeature::HashedAs;
