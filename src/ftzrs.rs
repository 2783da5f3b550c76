//! Featurizers and combinators, and the constructors that build them.
pub use crate::bookends::bookends;
pub use crate::for_each::for_each;
pub use crate::gap_gram::gap_gram;
pub use crate::multiftzr::multi;
pub use crate::n_gram::{bigram, n_gram, trigram};
pub use crate::n_slice::{bislice, n_slice, trislice};
pub use crate::whole_empty::{empty, whole};
