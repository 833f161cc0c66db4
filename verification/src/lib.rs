//! Turn ordinary text into Mr-Bean-speak: a deterministic stream of mumbles,
//! grumbles and the occasional "bean".
//!
//! Only alphanumeric runs are rewritten, so whitespace, punctuation and line
//! breaks survive untouched, and a given word under a given configuration
//! always maps to the same mumble.
use vstd::prelude::*;

pub mod beanify;
pub mod config;
pub mod rng;
pub mod syllables;
pub mod text;
pub mod unicode;
pub mod laws;
pub mod cli;
pub mod paths;

pub use beanify::Beanifier;
pub use config::BeanConfig;

verus! {

/// Convenience: beanify text with the default configuration.
pub fn beanify(input: &str) -> (r: String)
    ensures
        r@ == beanify::beanified_text(config::default_config(), input@),
{
    Beanifier::default().beanify_text(input)
}

} // verus!
