//! Configuration for the beanification engine.
use vstd::prelude::*;

verus! {

/// Tunable knobs controlling how text is turned into Mr-Bean-speak.
#[derive(Debug, Clone, PartialEq, Eq, Structural)]
pub struct BeanConfig {
    /// Global seed mixed into every word's PRNG. Change it to get a different
    /// (but still fully deterministic) dialect of Bean-speak.
    pub seed: u64,
    /// Probability that a word is replaced wholesale by a signature Bean-ism
    /// (e.g. "bean", "teddy") instead of a generated mumble, in the
    /// fixed-point scale of [`crate::rng::CHANCE_ONE`] (which stands for 1.0);
    /// values above it act as 1.0.
    pub signature_frequency: u64,
    /// Upper bound on the number of syllables a single generated mumble may
    /// have (0 acts as 1).
    pub max_syllables: usize,
    /// When `true`, the casing pattern of the source word (UPPER, Title, lower)
    /// is reapplied to the mumble so shouting stays shouty.
    pub preserve_case: bool,
}

/// The default seed.
pub const DEFAULT_SEED: u64 = 0xB3A4;

/// The default signature frequency: 0.18 in the scale of
/// [`crate::rng::CHANCE_ONE`], that is `ceil(0.18 * 2^53)`.
pub const DEFAULT_SIGNATURE_FREQUENCY: u64 = 1_621_295_865_853_379;

/// The default syllable cap.
pub const DEFAULT_MAX_SYLLABLES: usize = 4;

/// The configuration that `BeanConfig::default()` returns.
pub open spec fn default_config() -> BeanConfig {
    BeanConfig {
        seed: DEFAULT_SEED,
        signature_frequency: DEFAULT_SIGNATURE_FREQUENCY,
        max_syllables: DEFAULT_MAX_SYLLABLES,
        preserve_case: true,
    }
}

impl Default for BeanConfig {
    fn default() -> (config: Self)
        ensures
            config == default_config(),
    {
        BeanConfig {
            seed: DEFAULT_SEED,
            signature_frequency: DEFAULT_SIGNATURE_FREQUENCY,
            max_syllables: DEFAULT_MAX_SYLLABLES,
            preserve_case: true,
        }
    }
}

impl BeanConfig {
    /// Builder-style override of the seed.
    pub fn with_seed(self, seed: u64) -> (config: Self)
        ensures
            config == (BeanConfig { seed, ..self }),
    {
        let mut config = self;
        config.seed = seed;
        config
    }

    /// Builder-style override of the signature frequency (values above
    /// [`crate::rng::CHANCE_ONE`] act as 1.0 on use).
    pub fn with_signature_frequency(self, freq: u64) -> (config: Self)
        ensures
            config == (BeanConfig { signature_frequency: freq, ..self }),
    {
        let mut config = self;
        config.signature_frequency = freq;
        config
    }

    /// Builder-style override of the maximum syllable count (0 acts as 1 on use).
    pub fn with_max_syllables(self, max: usize) -> (config: Self)
        ensures
            config == (BeanConfig { max_syllables: max, ..self }),
    {
        let mut config = self;
        config.max_syllables = max;
        config
    }
}

} // verus!
