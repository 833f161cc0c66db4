//! The beanification engine: turn ordinary text into Mr-Bean-speak.
use vstd::prelude::*;
use vstd::utf8::encode_utf8;
use crate::config::{BeanConfig, default_config};
use crate::rng::{Rng, fnv1a_spec, draw, state_after, chance_hit};
use crate::syllables::{ONSETS, NUCLEI, CODAS, SIGNATURES};
use crate::text::{rewrite_words, all_alphanumeric, word_start};
use crate::text::{lemma_rewrite_append_word, lemma_rewrite_append_separator};
use crate::unicode::{
    is_uppercase_char, is_lowercase_char, lowercase_of, uppercase_of,
    char_uppercase_of, char_is_alphanumeric, char_is_uppercase, char_is_lowercase,
    str_to_lowercase, str_to_uppercase, char_to_uppercase, push_char,
};

verus! {

/// Casing pattern detected on a source word, reapplied to its mumble.
#[derive(Debug, Clone, Copy, PartialEq, Eq, Structural)]
pub enum Case {
    /// All cased letters were upper case (and there was more than one).
    Upper,
    /// The first cased letter was upper case and every later one lower case.
    Title,
    /// Anything else (all lower, mixed, or no cased letters).
    Lower,
}

/// The number of uppercase characters in `s`.
pub open spec fn count_upper(s: Seq<char>) -> nat
    decreases s.len(),
{
    if s.len() == 0 {
        0
    } else {
        count_upper(s.drop_last()) + if is_uppercase_char(s.last()) { 1nat } else { 0nat }
    }
}

/// The number of characters in `s` that are lowercase and not uppercase.
pub open spec fn count_lower(s: Seq<char>) -> nat
    decreases s.len(),
{
    if s.len() == 0 {
        0
    } else {
        count_lower(s.drop_last()) + if !is_uppercase_char(s.last()) && is_lowercase_char(
            s.last(),
        ) {
            1nat
        } else {
            0nat
        }
    }
}

/// A character is cased when it is uppercase or lowercase.
pub open spec fn is_cased(c: char) -> bool {
    is_uppercase_char(c) || is_lowercase_char(c)
}

/// Some character of `s` is cased.
pub open spec fn has_cased(s: Seq<char>) -> bool {
    exists|k: int| 0 <= k < s.len() && #[trigger] is_cased(s[k])
}

/// The first cased character of `s` is uppercase.
pub open spec fn first_cased_is_upper(s: Seq<char>) -> bool {
    exists|i: int|
        0 <= i < s.len() && #[trigger] is_uppercase_char(s[i]) && forall|j: int|
            0 <= j < i ==> !#[trigger] is_cased(s[j])
}

/// Appending a character decides the first cased character only when there
/// was none before.
proof fn lemma_first_cased_push(s: Seq<char>, c: char)
    ensures
        has_cased(s.push(c)) == (has_cased(s) || is_cased(c)),
        first_cased_is_upper(s.push(c)) == if has_cased(s) {
            first_cased_is_upper(s)
        } else {
            is_uppercase_char(c)
        },
{
    let t = s.push(c);
    assert(t[s.len() as int] == c);
    assert forall|k: int| 0 <= k < s.len() implies t[k] == s[k] by {}
    if has_cased(s) {
        let k0 = choose|k: int| 0 <= k < s.len() && #[trigger] is_cased(s[k]);
        assert(is_cased(t[k0]));
        if first_cased_is_upper(s) {
            let w = choose|i: int|
                0 <= i < s.len() && #[trigger] is_uppercase_char(s[i]) && forall|j: int|
                    0 <= j < i ==> !#[trigger] is_cased(s[j]);
            assert(is_uppercase_char(t[w]));
        }
        if first_cased_is_upper(t) {
            let w = choose|i: int|
                0 <= i < t.len() && #[trigger] is_uppercase_char(t[i]) && forall|j: int|
                    0 <= j < i ==> !#[trigger] is_cased(t[j]);
            if w == s.len() {
                assert(!is_cased(t[k0]));
            }
            assert(is_uppercase_char(s[w]));
        }
    } else {
        if is_cased(c) {
            assert(is_cased(t[s.len() as int]));
        }
        if is_uppercase_char(c) {
            assert(is_uppercase_char(t[s.len() as int]));
        }
        if first_cased_is_upper(t) {
            let w = choose|i: int|
                0 <= i < t.len() && #[trigger] is_uppercase_char(t[i]) && forall|j: int|
                    0 <= j < i ==> !#[trigger] is_cased(t[j]);
            if w < s.len() {
                assert(is_cased(s[w]));
            }
        }
    }
}

/// The casing pattern of a word: UPPER when it has no lowercase letters and
/// at least two uppercase ones; otherwise Title when its first cased letter is
/// uppercase and every later cased letter lowercase (so it has exactly one
/// uppercase letter); otherwise lower (all lower, mixed, or no cased letters).
pub open spec fn detected_case(s: Seq<char>) -> Case {
    if count_lower(s) == 0 && count_upper(s) >= 2 {
        Case::Upper
    } else if first_cased_is_upper(s) && count_upper(s) == 1 {
        Case::Title
    } else {
        Case::Lower
    }
}

/// `text` with a casing pattern applied: UPPER maps the whole text to upper
/// case, Title maps its first character only, lower leaves it unchanged.
pub open spec fn cased(text: Seq<char>, case: Case) -> Seq<char> {
    match case {
        Case::Upper => uppercase_of(text),
        Case::Lower => text,
        Case::Title => if text.len() == 0 {
            Seq::empty()
        } else {
            char_uppercase_of(text[0]) + text.drop_first()
        },
    }
}

/// Detect the casing pattern of a word.
pub fn detect_case(word: &str) -> (case: Case)
    ensures
        case == detected_case(word@),
{
    let n = word.unicode_len();
    let mut has_upper = false;
    let mut has_lower = false;
    let mut cased_count: usize = 0;
    let mut upper_count: usize = 0;
    let mut first_is_upper = false;
    let mut first_seen = false;
    let ghost s = word@;

    for ch in it: word.chars()
        invariant
            it.seq() == s,
            s.len() == n,
            has_upper == (count_upper(s.take(it.index() as int)) > 0),
            has_lower == (count_lower(s.take(it.index() as int)) > 0),
            cased_count == count_upper(s.take(it.index() as int)) + count_lower(
                s.take(it.index() as int),
            ),
            cased_count <= it.index(),
            upper_count == count_upper(s.take(it.index() as int)),
            first_seen == has_cased(s.take(it.index() as int)),
            first_is_upper == first_cased_is_upper(s.take(it.index() as int)),
    {
        let ghost i = it.index() as int;
        assert(s.take(i + 1).drop_last() =~= s.take(i));
        assert(s.take(i + 1) =~= s.take(i).push(ch));
        proof {
            lemma_first_cased_push(s.take(i), ch);
        }
        if char_is_uppercase(ch) {
            has_upper = true;
            cased_count += 1;
            upper_count += 1;
            if !first_seen {
                first_is_upper = true;
                first_seen = true;
            }
        } else if char_is_lowercase(ch) {
            has_lower = true;
            cased_count += 1;
            if !first_seen {
                first_seen = true;
            }
        }
    }
    assert(s.take(n as int) =~= s);
    if has_upper && !has_lower && cased_count > 1 {
        Case::Upper
    } else if first_is_upper && upper_count == 1 {
        Case::Title
    } else {
        Case::Lower
    }
}

/// Reapply a casing pattern to a freshly generated mumble.
pub fn apply_case(text: &str, case: Case) -> (r: String)
    ensures
        r@ == cased(text@, case),
{
    match case {
        Case::Upper => str_to_uppercase(text),
        Case::Lower => text.to_owned(),
        Case::Title => {
            let n = text.unicode_len();
            if n == 0 {
                String::new()
            } else {
                let first = text.get_char(0);
                let mut out = char_to_uppercase(first);
                out.append(text.substring_char(1, n));
                assert(text@.subrange(1, n as int) =~= text@.drop_first());
                out
            }
        }
    }
}

/// The seed of the PRNG that beanifies `word`: the FNV-1a hash of the UTF-8
/// bytes of the word's lowercase form, xored with the configured seed.
pub open spec fn word_seed(seed: u64, word: Seq<char>) -> u64 {
    fnv1a_spec(encode_utf8(lowercase_of(word))) ^ seed
}

/// How many syllables a mumble for a word of `len` characters has: one per
/// two characters (rounded up), at least one and at most the cap (a cap of 0
/// acts as 1).
pub open spec fn syllable_count(len: nat, max_syllables: usize) -> nat {
    let max: nat = if max_syllables == 0 {
        1
    } else {
        max_syllables as nat
    };
    let half: nat = (len + 1) / 2;
    if half < 1 {
        1
    } else if half > max {
        max
    } else {
        half
    }
}

/// The syllable drawn by a generator in state `state`: an onset, a nucleus
/// and a coda, each picked by the next draw.
pub open spec fn syllable(state: u64) -> Seq<char> {
    ONSETS@[(draw(state, 1) % 15) as int]@ + NUCLEI@[(draw(state, 2) % 12) as int]@
        + CODAS@[(draw(state, 3) % 9) as int]@
}

/// The first `n` syllables drawn by a generator in state `state`.
pub open spec fn mumble_chars(state: u64, n: nat) -> Seq<char>
    decreases n,
{
    if n == 0 {
        Seq::empty()
    } else {
        mumble_chars(state, (n - 1) as nat) + syllable(state_after(state, 3 * (n - 1) as nat))
    }
}

/// The Bean-speak for a word before any casing is reapplied: with the
/// word's PRNG, the first draw decides between a signature Bean-ism (picked by
/// the second draw) and a mumble (drawn after the first draw).
pub open spec fn raw_word(config: BeanConfig, word: Seq<char>) -> Seq<char> {
    let s0 = word_seed(config.seed, word);
    if chance_hit(draw(s0, 1), config.signature_frequency) {
        SIGNATURES@[(draw(s0, 2) % 15) as int]@
    } else {
        mumble_chars(state_after(s0, 1), syllable_count(word.len(), config.max_syllables))
    }
}

/// The Bean-speak for a word: empty for the empty word; otherwise the raw
/// Bean-speak, with the word's casing pattern reapplied when so configured.
pub open spec fn beanified_word(config: BeanConfig, word: Seq<char>) -> Seq<char> {
    if word.len() == 0 {
        Seq::empty()
    } else if config.preserve_case {
        cased(raw_word(config, word), detected_case(word))
    } else {
        raw_word(config, word)
    }
}

/// Beanification of single words under `config`, as a function.
pub open spec fn word_rewriter(config: BeanConfig) -> spec_fn(Seq<char>) -> Seq<char> {
    |w: Seq<char>| beanified_word(config, w)
}

/// The Bean-speak for a text: each word (maximal alphanumeric run)
/// beanified, every other character kept where it stands.
pub open spec fn beanified_text(config: BeanConfig, text: Seq<char>) -> Seq<char> {
    rewrite_words(word_rewriter(config), text)
}

/// Drawing `a` values and then `b` more is drawing `a + b` values.
pub proof fn lemma_state_after_add(seed: u64, a: nat, b: nat)
    ensures
        state_after(state_after(seed, a), b) == state_after(seed, a + b),
    decreases b,
{
    if b > 0 {
        lemma_state_after_add(seed, a, (b - 1) as nat);
    }
}

/// The beanifier: transforms text deterministically given its [`BeanConfig`].
#[derive(Debug, Clone)]
pub struct Beanifier {
    config: BeanConfig,
}

impl View for Beanifier {
    type V = BeanConfig;

    /// The configuration in use.
    closed spec fn view(&self) -> BeanConfig {
        self.config
    }
}

impl Default for Beanifier {
    fn default() -> (b: Self)
        ensures
            b@ == default_config(),
    {
        Beanifier::new(BeanConfig::default())
    }
}

impl Beanifier {
    /// Create a beanifier with the given configuration.
    pub fn new(config: BeanConfig) -> (b: Self)
        ensures
            b@ == config,
    {
        Beanifier { config }
    }

    /// Borrow the configuration in use.
    pub fn config(&self) -> (c: &BeanConfig)
        ensures
            *c == self@,
    {
        &self.config
    }

    /// Assemble a nonsense mumble whose length scales with the source word.
    fn mumble(&self, word: &str, rng: &mut Rng) -> (r: String)
        ensures
            final(rng)@ == state_after(
                old(rng)@,
                3 * syllable_count(word@.len(), self@.max_syllables),
            ),
            r@ == mumble_chars(old(rng)@, syllable_count(word@.len(), self@.max_syllables)),
    {
        let len = word.unicode_len();
        let max = if self.config.max_syllables < 1 {
            1
        } else {
            self.config.max_syllables
        };
        // Roughly one syllable per two characters, always at least one.
        let half = len / 2 + len % 2;
        let syllables = if half < 1 {
            1
        } else if half > max {
            max
        } else {
            half
        };
        assert(syllables == syllable_count(word@.len(), self@.max_syllables));
        let ghost start = rng@;
        let mut out = String::new();
        let mut j: usize = 0;
        while j < syllables
            invariant
                j <= syllables,
                rng@ == state_after(start, 3 * j as nat),
                out@ == mumble_chars(start, j as nat),
            decreases syllables - j,
        {
            let ghost at = rng@;
            let ghost before = out@;
            proof {
                reveal_with_fuel(state_after, 4);
            }
            let onset = rng.pick(ONSETS.as_slice());
            assert(rng@ == state_after(at, 1));
            out.append(*onset);
            let nucleus = rng.pick(NUCLEI.as_slice());
            assert(rng@ == state_after(at, 2));
            out.append(*nucleus);
            let coda = rng.pick(CODAS.as_slice());
            assert(rng@ == state_after(at, 3));
            out.append(*coda);
            proof {
                lemma_state_after_add(start, 3 * j as nat, 3);
                assert(out@ =~= before + syllable(at));
            }
            j = j + 1;
        }
        out
    }

    /// Beanify a single word (an alphanumeric run).
    ///
    /// The word seeds a per-word PRNG, so the mapping is stable: the same word
    /// always beanifies to the same mumble under a given config.
    pub fn beanify_word(&self, word: &str) -> (r: String)
        ensures
            r@ == beanified_word(self@, word@),
    {
        if word.is_empty() {
            return String::new();
        }
        let lower = str_to_lowercase(word);
        let mut rng = Rng::from_bytes(lower.as_str().as_bytes(), self.config.seed);
        let ghost s0 = rng@;
        assert(s0 == word_seed(self@.seed, word@));
        proof {
            reveal_with_fuel(state_after, 3);
        }
        let hit = rng.chance(self.config.signature_frequency);
        assert(rng@ == state_after(s0, 1));
        let raw = if hit {
            let sig = rng.pick(SIGNATURES.as_slice());
            assert(rng@ == state_after(s0, 2));
            (*sig).to_owned()
        } else {
            self.mumble(word, &mut rng)
        };
        assert(raw@ == raw_word(self@, word@));
        if self.config.preserve_case {
            apply_case(raw.as_str(), detect_case(word))
        } else {
            raw
        }
    }

    /// Beanify an entire block of text.
    ///
    /// Alphanumeric runs (words) become mumbles; everything else (whitespace,
    /// punctuation, newlines) is preserved verbatim so the shape of the input
    /// survives.
    pub fn beanify_text(&self, input: &str) -> (r: String)
        ensures
            r@ == beanified_text(self@, input@),
    {
        let ghost f = word_rewriter(self@);
        let ghost s = input@;
        let mut out = String::new();
        let mut word = String::new();
        let ghost mut start: int = 0;
        for ch in it: input.chars()
            invariant
                it.seq() == s,
                f == word_rewriter(self@),
                0 <= start <= it.index(),
                word@ == s.subrange(start, it.index() as int),
                all_alphanumeric(word@),
                word_start(s.take(start)) == start,
                out@ == rewrite_words(f, s.take(start)),
        {
            let ghost i = it.index() as int;
            assert(s.take(i + 1) =~= s.take(i).push(ch));
            assert(s.take(i) =~= s.take(start) + word@);
            if char_is_alphanumeric(ch) {
                push_char(&mut word, ch);
                assert(word@ =~= s.subrange(start, i + 1));
            } else {
                if !word.as_str().is_empty() {
                    proof {
                        lemma_rewrite_append_word(f, s.take(start), word@);
                    }
                    let b = self.beanify_word(word.as_str());
                    assert(f(word@) == b@);
                    out.append(b.as_str());
                    assert(out@ == rewrite_words(f, s.take(i)));
                    word = String::new();
                } else {
                    assert(s.take(i) =~= s.take(start));
                }
                proof {
                    lemma_rewrite_append_separator(f, s.take(i), ch);
                }
                push_char(&mut out, ch);
                proof {
                    start = i + 1;
                }
                assert(word@ =~= s.subrange(start, i + 1));
            }
        }
        assert(s.take(s.len() as int) =~= s);
        assert(s =~= s.take(start) + word@);
        if !word.as_str().is_empty() {
            proof {
                lemma_rewrite_append_word(f, s.take(start), word@);
            }
            let b = self.beanify_word(word.as_str());
            assert(f(word@) == b@);
            out.append(b.as_str());
        }
        out
    }
}

} // verus!
