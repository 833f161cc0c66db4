//! What holds of beanification on every input: the promises of the library
//! as a whole, stated over the specifications of its functions.
use vstd::prelude::*;
use crate::beanify::{
    beanified_text, beanified_word, raw_word, word_rewriter, mumble_chars, syllable, syllable_count,
    word_seed, cased, detected_case, count_upper, count_lower, first_cased_is_upper, Case,
};
use crate::config::BeanConfig;
use crate::rng::{
    chance_hit, draw, mix, state_after, fnv1a_spec, CHANCE_ONE, FNV_OFFSET, FNV_PRIME, GOLDEN_GAMMA,
};
use crate::config::default_config;
use crate::cli::{stdout_block, header_line, line_terminated};
use vstd::utf8::encode_utf8;
use vstd::wrapping::u64_specs::{wrapping_add, wrapping_mul};
use crate::syllables::{ONSETS, NUCLEI, CODAS, SIGNATURES};
use crate::text::{
    all_alphanumeric, none_alphanumeric, lemma_rewrite_split, lemma_rewrite_no_words,
    lemma_rewrite_single_word,
};
use crate::unicode::{
    is_alphanumeric_char, is_uppercase_char, is_lowercase_char, lowercase_of, uppercase_of,
    char_uppercase_of, std_ascii_facts, all_ascii, is_ascii_char, is_ascii_lower,
    is_ascii_upper, ascii_lower, ascii_upper, is_ascii_alnum,
};

verus! {

/// A phoneme character: a lowercase ASCII letter.
pub open spec fn is_phoneme_char(c: char) -> bool {
    'a' <= c && c <= 'z'
}

/// Every character of `s` is a phoneme character.
pub open spec fn all_phoneme_chars(s: Seq<char>) -> bool {
    forall|i: int| 0 <= i < s.len() ==> #[trigger] is_phoneme_char(s[i])
}

/// Each onset and nucleus is one or two lowercase ASCII letters, each coda
/// at most two.
pub proof fn lemma_phoneme_tables()
    ensures
        forall|i: int| 0 <= i < 15 ==> 1 <= (#[trigger] ONSETS@[i])@.len() <= 2 && all_phoneme_chars(ONSETS@[i]@),
        forall|i: int| 0 <= i < 12 ==> 1 <= (#[trigger] NUCLEI@[i])@.len() <= 2 && all_phoneme_chars(NUCLEI@[i]@),
        forall|i: int| 0 <= i < 9 ==> (#[trigger] CODAS@[i])@.len() <= 2 && all_phoneme_chars(CODAS@[i]@),
{
    reveal_strlit("b");
    reveal_strlit("bw");
    reveal_strlit("m");
    reveal_strlit("n");
    reveal_strlit("hm");
    reveal_strlit("ng");
    reveal_strlit("fl");
    reveal_strlit("w");
    reveal_strlit("g");
    reveal_strlit("gr");
    reveal_strlit("bl");
    reveal_strlit("p");
    reveal_strlit("t");
    reveal_strlit("d");
    reveal_strlit("hn");
    reveal_strlit("a");
    reveal_strlit("aa");
    reveal_strlit("o");
    reveal_strlit("oo");
    reveal_strlit("e");
    reveal_strlit("ee");
    reveal_strlit("u");
    reveal_strlit("uh");
    reveal_strlit("ah");
    reveal_strlit("eh");
    reveal_strlit("i");
    reveal_strlit("ow");
    reveal_strlit("");
    reveal_strlit("h");
}

/// A mumble of `n` syllables has between two and six characters per
/// syllable, all of them lowercase ASCII letters.
pub proof fn lemma_mumble_shape(state: u64, n: nat)
    ensures
        2 * n <= mumble_chars(state, n).len() <= 6 * n,
        all_phoneme_chars(mumble_chars(state, n)),
    decreases n,
{
    if n > 0 {
        lemma_mumble_shape(state, (n - 1) as nat);
        lemma_phoneme_tables();
        let st = state_after(state, 3 * (n - 1) as nat);
        let o = ONSETS@[(draw(st, 1) % 15) as int]@;
        let u = NUCLEI@[(draw(st, 2) % 12) as int]@;
        let c = CODAS@[(draw(st, 3) % 9) as int]@;
        let prev = mumble_chars(state, (n - 1) as nat);
        assert(syllable(st) == o + u + c);
        assert(all_phoneme_chars(o));
        assert(all_phoneme_chars(u));
        assert(all_phoneme_chars(c));
        let m = mumble_chars(state, n);
        assert(m =~= prev + (o + u + c));
        assert forall|i: int| 0 <= i < m.len() implies #[trigger] is_phoneme_char(m[i]) by {
            if i < prev.len() {
                assert(m[i] == prev[i]);
            } else if i < prev.len() + o.len() {
                assert(m[i] == o[i - prev.len()]);
            } else if i < prev.len() + o.len() + u.len() {
                assert(m[i] == u[i - prev.len() - o.len()]);
            } else {
                assert(m[i] == c[i - prev.len() - o.len() - u.len()]);
            }
        }
    }
}

/// A mumble has between one syllable and the cap (a cap of 0 acting as 1).
///
/// Exactly: a word of `len` characters gets one syllable per two characters,
/// rounded up, and at least one; the cap `m` (0 acting as 1) bounds that and
/// is reached whenever the word is long enough, whatever the cap.
pub proof fn law_syllable_count_bounds(len: nat, max_syllables: usize)
    ensures
        1 <= syllable_count(len, max_syllables),
        syllable_count(len, max_syllables) <= if max_syllables == 0 {
            1
        } else {
            max_syllables as nat
        },
        1 <= max_syllables && max_syllables <= (len + 1) / 2 ==> syllable_count(
            len,
            max_syllables,
        ) == max_syllables,
        len > 0 && (len + 1) / 2 <= max_syllables ==> syllable_count(len, max_syllables) == (
        len + 1) / 2,
        2 * syllable_count(len, max_syllables) <= len + 1 || syllable_count(len, max_syllables) == 1,
{
}

/// With signature frequency 0 no word becomes a signature Bean-ism: the
/// Bean-speak for every word is a mumble of lowercase ASCII letters, at most
/// six per syllable, and with case preservation off it is the whole result.
pub proof fn law_zero_frequency_only_mumbles(config: BeanConfig, word: Seq<char>)
    requires
        config.signature_frequency == 0,
    ensures
        raw_word(config, word) == mumble_chars(
            state_after(word_seed(config.seed, word), 1),
            syllable_count(word.len(), config.max_syllables),
        ),
        all_phoneme_chars(raw_word(config, word)),
        raw_word(config, word).len() <= 6 * syllable_count(word.len(), config.max_syllables),
        !config.preserve_case && word.len() > 0 ==> beanified_word(config, word) == raw_word(
            config,
            word,
        ),
{
    let s0 = word_seed(config.seed, word);
    assert(!chance_hit(draw(s0, 1), 0));
    lemma_mumble_shape(
        state_after(s0, 1),
        syllable_count(word.len(), config.max_syllables),
    );
}

/// With signature frequency at 1.0 (or above) every word becomes a signature
/// Bean-ism.
pub proof fn law_full_frequency_only_signatures(config: BeanConfig, word: Seq<char>)
    requires
        config.signature_frequency >= CHANCE_ONE,
    ensures
        exists|i: int| 0 <= i < 15 && raw_word(config, word) == (#[trigger] SIGNATURES@[i])@,
{
    let s0 = word_seed(config.seed, word);
    let v = draw(s0, 1);
    assert(v >> 11u64 < 9_007_199_254_740_992u64) by (bit_vector);
    assert(chance_hit(v, config.signature_frequency));
    let i = (draw(s0, 2) % 15) as int;
    assert(raw_word(config, word) == SIGNATURES@[i]@);
}

/// Structure is preserved: beanifying a text that a non-alphanumeric
/// character splits in two beanifies each side on its own and keeps the
/// character between them.
pub proof fn law_split_at_separator(config: BeanConfig, a: Seq<char>, c: char, b: Seq<char>)
    requires
        !is_alphanumeric_char(c),
    ensures
        beanified_text(config, a.push(c) + b) == beanified_text(config, a).push(c)
            + beanified_text(config, b),
{
    lemma_rewrite_split(word_rewriter(config), a, c, b);
}

/// A text with no alphanumeric characters (whitespace, punctuation, line
/// breaks, or nothing at all) is left untouched.
pub proof fn law_no_words_untouched(config: BeanConfig, text: Seq<char>)
    requires
        none_alphanumeric(text),
    ensures
        beanified_text(config, text) == text,
{
    lemma_rewrite_no_words(word_rewriter(config), text);
}

/// A text that is one word beanifies as that word.
pub proof fn law_single_word(config: BeanConfig, word: Seq<char>)
    requires
        word.len() > 0,
        all_alphanumeric(word),
    ensures
        beanified_text(config, word) == beanified_word(config, word),
{
    lemma_rewrite_single_word(word_rewriter(config), word);
}

/// The empty word and the empty text beanify to nothing.
pub proof fn law_empty_stays_empty(config: BeanConfig)
    ensures
        beanified_word(config, Seq::empty()) == Seq::<char>::empty(),
        beanified_text(config, Seq::empty()) == Seq::<char>::empty(),
{
}

/// With case preservation off, words of the same length that have the same
/// lowercase form beanify alike.
pub proof fn law_case_ignored(config: BeanConfig, w1: Seq<char>, w2: Seq<char>)
    requires
        !config.preserve_case,
        lowercase_of(w1) == lowercase_of(w2),
        w1.len() == w2.len(),
    ensures
        beanified_word(config, w1) == beanified_word(config, w2),
{
}

/// Text that casing can be reapplied to and detected back from: all
/// lowercase ASCII letters or spaces, the first character a letter, and at
/// least one more letter. Every mumble and every signature Bean-ism has this
/// shape.
pub open spec fn casable(s: Seq<char>) -> bool {
    &&& s.len() >= 2
    &&& is_ascii_lower(s[0])
    &&& exists|j: int| 0 < j < s.len() && is_ascii_lower(#[trigger] s[j])
    &&& forall|i: int| 0 <= i < s.len() ==> is_ascii_lower(#[trigger] s[i]) || s[i] == ' '
}

/// Text whose first two characters are letters, and whose others are
/// letters or spaces, is casable.
proof fn lemma_casable_from_first_two(s: Seq<char>)
    requires
        s.len() >= 2,
        is_ascii_lower(s[0]),
        is_ascii_lower(s[1]),
        forall|i: int| 0 <= i < s.len() ==> is_ascii_lower(#[trigger] s[i]) || s[i] == ' ',
    ensures
        casable(s),
{
    assert(is_ascii_lower(s[1]));
}

/// Each signature Bean-ism starts with two letters and holds only letters
/// and spaces.
proof fn lemma_signatures_shape()
    ensures
        forall|i: int|
            0 <= i < 15 ==> {
                let s = (#[trigger] SIGNATURES@[i])@;
                &&& s.len() >= 2
                &&& is_ascii_lower(s[0])
                &&& is_ascii_lower(s[1])
                &&& forall|k: int| 0 <= k < s.len() ==> is_ascii_lower(#[trigger] s[k]) || s[k] == ' '
            },
{
    reveal_strlit("bean");
    reveal_strlit("teddy");
    reveal_strlit("mr bean");
    reveal_strlit("nyeh");
    reveal_strlit("mwah");
    reveal_strlit("aaargh");
    reveal_strlit("hmmm");
    reveal_strlit("tch");
    reveal_strlit("nnng");
    reveal_strlit("ohh");
    reveal_strlit("eurgh");
    reveal_strlit("wibble");
}

/// The Bean-speak for every word, before casing, is casable.
pub proof fn law_raw_word_casable(config: BeanConfig, word: Seq<char>)
    ensures
        casable(raw_word(config, word)),
{
    let s0 = word_seed(config.seed, word);
    if chance_hit(draw(s0, 1), config.signature_frequency) {
        lemma_signatures_shape();
        let i = (draw(s0, 2) % 15) as int;
        lemma_casable_from_first_two(SIGNATURES@[i]@);
    } else {
        let n = syllable_count(word.len(), config.max_syllables);
        law_syllable_count_bounds(word.len(), config.max_syllables);
        lemma_mumble_shape(state_after(s0, 1), n);
        let m = mumble_chars(state_after(s0, 1), n);
        assert(is_phoneme_char(m[0]));
        assert(is_phoneme_char(m[1]));
        assert forall|i: int| 0 <= i < m.len() implies is_ascii_lower(#[trigger] m[i]) || m[i] == ' ' by {
            assert(is_phoneme_char(m[i]));
        }
        lemma_casable_from_first_two(m);
    }
}

/// Uppercase letters are counted part by part.
pub proof fn lemma_count_upper_concat(a: Seq<char>, b: Seq<char>)
    ensures
        count_upper(a + b) == count_upper(a) + count_upper(b),
    decreases b.len(),
{
    if b.len() == 0 {
        assert(a + b =~= a);
    } else {
        assert((a + b).drop_last() =~= a + b.drop_last());
        lemma_count_upper_concat(a, b.drop_last());
    }
}

/// Lowercase letters are counted part by part.
pub proof fn lemma_count_lower_concat(a: Seq<char>, b: Seq<char>)
    ensures
        count_lower(a + b) == count_lower(a) + count_lower(b),
    decreases b.len(),
{
    if b.len() == 0 {
        assert(a + b =~= a);
    } else {
        assert((a + b).drop_last() =~= a + b.drop_last());
        lemma_count_lower_concat(a, b.drop_last());
    }
}

/// Text with no uppercase character counts none.
pub proof fn lemma_count_upper_none(s: Seq<char>)
    requires
        forall|i: int| 0 <= i < s.len() ==> !is_uppercase_char(#[trigger] s[i]),
    ensures
        count_upper(s) == 0,
    decreases s.len(),
{
    if s.len() > 0 {
        assert(!is_uppercase_char(s[s.len() - 1]));
        assert forall|i: int| 0 <= i < s.drop_last().len() implies !is_uppercase_char(
            #[trigger] s.drop_last()[i],
        ) by {
            assert(s.drop_last()[i] == s[i]);
        }
        lemma_count_upper_none(s.drop_last());
    }
}

/// Text with no lowercase character counts none.
pub proof fn lemma_count_lower_none(s: Seq<char>)
    requires
        forall|i: int| 0 <= i < s.len() ==> !is_lowercase_char(#[trigger] s[i]),
    ensures
        count_lower(s) == 0,
    decreases s.len(),
{
    if s.len() > 0 {
        assert(!is_lowercase_char(s[s.len() - 1]));
        assert forall|i: int| 0 <= i < s.drop_last().len() implies !is_lowercase_char(
            #[trigger] s.drop_last()[i],
        ) by {
            assert(s.drop_last()[i] == s[i]);
        }
        lemma_count_lower_none(s.drop_last());
    }
}

/// The counts of a one-character text.
pub proof fn lemma_count_single(c: char)
    ensures
        count_upper(seq![c]) == if is_uppercase_char(c) { 1nat } else { 0nat },
        count_lower(seq![c]) == if !is_uppercase_char(c) && is_lowercase_char(c) { 1nat } else { 0nat },
{
    let e = Seq::<char>::empty();
    assert(seq![c].drop_last() =~= e);
    assert(seq![c].last() == c);
    assert(count_upper(e) == 0);
    assert(count_lower(e) == 0);
}

/// ASCII upper-casing takes a lowercase letter to an uppercase letter.
pub proof fn lemma_ascii_upper(c: char)
    requires
        is_ascii_lower(c),
    ensures
        is_ascii_upper(ascii_upper(c)),
{
}

/// An uppercase character at `i` adds one to the count around it.
pub proof fn lemma_count_upper_at(s: Seq<char>, i: int)
    requires
        0 <= i < s.len(),
        is_uppercase_char(s[i]),
    ensures
        count_upper(s) == count_upper(s.take(i)) + 1 + count_upper(s.skip(i + 1)),
{
    assert(s =~= s.take(i) + seq![s[i]] + s.skip(i + 1));
    lemma_count_upper_concat(s.take(i) + seq![s[i]], s.skip(i + 1));
    lemma_count_upper_concat(s.take(i), seq![s[i]]);
    lemma_count_single(s[i]);
}

/// A character at `i` that is lowercase and not uppercase adds one to the
/// lowercase count around it.
pub proof fn lemma_count_lower_at(s: Seq<char>, i: int)
    requires
        0 <= i < s.len(),
        !is_uppercase_char(s[i]),
        is_lowercase_char(s[i]),
    ensures
        count_lower(s) == count_lower(s.take(i)) + 1 + count_lower(s.skip(i + 1)),
{
    assert(s =~= s.take(i) + seq![s[i]] + s.skip(i + 1));
    lemma_count_lower_concat(s.take(i) + seq![s[i]], s.skip(i + 1));
    lemma_count_lower_concat(s.take(i), seq![s[i]]);
    lemma_count_single(s[i]);
}

/// Casing reapplied to casable text is detected back: UPPER stays UPPER,
/// Title stays Title and lower stays lower.
pub proof fn law_case_round_trip(text: Seq<char>, case: Case)
    requires
        std_ascii_facts(),
        casable(text),
    ensures
        detected_case(cased(text, case)) == case,
{
    let j = choose|j: int| 0 < j < text.len() && is_ascii_lower(#[trigger] text[j]);
    assert forall|i: int| 0 <= i < text.len() implies #[trigger] is_ascii_char(text[i]) by {
        assert(is_ascii_lower(text[i]) || text[i] == ' ');
    }
    assert forall|i: int| 0 <= i < text.len() implies !is_uppercase_char(#[trigger] text[i]) by {
        assert(is_ascii_lower(text[i]) || text[i] == ' ');
    }
    let rest = text.drop_first();
    assert(text =~= seq![text[0]] + rest);
    lemma_count_upper_none(rest);
    match case {
        Case::Lower => {
            lemma_count_upper_none(text);
            assert(!first_cased_is_upper(text));
        },
        Case::Upper => {
            let u = text.map_values(|c: char| ascii_upper(c));
            assert(uppercase_of(text) == u);
            assert forall|i: int| 0 <= i < u.len() implies !is_lowercase_char(#[trigger] u[i]) by {
                if is_ascii_lower(text[i]) {
                    lemma_ascii_upper(text[i]);
                    assert(is_uppercase_char(ascii_upper(text[i])));
                } else {
                    assert(u[i] == ' ');
                }
            }
            lemma_count_lower_none(u);
            lemma_ascii_upper(text[0]);
            lemma_ascii_upper(text[j]);
            assert(is_uppercase_char(u[0]));
            assert(is_uppercase_char(u[j]));
            lemma_count_upper_at(u, j);
            assert(u.take(j)[0] == u[0]);
            lemma_count_upper_at(u.take(j), 0);
        },
        Case::Title => {
            let first = ascii_upper(text[0]);
            lemma_ascii_upper(text[0]);
            assert(char_uppercase_of(text[0]) == seq![first]);
            let v = seq![first] + rest;
            assert(cased(text, case) == v);
            assert(is_uppercase_char(first));
            lemma_count_single(first);
            lemma_count_upper_concat(seq![first], rest);
            lemma_count_lower_concat(seq![first], rest);
            assert(rest[j - 1] == text[j]);
            assert(is_lowercase_char(rest[j - 1]) && !is_uppercase_char(rest[j - 1]));
            lemma_count_lower_at(rest, j - 1);
            assert(v[0] == first);
            assert(first_cased_is_upper(v));
        },
    }
}

/// A text of ASCII characters none of which is a letter or digit
/// (whitespace, line breaks, punctuation) is left untouched.
pub proof fn law_ascii_separators_untouched(config: BeanConfig, text: Seq<char>)
    requires
        std_ascii_facts(),
        forall|i: int| 0 <= i < text.len() ==> is_ascii_char(#[trigger] text[i]) && !is_ascii_alnum(text[i]),
    ensures
        beanified_text(config, text) == text,
{
    assert forall|i: int| 0 <= i < text.len() implies !#[trigger] is_alphanumeric_char(text[i]) by {
        assert(is_ascii_char(text[i]));
    }
    law_no_words_untouched(config, text);
}

/// With case preservation on, the casing of the source word is detected
/// back from its Bean-speak.
pub proof fn law_casing_detected_back(config: BeanConfig, word: Seq<char>)
    requires
        std_ascii_facts(),
        config.preserve_case,
        word.len() > 0,
    ensures
        detected_case(beanified_word(config, word)) == detected_case(word),
{
    law_raw_word_casable(config, word);
    law_case_round_trip(raw_word(config, word), detected_case(word));
}

/// An ASCII word is beanified as its lowercase form, restyled with its own
/// casing when case preservation is on.
pub proof fn law_ascii_word_seeded_lowercase(config: BeanConfig, word: Seq<char>)
    requires
        std_ascii_facts(),
        all_ascii(word),
        word.len() > 0,
    ensures
        beanified_word(BeanConfig { preserve_case: false, ..config }, word) == beanified_word(
            BeanConfig { preserve_case: false, ..config },
            word.map_values(|c: char| ascii_lower(c)),
        ),
        beanified_word(BeanConfig { preserve_case: true, ..config }, word) == cased(
            beanified_word(
                BeanConfig { preserve_case: false, ..config },
                word.map_values(|c: char| ascii_lower(c)),
            ),
            detected_case(word),
        ),
{
    let lw = word.map_values(|c: char| ascii_lower(c));
    assert forall|i: int| 0 <= i < lw.len() implies #[trigger] is_ascii_char(lw[i]) by {
        assert(is_ascii_char(word[i]));
    }
    assert(lowercase_of(word) == lw);
    assert(lowercase_of(lw) == lw.map_values(|c: char| ascii_lower(c)));
    assert(lw.map_values(|c: char| ascii_lower(c)) =~= lw);
}

/// The uppercase count ignores a character that is neither uppercase nor
/// lowercase.
proof fn lemma_counts_skip_uncased(a: Seq<char>, d: char, b: Seq<char>)
    requires
        !is_uppercase_char(d),
        !is_lowercase_char(d),
    ensures
        count_upper(a + seq![d] + b) == count_upper(a + b),
        count_lower(a + seq![d] + b) == count_lower(a + b),
{
    lemma_count_single(d);
    lemma_count_upper_concat(a + seq![d], b);
    lemma_count_upper_concat(a, seq![d]);
    lemma_count_upper_concat(a, b);
    lemma_count_lower_concat(a + seq![d], b);
    lemma_count_lower_concat(a, seq![d]);
    lemma_count_lower_concat(a, b);
}

/// Casing is decided by the cased letters alone: inserting a character that
/// is neither uppercase nor lowercase (a digit, a space, a mark) anywhere in a
/// word, its end included, leaves the detected casing as it was.
pub proof fn law_uncased_characters_do_not_change_case(a: Seq<char>, d: char, b: Seq<char>)
    requires
        !is_uppercase_char(d),
        !is_lowercase_char(d),
    ensures
        detected_case(a + seq![d] + b) == detected_case(a + b),
{
    lemma_counts_skip_uncased(a, d, b);
    let x = a + seq![d] + b;
    let y = a + b;
    let n = a.len() as int;
    assert(x[n] == d);
    assert forall|k: int| 0 <= k < n implies x[k] == a[k] && y[k] == a[k] by {}
    assert forall|k: int| n < k < x.len() implies x[k] == b[k - n - 1] && y[k - 1] == b[k - n - 1] by {}
    if first_cased_is_upper(x) {
        let i = choose|i: int|
            0 <= i < x.len() && #[trigger] is_uppercase_char(x[i]) && forall|j: int|
                0 <= j < i ==> !#[trigger] crate::beanify::is_cased(x[j]);
        if i < n {
            assert(is_uppercase_char(y[i]));
            assert forall|j: int| 0 <= j < i implies !#[trigger] crate::beanify::is_cased(y[j]) by {
                assert(!crate::beanify::is_cased(x[j]));
            }
        } else {
            assert(i != n);
            assert(is_uppercase_char(y[i - 1]));
            assert forall|j: int| 0 <= j < i - 1 implies !#[trigger] crate::beanify::is_cased(y[j]) by {
                if j < n {
                    assert(!crate::beanify::is_cased(x[j]));
                } else {
                    assert(y[j] == x[j + 1]);
                    assert(!crate::beanify::is_cased(x[j + 1]));
                }
            }
        }
        assert(first_cased_is_upper(y));
    }
    if first_cased_is_upper(y) {
        let i = choose|i: int|
            0 <= i < y.len() && #[trigger] is_uppercase_char(y[i]) && forall|j: int|
                0 <= j < i ==> !#[trigger] crate::beanify::is_cased(y[j]);
        if i < n {
            assert(is_uppercase_char(x[i]));
            assert forall|j: int| 0 <= j < i implies !#[trigger] crate::beanify::is_cased(x[j]) by {
                assert(!crate::beanify::is_cased(y[j]));
            }
        } else {
            assert(x[i + 1] == y[i]);
            assert(is_uppercase_char(x[i + 1]));
            assert forall|j: int| 0 <= j < i + 1 implies !#[trigger] crate::beanify::is_cased(x[j]) by {
                if j < n {
                    assert(!crate::beanify::is_cased(y[j]));
                } else if j > n {
                    assert(x[j] == y[j - 1]);
                    assert(!crate::beanify::is_cased(y[j - 1]));
                }
            }
        }
        assert(first_cased_is_upper(x));
    }
}

/// A word whose cased letters are all uppercase, two or more of them, is
/// UPPER, whatever uncased characters it holds or ends with.
pub proof fn law_all_caps_is_upper(s: Seq<char>, i: int, j: int)
    requires
        0 <= i < j < s.len(),
        is_uppercase_char(s[i]),
        is_uppercase_char(s[j]),
        forall|k: int| 0 <= k < s.len() ==> !(!is_uppercase_char(#[trigger] s[k]) && is_lowercase_char(s[k])),
    ensures
        detected_case(s) == Case::Upper,
{
    assert forall|k: int| 0 <= k < s.len() implies !is_lowercase_char(#[trigger] s[k]) || is_uppercase_char(s[k]) by {}
    lemma_count_lower_zero(s);
    lemma_count_upper_at(s, j);
    assert(s.take(j)[i] == s[i]);
    lemma_count_upper_at(s.take(j), i);
}

/// No character lowercase-and-not-uppercase means a lowercase count of zero.
proof fn lemma_count_lower_zero(s: Seq<char>)
    requires
        forall|k: int| 0 <= k < s.len() ==> !is_lowercase_char(#[trigger] s[k]) || is_uppercase_char(s[k]),
    ensures
        count_lower(s) == 0,
    decreases s.len(),
{
    if s.len() > 0 {
        assert(!is_lowercase_char(s[s.len() - 1]) || is_uppercase_char(s[s.len() - 1]));
        assert forall|k: int| 0 <= k < s.drop_last().len() implies !is_lowercase_char(
            #[trigger] s.drop_last()[k],
        ) || is_uppercase_char(s.drop_last()[k]) by {
            assert(s.drop_last()[k] == s[k]);
        }
        lemma_count_lower_zero(s.drop_last());
    }
}

/// The whole 64-bit seed reaches every word: for any word, the states that
/// two seeds give differ by exactly the bits in which the seeds differ, so
/// different seeds give different states.
pub proof fn law_seed_fully_mixed(s1: u64, s2: u64, word: Seq<char>)
    ensures
        word_seed(s1, word) ^ word_seed(s2, word) == s1 ^ s2,
        s1 != s2 ==> word_seed(s1, word) != word_seed(s2, word),
        word_seed(s1, word) ^ s1 == fnv1a_spec(encode_utf8(lowercase_of(word))),
{
    let h = fnv1a_spec(encode_utf8(lowercase_of(word)));
    assert((h ^ s1) ^ (h ^ s2) == s1 ^ s2) by (bit_vector);
    assert(s1 != s2 ==> (h ^ s1) != (h ^ s2)) by (bit_vector);
    assert((h ^ s1) ^ s1 == h) by (bit_vector);
}

/// FNV-1a, one byte at a time: appending a byte xors the byte's value (below
/// 256, never sign-extended) into the hash so far and multiplies by the FNV
/// prime modulo 2^64; the hash of nothing is the offset basis.
pub proof fn law_fnv1a_step(bytes: Seq<u8>, b: u8)
    ensures
        fnv1a_spec(Seq::empty()) == FNV_OFFSET,
        fnv1a_spec(bytes.push(b)) == wrapping_mul(fnv1a_spec(bytes) ^ (b as u64), FNV_PRIME),
        fnv1a_spec(bytes.push(b)) == ((((fnv1a_spec(bytes) ^ (b as u64)) as nat) * (FNV_PRIME as nat))
            % 0x1_0000_0000_0000_0000nat) as u64,
        (b as u64) < 256,
{
    assert(bytes.push(b).drop_last() =~= bytes);
}

/// The hash of a sequence is the hash of a prefix continued over the rest:
/// hashing is a left fold of the byte step.
pub proof fn law_fnv1a_prefix(a: Seq<u8>, b: Seq<u8>)
    ensures
        fnv1a_spec(a + b) == fnv1a_from(fnv1a_spec(a), b),
    decreases b.len(),
{
    if b.len() == 0 {
        assert(a + b =~= a);
    } else {
        assert((a + b).drop_last() =~= a + b.drop_last());
        law_fnv1a_prefix(a, b.drop_last());
    }
}

/// FNV-1a continued from the hash `h` over `bytes`.
pub open spec fn fnv1a_from(h: u64, bytes: Seq<u8>) -> u64
    decreases bytes.len(),
{
    if bytes.len() == 0 {
        h
    } else {
        wrapping_mul(fnv1a_from(h, bytes.drop_last()) ^ (bytes.last() as u64), FNV_PRIME)
    }
}

/// One FNV-1a step on concrete values.
proof fn lemma_fnv1a_step_value(bytes: Seq<u8>, b: u8, h: u64, x: u64, r: u64)
    requires
        fnv1a_spec(bytes) == h,
        h ^ (b as u64) == x,
        ((x as nat) * (FNV_PRIME as nat)) % 0x1_0000_0000_0000_0000nat == r as nat,
    ensures
        fnv1a_spec(bytes.push(b)) == r,
{
    law_fnv1a_step(bytes, b);
}

/// The published FNV-1a 64-bit vectors hold, non-ASCII bytes included.
pub proof fn law_fnv1a_vectors()
    ensures
        fnv1a_spec(seq![0x61u8]) == 0xaf63_dc4c_8601_ec8cu64,
        fnv1a_spec(seq![0xffu8]) == 0xaf64_724c_8602_eb6eu64,
        fnv1a_spec(seq![0xc3u8, 0xa9u8]) == 0x0ac2_1707_b718_1e01u64,
{
    let e = Seq::<u8>::empty();
    law_fnv1a_step(e, 0x61u8);
    assert(0xcbf2_9ce4_8422_2325u64 ^ 0x61u64 == 0xcbf2_9ce4_8422_2344u64) by (bit_vector);
    assert(0xcbf2_9ce4_8422_2325u64 ^ 0xffu64 == 0xcbf2_9ce4_8422_23dau64) by (bit_vector);
    assert(0xcbf2_9ce4_8422_2325u64 ^ 0xc3u64 == 0xcbf2_9ce4_8422_23e6u64) by (bit_vector);
    assert(0xaf64_7e4c_8602_ffd2u64 ^ 0xa9u64 == 0xaf64_7e4c_8602_ff7bu64) by (bit_vector);
    assert((0xcbf2_9ce4_8422_2344nat * 0x0000_0100_0000_01b3nat) % 0x1_0000_0000_0000_0000nat
        == 0xaf63_dc4c_8601_ec8cnat) by (nonlinear_arith);
    assert((0xcbf2_9ce4_8422_23danat * 0x0000_0100_0000_01b3nat) % 0x1_0000_0000_0000_0000nat
        == 0xaf64_724c_8602_eb6enat) by (nonlinear_arith);
    assert((0xcbf2_9ce4_8422_23e6nat * 0x0000_0100_0000_01b3nat) % 0x1_0000_0000_0000_0000nat
        == 0xaf64_7e4c_8602_ffd2nat) by (nonlinear_arith);
    assert((0xaf64_7e4c_8602_ff7bnat * 0x0000_0100_0000_01b3nat) % 0x1_0000_0000_0000_0000nat
        == 0x0ac2_1707_b718_1e01nat) by (nonlinear_arith);
    lemma_fnv1a_step_value(e, 0x61u8, FNV_OFFSET, 0xcbf2_9ce4_8422_2344u64, 0xaf63_dc4c_8601_ec8cu64);
    lemma_fnv1a_step_value(e, 0xffu8, FNV_OFFSET, 0xcbf2_9ce4_8422_23dau64, 0xaf64_724c_8602_eb6eu64);
    lemma_fnv1a_step_value(e, 0xc3u8, FNV_OFFSET, 0xcbf2_9ce4_8422_23e6u64, 0xaf64_7e4c_8602_ffd2u64);
    assert(e.push(0x61u8) =~= seq![0x61u8]);
    assert(e.push(0xffu8) =~= seq![0xffu8]);
    assert(e.push(0xc3u8) =~= seq![0xc3u8]);
    lemma_fnv1a_step_value(
        seq![0xc3u8],
        0xa9u8,
        0xaf64_7e4c_8602_ffd2u64,
        0xaf64_7e4c_8602_ff7bu64,
        0x0ac2_1707_b718_1e01u64,
    );
    assert(seq![0xc3u8].push(0xa9u8) =~= seq![0xc3u8, 0xa9u8]);
}

/// A stdout block always ends in a line break, holds the text right after
/// the header, and adds a line break exactly when the text does not already
/// end in one (however many line breaks it holds inside). A named block
/// opens with `==> name <==` on a line of its own.
pub proof fn law_stdout_block_terminated(name: Option<Seq<char>>, text: Seq<char>)
    ensures
        ({
            let block = stdout_block(name, text);
            let head: Seq<char> = match name {
                Some(n) => header_line(n),
                None => Seq::empty(),
            };
            &&& block.len() > 0
            &&& block.last() == '\n'
            &&& block.take(head.len() as int) == head
            &&& block.skip(head.len() as int).take(text.len() as int) == text
            &&& block.len() == head.len() + text.len() + if text.len() > 0 && text.last() == '\n' {
                0int
            } else {
                1int
            }
            &&& name is Some ==> head =~= seq!['=', '=', '>', ' '] + name->0 + seq![' ', '<', '=', '=', '\n']
        }),
{
    let head: Seq<char> = match name {
        Some(n) => header_line(n),
        None => Seq::empty(),
    };
    let t = line_terminated(text);
    assert(stdout_block(name, text) =~= head + t);
    assert((head + t).take(head.len() as int) =~= head);
    assert((head + t).skip(head.len() as int) =~= t);
    assert(t.take(text.len() as int) =~= text);
}

/// A lowercase letter in the sense of casing: lowercase and not uppercase.
pub open spec fn is_lower_letter(c: char) -> bool {
    !is_uppercase_char(c) && is_lowercase_char(c)
}

/// Title: a word whose first cased letter is its one uppercase letter is
/// Title (e.g. "Hello", "9Lives").
pub proof fn law_single_leading_capital_is_title(s: Seq<char>, i: int)
    requires
        0 <= i < s.len(),
        is_uppercase_char(s[i]),
        forall|j: int| 0 <= j < i ==> !crate::beanify::is_cased(#[trigger] s[j]),
        forall|j: int| 0 <= j < s.len() && j != i ==> !is_uppercase_char(#[trigger] s[j]),
    ensures
        detected_case(s) == Case::Title,
{
    lemma_count_upper_at(s, i);
    assert forall|k: int| 0 <= k < s.take(i).len() implies !is_uppercase_char(#[trigger] s.take(i)[k]) by {
        assert(s.take(i)[k] == s[k]);
    }
    assert forall|k: int| 0 <= k < s.skip(i + 1).len() implies !is_uppercase_char(
        #[trigger] s.skip(i + 1)[k],
    ) by {
        assert(s.skip(i + 1)[k] == s[i + 1 + k]);
    }
    lemma_count_upper_none(s.take(i));
    lemma_count_upper_none(s.skip(i + 1));
    assert(first_cased_is_upper(s));
}

/// Lower: a word whose first cased letter is lowercase is lower, whatever
/// follows (e.g. "hello", "hELLO", "iPhone").
pub proof fn law_leading_lowercase_is_lower(s: Seq<char>, i: int)
    requires
        0 <= i < s.len(),
        is_lower_letter(s[i]),
        forall|j: int| 0 <= j < i ==> !crate::beanify::is_cased(#[trigger] s[j]),
    ensures
        detected_case(s) == Case::Lower,
{
    lemma_count_lower_at(s, i);
    if first_cased_is_upper(s) {
        let w = choose|w: int|
            0 <= w < s.len() && #[trigger] is_uppercase_char(s[w]) && forall|j: int|
                0 <= j < w ==> !#[trigger] crate::beanify::is_cased(s[j]);
        if w < i {
            assert(!crate::beanify::is_cased(s[w]));
        } else if w > i {
            assert(!crate::beanify::is_cased(s[i]));
        }
    }
}

/// Lower: a word with two uppercase letters and a lowercase one is mixed,
/// hence lower (e.g. "HeLLo", "McDonald").
pub proof fn law_mixed_is_lower(s: Seq<char>, i: int, j: int, k: int)
    requires
        0 <= i < j < s.len(),
        0 <= k < s.len(),
        is_uppercase_char(s[i]),
        is_uppercase_char(s[j]),
        is_lower_letter(s[k]),
    ensures
        detected_case(s) == Case::Lower,
{
    lemma_count_lower_at(s, k);
    lemma_count_upper_at(s, j);
    assert(s.take(j)[i] == s[i]);
    lemma_count_upper_at(s.take(j), i);
}

/// Lower: a word with no cased letter at all (digits only, say) is lower.
pub proof fn law_uncased_is_lower(s: Seq<char>)
    requires
        forall|k: int| 0 <= k < s.len() ==> !crate::beanify::is_cased(#[trigger] s[k]),
    ensures
        detected_case(s) == Case::Lower,
{
    assert forall|k: int| 0 <= k < s.len() implies !is_uppercase_char(#[trigger] s[k]) by {
        assert(!crate::beanify::is_cased(s[k]));
    }
    lemma_count_upper_none(s);
    if first_cased_is_upper(s) {
        let w = choose|w: int|
            0 <= w < s.len() && #[trigger] is_uppercase_char(s[w]) && forall|j: int|
                0 <= j < w ==> !#[trigger] crate::beanify::is_cased(s[j]);
        assert(!crate::beanify::is_cased(s[w]));
    }
}

/// A chance hit means the drawn value, read as a fraction of 2^64, falls
/// below the probability `prob / 2^53`: for probabilities up to 1.0 a value
/// hits exactly when it is below `prob * 2^11`.
pub proof fn law_chance_is_a_fraction(value: u64, prob: u64)
    requires
        prob <= CHANCE_ONE,
    ensures
        chance_hit(value, prob) <==> (value as int) < (prob as int) * 2048,
{
    assert(value >> 11u64 == value / 2048) by (bit_vector);
}

/// After `k` draws the generator's state has advanced by `k` golden-ratio
/// increments, modulo 2^64.
pub proof fn law_state_after_closed_form(seed: u64, k: nat)
    ensures
        state_after(seed, k) as int == (seed as int + k * (GOLDEN_GAMMA as int)) % 0x1_0000_0000_0000_0000int,
    decreases k,
{
    let m = 0x1_0000_0000_0000_0000int;
    if k == 0 {
        assert(seed as int % m == seed as int);
    } else {
        law_state_after_closed_form(seed, (k - 1) as nat);
        let prev = state_after(seed, (k - 1) as nat) as int;
        let a = seed as int + (k - 1) * (GOLDEN_GAMMA as int);
        assert(a + GOLDEN_GAMMA as int == seed as int + k * (GOLDEN_GAMMA as int)) by (nonlinear_arith)
            requires k >= 1, a == seed as int + (k - 1) * (GOLDEN_GAMMA as int);
        vstd::arithmetic::div_mod::lemma_add_mod_noop(a, GOLDEN_GAMMA as int, m);
        assert((GOLDEN_GAMMA as int) % m == GOLDEN_GAMMA as int);
        assert(prev % m == prev);
        vstd::arithmetic::div_mod::lemma_add_mod_noop(prev, GOLDEN_GAMMA as int, m);
        if prev + GOLDEN_GAMMA as int >= m {
            vstd::arithmetic::div_mod::lemma_fundamental_div_mod_converse(
                prev + GOLDEN_GAMMA as int,
                m,
                1,
                prev + GOLDEN_GAMMA as int - m,
            );
            assert((prev + GOLDEN_GAMMA as int - m) % m == prev + GOLDEN_GAMMA as int - m);
        } else {
            assert((prev + GOLDEN_GAMMA as int) % m == prev + GOLDEN_GAMMA as int);
        }
    }
}

/// A longer word's mumble continues a shorter word's mumble drawn from the
/// same state: the first syllables are shared.
pub proof fn law_mumble_extends(state: u64, n: nat, k: nat)
    ensures
        mumble_chars(state, n + k).take(mumble_chars(state, n).len() as int) == mumble_chars(state, n),
    decreases k,
{
    if k > 0 {
        law_mumble_extends(state, n, (k - 1) as nat);
        let short = mumble_chars(state, n);
        let mid = mumble_chars(state, (n + k - 1) as nat);
        assert(mumble_chars(state, n + k) == mid + syllable(state_after(state, 3 * (n + k - 1) as nat)));
        lemma_mumble_shape(state, n);
        lemma_mumble_prefix_len(state, n, (k - 1) as nat);
        assert((mid + syllable(state_after(state, 3 * (n + k - 1) as nat))).take(short.len() as int)
            =~= mid.take(short.len() as int));
    } else {
        assert(mumble_chars(state, n).take(mumble_chars(state, n).len() as int) =~= mumble_chars(state, n));
    }
}

/// A mumble is no longer than one with more syllables from the same state.
proof fn lemma_mumble_prefix_len(state: u64, n: nat, k: nat)
    ensures
        mumble_chars(state, n).len() <= mumble_chars(state, n + k).len(),
    decreases k,
{
    if k > 0 {
        lemma_mumble_prefix_len(state, n, (k - 1) as nat);
    }
}

/// Each syllable is an onset, then a nucleus, then a coda, from the tables.
pub proof fn law_syllable_parts(state: u64)
    ensures
        exists|i: int, j: int, k: int|
            0 <= i < 15 && 0 <= j < 12 && 0 <= k < 9 && syllable(state) == (#[trigger] ONSETS@[i])@ + (
            #[trigger] NUCLEI@[j])@ + (#[trigger] CODAS@[k])@,
{
    let i = (draw(state, 1) % 15) as int;
    let j = (draw(state, 2) % 12) as int;
    let k = (draw(state, 3) % 9) as int;
    assert(syllable(state) == ONSETS@[i]@ + NUCLEI@[j]@ + CODAS@[k]@);
}

/// The default configuration: seed 0xB3A4, signature frequency 0.18
/// (rounded up to the fixed-point scale), four syllables at most, and case
/// preservation on.
pub proof fn law_default_config()
    ensures
        default_config().seed == 0xB3A4,
        (default_config().signature_frequency as int - 1) * 100 < 18 * (CHANCE_ONE as int),
        18 * (CHANCE_ONE as int) <= (default_config().signature_frequency as int) * 100,
        default_config().max_syllables == 4,
        default_config().preserve_case,
{
}

/// The generator is splitmix64: seeded with 0, its first draw is the
/// published first output 0xe220a8397b1dcdaf.
pub proof fn law_splitmix_vector()
    ensures
        draw(0, 1) == 0xe220_a839_7b1d_cdafu64,
{
    reveal(mix);
    assert(state_after(0, 0) == 0);
    assert(wrapping_add(0, GOLDEN_GAMMA) == GOLDEN_GAMMA);
    assert(state_after(0, 1) == GOLDEN_GAMMA);
    assert(0x9e37_79b9_7f4a_7c15u64 ^ (0x9e37_79b9_7f4a_7c15u64 >> 30u64) == 0x9e37_79bb_0797_9af0u64)
        by (bit_vector);
    assert((0x9e37_79bb_0797_9af0nat * 0xbf58_476d_1ce4_e5b9nat) % 0x1_0000_0000_0000_0000nat
        == 0x6f68_261b_57e7_a770nat) by (nonlinear_arith);
    assert(0x6f68_261b_57e7_a770u64 ^ (0x6f68_261b_57e7_a770u64 >> 27u64) == 0x6f68_2616_bae3_641au64)
        by (bit_vector);
    assert((0x6f68_2616_bae3_641anat * 0x94d0_49bb_1331_11ebnat) % 0x1_0000_0000_0000_0000nat
        == 0xe220_a838_bf5c_9ddenat) by (nonlinear_arith);
    assert(0xe220_a838_bf5c_9ddeu64 ^ (0xe220_a838_bf5c_9ddeu64 >> 31u64) == 0xe220_a839_7b1d_cdafu64)
        by (bit_vector);
}

} // verus!
