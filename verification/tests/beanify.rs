use beanifier::beanify::{apply_case, detect_case, Case};
use beanifier::rng::CHANCE_ONE;
use beanifier::syllables::SIGNATURES;
use beanifier::{beanify, BeanConfig, Beanifier};

#[test]
fn empty_input_stays_empty() {
    assert_eq!(Beanifier::default().beanify_text(""), "");
    assert_eq!(Beanifier::default().beanify_word(""), "");
}

#[test]
fn is_deterministic() {
    let b = Beanifier::default();
    assert_eq!(b.beanify_text("hello world"), b.beanify_text("hello world"));
    assert_eq!(b.beanify_word("teddy"), b.beanify_word("teddy"));
}

#[test]
fn preserves_non_word_structure() {
    let b = Beanifier::default();
    let out = b.beanify_text("one, two.\nthree!");
    // Punctuation, spaces, and the newline must survive verbatim.
    assert!(out.contains(','));
    assert!(out.contains('.'));
    assert!(out.contains('\n'));
    assert!(out.contains('!'));
    assert_eq!(out.matches(' ').count(), 1);
}

#[test]
fn whitespace_only_is_untouched() {
    let b = Beanifier::default();
    assert_eq!(b.beanify_text("  \t\n "), "  \t\n ");
}

#[test]
fn preserves_uppercase() {
    let b = Beanifier::default();
    let out = b.beanify_word("HELLO");
    assert_eq!(out, out.to_uppercase());
    assert!(!out.is_empty());
}

#[test]
fn preserves_titlecase() {
    let b = Beanifier::default();
    let out = b.beanify_word("Hello");
    let mut chars = out.chars();
    assert!(chars.next().unwrap().is_uppercase());
    assert!(chars.all(|c| !c.is_uppercase()));
}

#[test]
fn lowercase_stays_lowercase() {
    let b = Beanifier::default();
    let out = b.beanify_word("hello");
    assert_eq!(out, out.to_lowercase());
}

#[test]
fn different_seeds_differ() {
    let a = Beanifier::new(BeanConfig::default().with_seed(1));
    let b = Beanifier::new(BeanConfig::default().with_seed(2));
    // Overwhelmingly likely to differ across a sentence.
    assert_ne!(
        a.beanify_text("the quick brown fox"),
        b.beanify_text("the quick brown fox")
    );
}

#[test]
fn case_insensitive_word_maps_consistently_when_case_ignored() {
    let cfg = BeanConfig {
        preserve_case: false,
        ..BeanConfig::default()
    };
    let b = Beanifier::new(cfg);
    assert_eq!(b.beanify_word("Hello"), b.beanify_word("hello"));
    assert_eq!(b.beanify_word("HELLO"), b.beanify_word("hello"));
}

#[test]
fn syllable_count_is_bounded() {
    let cfg = BeanConfig::default()
        .with_signature_frequency(0)
        .with_max_syllables(2);
    let b = Beanifier::new(cfg);
    // A long word must not exceed the syllable cap; each syllable is at
    // most 6 chars (onset<=2, nucleus<=2, coda<=2).
    let out = b.beanify_word("supercalifragilisticexpialidocious");
    assert!(out.len() <= 2 * 6);
}

#[test]
fn zero_signature_frequency_never_uses_signatures() {
    let cfg = BeanConfig::default().with_signature_frequency(0);
    let b = Beanifier::new(cfg);
    for w in ["hello", "world", "teddy", "rowan", "atkinson"] {
        assert!(!b.beanify_word(w).contains(' '));
    }
}

#[test]
fn full_signature_frequency_always_uses_signatures() {
    let cfg = BeanConfig::default().with_signature_frequency(CHANCE_ONE);
    let b = Beanifier::new(cfg);
    for w in ["hello", "world", "programming"] {
        assert!(SIGNATURES.contains(&b.beanify_word(w).to_lowercase().as_str()));
    }
}

#[test]
fn digits_are_treated_as_words() {
    let b = Beanifier::default();
    let out = b.beanify_text("abc 123 def");
    // Two spaces preserved, three tokens transformed.
    assert_eq!(out.matches(' ').count(), 2);
}

#[test]
fn convenience_matches_default_engine() {
    assert_eq!(
        beanify("hello world"),
        Beanifier::default().beanify_text("hello world")
    );
}

#[test]
fn default_engine_exact_outputs() {
    assert_eq!(beanify("hello world"), "peppooptab pibpetah");
    assert_eq!(beanify("Hello, world!"), "Peppooptab, pibpetah!");
    assert_eq!(beanify("HELLO"), "PEPPOOPTAB");
    assert_eq!(beanify("teddy"), "nginghmubhnowng");
    assert_eq!(beanify("the quick brown fox"), "bwamhmahh ngemnginghmaam mr bean nnng");
    assert_eq!(beanify("abc 123 def"), "teddy hnagown flehmeh");
    assert_eq!(beanify("one, two.\nthree!"), "mwah, hmuhhbwuhb.\nbuhmneehmoom!");
    assert_eq!(beanify("supercalifragilisticexpialidocious"), "wihbleepflomnga");
}

#[test]
fn seeded_engines_exact_outputs() {
    let a = Beanifier::new(BeanConfig::default().with_seed(1));
    let b = Beanifier::new(BeanConfig::default().with_seed(2));
    assert_eq!(a.beanify_text("the quick brown fox"), "nenfleh blihnguhngmeb bowbwubuhm webnow");
    assert_eq!(b.beanify_text("the quick brown fox"), "bluhgru bwownghnohna eurgh flehwoom");
}

#[test]
fn frequency_extremes_exact_outputs() {
    let zero = Beanifier::new(BeanConfig::default().with_signature_frequency(0));
    assert_eq!(zero.beanify_word("rowan"), "wehmdeebhmahh");
    assert_eq!(zero.beanify_word("atkinson"), "gubgipnubflen");
    let capped = Beanifier::new(
        BeanConfig::default().with_signature_frequency(0).with_max_syllables(2),
    );
    assert_eq!(capped.beanify_word("supercalifragilisticexpialidocious"), "wihbleep");
    let full = Beanifier::new(BeanConfig::default().with_signature_frequency(CHANCE_ONE));
    assert_eq!(full.beanify_word("hello"), "nnng");
    assert_eq!(full.beanify_word("programming"), "wibble");
    // Above 1.0 acts as 1.0.
    let above = Beanifier::new(BeanConfig::default().with_signature_frequency(u64::MAX));
    assert_eq!(above.beanify_word("programming"), "wibble");
}

#[test]
fn zero_syllable_cap_acts_as_one() {
    let zero = Beanifier::new(
        BeanConfig::default().with_signature_frequency(0).with_max_syllables(0),
    );
    let one = Beanifier::new(
        BeanConfig::default().with_signature_frequency(0).with_max_syllables(1),
    );
    let w = "supercalifragilisticexpialidocious";
    assert_eq!(zero.beanify_word(w), one.beanify_word(w));
}

#[test]
fn split_at_separator_beanifies_each_side() {
    let b = Beanifier::default();
    let whole = b.beanify_text("alpha beta, gamma!");
    let left = b.beanify_text("alpha beta");
    let right = b.beanify_text(" gamma!");
    assert_eq!(whole, format!("{},{}", left, right));
}

#[test]
fn single_word_text_is_the_word() {
    let b = Beanifier::default();
    for w in ["hello", "World", "ABC", "x", "42"] {
        assert_eq!(b.beanify_text(w), b.beanify_word(w));
    }
}

#[test]
fn zero_frequency_mumbles_are_lowercase_letters() {
    let cfg = BeanConfig {
        preserve_case: false,
        ..BeanConfig::default().with_signature_frequency(0)
    };
    let b = Beanifier::new(cfg);
    for w in ["Hello", "WORLD", "x", "supercalifragilisticexpialidocious"] {
        let out = b.beanify_word(w);
        assert!(!out.is_empty());
        assert!(out.chars().all(|c| c.is_ascii_lowercase()));
        assert!(out.chars().count() <= 6 * 4);
    }
}

#[test]
fn non_ascii_words_and_separators() {
    let b = Beanifier::default();
    // Non-ASCII letters are word characters; the dash and space survive.
    let out = b.beanify_text("héllo — wörld");
    assert!(out.contains(" — "));
    assert!(!out.contains("héllo"));
}

#[test]
fn detect_case_patterns() {
    assert_eq!(detect_case("HELLO"), Case::Upper);
    assert_eq!(detect_case("Hello"), Case::Title);
    assert_eq!(detect_case("hello"), Case::Lower);
    assert_eq!(detect_case("A"), Case::Title);
    assert_eq!(detect_case("AB"), Case::Upper);
    assert_eq!(detect_case("McD"), Case::Lower);
    assert_eq!(detect_case("HeLLo"), Case::Lower);
    assert_eq!(detect_case("Hi There"), Case::Lower);
    assert_eq!(detect_case("Hé"), Case::Title);
    assert_eq!(detect_case("hELLO"), Case::Lower);
    assert_eq!(detect_case("123"), Case::Lower);
    assert_eq!(detect_case("9Z"), Case::Title);
    assert_eq!(detect_case("9ZZ"), Case::Upper);
    assert_eq!(detect_case(""), Case::Lower);
}

#[test]
fn apply_case_patterns() {
    assert_eq!(apply_case("abc", Case::Upper), "ABC");
    assert_eq!(apply_case("abc", Case::Title), "Abc");
    assert_eq!(apply_case("abc", Case::Lower), "abc");
    assert_eq!(apply_case("", Case::Title), "");
    assert_eq!(apply_case("ßa", Case::Title), "SSa");
}

#[test]
fn config_builders_and_default() {
    let d = BeanConfig::default();
    assert_eq!(d.seed, 0xB3A4);
    assert_eq!(d.signature_frequency, 1_621_295_865_853_379);
    assert_eq!(d.max_syllables, 4);
    assert!(d.preserve_case);
    let c = BeanConfig::default()
        .with_seed(5)
        .with_signature_frequency(6)
        .with_max_syllables(7);
    assert_eq!(c, BeanConfig { seed: 5, signature_frequency: 6, max_syllables: 7, preserve_case: true });
    assert_eq!(*Beanifier::new(c.clone()).config(), c);
}

#[test]
fn casing_round_trips_on_casable_text() {
    for text in ["peppooptab", "mr bean", "ab", "nnng", "wihbleep", "a b", "a  bc d"] {
        for case in [Case::Upper, Case::Title, Case::Lower] {
            assert_eq!(detect_case(&apply_case(text, case)), case);
        }
    }
}

#[test]
fn casing_detected_back_from_bean_speak() {
    for seed in [0u64, 1, 2, 0xB3A4] {
        let b = Beanifier::new(BeanConfig::default().with_seed(seed));
        for w in ["Hello", "HELLO", "hello", "HeLLo", "A", "McD", "x9", "Programming"] {
            assert_eq!(detect_case(&b.beanify_word(w)), detect_case(w));
        }
    }
}

#[test]
fn ascii_words_are_seeded_lowercase() {
    let plain = Beanifier::new(BeanConfig { preserve_case: false, ..BeanConfig::default() });
    let styled = Beanifier::default();
    for w in ["HeLLo", "HELLO", "Hello", "McD", "Rowan9"] {
        let lower = w.to_ascii_lowercase();
        assert_eq!(plain.beanify_word(w), plain.beanify_word(&lower));
        assert_eq!(
            styled.beanify_word(w),
            apply_case(&plain.beanify_word(&lower), detect_case(w))
        );
    }
}

#[test]
fn ascii_case_behaviour_of_std() {
    for c in 'a'..='z' {
        let s = c.to_string();
        let up = c.to_ascii_uppercase().to_string();
        assert_eq!(apply_case(&s, Case::Upper), up);
        assert_eq!(apply_case(&s, Case::Title), up);
        assert_eq!(detect_case(&format!("{}{}", up, up)), Case::Upper);
        assert_eq!(detect_case(&format!("{}{}", s, s)), Case::Lower);
        assert_eq!(detect_case(&format!("{}{}", up, s)), Case::Title);
    }
    assert_eq!(detect_case(" "), Case::Lower);
}

#[test]
fn ascii_separators_are_untouched() {
    let b = Beanifier::default();
    let seps: String = (0u8..128)
        .map(|b| b as char)
        .filter(|c| !c.is_ascii_alphanumeric())
        .collect();
    assert_eq!(b.beanify_text(&seps), seps);
}
