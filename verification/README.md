# beanifier

Turns ordinary text into Mr-Bean-speak: every alphanumeric run becomes a
deterministic mumble (or, now and then, a signature Bean-ism such as "bean"
or "teddy"), while whitespace, punctuation and line breaks stay where they are.

## Layout

- `src/`: the library, verified with Verus.
  - `rng.rs`: FNV-1a hashing and the splitmix64 generator.
  - `syllables.rs`: the phoneme tables.
  - `unicode.rs`: the Unicode classes and case mappings std provides, named.
  - `text.rs`: how a text splits into words and separators.
  - `beanify.rs`: the engine (`Beanifier`) and its specification.
  - `config.rs`: `BeanConfig`.
  - `laws.rs`: what holds of beanification on every input; the laws on
    casing take std's ASCII behaviour (`unicode::std_ascii_facts`)
    as a hypothesis.
  - `cli.rs`, `paths.rs`: the decisions of the command line tool (where
    output goes, what happens to each file, the tally, mirrored paths).
- `app/`: the `beanify` command line tool (argument parsing, file system
  walking and I/O) and the Yew web frontend.
- `tests/`: tests of the library.

## Probabilities

The library holds the signature frequency as a fixed-point number: a
probability `p` in `0.0..=1.0` stands as `ceil(p * 2^53)`, so `2^53`
(`rng::CHANCE_ONE`) is certainty. A word becomes a signature Bean-ism when the
top 53 bits of its first draw are below that number, which is exactly when the
draw, read as a fraction in `[0, 1)`, is below `p`. The command line and the
web frontend take `p` as a decimal and convert it.
