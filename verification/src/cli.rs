//! The decisions of the `beanify` command line tool: its configuration
//! flags, where output goes, what becomes of each file, and the tally of a
//! run. Reading, walking and writing the file system is left to the caller.
use vstd::prelude::*;
use std::path::PathBuf;
use crate::config::BeanConfig;
use crate::unicode::push_char;

verus! {

/// std's owned path type, carried through unchanged.
#[verifier::external_type_specification]
#[verifier::external_body]
pub struct ExPathBuf(PathBuf);

/// Knobs forwarded to the beanification engine, as the command line gives
/// them.
#[derive(Debug)]
pub struct BeanArgs {
    /// Deterministic seed; the same seed always yields the same Bean-speak.
    pub seed: u64,
    /// Probability that a word becomes a signature Bean-ism, in the
    /// fixed-point scale of [`crate::rng::CHANCE_ONE`].
    pub signature_frequency: u64,
    /// Maximum syllables in a generated mumble.
    pub max_syllables: usize,
    /// Do not reapply the source word's UPPER/Title/lower casing.
    pub no_preserve_case: bool,
}

impl BeanArgs {
    /// Build the engine configuration from parsed flags: the syllable cap is
    /// raised to at least 1, and case preservation is the negated flag.
    pub fn to_config(&self) -> (config: BeanConfig)
        ensures
            config == (BeanConfig {
                seed: self.seed,
                signature_frequency: self.signature_frequency,
                max_syllables: if self.max_syllables < 1 {
                    1
                } else {
                    self.max_syllables
                },
                preserve_case: !self.no_preserve_case,
            }),
    {
        BeanConfig {
            seed: self.seed,
            signature_frequency: self.signature_frequency,
            max_syllables: if self.max_syllables < 1 {
                1
            } else {
                self.max_syllables
            },
            preserve_case: !self.no_preserve_case,
        }
    }
}

/// Where beanified output should go. The two flags are mutually exclusive;
/// with neither set, output is streamed to stdout.
#[derive(Debug)]
pub struct OutputArgs {
    /// Rewrite each input file in place.
    pub in_place: bool,
    /// Mirror the input tree into this directory, writing beanified copies.
    pub output: Option<PathBuf>,
}

/// Resolved destination for beanified content.
#[derive(Debug)]
pub enum Sink {
    /// Stream to stdout, with a header line before each file when `headers`.
    Stdout { headers: bool },
    /// Rewrite each file where it is.
    InPlace,
    /// Mirror the tree into this directory.
    Dir(PathBuf),
}

impl OutputArgs {
    /// Resolve the destination: in place when asked, else the mirror
    /// directory when given, else stdout, with per-file headers when some
    /// input is a directory (`any_dir`) or there is more than one input.
    pub fn into_sink(self, any_dir: bool, n_paths: usize) -> (sink: Sink)
        ensures
            self.in_place ==> sink == Sink::InPlace,
            !self.in_place && self.output is Some ==> sink == Sink::Dir(self.output->0),
            !self.in_place && self.output is None ==> sink == (Sink::Stdout {
                headers: any_dir || n_paths > 1,
            }),
    {
        if self.in_place {
            Sink::InPlace
        } else {
            match self.output {
                Some(dir) => Sink::Dir(dir),
                None => Sink::Stdout { headers: any_dir || n_paths > 1 },
            }
        }
    }
}

/// What became of one file.
#[derive(Debug, Clone, Copy, PartialEq, Eq, Structural)]
pub enum Outcome {
    /// The file was beanified.
    Processed,
    /// The file was left alone (too large, not UTF-8).
    Skipped,
}

/// What to do with one file, decided from its size and content.
#[derive(Debug, Clone, Copy, PartialEq, Eq, Structural)]
pub enum FilePlan {
    /// Larger than the limit: skipped.
    SkipOversized,
    /// Not UTF-8: skipped; copied verbatim into the mirror when `copy`.
    SkipBinary { copy: bool },
    /// UTF-8 text: beanified, and the result delivered to the sink when
    /// `write` (a dry run only reports it).
    Beanify { write: bool },
}

impl FilePlan {
    /// How the plan counts in the tally: beanified files are processed,
    /// all others skipped.
    pub fn outcome(&self) -> (o: Outcome)
        ensures
            o == (if self is Beanify {
                Outcome::Processed
            } else {
                Outcome::Skipped
            }),
    {
        match self {
            FilePlan::Beanify { .. } => Outcome::Processed,
            _ => Outcome::Skipped,
        }
    }
}

/// Decide what to do with a file of `len` bytes: files above `max_bytes` are
/// skipped; files that are not UTF-8 are skipped, and copied verbatim when
/// mirroring into a directory outside a dry run; text is beanified, and
/// written out unless this is a dry run.
pub fn plan_file(len: usize, max_bytes: u64, is_utf8: bool, sink: &Sink, dry_run: bool) -> (plan:
    FilePlan)
    ensures
        len > max_bytes ==> plan == FilePlan::SkipOversized,
        len <= max_bytes && !is_utf8 ==> plan == (FilePlan::SkipBinary {
            copy: sink is Dir && !dry_run,
        }),
        len <= max_bytes && is_utf8 ==> plan == (FilePlan::Beanify { write: !dry_run }),
{
    if len as u64 > max_bytes {
        FilePlan::SkipOversized
    } else if !is_utf8 {
        let mirroring = match sink {
            Sink::Dir(_) => true,
            _ => false,
        };
        FilePlan::SkipBinary { copy: mirroring && !dry_run }
    } else {
        FilePlan::Beanify { write: !dry_run }
    }
}

/// The header line that precedes a file's content on stdout.
pub open spec fn header_line(name: Seq<char>) -> Seq<char> {
    seq!['=', '=', '>', ' '] + name + seq![' ', '<', '=', '=', '\n']
}

/// A text followed by a line break unless it already ends in one.
pub open spec fn line_terminated(text: Seq<char>) -> Seq<char> {
    if text.len() > 0 && text.last() == '\n' {
        text
    } else {
        text.push('\n')
    }
}

/// What stdout receives for one file: its header when a name is given, then
/// its beanified content, ending in a line break.
pub open spec fn stdout_block(name: Option<Seq<char>>, text: Seq<char>) -> Seq<char> {
    match name {
        Some(n) => header_line(n) + line_terminated(text),
        None => line_terminated(text),
    }
}

fn push_all(out: &mut String, chars: &[char])
    ensures
        final(out)@ == old(out)@ + chars@,
{
    let mut i: usize = 0;
    while i < chars.len()
        invariant
            i <= chars.len(),
            out@ == old(out)@ + chars@.take(i as int),
        decreases chars.len() - i,
    {
        push_char(out, chars[i]);
        assert(chars@.take(i + 1) =~= chars@.take(i as int).push(chars@[i as int]));
        i = i + 1;
    }
    assert(chars@.take(chars.len() as int) =~= chars@);
}

/// Render one file's stdout block: `==> name <==` on its own line when a
/// name is given, then the beanified text, with a final line break added when
/// the text does not end in one.
pub fn stdout_chunk(name: Option<&str>, text: &str) -> (r: String)
    ensures
        r@ == stdout_block(
            match name {
                Some(n) => Some(n@),
                None => None,
            },
            text@,
        ),
{
    let mut out = String::new();
    match name {
        Some(n) => {
            push_all(&mut out, &['=', '=', '>', ' ']);
            out.append(n);
            push_all(&mut out, &[' ', '<', '=', '=', '\n']);
        },
        None => {},
    }
    out.append(text);
    let len = text.unicode_len();
    if len == 0 || text.get_char(len - 1) != '\n' {
        push_char(&mut out, '\n');
    }
    out
}

/// Tally of a beanification run.
#[derive(Debug, PartialEq, Eq, Structural)]
pub struct Summary {
    /// Files successfully beanified.
    pub processed: usize,
    /// Files skipped (too large, non-UTF-8, etc.).
    pub skipped: usize,
    /// Files that errored during processing.
    pub errors: usize,
}

impl Default for Summary {
    fn default() -> (s: Self)
        ensures
            s == (Summary { processed: 0, skipped: 0, errors: 0 }),
    {
        Summary { processed: 0, skipped: 0, errors: 0 }
    }
}

impl Summary {
    /// Count a file that was handled: the matching counter goes up by one,
    /// the others stay.
    pub fn record(&mut self, outcome: Outcome)
        requires
            outcome == Outcome::Processed ==> old(self).processed < usize::MAX,
            outcome == Outcome::Skipped ==> old(self).skipped < usize::MAX,
        ensures
            *final(self) == (match outcome {
                Outcome::Processed => Summary { processed: (old(self).processed + 1) as usize, ..*old(self) },
                Outcome::Skipped => Summary { skipped: (old(self).skipped + 1) as usize, ..*old(self) },
            }),
    {
        match outcome {
            Outcome::Processed => self.processed = self.processed + 1,
            Outcome::Skipped => self.skipped = self.skipped + 1,
        }
    }

    /// Count a file whose processing failed; one failing file does not stop
    /// the run.
    pub fn record_error(&mut self)
        requires
            old(self).errors < usize::MAX,
        ensures
            *final(self) == (Summary { errors: (old(self).errors + 1) as usize, ..*old(self) }),
    {
        self.errors = self.errors + 1;
    }
}

} // verus!
