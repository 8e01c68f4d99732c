//! The randomness capability consumed by the assembler.
//!
//! Every source of randomness and both derived computations (the padding
//! decision and the entropy report) sit behind the `Randomizer` trait, so the
//! assembly logic never depends on a concrete randomness source.  Each
//! operation is pinned to a spec-level counterpart, which makes a generation
//! call a function of the dictionary and the randomizer state alone.  The
//! crate ships two implementations: the seeded production randomizer in
//! `settings` and the deterministic `FixedRandomizer` below.

use vstd::prelude::*;

use crate::entropy::Entropy;
use crate::text::chars_vec;
use crate::text::extend_chars;
use crate::text::extend_strings;

verus! {

/// The final length adjustment chosen for one generated password.
pub enum PaddingResult {
    /// Keep the assembled password as it is.
    Unchanged,
    /// Truncate the password to its first so-many characters.
    TrimTo(usize),
    /// Append the literal string to the password.
    Pad(String),
}

/// The spec-level shape of a padding result: what a `PaddingResult` value
/// means, with the padding string taken up to its characters.
pub enum PadChoice {
    /// Keep the assembled password as it is.
    Keep,
    /// Truncate the password to its first so-many characters.
    Trim(int),
    /// Append these characters to the password.
    Extend(Seq<char>),
}

/// The adjustment that a padding result describes.
pub open spec fn pad_choice_of(p: PaddingResult) -> PadChoice {
    match p {
        PaddingResult::Unchanged => PadChoice::Keep,
        PaddingResult::TrimTo(n) => PadChoice::Trim(n as int),
        PaddingResult::Pad(e) => PadChoice::Extend(e@),
    }
}

/// The password after a padding decision is applied: unchanged, cut to the
/// first `n` characters, or extended by the literal padding string.
pub open spec fn padded(s: Seq<char>, p: PadChoice) -> Seq<char> {
    match p {
        PadChoice::Keep => s,
        PadChoice::Trim(n) => if 0 <= n <= s.len() {
            s.take(n)
        } else {
            s
        },
        PadChoice::Extend(e) => s + e,
    }
}

/// Applies a padding result to an assembled password.
pub fn apply_padding(pass: &mut Vec<char>, padding: &PaddingResult)
    ensures
        final(pass)@ == padded(old(pass)@, pad_choice_of(*padding)),
{
    match padding {
        PaddingResult::Unchanged => {},
        PaddingResult::TrimTo(n) => {
            pass.truncate(*n);
        },
        PaddingResult::Pad(extra) => {
            let cs = chars_vec(extra.as_str());
            extend_chars(pass, &cs);
        },
    }
}

/// Trimming yields a password of exactly the target length whenever the
/// target does not exceed the pre-trim length.
pub proof fn lemma_trim_exact(s: Seq<char>, n: usize)
    requires
        n <= s.len(),
    ensures
        padded(s, PadChoice::Trim(n as int)).len() == n,
{
}

/// Padding yields exactly the pre-pad password followed by the extra string.
pub proof fn lemma_pad_appends(s: Seq<char>, extra: Seq<char>)
    ensures
        padded(s, PadChoice::Extend(extra)) == s + extra,
{
}

/// Supplies every random draw and both derived computations of a generation
/// call.  Each exec operation returns exactly what its spec-level counterpart
/// names, so what a randomizer will answer is a function of its state; a
/// genuinely random implementation keeps its draws deterministic by carrying
/// the seed in that state.
pub trait Randomizer: Sized {
    /// The implementation's own validity condition; every operation assumes
    /// it.
    spec fn wf(&self) -> bool;

    /// The inclusive word-length range used to select the eligible pool.
    spec fn lengths_spec(&self) -> (u8, u8);

    /// The words that will be drawn from `pool`, transforms applied.
    spec fn words_spec(&self, pool: Seq<Seq<char>>) -> Seq<Seq<char>>;

    /// The separator that will be drawn.
    spec fn separator_spec(&self) -> Seq<char>;

    /// The symbol and digit prefixes that will be drawn, in that order.
    spec fn prefix_spec(&self) -> (Seq<char>, Seq<char>);

    /// The digit and symbol suffixes that will be drawn, in that order.
    spec fn suffix_spec(&self) -> (Seq<char>, Seq<char>);

    /// The padding decision for a password of length `len`.
    spec fn padding_spec(&self, len: int) -> PadChoice;

    /// The entropy report for an eligible pool of `pool_len` words and a
    /// final password of length `len`.
    spec fn entropy_spec(&self, pool_len: int, len: int) -> Entropy;

    /// Every entropy report keeps its blind estimates ordered.
    proof fn entropy_ordered(&self, pool_len: int, len: int)
        requires
            self.wf(),
        ensures
            self.entropy_spec(pool_len, len).blind_min <= self.entropy_spec(
                pool_len,
                len,
            ).blind_max,
    ;

    /// The inclusive word-length range taken from the settings.
    fn word_lengths(&self) -> (r: (u8, u8))
        requires
            self.wf(),
        ensures
            r == self.lengths_spec(),
    ;

    /// Draws the configured number of words from `pool`.
    fn rand_words(&self, pool: &Vec<String>) -> (r: Vec<String>)
        requires
            self.wf(),
        ensures
            r.deep_view() == self.words_spec(pool.deep_view()),
    ;

    /// Draws one separator string from the separator alphabet.
    fn rand_separator(&self) -> (r: String)
        requires
            self.wf(),
        ensures
            r@ == self.separator_spec(),
    ;

    /// Draws the symbol prefix and the digit prefix, in that order.
    fn rand_prefix(&self) -> (r: (String, String))
        requires
            self.wf(),
        ensures
            r.0@ == self.prefix_spec().0,
            r.1@ == self.prefix_spec().1,
    ;

    /// Draws the digit suffix and the symbol suffix, in that order, so that
    /// read left to right a password is symbols, digits, words, digits,
    /// symbols.
    fn rand_suffix(&self) -> (r: (String, String))
        requires
            self.wf(),
        ensures
            r.0@ == self.suffix_spec().0,
            r.1@ == self.suffix_spec().1,
    ;

    /// Decides the final length adjustment for a password of length
    /// `current_len`.
    fn adjust_padding(&self, current_len: usize) -> (r: PaddingResult)
        requires
            self.wf(),
        ensures
            pad_choice_of(r) == self.padding_spec(current_len as int),
    ;

    /// Computes the entropy report for the final password, given the size of
    /// the eligible pool the words were drawn from.
    fn calc_entropy(&self, pool_len: usize, final_len: usize) -> (r: Entropy)
        requires
            self.wf(),
        ensures
            r == self.entropy_spec(pool_len as int, final_len as int),
            r.blind_min <= r.blind_max,
    ;
}

/// A deterministic randomizer that answers every draw with a stored value:
/// the stand-in that makes the assembler testable.
pub struct FixedRandomizer {
    /// Inclusive word-length range.
    pub lengths: (u8, u8),
    /// The words handed out regardless of the pool.
    pub words: Vec<String>,
    /// The separator handed out.
    pub separator: String,
    /// Symbol prefix.
    pub prefix_symbols: String,
    /// Digit prefix.
    pub prefix_digits: String,
    /// Digit suffix.
    pub suffix_digits: String,
    /// Symbol suffix.
    pub suffix_symbols: String,
    /// The padding decision handed out.
    pub padding: PaddingResult,
    /// The entropy report handed out.
    pub entropy: Entropy,
}

/// Copies a vector of strings, keeping every character.
fn clone_strings(v: &Vec<String>) -> (r: Vec<String>)
    ensures
        r.deep_view() == v.deep_view(),
{
    let mut r: Vec<String> = Vec::new();
    proof {
        assert(r.deep_view() =~= Seq::<Seq<char>>::empty());
    }
    extend_strings(&mut r, v);
    proof {
        assert(Seq::<Seq<char>>::empty() + v.deep_view() =~= v.deep_view());
    }
    r
}

impl Randomizer for FixedRandomizer {
    /// The stored entropy report must keep its blind estimates ordered.
    open spec fn wf(&self) -> bool {
        self.entropy.blind_min <= self.entropy.blind_max
    }

    open spec fn lengths_spec(&self) -> (u8, u8) {
        self.lengths
    }

    open spec fn words_spec(&self, pool: Seq<Seq<char>>) -> Seq<Seq<char>> {
        self.words.deep_view()
    }

    open spec fn separator_spec(&self) -> Seq<char> {
        self.separator@
    }

    open spec fn prefix_spec(&self) -> (Seq<char>, Seq<char>) {
        (self.prefix_symbols@, self.prefix_digits@)
    }

    open spec fn suffix_spec(&self) -> (Seq<char>, Seq<char>) {
        (self.suffix_digits@, self.suffix_symbols@)
    }

    open spec fn padding_spec(&self, len: int) -> PadChoice {
        pad_choice_of(self.padding)
    }

    open spec fn entropy_spec(&self, pool_len: int, len: int) -> Entropy {
        self.entropy
    }

    proof fn entropy_ordered(&self, pool_len: int, len: int) {
    }

    fn word_lengths(&self) -> (r: (u8, u8)) {
        self.lengths
    }

    fn rand_words(&self, pool: &Vec<String>) -> (r: Vec<String>) {
        clone_strings(&self.words)
    }

    fn rand_separator(&self) -> (r: String) {
        self.separator.clone()
    }

    fn rand_prefix(&self) -> (r: (String, String)) {
        (self.prefix_symbols.clone(), self.prefix_digits.clone())
    }

    fn rand_suffix(&self) -> (r: (String, String)) {
        (self.suffix_digits.clone(), self.suffix_symbols.clone())
    }

    fn adjust_padding(&self, current_len: usize) -> (r: PaddingResult) {
        match &self.padding {
            PaddingResult::Unchanged => PaddingResult::Unchanged,
            PaddingResult::TrimTo(n) => PaddingResult::TrimTo(*n),
            PaddingResult::Pad(extra) => PaddingResult::Pad(extra.clone()),
        }
    }

    fn calc_entropy(&self, pool_len: usize, final_len: usize) -> (r: Entropy) {
        self.entropy
    }
}

} // verus!
