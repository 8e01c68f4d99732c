//! Generation settings and the seeded production randomizer.
//!
//! `Settings` carries the shape parameters of a password; `SeededRand` pairs
//! them with a 64-bit seed and implements the `Randomizer` capability.  Every
//! draw comes from a xorshift stream derived from the seed, so a generation
//! call is a pure function of dictionary, settings and seed; a caller wanting
//! fresh passwords supplies a fresh seed.
//!
//! The entropy model counts integer bits: each independent choice of an
//! alphabet of size `n` contributes the floor of the base-two logarithm of
//! `n`.  Blind estimates assume words of the shortest and of the longest
//! eligible length over a letter alphabet of 26; the seen estimate uses the
//! actual pool size.  Word casing is applied per ASCII letter; characters
//! outside the ASCII letters pass through transforms unchanged.

use vstd::prelude::*;

use crate::entropy::Entropy;
use crate::entropy::GuessTime;
use crate::entropy::guess_time_of;
use crate::randomizer::PadChoice;
use crate::randomizer::PaddingResult;
use crate::randomizer::Randomizer;
use crate::text::chars_vec;
use crate::text::string_from_chars;

verus! {

/// The size of the letter alphabet assumed for blind entropy.
pub const WORD_ALPHABET: u64 = 26;

/// A per-word casing rule applied during assembly.
#[derive(Clone, Copy, Debug, PartialEq, Eq, Structural)]
pub enum WordTransform {
    /// Every letter lowercase.
    Lowercase,
    /// Every letter uppercase.
    Uppercase,
    /// First letter uppercase, the rest lowercase.
    Titlecase,
    /// First letter lowercase, the rest uppercase.
    InvertedTitlecase,
}

/// The final length strategy: fixed padding counts only, or an adaptive
/// target total length.
#[derive(Clone, Copy, Debug, PartialEq, Eq, Structural)]
pub enum PaddingStrategy {
    /// Keep whatever the explicit padding counts produce.
    Fixed,
    /// Trim or extend the password to exactly this length.
    Adaptive(usize),
}

/// An ASCII lowercase letter raised to uppercase; other characters kept.
pub open spec fn upper_char(c: char) -> char {
    if 97 <= c as int && c as int <= 122 {
        (c as int - 32) as char
    } else {
        c
    }
}

/// An ASCII uppercase letter lowered to lowercase; other characters kept.
pub open spec fn lower_char(c: char) -> char {
    if 65 <= c as int && c as int <= 90 {
        (c as int + 32) as char
    } else {
        c
    }
}

/// Maps the letters a to z to A to Z and keeps every other character.
fn ascii_upper(c: char) -> (r: char)
    ensures
        r == upper_char(c),
{
    match c {
        'a' => 'A',
        'b' => 'B',
        'c' => 'C',
        'd' => 'D',
        'e' => 'E',
        'f' => 'F',
        'g' => 'G',
        'h' => 'H',
        'i' => 'I',
        'j' => 'J',
        'k' => 'K',
        'l' => 'L',
        'm' => 'M',
        'n' => 'N',
        'o' => 'O',
        'p' => 'P',
        'q' => 'Q',
        'r' => 'R',
        's' => 'S',
        't' => 'T',
        'u' => 'U',
        'v' => 'V',
        'w' => 'W',
        'x' => 'X',
        'y' => 'Y',
        'z' => 'Z',
        _ => c,
    }
}

/// Maps the letters A to Z to a to z and keeps every other character.
pub(crate) fn ascii_lower(c: char) -> (r: char)
    ensures
        r == lower_char(c),
{
    match c {
        'A' => 'a',
        'B' => 'b',
        'C' => 'c',
        'D' => 'd',
        'E' => 'e',
        'F' => 'f',
        'G' => 'g',
        'H' => 'h',
        'I' => 'i',
        'J' => 'j',
        'K' => 'k',
        'L' => 'l',
        'M' => 'm',
        'N' => 'n',
        'O' => 'o',
        'P' => 'p',
        'Q' => 'q',
        'R' => 'r',
        'S' => 's',
        'T' => 't',
        'U' => 'u',
        'V' => 'v',
        'W' => 'w',
        'X' => 'x',
        'Y' => 'y',
        'Z' => 'z',
        _ => c,
    }
}

/// The casing a transform gives one character, depending on whether it is
/// the first of its word.
pub open spec fn transformed_char(t: WordTransform, c: char, first: bool) -> char {
    match t {
        WordTransform::Lowercase => lower_char(c),
        WordTransform::Uppercase => upper_char(c),
        WordTransform::Titlecase => if first {
            upper_char(c)
        } else {
            lower_char(c)
        },
        WordTransform::InvertedTitlecase => if first {
            lower_char(c)
        } else {
            upper_char(c)
        },
    }
}

/// A word with a casing transform applied to each character.
pub open spec fn transformed(t: WordTransform, w: Seq<char>) -> Seq<char> {
    Seq::new(w.len(), |i: int| transformed_char(t, w[i], i == 0))
}

/// Applies a casing transform to one word.
pub fn apply_transform(t: WordTransform, w: &str) -> (r: String)
    ensures
        r@ == transformed(t, w@),
{
    let cs = chars_vec(w);
    let n = cs.len();
    let mut out: Vec<char> = Vec::new();
    let mut i: usize = 0;
    while i < n
        invariant
            0 <= i <= n,
            n == cs@.len(),
            cs@ == w@,
            out@ =~= transformed(t, w@).take(i as int),
        decreases n - i,
    {
        let first = i == 0;
        let c = cs[i];
        let mapped = match t {
            WordTransform::Lowercase => ascii_lower(c),
            WordTransform::Uppercase => ascii_upper(c),
            WordTransform::Titlecase => if first {
                ascii_upper(c)
            } else {
                ascii_lower(c)
            },
            WordTransform::InvertedTitlecase => if first {
                ascii_lower(c)
            } else {
                ascii_upper(c)
            },
        };
        out.push(mapped);
        i += 1;
        proof {
            assert(out@ =~= transformed(t, w@).take(i as int));
        }
    }
    proof {
        assert(transformed(t, w@).take(n as int) =~= transformed(t, w@));
    }
    string_from_chars(&out)
}

/// Shape parameters for one generation call.  The core does not validate
/// them: `wf` below is the precondition the assembler assumes.
pub struct Settings {
    /// How many words to draw.
    pub words_count: u8,
    /// Smallest eligible word length, inclusive.
    pub word_length_min: u8,
    /// Largest eligible word length, inclusive.
    pub word_length_max: u8,
    /// Separator alphabet; one character is drawn per call.
    pub separators: String,
    /// Digit alphabet used for padding digits.
    pub padding_digit_alphabet: String,
    /// Digits prepended before the words.
    pub padding_digits_before: u8,
    /// Digits appended after the words.
    pub padding_digits_after: u8,
    /// Symbol alphabet used for padding symbols.
    pub padding_symbol_alphabet: String,
    /// Symbols prepended at the very front.
    pub padding_symbols_before: u8,
    /// Symbols appended at the very end.
    pub padding_symbols_after: u8,
    /// Fixed or adaptive final length.
    pub padding_strategy: PaddingStrategy,
    /// Enabled casing transforms; one is drawn per word when several are
    /// enabled, and words pass through unchanged when none is.
    pub word_transforms: Vec<WordTransform>,
}

impl Settings {
    /// The validity the generation core assumes of its settings: an ordered
    /// word-length range, and alphabets whose size a `u64` can count.
    pub open spec fn wf(&self) -> bool {
        &&& self.word_length_min <= self.word_length_max
        &&& self.separators@.len() <= 0xFFFFFFFFFFFFFFFF
        &&& self.padding_digit_alphabet@.len() <= 0xFFFFFFFFFFFFFFFF
        &&& self.padding_symbol_alphabet@.len() <= 0xFFFFFFFFFFFFFFFF
    }
}

impl Default for Settings {
    /// Three lowercase words of four to eight letters joined by dots, two
    /// digits and two symbols appended, fixed length.
    fn default() -> (r: Settings)
        ensures
            r.words_count == 3,
            r.word_length_min == 4,
            r.word_length_max == 8,
            r.separators@ == "."@,
            r.padding_digit_alphabet@ == "0123456789"@,
            r.padding_digits_before == 0,
            r.padding_digits_after == 2,
            r.padding_symbol_alphabet@ == "!@#$%^&*-_=+:|~?/;"@,
            r.padding_symbols_before == 0,
            r.padding_symbols_after == 2,
            r.padding_strategy == PaddingStrategy::Fixed,
            r.word_transforms@ =~= seq![WordTransform::Lowercase],
            r.wf(),
    {
        proof {
            reveal_strlit(".");
            reveal_strlit("0123456789");
            reveal_strlit("!@#$%^&*-_=+:|~?/;");
        }
        let mut transforms: Vec<WordTransform> = Vec::new();
        transforms.push(WordTransform::Lowercase);
        Settings {
            words_count: 3,
            word_length_min: 4,
            word_length_max: 8,
            separators: String::from_str("."),
            padding_digit_alphabet: String::from_str("0123456789"),
            padding_digits_before: 0,
            padding_digits_after: 2,
            padding_symbol_alphabet: String::from_str("!@#$%^&*-_=+:|~?/;"),
            padding_symbols_before: 0,
            padding_symbols_after: 2,
            padding_strategy: PaddingStrategy::Fixed,
            word_transforms: transforms,
        }
    }
}

/// One step of a xorshift generator over 64-bit state.
pub open spec fn spec_next_state(x: u64) -> u64 {
    let a = x ^ (x << 13u64);
    let b = a ^ (a >> 7u64);
    b ^ (b << 17u64)
}

fn next_state(x: u64) -> (r: u64)
    ensures
        r == spec_next_state(x),
{
    let a = x ^ (x << 13u64);
    let b = a ^ (a >> 7u64);
    b ^ (b << 17u64)
}

/// The state a xorshift stream replaces an all-zero seed with, so that the
/// stream never sticks at zero.
pub const SEED_FALLBACK: u64 = 0x9E3779B97F4A7C15;

/// The starting state of the stream tagged `tag` for a seed.
pub open spec fn stream_base(seed: u64, tag: u64) -> u64 {
    if seed ^ tag == 0 {
        SEED_FALLBACK
    } else {
        seed ^ tag
    }
}

fn stream_start(seed: u64, tag: u64) -> (r: u64)
    ensures
        r == stream_base(seed, tag),
{
    let base = seed ^ tag;
    if base == 0 {
        SEED_FALLBACK
    } else {
        base
    }
}

/// The xorshift state after `k` steps from the stream base.
pub open spec fn state_at(seed: u64, tag: u64, k: nat) -> u64
    decreases k,
{
    if k == 0 {
        stream_base(seed, tag)
    } else {
        spec_next_state(state_at(seed, tag, (k - 1) as nat))
    }
}

/// Stream tag for word draws.
pub const TAG_WORDS: u64 = 1;

/// Stream tag for the separator draw.
pub const TAG_SEP: u64 = 2;

/// Stream tag for prefix symbols.
pub const TAG_PRE_SYM: u64 = 3;

/// Stream tag for prefix digits.
pub const TAG_PRE_DIG: u64 = 4;

/// Stream tag for suffix digits.
pub const TAG_SUF_DIG: u64 = 5;

/// Stream tag for suffix symbols.
pub const TAG_SUF_SYM: u64 = 6;

/// Stream tag for the adaptive padding symbol.
pub const TAG_PAD: u64 = 7;

/// Reduces a draw to an index below `n`.
fn reduce_index(st: u64, n: usize) -> (r: usize)
    requires
        n > 0,
    ensures
        r == st as int % n as int,
        r < n,
{
    (st % (n as u64)) as usize
}

/// The characters drawn from `alpha` by the stream starting at `base`:
/// `count` draws, or none when the alphabet is empty.
pub open spec fn drawn_seq(alpha: Seq<char>, seed: u64, tag: u64, count: int) -> Seq<char> {
    if alpha.len() == 0 {
        Seq::empty()
    } else {
        Seq::new(
            count as nat,
            |i: int| alpha[state_at(seed, tag, (i + 1) as nat) as int % alpha.len() as int],
        )
    }
}

/// Draws `count` characters from the alphabet on the tagged stream.
fn draw_chars(alpha: &Vec<char>, seed: u64, tag: u64, count: u8) -> (r: Vec<char>)
    ensures
        r@ == drawn_seq(alpha@, seed, tag, count as int),
{
    let mut out: Vec<char> = Vec::new();
    if alpha.len() == 0 {
        proof {
            assert(out@ =~= drawn_seq(alpha@, seed, tag, count as int));
        }
        return out;
    }
    let n = count as usize;
    let mut st = stream_start(seed, tag);
    let mut i: usize = 0;
    while i < n
        invariant
            0 <= i <= n,
            n == count as int,
            alpha@.len() > 0,
            st == state_at(seed, tag, i as nat),
            out@ =~= drawn_seq(alpha@, seed, tag, count as int).take(i as int),
        decreases n - i,
    {
        st = next_state(st);
        let idx = reduce_index(st, alpha.len());
        out.push(alpha[idx]);
        i += 1;
        proof {
            assert(st == state_at(seed, tag, i as nat));
            assert(out@ =~= drawn_seq(alpha@, seed, tag, count as int).take(i as int));
        }
    }
    proof {
        assert(drawn_seq(alpha@, seed, tag, count as int).take(n as int) =~= drawn_seq(
            alpha@,
            seed,
            tag,
            count as int,
        ));
    }
    out
}

/// The transform applied to the word at draw `i`: one of the enabled
/// transforms picked by the stream, or none when none is enabled.
pub open spec fn maybe_transformed(ts: Seq<WordTransform>, st: u64, w: Seq<char>) -> Seq<char> {
    if ts.len() == 0 {
        w
    } else {
        transformed(ts[st as int % ts.len() as int], w)
    }
}

/// The word produced by draw `i` of a seeded randomizer: an index draw picks
/// the word, a second draw picks the casing transform.
pub open spec fn drawn_word(s: &Settings, seed: u64, pool: Seq<Seq<char>>, i: int) -> Seq<char> {
    let st1 = state_at(seed, TAG_WORDS, (2 * i + 1) as nat);
    let st2 = state_at(seed, TAG_WORDS, (2 * i + 2) as nat);
    maybe_transformed(s.word_transforms@, st2, pool[st1 as int % pool.len() as int])
}

/// Floor of the base-two logarithm, zero below two.
pub open spec fn lg2(n: int) -> nat
    decreases n,
{
    if n < 2 {
        0
    } else {
        lg2(n / 2) + 1
    }
}

/// A value below two to the `k` has fewer than `k` bits.
proof fn lemma_lg2_below(n: int, k: nat)
    requires
        n < vstd::arithmetic::power2::pow2(k),
        k >= 1,
    ensures
        lg2(n) <= (k - 1) as nat,
    decreases k,
{
    if n >= 2 {
        vstd::arithmetic::power2::lemma_pow2_unfold(k);
        if k == 1 {
            vstd::arithmetic::power2::lemma2_to64();
            assert(false);
        } else {
            lemma_lg2_below(n / 2, (k - 1) as nat);
        }
    }
}

/// Any value a `u64` can hold has at most 63 bits.
pub proof fn lemma_lg2_u64(n: int)
    requires
        n <= 0xFFFFFFFFFFFFFFFF,
    ensures
        lg2(n) <= 63,
{
    vstd::arithmetic::power2::lemma2_to64();
    lemma_lg2_below(n, 64);
}

/// Computes the floor of the base-two logarithm.
fn log2_floor(n: u64) -> (r: u64)
    ensures
        r == lg2(n as int),
        r <= 63,
{
    proof {
        lemma_lg2_u64(n as int);
    }
    let mut v = n;
    let mut r: u64 = 0;
    while v >= 2
        invariant
            lg2(n as int) == r + lg2(v as int),
            r <= lg2(n as int),
            lg2(n as int) <= 63,
        decreases v,
    {
        v = v / 2;
        r = r + 1;
    }
    r
}

/// The blind bits of a configuration at word length `len`: every word
/// contributes `len` letters of a 26-letter alphabet, and the separator,
/// digit and symbol draws contribute the logarithm of their alphabets.
pub open spec fn blind_at(s: &Settings, len: int) -> nat {
    (s.words_count as nat) * (len as nat) * lg2(WORD_ALPHABET as int) + lg2(s.separators@.len() as int)
        + ((s.padding_digits_before + s.padding_digits_after) as nat) * lg2(
        s.padding_digit_alphabet@.len() as int,
    ) + ((s.padding_symbols_before + s.padding_symbols_after) as nat) * lg2(
        s.padding_symbol_alphabet@.len() as int,
    )
}

/// The seen bits of a configuration: as the blind bits, with the actual
/// eligible pool in place of the letter space.
pub open spec fn seen_bits(s: &Settings, pool_len: int) -> nat {
    (s.words_count as nat) * lg2(pool_len) + lg2(s.separators@.len() as int) + ((
    s.padding_digits_before + s.padding_digits_after) as nat) * lg2(s.padding_digit_alphabet@.len() as int)
        + ((s.padding_symbols_before + s.padding_symbols_after) as nat) * lg2(
        s.padding_symbol_alphabet@.len() as int,
    )
}

/// Longer words never lose blind bits.
pub proof fn lemma_blind_monotone(s: &Settings, a: int, b: int)
    requires
        0 <= a <= b,
    ensures
        blind_at(s, a) <= blind_at(s, b),
{
    let wc = s.words_count as nat;
    let c = lg2(WORD_ALPHABET as int);
    assert(wc * (a as nat) * c <= wc * (b as nat) * c) by (nonlinear_arith)
        requires
            0 <= a <= b,
    ;
}

/// The production randomizer: settings plus a seed.  Every operation is a
/// pure function of the two, so generation with a fixed seed is
/// reproducible, and a fresh seed gives a fresh password.
pub struct SeededRand {
    /// The shape parameters.
    pub settings: Settings,
    /// The 64-bit seed all draw streams derive from.
    pub seed: u64,
}

impl SeededRand {
    /// Pairs settings with a seed.
    pub fn new(settings: Settings, seed: u64) -> (r: SeededRand)
        ensures
            r.settings == settings,
            r.seed == seed,
    {
        SeededRand { settings, seed }
    }
}

impl Randomizer for SeededRand {
    /// The settings must order their word-length range.
    open spec fn wf(&self) -> bool {
        self.settings.wf()
    }

    open spec fn lengths_spec(&self) -> (u8, u8) {
        (self.settings.word_length_min, self.settings.word_length_max)
    }

    /// An empty eligible pool degenerates to no words at all; validating
    /// the pool is the caller's concern.
    open spec fn words_spec(&self, pool: Seq<Seq<char>>) -> Seq<Seq<char>> {
        if pool.len() == 0 {
            Seq::empty()
        } else {
            Seq::new(
                self.settings.words_count as nat,
                |i: int| drawn_word(&self.settings, self.seed, pool, i),
            )
        }
    }

    open spec fn separator_spec(&self) -> Seq<char> {
        drawn_seq(self.settings.separators@, self.seed, TAG_SEP, 1)
    }

    open spec fn prefix_spec(&self) -> (Seq<char>, Seq<char>) {
        (
            drawn_seq(
                self.settings.padding_symbol_alphabet@,
                self.seed,
                TAG_PRE_SYM,
                self.settings.padding_symbols_before as int,
            ),
            drawn_seq(
                self.settings.padding_digit_alphabet@,
                self.seed,
                TAG_PRE_DIG,
                self.settings.padding_digits_before as int,
            ),
        )
    }

    open spec fn suffix_spec(&self) -> (Seq<char>, Seq<char>) {
        (
            drawn_seq(
                self.settings.padding_digit_alphabet@,
                self.seed,
                TAG_SUF_DIG,
                self.settings.padding_digits_after as int,
            ),
            drawn_seq(
                self.settings.padding_symbol_alphabet@,
                self.seed,
                TAG_SUF_SYM,
                self.settings.padding_symbols_after as int,
            ),
        )
    }

    open spec fn padding_spec(&self, len: int) -> PadChoice {
        match self.settings.padding_strategy {
            PaddingStrategy::Fixed => PadChoice::Keep,
            PaddingStrategy::Adaptive(target) => {
                if len > target {
                    PadChoice::Trim(target as int)
                } else if len == target || self.settings.padding_symbol_alphabet@.len() == 0 {
                    PadChoice::Keep
                } else {
                    PadChoice::Extend(
                        Seq::new(
                            (target - len) as nat,
                            |i: int|
                                self.settings.padding_symbol_alphabet@[state_at(
                                    self.seed,
                                    TAG_PAD,
                                    1,
                                ) as int % self.settings.padding_symbol_alphabet@.len() as int],
                        ),
                    )
                }
            },
        }
    }

    open spec fn entropy_spec(&self, pool_len: int, len: int) -> Entropy {
        let bmin = blind_at(&self.settings, self.settings.word_length_min as int);
        let bmax = blind_at(&self.settings, self.settings.word_length_max as int);
        Entropy {
            blind_min: bmin as u64,
            blind_max: bmax as u64,
            seen: seen_bits(&self.settings, pool_len) as u64,
            guess_time: guess_time_of(bmin as u64),
        }
    }

    proof fn entropy_ordered(&self, pool_len: int, len: int) {
        lemma_blind_monotone(
            &self.settings,
            self.settings.word_length_min as int,
            self.settings.word_length_max as int,
        );
        lemma_entropy_bits_bounded(&self.settings, 0);
    }

    fn word_lengths(&self) -> (r: (u8, u8)) {
        (self.settings.word_length_min, self.settings.word_length_max)
    }

    fn rand_words(&self, pool: &Vec<String>) -> (r: Vec<String>) {
        let mut out: Vec<String> = Vec::new();
        if pool.len() == 0 {
            proof {
                assert(out.deep_view() =~= self.words_spec(pool.deep_view()));
            }
            return out;
        }
        let ghost pool_v = pool.deep_view();
        let count = self.settings.words_count as usize;
        let tcount = self.settings.word_transforms.len();
        let mut st = stream_start(self.seed, TAG_WORDS);
        let mut i: usize = 0;
        while i < count
            invariant
                0 <= i <= count,
                count == self.settings.words_count as int,
                pool@.len() > 0,
                pool.deep_view() == pool_v,
                pool_v.len() == pool@.len(),
                tcount == self.settings.word_transforms@.len(),
                st == state_at(self.seed, TAG_WORDS, (2 * i) as nat),
                out.deep_view() =~~= self.words_spec(pool_v).take(i as int),
            decreases count - i,
        {
            let ghost k = (2 * i) as nat;
            st = next_state(st);
            let idx = reduce_index(st, pool.len());
            proof {
                assert(state_at(self.seed, TAG_WORDS, (k + 1) as nat) == spec_next_state(
                    state_at(self.seed, TAG_WORDS, k),
                ));
                assert(pool@[idx as int]@ == pool_v[idx as int]);
            }
            let st2 = next_state(st);
            proof {
                assert(state_at(self.seed, TAG_WORDS, (k + 2) as nat) == spec_next_state(
                    state_at(self.seed, TAG_WORDS, (k + 1) as nat),
                ));
            }
            let word: String = if tcount > 0 {
                let t = self.settings.word_transforms[reduce_index(st2, tcount)];
                apply_transform(t, pool[idx].as_str())
            } else {
                pool[idx].clone()
            };
            st = st2;
            let ghost prev_dv = out.deep_view();
            out.push(word);
            i += 1;
            proof {
                assert(st == state_at(self.seed, TAG_WORDS, (2 * i) as nat));
                assert(word@ == drawn_word(&self.settings, self.seed, pool_v, i as int - 1));
                assert(out.deep_view() =~~= prev_dv.push(word@));
                assert(self.words_spec(pool_v).take(i as int) =~~= self.words_spec(pool_v).take(
                    i as int - 1,
                ).push(drawn_word(&self.settings, self.seed, pool_v, i as int - 1)));
                assert(out.deep_view() =~~= self.words_spec(pool_v).take(i as int));
            }
        }
        proof {
            assert(self.words_spec(pool_v).take(count as int) =~~= self.words_spec(pool_v));
        }
        out
    }

    fn rand_separator(&self) -> (r: String) {
        let alpha = chars_vec(self.settings.separators.as_str());
        let drawn = draw_chars(&alpha, self.seed, TAG_SEP, 1);
        string_from_chars(&drawn)
    }

    fn rand_prefix(&self) -> (r: (String, String)) {
        let syms = chars_vec(self.settings.padding_symbol_alphabet.as_str());
        let digs = chars_vec(self.settings.padding_digit_alphabet.as_str());
        let s = draw_chars(&syms, self.seed, TAG_PRE_SYM, self.settings.padding_symbols_before);
        let d = draw_chars(&digs, self.seed, TAG_PRE_DIG, self.settings.padding_digits_before);
        (string_from_chars(&s), string_from_chars(&d))
    }

    fn rand_suffix(&self) -> (r: (String, String)) {
        let syms = chars_vec(self.settings.padding_symbol_alphabet.as_str());
        let digs = chars_vec(self.settings.padding_digit_alphabet.as_str());
        let d = draw_chars(&digs, self.seed, TAG_SUF_DIG, self.settings.padding_digits_after);
        let s = draw_chars(&syms, self.seed, TAG_SUF_SYM, self.settings.padding_symbols_after);
        (string_from_chars(&d), string_from_chars(&s))
    }

    fn adjust_padding(&self, current_len: usize) -> (r: PaddingResult) {
        match self.settings.padding_strategy {
            PaddingStrategy::Fixed => PaddingResult::Unchanged,
            PaddingStrategy::Adaptive(target) => {
                if current_len > target {
                    PaddingResult::TrimTo(target)
                } else if current_len == target {
                    PaddingResult::Unchanged
                } else {
                    let alpha = chars_vec(self.settings.padding_symbol_alphabet.as_str());
                    if alpha.len() == 0 {
                        PaddingResult::Unchanged
                    } else {
                        let st = next_state(stream_start(self.seed, TAG_PAD));
                        proof {
                            assert(state_at(self.seed, TAG_PAD, 1) == spec_next_state(
                                state_at(self.seed, TAG_PAD, 0),
                            ));
                        }
                        let c = alpha[reduce_index(st, alpha.len())];
                        let missing = target - current_len;
                        let mut pad: Vec<char> = Vec::new();
                        let mut i: usize = 0;
                        while i < missing
                            invariant
                                0 <= i <= missing,
                                pad@.len() == i,
                                forall|k: int| 0 <= k < i ==> pad@[k] == c,
                            decreases missing - i,
                        {
                            pad.push(c);
                            i += 1;
                        }
                        let extra = string_from_chars(&pad);
                        proof {
                            let want = Seq::new(
                                (target - current_len) as nat,
                                |k: int|
                                    self.settings.padding_symbol_alphabet@[state_at(
                                        self.seed,
                                        TAG_PAD,
                                        1,
                                    ) as int % self.settings.padding_symbol_alphabet@.len() as int],
                            );
                            assert(extra@ =~= want);
                            assert(self.padding_spec(current_len as int) == PadChoice::Extend(
                                want,
                            ));
                        }
                        PaddingResult::Pad(extra)
                    }
                }
            },
        }
    }

    fn calc_entropy(&self, pool_len: usize, final_len: usize) -> (r: Entropy) {
        proof {
            lemma_entropy_bits_bounded(&self.settings, pool_len as int);
            lemma_blind_monotone(
                &self.settings,
                self.settings.word_length_min as int,
                self.settings.word_length_max as int,
            );
        }
        let bmin = blind_bits_exec(&self.settings, self.settings.word_length_min);
        let bmax = blind_bits_exec(&self.settings, self.settings.word_length_max);
        let sep_bits = log2_floor(str_len(&self.settings.separators));
        let dig_bits = log2_floor(str_len(&self.settings.padding_digit_alphabet));
        let sym_bits = log2_floor(str_len(&self.settings.padding_symbol_alphabet));
        let dig_count = self.settings.padding_digits_before as u64
            + self.settings.padding_digits_after as u64;
        let sym_count = self.settings.padding_symbols_before as u64
            + self.settings.padding_symbols_after as u64;
        let wc = self.settings.words_count as u64;
        let pool_bits = log2_floor(pool_len as u64);
        proof {
            assert(wc * pool_bits <= 255 * 63) by (nonlinear_arith)
                requires
                    wc <= 255,
                    pool_bits <= 63,
            ;
            assert(dig_count * dig_bits <= 510 * 63) by (nonlinear_arith)
                requires
                    dig_count <= 510,
                    dig_bits <= 63,
            ;
            assert(sym_count * sym_bits <= 510 * 63) by (nonlinear_arith)
                requires
                    sym_count <= 510,
                    sym_bits <= 63,
            ;
        }
        let seen = wc * pool_bits + sep_bits + dig_count * dig_bits + sym_count * sym_bits;
        Entropy {
            blind_min: bmin,
            blind_max: bmax,
            seen,
            guess_time: GuessTime::for_entropy(bmin),
        }
    }
}

/// The characters of a string, counted.
fn str_len(s: &String) -> (r: u64)
    ensures
        r == s@.len(),
{
    let cs = chars_vec(s.as_str());
    cs.len() as u64
}

/// Every term of the bit formulas fits comfortably below 64 bits.
pub proof fn lemma_entropy_bits_bounded(s: &Settings, pool_len: int)
    requires
        s.separators@.len() <= 0xFFFFFFFFFFFFFFFF,
        s.padding_digit_alphabet@.len() <= 0xFFFFFFFFFFFFFFFF,
        s.padding_symbol_alphabet@.len() <= 0xFFFFFFFFFFFFFFFF,
        pool_len <= 0xFFFFFFFFFFFFFFFF,
    ensures
        blind_at(s, s.word_length_min as int) <= 0x500000,
        blind_at(s, s.word_length_max as int) <= 0x500000,
        seen_bits(s, pool_len) <= 0x500000,
{
    lemma_lg2_u64(s.separators@.len() as int);
    lemma_lg2_u64(s.padding_digit_alphabet@.len() as int);
    lemma_lg2_u64(s.padding_symbol_alphabet@.len() as int);
    lemma_lg2_u64(pool_len);
    reveal_with_fuel(lg2, 6);
    assert(lg2(WORD_ALPHABET as int) == 4);
    assert forall|len: int| 0 <= len <= 255 implies blind_at(s, len) <= 0x500000 by {
        let wc = s.words_count as nat;
        assert(wc * (len as nat) * lg2(WORD_ALPHABET as int) <= 255 * 255 * 4) by (nonlinear_arith)
            requires
                wc <= 255,
                0 <= len <= 255,
                lg2(WORD_ALPHABET as int) == 4,
        ;
        assert((s.padding_digits_before + s.padding_digits_after) * lg2(
            s.padding_digit_alphabet@.len() as int,
        ) <= 510 * 63) by (nonlinear_arith)
            requires
                s.padding_digits_before as int + s.padding_digits_after as int <= 510,
                lg2(s.padding_digit_alphabet@.len() as int) <= 63,
        ;
        assert((s.padding_symbols_before + s.padding_symbols_after) * lg2(
            s.padding_symbol_alphabet@.len() as int,
        ) <= 510 * 63) by (nonlinear_arith)
            requires
                s.padding_symbols_before as int + s.padding_symbols_after as int <= 510,
                lg2(s.padding_symbol_alphabet@.len() as int) <= 63,
        ;
    }
    let wc = s.words_count as nat;
    assert(wc * lg2(pool_len) <= 255 * 63) by (nonlinear_arith)
        requires
            wc <= 255,
            lg2(pool_len) <= 63,
    ;
    assert((s.padding_digits_before + s.padding_digits_after) * lg2(
        s.padding_digit_alphabet@.len() as int,
    ) <= 510 * 63) by (nonlinear_arith)
        requires
            s.padding_digits_before as int + s.padding_digits_after as int <= 510,
            lg2(s.padding_digit_alphabet@.len() as int) <= 63,
    ;
    assert((s.padding_symbols_before + s.padding_symbols_after) * lg2(
        s.padding_symbol_alphabet@.len() as int,
    ) <= 510 * 63) by (nonlinear_arith)
        requires
            s.padding_symbols_before as int + s.padding_symbols_after as int <= 510,
            lg2(s.padding_symbol_alphabet@.len() as int) <= 63,
    ;
}

/// Computes the blind bits at one word length.
fn blind_bits_exec(s: &Settings, len: u8) -> (r: u64)
    requires
        s.separators@.len() <= 0xFFFFFFFFFFFFFFFF,
        s.padding_digit_alphabet@.len() <= 0xFFFFFFFFFFFFFFFF,
        s.padding_symbol_alphabet@.len() <= 0xFFFFFFFFFFFFFFFF,
    ensures
        r == blind_at(s, len as int),
{
    proof {
        lemma_entropy_bits_bounded(s, 0);
        lemma_lg2_u64(s.separators@.len() as int);
        lemma_lg2_u64(s.padding_digit_alphabet@.len() as int);
        lemma_lg2_u64(s.padding_symbol_alphabet@.len() as int);
        reveal_with_fuel(lg2, 6);
    assert(lg2(WORD_ALPHABET as int) == 4);
    }
    let alpha_bits = log2_floor(WORD_ALPHABET);
    let wc = s.words_count as u64;
    proof {
        assert(wc * (len as u64) <= 255 * 255) by (nonlinear_arith)
            requires
                wc <= 255,
                len as u64 <= 255,
        ;
        assert(wc * (len as u64) * alpha_bits <= 255 * 255 * 4) by (nonlinear_arith)
            requires
                wc <= 255,
                len as u64 <= 255,
                alpha_bits == 4,
        ;
    }
    let word_bits = wc * (len as u64) * alpha_bits;
    let sep_bits = log2_floor(str_len(&s.separators));
    let dig_bits = log2_floor(str_len(&s.padding_digit_alphabet));
    let sym_bits = log2_floor(str_len(&s.padding_symbol_alphabet));
    let dig_count = s.padding_digits_before as u64 + s.padding_digits_after as u64;
    let sym_count = s.padding_symbols_before as u64 + s.padding_symbols_after as u64;
    proof {
        assert(dig_count * dig_bits <= 510 * 63) by (nonlinear_arith)
            requires
                dig_count <= 510,
                dig_bits <= 63,
        ;
        assert(sym_count * sym_bits <= 510 * 63) by (nonlinear_arith)
            requires
                sym_count <= 510,
                sym_bits <= 63,
        ;
    }
    word_bits + sep_bits + dig_count * dig_bits + sym_count * sym_bits
}

} // verus!
