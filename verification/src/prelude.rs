//! The password assembler: the core entry point of the generator.
//!
//! A generation call selects the eligible word pool from the dictionary,
//! draws words, separator and padding material from the randomizer, joins the
//! parts in the fixed order `symbols digits WORDS digits symbols` (the digit
//! affixes take part in the separator join when present), applies the padding
//! decision, and reports the entropy of the result.

use vstd::prelude::*;

pub use crate::dict::Dict;
pub use crate::dict::load_dict;
pub use crate::entropy::Entropy;
pub use crate::entropy::GuessTime;
pub use crate::randomizer::PaddingResult;
pub use crate::randomizer::Randomizer;

use crate::dict::DictEntries;
use crate::randomizer::apply_padding;
use crate::randomizer::padded;
use crate::text::chars_vec;
use crate::text::extend_chars;
use crate::text::extend_strings;
use crate::text::join_from;
use crate::text::joined;
use crate::text::string_from_chars;

verus! {

/// The words of the dictionary entries, from position `i` on, whose length
/// key lies in the inclusive range, appended to `acc` in file order.
pub open spec fn pool_from(
    d: DictEntries,
    i: int,
    min_len: u8,
    max_len: u8,
    acc: Seq<Seq<char>>,
) -> Seq<Seq<char>>
    decreases d.len() - i,
    when 0 <= i <= d.len()
{
    if i >= d.len() {
        acc
    } else {
        pool_from(
            d,
            i + 1,
            min_len,
            max_len,
            if min_len <= d[i].0 && d[i].0 <= max_len {
                acc + d[i].1
            } else {
                acc
            },
        )
    }
}

/// The candidate pool: the union of the dictionary entries whose length lies
/// in the inclusive range, in file order.
pub open spec fn eligible_pool(d: DictEntries, min_len: u8, max_len: u8) -> Seq<Seq<char>> {
    pool_from(d, 0, min_len, max_len, Seq::empty())
}

/// Collects the eligible pool for the inclusive word-length range.
pub fn eligible(dict: &Dict, min_len: u8, max_len: u8) -> (r: Vec<String>)
    ensures
        r.deep_view() == eligible_pool(dict@, min_len, max_len),
{
    let mut pool: Vec<String> = Vec::new();
    proof {
        assert(pool.deep_view() =~= Seq::<Seq<char>>::empty());
    }
    let n = dict.len();
    let mut i: usize = 0;
    while i < n
        invariant
            0 <= i <= n,
            n == dict@.len(),
            pool_from(dict@, i as int, min_len, max_len, pool.deep_view()) == eligible_pool(
                dict@,
                min_len,
                max_len,
            ),
        decreases n - i,
    {
        let key = dict.key_at(i);
        if min_len <= key && key <= max_len {
            let words = dict.words_at(i);
            extend_strings(&mut pool, words);
        }
        i += 1;
    }
    pool
}

/// The joined middle of a password: the digit prefix and digit suffix, when
/// present, take part in the separator join around the words.
pub open spec fn affix_parts(
    words: Seq<Seq<char>>,
    dig_prefix: Seq<char>,
    dig_suffix: Seq<char>,
) -> Seq<Seq<char>> {
    (if dig_prefix.len() > 0 {
        seq![dig_prefix]
    } else {
        Seq::empty()
    }) + words + (if dig_suffix.len() > 0 {
        seq![dig_suffix]
    } else {
        Seq::empty()
    })
}

/// The assembled pre-padding password: symbol prefix, then the separator
/// join of digit prefix, words and digit suffix, then symbol suffix.
pub open spec fn assembled(
    words: Seq<Seq<char>>,
    sep: Seq<char>,
    sym_prefix: Seq<char>,
    dig_prefix: Seq<char>,
    dig_suffix: Seq<char>,
    sym_suffix: Seq<char>,
) -> Seq<char> {
    sym_prefix + joined(affix_parts(words, dig_prefix, dig_suffix), sep) + sym_suffix
}

/// The password and entropy report that a generation call returns for this
/// dictionary and this randomizer: a pure function of the two, which is what
/// makes generation deterministic.
pub open spec fn spec_gen_pass<R: Randomizer>(d: DictEntries, settings: &R) -> (Seq<char>, Entropy) {
    let pool = eligible_pool(d, settings.lengths_spec().0, settings.lengths_spec().1);
    let words = settings.words_spec(pool);
    let pre = assembled(
        words,
        settings.separator_spec(),
        settings.prefix_spec().0,
        settings.prefix_spec().1,
        settings.suffix_spec().0,
        settings.suffix_spec().1,
    );
    let fin = padded(pre, settings.padding_spec(pre.len() as int));
    (fin, settings.entropy_spec(pool.len() as int, fin.len() as int))
}

/// Generation is deterministic: over one dictionary, randomizers in the same
/// state produce the same password and the same entropy report.
pub proof fn lemma_gen_pass_deterministic<R: Randomizer>(d: DictEntries, s1: &R, s2: &R)
    requires
        s1 == s2,
    ensures
        spec_gen_pass(d, s1) == spec_gen_pass(d, s2),
{
}

/// A passphrase generator: a dictionary shared read-only across any number
/// of generation calls.
pub struct Xkpasswd {
    /// The length-indexed dictionary, built once and never mutated.
    pub dict: Dict,
}

impl Default for Xkpasswd {
    /// A generator over an empty dictionary.
    fn default() -> (r: Xkpasswd)
        ensures
            r.dict@ == Seq::<(u8, Seq<Seq<char>>)>::empty(),
            r.dict.wf(),
    {
        Xkpasswd { dict: Dict::new() }
    }
}

impl Xkpasswd {
    /// A generator over the dictionary encoded by a raw word-list asset.
    pub fn from_bytes(data: &[u8]) -> (r: Xkpasswd)
        ensures
            r.dict@ == crate::dict::dict_entries(data@),
            r.dict.wf(),
    {
        Xkpasswd { dict: load_dict(data) }
    }

    /// Generates one password with its entropy report.  The result is exactly
    /// `spec_gen_pass` of the dictionary and the randomizer, so identical
    /// inputs always produce the identical password and report.
    pub fn gen_pass<R: Randomizer>(&self, settings: &R) -> (r: (String, Entropy))
        requires
            settings.wf(),
        ensures
            (r.0@, r.1) == spec_gen_pass(self.dict@, settings),
            r.1.blind_min <= r.1.blind_max,
    {
        let lengths = settings.word_lengths();
        let pool = eligible(&self.dict, lengths.0, lengths.1);
        let words = settings.rand_words(&pool);
        let separator = settings.rand_separator();
        let prefix = settings.rand_prefix();
        let suffix = settings.rand_suffix();

        let ghost words_v = words.deep_view();
        let ghost dig_p_v = prefix.1@;
        let ghost dig_s_v = suffix.0@;

        let mut parts: Vec<Vec<char>> = Vec::new();
        let dig_prefix = chars_vec(prefix.1.as_str());
        if dig_prefix.len() > 0 {
            parts.push(dig_prefix);
        }
        let word_count = words.len();
        let mut i: usize = 0;
        while i < word_count
            invariant
                0 <= i <= word_count,
                word_count == words@.len(),
                words.deep_view() == words_v,
                parts.deep_view() =~~= (if dig_p_v.len() > 0 {
                    seq![dig_p_v]
                } else {
                    Seq::<Seq<char>>::empty()
                }) + words_v.take(i as int),
            decreases word_count - i,
        {
            let ghost prev = parts.deep_view();
            let w = chars_vec(words[i].as_str());
            proof {
                assert(w.deep_view() =~= words_v[i as int]);
            }
            parts.push(w);
            i += 1;
            proof {
                assert(parts.deep_view() =~= prev.push(w.deep_view()));
                assert(words_v.take(i as int) =~= words_v.take(i as int - 1).push(
                    words_v[i as int - 1],
                ));
                assert(parts.deep_view() =~~= (if dig_p_v.len() > 0 {
                    seq![dig_p_v]
                } else {
                    Seq::<Seq<char>>::empty()
                }) + words_v.take(i as int));
            }
        }
        let dig_suffix = chars_vec(suffix.0.as_str());
        if dig_suffix.len() > 0 {
            parts.push(dig_suffix);
        }
        proof {
            assert(words_v.take(words_v.len() as int) =~= words_v);
            assert(parts.deep_view() =~~= affix_parts(words_v, dig_p_v, dig_s_v));
        }

        let mut pass: Vec<char> = chars_vec(prefix.0.as_str());
        let sep = chars_vec(separator.as_str());
        join_from(&mut pass, &parts, 0, &sep);
        let sym_suffix = chars_vec(suffix.1.as_str());
        extend_chars(&mut pass, &sym_suffix);
        proof {
            assert(parts.deep_view().skip(0) =~= parts.deep_view());
            assert(joined(parts.deep_view(), sep@) == joined(affix_parts(words_v, dig_p_v, dig_s_v), sep@));
            assert(pass@ =~= assembled(
                words_v,
                separator@,
                prefix.0@,
                dig_p_v,
                dig_s_v,
                suffix.1@,
            ));
        }

        let padding = settings.adjust_padding(pass.len());
        apply_padding(&mut pass, &padding);
        let entropy = settings.calc_entropy(pool.len(), pass.len());
        let passwd = string_from_chars(&pass);
        (passwd, entropy)
    }
}

} // verus!
