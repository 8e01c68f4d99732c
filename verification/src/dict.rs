//! Length-indexed word dictionary and its loader.
//!
//! A dictionary asset is plain text with one entry per logical line,
//! `<length>:<comma-separated words>`.  Surrounding whitespace is trimmed from
//! each line before parsing.  A line whose length field is not a number that
//! fits a `u8` is dropped silently, so loading never fails; blank input yields
//! an empty dictionary.  When the same length appears on several lines, the
//! later words are appended to the existing entry, so the table keeps one
//! entry per distinct length with the words in file order.

use vstd::prelude::*;
use vstd::slice::slice_to_vec;

verus! {

/// The characters that a byte sequence decodes to under UTF-8, with invalid
/// sequences replaced; a pure function of the bytes.
pub uninterp spec fn utf8_chars(b: Seq<u8>) -> Seq<char>;

/// Relies on `String::from_utf8_lossy`: the decoded characters depend on the
/// bytes alone, and bytes that are valid UTF-8 — ASCII in particular — decode
/// to their own characters.
#[verifier::external_body]
fn decode_utf8(b: &[u8]) -> (r: String)
    ensures
        r@ == utf8_chars(b@),
        (forall|i: int| 0 <= i < b@.len() ==> b@[i] < 128) ==> r@ == b@.map_values(
            |x: u8| x as char,
        ),
{
    String::from_utf8_lossy(b).into_owned()
}

/// Decodes a byte sequence as UTF-8, invalid sequences replaced: the public
/// front door to the decode contract, through which a verified client can
/// relate `utf8_chars` to concrete characters — in particular, all-ASCII
/// bytes decode to exactly their own characters.
pub fn decode_word(b: &[u8]) -> (r: String)
    ensures
        r@ == utf8_chars(b@),
        (forall|i: int| 0 <= i < b@.len() ==> b@[i] < 128) ==> r@ == b@.map_values(
            |x: u8| x as char,
        ),
{
    decode_utf8(b)
}

/// Whitespace stripped from line ends: space, tab, carriage return.
pub open spec fn is_space(b: u8) -> bool {
    b == 32 || b == 9 || b == 13
}

/// An ASCII decimal digit.
pub open spec fn is_digit(b: u8) -> bool {
    48 <= b <= 57
}

/// The first index at or after `i` holding `b`, or the length of `s`.
pub open spec fn find_from(s: Seq<u8>, i: int, b: u8) -> int
    decreases s.len() - i,
    when 0 <= i <= s.len()
{
    if i >= s.len() {
        i
    } else if s[i] == b {
        i
    } else {
        find_from(s, i + 1, b)
    }
}

pub proof fn lemma_find_from(s: Seq<u8>, i: int, b: u8)
    requires
        0 <= i <= s.len(),
    ensures
        i <= find_from(s, i, b) <= s.len(),
        find_from(s, i, b) < s.len() ==> s[find_from(s, i, b)] == b,
        forall|k: int| i <= k < find_from(s, i, b) ==> s[k] != b,
    decreases s.len() - i,
{
    if i < s.len() && s[i] != b {
        lemma_find_from(s, i + 1, b);
    }
}

/// The first index at or after `i` holding a byte that is not line-end
/// whitespace, or the length of `s`.
pub open spec fn skip_spaces(s: Seq<u8>, i: int) -> int
    decreases s.len() - i,
    when 0 <= i <= s.len()
{
    if i >= s.len() {
        i
    } else if is_space(s[i]) {
        skip_spaces(s, i + 1)
    } else {
        i
    }
}

/// The position after the last byte below `j` that is not line-end
/// whitespace, or zero.
pub open spec fn rskip_spaces(s: Seq<u8>, j: int) -> int
    decreases j,
    when 0 <= j <= s.len()
{
    if j <= 0 {
        0
    } else if is_space(s[j - 1]) {
        rskip_spaces(s, j - 1)
    } else {
        j
    }
}

/// `s` with leading and trailing whitespace removed.
pub open spec fn trimmed(s: Seq<u8>) -> Seq<u8> {
    let a = skip_spaces(s, 0);
    let b = rskip_spaces(s, s.len() as int);
    if a < b {
        s.subrange(a, b)
    } else {
        Seq::empty()
    }
}

/// The value of a digit string read in base ten.
pub open spec fn digits_val(s: Seq<u8>) -> int
    decreases s.len(),
{
    if s.len() == 0 {
        0
    } else {
        digits_val(s.drop_last()) * 10 + (s.last() - 48)
    }
}

/// Whether every byte of `s` is a decimal digit.
pub open spec fn all_digits(s: Seq<u8>) -> bool {
    forall|i: int| 0 <= i < s.len() ==> is_digit(s[i])
}

/// The decoded words of the comma-separated byte sequence `s` from index `i`,
/// appended to `acc`.  Splitting on commas keeps empty segments, so every
/// suffix contributes at least one word.
pub open spec fn words_from(s: Seq<u8>, i: int, acc: Seq<Seq<char>>) -> Seq<Seq<char>>
    decreases s.len() - i,
    when 0 <= i <= s.len()
    via words_from_dec
{
    let e = find_from(s, i, 44);
    let acc2 = acc.push(utf8_chars(s.subrange(i, e)));
    if e >= s.len() {
        acc2
    } else {
        words_from(s, e + 1, acc2)
    }
}

#[via_fn]
proof fn words_from_dec(s: Seq<u8>, i: int, acc: Seq<Seq<char>>) {
    if 0 <= i <= s.len() {
        lemma_find_from(s, i, 44);
    }
}

/// One dictionary entry: a word length and the decoded words of that length,
/// in file order.
pub type DictEntries = Seq<(u8, Seq<Seq<char>>)>;

/// The first position at or after `j` whose entry has key `k`, or the length
/// of `d`.
pub open spec fn key_index_from(d: DictEntries, k: u8, j: int) -> int
    decreases d.len() - j,
    when 0 <= j <= d.len()
{
    if j >= d.len() {
        j
    } else if d[j].0 == k {
        j
    } else {
        key_index_from(d, k, j + 1)
    }
}

pub proof fn lemma_key_index_from(d: DictEntries, k: u8, j: int)
    requires
        0 <= j <= d.len(),
    ensures
        j <= key_index_from(d, k, j) <= d.len(),
        key_index_from(d, k, j) < d.len() ==> d[key_index_from(d, k, j)].0 == k,
        forall|m: int| j <= m < key_index_from(d, k, j) ==> d[m].0 != k,
    decreases d.len() - j,
{
    if j < d.len() && d[j].0 != k {
        lemma_key_index_from(d, k, j + 1);
    }
}

/// Adds words for key `k`: appended to the entry already holding `k`, or as a
/// fresh entry at the end.
pub open spec fn insert_words(d: DictEntries, k: u8, ws: Seq<Seq<char>>) -> DictEntries {
    let j = key_index_from(d, k, 0);
    if j < d.len() {
        d.update(j, (k, d[j].1 + ws))
    } else {
        d.push((k, ws))
    }
}

/// Folds one raw line into the entries: trims it, and unless the line is
/// blank, has no colon, or its length field is not a number that fits a
/// `u8`, appends the comma-separated words to the entry for that length.
pub open spec fn add_line(d: DictEntries, line: Seq<u8>) -> DictEntries {
    let t = trimmed(line);
    let c = find_from(t, 0, 58);
    if t.len() == 0 || c >= t.len() {
        d
    } else {
        let key = t.subrange(0, c);
        if key.len() == 0 || !all_digits(key) || digits_val(key) > 255 {
            d
        } else {
            insert_words(d, digits_val(key) as u8, words_from(t.subrange(c + 1, t.len() as int), 0, Seq::empty()))
        }
    }
}

/// A line that is blank, has no colon, or whose length field is not a
/// number that fits a `u8` contributes nothing: the other entries stand
/// unchanged.
pub proof fn lemma_bad_line_dropped(d: DictEntries, line: Seq<u8>)
    requires
        ({
            let t = trimmed(line);
            let key = t.subrange(0, find_from(t, 0, 58));
            t.len() == 0 || find_from(t, 0, 58) >= t.len() || key.len() == 0 || !all_digits(key)
                || digits_val(key) > 255
        }),
    ensures
        add_line(d, line) == d,
{
}

/// Folds the lines of `s` from index `i` into `acc`, one line per newline
/// byte.
pub open spec fn entries_from(s: Seq<u8>, i: int, acc: DictEntries) -> DictEntries
    decreases s.len() - i,
    when 0 <= i <= s.len()
    via entries_from_dec
{
    let e = find_from(s, i, 10);
    let acc2 = add_line(acc, s.subrange(i, e));
    if e >= s.len() {
        acc2
    } else {
        entries_from(s, e + 1, acc2)
    }
}

#[via_fn]
proof fn entries_from_dec(s: Seq<u8>, i: int, acc: DictEntries) {
    if 0 <= i <= s.len() {
        lemma_find_from(s, i, 10);
    }
}

/// The dictionary entries encoded by a raw asset.
pub open spec fn dict_entries(s: Seq<u8>) -> DictEntries {
    if s.len() == 0 {
        Seq::empty()
    } else {
        entries_from(s, 0, Seq::empty())
    }
}

/// The words stored for key `k`, if any entry holds that key.
pub open spec fn spec_get(d: DictEntries, k: u8) -> Option<Seq<Seq<char>>> {
    let j = key_index_from(d, k, 0);
    if j < d.len() {
        Some(d[j].1)
    } else {
        None
    }
}

/// Immutable mapping from word length to the words of exactly that length,
/// in file order.
pub struct Dict {
    entries: Vec<(u8, Vec<String>)>,
}

impl View for Dict {
    type V = DictEntries;

    closed spec fn view(&self) -> DictEntries {
        Seq::new(self.entries@.len(), |i: int| (self.entries@[i].0, self.entries@[i].1.deep_view()))
    }
}

impl Dict {
    /// No two entries share a length key.
    pub open spec fn wf(&self) -> bool {
        forall|i: int, j: int| 0 <= i < j < self@.len() ==> self@[i].0 != self@[j].0
    }

    /// An empty dictionary.
    pub fn new() -> (r: Dict)
        ensures
            r@ == Seq::<(u8, Seq<Seq<char>>)>::empty(),
            r.wf(),
    {
        let d = Dict { entries: Vec::new() };
        proof {
            assert(d@ =~= Seq::<(u8, Seq<Seq<char>>)>::empty());
        }
        d
    }

    /// The number of distinct lengths present.
    pub fn len(&self) -> (r: usize)
        ensures
            r == self@.len(),
    {
        self.entries.len()
    }

    /// Whether no entry is present.
    pub fn is_empty(&self) -> (r: bool)
        ensures
            r == (self@.len() == 0),
    {
        self.entries.len() == 0
    }

    /// The position of the entry holding `key`, or the entry count.
    fn key_pos(&self, key: u8) -> (r: usize)
        ensures
            r == key_index_from(self@, key, 0),
            r <= self@.len(),
    {
        proof {
            lemma_key_index_from(self@, key, 0);
        }
        let n = self.entries.len();
        let mut j: usize = 0;
        while j < n
            invariant
                0 <= j <= n,
                n == self@.len(),
                key_index_from(self@, key, 0) == key_index_from(self@, key, j as int),
            decreases n - j,
        {
            if self.entries[j].0 == key {
                return j;
            }
            j += 1;
        }
        j
    }

    /// The length key of the entry at position `i`.
    pub fn key_at(&self, i: usize) -> (r: u8)
        requires
            i < self@.len(),
        ensures
            r == self@[i as int].0,
    {
        self.entries[i].0
    }

    /// The words of the entry at position `i`.
    pub fn words_at(&self, i: usize) -> (r: &Vec<String>)
        requires
            i < self@.len(),
        ensures
            r.deep_view() == self@[i as int].1,
    {
        &self.entries[i].1
    }

    /// The words recorded for length `key`, if that length is present.
    pub fn get(&self, key: &u8) -> (r: Option<&Vec<String>>)
        ensures
            match r {
                Some(ws) => spec_get(self@, *key) == Some(ws.deep_view()),
                None => spec_get(self@, *key) is None,
            },
    {
        let j = self.key_pos(*key);
        if j < self.entries.len() {
            Some(&self.entries[j].1)
        } else {
            None
        }
    }

    /// Appends `words` to the entry for `key`, creating the entry if absent.
    fn push_words(&mut self, key: u8, words: Vec<String>)
        ensures
            final(self)@ == insert_words(old(self)@, key, words.deep_view()),
    {
        let ghost dv = self@;
        let ghost wsv = words.deep_view();
        proof {
            lemma_key_index_from(dv, key, 0);
        }
        let j = self.key_pos(key);
        if j < self.entries.len() {
            let (k, mut ws) = self.entries.remove(j);
            let mut tail = words;
            ws.append(&mut tail);
            self.entries.insert(j, (k, ws));
            proof {
                assert(ws.deep_view() =~= dv[j as int].1 + wsv);
                assert(self@ =~= insert_words(dv, key, wsv));
            }
        } else {
            self.entries.push((key, words));
            proof {
                assert(self@ =~= insert_words(dv, key, wsv));
            }
        }
    }
}

/// Copies the byte range `[a, b)` of `s`.
fn copy_range(s: &Vec<u8>, a: usize, b: usize) -> (r: Vec<u8>)
    requires
        a <= b <= s@.len(),
    ensures
        r@ == s@.subrange(a as int, b as int),
    decreases s@.len(),
{
    let mut r: Vec<u8> = Vec::new();
    let mut i = a;
    while i < b
        invariant
            a <= i <= b <= s@.len(),
            r@ == s@.subrange(a as int, i as int),
        decreases b - i,
    {
        r.push(s[i]);
        i += 1;
        proof {
            assert(r@ =~= s@.subrange(a as int, i as int));
        }
    }
    r
}

/// Finds the first occurrence of `b` in `s` at or after `from`.
fn find_byte(s: &Vec<u8>, from: usize, b: u8) -> (r: usize)
    requires
        from <= s@.len(),
    ensures
        r == find_from(s@, from as int, b),
        from <= r <= s@.len(),
{
    proof {
        lemma_find_from(s@, from as int, b);
    }
    let n = s.len();
    let mut i = from;
    while i < n
        invariant
            from <= i <= n,
            n == s@.len(),
            find_from(s@, from as int, b) == find_from(s@, i as int, b),
        decreases n - i,
    {
        if s[i] == b {
            return i;
        }
        i += 1;
    }
    i
}

/// Trims line-end whitespace from both ends of `line`.
fn trim_line(line: &Vec<u8>) -> (r: Vec<u8>)
    ensures
        r@ == trimmed(line@),
{
    let n = line.len();
    let mut a: usize = 0;
    while a < n && (line[a] == 32 || line[a] == 9 || line[a] == 13)
        invariant
            0 <= a <= n,
            n == line@.len(),
            skip_spaces(line@, 0) == skip_spaces(line@, a as int),
        decreases n - a,
    {
        a += 1;
    }
    let mut b: usize = n;
    while b > 0 && (line[b - 1] == 32 || line[b - 1] == 9 || line[b - 1] == 13)
        invariant
            0 <= b <= n,
            n == line@.len(),
            rskip_spaces(line@, n as int) == rskip_spaces(line@, b as int),
        decreases b,
    {
        b -= 1;
    }
    if a < b {
        copy_range(line, a, b)
    } else {
        let r: Vec<u8> = Vec::new();
        proof {
            assert(r@ =~= trimmed(line@));
        }
        r
    }
}

/// Reads the length field `key`; the result is capped one past the largest
/// valid key so that overlong digit strings stay invalid.
fn parse_key(key: &Vec<u8>) -> (r: Option<u8>)
    ensures
        match r {
            Some(v) => key@.len() > 0 && all_digits(key@) && digits_val(key@) == v && v <= 255,
            None => key@.len() == 0 || !all_digits(key@) || digits_val(key@) > 255,
        },
{
    let n = key.len();
    if n == 0 {
        return None;
    }
    let mut val: u64 = 0;
    let mut i: usize = 0;
    while i < n
        invariant
            0 <= i <= n,
            n == key@.len(),
            all_digits(key@.subrange(0, i as int)),
            digits_val(key@.subrange(0, i as int)) >= 0,
            val == if digits_val(key@.subrange(0, i as int)) > 255 {
                256int
            } else {
                digits_val(key@.subrange(0, i as int))
            },
        decreases n - i,
    {
        let ghost pre = key@.subrange(0, i as int);
        let bch = key[i];
        if bch < 48 || bch > 57 {
            proof {
                assert(!all_digits(key@));
            }
            return None;
        }
        let d: u64 = (bch - 48) as u64;
        val = val * 10 + d;
        if val > 255 {
            val = 256;
        }
        i += 1;
        proof {
            let cur = key@.subrange(0, i as int);
            assert(cur.drop_last() =~= pre);
            assert(cur.last() == bch);
            assert(digits_val(cur) == digits_val(pre) * 10 + (bch - 48));
        }
    }
    proof {
        assert(key@.subrange(0, n as int) =~= key@);
    }
    if val <= 255 {
        Some(val as u8)
    } else {
        None
    }
}

/// Splits `rest` on commas and decodes each segment.
fn parse_words(rest: &Vec<u8>) -> (r: Vec<String>)
    ensures
        r.deep_view() == words_from(rest@, 0, Seq::empty()),
{
    let mut ws: Vec<String> = Vec::new();
    proof {
        assert(ws.deep_view() =~= Seq::<Seq<char>>::empty());
    }
    let n = rest.len();
    let mut i: usize = 0;
    loop
        invariant_except_break
            words_from(rest@, 0, Seq::empty()) == words_from(rest@, i as int, ws.deep_view()),
        invariant
            0 <= i <= n,
            n == rest@.len(),
        ensures
            ws.deep_view() == words_from(rest@, 0, Seq::empty()),
        decreases n - i,
    {
        let e = find_byte(rest, i, 44);
        let seg = copy_range(rest, i, e);
        let word = decode_utf8(seg.as_slice());
        let ghost before = ws.deep_view();
        ws.push(word);
        proof {
            assert(ws.deep_view() =~= before.push(utf8_chars(rest@.subrange(i as int, e as int))));
        }
        if e >= n {
            break ;
        }
        i = e + 1;
    }
    ws
}

/// Parses a raw word-list asset.  Each line contributes the entry its length
/// field names; malformed lines are dropped, so loading never fails and blank
/// input yields an empty dictionary.
pub fn load_dict(dict_bytes: &[u8]) -> (r: Dict)
    ensures
        r@ == dict_entries(dict_bytes@),
        r.wf(),
{
    let data: Vec<u8> = slice_to_vec(dict_bytes);
    let mut dict = Dict::new();
    let n = data.len();
    if n == 0 {
        return dict;
    }
    let mut i: usize = 0;
    loop
        invariant_except_break
            entries_from(data@, i as int, dict@) == dict_entries(data@),
        invariant
            0 <= i <= n,
            n == data@.len(),
            n > 0,
            dict.wf(),
        ensures
            dict@ == dict_entries(data@),
            dict.wf(),
        decreases n - i,
    {
        let e = find_byte(&data, i, 10);
        let raw = copy_range(&data, i, e);
        let ghost before = dict@;
        process_line(&mut dict, &raw);
        proof {
            assert(dict@ == add_line(before, data@.subrange(i as int, e as int)));
        }
        if e >= n {
            break ;
        }
        i = e + 1;
    }
    dict
}

/// Folds one raw line into the dictionary.
fn process_line(dict: &mut Dict, raw: &Vec<u8>)
    requires
        old(dict).wf(),
    ensures
        final(dict)@ == add_line(old(dict)@, raw@),
        final(dict).wf(),
{
    let line = trim_line(raw);
    let n = line.len();
    let c = find_byte(&line, 0, 58);
    if n == 0 || c >= n {
        return ;
    }
    let key_bytes = copy_range(&line, 0, c);
    let key = match parse_key(&key_bytes) {
        None => {
            return ;
        },
        Some(k) => k,
    };
    let rest = copy_range(&line, c + 1, n);
    let words = parse_words(&rest);
    let ghost before = dict@;
    dict.push_words(key, words);
    proof {
        lemma_insert_words_wf(before, key, words.deep_view());
    }
}

/// Appending words under one key keeps the length keys distinct.
proof fn lemma_insert_words_wf(d: DictEntries, k: u8, ws: Seq<Seq<char>>)
    requires
        forall|i: int, j: int| 0 <= i < j < d.len() ==> d[i].0 != d[j].0,
    ensures
        ({
            let r = insert_words(d, k, ws);
            forall|i: int, j: int| 0 <= i < j < r.len() ==> r[i].0 != r[j].0
        }),
{
    lemma_key_index_from(d, k, 0);
}

} // verus!
