//! Text measurement: display width (through the `unicode-width` crate),
//! character classes, and UTF-8 lengths.

use vstd::prelude::*;

use crate::render::overflow::chars_of;

verus! {

/// The number of terminal columns `s` occupies, as
/// `unicode_width::UnicodeWidthStr::width` computes it.
pub uninterp spec fn display_width_of(s: Seq<char>) -> usize;

/// Display width of a string in terminal columns: a call of
/// `unicode_width::UnicodeWidthStr::width`, whose result is a function of
/// the text alone.
#[verifier::external_body]
pub(crate) fn display_width(s: &str) -> (w: usize)
    ensures
        w == display_width_of(s@),
{
    unicode_width::UnicodeWidthStr::width(s)
}

/// The end of the run starting at `i` of characters that are whitespace
/// exactly when `white` is: the first index at or after `i` where that
/// fails, or the length.
pub open spec fn run_end(s: Seq<char>, i: int, white: bool) -> int
    decreases s.len() - i,
{
    if i < 0 || i >= s.len() || spec_whitespace(s[i]) != white {
        i
    } else {
        run_end(s, i + 1, white)
    }
}

/// A run ends within the text, on a character of the other kind, and a
/// run that starts on a character of its kind is not empty.
pub proof fn lemma_run_end(s: Seq<char>, i: int, white: bool)
    requires
        0 <= i <= s.len(),
    ensures
        i <= run_end(s, i, white) <= s.len(),
        run_end(s, i, white) < s.len() ==> spec_whitespace(s[run_end(s, i, white)]) != white,
        i < s.len() && spec_whitespace(s[i]) == white ==> run_end(s, i, white) > i,
    decreases s.len() - i,
{
    if i < s.len() && spec_whitespace(s[i]) == white {
        lemma_run_end(s, i + 1, white);
    }
}

/// The words of `s` from index `i` on: its maximal runs of characters that
/// are not Unicode whitespace, in order.
pub open spec fn words_from(s: Seq<char>, i: int) -> Seq<Seq<char>>
    decreases s.len() - i,
    when 0 <= i <= s.len()
{
    let j = run_end(s, i, true);
    if j >= s.len() {
        Seq::empty()
    } else {
        let k = run_end(s, j, false);
        proof {
            lemma_run_end(s, i, true);
            lemma_run_end(s, j, false);
        }
        seq![s.subrange(j, k)] + words_from(s, k)
    }
}

/// The maximal runs of non-whitespace characters of `s`, in order, as
/// `str::split_whitespace` yields them.
pub open spec fn whitespace_words(s: Seq<char>) -> Seq<Seq<char>> {
    words_from(s, 0)
}

/// The end of the run at `i` of characters that are whitespace exactly
/// when `white` is.
fn find_run_end(chars: &Vec<char>, i: usize, white: bool) -> (r: usize)
    requires
        i <= chars@.len(),
    ensures
        r == run_end(chars@, i as int, white),
{
    let mut k = i;
    while k < chars.len() && is_whitespace(chars[k]) == white
        invariant
            i <= k <= chars@.len(),
            run_end(chars@, i as int, white) == run_end(chars@, k as int, white),
        decreases chars@.len() - k,
    {
        k += 1;
    }
    k
}

/// The words of `s` split at Unicode whitespace, each copied into its own
/// `String`, as `str::split_whitespace` splits it.
pub(crate) fn split_words(s: &str) -> (words: Vec<String>)
    ensures
        words@.map_values(|w: String| w@) == whitespace_words(s@),
{
    let chars = chars_of(s);
    let n = chars.len();
    let mut words: Vec<String> = Vec::new();
    let mut i: usize = 0;
    assert(words@.map_values(|w: String| w@) + words_from(chars@, 0) =~= words_from(chars@, 0));
    while i < n
        invariant
            n == chars@.len(),
            i <= n,
            words@.map_values(|w: String| w@) + words_from(chars@, i as int) == words_from(chars@, 0),
        decreases n - i,
    {
        let j = find_run_end(&chars, i, true);
        proof {
            lemma_run_end(chars@, i as int, true);
        }
        if j >= n {
            proof {
                lemma_run_end(chars@, n as int, true);
                assert(words_from(chars@, n as int) =~= Seq::<Seq<char>>::empty());
            }
            i = n;
        } else {
            let k = find_run_end(&chars, j, false);
            proof {
                lemma_run_end(chars@, j as int, false);
            }
            let mut word: Vec<char> = Vec::new();
            let mut m = j;
            while m < k
                invariant
                    j <= m <= k <= chars@.len(),
                    word@ == chars@.subrange(j as int, m as int),
                decreases k - m,
            {
                word.push(chars[m]);
                m += 1;
                assert(word@ =~= chars@.subrange(j as int, m as int));
            }
            let ghost before = words@.map_values(|w: String| w@);
            words.push(string_from_chars(word.as_slice()));
            proof {
                let sub = chars@.subrange(j as int, k as int);
                assert(words@.map_values(|w: String| w@) =~= before.push(sub));
                assert(words_from(chars@, i as int) == seq![sub] + words_from(chars@, k as int));
                assert(before.push(sub) + words_from(chars@, k as int) =~= before + (seq![sub] + words_from(
                    chars@,
                    k as int,
                )));
            }
            i = k;
        }
    }
    proof {
        lemma_run_end(chars@, n as int, true);
        assert(words_from(chars@, n as int) =~= Seq::<Seq<char>>::empty());
        assert(words@.map_values(|w: String| w@) + Seq::<Seq<char>>::empty() =~= words@.map_values(
            |w: String| w@,
        ));
    }
    words
}

/// `a + b` with wrap-around at `usize::MAX + 1`.
pub open spec fn wadd(a: usize, b: usize) -> usize {
    if a + b > usize::MAX { (a + b - (usize::MAX + 1)) as usize } else { (a + b) as usize }
}

/// `a + b` with wrap-around at `u16::MAX + 1`.
pub open spec fn wadd16(a: u16, b: u16) -> u16 {
    if a + b > u16::MAX { (a + b - 65536) as u16 } else { (a + b) as u16 }
}

/// Whether `c` is alphabetic or numeric, as `char::is_alphanumeric`
/// computes it from the Unicode tables.
pub uninterp spec fn alphanumeric(c: char) -> bool;

/// Whether `c` is alphabetic or numeric: a call of `char::is_alphanumeric`,
/// whose result is a function of the character alone.
#[verifier::external_body]
pub(crate) fn is_alphanumeric(c: char) -> (b: bool)
    ensures
        b == alphanumeric(c),
{
    c.is_alphanumeric()
}

/// Whether `c` has the Unicode White_Space property.
pub open spec fn spec_whitespace(c: char) -> bool {
    let v = c as u32;
    ||| v == 0x20
    ||| 0x09 <= v <= 0x0d
    ||| v == 0x85
    ||| v == 0xa0
    ||| v == 0x1680
    ||| 0x2000 <= v <= 0x200a
    ||| v == 0x2028
    ||| v == 0x2029
    ||| v == 0x202f
    ||| v == 0x205f
    ||| v == 0x3000
}

/// Whether `c` has the Unicode White_Space property.
pub fn is_whitespace(c: char) -> (b: bool)
    ensures
        b == spec_whitespace(c),
{
    let v = c as u32;
    v == 0x20 || (0x09 <= v && v <= 0x0d) || v == 0x85 || v == 0xa0 || v == 0x1680 || (0x2000 <= v && v
        <= 0x200a) || v == 0x2028 || v == 0x2029 || v == 0x202f || v == 0x205f || v == 0x3000
}

/// Bytes the UTF-8 encoding of `c` takes.
pub open spec fn spec_utf8_len(c: char) -> nat {
    let v = c as u32;
    if v < 0x80 {
        1
    } else if v < 0x800 {
        2
    } else if v < 0x10000 {
        3
    } else {
        4
    }
}

/// Bytes the UTF-8 encoding of `c` takes.
pub fn utf8_len(c: char) -> (n: usize)
    ensures
        n == spec_utf8_len(c),
{
    let v = c as u32;
    if v < 0x80 {
        1
    } else if v < 0x800 {
        2
    } else if v < 0x10000 {
        3
    } else {
        4
    }
}

/// UTF-8 byte offset of character index `i` in `s`.
pub open spec fn bytes_before(s: Seq<char>, i: int) -> nat
    decreases i,
{
    if i <= 0 { 0 } else { bytes_before(s, i - 1) + spec_utf8_len(s[i - 1]) }
}

/// A string holding exactly the given characters: a call of
/// `FromIterator<char>` for `String` over the slice.
#[verifier::external_body]
pub(crate) fn string_from_chars(chars: &[char]) -> (s: String)
    ensures
        s@ == chars@,
{
    chars.iter().collect()
}

} // verus!
