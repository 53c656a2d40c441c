//! Text handling of input lines: trimming, splitting into whitespace
//! separated words, and the line-numbered error messages.
use vstd::prelude::*;

verus! {

/// Whether a character is white space in Unicode's sense: it has the
/// `White_Space` property, as `char::is_whitespace` reads it.
pub open spec fn whitespace(c: char) -> bool {
    let u = c as u32;
    (0x9 <= u <= 0xD) || u == 0x20 || u == 0x85 || u == 0xA0 || u == 0x1680 || (0x2000 <= u
        <= 0x200A) || u == 0x2028 || u == 0x2029 || u == 0x202F || u == 0x205F || u == 0x3000
}

fn is_space(c: char) -> (r: bool)
    ensures
        r == whitespace(c),
{
    let u = c as u32;
    (0x9 <= u && u <= 0xD) || u == 0x20 || u == 0x85 || u == 0xA0 || u == 0x1680 || (0x2000 <= u
        && u <= 0x200A) || u == 0x2028 || u == 0x2029 || u == 0x202F || u == 0x205F || u == 0x3000
}

/// The first position at or after `i` that does not hold white space
/// (`s.len()` when there is none).
pub open spec fn skip_space(s: Seq<char>, i: int) -> int
    decreases s.len() - i,
{
    if 0 <= i < s.len() && whitespace(s[i]) {
        skip_space(s, i + 1)
    } else {
        i
    }
}

/// The first position at or after `i` that holds white space (`s.len()`
/// when there is none): the end of a word that starts at `i`.
pub open spec fn word_end(s: Seq<char>, i: int) -> int
    decreases s.len() - i,
{
    if 0 <= i < s.len() && !whitespace(s[i]) {
        word_end(s, i + 1)
    } else {
        i
    }
}

/// The end of `s[..j]` once white space at its back is dropped.
pub open spec fn trim_back(s: Seq<char>, j: int) -> int
    decreases j,
{
    if 0 < j <= s.len() && whitespace(s[j - 1]) {
        trim_back(s, j - 1)
    } else {
        j
    }
}

/// A line that holds nothing but white space.
pub open spec fn is_blank(s: Seq<char>) -> bool {
    skip_space(s, 0) == s.len()
}

/// `s` without white space at either end.
pub open spec fn trimmed(s: Seq<char>) -> Seq<char> {
    if is_blank(s) {
        Seq::empty()
    } else {
        s.subrange(skip_space(s, 0), trim_back(s, s.len() as int))
    }
}

/// The first two whitespace-separated words of `s`, if it has two.
pub open spec fn two_words(s: Seq<char>) -> Option<(Seq<char>, Seq<char>)> {
    let i0 = skip_space(s, 0);
    let j0 = word_end(s, i0);
    let i1 = skip_space(s, j0);
    if i1 >= s.len() {
        None
    } else {
        Some((s.subrange(i0, j0), s.subrange(i1, word_end(s, i1))))
    }
}

pub open spec fn digit(d: nat) -> char {
    seq!['0', '1', '2', '3', '4', '5', '6', '7', '8', '9'][d as int]
}

/// The decimal notation of `n`, without leading zeros.
pub open spec fn decimal(n: nat) -> Seq<char>
    decreases n,
{
    if n < 10 {
        seq![digit(n)]
    } else {
        decimal(n / 10).push(digit(n % 10))
    }
}

/// The message for an error met on the line at index `idx` (counted from 0):
/// the line is named by its number counted from 1.
pub open spec fn line_message(idx: nat, error: Seq<char>) -> Seq<char> {
    "line "@ + decimal(idx + 1) + ": "@ + error
}

proof fn lemma_skip_space_stops(s: Seq<char>, i: int)
    requires
        0 <= i <= s.len(),
        skip_space(s, i) < s.len(),
    ensures
        !whitespace(s[skip_space(s, i)]),
    decreases s.len() - i,
{
    if i < s.len() && whitespace(s[i]) {
        lemma_skip_space_stops(s, i + 1);
    }
}

fn skip_space_from(s: &str, len: usize, i: usize) -> (r: usize)
    requires
        len == s@.len(),
        i <= len,
    ensures
        r == skip_space(s@, i as int),
        i <= r <= len,
{
    let mut k = i;
    while k < len && is_space(s.get_char(k))
        invariant
            i <= k <= len == s@.len(),
            skip_space(s@, k as int) == skip_space(s@, i as int),
        decreases len - k,
    {
        k = k + 1;
    }
    k
}

fn word_end_from(s: &str, len: usize, i: usize) -> (r: usize)
    requires
        len == s@.len(),
        i <= len,
    ensures
        r == word_end(s@, i as int),
        i <= r <= len,
{
    let mut k = i;
    while k < len && !is_space(s.get_char(k))
        invariant
            i <= k <= len == s@.len(),
            word_end(s@, k as int) == word_end(s@, i as int),
        decreases len - k,
    {
        k = k + 1;
    }
    k
}

/// Whether `s` holds nothing but white space.
pub fn blank(s: &str) -> (r: bool)
    ensures
        r == is_blank(s@),
{
    let len = s.unicode_len();
    skip_space_from(s, len, 0) == len
}

/// `s` without white space at either end.
pub fn trim(s: &str) -> (r: &str)
    ensures
        r@ == trimmed(s@),
{
    let len = s.unicode_len();
    let start = skip_space_from(s, len, 0);
    if start == len {
        return s.substring_char(len, len);
    }
    proof {
        lemma_skip_space_stops(s@, 0);
    }
    let mut end = len;
    while end > 0 && is_space(s.get_char(end - 1))
        invariant
            start < len == s@.len(),
            end <= len,
            trim_back(s@, end as int) == trim_back(s@, len as int),
            start < end,
            start == skip_space(s@, 0),
            !whitespace(s@[start as int]),
        decreases end,
    {
        end = end - 1;
    }
    s.substring_char(start, end)
}

/// The first two whitespace-separated words of `line`.
pub fn tuple(line: &str) -> (r: Result<(&str, &str), String>)
    ensures
        match two_words(line@) {
            Some((a, b)) => r matches Ok((x, y)) && x@ == a && y@ == b,
            None => r matches Err(e) && e@ == "expecting two values"@,
        },
{
    let len = line.unicode_len();
    let i0 = skip_space_from(line, len, 0);
    let j0 = word_end_from(line, len, i0);
    let i1 = skip_space_from(line, len, j0);
    if i1 >= len {
        return Err(String::from_str("expecting two values"));
    }
    let j1 = word_end_from(line, len, i1);
    Ok((line.substring_char(i0, j0), line.substring_char(i1, j1)))
}

fn digit_str(d: usize) -> (r: &'static str)
    requires
        d < 10,
    ensures
        r@ == seq![digit(d as nat)],
{
    let digits = "0123456789";
    proof {
        reveal_strlit("0123456789");
    }
    let r = digits.substring_char(d, d + 1);
    assert(r@ =~= seq![digit(d as nat)]);
    r
}

/// The decimal notation of `n`.
pub fn decimal_string(n: usize) -> (r: String)
    ensures
        r@ == decimal(n as nat),
    decreases n,
{
    if n < 10 {
        String::from_str(digit_str(n))
    } else {
        let mut s = decimal_string(n / 10);
        s.append(digit_str(n % 10));
        s
    }
}

/// Names the line at index `idx` (counted from 0) in front of an error message.
pub fn line_error(idx: usize, error: &str) -> (r: String)
    requires
        idx < usize::MAX,
    ensures
        r@ == line_message(idx as nat, error@),
{
    let number = decimal_string(idx + 1);
    let r = String::from_str("line ").concat(number.as_str()).concat(": ").concat(error);
    r
}

} // verus!
