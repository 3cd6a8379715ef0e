//! Matches of a regular expression over a text.
//!
//! A match is reported group by group as byte spans into the UTF-8 encoding
//! of the text, as the `regex` crate reports them. The helpers here turn byte
//! offsets back into the characters before and after them.

use vstd::prelude::*;
use vstd::utf8::*;
use crate::text::{chars_of, lines, lines_exec};

verus! {

broadcast use {encode_utf8_valid_utf8, encode_utf8_decode_utf8, is_char_boundary_start_end_of_seq};

/// One capture group of a match: its byte offsets and the text between them.
pub struct Span {
    pub start: usize,
    pub end: usize,
    pub text: String,
}

/// The text of `s` whose UTF-8 encoding lies between the byte offsets `a` and `b`.
pub open spec fn byte_range(s: Seq<char>, a: int, b: int) -> Seq<char> {
    decode_utf8(encode_utf8(s).subrange(a, b))
}

/// The characters of `s` that lie before the byte offset `b`.
pub open spec fn byte_prefix(s: Seq<char>, b: int) -> Seq<char> {
    byte_range(s, 0, b)
}

/// The characters of `s` that lie from the byte offset `b` on.
pub open spec fn byte_suffix(s: Seq<char>, b: int) -> Seq<char> {
    byte_range(s, b, encode_utf8(s).len() as int)
}

/// `b` is a byte offset of `s` that falls between two characters.
pub open spec fn at_boundary(s: Seq<char>, b: int) -> bool {
    0 <= b <= encode_utf8(s).len() && is_char_boundary(encode_utf8(s), b)
}

/// A group as byte offsets.
pub open spec fn span_pos(g: Option<Span>) -> Option<(int, int)> {
    match g {
        Some(sp) => Some((sp.start as int, sp.end as int)),
        None => None,
    }
}

/// The groups of one match as byte offsets.
pub open spec fn groups_pos(m: Vec<Option<Span>>) -> Seq<Option<(int, int)>> {
    m@.map_values(|g: Option<Span>| span_pos(g))
}

/// All matches as byte offsets.
pub open spec fn matches_pos(ms: Seq<Vec<Option<Span>>>) -> Seq<Seq<Option<(int, int)>>> {
    ms.map_values(|m: Vec<Option<Span>>| groups_pos(m))
}

/// What `Regex::new` and `Regex::captures_iter` report for a pattern and a
/// text: the successive matches, each as its groups' byte offsets, or the
/// message of the error that refused the pattern.
pub uninterp spec fn regex_captures(pattern: Seq<char>, haystack: Seq<char>) -> Result<
    Seq<Seq<Option<(int, int)>>>,
    Seq<char>,
>;

/// A group span fits the text: its offsets fall between characters and its
/// text is the text between them.
pub open spec fn span_fits(s: Seq<char>, g: Option<Span>) -> bool {
    match g {
        Some(sp) => sp.start <= sp.end && at_boundary(s, sp.start as int) && at_boundary(
            s,
            sp.end as int,
        ) && sp.text@ == byte_range(s, sp.start as int, sp.end as int),
        None => true,
    }
}

/// Every match has its whole-match group, and every group fits the text.
pub open spec fn matches_fit(s: Seq<char>, ms: Seq<Vec<Option<Span>>>) -> bool {
    forall|i: int|
        0 <= i < ms.len() ==> {
            &&& (#[trigger] ms[i])@.len() >= 1
            &&& ms[i]@[0] is Some
            &&& forall|j: int| 0 <= j < ms[i]@.len() ==> span_fits(s, #[trigger] ms[i]@[j])
        }
}

/// The result of a search as byte offsets.
pub open spec fn search_pos(r: Result<Vec<Vec<Option<Span>>>, String>) -> Result<
    Seq<Seq<Option<(int, int)>>>,
    Seq<char>,
> {
    match r {
        Ok(ms) => Ok(matches_pos(ms@)),
        Err(e) => Err(e@),
    }
}

/// Compiles `pattern` with `regex::Regex::new` and collects the matches of
/// `Regex::captures_iter` over `haystack`, each group as `Match::start`,
/// `Match::end` and `Match::as_str`.
/// Claimed: the offsets are those the crate reports (named `regex_captures`);
/// per the crate's documentation group 0 is always present, offsets fall on
/// UTF-8 boundaries of the haystack, `start <= end`, and `as_str` is the text
/// between them. A refused pattern gives the error's message.
#[verifier::external_body]
pub(crate) fn captures_all(pattern: &str, haystack: &str) -> (r: Result<Vec<Vec<Option<Span>>>, String>)
    ensures
        search_pos(r) == regex_captures(pattern@, haystack@),
        r matches Ok(ms) ==> matches_fit(haystack@, ms@),
{
    let re = regex::Regex::new(pattern).map_err(|e| e.to_string())?;
    Ok(re.captures_iter(haystack).map(|c| c.iter().map(|g| g.map(|m| Span {
        start: m.start(),
        end: m.end(),
        text: m.as_str().to_string(),
    })).collect()).collect())
}

/// Group `i` of a match, as `Captures::get` gives it: absent past the last group.
pub open spec fn group(m: Seq<Option<(int, int)>>, i: int) -> Option<(int, int)> {
    if 0 <= i < m.len() {
        m[i]
    } else {
        None
    }
}

/// The text of group `i`, or the empty text where the group did not take part.
pub open spec fn group_text(s: Seq<char>, m: Seq<Option<(int, int)>>, i: int) -> Seq<char> {
    match group(m, i) {
        Some(p) => byte_range(s, p.0, p.1),
        None => Seq::empty(),
    }
}

/// Whether group `i` took part in the match.
pub open spec fn has_group(m: Seq<Option<(int, int)>>, i: int) -> bool {
    group(m, i) is Some
}

/// Start offset of the whole match.
pub open spec fn match_start(m: Seq<Option<(int, int)>>) -> int {
    match group(m, 0) {
        Some(p) => p.0,
        None => 0,
    }
}

/// End offset of the whole match.
pub open spec fn match_end(m: Seq<Option<(int, int)>>) -> int {
    match group(m, 0) {
        Some(p) => p.1,
        None => 0,
    }
}

/// The number of the line a byte offset falls on: the number of lines of the
/// text before the offset, as `str::lines().count()` gives it.
pub open spec fn line_at(s: Seq<char>, b: int) -> nat {
    lines(byte_prefix(s, b)).len()
}

/// Whether group `i` of `m` took part.
pub fn has_group_exec(m: &Vec<Option<Span>>, i: usize) -> (r: bool)
    ensures
        r == has_group(groups_pos(*m), i as int),
{
    i < m.len() && m[i].is_some()
}

/// The text of group `i` of `m`, or the empty text.
pub fn group_text_exec(s: &str, m: &Vec<Option<Span>>, i: usize) -> (r: String)
    requires
        forall|j: int| 0 <= j < m@.len() ==> span_fits(s@, #[trigger] m@[j]),
    ensures
        r@ == group_text(s@, groups_pos(*m), i as int),
{
    if i < m.len() {
        match &m[i] {
            Some(sp) => {
                assert(span_fits(s@, m@[i as int]));
                sp.text.clone()
            },
            None => String::new(),
        }
    } else {
        String::new()
    }
}

/// Start offset of the whole match `m`.
pub fn match_start_exec(m: &Vec<Option<Span>>) -> (r: usize)
    requires
        m@.len() >= 1,
        m@[0] is Some,
    ensures
        r == match_start(groups_pos(*m)),
{
    match &m[0] {
        Some(sp) => sp.start,
        None => 0,
    }
}

/// End offset of the whole match `m`.
pub fn match_end_exec(m: &Vec<Option<Span>>) -> (r: usize)
    requires
        m@.len() >= 1,
        m@[0] is Some,
    ensures
        r == match_end(groups_pos(*m)),
{
    match &m[0] {
        Some(sp) => sp.end,
        None => 0,
    }
}

/// The UTF-8 encoding is at least one byte per character.
pub proof fn lemma_encode_len(s: Seq<char>)
    ensures
        encode_utf8(s).len() >= s.len(),
    decreases s.len(),
{
    if s.len() > 0 {
        lemma_encode_len(s.drop_first());
    }
}

/// A text has at most as many lines as characters.
pub proof fn lemma_lines_len(s: Seq<char>)
    ensures
        lines(s).len() <= s.len(),
    decreases s.len(),
{
    if s.len() > 0 {
        match crate::text::first_index(s, '\n') {
            Some(i) => {
                if 0 <= i < s.len() {
                    lemma_lines_len(s.skip(i + 1));
                }
            },
            None => {},
        }
    }
}

/// Splits `s` at a byte offset between two characters.
pub fn split_at_byte(s: &str, b: usize) -> (r: (&str, &str))
    requires
        at_boundary(s@, b as int),
    ensures
        r.0@ == byte_prefix(s@, b as int),
        r.1@ == byte_suffix(s@, b as int),
        s@ == r.0@ + r.1@,
{
    let r = s.split_at(b);
    proof {
        let bytes = encode_utf8(s@);
        assert(r.0@ == decode_utf8(encode_utf8(r.0@)));
        assert(r.1@ == decode_utf8(encode_utf8(r.1@)));
        decode_utf8_split(bytes, b as int);
        assert(decode_utf8(bytes) == s@);
    }
    r
}

/// The number of the line that the byte offset `b` of `s` falls on.
pub fn line_at_exec(s: &str, b: usize) -> (r: usize)
    requires
        at_boundary(s@, b as int),
    ensures
        r == line_at(s@, b as int),
        r <= s@.len(),
{
    let (pre, _rest) = split_at_byte(s, b);
    let cs = chars_of(pre);
    let ls = lines_exec(cs.as_slice());
    proof {
        lemma_lines_len(pre@);
    }
    ls.len()
}

} // verus!
