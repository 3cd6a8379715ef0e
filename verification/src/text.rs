//! Character-level string helpers with their specifications.
//!
//! Strings are handled as sequences of `char`s (the view of `str` and `String`).
//! The executable helpers work on `&[char]`, so that a long text is decoded once
//! and then scanned in linear time.

use vstd::prelude::*;

verus! {

// ---------------------------------------------------------------------------
// Conversions
// ---------------------------------------------------------------------------

/// The characters of `s`, in order.
pub fn chars_of(s: &str) -> (r: Vec<char>)
    ensures
        r@ == s@,
{
    let mut r: Vec<char> = Vec::new();
    for c in it: s.chars()
        invariant
            r@ == it.seq().take(it.index() as int),
    {
        r.push(c);
    }
    assert(r@ =~= s@);
    r
}

/// `String::push`: appends one character.
#[verifier::external_body]
fn string_push(s: &mut String, c: char)
    ensures
        final(s)@ == old(s)@.push(c),
{
    s.push(c);
}

/// The string made of the characters `cs`.
pub fn string_of(cs: &[char]) -> (r: String)
    ensures
        r@ == cs@,
{
    let mut r = String::new();
    let mut i: usize = 0;
    while i < cs.len()
        invariant
            i <= cs.len(),
            r@ == cs@.take(i as int),
        decreases cs.len() - i,
    {
        string_push(&mut r, cs[i]);
        i += 1;
        assert(r@ =~= cs@.take(i as int));
    }
    assert(cs@.take(cs.len() as int) =~= cs@);
    r
}

/// The lowercase form of a string, as `str::to_lowercase` computes it
/// (Unicode `Lowercase` mapping, which may change the length).
pub uninterp spec fn lowercase(s: Seq<char>) -> Seq<char>;

/// A character of the ASCII range.
pub open spec fn is_ascii_char(c: char) -> bool {
    (c as u32) < 128
}

/// A text made only of ASCII characters.
pub open spec fn is_ascii_text(s: Seq<char>) -> bool {
    forall|i: int| 0 <= i < s.len() ==> is_ascii_char(#[trigger] s[i])
}

/// `A`-`Z` mapped to `a`-`z`; every other character kept.
pub open spec fn ascii_lower_char(c: char) -> char {
    if 65 <= (c as u32) <= 90 {
        ((c as u32) + 32) as char
    } else {
        c
    }
}

/// The text with `A`-`Z` mapped to `a`-`z`, character by character.
pub open spec fn ascii_lowercase(s: Seq<char>) -> Seq<char> {
    s.map_values(|c: char| ascii_lower_char(c))
}

/// Calls `str::to_lowercase`. Claimed: the result is the lowercase mapping of
/// the argument, named `lowercase`; for a text made only of ASCII characters
/// it is that text with `A`-`Z` turned into `a`-`z` and every other character
/// (digits, `/`, `.`, `_`, quotes, ...) kept, as the Unicode lowercase mapping
/// that the function follows gives for ASCII. Of other texts nothing more is
/// stated: the mapping may change their length, and `Σ` depends on its
/// neighbours.
#[verifier::external_body]
fn str_to_lowercase(s: &str) -> (r: String)
    ensures
        r@ == lowercase(s@),
        is_ascii_text(s@) ==> r@ == ascii_lowercase(s@),
{
    s.to_lowercase()
}

/// The characters of the lowercase form of `s`.
pub fn lowercase_chars(s: &str) -> (r: Vec<char>)
    ensures
        r@ == lowercase(s@),
        is_ascii_text(s@) ==> r@ == ascii_lowercase(s@),
{
    let low = str_to_lowercase(s);
    chars_of(low.as_str())
}

/// The lowercase form of `s` as a `String`.
pub fn to_lowercase_string(s: &str) -> (r: String)
    ensures
        r@ == lowercase(s@),
        is_ascii_text(s@) ==> r@ == ascii_lowercase(s@),
{
    str_to_lowercase(s)
}

// ---------------------------------------------------------------------------
// Substring search
// ---------------------------------------------------------------------------

/// `n` occurs in `h` starting at index `i`.
pub open spec fn occurs_at(h: Seq<char>, n: Seq<char>, i: int) -> bool {
    0 <= i && i + n.len() <= h.len() && h.subrange(i, i + n.len()) == n
}

/// `n` occurs somewhere in `h` (`str::contains`).
pub open spec fn contains_text(h: Seq<char>, n: Seq<char>) -> bool {
    exists|i: int| occurs_at(h, n, i)
}

/// `h` begins with `n` (`str::starts_with`).
pub open spec fn begins(h: Seq<char>, n: Seq<char>) -> bool {
    occurs_at(h, n, 0)
}

/// `h` ends with `n` (`str::ends_with`).
pub open spec fn finishes(h: Seq<char>, n: Seq<char>) -> bool {
    occurs_at(h, n, h.len() - n.len())
}

/// Whether `n` occurs in `h` at index `i`.
pub fn occurs_at_exec(h: &[char], n: &[char], i: usize) -> (r: bool)
    ensures
        r == occurs_at(h@, n@, i as int),
{
    if i > h.len() || n.len() > h.len() - i {
        return false;
    }
    let mut k: usize = 0;
    while k < n.len()
        invariant
            i + n.len() <= h.len(),
            k <= n.len(),
            forall|j: int| 0 <= j < k ==> h@[i + j] == n@[j],
        decreases n.len() - k,
    {
        if h[i + k] != n[k] {
            assert(h@.subrange(i as int, i + n.len())[k as int] != n@[k as int]);
            return false;
        }
        k += 1;
    }
    assert(h@.subrange(i as int, i + n.len()) =~= n@);
    true
}

/// `str::contains` on character slices.
pub fn contains_exec(h: &[char], n: &[char]) -> (r: bool)
    ensures
        r == contains_text(h@, n@),
{
    if n.len() > h.len() {
        return false;
    }
    let last = h.len() - n.len();
    let mut i: usize = 0;
    loop
        invariant
            n.len() <= h.len(),
            last == h.len() - n.len(),
            i <= last,
            forall|j: int| 0 <= j < i ==> !occurs_at(h@, n@, j),
        ensures
            forall|j: int| 0 <= j <= last ==> !occurs_at(h@, n@, j),
        decreases last - i,
    {
        if occurs_at_exec(h, n, i) {
            return true;
        }
        if i == last {
            break;
        }
        i += 1;
    }
    false
}

/// `str::starts_with` on character slices.
pub fn begins_exec(h: &[char], n: &[char]) -> (r: bool)
    ensures
        r == begins(h@, n@),
{
    occurs_at_exec(h, n, 0)
}

/// `str::ends_with` on character slices.
pub fn finishes_exec(h: &[char], n: &[char]) -> (r: bool)
    ensures
        r == finishes(h@, n@),
{
    if n.len() > h.len() {
        return false;
    }
    occurs_at_exec(h, n, h.len() - n.len())
}

/// Equality of two character slices.
pub fn same_exec(a: &[char], b: &[char]) -> (r: bool)
    ensures
        r == (a@ == b@),
{
    if a.len() != b.len() {
        return false;
    }
    let r = occurs_at_exec(a, b, 0);
    proof {
        if r {
            assert(a@.subrange(0, b@.len() as int) =~= a@);
        } else {
            assert(a@.subrange(0, b@.len() as int) =~= a@);
        }
    }
    r
}

/// `h` contains the text `n`; both given as strings.
pub fn str_contains(h: &[char], n: &str) -> (r: bool)
    ensures
        r == contains_text(h@, n@),
{
    let nc = chars_of(n);
    contains_exec(h, nc.as_slice())
}

/// `h` begins with the text `n`.
pub fn str_begins(h: &[char], n: &str) -> (r: bool)
    ensures
        r == begins(h@, n@),
{
    let nc = chars_of(n);
    begins_exec(h, nc.as_slice())
}

/// `h` ends with the text `n`.
pub fn str_finishes(h: &[char], n: &str) -> (r: bool)
    ensures
        r == finishes(h@, n@),
{
    let nc = chars_of(n);
    finishes_exec(h, nc.as_slice())
}

/// `h` equals the text `n`.
pub fn str_same(h: &[char], n: &str) -> (r: bool)
    ensures
        r == (h@ == n@),
{
    let nc = chars_of(n);
    same_exec(h, nc.as_slice())
}

/// Index of the first occurrence of `c` in `h` (`str::find` with a `char`,
/// counted in characters).
pub fn find_char(h: &[char], c: char) -> (r: Option<usize>)
    ensures
        match r {
            Some(i) => i < h@.len() && h@[i as int] == c && forall|j: int| 0 <= j < i ==> h@[j] != c,
            None => forall|j: int| 0 <= j < h@.len() ==> h@[j] != c,
        },
{
    let mut i: usize = 0;
    while i < h.len()
        invariant
            i <= h.len(),
            forall|j: int| 0 <= j < i ==> h@[j] != c,
        decreases h.len() - i,
    {
        if h[i] == c {
            return Some(i);
        }
        i += 1;
    }
    None
}

/// Index of the last occurrence of `c` in `h` (`str::rfind` with a `char`,
/// counted in characters).
pub fn rfind_char(h: &[char], c: char) -> (r: Option<usize>)
    ensures
        match r {
            Some(i) => i < h@.len() && h@[i as int] == c && forall|j: int| i < j < h@.len() ==> h@[j] != c,
            None => forall|j: int| 0 <= j < h@.len() ==> h@[j] != c,
        },
{
    let mut i: usize = h.len();
    while i > 0
        invariant
            i <= h.len(),
            forall|j: int| i <= j < h@.len() ==> h@[j] != c,
        decreases i,
    {
        if h[i - 1] == c {
            return Some(i - 1);
        }
        i -= 1;
    }
    None
}

/// A copy of `h[lo..hi]`.
pub fn slice_copy(h: &[char], lo: usize, hi: usize) -> (r: Vec<char>)
    requires
        lo <= hi <= h.len(),
    ensures
        r@ == h@.subrange(lo as int, hi as int),
{
    let mut r: Vec<char> = Vec::new();
    let mut i = lo;
    while i < hi
        invariant
            lo <= i <= hi <= h.len(),
            r@ == h@.subrange(lo as int, i as int),
        decreases hi - i,
    {
        r.push(h[i]);
        i += 1;
        assert(r@ =~= h@.subrange(lo as int, i as int));
    }
    r
}

/// Number of occurrences of the character `c` in `s`.
pub open spec fn count_char(s: Seq<char>, c: char) -> nat
    decreases s.len(),
{
    if s.len() == 0 {
        0
    } else {
        count_char(s.drop_last(), c) + if s.last() == c { 1nat } else { 0nat }
    }
}

/// Counts the occurrences of `c` in `s` (`str::matches(c).count()`).
pub fn count_char_exec(s: &[char], c: char) -> (r: usize)
    ensures
        r == count_char(s@, c),
{
    let mut n: usize = 0;
    let mut i: usize = 0;
    while i < s.len()
        invariant
            i <= s.len(),
            n == count_char(s@.take(i as int), c),
            n <= i,
        decreases s.len() - i,
    {
        assert(s@.take(i + 1).drop_last() =~= s@.take(i as int));
        if s[i] == c {
            n += 1;
        }
        i += 1;
    }
    assert(s@.take(s.len() as int) =~= s@);
    n
}


// ---------------------------------------------------------------------------
// Whitespace and trimming
// ---------------------------------------------------------------------------

/// Unicode `White_Space` (what `char::is_whitespace` tests).
pub open spec fn is_ws(c: char) -> bool {
    ('\u{9}' <= c && c <= '\u{d}') || c == ' ' || c == '\u{85}' || c == '\u{a0}'
        || c == '\u{1680}' || ('\u{2000}' <= c && c <= '\u{200a}') || c == '\u{2028}'
        || c == '\u{2029}' || c == '\u{202f}' || c == '\u{205f}' || c == '\u{3000}'
}

/// `char::is_whitespace`.
pub fn is_ws_exec(c: char) -> (r: bool)
    ensures
        r == is_ws(c),
{
    ('\u{9}' <= c && c <= '\u{d}') || c == ' ' || c == '\u{85}' || c == '\u{a0}'
        || c == '\u{1680}' || ('\u{2000}' <= c && c <= '\u{200a}') || c == '\u{2028}'
        || c == '\u{2029}' || c == '\u{202f}' || c == '\u{205f}' || c == '\u{3000}'
}

/// `s` without its leading whitespace (`str::trim_start`).
pub open spec fn trim_start(s: Seq<char>) -> Seq<char>
    decreases s.len(),
{
    if s.len() > 0 && is_ws(s[0]) {
        trim_start(s.drop_first())
    } else {
        s
    }
}

/// `s` without its trailing whitespace (`str::trim_end`).
pub open spec fn trim_end(s: Seq<char>) -> Seq<char>
    decreases s.len(),
{
    if s.len() > 0 && is_ws(s.last()) {
        trim_end(s.drop_last())
    } else {
        s
    }
}

/// `s` without leading and trailing whitespace (`str::trim`).
pub open spec fn trim(s: Seq<char>) -> Seq<char> {
    trim_end(trim_start(s))
}

proof fn lemma_trim_start_skip(s: Seq<char>, a: int)
    requires
        0 <= a <= s.len(),
        forall|j: int| 0 <= j < a ==> is_ws(s[j]),
        a == s.len() || !is_ws(s[a]),
    ensures
        trim_start(s) == s.skip(a),
    decreases a,
{
    if a == 0 {
        assert(s.skip(0) =~= s);
    } else {
        lemma_trim_start_skip(s.drop_first(), a - 1);
        assert(s.drop_first().skip(a - 1) =~= s.skip(a));
    }
}

proof fn lemma_trim_end_take(s: Seq<char>, b: int)
    requires
        0 <= b <= s.len(),
        forall|j: int| b <= j < s.len() ==> is_ws(s[j]),
        b == 0 || !is_ws(s[b - 1]),
    ensures
        trim_end(s) == s.take(b),
    decreases s.len() - b,
{
    if b == s.len() {
        assert(s.take(b) =~= s);
    } else {
        lemma_trim_end_take(s.drop_last(), b);
        assert(s.drop_last().take(b) =~= s.take(b));
    }
}

/// `str::trim` on a character slice.
pub fn trim_exec(s: &[char]) -> (r: Vec<char>)
    ensures
        r@ == trim(s@),
{
    let mut a: usize = 0;
    while a < s.len() && is_ws_exec(s[a])
        invariant
            a <= s.len(),
            forall|j: int| 0 <= j < a ==> is_ws(s@[j]),
        decreases s.len() - a,
    {
        a += 1;
    }
    proof {
        lemma_trim_start_skip(s@, a as int);
    }
    let mut b: usize = s.len();
    while b > a && is_ws_exec(s[b - 1])
        invariant
            a <= b <= s.len(),
            forall|j: int| b <= j < s.len() ==> is_ws(s@[j]),
        decreases b,
    {
        b -= 1;
    }
    proof {
        let t = s@.skip(a as int);
        assert forall|j: int| (b - a) <= j < t.len() implies is_ws(t[j]) by {
            assert(t[j] == s@[j + a]);
        }
        lemma_trim_end_take(t, b - a);
        assert(t.take(b - a) =~= s@.subrange(a as int, b as int));
    }
    slice_copy(s, a, b)
}

// ---------------------------------------------------------------------------
// Lines and splitting
// ---------------------------------------------------------------------------

/// Index of the first `c` in `s`, if any.
pub open spec fn first_index(s: Seq<char>, c: char) -> Option<int>
    decreases s.len(),
{
    if s.len() == 0 {
        None
    } else if s[0] == c {
        Some(0)
    } else {
        match first_index(s.drop_first(), c) {
            Some(i) => Some(i + 1),
            None => None,
        }
    }
}

proof fn lemma_first_index(s: Seq<char>, c: char, i: int)
    requires
        0 <= i <= s.len(),
        forall|j: int| 0 <= j < i ==> s[j] != c,
        i == s.len() || s[i] == c,
    ensures
        first_index(s, c) == (if i == s.len() { None } else { Some(i) }),
    decreases i,
{
    if i > 0 {
        lemma_first_index(s.drop_first(), c, i - 1);
    }
}

/// A line of `str::lines` without its terminator: a final `'\r'` is dropped
/// when the line was ended by a `'\n'`.
pub open spec fn strip_cr(l: Seq<char>) -> Seq<char> {
    if l.len() > 0 && l.last() == '\r' {
        l.drop_last()
    } else {
        l
    }
}

/// The lines of `s`, as `str::lines` yields them.
pub open spec fn lines(s: Seq<char>) -> Seq<Seq<char>>
    decreases s.len(),
{
    if s.len() == 0 {
        Seq::empty()
    } else {
        match first_index(s, '\n') {
            Some(i) => {
                if 0 <= i < s.len() {
                    seq![strip_cr(s.take(i))] + lines(s.skip(i + 1))
                } else {
                    seq![s]
                }
            },
            None => seq![s],
        }
    }
}

proof fn lemma_first_index_bounds(s: Seq<char>, c: char)
    ensures
        match first_index(s, c) {
            Some(i) => 0 <= i < s.len() && s[i] == c && forall|j: int| 0 <= j < i ==> s[j] != c,
            None => forall|j: int| 0 <= j < s.len() ==> s[j] != c,
        },
    decreases s.len(),
{
    if s.len() > 0 {
        lemma_first_index_bounds(s.drop_first(), c);
        if s[0] != c {
            match first_index(s.drop_first(), c) {
                Some(i) => {
                    assert forall|j: int| 0 <= j < i + 1 implies s[j] != c by {
                        if j > 0 {
                            assert(s[j] == s.drop_first()[j - 1]);
                        }
                    }
                },
                None => {
                    assert forall|j: int| 0 <= j < s.len() implies s[j] != c by {
                        if j > 0 {
                            assert(s[j] == s.drop_first()[j - 1]);
                        }
                    }
                },
            }
        }
    }
}

/// `str::lines` on a character slice.
pub fn lines_exec(s: &[char]) -> (r: Vec<Vec<char>>)
    ensures
        r@.len() == lines(s@).len(),
        forall|k: int| 0 <= k < r@.len() ==> #[trigger] r@[k]@ == lines(s@)[k],
{
    let mut r: Vec<Vec<char>> = Vec::new();
    let mut start: usize = 0;
    let mut i: usize = 0;
    assert(s@.skip(0) =~= s@);
    assert(r@.map_values(|v: Vec<char>| v@) + lines(s@) =~= lines(s@));
    while i < s.len()
        invariant
            start <= i <= s.len(),
            forall|j: int| start <= j < i ==> s@[j] != '\n',
            lines(s@) == r@.map_values(|v: Vec<char>| v@) + lines(s@.skip(start as int)),
        decreases s.len() - i,
    {
        if s[i] == '\n' {
            proof {
                let t = s@.skip(start as int);
                lemma_first_index(t, '\n', i - start);
                assert(t.take(i - start) =~= s@.subrange(start as int, i as int));
                assert(t.skip(i - start + 1) =~= s@.skip(i + 1));
            }
            let mut line = slice_copy(s, start, i);
            if line.len() > 0 && line[line.len() - 1] == '\r' {
                line.pop();
            }
            let ghost old_r = r@;
            r.push(line);
            proof {
                assert(r@.map_values(|v: Vec<char>| v@) =~= old_r.map_values(|v: Vec<char>| v@).push(
                    strip_cr(s@.subrange(start as int, i as int)),
                ));
            }
            start = i + 1;
        }
        i += 1;
    }
    if start < s.len() {
        proof {
            let t = s@.skip(start as int);
            lemma_first_index(t, '\n', t.len() as int);
            assert(s@.subrange(start as int, s.len() as int) =~= t);
            assert(lines(t.skip(t.len() as int)) =~= Seq::<Seq<char>>::empty()) by {
                assert(t.skip(t.len() as int).len() == 0);
            }
        }
        let line = slice_copy(s, start, s.len());
        let ghost old_r = r@;
        r.push(line);
        proof {
            assert(r@.map_values(|v: Vec<char>| v@) =~= old_r.map_values(|v: Vec<char>| v@).push(
                s@.skip(start as int),
            ));
        }
    } else {
        assert(s@.skip(start as int).len() == 0);
    }
    proof {
        let m = r@.map_values(|v: Vec<char>| v@);
        assert(lines(s@) =~= m);
        assert forall|k: int| 0 <= k < r@.len() implies #[trigger] r@[k]@ == lines(s@)[k] by {
            assert(m[k] == r@[k]@);
        }
    }
    r
}

/// The pieces of `s` between occurrences of `c` (`str::split` with a `char`).
pub open spec fn split_char(s: Seq<char>, c: char) -> Seq<Seq<char>>
    decreases s.len(),
{
    match first_index(s, c) {
        Some(i) => {
            if 0 <= i < s.len() {
                seq![s.take(i)] + split_char(s.skip(i + 1), c)
            } else {
                seq![s]
            }
        },
        None => seq![s],
    }
}

/// `str::split` with a `char` on a character slice.
pub fn split_char_exec(s: &[char], c: char) -> (r: Vec<Vec<char>>)
    ensures
        r@.len() == split_char(s@, c).len(),
        forall|k: int| 0 <= k < r@.len() ==> #[trigger] r@[k]@ == split_char(s@, c)[k],
{
    let mut r: Vec<Vec<char>> = Vec::new();
    let mut start: usize = 0;
    let mut i: usize = 0;
    assert(s@.skip(0) =~= s@);
    assert(r@.map_values(|v: Vec<char>| v@) + split_char(s@, c) =~= split_char(s@, c));
    while i < s.len()
        invariant
            start <= i <= s.len(),
            forall|j: int| start <= j < i ==> s@[j] != c,
            split_char(s@, c) == r@.map_values(|v: Vec<char>| v@) + split_char(
                s@.skip(start as int),
                c,
            ),
        decreases s.len() - i,
    {
        if s[i] == c {
            proof {
                let t = s@.skip(start as int);
                lemma_first_index(t, c, i - start);
                assert(t.take(i - start) =~= s@.subrange(start as int, i as int));
                assert(t.skip(i - start + 1) =~= s@.skip(i + 1));
            }
            let piece = slice_copy(s, start, i);
            let ghost old_r = r@;
            r.push(piece);
            proof {
                assert(r@.map_values(|v: Vec<char>| v@) =~= old_r.map_values(|v: Vec<char>| v@).push(
                    s@.subrange(start as int, i as int),
                ));
            }
            start = i + 1;
        }
        i += 1;
    }
    proof {
        let t = s@.skip(start as int);
        lemma_first_index(t, c, t.len() as int);
        assert(s@.subrange(start as int, s.len() as int) =~= t);
    }
    let piece = slice_copy(s, start, s.len());
    let ghost old_r = r@;
    r.push(piece);
    proof {
        let m = r@.map_values(|v: Vec<char>| v@);
        assert(m =~= old_r.map_values(|v: Vec<char>| v@).push(s@.skip(start as int)));
        assert(split_char(s@, c) =~= m);
        assert forall|k: int| 0 <= k < r@.len() implies #[trigger] r@[k]@ == split_char(s@, c)[k] by {
            assert(m[k] == r@[k]@);
        }
    }
    r
}

/// The text after the last `c` in `s`, or all of `s` when there is none
/// (`s.split(c).last()`, equally `s.rsplit(c).next()`).
pub open spec fn after_last(s: Seq<char>, c: char) -> Seq<char> {
    split_char(s, c).last()
}

proof fn lemma_first_index_lower(s: Seq<char>, c: char)
    requires
        !(65 <= (c as u32) <= 90),
        !(97 <= (c as u32) <= 122),
    ensures
        first_index(ascii_lowercase(s), c) == first_index(s, c),
    decreases s.len(),
{
    if s.len() > 0 {
        assert(ascii_lowercase(s).drop_first() =~= ascii_lowercase(s.drop_first()));
        lemma_first_index_lower(s.drop_first(), c);
        assert(ascii_lowercase(s)[0] == ascii_lower_char(s[0]));
    }
}

proof fn lemma_split_char_lower(s: Seq<char>, c: char)
    requires
        !(65 <= (c as u32) <= 90),
        !(97 <= (c as u32) <= 122),
    ensures
        split_char(ascii_lowercase(s), c) =~= split_char(s, c).map_values(|p: Seq<char>| ascii_lowercase(p)),
    decreases s.len(),
{
    lemma_first_index_lower(s, c);
    match first_index(s, c) {
        Some(i) => {
            if 0 <= i < s.len() {
                assert(ascii_lowercase(s).take(i) =~= ascii_lowercase(s.take(i)));
                assert(ascii_lowercase(s).skip(i + 1) =~= ascii_lowercase(s.skip(i + 1)));
                lemma_split_char_lower(s.skip(i + 1), c);
                let rest = split_char(s.skip(i + 1), c);
                assert((seq![s.take(i)] + rest).map_values(|p: Seq<char>| ascii_lowercase(p)) =~= seq![
                    ascii_lowercase(s.take(i)),
                ] + rest.map_values(|p: Seq<char>| ascii_lowercase(p)));
            }
        },
        None => {},
    }
}

/// The last `/` piece of the ASCII-lowercased text is the ASCII-lowercased
/// last `/` piece: lowering letters moves no `/`.
pub proof fn lemma_after_last_lower(s: Seq<char>)
    ensures
        after_last(ascii_lowercase(s), '/') == ascii_lowercase(after_last(s, '/')),
{
    lemma_split_char_lower(s, '/');
    lemma_split_char_nonempty(s, '/');
}

proof fn lemma_split_char_ascii(s: Seq<char>, c: char)
    requires
        is_ascii_text(s),
    ensures
        forall|k: int| 0 <= k < split_char(s, c).len() ==> is_ascii_text(#[trigger] split_char(s, c)[k]),
    decreases s.len(),
{
    match first_index(s, c) {
        Some(i) => {
            if 0 <= i < s.len() {
                let rest = s.skip(i + 1);
                assert(is_ascii_text(rest)) by {
                    assert forall|j: int| 0 <= j < rest.len() implies is_ascii_char(#[trigger] rest[j]) by {
                        assert(rest[j] == s[i + 1 + j]);
                    }
                }
                assert(is_ascii_text(s.take(i))) by {
                    assert forall|j: int| 0 <= j < s.take(i).len() implies is_ascii_char(#[trigger] s.take(i)[j]) by {
                        assert(s.take(i)[j] == s[j]);
                    }
                }
                lemma_split_char_ascii(rest, c);
                let all = split_char(s, c);
                assert forall|k: int| 0 <= k < all.len() implies is_ascii_text(#[trigger] all[k]) by {
                    if k > 0 {
                        assert(all[k] == split_char(rest, c)[k - 1]);
                    }
                }
            }
        },
        None => {},
    }
}

/// The text after the last `c` is a suffix of the text.
pub proof fn lemma_after_last_suffix(s: Seq<char>, c: char)
    ensures
        after_last(s, c).len() <= s.len(),
        s.skip(s.len() - after_last(s, c).len()) == after_last(s, c),
    decreases s.len(),
{
    lemma_split_char_nonempty(s, c);
    match first_index(s, c) {
        Some(i) => {
            if 0 <= i < s.len() {
                let rest = s.skip(i + 1);
                lemma_after_last_suffix(rest, c);
                lemma_split_char_nonempty(rest, c);
                let parts = split_char(s, c);
                assert(parts == seq![s.take(i)] + split_char(rest, c));
                assert(parts.last() == split_char(rest, c).last());
                let l = after_last(rest, c).len();
                assert(s.skip(s.len() - l) =~= rest.skip(rest.len() - l));
            } else {
                assert(s.skip(0) =~= s);
            }
        },
        None => {
            assert(s.skip(0) =~= s);
        },
    }
}

/// A name that ends with `n` belongs to a path that ends with `n`.
pub proof fn lemma_name_suffix(s: Seq<char>, n: Seq<char>)
    requires
        finishes(after_last(s, '/'), n),
    ensures
        finishes(s, n),
{
    lemma_after_last_suffix(s, '/');
    let a = after_last(s, '/');
    let k = s.len() - a.len();
    let sl = s.len() as int;
    let al = a.len() as int;
    let nl = n.len() as int;
    assert(s.subrange(sl - nl, sl) =~= a.subrange(al - nl, al)) by {
        assert forall|j: int| 0 <= j < nl implies #[trigger] s.subrange(sl - nl, sl)[j] == a.subrange(al - nl, al)[j] by {
            assert(s[s.len() - n.len() + j] == s.skip(k)[a.len() - n.len() + j]);
        }
    }
}

/// The last piece of an ASCII text is ASCII.
pub proof fn lemma_after_last_ascii(s: Seq<char>)
    requires
        is_ascii_text(s),
    ensures
        is_ascii_text(after_last(s, '/')),
{
    lemma_split_char_ascii(s, '/');
    lemma_split_char_nonempty(s, '/');
}

/// `split_char` always yields at least one piece.
pub proof fn lemma_split_char_nonempty(s: Seq<char>, c: char)
    ensures
        split_char(s, c).len() >= 1,
    decreases s.len(),
{
    match first_index(s, c) {
        Some(i) => {
            if 0 <= i < s.len() {
                lemma_split_char_nonempty(s.skip(i + 1), c);
            }
        },
        None => {},
    }
}

/// The text after the last `c` in `s` (the last piece of `split(c)`).
pub fn after_last_exec(s: &[char], c: char) -> (r: Vec<char>)
    ensures
        r@ == after_last(s@, c),
{
    let mut pieces = split_char_exec(s, c);
    proof {
        lemma_split_char_nonempty(s@, c);
    }
    let last = pieces.pop().unwrap();
    last
}

/// Index of the first occurrence of the text `p` in `s`.
pub open spec fn first_occurrence(s: Seq<char>, p: Seq<char>) -> Option<int>
    decreases s.len(),
{
    if occurs_at(s, p, 0) {
        Some(0)
    } else if s.len() == 0 {
        None
    } else {
        match first_occurrence(s.drop_first(), p) {
            Some(i) => Some(i + 1),
            None => None,
        }
    }
}

proof fn lemma_occurs_shift(s: Seq<char>, p: Seq<char>, j: int)
    requires
        s.len() > 0,
        1 <= j,
    ensures
        occurs_at(s, p, j) == occurs_at(s.drop_first(), p, j - 1),
{
    if 0 <= j - 1 && j - 1 + p.len() <= s.drop_first().len() {
        assert(s.subrange(j, j + p.len()) =~= s.drop_first().subrange(j - 1, j - 1 + p.len()));
    }
}

proof fn lemma_first_occurrence(s: Seq<char>, p: Seq<char>, i: int)
    requires
        0 <= i,
        forall|j: int| 0 <= j < i ==> !occurs_at(s, p, j),
        occurs_at(s, p, i),
    ensures
        first_occurrence(s, p) == Some(i),
    decreases i,
{
    if i > 0 {
        assert(!occurs_at(s, p, 0));
        assert forall|j: int| 0 <= j < i - 1 implies !occurs_at(s.drop_first(), p, j) by {
            lemma_occurs_shift(s, p, j + 1);
        }
        lemma_occurs_shift(s, p, i);
        lemma_first_occurrence(s.drop_first(), p, i - 1);
    }
}

proof fn lemma_no_occurrence(s: Seq<char>, p: Seq<char>)
    requires
        forall|j: int| !occurs_at(s, p, j),
    ensures
        first_occurrence(s, p) is None,
    decreases s.len(),
{
    if s.len() > 0 {
        assert forall|j: int| !occurs_at(s.drop_first(), p, j) by {
            if j >= 0 {
                lemma_occurs_shift(s, p, j + 1);
            }
        }
        lemma_no_occurrence(s.drop_first(), p);
    }
}

/// Index of the first occurrence of the text `p` in `s` (`str::find` with a
/// `&str` pattern, counted in characters).
pub fn find_text(s: &[char], p: &[char]) -> (r: Option<usize>)
    ensures
        match r {
            Some(i) => first_occurrence(s@, p@) == Some(i as int) && occurs_at(s@, p@, i as int),
            None => first_occurrence(s@, p@) is None && !contains_text(s@, p@),
        },
{
    if p.len() > s.len() {
        proof {
            lemma_no_occurrence(s@, p@);
        }
        return None;
    }
    let last = s.len() - p.len();
    let mut i: usize = 0;
    loop
        invariant
            p.len() <= s.len(),
            last == s.len() - p.len(),
            i <= last,
            forall|j: int| 0 <= j < i ==> !occurs_at(s@, p@, j),
        decreases last - i,
    {
        if occurs_at_exec(s, p, i) {
            proof {
                lemma_first_occurrence(s@, p@, i as int);
            }
            return Some(i);
        }
        if i == last {
            proof {
                lemma_no_occurrence(s@, p@);
            }
            return None;
        }
        i += 1;
    }
}

/// The pieces of `s` between the occurrences of the non-empty text `p`
/// (`str::split` with a `&str` pattern).
pub open spec fn split_text(s: Seq<char>, p: Seq<char>) -> Seq<Seq<char>>
    decreases s.len(),
{
    if p.len() == 0 {
        seq![s]
    } else {
        match first_occurrence(s, p) {
            Some(i) => {
                if 0 <= i && i + p.len() <= s.len() {
                    seq![s.take(i)] + split_text(s.skip(i + p.len()), p)
                } else {
                    seq![s]
                }
            },
            None => seq![s],
        }
    }
}

/// The first piece of `split_text(s, p)`: the text before the first `p`.
pub fn text_before(s: &[char], p: &[char]) -> (r: Vec<char>)
    requires
        p@.len() > 0,
    ensures
        r@ == split_text(s@, p@)[0],
{
    match find_text(s, p) {
        Some(i) => slice_copy(s, 0, i),
        None => {
            assert(s@.subrange(0, s@.len() as int) =~= s@);
            slice_copy(s, 0, s.len())
        },
    }
}

/// The second piece of `split_text(s, p)`, when there is one.
pub fn text_piece_after(s: &[char], p: &[char]) -> (r: Option<Vec<char>>)
    requires
        p@.len() > 0,
    ensures
        match r {
            Some(v) => split_text(s@, p@).len() >= 2 && v@ == split_text(s@, p@)[1],
            None => split_text(s@, p@).len() < 2,
        },
{
    match find_text(s, p) {
        Some(i) => {
            assert(occurs_at(s@, p@, i as int));
            assert(i + p@.len() <= s@.len());
            assert(p@.len() == p.len() && s@.len() == s.len());
            let rest = slice_copy(s, i + p.len(), s.len());
            assert(rest@ =~= s@.skip(i + p@.len()));
            let piece = text_before(rest.as_slice(), p);
            proof {
                let t = s@.skip(i + p@.len());
                let tail = split_text(t, p@);
                assert(tail.len() >= 1) by {
                    reveal_with_fuel(split_text, 2);
                }
            }
            Some(piece)
        },
        None => None,
    }
}

/// `str::splitn(2, c)`: the text before the first `c` and the text after it,
/// or the whole text alone.
pub open spec fn split_once_char(s: Seq<char>, c: char) -> Seq<Seq<char>> {
    match first_index(s, c) {
        Some(i) => seq![s.take(i), s.skip(i + 1)],
        None => seq![s],
    }
}

/// `str::splitn(2, c)` on a character slice.
pub fn split_once_char_exec(s: &[char], c: char) -> (r: Vec<Vec<char>>)
    ensures
        r@.len() == split_once_char(s@, c).len(),
        forall|k: int| 0 <= k < r@.len() ==> #[trigger] r@[k]@ == split_once_char(s@, c)[k],
{
    let mut r: Vec<Vec<char>> = Vec::new();
    match find_char(s, c) {
        Some(i) => {
            proof {
                lemma_first_index(s@, c, i as int);
            }
            assert(s@.len() == s.len());
            r.push(slice_copy(s, 0, i));
            r.push(slice_copy(s, i + 1, s.len()));
            assert(s@.subrange(i + 1, s@.len() as int) =~= s@.skip(i + 1));
        },
        None => {
            proof {
                lemma_first_index(s@, c, s@.len() as int);
            }
            r.push(slice_copy(s, 0, s.len()));
            assert(s@.subrange(0, s@.len() as int) =~= s@);
        },
    }
    r
}

/// The words of `s`: maximal runs of non-whitespace (`str::split_whitespace`).
pub open spec fn words(s: Seq<char>) -> Seq<Seq<char>>
    decreases s.len(), s.len() + 1,
{
    if s.len() == 0 {
        Seq::empty()
    } else if is_ws(s[0]) {
        words(s.drop_first())
    } else {
        word_then(s, 0)
    }
}

/// Helper of `words`: `s[..k]` is part of the current word.
pub open spec fn word_then(s: Seq<char>, k: int) -> Seq<Seq<char>>
    decreases s.len(), s.len() - k,
{
    if k < 0 || k >= s.len() {
        seq![s]
    } else if is_ws(s[k]) {
        seq![s.take(k)] + words(s.skip(k + 1))
    } else {
        word_then(s, k + 1)
    }
}

/// `str::split_whitespace` on a character slice.
pub fn words_exec(s: &[char]) -> (r: Vec<Vec<char>>)
    ensures
        r@.len() == words(s@).len(),
        forall|k: int| 0 <= k < r@.len() ==> #[trigger] r@[k]@ == words(s@)[k],
{
    let mut r: Vec<Vec<char>> = Vec::new();
    let mut i: usize = 0;
    assert(s@.skip(0) =~= s@);
    assert(r@.map_values(|v: Vec<char>| v@) + words(s@) =~= words(s@));
    while i < s.len()
        invariant
            i <= s.len(),
            words(s@) == r@.map_values(|v: Vec<char>| v@) + words(s@.skip(i as int)),
        decreases s.len() - i,
    {
        if is_ws_exec(s[i]) {
            assert(s@.skip(i as int).drop_first() =~= s@.skip(i + 1));
            i += 1;
        } else {
            let start = i;
            let ghost t = s@.skip(start as int);
            while i < s.len() && !is_ws_exec(s[i])
                invariant
                    start <= i <= s.len(),
                    t == s@.skip(start as int),
                    forall|j: int| start <= j < i ==> !is_ws(s@[j]),
                    word_then(t, 0) == word_then(t, i - start),
                decreases s.len() - i,
            {
                i += 1;
            }
            let word = slice_copy(s, start, i);
            let ghost old_r = r@;
            r.push(word);
            proof {
                assert(r@.map_values(|v: Vec<char>| v@) =~= old_r.map_values(|v: Vec<char>| v@).push(
                    s@.subrange(start as int, i as int),
                ));
                assert(t.take(i - start) =~= s@.subrange(start as int, i as int));
                if i < s.len() {
                    assert(t.skip(i - start + 1) =~= s@.skip(i + 1));
                    assert(s@.skip(i as int).drop_first() =~= s@.skip(i + 1));
                    assert(words(s@.skip(i as int)) == words(s@.skip(i + 1)));
                } else {
                    assert(t =~= t.take(i - start));
                    assert(s@.skip(i as int).len() == 0);
                }
            }
        }
    }
    proof {
        let m = r@.map_values(|v: Vec<char>| v@);
        assert(s@.skip(i as int).len() == 0);
        assert(words(s@) =~= m);
        assert forall|k: int| 0 <= k < r@.len() implies #[trigger] r@[k]@ == words(s@)[k] by {
            assert(m[k] == r@[k]@);
        }
    }
    r
}

// ---------------------------------------------------------------------------
// Numbers
// ---------------------------------------------------------------------------

/// The decimal digit character for `d < 10`.
pub open spec fn digit_char(d: nat) -> char {
    ((48 + d) as u8) as char
}

/// The decimal representation of `n`, as `{}` formats an unsigned integer.
pub open spec fn decimal(n: nat) -> Seq<char>
    decreases n,
{
    if n < 10 {
        seq![digit_char(n)]
    } else {
        decimal(n / 10).push(digit_char(n % 10))
    }
}

/// The decimal digits of `n`.
pub fn decimal_exec(n: u64) -> (r: Vec<char>)
    ensures
        r@ == decimal(n as nat),
    decreases n,
{
    let d = (n % 10) as u8;
    let c = (48u8 + d) as char;
    if n < 10 {
        let mut v: Vec<char> = Vec::new();
        v.push(c);
        assert(v@ =~= seq![c]);
        v
    } else {
        let mut v = decimal_exec(n / 10);
        v.push(c);
        v
    }
}

// ---------------------------------------------------------------------------
// Owned strings
// ---------------------------------------------------------------------------

/// The views of a sequence of strings.
pub open spec fn views(v: Seq<String>) -> Seq<Seq<char>> {
    v.map_values(|s: String| s@)
}

/// An owned copy of `s`.
pub fn owned(s: &str) -> (r: String)
    ensures
        r@ == s@,
{
    s.to_owned()
}

/// Whether `list` holds a string equal to `s`.
pub fn holds_string(list: &Vec<String>, s: &String) -> (r: bool)
    ensures
        r == views(list@).contains(s@),
{
    let mut i: usize = 0;
    while i < list.len()
        invariant
            i <= list.len(),
            forall|j: int| 0 <= j < i ==> list@[j]@ != s@,
        decreases list.len() - i,
    {
        if list[i] == *s {
            assert(views(list@)[i as int] == s@);
            return true;
        }
        i += 1;
    }
    proof {
        if views(list@).contains(s@) {
            let j = choose|j: int| 0 <= j < views(list@).len() && views(list@)[j] == s@;
            assert(list@[j]@ == s@);
        }
    }
    false
}

/// `first_index` in terms of a known position of the first `c`.
pub proof fn lemma_first_index_is(s: Seq<char>, c: char, i: int)
    requires
        0 <= i <= s.len(),
        forall|j: int| 0 <= j < i ==> s[j] != c,
        i == s.len() || s[i] == c,
    ensures
        first_index(s, c) == (if i == s.len() { None } else { Some(i) }),
{
    lemma_first_index(s, c, i);
}

/// When `c` occurs in `s`, `first_index` finds it.
pub proof fn lemma_contains_first_index(s: Seq<char>, c: char)
    requires
        contains_text(s, seq![c]),
    ensures
        first_index(s, c) is Some,
{
    let i = choose|i: int| occurs_at(s, seq![c], i);
    assert(s[i] == s.subrange(i, i + 1)[0]);
    lemma_first_index_bounds(s, c);
}

/// When `p` occurs in `s`, `split_text` yields at least two pieces.
pub proof fn lemma_split_text_two(s: Seq<char>, p: Seq<char>)
    requires
        p.len() > 0,
        contains_text(s, p),
    ensures
        split_text(s, p).len() >= 2,
{
    let i = choose|i: int| occurs_at(s, p, i);
    lemma_occurrence_some(s, p, i);
    match first_occurrence(s, p) {
        Some(j) => {
            lemma_first_occurrence_bounds(s, p);
            assert(split_text(s.skip(j + p.len()), p).len() >= 1) by {
                reveal_with_fuel(split_text, 1);
                lemma_split_text_nonempty(s.skip(j + p.len()), p);
            }
        },
        None => {},
    }
}

proof fn lemma_split_text_nonempty(s: Seq<char>, p: Seq<char>)
    ensures
        split_text(s, p).len() >= 1,
    decreases s.len(),
{
    if p.len() > 0 {
        match first_occurrence(s, p) {
            Some(i) => {
                if 0 <= i && i + p.len() <= s.len() {
                    lemma_split_text_nonempty(s.skip(i + p.len()), p);
                }
            },
            None => {},
        }
    }
}

proof fn lemma_occurrence_some(s: Seq<char>, p: Seq<char>, i: int)
    requires
        occurs_at(s, p, i),
    ensures
        first_occurrence(s, p) is Some,
    decreases s.len(),
{
    if !occurs_at(s, p, 0) && s.len() > 0 {
        if i >= 1 {
            lemma_occurs_shift(s, p, i);
            lemma_occurrence_some(s.drop_first(), p, i - 1);
        }
    }
}

proof fn lemma_first_occurrence_bounds(s: Seq<char>, p: Seq<char>)
    ensures
        first_occurrence(s, p) matches Some(j) ==> occurs_at(s, p, j),
    decreases s.len(),
{
    if !occurs_at(s, p, 0) && s.len() > 0 {
        lemma_first_occurrence_bounds(s.drop_first(), p);
        match first_occurrence(s.drop_first(), p) {
            Some(j) => {
                lemma_occurs_shift(s, p, j + 1);
            },
            None => {},
        }
    }
}

// ---------------------------------------------------------------------------
// Order
// ---------------------------------------------------------------------------

/// `a` sorts strictly before `b` in the order of `String`'s `Ord` (character
/// by character, a proper prefix first).
pub open spec fn lex_lt(a: Seq<char>, b: Seq<char>) -> bool
    decreases a.len(),
{
    if a.len() == 0 {
        b.len() > 0
    } else if b.len() == 0 {
        false
    } else if a[0] < b[0] {
        true
    } else if a[0] > b[0] {
        false
    } else {
        lex_lt(a.drop_first(), b.drop_first())
    }
}

/// `lex_lt` is irreflexive.
pub proof fn lemma_lex_irreflexive(a: Seq<char>)
    ensures
        !lex_lt(a, a),
    decreases a.len(),
{
    if a.len() > 0 {
        lemma_lex_irreflexive(a.drop_first());
    }
}

/// `lex_lt` is transitive.
pub proof fn lemma_lex_transitive(a: Seq<char>, b: Seq<char>, c: Seq<char>)
    requires
        lex_lt(a, b),
        lex_lt(b, c),
    ensures
        lex_lt(a, c),
    decreases a.len(),
{
    if a.len() > 0 && b.len() > 0 && c.len() > 0 && a[0] == b[0] && b[0] == c[0] {
        lemma_lex_transitive(a.drop_first(), b.drop_first(), c.drop_first());
    }
}

/// Any two different texts are ordered one way.
pub proof fn lemma_lex_total(a: Seq<char>, b: Seq<char>)
    requires
        a != b,
    ensures
        lex_lt(a, b) || lex_lt(b, a),
    decreases a.len(),
{
    if a.len() > 0 && b.len() > 0 && a[0] == b[0] {
        if a.drop_first() == b.drop_first() {
            assert(a =~= seq![a[0]] + a.drop_first());
            assert(b =~= seq![b[0]] + b.drop_first());
        }
        lemma_lex_total(a.drop_first(), b.drop_first());
    } else if a.len() == 0 && b.len() == 0 {
        assert(a =~= b);
    }
}

/// `lex_lt` is asymmetric.
pub proof fn lemma_lex_asymmetric(a: Seq<char>, b: Seq<char>)
    requires
        lex_lt(a, b),
    ensures
        !lex_lt(b, a),
    decreases a.len(),
{
    if a.len() > 0 && b.len() > 0 && a[0] == b[0] {
        lemma_lex_asymmetric(a.drop_first(), b.drop_first());
    }
}

/// Whether `a` sorts strictly before `b`.
pub fn lex_lt_exec(a: &[char], b: &[char]) -> (r: bool)
    ensures
        r == lex_lt(a@, b@),
{
    let mut i: usize = 0;
    assert(a@.skip(0) =~= a@);
    assert(b@.skip(0) =~= b@);
    while i < a.len() && i < b.len()
        invariant
            i <= a.len(),
            i <= b.len(),
            forall|j: int| 0 <= j < i ==> a@[j] == b@[j],
            lex_lt(a@, b@) == lex_lt(a@.skip(i as int), b@.skip(i as int)),
        decreases a.len() - i,
    {
        assert(a@.skip(i as int).drop_first() =~= a@.skip(i + 1));
        assert(b@.skip(i as int).drop_first() =~= b@.skip(i + 1));
        if a[i] < b[i] {
            return true;
        }
        if a[i] > b[i] {
            return false;
        }
        i += 1;
    }
    i < b.len()
}

} // verus!
