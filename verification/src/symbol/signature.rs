//! Signatures, parameter lists and brace blocks cut out of source text.

use vstd::prelude::*;
use vstd::utf8::*;
use crate::map::schema::{opt_text, parameter_views, Parameter, ParameterView};
use crate::matching::{at_boundary, byte_prefix, byte_suffix, split_at_byte};
use crate::paths::{last_index, last_index_exec};
use crate::text::{
    chars_of, find_char, first_index, lemma_first_index_is, lemma_split_char_nonempty, slice_copy,
    split_char, split_char_exec, split_text, str_same, string_of, text_piece_after, trim,
    trim_exec,
};

verus! {

broadcast use {encode_utf8_valid_utf8, is_char_boundary_start_end_of_seq};

// ---------------------------------------------------------------------------
// Signatures
// ---------------------------------------------------------------------------

/// Index of the first character of `s` that is one of `stops`.
pub open spec fn first_of(s: Seq<char>, stops: Seq<char>) -> Option<int>
    decreases s.len(),
{
    if s.len() == 0 {
        None
    } else if stops.contains(s[0]) {
        Some(0)
    } else {
        match first_of(s.drop_first(), stops) {
            Some(i) => Some(i + 1),
            None => None,
        }
    }
}

proof fn lemma_first_of(s: Seq<char>, stops: Seq<char>, i: int)
    requires
        0 <= i <= s.len(),
        forall|j: int| 0 <= j < i ==> !stops.contains(#[trigger] s[j]),
        i == s.len() || stops.contains(s[i]),
    ensures
        first_of(s, stops) == (if i == s.len() { None } else { Some(i) }),
    decreases i,
{
    if i > 0 {
        assert forall|j: int| 0 <= j < i - 1 implies !stops.contains(#[trigger] s.drop_first()[j]) by {
            assert(s.drop_first()[j] == s[j + 1]);
        }
        if i < s.len() {
            assert(s.drop_first()[i - 1] == s[i]);
        }
        lemma_first_of(s.drop_first(), stops, i - 1);
    }
}

/// Whether `c` is one of `stops`.
fn is_one_of(c: char, stops: &[char]) -> (r: bool)
    ensures
        r == stops@.contains(c),
{
    let mut i: usize = 0;
    while i < stops.len()
        invariant
            i <= stops.len(),
            forall|j: int| 0 <= j < i ==> stops@[j] != c,
        decreases stops.len() - i,
    {
        if stops[i] == c {
            assert(stops@[i as int] == c);
            return true;
        }
        i += 1;
    }
    false
}

/// Index of the first character of `s` that is one of `stops`.
pub fn first_of_exec(s: &[char], stops: &[char]) -> (r: Option<usize>)
    ensures
        match r {
            Some(i) => first_of(s@, stops@) == Some(i as int) && i < s@.len(),
            None => first_of(s@, stops@) is None,
        },
{
    let mut i: usize = 0;
    while i < s.len()
        invariant
            i <= s.len(),
            forall|j: int| 0 <= j < i ==> !stops@.contains(#[trigger] s@[j]),
        decreases s.len() - i,
    {
        if is_one_of(s[i], stops) {
            proof {
                lemma_first_of(s@, stops@, i as int);
            }
            return Some(i);
        }
        i += 1;
    }
    proof {
        lemma_first_of(s@, stops@, s@.len() as int);
    }
    None
}

/// Where a signature ends when no stop character follows: at most 200 bytes.
pub open spec fn signature_limit(rest: Seq<char>) -> int {
    if encode_utf8(rest).len() < 200 {
        encode_utf8(rest).len() as int
    } else {
        200
    }
}

/// Cutting a signature at the byte offset `b` stays on character boundaries:
/// a stop character follows, or the 200-byte limit falls between characters.
pub open spec fn signature_cut_ok(s: Seq<char>, b: int, stops: Seq<char>) -> bool {
    let rest = byte_suffix(s, b);
    first_of(rest, stops) is Some || is_char_boundary(encode_utf8(rest), signature_limit(rest))
}

/// The signature that starts at byte offset `b` of `s`: the text up to the
/// first stop character (or the first 200 bytes when none follows), trimmed.
pub open spec fn signature_text(s: Seq<char>, b: int, stops: Seq<char>) -> Seq<char> {
    let rest = byte_suffix(s, b);
    match first_of(rest, stops) {
        Some(k) => trim(rest.take(k)),
        None => trim(byte_prefix(rest, signature_limit(rest))),
    }
}

/// The stop characters of a Rust signature.
pub open spec fn rust_stops() -> Seq<char> {
    seq!['{', ';']
}

/// The stop characters of a Python signature.
pub open spec fn python_stops() -> Seq<char> {
    seq![':']
}

/// Cuts the signature that starts at byte offset `start` of `content`.
pub fn cut_signature(content: &str, start: usize, stops: &[char]) -> (r: String)
    requires
        at_boundary(content@, start as int),
        signature_cut_ok(content@, start as int, stops@),
    ensures
        r@ == signature_text(content@, start as int, stops@),
{
    let (_pre, rest) = split_at_byte(content, start);
    let cs = chars_of(rest);
    match first_of_exec(cs.as_slice(), stops) {
        Some(k) => {
            let piece = slice_copy(cs.as_slice(), 0, k);
            assert(piece@ =~= rest@.take(k as int));
            let t = trim_exec(piece.as_slice());
            string_of(t.as_slice())
        },
        None => {
            let n = rest.as_bytes().len();
            let lim: usize = if n < 200 {
                n
            } else {
                200
            };
            assert(at_boundary(rest@, lim as int));
            let (head, _tail) = split_at_byte(rest, lim);
            let hc = chars_of(head);
            let t = trim_exec(hc.as_slice());
            string_of(t.as_slice())
        },
    }
}

/// Whether the signature at byte offset `start` can be cut out.
pub fn signature_cut_ok_exec(content: &str, start: usize, stops: &[char]) -> (r: bool)
    requires
        at_boundary(content@, start as int),
    ensures
        r == signature_cut_ok(content@, start as int, stops@),
{
    let (_pre, rest) = split_at_byte(content, start);
    let cs = chars_of(rest);
    match first_of_exec(cs.as_slice(), stops) {
        Some(_) => true,
        None => {
            let n = rest.as_bytes().len();
            let lim: usize = if n < 200 {
                n
            } else {
                200
            };
            rest.is_char_boundary(lim)
        },
    }
}

/// The Rust signature that starts at byte offset `start`: up to the first `{`
/// or `;`, trimmed.
pub fn extract_rust_fn_signature(content: &str, start: usize) -> (r: String)
    requires
        at_boundary(content@, start as int),
        signature_cut_ok(content@, start as int, rust_stops()),
    ensures
        r@ == signature_text(content@, start as int, rust_stops()),
{
    let stops = vec!['{', ';'];
    assert(stops@ =~= rust_stops());
    cut_signature(content, start, stops.as_slice())
}

/// The Python signature that starts at byte offset `start`: up to the first
/// `:`, trimmed.
pub fn extract_python_fn_signature(content: &str, start: usize) -> (r: String)
    requires
        at_boundary(content@, start as int),
        signature_cut_ok(content@, start as int, python_stops()),
    ensures
        r@ == signature_text(content@, start as int, python_stops()),
{
    let stops = vec![':'];
    assert(stops@ =~= python_stops());
    cut_signature(content, start, stops.as_slice())
}

// ---------------------------------------------------------------------------
// Parameter lists
// ---------------------------------------------------------------------------

/// Where the parameter text starts: after the first `(`, or at the second
/// character when there is none.
pub open spec fn params_start(s: Seq<char>) -> int {
    match first_index(s, '(') {
        Some(i) => i + 1,
        None => 1,
    }
}

/// Where the parameter text ends: at the last `)`, or at the end.
pub open spec fn params_end(s: Seq<char>) -> int {
    match last_index(s, ')') {
        Some(j) => j,
        None => s.len() as int,
    }
}

/// The parameter text can be cut out: it does not end before it starts, and
/// without a `(` the first character is a single byte.
pub open spec fn params_window_ok(s: Seq<char>) -> bool {
    &&& params_start(s) <= params_end(s)
    &&& first_index(s, '(') is None ==> s.len() >= 1 && (s[0] as u32) < 128
}

/// The text between the parentheses of a signature.
pub open spec fn params_text(s: Seq<char>) -> Seq<char> {
    s.subrange(params_start(s), params_end(s))
}

/// A Rust parameter `name: Type`.
pub open spec fn rust_param(p: Seq<char>) -> ParameterView {
    let parts = split_char(trim(p), ':');
    ParameterView {
        name: trim(parts[0]),
        type_annotation: if parts.len() >= 2 {
            Some(trim(parts[1]))
        } else {
            None
        },
        default_value: None,
    }
}

/// The Rust parameters of the comma-separated pieces: blank pieces are skipped.
pub open spec fn rust_params(pieces: Seq<Seq<char>>) -> Seq<ParameterView>
    decreases pieces.len(),
{
    if pieces.len() == 0 {
        Seq::empty()
    } else {
        let front = rust_params(pieces.drop_last());
        if trim(pieces.last()).len() > 0 {
            front.push(rust_param(pieces.last()))
        } else {
            front
        }
    }
}

/// The return type of a Rust signature: the text after the first `->` that
/// follows the last `)`, up to a further `->`, trimmed.
pub open spec fn rust_return(s: Seq<char>) -> Option<Seq<char>> {
    match last_index(s, ')') {
        Some(j) => {
            let parts = split_text(s.skip(j + 1), "->"@);
            if parts.len() >= 2 {
                Some(trim(parts[1]))
            } else {
                None
            }
        },
        None => None,
    }
}

/// A Python parameter `name: Type = default`.
pub open spec fn python_param(p: Seq<char>) -> ParameterView {
    let parts = split_char(trim(p), '=');
    let nt = split_char(parts[0], ':');
    ParameterView {
        name: trim(nt[0]),
        type_annotation: if nt.len() >= 2 {
            Some(trim(nt[1]))
        } else {
            None
        },
        default_value: if parts.len() >= 2 {
            Some(trim(parts[1]))
        } else {
            None
        },
    }
}

/// A Python parameter piece is kept unless it is blank or `self`.
pub open spec fn python_keeps(p: Seq<char>) -> bool {
    trim(p).len() > 0 && trim(p) != "self"@
}

/// The Python parameters of the comma-separated pieces.
pub open spec fn python_params(pieces: Seq<Seq<char>>) -> Seq<ParameterView>
    decreases pieces.len(),
{
    if pieces.len() == 0 {
        Seq::empty()
    } else {
        let front = python_params(pieces.drop_last());
        if python_keeps(pieces.last()) {
            front.push(python_param(pieces.last()))
        } else {
            front
        }
    }
}

/// The parameter text of `s`, cut at the window bounds.
fn params_chars(s: &[char]) -> (r: Vec<char>)
    requires
        params_window_ok(s@),
    ensures
        r@ == params_text(s@),
{
    let n = s.len();
    let a: usize = match find_char(s, '(') {
        Some(i) => {
            proof {
                lemma_first_index_is(s@, '(', i as int);
            }
            i + 1
        },
        None => {
            proof {
                lemma_first_index_is(s@, '(', s@.len() as int);
            }
            1
        },
    };
    let b: usize = match last_index_exec(s, ')') {
        Some(j) => j,
        None => s.len(),
    };
    slice_copy(s, a, b)
}

/// Whether the parameter text of `signature` can be cut out.
pub fn params_window_ok_exec(signature: &str) -> (r: bool)
    ensures
        r == params_window_ok(signature@),
{
    let s = chars_of(signature);
    let n = s.len();
    let found = find_char(s.as_slice(), '(');
    let a: usize = match found {
        Some(i) => {
            proof {
                lemma_first_index_is(s@, '(', i as int);
            }
            i + 1
        },
        None => {
            proof {
                lemma_first_index_is(s@, '(', s@.len() as int);
            }
            1
        },
    };
    let b: usize = match last_index_exec(s.as_slice(), ')') {
        Some(j) => j,
        None => n,
    };
    if a > b {
        return false;
    }
    match found {
        Some(_) => true,
        None => n >= 1 && (s[0] as u32) < 128,
    }
}

/// The string of the trimmed characters `s`.
fn trimmed_string(s: &[char]) -> (r: String)
    ensures
        r@ == trim(s@),
{
    let t = trim_exec(s);
    string_of(t.as_slice())
}

/// Parses the parameters and the return type of a Rust signature.
pub fn parse_rust_fn_params_return(signature: &str) -> (r: (Vec<Parameter>, Option<String>))
    requires
        params_window_ok(signature@),
    ensures
        parameter_views(r.0@) == rust_params(split_char(params_text(signature@), ',')),
        opt_text(r.1) == rust_return(signature@),
{
    let s = chars_of(signature);
    let text = params_chars(s.as_slice());
    let pieces = split_char_exec(text.as_slice(), ',');
    let ghost pv = split_char(text@, ',');
    let mut params: Vec<Parameter> = Vec::new();
    let mut i: usize = 0;
    while i < pieces.len()
        invariant
            i <= pieces@.len() == pv.len(),
            forall|k: int| 0 <= k < pieces@.len() ==> #[trigger] pieces@[k]@ == pv[k],
            parameter_views(params@) == rust_params(pv.take(i as int)),
        decreases pieces.len() - i,
    {
        let t = trim_exec(pieces[i].as_slice());
        let ghost old_params = params@;
        if t.len() > 0 {
            let parts = split_char_exec(t.as_slice(), ':');
            proof {
                lemma_split_char_nonempty(t@, ':');
            }
            let name = trimmed_string(parts[0].as_slice());
            let ty = if parts.len() >= 2 {
                Some(trimmed_string(parts[1].as_slice()))
            } else {
                None
            };
            params.push(Parameter { name, type_annotation: ty, default_value: None });
            assert(parameter_views(params@) =~= parameter_views(old_params).push(
                rust_param(pv[i as int]),
            ));
        }
        assert(pv.take(i + 1).drop_last() =~= pv.take(i as int));
        i += 1;
    }
    assert(pv.take(pv.len() as int) =~= pv);
    let ret = match last_index_exec(s.as_slice(), ')') {
        Some(j) => {
            let n = s.len();
            let rest = slice_copy(s.as_slice(), j + 1, n);
            assert(rest@ =~= signature@.skip(j + 1));
            let arrow = chars_of("->");
            proof {
                reveal_strlit("->");
            }
            match text_piece_after(rest.as_slice(), arrow.as_slice()) {
                Some(v) => Some(trimmed_string(v.as_slice())),
                None => None,
            }
        },
        None => None,
    };
    (params, ret)
}

/// Parses the parameters of a Python signature, leaving out `self`.
pub fn parse_python_fn_params(signature: &str) -> (r: Vec<Parameter>)
    requires
        params_window_ok(signature@),
    ensures
        parameter_views(r@) == python_params(split_char(params_text(signature@), ',')),
{
    let s = chars_of(signature);
    let text = params_chars(s.as_slice());
    let pieces = split_char_exec(text.as_slice(), ',');
    let ghost pv = split_char(text@, ',');
    let mut params: Vec<Parameter> = Vec::new();
    let mut i: usize = 0;
    while i < pieces.len()
        invariant
            i <= pieces@.len() == pv.len(),
            forall|k: int| 0 <= k < pieces@.len() ==> #[trigger] pieces@[k]@ == pv[k],
            parameter_views(params@) == python_params(pv.take(i as int)),
        decreases pieces.len() - i,
    {
        let t = trim_exec(pieces[i].as_slice());
        let ghost old_params = params@;
        if t.len() > 0 && !str_same(t.as_slice(), "self") {
            let parts = split_char_exec(t.as_slice(), '=');
            proof {
                lemma_split_char_nonempty(t@, '=');
            }
            let nt = split_char_exec(parts[0].as_slice(), ':');
            proof {
                lemma_split_char_nonempty(parts@[0]@, ':');
            }
            let name = trimmed_string(nt[0].as_slice());
            let ty = if nt.len() >= 2 {
                Some(trimmed_string(nt[1].as_slice()))
            } else {
                None
            };
            let dv = if parts.len() >= 2 {
                Some(trimmed_string(parts[1].as_slice()))
            } else {
                None
            };
            params.push(Parameter { name, type_annotation: ty, default_value: dv });
            assert(parameter_views(params@) =~= parameter_views(old_params).push(
                python_param(pv[i as int]),
            ));
        }
        assert(pv.take(i + 1).drop_last() =~= pv.take(i as int));
        i += 1;
    }
    assert(pv.take(pv.len() as int) =~= pv);
    params
}

// ---------------------------------------------------------------------------
// Brace blocks
// ---------------------------------------------------------------------------

/// Scans `s` from index `i` at brace depth `depth`; `open` is where the
/// current outermost block's text starts. The first `}` that brings the depth
/// back to zero, with a block opened, ends the block.
pub open spec fn brace_scan(s: Seq<char>, i: int, depth: int, open: Option<int>) -> Option<(int, int)>
    decreases s.len() - i,
{
    if i < 0 || i >= s.len() {
        None
    } else if s[i] == '{' {
        brace_scan(
            s,
            i + 1,
            depth + 1,
            if depth == 0 {
                Some(i + 1)
            } else {
                open
            },
        )
    } else if s[i] == '}' {
        if depth - 1 == 0 && open is Some {
            Some((open->0, i))
        } else {
            brace_scan(s, i + 1, depth - 1, open)
        }
    } else {
        brace_scan(s, i + 1, depth, open)
    }
}

/// The first brace block of `s`: where its text starts and ends.
pub open spec fn brace_block(s: Seq<char>) -> Option<(int, int)> {
    brace_scan(s, 0, 0, None)
}

/// Shifts an optional position by `d`.
pub open spec fn shift_open(o: Option<usize>, d: int) -> Option<int> {
    match o {
        Some(x) => Some(x - d),
        None => None,
    }
}

/// The first brace block of `content` from index `start` on, as absolute
/// indices of the text between its braces.
pub fn find_brace_block(content: &[char], start: usize) -> (r: Option<(usize, usize)>)
    requires
        start <= content@.len(),
    ensures
        match brace_block(content@.skip(start as int)) {
            Some(p) => r matches Some(q) && q.0 == p.0 + start && q.1 == p.1 + start && start
                <= q.0 <= q.1 <= content@.len(),
            None => r is None,
        },
{
    let ghost t = content@.skip(start as int);
    let mut i: usize = start;
    let mut opens: usize = 0;
    let mut closes: usize = 0;
    let mut open: Option<usize> = None;
    while i < content.len()
        invariant
            start <= i <= content@.len(),
            t == content@.skip(start as int),
            opens + closes <= i - start,
            open matches Some(o) ==> start < o <= i,
            brace_block(t) == brace_scan(
                t,
                i - start,
                opens - closes,
                shift_open(open, start as int),
            ),
        decreases content.len() - i,
    {
        assert(t[i - start] == content@[i as int]);
        if content[i] == '{' {
            if opens == closes {
                open = Some(i + 1);
            }
            opens += 1;
        } else if content[i] == '}' {
            if opens == closes + 1 {
                if let Some(o) = open {
                    return Some((o, i));
                }
            }
            closes += 1;
        }
        i += 1;
    }
    None
}

} // verus!
