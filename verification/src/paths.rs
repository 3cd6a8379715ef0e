//! File-name parts of `/`-separated paths, as `std::path::Path` reads them on
//! Unix: components are the non-empty pieces between `/`, a `.` piece is not a
//! component of its own, and `..` names the parent.

use vstd::prelude::*;
use crate::text::{split_char, split_char_exec, rfind_char, slice_copy};

verus! {

/// A piece of a path that can be a file name: neither empty nor `.`.
pub open spec fn is_named_piece(s: Seq<char>) -> bool {
    s.len() > 0 && s != seq!['.']
}

/// The last piece of `pieces` that can be a file name.
pub open spec fn last_named_piece(pieces: Seq<Seq<char>>) -> Option<Seq<char>>
    decreases pieces.len(),
{
    if pieces.len() == 0 {
        None
    } else if is_named_piece(pieces.last()) {
        Some(pieces.last())
    } else {
        last_named_piece(pieces.drop_last())
    }
}

/// `Path::file_name`: the last component, unless it is `..` (or there is none).
pub open spec fn file_name(p: Seq<char>) -> Option<Seq<char>> {
    match last_named_piece(split_char(p, '/')) {
        Some(n) => if n == seq!['.', '.'] { None } else { Some(n) },
        None => None,
    }
}

/// Index of the last `c` in `s`.
pub open spec fn last_index(s: Seq<char>, c: char) -> Option<int>
    decreases s.len(),
{
    if s.len() == 0 {
        None
    } else if s.last() == c {
        Some(s.len() - 1)
    } else {
        last_index(s.drop_last(), c)
    }
}

/// `Path::extension`: the text after the last `.` of the file name, when that
/// `.` is not its first character.
pub open spec fn extension(p: Seq<char>) -> Option<Seq<char>> {
    match file_name(p) {
        Some(n) => match last_index(n, '.') {
            Some(i) => if i > 0 { Some(n.skip(i + 1)) } else { None },
            None => None,
        },
        None => None,
    }
}

/// `Path::file_stem`: the file name without its extension.
pub open spec fn file_stem(p: Seq<char>) -> Option<Seq<char>> {
    match file_name(p) {
        Some(n) => match last_index(n, '.') {
            Some(i) => if i > 0 { Some(n.take(i)) } else { Some(n) },
            None => Some(n),
        },
        None => None,
    }
}

proof fn lemma_last_index(s: Seq<char>, c: char, i: int)
    requires
        -1 <= i < s.len(),
        forall|j: int| i < j < s.len() ==> s[j] != c,
        i >= 0 ==> s[i] == c,
    ensures
        last_index(s, c) == (if i < 0 { None } else { Some(i) }),
    decreases s.len(),
{
    if s.len() > 0 && i < s.len() - 1 {
        lemma_last_index(s.drop_last(), c, i);
    }
}

/// Index of the last `c` in `s`.
pub fn last_index_exec(s: &[char], c: char) -> (r: Option<usize>)
    ensures
        match r {
            Some(i) => last_index(s@, c) == Some(i as int) && i < s@.len(),
            None => last_index(s@, c) is None,
        },
{
    let r = rfind_char(s, c);
    proof {
        match r {
            Some(i) => lemma_last_index(s@, c, i as int),
            None => lemma_last_index(s@, c, -1),
        }
    }
    r
}

/// Whether `s` is a piece that can be a file name.
fn is_named_piece_exec(s: &[char]) -> (r: bool)
    ensures
        r == is_named_piece(s@),
{
    if s.len() == 0 {
        return false;
    }
    if s.len() == 1 && s[0] == '.' {
        assert(s@ =~= seq!['.']);
        return false;
    }
    assert(s@.len() != 1 || s@[0] != '.');
    true
}

/// `Path::file_name` of a `/`-separated path.
pub fn file_name_exec(p: &[char]) -> (r: Option<Vec<char>>)
    ensures
        match r {
            Some(v) => file_name(p@) == Some(v@),
            None => file_name(p@) is None,
        },
{
    let mut pieces = split_char_exec(p, '/');
    let ghost all = split_char(p@, '/');
    assert(pieces@.map_values(|v: Vec<char>| v@) =~= all);
    while pieces.len() > 0
        invariant
            all == split_char(p@, '/'),
            last_named_piece(all) == last_named_piece(pieces@.map_values(|v: Vec<char>| v@)),
        decreases pieces.len(),
    {
        let ghost before = pieces@.map_values(|v: Vec<char>| v@);
        let last = pieces.pop().unwrap();
        assert(before.len() > 0);
        assert(before.last() == last@);
        if is_named_piece_exec(last.as_slice()) {
            assert(last_named_piece(before) == Some(last@));
            let dd = last.len() == 2 && last[0] == '.' && last[1] == '.';
            if dd {
                assert(last@ =~= seq!['.', '.']);
                return None;
            } else {
                assert(last@ != seq!['.', '.']);
                return Some(last);
            }
        }
        assert(pieces@.map_values(|v: Vec<char>| v@) =~= before.drop_last());
    }
    None
}

/// `Path::extension` of a `/`-separated path.
pub fn extension_exec(p: &[char]) -> (r: Option<Vec<char>>)
    ensures
        match r {
            Some(v) => extension(p@) == Some(v@),
            None => extension(p@) is None,
        },
{
    match file_name_exec(p) {
        Some(n) => match last_index_exec(n.as_slice(), '.') {
            Some(i) => {
                if i > 0 {
                    assert(n@.len() == n.len());
                    let e = slice_copy(n.as_slice(), i + 1, n.len());
                    assert(e@ =~= n@.skip(i + 1));
                    Some(e)
                } else {
                    None
                }
            },
            None => None,
        },
        None => None,
    }
}

/// `Path::file_stem` of a `/`-separated path.
pub fn file_stem_exec(p: &[char]) -> (r: Option<Vec<char>>)
    ensures
        match r {
            Some(v) => file_stem(p@) == Some(v@),
            None => file_stem(p@) is None,
        },
{
    match file_name_exec(p) {
        Some(n) => match last_index_exec(n.as_slice(), '.') {
            Some(i) => {
                if i > 0 {
                    let e = slice_copy(n.as_slice(), 0, i);
                    assert(e@ =~= n@.take(i as int));
                    Some(e)
                } else {
                    Some(n)
                }
            },
            None => Some(n),
        },
        None => None,
    }
}

/// The path starts at the root.
pub open spec fn is_rooted(p: Seq<char>) -> bool {
    p.len() > 0 && p[0] == '/'
}

/// The path is relative and starts with a `.` component.
pub open spec fn lead_dot(p: Seq<char>) -> bool {
    !is_rooted(p) && split_char(p, '/')[0] == seq!['.']
}

/// The index of the first piece that can be a normal component.
pub open spec fn body_from(p: Seq<char>) -> int {
    if is_rooted(p) || lead_dot(p) {
        1
    } else {
        0
    }
}

/// The last index in `from..upto` of a piece that is a component.
pub open spec fn last_part_before(ps: Seq<Seq<char>>, from: int, upto: int) -> Option<int>
    decreases upto - from,
{
    if upto <= from {
        None
    } else if is_named_piece(ps[upto - 1]) {
        Some(upto - 1)
    } else {
        last_part_before(ps, from, upto - 1)
    }
}

/// The pieces joined by `/`.
pub open spec fn join_slash(ps: Seq<Seq<char>>) -> Seq<char>
    decreases ps.len(),
{
    if ps.len() == 0 {
        Seq::empty()
    } else if ps.len() == 1 {
        ps[0]
    } else {
        join_slash(ps.drop_last()) + seq!['/'] + ps.last()
    }
}

/// `Path::parent`: the path up to its last component, with trailing
/// separators and `.` pieces left off; nothing for the root or the empty path.
pub open spec fn parent_path(p: Seq<char>) -> Option<Seq<char>> {
    let ps = split_char(p, '/');
    let b = body_from(p);
    match last_part_before(ps, b, ps.len() as int) {
        Some(l) => match last_part_before(ps, b, l) {
            Some(k) => Some(join_slash(ps.take(k + 1))),
            None => Some(
                if is_rooted(p) {
                    seq!['/']
                } else if lead_dot(p) {
                    seq!['.']
                } else {
                    Seq::empty()
                },
            ),
        },
        None => if lead_dot(p) {
            Some(Seq::empty())
        } else {
            None
        },
    }
}

/// The views of a list of character vectors.
pub open spec fn char_views(v: Seq<Vec<char>>) -> Seq<Seq<char>> {
    v.map_values(|x: Vec<char>| x@)
}

fn last_part_exec(ps: &Vec<Vec<char>>, from: usize, upto: usize) -> (r: Option<usize>)
    requires
        upto <= ps@.len(),
    ensures
        match r {
            Some(i) => last_part_before(char_views(ps@), from as int, upto as int) == Some(
                i as int,
            ) && from <= i < upto,
            None => last_part_before(char_views(ps@), from as int, upto as int) is None,
        },
{
    let ghost pv = char_views(ps@);
    let mut j = upto;
    while j > from
        invariant
            j <= upto <= ps@.len(),
            pv == char_views(ps@),
            last_part_before(pv, from as int, upto as int) == last_part_before(
                pv,
                from as int,
                j as int,
            ),
        decreases j,
    {
        assert(pv[j - 1] == ps@[j - 1]@);
        if is_named_piece_exec(ps[j - 1].as_slice()) {
            return Some(j - 1);
        }
        j -= 1;
    }
    None
}

/// Appends the characters of `s` to `out`.
pub fn push_chars(out: &mut Vec<char>, s: &[char])
    ensures
        final(out)@ == old(out)@ + s@,
{
    let mut i: usize = 0;
    while i < s.len()
        invariant
            i <= s@.len(),
            out@ == old(out)@ + s@.take(i as int),
        decreases s.len() - i,
    {
        out.push(s[i]);
        assert(s@.take(i + 1) =~= s@.take(i as int).push(s@[i as int]));
        i += 1;
    }
    assert(s@.take(s@.len() as int) =~= s@);
}

/// The pieces `ps[..n]` joined by `/`.
fn join_slash_exec(ps: &Vec<Vec<char>>, n: usize) -> (r: Vec<char>)
    requires
        n <= ps@.len(),
    ensures
        r@ == join_slash(char_views(ps@).take(n as int)),
{
    let ghost pv = char_views(ps@);
    let mut out: Vec<char> = Vec::new();
    let mut i: usize = 0;
    while i < n
        invariant
            i <= n <= ps@.len(),
            pv == char_views(ps@),
            out@ == join_slash(pv.take(i as int)),
        decreases n - i,
    {
        assert(pv[i as int] == ps@[i as int]@);
        assert(pv.take(i + 1).drop_last() =~= pv.take(i as int));
        if i > 0 {
            out.push('/');
        }
        push_chars(&mut out, ps[i].as_slice());
        proof {
            if i == 0 {
                assert(out@ =~= join_slash(pv.take(1)));
            } else {
                assert(out@ =~= join_slash(pv.take(i as int)) + seq!['/'] + pv[i as int]);
            }
        }
        i += 1;
    }
    out
}

/// `Path::parent` of a `/`-separated path.
pub fn parent_path_exec(p: &[char]) -> (r: Option<Vec<char>>)
    ensures
        match r {
            Some(v) => parent_path(p@) == Some(v@),
            None => parent_path(p@) is None,
        },
{
    let ps = split_char_exec(p, '/');
    let ghost pv = split_char(p@, '/');
    proof {
        crate::text::lemma_split_char_nonempty(p@, '/');
        assert(char_views(ps@) =~= pv);
    }
    let rooted = p.len() > 0 && p[0] == '/';
    let first = &ps[0];
    let dot = first.len() == 1 && first[0] == '.';
    proof {
        if dot {
            assert(first@ =~= seq!['.']);
        } else {
            assert(first@ != seq!['.']);
        }
    }
    let lead = !rooted && dot;
    let b: usize = if rooted || lead {
        1
    } else {
        0
    };
    match last_part_exec(&ps, b, ps.len()) {
        Some(l) => match last_part_exec(&ps, b, l) {
            Some(k) => Some(join_slash_exec(&ps, k + 1)),
            None => {
                let mut v: Vec<char> = Vec::new();
                if rooted {
                    v.push('/');
                    assert(v@ =~= seq!['/']);
                } else if lead {
                    v.push('.');
                    assert(v@ =~= seq!['.']);
                }
                Some(v)
            },
        },
        None => if lead {
            Some(Vec::new())
        } else {
            None
        },
    }
}

} // verus!
