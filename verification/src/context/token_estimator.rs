//! Token estimates: about one token per four bytes.

use vstd::prelude::*;
use crate::ir::schema::FileObject;

verus! {

/// Estimated tokens of a file of `size` bytes: a quarter of the size, at most
/// `usize::MAX`.
pub open spec fn tokens_for_size(size: u64) -> nat {
    if size / 4 > usize::MAX {
        usize::MAX as nat
    } else {
        (size / 4) as nat
    }
}

/// Sum of the estimates of all files.
pub open spec fn total_tokens(fs: Seq<FileObject>) -> nat
    decreases fs.len(),
{
    if fs.len() == 0 {
        0
    } else {
        total_tokens(fs.drop_last()) + tokens_for_size(fs.last().size_bytes)
    }
}

/// The estimate for all files together; the sum must fit in a `usize`.
pub fn estimate_total_tokens(files: &[FileObject]) -> (r: usize)
    requires
        total_tokens(files@) <= usize::MAX,
    ensures
        r == total_tokens(files@),
{
    let mut sum: usize = 0;
    let mut i: usize = 0;
    while i < files.len()
        invariant
            i <= files.len(),
            total_tokens(files@) <= usize::MAX,
            sum == total_tokens(files@.take(i as int)),
        decreases files.len() - i,
    {
        proof {
            assert(files@.take(i + 1).drop_last() =~= files@.take(i as int));
            lemma_total_tokens_prefix(files@, i + 1);
        }
        sum = sum + estimate_file_tokens(&files[i]);
        i += 1;
    }
    assert(files@.take(files@.len() as int) =~= files@);
    sum
}

/// The estimate for all files together, or none when the sum does not fit
/// in a `usize`.
pub fn estimate_total_tokens_checked(files: &[FileObject]) -> (r: Option<usize>)
    ensures
        match r {
            Some(t) => t == total_tokens(files@),
            None => total_tokens(files@) > usize::MAX,
        },
{
    let mut sum: usize = 0;
    let mut i: usize = 0;
    while i < files.len()
        invariant
            i <= files.len(),
            sum == total_tokens(files@.take(i as int)),
        decreases files.len() - i,
    {
        proof {
            assert(files@.take(i + 1).drop_last() =~= files@.take(i as int));
            lemma_total_tokens_prefix(files@, i + 1);
        }
        match sum.checked_add(estimate_file_tokens(&files[i])) {
            Some(s) => sum = s,
            None => return None,
        }
        i += 1;
    }
    assert(files@.take(files@.len() as int) =~= files@);
    Some(sum)
}

proof fn lemma_total_tokens_prefix(fs: Seq<FileObject>, n: int)
    requires
        0 <= n <= fs.len(),
    ensures
        total_tokens(fs.take(n)) <= total_tokens(fs),
    decreases fs.len(),
{
    if n < fs.len() {
        assert(fs.drop_last().take(n) =~= fs.take(n));
        lemma_total_tokens_prefix(fs.drop_last(), n);
    } else {
        assert(fs.take(n) =~= fs);
    }
}

/// The estimate for one file: its size in bytes divided by four.
pub fn estimate_file_tokens(file: &FileObject) -> (r: usize)
    ensures
        r == tokens_for_size(file.size_bytes),
{
    let q = file.size_bytes / 4;
    if q > usize::MAX as u64 {
        usize::MAX
    } else {
        q as usize
    }
}

/// The estimate for a text: its length in UTF-8 bytes divided by four.
pub fn estimate_tokens_for_content(content: &str) -> (r: usize)
    ensures
        r == (vstd::utf8::encode_utf8(content@).len() as usize) / 4,
{
    content.len() / 4
}

} // verus!
