//! SHA-256 digests of contents, as lowercase hexadecimal text.

use vstd::prelude::*;
use sha2::Digest;

verus! {

/// The SHA-256 digest of `data`, as `sha2::Sha256` computes it.
pub uninterp spec fn sha256(data: Seq<u8>) -> Seq<u8>;

/// Calls `sha2::Sha256::digest`. Claimed: the result is the digest named
/// `sha256` of the data, and it is 32 bytes long (the output size of
/// SHA-256).
#[verifier::external_body]
fn sha256_digest(data: &[u8]) -> (r: Vec<u8>)
    ensures
        r@ == sha256(data@),
        r@.len() == 32,
{
    sha2::Sha256::digest(data).to_vec()
}

/// The lowercase hexadecimal digit of `d < 16`.
pub open spec fn hex_digit(d: u8) -> char {
    if d < 10 {
        ((48 + d) as u8) as char
    } else {
        ((87 + d) as u8) as char
    }
}

/// Lowercase hexadecimal text of the bytes, two digits per byte, high digit
/// first (what `{:x}` prints for a digest).
pub open spec fn hex_of(data: Seq<u8>) -> Seq<char>
    decreases data.len(),
{
    if data.len() == 0 {
        Seq::empty()
    } else {
        hex_of(data.drop_last()) + seq![hex_digit(data.last() / 16), hex_digit(data.last() % 16)]
    }
}

fn hex_digit_exec(d: u8) -> (r: char)
    requires
        d < 16,
    ensures
        r == hex_digit(d),
{
    if d < 10 {
        (48u8 + d) as char
    } else {
        (87u8 + d) as char
    }
}

/// The lowercase hexadecimal text of the bytes.
pub fn to_hex(data: &[u8]) -> (r: String)
    ensures
        r@ == hex_of(data@),
{
    let mut v: Vec<char> = Vec::new();
    let mut i: usize = 0;
    while i < data.len()
        invariant
            i <= data.len(),
            v@ == hex_of(data@.take(i as int)),
        decreases data.len() - i,
    {
        assert(data@.take(i + 1).drop_last() =~= data@.take(i as int));
        let b = data[i];
        v.push(hex_digit_exec(b / 16));
        v.push(hex_digit_exec(b % 16));
        assert(v@ =~= hex_of(data@.take(i + 1)));
        i += 1;
    }
    assert(data@.take(data@.len() as int) =~= data@);
    crate::text::string_of(v.as_slice())
}

/// The SHA-256 digest of `content` as 64 lowercase hexadecimal digits.
pub fn compute_sha256(content: &[u8]) -> (r: String)
    ensures
        r@ == hex_of(sha256(content@)),
        r@.len() == 64,
        forall|i: int| 0 <= i < r@.len() ==> is_lower_hex(#[trigger] r@[i]),
{
    let digest = sha256_digest(content);
    proof {
        lemma_hex_length(digest@);
        lemma_hex_chars(digest@);
    }
    to_hex(digest.as_slice())
}

/// The SHA-256 digest of the UTF-8 bytes of `content`, as hexadecimal text.
pub fn compute_sha256_string(content: &str) -> (r: String)
    ensures
        r@ == hex_of(sha256(vstd::utf8::encode_utf8(content@))),
        r@.len() == 64,
        forall|i: int| 0 <= i < r@.len() ==> is_lower_hex(#[trigger] r@[i]),
{
    compute_sha256(content.as_bytes())
}

/// A lowercase hexadecimal digit: `0`-`9` or `a`-`f`.
pub open spec fn is_lower_hex(c: char) -> bool {
    (48 <= c as int <= 57) || (97 <= c as int <= 102)
}

/// The hexadecimal text of bytes has two characters per byte (so a 32-byte
/// digest gives 64).
pub proof fn lemma_hex_length(data: Seq<u8>)
    ensures
        hex_of(data).len() == 2 * data.len(),
    decreases data.len(),
{
    if data.len() > 0 {
        lemma_hex_length(data.drop_last());
    }
}

/// The hexadecimal text of bytes holds only lowercase hexadecimal digits.
pub proof fn lemma_hex_chars(data: Seq<u8>)
    ensures
        forall|i: int| 0 <= i < hex_of(data).len() ==> is_lower_hex(#[trigger] hex_of(data)[i]),
    decreases data.len(),
{
    if data.len() > 0 {
        lemma_hex_chars(data.drop_last());
        let front = hex_of(data.drop_last());
        let b = data.last();
        let tail = seq![hex_digit(b / 16), hex_digit(b % 16)];
        assert(is_lower_hex(hex_digit(b / 16)));
        assert(is_lower_hex(hex_digit(b % 16)));
        assert forall|i: int| 0 <= i < hex_of(data).len() implies is_lower_hex(#[trigger] hex_of(data)[i]) by {
            if i < front.len() {
                assert(hex_of(data)[i] == front[i]);
            } else {
                assert(hex_of(data)[i] == tail[i - front.len()]);
            }
        }
    }
}

} // verus!
