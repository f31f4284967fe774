//! The hash by which a change of a file is seen.

use vstd::prelude::*;

verus! {

/// The SHA-256 digest of bytes, as `sha2` computes it.
pub uninterp spec fn sha256(bytes: Seq<u8>) -> Seq<u8>;

/// `sha2::Sha256::digest`: the result is named [`sha256`]; nothing is said of how
/// the digest comes about.
#[verifier::external_body]
pub(crate) fn sha256_of(bytes: &[u8]) -> (r: [u8; 32])
    ensures
        r@ == sha256(bytes@),
{
    <sha2::Sha256 as sha2::Digest>::digest(bytes).into()
}

/// A digit of a number in base sixteen.
pub open spec fn hex_digit(d: int) -> char {
    if d < 10 {
        ('0' as int + d) as char
    } else {
        ('a' as int + (d - 10)) as char
    }
}

/// Bytes in base sixteen, two lower-case digits for each, the upper half first.
pub open spec fn hex_text(bytes: Seq<u8>) -> Seq<char> {
    Seq::new(
        bytes.len() * 2,
        |i: int|
            if i % 2 == 0 {
                hex_digit(bytes[i / 2] as int / 16)
            } else {
                hex_digit(bytes[i / 2] as int % 16)
            },
    )
}

/// `hex::encode`: two lower-case hexadecimal digits for each byte, in order.
#[verifier::external_body]
pub(crate) fn hex_encode(bytes: &[u8]) -> (r: String)
    ensures
        r@ == hex_text(bytes@),
{
    hex::encode(bytes)
}

/// The hash of the contents of a file, in base sixteen.
pub open spec fn file_hash(contents: Seq<u8>) -> Seq<char> {
    hex_text(sha256(contents))
}

/// The hash of the contents of a file, in base sixteen.
pub fn compute_file_hash(contents: &[u8]) -> (r: String)
    ensures
        r@ == file_hash(contents@),
        r@.len() == 64,
{
    let digest = sha256_of(contents);
    hex_encode(digest.as_slice())
}

// ---------------------------------------------------------------------------
// Laws
// ---------------------------------------------------------------------------

/// Bytes are written in base sixteen one after the other, each with two of the digits from
/// `0` to `f`: the sixteens first, and behind them the rest.
pub proof fn law_bytes_are_written_in_base_sixteen(bytes: Seq<u8>, b: u8)
    ensures
        hex_text(bytes.push(b)) == hex_text(bytes) + seq![
            "0123456789abcdef"@[b as int / 16],
            "0123456789abcdef"@[b as int % 16],
        ],
        hex_text(Seq::<u8>::empty()).len() == 0,
{
    reveal_strlit("0123456789abcdef");
    let digits = "0123456789abcdef"@;
    assert forall|d: int| 0 <= d < 16 implies hex_digit(d) == #[trigger] digits[d] by {
        assert(d == 0 || d == 1 || d == 2 || d == 3 || d == 4 || d == 5 || d == 6 || d == 7 || d
            == 8 || d == 9 || d == 10 || d == 11 || d == 12 || d == 13 || d == 14 || d == 15);
    }
    let n = bytes.len() as int;
    let all = hex_text(bytes.push(b));
    let want = hex_text(bytes) + seq![digits[b as int / 16], digits[b as int % 16]];
    assert(all.len() == want.len());
    assert forall|i: int| 0 <= i < all.len() implies all[i] == want[i] by {
        if i < 2 * n {
            assert(i / 2 < n);
            assert(bytes.push(b)[i / 2] == bytes[i / 2]);
        } else {
            assert(i / 2 == n);
            assert(bytes.push(b)[n] == b);
            if i == 2 * n {
                assert(i % 2 == 0);
            } else {
                assert(i == 2 * n + 1);
                assert(i % 2 == 1);
            }
        }
    }
    assert(all =~= want);
}

/// Two files with the same hash have the same digest.
pub proof fn law_hashes_tell_digests_apart(a: Seq<u8>, b: Seq<u8>)
    ensures
        file_hash(a) == file_hash(b) <==> sha256(a) == sha256(b),
{
    if file_hash(a) == file_hash(b) {
        lemma_hex_apart(sha256(a), sha256(b));
    }
}

/// The same digits stand for the same bytes.
proof fn lemma_hex_apart(a: Seq<u8>, b: Seq<u8>)
    requires
        hex_text(a) == hex_text(b),
    ensures
        a == b,
{
    assert(hex_text(a).len() == 2 * a.len() && hex_text(b).len() == 2 * b.len());
    assert forall|i: int| 0 <= i < a.len() implies a[i] == b[i] by {
        let high = hex_text(a)[2 * i];
        let low = hex_text(a)[2 * i + 1];
        assert((2 * i) % 2 == 0 && (2 * i) / 2 == i);
        assert((2 * i + 1) % 2 == 1 && (2 * i + 1) / 2 == i);
        assert(hex_digit(a[i] as int / 16) == hex_digit(b[i] as int / 16));
        assert(hex_digit(a[i] as int % 16) == hex_digit(b[i] as int % 16));
        lemma_hex_digits_apart(a[i] as int / 16, b[i] as int / 16);
        lemma_hex_digits_apart(a[i] as int % 16, b[i] as int % 16);
    }
    assert(a =~= b);
}

/// Two digits with the same character are the same.
proof fn lemma_hex_digits_apart(a: int, b: int)
    requires
        0 <= a < 16,
        0 <= b < 16,
        hex_digit(a) == hex_digit(b),
    ensures
        a == b,
{
}

} // verus!
