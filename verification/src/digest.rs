//! SHA-256 digests, their lowercase hexadecimal text, and comparison of
//! digests in a time that does not depend on where they differ.
use vstd::prelude::*;
use vstd::string::*;

verus! {

/// The SHA-256 digest of a byte string.
pub uninterp spec fn sha256(data: Seq<u8>) -> Seq<u8>;

/// `sha2::Sha256::digest`: the digest is a function of the bytes alone and has
/// 32 bytes. Nothing else is claimed of its value.
#[verifier::external_body]
pub(crate) fn sha256_of(data: &[u8]) -> (r: [u8; 32])
    ensures
        r@ == sha256(data@),
{
    <sha2::Sha256 as sha2::Digest>::digest(data).into()
}

/// A digest of bytes that arrive piece by piece: a `sha2::Sha256` that has not
/// been finalized.
#[verifier::external_body]
pub struct RunningDigest {
    hasher: sha2::Sha256,
}

/// The bytes that a running digest has taken in, in order.
pub uninterp spec fn absorbed(running: RunningDigest) -> Seq<u8>;

impl RunningDigest {
    /// `sha2::Sha256::new`: a digest that has taken in nothing.
    #[verifier::external_body]
    pub(crate) fn start() -> (r: Self)
        ensures
            absorbed(r) == Seq::<u8>::empty(),
    {
        RunningDigest { hasher: <sha2::Sha256 as sha2::Digest>::new() }
    }

    /// `sha2::Sha256::update`: the bytes follow those taken in before.
    #[verifier::external_body]
    pub(crate) fn absorb(&mut self, chunk: &[u8])
        ensures
            absorbed(*final(self)) == absorbed(*old(self)) + chunk@,
    {
        sha2::Digest::update(&mut self.hasher, chunk)
    }

    /// `sha2::Sha256::finalize`: the digest of all bytes taken in, the same as
    /// if they had come in one piece.
    #[verifier::external_body]
    pub(crate) fn end(self) -> (r: [u8; 32])
        ensures
            r@ == sha256(absorbed(self)),
    {
        sha2::Digest::finalize(self.hasher).into()
    }
}

/// The lowercase hexadecimal character of a half byte.
pub open spec fn nibble_char(n: nat) -> char {
    if n < 10 {
        ('0' as nat + n) as char
    } else {
        ('a' as nat + n - 10) as char
    }
}

/// Two lowercase hexadecimal characters per byte, high half first.
pub open spec fn hex_text(bytes: Seq<u8>) -> Seq<char> {
    Seq::new(
        2 * bytes.len(),
        |i: int|
            nibble_char(
                if i % 2 == 0 {
                    (bytes[i / 2] / 16) as nat
                } else {
                    (bytes[i / 2] % 16) as nat
                },
            ),
    )
}

/// `hex::encode`: two characters of `0123456789abcdef` per byte, the high half
/// of the byte first.
#[verifier::external_body]
pub(crate) fn hex_encode(bytes: &[u8]) -> (r: String)
    ensures
        r@ == hex_text(bytes@),
{
    hex::encode(bytes)
}

/// The hexadecimal SHA-256 digest of a byte string.
pub fn digest_hex(data: &[u8]) -> (r: String)
    ensures
        r@ == hex_text(sha256(data@)),
{
    let digest = sha256_of(data);
    hex_encode(digest.as_slice())
}

/// The SHA-256 digest of a text's UTF-8 bytes.
pub fn sha256_bytes(value: &str) -> (r: [u8; 32])
    ensures
        r@ == sha256(value.spec_bytes()),
{
    sha256_of(value.as_bytes())
}

/// Compares two digests without leaving the loop at the first difference.
pub fn equal_digests(left: &[u8; 32], right: &[u8; 32]) -> (r: bool)
    ensures
        r == (left@ == right@),
{
    let mut difference: u8 = 0;
    let mut i: usize = 0;
    while i < 32
        invariant
            i <= 32,
            difference == 0 <==> forall|j: int| 0 <= j < i ==> left@[j] == right@[j],
        decreases 32 - i,
    {
        let a: u8 = left[i];
        let b: u8 = right[i];
        let before: u8 = difference;
        assert((before | (a ^ b)) == 0 <==> (before == 0 && a == b)) by (bit_vector);
        difference = difference | (a ^ b);
        i += 1;
    }
    assert(difference == 0 ==> left@ == right@);
    difference == 0
}

/// Hexadecimal text determines the bytes it was made from.
pub proof fn hex_text_is_injective(a: Seq<u8>, b: Seq<u8>)
    requires
        hex_text(a) == hex_text(b),
    ensures
        a == b,
{
    assert(hex_text(a).len() == 2 * a.len());
    assert(hex_text(b).len() == 2 * b.len());
    assert forall|i: int| 0 <= i < a.len() implies a[i] == b[i] by {
        let (x, y) = (2 * i, 2 * i + 1);
        assert(x / 2 == i && x % 2 == 0 && y / 2 == i && y % 2 == 1);
        assert(hex_text(a)[x] == nibble_char((a[i] / 16) as nat));
        assert(hex_text(b)[x] == nibble_char((b[i] / 16) as nat));
        assert(hex_text(a)[y] == nibble_char((a[i] % 16) as nat));
        assert(hex_text(b)[y] == nibble_char((b[i] % 16) as nat));
        let (ah, bh) = ((a[i] / 16) as nat, (b[i] / 16) as nat);
        let (al, bl) = ((a[i] % 16) as nat, (b[i] % 16) as nat);
        assert(nibble_char(ah) == nibble_char(bh));
        assert(nibble_char(al) == nibble_char(bl));
        assert(ah == bh && al == bl);
    }
    assert(a =~= b);
}

} // verus!
