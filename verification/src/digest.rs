//! Content digests: SHA3-256, written in hexadecimal.

use sha3::Digest;
use sha3::Sha3_256;
use vstd::prelude::*;

verus! {

/// The running SHA3-256 hasher of the `sha3` crate, opaque.
#[verifier::external_type_specification]
#[verifier::external_body]
pub struct ExSha3Hasher(Sha3_256);

/// The bytes that a hasher holds: everything it has taken in, in order.
pub uninterp spec fn absorbed(hasher: Sha3_256) -> Seq<u8>;

/// The SHA3-256 digest of a message.
pub uninterp spec fn sha3_256(message: Seq<u8>) -> Seq<u8>;

/// `Sha3_256::new`: a hasher that has taken in nothing.
#[verifier::external_body]
fn new_hasher() -> (res: Sha3_256)
    ensures
        absorbed(res) == Seq::<u8>::empty(),
{
    Sha3_256::new()
}

/// `Digest::update` on a SHA3-256 hasher: the bytes are taken in after those
/// already there.
#[verifier::external_body]
fn absorb(hasher: &mut Sha3_256, data: &[u8])
    ensures
        absorbed(*final(hasher)) == absorbed(*old(hasher)) + data@,
{
    hasher.update(data)
}

/// `Digest::finalize` on a SHA3-256 hasher: the digest of what was taken in,
/// whatever pieces it came in. It is thirty-two bytes long.
#[verifier::external_body]
fn finish(hasher: Sha3_256) -> (res: Vec<u8>)
    ensures
        res@ == sha3_256(absorbed(hasher)),
        res@.len() == 32,
{
    hasher.finalize().to_vec()
}

/// Bytes in lower-case hexadecimal, two digits to a byte, high digit first.
pub open spec fn hex_text(data: Seq<u8>) -> Seq<char> {
    Seq::new(
        2 * data.len(),
        |i: int|
            "0123456789abcdef"@[if i % 2 == 0 {
                data[i / 2] as int / 16
            } else {
                data[i / 2] as int % 16
            }],
    )
}

/// `hex::encode`: the bytes in lower-case hexadecimal.
#[verifier::external_body]
fn hex_encode(data: &[u8]) -> (res: String)
    ensures
        res@ == hex_text(data@),
{
    hex::encode(data)
}

/// A digest of content that arrives in pieces.
pub struct ContentHasher {
    hasher: Sha3_256,
}

impl View for ContentHasher {
    type V = Seq<u8>;

    /// The content so far.
    closed spec fn view(&self) -> Seq<u8> {
        absorbed(self.hasher)
    }
}

/// The fingerprint of some content: its SHA3-256 digest in hexadecimal.
pub open spec fn fingerprint(content: Seq<u8>) -> Seq<char> {
    hex_text(sha3_256(content))
}

impl ContentHasher {
    /// A hasher of no content.
    pub fn new() -> (res: ContentHasher)
        ensures
            res@ == Seq::<u8>::empty(),
    {
        ContentHasher { hasher: new_hasher() }
    }

    /// Takes in the next piece of the content.
    pub fn update(&mut self, data: &[u8])
        ensures
            final(self)@ == old(self)@ + data@,
    {
        absorb(&mut self.hasher, data)
    }

    /// The fingerprint of the whole content.
    pub fn finish(self) -> (res: String)
        ensures
            res@ == fingerprint(self@),
            res@.len() == 64,
    {
        let digest = finish(self.hasher);
        hex_encode(digest.as_slice())
    }
}

/// Two runs of bytes have the same hexadecimal text only if they are the same.
pub proof fn hex_text_is_injective(a: Seq<u8>, b: Seq<u8>)
    requires
        hex_text(a) == hex_text(b),
    ensures
        a == b,
{
    reveal_strlit("0123456789abcdef");
    let digits = "0123456789abcdef"@;
    assert(hex_text(a).len() == 2 * a.len());
    assert(hex_text(b).len() == 2 * b.len());
    assert forall|m: int, n: int| 0 <= m < 16 && 0 <= n < 16 && digits[m] == digits[n] implies m == n by {}
    assert forall|k: int| 0 <= k < a.len() implies a[k] == b[k] by {
        assert((2 * k) / 2 == k && (2 * k) % 2 == 0);
        assert((2 * k + 1) / 2 == k && (2 * k + 1) % 2 == 1);
        assert(hex_text(a)[2 * k] == digits[a[k] as int / 16]);
        assert(hex_text(b)[2 * k] == digits[b[k] as int / 16]);
        assert(hex_text(a)[2 * k + 1] == digits[a[k] as int % 16]);
        assert(hex_text(b)[2 * k + 1] == digits[b[k] as int % 16]);
    }
    assert(a =~= b);
}

/// The value of a lower-case hexadecimal digit.
pub open spec fn hex_value(digit: char) -> int {
    if '0' <= digit <= '9' {
        digit as int - '0' as int
    } else {
        digit as int - 'a' as int + 10
    }
}

/// A fingerprint spells out the SHA3-256 digest of the content, byte after byte, each as
/// two lower-case hexadecimal digits, the high one first.
pub proof fn fingerprint_spells_the_digest(content: Seq<u8>)
    ensures
        fingerprint(content).len() == 2 * sha3_256(content).len(),
        forall|i: int|
            0 <= i < fingerprint(content).len() ==> {
                ||| '0' <= #[trigger] fingerprint(content)[i] <= '9'
                ||| 'a' <= fingerprint(content)[i] <= 'f'
            },
        forall|k: int|
            0 <= k < sha3_256(content).len() ==> (#[trigger] sha3_256(content)[k]) as int == 16
                * hex_value(fingerprint(content)[2 * k]) + hex_value(
                fingerprint(content)[2 * k + 1],
            ),
{
    reveal_strlit("0123456789abcdef");
    let digest = sha3_256(content);
    let text = fingerprint(content);
    let digits = "0123456789abcdef"@;
    assert forall|m: int| 0 <= m < 16 implies hex_value(#[trigger] digits[m]) == m && ('0' <= digits[m]
        <= '9' || 'a' <= digits[m] <= 'f') by {}
    assert forall|i: int| 0 <= i < text.len() implies ('0' <= #[trigger] text[i] <= '9' || 'a' <= text[i]
        <= 'f') by {
        let m = if i % 2 == 0 {
            digest[i / 2] as int / 16
        } else {
            digest[i / 2] as int % 16
        };
        assert(text[i] == digits[m]);
        assert(0 <= m < 16);
    }
    assert forall|k: int| 0 <= k < digest.len() implies (#[trigger] digest[k]) as int == 16 * hex_value(
        text[2 * k],
    ) + hex_value(text[2 * k + 1]) by {
        assert((2 * k) / 2 == k && (2 * k) % 2 == 0);
        assert((2 * k + 1) / 2 == k && (2 * k + 1) % 2 == 1);
        assert(text[2 * k] == digits[digest[k] as int / 16]);
        assert(text[2 * k + 1] == digits[digest[k] as int % 16]);
    }
}

} // verus!
