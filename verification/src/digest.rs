//! Content hashes: SHA-256 digests in lower-case hexadecimal form.

use crate::number;
use crate::number::hex_text;
use sha2::Digest;
use vstd::prelude::*;
use vstd::string::*;
use vstd::utf8::*;

verus! {

/// The SHA-256 digest of a sequence of bytes.
pub uninterp spec fn sha256(bytes: Seq<u8>) -> Seq<u8>;

/// `sha2::Sha256::digest`: the digest depends on the bytes alone, and is
/// thirty-two bytes long.
#[verifier::external_body]
fn sha256_digest(bytes: &Vec<u8>) -> (r: Vec<u8>)
    ensures
        r@ == sha256(bytes@),
        r@.len() == 32,
{
    sha2::Sha256::digest(bytes).to_vec()
}

/// The hexadecimal SHA-256 digest of a sequence of bytes.
pub open spec fn sha256_hex(bytes: Seq<u8>) -> Seq<char> {
    number::hex(sha256(bytes))
}

/// The hexadecimal SHA-256 digest of the bytes.
pub fn digest_text(bytes: &Vec<u8>) -> (r: String)
    ensures
        r@ == sha256_hex(bytes@),
        r@.len() == 64,
{
    let digest = sha256_digest(bytes);
    proof {
        lemma_hex_len(digest@);
    }
    hex_text(&digest)
}

/// Two digits are printed for each byte.
pub proof fn lemma_hex_len(bytes: Seq<u8>)
    ensures
        number::hex(bytes).len() == 2 * bytes.len(),
    decreases bytes.len(),
{
    if bytes.len() > 0 {
        lemma_hex_len(bytes.drop_last());
    }
}

/// What is hashed for a text: the kind, a zero byte, and the text in UTF-8.
pub open spec fn text_material(kind: Seq<char>, text: Seq<char>) -> Seq<u8> {
    encode_utf8(kind) + seq![0u8] + encode_utf8(text)
}

/// The content hash of a text.
pub open spec fn text_hash(kind: Seq<char>, text: Seq<char>) -> Seq<char> {
    sha256_hex(text_material(kind, text))
}

/// Appends all the bytes of a slice.
fn push_bytes(out: &mut Vec<u8>, bytes: &[u8])
    ensures
        final(out)@ == old(out)@ + bytes@,
{
    out.extend_from_slice(bytes);
    assert(out@ =~= old(out)@ + bytes@);
}

/// The content hash of a text.
pub fn content_hash(kind: &str, text: &str) -> (r: String)
    ensures
        r@ == text_hash(kind@, text@),
        r@.len() == 64,
{
    let mut material: Vec<u8> = Vec::new();
    push_bytes(&mut material, kind.as_bytes());
    material.push(0);
    push_bytes(&mut material, text.as_bytes());
    assert(material@ =~= text_material(kind@, text@));
    digest_text(&material)
}

/// The little-endian bytes of `n`, `count` of them.
pub open spec fn le_bytes(n: nat, count: nat) -> Seq<u8>
    decreases count,
{
    if count == 0 {
        Seq::empty()
    } else {
        seq![(n % 256) as u8] + le_bytes(n / 256, (count - 1) as nat)
    }
}

/// How many bytes a `usize` takes on the machine.
pub open spec fn word_bytes() -> nat {
    (usize::BITS / 8) as nat
}

/// Appends the bytes of `n` in the order of their weight, as
/// `usize::to_le_bytes` gives them.
fn push_word(out: &mut Vec<u8>, n: usize)
    ensures
        final(out)@ == old(out)@ + le_bytes(n as nat, word_bytes()),
{
    let count: u32 = usize::BITS / 8;
    let mut rest: usize = n;
    let mut i: u32 = 0;
    while i < count
        invariant
            i <= count,
            count == word_bytes(),
            old(out)@ + le_bytes(n as nat, word_bytes()) == out@ + le_bytes(
                rest as nat,
                (count - i) as nat,
            ),
        decreases count - i,
    {
        let byte: u8 = (rest % 256) as u8;
        let ghost before = out@;
        out.push(byte);
        assert(before + le_bytes(rest as nat, (count - i) as nat) =~= out@ + le_bytes(
            (rest / 256) as nat,
            (count - i - 1) as nat,
        ));
        rest = rest / 256;
        i = i + 1;
    }
    assert(le_bytes(rest as nat, 0) =~= Seq::<u8>::empty());
    assert(out@ + Seq::<u8>::empty() =~= out@);
}

/// What is hashed for an image: the word `image`, a zero byte, the width and
/// the height, and the pixels.
pub open spec fn image_material(width: nat, height: nat, bytes: Seq<u8>) -> Seq<u8> {
    encode_utf8("image"@) + seq![0u8] + le_bytes(width, word_bytes()) + le_bytes(
        height,
        word_bytes(),
    ) + bytes
}

/// The content hash of an image.
pub open spec fn image_hash(width: nat, height: nat, bytes: Seq<u8>) -> Seq<char> {
    sha256_hex(image_material(width, height, bytes))
}

/// The content hash of an image.
pub fn content_hash_image(width: usize, height: usize, bytes: &Vec<u8>) -> (r: String)
    ensures
        r@ == image_hash(width as nat, height as nat, bytes@),
        r@.len() == 64,
{
    let mut material: Vec<u8> = Vec::new();
    push_bytes(&mut material, "image".as_bytes());
    material.push(0);
    push_word(&mut material, width);
    push_word(&mut material, height);
    push_bytes(&mut material, bytes.as_slice());
    assert(material@ =~= image_material(width as nat, height as nat, bytes@));
    digest_text(&material)
}

// ---------------------------------------------------------------------------
// What the hashes tell apart
// ---------------------------------------------------------------------------

/// The number that bytes tell, the low one first.
pub open spec fn le_value(bytes: Seq<u8>) -> nat
    decreases bytes.len(),
{
    if bytes.len() == 0 {
        0
    } else {
        bytes[0] as nat + 256 * le_value(bytes.drop_first())
    }
}

/// The numbers that so many bytes can tell.
spec fn range_of(count: nat) -> nat
    decreases count,
{
    if count == 0 {
        1
    } else {
        256 * range_of((count - 1) as nat)
    }
}

proof fn lemma_le_value(n: nat, count: nat)
    requires
        n < range_of(count),
    ensures
        le_bytes(n, count).len() == count,
        le_value(le_bytes(n, count)) == n,
    decreases count,
{
    if count > 0 {
        lemma_le_value(n / 256, (count - 1) as nat);
        let bytes = le_bytes(n, count);
        assert(bytes.drop_first() =~= le_bytes(n / 256, (count - 1) as nat));
        assert(bytes[0] == n % 256);
    }
}

proof fn lemma_word_range(n: usize)
    ensures
        n < range_of(word_bytes()),
{
    reveal_with_fuel(range_of, 9);
    if usize::BITS == 32 {
        assert(range_of(4) == 0x1_0000_0000);
    } else {
        assert(range_of(8) == 0x1_0000_0000_0000_0000);
    }
}

/// What is hashed for an image begins with its kind and a zero, and then tells the
/// width, the height and the pixels in this order: two images that differ in any
/// of them are hashed from different bytes.
pub proof fn image_material_tells_the_image(width: usize, height: usize, bytes: Seq<u8>)
    ensures
        ({
            let material = image_material(width as nat, height as nat, bytes);
            let word = usize::BITS as int / 8;
            &&& material.len() == 6 + 2 * word + bytes.len()
            &&& material.take(6) == seq![0x69u8, 0x6d, 0x61, 0x67, 0x65, 0]
            &&& le_value(material.subrange(6, 6 + word)) == width
            &&& le_value(material.subrange(6 + word, 6 + 2 * word)) == height
            &&& material.skip(6 + 2 * word) == bytes
            &&& image_hash(width as nat, height as nat, bytes) == number::hex(sha256(material))
        }),
{
    let material = image_material(width as nat, height as nat, bytes);
    let word = word_bytes() as int;
    reveal_strlit("image");
    is_ascii_chars_encode_utf8("image"@);
    lemma_word_range(width);
    lemma_word_range(height);
    lemma_le_value(width as nat, word_bytes());
    lemma_le_value(height as nat, word_bytes());
    let name = encode_utf8("image"@);
    assert(name =~= seq![0x69u8, 0x6d, 0x61, 0x67, 0x65]);
    assert(material.take(6) =~= seq![0x69u8, 0x6d, 0x61, 0x67, 0x65, 0]);
    assert(material.subrange(6, 6 + word) =~= le_bytes(width as nat, word_bytes()));
    assert(material.subrange(6 + word, 6 + 2 * word) =~= le_bytes(height as nat, word_bytes()));
    assert(material.skip(6 + 2 * word) =~= bytes);
}

/// Two texts of a kind are hashed from different bytes unless they are the same,
/// and no text from the bytes of an image.
pub proof fn texts_are_hashed_apart(
    kind: Seq<char>,
    a: Seq<char>,
    b: Seq<char>,
    width: usize,
    height: usize,
    bytes: Seq<u8>,
)
    ensures
        text_material(kind, a) == text_material(kind, b) ==> a == b,
        text_material("text"@, a) != image_material(width as nat, height as nat, bytes),
        text_material("text"@, a).take(5) == seq![0x74u8, 0x65, 0x78, 0x74, 0],
        text_material("text"@, a).skip(5) == encode_utf8(a),
        text_hash(kind, a) == number::hex(sha256(text_material(kind, a))),
{
    let front = encode_utf8(kind) + seq![0u8];
    let at = front.len() as int;
    assert(text_material(kind, a).skip(at) =~= encode_utf8(a));
    assert(text_material(kind, b).skip(at) =~= encode_utf8(b));
    encode_utf8_decode_utf8(a);
    encode_utf8_decode_utf8(b);
    reveal_strlit("text");
    is_ascii_chars_encode_utf8("text"@);
    image_material_tells_the_image(width, height, bytes);
    let text = text_material("text"@, a);
    let image = image_material(width as nat, height as nat, bytes);
    assert(encode_utf8("text"@) =~= seq![0x74u8, 0x65, 0x78, 0x74]);
    assert(text.take(5) =~= seq![0x74u8, 0x65, 0x78, 0x74, 0]);
    assert(text.skip(5) =~= encode_utf8(a));
    assert(text[0] == text.take(5)[0]);
    assert(image[0] == image.take(6)[0]);
}

} // verus!
