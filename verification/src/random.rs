//! Random salts, passwords and identifiers.

use rand::distributions::Alphanumeric;
use rand::rngs::StdRng;
use rand::Rng;
use vstd::prelude::*;
use vstd::utf8::{
    encode_utf8, is_leading_byte_width_1, partial_valid_utf8,
    partial_valid_utf8_extend_ascii_block, valid_utf8,
};

verus! {

/// `StdRng` of the crate `rand`, the random source that sessions are drawn
/// from. It is carried through as it is; nothing is claimed of what it holds.
#[verifier::external_type_specification]
#[verifier::external_body]
pub struct ExStdRng(StdRng);

/// Whether `b` is an ASCII letter or digit.
pub open spec fn is_alphanumeric(b: u8) -> bool {
    ||| 0x30 <= b <= 0x39
    ||| 0x41 <= b <= 0x5a
    ||| 0x61 <= b <= 0x7a
}

/// Whether `text` is made of `len` ASCII letters and digits.
pub open spec fn is_alphanumeric_text(text: Seq<char>, len: nat) -> bool {
    &&& encode_utf8(text).len() == len
    &&& forall|i: int| 0 <= i < len ==> is_alphanumeric(#[trigger] encode_utf8(text)[i])
}

/// `Rng::sample` of the crate `rand` with its distribution `Alphanumeric`,
/// which picks the byte from the upper-case letters, the lower-case letters and
/// the digits of ASCII. Which of them comes is left open.
#[verifier::external_body]
fn sample_alphanumeric(rng: &mut StdRng) -> (b: u8)
    ensures
        is_alphanumeric(b),
{
    rng.sample(&Alphanumeric)
}

/// `Rng::gen` of the crate `rand` for an array of 16 bytes. Nothing is claimed
/// of the bytes.
#[verifier::external_body]
pub(crate) fn sample_id(rng: &mut StdRng) -> [u8; 16] {
    rng.gen()
}

/// `String::from_utf8` of std, which succeeds on the byte sequences that are
/// UTF-8 and on no others, and keeps the bytes.
#[verifier::external_body]
fn string_from_utf8(bytes: Vec<u8>) -> (out: Option<String>)
    ensures
        out is Some <==> valid_utf8(bytes@),
        out is Some ==> encode_utf8(out->0@) == bytes@,
{
    String::from_utf8(bytes).ok()
}

/// A string of `len` random ASCII letters and digits.
pub fn random_text(rng: &mut StdRng, len: usize) -> (text: String)
    ensures
        is_alphanumeric_text(text@, len as nat),
{
    let mut bytes: Vec<u8> = Vec::new();
    while bytes.len() < len
        invariant
            bytes.len() <= len,
            forall|i: int| 0 <= i < bytes.len() ==> is_alphanumeric(#[trigger] bytes@[i]),
        decreases len - bytes.len(),
    {
        let b = sample_alphanumeric(rng);
        bytes.push(b);
    }
    proof {
        assert forall|i: int| 0 <= i < bytes.len() implies #[trigger] is_leading_byte_width_1(
            bytes@[i],
        ) by {
            let b = bytes@[i];
            assert(is_alphanumeric(b));
            assert(b < 0x80 ==> b & 0x80 == 0) by (bit_vector);
        }
        assert(bytes@.subrange(0, 0) =~= Seq::<u8>::empty());
        assert(partial_valid_utf8(bytes@, 0));
        partial_valid_utf8_extend_ascii_block(bytes@, 0, bytes.len() as int);
        assert(bytes@.subrange(0, bytes.len() as int) =~= bytes@);
    }
    let ghost drawn = bytes@;
    match string_from_utf8(bytes) {
        Some(text) => text,
        None => {
            assert(valid_utf8(drawn));
            unreached()
        },
    }
}

} // verus!
