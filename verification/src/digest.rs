//! The digest that binds a text to a salt.

use md5::{Digest, Md5};
use vstd::prelude::*;
use vstd::utf8::encode_utf8;

verus! {

/// The MD5 digest of `data`.
pub uninterp spec fn md5_digest(data: Seq<u8>) -> Seq<u8>;

/// The base64 text of `bytes`, in the standard alphabet with padding.
pub uninterp spec fn base64_text(bytes: Seq<u8>) -> Seq<char>;

/// The digest that binds `text` to `salt`: the base64 text of the MD5 digest
/// of the bytes of `text` followed by the bytes of `salt`.
pub open spec fn digest_of(text: Seq<char>, salt: Seq<char>) -> Seq<char> {
    base64_text(md5_digest(encode_utf8(text) + encode_utf8(salt)))
}

/// `Md5::digest` of the crate `md-5`, believed to return the MD5 digest of
/// `data`, which this crate names `md5_digest` and says nothing more of. The
/// 16 bytes of the result are those of the hasher's output array.
#[verifier::external_body]
fn md5_of(data: &[u8]) -> (out: [u8; 16])
    ensures
        out@ == md5_digest(data@),
{
    Md5::digest(data).into()
}

/// `base64::encode`, believed to return the standard padded base64 text of
/// `bytes`, which this crate names `base64_text` and says nothing more of.
/// The function panics when the length of the text does not fit in `usize`;
/// the precondition keeps such inputs out.
#[verifier::external_body]
fn base64_of(bytes: &[u8]) -> (out: String)
    requires
        bytes.len() / 3 * 4 + 4 <= usize::MAX,
    ensures
        out@ == base64_text(bytes@),
{
    base64::encode(bytes)
}

/// Appends the bytes of `text` to `data`.
fn push_bytes(data: &mut Vec<u8>, text: &str)
    ensures
        final(data)@ == old(data)@ + encode_utf8(text@),
{
    let bytes = text.as_bytes();
    let mut i: usize = 0;
    while i < bytes.len()
        invariant
            i <= bytes.len(),
            bytes@ == encode_utf8(text@),
            data@ == old(data)@ + bytes@.subrange(0, i as int),
        decreases bytes.len() - i,
    {
        data.push(bytes[i]);
        i += 1;
        assert(data@ =~= old(data)@ + bytes@.subrange(0, i as int));
    }
    assert(bytes@.subrange(0, i as int) =~= bytes@);
}

/// The digest of `text` under `salt`.
pub fn digest(text: &str, salt: &str) -> (out: String)
    ensures
        out@ == digest_of(text@, salt@),
{
    let mut data: Vec<u8> = Vec::new();
    push_bytes(&mut data, text);
    push_bytes(&mut data, salt);
    assert(data@ =~= encode_utf8(text@) + encode_utf8(salt@));
    let raw = md5_of(data.as_slice());
    base64_of(raw.as_slice())
}

} // verus!
