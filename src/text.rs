//! Facts about UTF-8 text that the rest of the library builds on, and the one
//! place where bytes are read back as text.

use vstd::prelude::*;
use vstd::string::StringSliceAdditionalSpecFns;
use vstd::utf8::{decode_utf8, encode_utf8, valid_utf8};

verus! {

broadcast use vstd::utf8::group_utf8_lib;

/// Relies on `core::str::from_utf8`: it succeeds exactly on valid UTF-8, and the
/// text it returns is made of the very bytes it was given.
#[verifier::external_body]
pub(crate) fn str_from_utf8(bytes: &[u8]) -> (r: Option<&str>)
    ensures
        r is Some <==> valid_utf8(bytes@),
        r is Some ==> r->0.spec_bytes() == bytes@,
{
    core::str::from_utf8(bytes).ok()
}

/// Encoding commutes with concatenation.
pub proof fn lemma_encode_concat(a: Seq<char>, b: Seq<char>)
    ensures
        encode_utf8(a + b) == encode_utf8(a) + encode_utf8(b),
    decreases a.len(),
{
    if a.len() == 0 {
        assert(a + b =~= b);
        assert(encode_utf8(a) + encode_utf8(b) =~= encode_utf8(b));
    } else {
        assert((a + b).drop_first() =~= a.drop_first() + b);
        assert((a + b)[0] == a[0]);
        lemma_encode_concat(a.drop_first(), b);
        assert(encode_utf8(a + b) =~= encode_utf8(a) + encode_utf8(b));
    }
}

/// Encoding a concatenation of texts gives the concatenation of their encodings.
pub proof fn lemma_encode_flatten(texts: Seq<Seq<char>>)
    ensures
        encode_utf8(texts.flatten()) == texts.map_values(|t: Seq<char>| encode_utf8(t)).flatten(),
    decreases texts.len(),
{
    let encoded = texts.map_values(|t: Seq<char>| encode_utf8(t));
    if texts.len() == 0 {
        assert(encoded.flatten() =~= Seq::<u8>::empty());
    } else {
        lemma_encode_flatten(texts.drop_first());
        lemma_encode_concat(texts.first(), texts.drop_first().flatten());
        assert(encoded.drop_first() =~= texts.drop_first().map_values(
            |t: Seq<char>| encode_utf8(t),
        ));
    }
}

/// Bytes that encode `chars` read back as exactly `chars`.
pub proof fn lemma_decode_encoded(chars: Seq<char>, text: Seq<char>)
    requires
        encode_utf8(text) == encode_utf8(chars),
    ensures
        text == chars,
{
    assert(decode_utf8(encode_utf8(text)) == text);
    assert(decode_utf8(encode_utf8(chars)) == chars);
}

} // verus!
