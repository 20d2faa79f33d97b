//! Concatenation of byte slices and string slices into one exactly-sized buffer.

use crate::text::{lemma_decode_encoded, lemma_encode_flatten, str_from_utf8};
use vstd::prelude::*;
use vstd::seq_lib::lemma_flatten_concat;
use vstd::string::StringSliceAdditionalSpecFns;
use vstd::utf8::encode_utf8;

verus! {

broadcast use vstd::utf8::group_utf8_lib;

/// Copies `src` into `dst` from index `at` on and returns the index past the
/// last byte copied. Nothing else in `dst` changes.
pub(crate) fn copy_from_slice(src: &[u8], dst: &mut Vec<u8>, at: usize) -> (next: usize)
    requires
        at + src@.len() <= old(dst)@.len(),
    ensures
        next == at + src@.len(),
        final(dst)@ == old(dst)@.subrange(0, at as int) + src@ + old(dst)@.subrange(
            next as int,
            old(dst)@.len() as int,
        ),
{
    let capacity = dst.len();
    let mut i: usize = 0;
    while i < src.len()
        invariant
            i <= src@.len(),
            capacity == old(dst)@.len(),
            at + src@.len() <= dst@.len(),
            dst@.len() == old(dst)@.len(),
            forall|k: int| 0 <= k < at ==> dst@[k] == old(dst)@[k],
            forall|k: int| 0 <= k < i ==> dst@[at + k] == src@[k],
            forall|k: int| at + src@.len() <= k < dst@.len() ==> dst@[k] == old(dst)@[k],
        decreases src@.len() - i,
    {
        dst.set(at + i, src[i]);
        i = i + 1;
    }
    assert(dst@ =~= old(dst)@.subrange(0, at as int) + src@ + old(dst)@.subrange(
        (at + src@.len()) as int,
        old(dst)@.len() as int,
    ));
    at + src.len()
}

/// The contents of each source, in order.
pub open spec fn views(sources: Seq<&[u8]>) -> Seq<Seq<u8>> {
    sources.map_values(|b: &[u8]| b@)
}

/// All bytes of `sources`, one source after the other, with no gap.
pub open spec fn concat_spec(sources: Seq<&[u8]>) -> Seq<u8> {
    views(sources).flatten()
}

/// The sum of the lengths of `sources`.
pub open spec fn sum_lens(sources: Seq<&[u8]>) -> nat
    decreases sources.len(),
{
    if sources.len() == 0 {
        0
    } else {
        sources[0]@.len() + sum_lens(sources.drop_first())
    }
}

/// The concatenation of byte slices is as long as all of them together.
pub proof fn lemma_concat_length(sources: Seq<&[u8]>)
    ensures
        concat_spec(sources).len() == sum_lens(sources),
    decreases sources.len(),
{
    if sources.len() > 0 {
        lemma_concat_length(sources.drop_first());
        assert(views(sources).drop_first() =~= views(sources.drop_first()));
    }
}

/// Concatenating no slices gives no bytes, and concatenating one gives its bytes.
pub proof fn lemma_concat_trivial(sources: Seq<&[u8]>)
    ensures
        sources.len() == 0 ==> concat_spec(sources) == Seq::<u8>::empty(),
        sources.len() == 1 ==> concat_spec(sources) == sources[0]@,
{
    if sources.len() == 1 {
        views(sources).lemma_flatten_singleton();
    }
}

/// Concatenating the concatenations of two runs of slices is concatenating the
/// two runs one after the other: no byte is lost, moved or added at the seam.
pub proof fn lemma_concat_split(a: Seq<&[u8]>, b: Seq<&[u8]>)
    ensures
        concat_spec(a + b) == concat_spec(a) + concat_spec(b),
{
    assert(views(a + b) =~= views(a) + views(b));
    lemma_flatten_concat(views(a), views(b));
}

/// The characters of each text, in order.
pub open spec fn texts(strs: Seq<&str>) -> Seq<Seq<char>> {
    strs.map_values(|s: &str| s@)
}

/// All characters of `strs`, one text after the other.
pub open spec fn concat_text(strs: Seq<&str>) -> Seq<char> {
    texts(strs).flatten()
}

/// The bytes of the first `i` sources followed by the rest make up all of them.
proof fn lemma_prefix_concat(sources: Seq<&[u8]>, i: int)
    requires
        0 <= i < sources.len(),
    ensures
        concat_spec(sources.subrange(0, i + 1)) == concat_spec(sources.subrange(0, i))
            + sources[i]@,
        concat_spec(sources.subrange(0, i + 1)).len() <= concat_spec(sources).len(),
{
    assert(views(sources.subrange(0, i + 1)) =~= views(sources.subrange(0, i)).push(sources[i]@));
    views(sources.subrange(0, i)).lemma_flatten_push(sources[i]@);
    assert(views(sources) =~= views(sources.subrange(0, i + 1)) + views(
        sources.subrange(i + 1, sources.len() as int),
    ));
    lemma_flatten_concat(
        views(sources.subrange(0, i + 1)),
        views(sources.subrange(i + 1, sources.len() as int)),
    );
}

/// Sums the lengths of `sources`: the exact length of their concatenation, or
/// `None` where that does not fit in a `usize`.
pub fn concat_len(sources: &[&[u8]]) -> (r: Option<usize>)
    ensures
        r is Some <==> concat_spec(sources@).len() <= usize::MAX,
        r is Some ==> r->0 == concat_spec(sources@).len(),
{
    let mut total: usize = 0;
    let mut i: usize = 0;
    while i < sources.len()
        invariant
            i <= sources@.len(),
            total == concat_spec(sources@.subrange(0, i as int)).len(),
        decreases sources@.len() - i,
    {
        proof {
            lemma_prefix_concat(sources@, i as int);
        }
        match total.checked_add(sources[i].len()) {
            Some(next) => total = next,
            None => return None,
        }
        i = i + 1;
    }
    assert(sources@.subrange(0, i as int) =~= sources@);
    Some(total)
}

/// Builds a buffer of `capacity` bytes, filled with zeros, and copies `sources`
/// into it one after the other from the start.
fn materialize(sources: &[&[u8]], capacity: usize) -> (r: Vec<u8>)
    requires
        concat_spec(sources@).len() <= capacity,
    ensures
        r@.len() == capacity,
        r@.subrange(0, concat_spec(sources@).len() as int) == concat_spec(sources@),
        forall|k: int| concat_spec(sources@).len() <= k < capacity ==> r@[k] == 0,
{
    let mut out: Vec<u8> = vec![0u8; capacity];
    let mut at: usize = 0;
    let mut i: usize = 0;
    while i < sources.len()
        invariant
            i <= sources@.len(),
            concat_spec(sources@).len() <= capacity,
            out@.len() == capacity,
            at == concat_spec(sources@.subrange(0, i as int)).len(),
            at <= concat_spec(sources@).len(),
            out@.subrange(0, at as int) == concat_spec(sources@.subrange(0, i as int)),
            forall|k: int| at <= k < capacity ==> out@[k] == 0,
        decreases sources@.len() - i,
    {
        proof {
            lemma_prefix_concat(sources@, i as int);
        }
        let ghost before = out@;
        at = copy_from_slice(sources[i], &mut out, at);
        i = i + 1;
        proof {
            assert(out@.subrange(0, at as int) =~= concat_spec(sources@.subrange(0, i as int)));
            assert forall|k: int| at <= k < capacity implies out@[k] == 0 by {
                assert(out@[k] == before[k]);
            }
        }
    }
    assert(sources@.subrange(0, i as int) =~= sources@);
    out
}

/// Concatenates `sources` for a caller that only knows an upper bound on their
/// total length: fills a buffer of `upper` bytes, then shrinks it to the exact
/// length.
pub fn concat_bytes_with_upper_bound(sources: &[&[u8]], upper: usize) -> (r: Vec<u8>)
    requires
        concat_spec(sources@).len() <= upper,
    ensures
        r@ == concat_spec(sources@),
{
    let exact = match concat_len(sources) {
        Some(n) => n,
        None => unreached(),
    };
    let mut out = materialize(sources, upper);
    out.truncate(exact);
    proof {
        assert(out@ =~= concat_spec(sources@));
    }
    out
}

/// Concatenates `sources` into one buffer of exactly their total length.
pub fn concat_bytes(sources: &[&[u8]]) -> (r: Vec<u8>)
    requires
        concat_spec(sources@).len() <= usize::MAX,
    ensures
        r@ == concat_spec(sources@),
{
    let upper = match concat_len(sources) {
        Some(n) => n,
        None => unreached(),
    };
    concat_bytes_with_upper_bound(sources, upper)
}

/// Concatenates two byte slices.
pub fn concat_bytes2(lhs: &[u8], rhs: &[u8]) -> (r: Vec<u8>)
    requires
        lhs@.len() + rhs@.len() <= usize::MAX,
    ensures
        r@ == lhs@ + rhs@,
{
    let sources: Vec<&[u8]> = vec![lhs, rhs];
    proof {
        assert(views(sources@) =~= seq![lhs@, rhs@]);
        lemma_flatten_concat(seq![lhs@], seq![rhs@]);
        assert(seq![lhs@] + seq![rhs@] =~= seq![lhs@, rhs@]);
        seq![lhs@].lemma_flatten_singleton();
        seq![rhs@].lemma_flatten_singleton();
    }
    concat_bytes(sources.as_slice())
}

/// Concatenates `strs` into one string: their bytes are concatenated, and the
/// result, valid UTF-8 because each part is, is read back as text.
pub fn concat_strs(strs: &[&str]) -> (r: String)
    requires
        encode_utf8(concat_text(strs@)).len() <= usize::MAX,
    ensures
        r@ == concat_text(strs@),
{
    let mut sources: Vec<&[u8]> = Vec::new();
    let mut i: usize = 0;
    while i < strs.len()
        invariant
            i <= strs@.len(),
            sources@.len() == i,
            forall|k: int| 0 <= k < i ==> (#[trigger] sources@[k])@ == strs@[k].spec_bytes(),
        decreases strs@.len() - i,
    {
        sources.push(strs[i].as_bytes());
        i = i + 1;
    }
    proof {
        lemma_encode_flatten(texts(strs@));
        assert(views(sources@) =~= texts(strs@).map_values(|t: Seq<char>| encode_utf8(t)));
    }
    let bytes = concat_bytes(sources.as_slice());
    match str_from_utf8(bytes.as_slice()) {
        Some(text) => {
            let r = text.to_owned();
            proof {
                lemma_decode_encoded(concat_text(strs@), r@);
            }
            r
        },
        None => unreached(),
    }
}

/// Concatenates two string slices.
pub fn concat_strs2(lhs: &str, rhs: &str) -> (r: String)
    requires
        lhs.spec_bytes().len() + rhs.spec_bytes().len() <= usize::MAX,
    ensures
        r@ == lhs@ + rhs@,
{
    let strs: Vec<&str> = vec![lhs, rhs];
    proof {
        assert(texts(strs@) =~= seq![lhs@, rhs@]);
        lemma_flatten_concat(seq![lhs@], seq![rhs@]);
        assert(seq![lhs@] + seq![rhs@] =~= seq![lhs@, rhs@]);
        seq![lhs@].lemma_flatten_singleton();
        seq![rhs@].lemma_flatten_singleton();
        crate::text::lemma_encode_concat(lhs@, rhs@);
    }
    concat_strs(strs.as_slice())
}

} // verus!
