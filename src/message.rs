//! Diagnostic messages of a fixed, bounded length, rendered into a buffer sized
//! in advance from the width of `usize`.

use crate::concat::copy_from_slice;
use crate::slice::IndexError;
use crate::text::{lemma_encode_concat, str_from_utf8};
use vstd::prelude::*;
use vstd::string::StringSliceAdditionalSpecFns;
use vstd::utf8::{encode_utf8, is_ascii_chars};

verus! {

broadcast use vstd::utf8::group_utf8_lib;

/// The character of the decimal digit `d`.
pub open spec fn digit_char(d: nat) -> char {
    ((d + 48) as u8) as char
}

/// The decimal rendering of `n`, most significant digit first, without leading zeros.
pub open spec fn decimal(n: nat) -> Seq<char>
    decreases n,
{
    if n < 10 {
        seq![digit_char(n)]
    } else {
        decimal(n / 10).push(digit_char(n % 10))
    }
}

/// The bytes of an ASCII text, one per character.
pub open spec fn ascii_bytes(chars: Seq<char>) -> Seq<u8> {
    chars.map_values(|c: char| c as u8)
}

/// A decimal rendering has at least one digit, and at most as many as a quarter of
/// the number once that has two digits.
pub proof fn lemma_decimal_len(n: nat)
    ensures
        decimal(n).len() >= 1,
        n >= 10 ==> 4 * decimal(n).len() <= n,
    decreases n,
{
    if n >= 10 {
        lemma_decimal_len(n / 10);
    }
}

/// A larger number never has fewer digits.
pub proof fn lemma_decimal_len_monotonic(a: nat, b: nat)
    requires
        a <= b,
    ensures
        decimal(a).len() <= decimal(b).len(),
    decreases b,
{
    lemma_decimal_len(a);
    lemma_decimal_len(b);
    if a >= 10 {
        lemma_decimal_len_monotonic(a / 10, b / 10);
    }
}

/// A decimal rendering is ASCII text, encoded one byte per digit.
pub proof fn lemma_decimal_ascii(n: nat)
    ensures
        is_ascii_chars(decimal(n)),
        encode_utf8(decimal(n)) == ascii_bytes(decimal(n)),
    decreases n,
{
    if n >= 10 {
        lemma_decimal_ascii(n / 10);
    }
    let d = decimal(n);
    assert(is_ascii_chars(d));
    assert(encode_utf8(d) =~= ascii_bytes(d));
}

/// The number of decimal digits of `n`.
fn decimal_len(n: usize) -> (r: usize)
    ensures
        r == decimal(n as nat).len(),
{
    let mut len: usize = 1;
    let mut m: usize = n;
    while m >= 10
        invariant
            1 <= len,
            m <= n,
            len - 1 + decimal(m as nat).len() == decimal(n as nat).len(),
        decreases m,
    {
        proof {
            lemma_decimal_len(m as nat);
            lemma_decimal_len(m as nat / 10);
            lemma_decimal_len_monotonic(m as nat, n as nat);
            lemma_decimal_len(n as nat);
        }
        m = m / 10;
        len = len + 1;
    }
    len
}

/// The most decimal digits that a `usize` can take.
pub fn usize_str_len() -> (r: usize)
    ensures
        r == decimal(usize::MAX as nat).len(),
{
    decimal_len(usize::MAX)
}

/// Writes the decimal digits of `n` into `buf` from index `at` on, least
/// significant first from the far end, and returns the index past the last
/// digit. Nothing else in `buf` changes.
fn write_usize(n: usize, buf: &mut Vec<u8>, at: usize) -> (next: usize)
    requires
        at + decimal(n as nat).len() <= old(buf)@.len(),
    ensures
        next == at + decimal(n as nat).len(),
        final(buf)@ == old(buf)@.subrange(0, at as int) + ascii_bytes(decimal(n as nat))
            + old(buf)@.subrange(next as int, old(buf)@.len() as int),
{
    let capacity = buf.len();
    let end = at + decimal_len(n);
    let mut pos = end;
    let mut m = n;
    loop
        invariant
            at < pos <= end <= buf@.len(),
            end == at + decimal(n as nat).len(),
            pos - at == decimal(m as nat).len(),
            buf@.len() == old(buf)@.len(),
            buf@.subrange(0, at as int) == old(buf)@.subrange(0, at as int),
            buf@.subrange(end as int, buf@.len() as int) == old(buf)@.subrange(
                end as int,
                old(buf)@.len() as int,
            ),
            ascii_bytes(decimal(n as nat)) == ascii_bytes(decimal(m as nat)) + buf@.subrange(
                pos as int,
                end as int,
            ),
        decreases m,
    {
        proof {
            lemma_decimal_len(m as nat);
            lemma_decimal_len(m as nat / 10);
        }
        let digit = (m % 10) as u8 + 48;
        let ghost before = buf@;
        pos = pos - 1;
        buf.set(pos, digit);
        proof {
            assert(digit == digit_char((m % 10) as nat) as u8);
            assert(buf@.subrange(0, at as int) =~= before.subrange(0, at as int));
            assert(buf@.subrange(end as int, buf@.len() as int) =~= before.subrange(
                end as int,
                before.len() as int,
            ));
            assert(buf@.subrange(pos as int, end as int) =~= seq![digit] + before.subrange(
                pos + 1,
                end as int,
            ));
        }
        if m < 10 {
            proof {
                assert(ascii_bytes(decimal(m as nat)) =~= seq![digit]);
                assert(buf@ =~= buf@.subrange(0, at as int) + buf@.subrange(at as int, end as int)
                    + buf@.subrange(end as int, buf@.len() as int));
            }
            return end;
        }
        proof {
            assert(ascii_bytes(decimal(m as nat)) =~= ascii_bytes(decimal(m as nat / 10)) + seq![
                digit,
            ]);
        }
        m = m / 10;
    }
}

/// Renders `msg_lhs`, then `left` in decimal, then `msg_mid`, then `right` in
/// decimal, into one buffer whose length is fixed before anything is written,
/// and reads the filled part of it back as text.
pub fn build_msg(msg_lhs: &str, left: usize, msg_mid: &str, right: usize) -> (r: String)
    requires
        msg_lhs.spec_bytes().len() + msg_mid.spec_bytes().len() + 2 * decimal(
            usize::MAX as nat,
        ).len() <= usize::MAX,
    ensures
        r@ == msg_lhs@ + decimal(left as nat) + msg_mid@ + decimal(right as nat),
{
    proof {
        lemma_decimal_len_monotonic(left as nat, usize::MAX as nat);
        lemma_decimal_len_monotonic(right as nat, usize::MAX as nat);
        lemma_decimal_ascii(left as nat);
        lemma_decimal_ascii(right as nat);
    }
    let width = usize_str_len();
    let msg_len = msg_lhs.len() + msg_mid.len() + 2 * width;
    let mut msg: Vec<u8> = vec![0u8; msg_len];
    let lhs = msg_lhs.as_bytes();
    let mid = msg_mid.as_bytes();
    let at = copy_from_slice(lhs, &mut msg, 0);
    let at = write_usize(left, &mut msg, at);
    let at = copy_from_slice(mid, &mut msg, at);
    let at = write_usize(right, &mut msg, at);
    let ghost chars = msg_lhs@ + decimal(left as nat) + msg_mid@ + decimal(right as nat);
    let (filled, _) = msg.as_slice().split_at(at);
    proof {
        lemma_encode_concat(msg_lhs@, decimal(left as nat));
        lemma_encode_concat(msg_lhs@ + decimal(left as nat), msg_mid@);
        lemma_encode_concat(msg_lhs@ + decimal(left as nat) + msg_mid@, decimal(right as nat));
        assert(filled@ =~= encode_utf8(chars));
    }
    match str_from_utf8(filled) {
        Some(text) => {
            let r = text.to_owned();
            proof {
                crate::text::lemma_decode_encoded(chars, r@);
            }
            r
        },
        None => unreached(),
    }
}

/// The ASCII literals that messages are made of are encoded one byte per character.
proof fn lemma_ascii_literal(s: &str)
    requires
        is_ascii_chars(s@),
    ensures
        s.spec_bytes().len() == s@.len(),
{
}

/// Two pieces of text and two numbers of at most `usize_str_len` digits fit in a `usize`.
proof fn lemma_message_fits(lhs: &str, mid: &str)
    requires
        is_ascii_chars(lhs@),
        is_ascii_chars(mid@),
        lhs@.len() + mid@.len() <= 64,
    ensures
        lhs.spec_bytes().len() + mid.spec_bytes().len() + 2 * decimal(usize::MAX as nat).len()
            <= usize::MAX,
{
    lemma_ascii_literal(lhs);
    lemma_ascii_literal(mid);
    lemma_decimal_len(usize::MAX as nat);
}

impl IndexError {
    /// The text that describes the failure.
    pub open spec fn message_spec(&self) -> Seq<char> {
        match *self {
            IndexError::Overflow => "attempted to index slice after maximum allowed length"@,
            IndexError::OrderViolation { start, end } => "slice index starts at "@ + decimal(
                start as nat,
            ) + " but ends at "@ + decimal(end as nat),
            IndexError::EndOutOfRange { end, len } => "range end index "@ + decimal(end as nat)
                + " is out of range for slice of length "@ + decimal(len as nat),
        }
    }

    /// Renders the text that describes the failure.
    pub fn message(&self) -> (r: String)
        ensures
            r@ == self.message_spec(),
    {
        match *self {
            IndexError::Overflow => {
                let text = "attempted to index slice after maximum allowed length";
                text.to_owned()
            },
            IndexError::OrderViolation { start, end } => {
                let lhs = "slice index starts at ";
                let mid = " but ends at ";
                proof {
                    reveal_strlit("slice index starts at ");
                    reveal_strlit(" but ends at ");
                    lemma_message_fits(lhs, mid);
                }
                build_msg(lhs, start, mid, end)
            },
            IndexError::EndOutOfRange { end, len } => {
                let lhs = "range end index ";
                let mid = " is out of range for slice of length ";
                proof {
                    reveal_strlit("range end index ");
                    reveal_strlit(" is out of range for slice of length ");
                    lemma_message_fits(lhs, mid);
                }
                build_msg(lhs, end, mid, len)
            },
        }
    }
}

} // verus!
