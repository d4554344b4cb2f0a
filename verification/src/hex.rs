//! Lower-case hexadecimal text of a byte string.

use rustc_serialize::hex::ToHex;
use vstd::prelude::*;

verus! {

/// The lower-case hexadecimal digit for `d`.
pub open spec fn hex_digit(d: int) -> char
    recommends
        0 <= d < 16,
{
    if d < 10 {
        (d + 48) as char
    } else {
        (d + 87) as char
    }
}

/// Whether `c` is one of `0`..`9`, `a`..`f`.
pub open spec fn is_lower_hex(c: char) -> bool {
    ('0' <= c && c <= '9') || ('a' <= c && c <= 'f')
}

/// Two digits for every byte, the high half first, in the order of the bytes.
pub open spec fn hex_lower(bytes: Seq<u8>) -> Seq<char>
    decreases bytes.len(),
{
    if bytes.len() == 0 {
        Seq::empty()
    } else {
        hex_lower(bytes.drop_last()).push(hex_digit(bytes.last() as int / 16)).push(
            hex_digit(bytes.last() as int % 16),
        )
    }
}

/// `rustc_serialize::hex::ToHex::to_hex` on a byte slice. It walks the bytes in
/// order and, for each, pushes the entry of `0123456789abcdef` at the high four
/// bits and then the one at the low four bits: what `hex_lower` says.
#[verifier::external_body]
fn to_hex(bytes: &[u8]) -> (text: String)
    ensures
        text@ == hex_lower(bytes@),
{
    bytes.to_hex()
}

/// The text of `bytes` in lower-case hexadecimal.
pub fn encode_hex(bytes: &[u8]) -> (text: String)
    ensures
        text@ == hex_lower(bytes@),
        text@.len() == 2 * bytes@.len(),
        forall|i: int| 0 <= i < text@.len() ==> is_lower_hex(#[trigger] text@[i]),
{
    proof {
        lemma_hex_lower_shape(bytes@);
    }
    to_hex(bytes)
}

/// The text has two characters for each byte, and each is a lower-case
/// hexadecimal digit.
pub proof fn lemma_hex_lower_shape(bytes: Seq<u8>)
    ensures
        hex_lower(bytes).len() == 2 * bytes.len(),
        forall|i: int| 0 <= i < 2 * bytes.len() ==> is_lower_hex(#[trigger] hex_lower(bytes)[i]),
    decreases bytes.len(),
{
    if bytes.len() > 0 {
        lemma_hex_lower_shape(bytes.drop_last());
        let hi = bytes.last() as int / 16;
        let lo = bytes.last() as int % 16;
        assert(is_lower_hex(hex_digit(hi)));
        assert(is_lower_hex(hex_digit(lo)));
    }
}

/// Different digits have different characters.
proof fn lemma_hex_digit_injective(a: int, b: int)
    requires
        0 <= a < 16,
        0 <= b < 16,
        hex_digit(a) == hex_digit(b),
    ensures
        a == b,
{
}

/// The text of a byte string determines it: two byte strings with the same
/// text are the same.
pub proof fn lemma_hex_lower_injective(a: Seq<u8>, b: Seq<u8>)
    requires
        hex_lower(a) == hex_lower(b),
    ensures
        a == b,
    decreases a.len(),
{
    lemma_hex_lower_shape(a);
    lemma_hex_lower_shape(b);
    assert(a.len() == b.len());
    if a.len() > 0 {
        let ta = hex_lower(a.drop_last());
        let tb = hex_lower(b.drop_last());
        lemma_hex_lower_shape(a.drop_last());
        lemma_hex_lower_shape(b.drop_last());
        let n = 2 * a.len() - 2;
        assert(hex_lower(a)[n] == hex_digit(a.last() as int / 16));
        assert(hex_lower(b)[n] == hex_digit(b.last() as int / 16));
        assert(hex_lower(a)[n + 1] == hex_digit(a.last() as int % 16));
        assert(hex_lower(b)[n + 1] == hex_digit(b.last() as int % 16));
        lemma_hex_digit_injective(a.last() as int / 16, b.last() as int / 16);
        lemma_hex_digit_injective(a.last() as int % 16, b.last() as int % 16);
        assert(a.last() == b.last());
        assert(ta =~= hex_lower(a).subrange(0, n));
        assert(tb =~= hex_lower(b).subrange(0, n));
        lemma_hex_lower_injective(a.drop_last(), b.drop_last());
        assert(a =~= a.drop_last().push(a.last()));
        assert(b =~= b.drop_last().push(b.last()));
    } else {
        assert(a =~= b);
    }
}

} // verus!
