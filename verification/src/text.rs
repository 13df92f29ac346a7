//! Text helpers: UTF-8 decoding of byte buffers, used to render tags and
//! payloads as text, and decimal rendering of lengths.

use vstd::prelude::*;
use vstd::utf8::decode_utf8;
use vstd::utf8::valid_utf8;

verus! {

/// The decimal digits of `n` as ASCII bytes, most significant first, with no
/// leading zero except for `n == 0` itself.
pub open spec fn spec_decimal_bytes(n: nat) -> Seq<u8>
    decreases n,
{
    if n < 10 {
        seq![(48 + n) as u8]
    } else {
        spec_decimal_bytes(n / 10) + seq![(48 + n % 10) as u8]
    }
}

/// Appends the decimal digits of `n` to `out`.
pub(crate) fn push_decimal(out: &mut Vec<u8>, n: u64)
    ensures
        final(out)@ == old(out)@ + spec_decimal_bytes(n as nat),
    decreases n,
{
    if n < 10 {
        out.push(48 + (n as u8));
        proof {
            assert(out@ =~= old(out)@ + spec_decimal_bytes(n as nat));
        }
    } else {
        proof {
            assert(n / 10 < n && (n as nat) / 10 == (n / 10) as nat && (n as nat) % 10 == (n % 10)
                as nat) by (nonlinear_arith)
                requires
                    n >= 10,
            ;
        }
        push_decimal(out, n / 10);
        out.push(48 + ((n % 10) as u8));
        proof {
            assert(out@ =~= old(out)@ + spec_decimal_bytes(n as nat));
        }
    }
}

/// The decimal digits of any number are ASCII bytes.
pub proof fn lemma_decimal_bytes_ascii(n: nat)
    ensures
        forall|i: int|
            0 <= i < spec_decimal_bytes(n).len() ==> #[trigger] spec_decimal_bytes(n)[i] < 0x80,
    decreases n,
{
    if n < 10 {
        assert(spec_decimal_bytes(n)[0] == (48 + n) as u8);
    } else {
        lemma_decimal_bytes_ascii(n / 10);
        let s = spec_decimal_bytes(n / 10);
        assert forall|i: int| 0 <= i < spec_decimal_bytes(n).len() implies #[trigger] spec_decimal_bytes(
            n,
        )[i] < 0x80 by {
            if i < s.len() {
                assert(spec_decimal_bytes(n)[i] == s[i]);
            } else {
                assert(spec_decimal_bytes(n)[i] == (48 + n % 10) as u8);
            }
        }
    }
}

/// A sequence of ASCII bytes is valid UTF-8.
pub proof fn lemma_ascii_valid_utf8(b: Seq<u8>)
    requires
        forall|i: int| 0 <= i < b.len() ==> #[trigger] b[i] < 0x80,
    ensures
        valid_utf8(b),
{
    assert(b.subrange(0, 0) =~= Seq::<u8>::empty());
    assert(vstd::utf8::partial_valid_utf8(b, 0));
    assert forall|i: int|
        0 <= 0 <= i < b.len() <= b.len() implies #[trigger] vstd::utf8::is_leading_byte_width_1(
        b[i],
    ) by {
        assert(b[i] < 0x80);
    }
    vstd::utf8::partial_valid_utf8_extend_ascii_block(b, 0, b.len() as int);
    assert(b.subrange(0, b.len() as int) =~= b);
}

/// The UTF-8 decoding of a sequence of ASCII bytes is those bytes read as
/// characters, one for one.
pub proof fn lemma_decode_ascii(b: Seq<u8>)
    requires
        forall|i: int| 0 <= i < b.len() ==> #[trigger] b[i] < 0x80,
    ensures
        valid_utf8(b),
        decode_utf8(b) == Seq::new(b.len(), |i: int| b[i] as char),
{
    lemma_ascii_valid_utf8(b);
    let chars = Seq::new(b.len(), |i: int| b[i] as char);
    assert forall|i: int| 0 <= i < chars.len() implies '\0' <= #[trigger] chars[i] <= '\u{7f}' by {
        assert(chars[i] == b[i] as char);
    }
    vstd::utf8::is_ascii_chars_encode_utf8(chars);
    assert(vstd::utf8::encode_utf8(chars) =~= b);
    vstd::utf8::encode_utf8_decode_utf8(chars);
}

/// Relies on `core::str::from_utf8`: it returns `Ok` exactly when the bytes
/// form valid UTF-8, and the resulting text holds the characters they encode.
#[verifier::external_body]
pub(crate) fn try_from_utf8(v: &[u8]) -> (r: Option<&str>)
    ensures
        match r {
            Some(s) => valid_utf8(v@) && s@ == decode_utf8(v@),
            None => !valid_utf8(v@),
        },
{
    core::str::from_utf8(v).ok()
}

} // verus!
