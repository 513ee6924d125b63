//! Small byte-level encoders used across the library: lower-case hex,
//! decimal rendering of integers, and fixed-width copies.
//!
//! Event payloads for external indexers are built from these, so each
//! encoder carries an exact specification.

use vstd::prelude::*;

verus! {

/// ASCII code of the lower-case hex digit for a value below 16.
pub open spec fn spec_hex_digit(n: u8) -> u8 {
    if n < 10 {
        (0x30 + n) as u8
    } else {
        (0x57 + n) as u8
    }
}

/// Lower-case hexadecimal encoding of a byte string, two digits per byte,
/// high nibble first.
pub open spec fn spec_hex(data: Seq<u8>) -> Seq<u8> {
    Seq::new(
        2 * data.len(),
        |i: int|
            if i % 2 == 0 {
                spec_hex_digit((data[i / 2] / 16) as u8)
            } else {
                spec_hex_digit((data[i / 2] % 16) as u8)
            },
    )
}

/// Decimal rendering of a natural number, most significant digit first,
/// with no leading zeros (a single `0` for zero itself).
pub open spec fn spec_decimal(n: nat) -> Seq<u8>
    decreases n,
{
    if n < 10 {
        seq![(0x30 + n) as u8]
    } else {
        spec_decimal((n / 10) as nat).push((0x30 + n % 10) as u8)
    }
}

/// Hex-encodes a byte string: every byte becomes two lower-case digits.
pub fn hex_bytes(data: &[u8]) -> (r: Vec<u8>)
    ensures
        r@ == spec_hex(data@),
        forall|j: int| 0 <= j < r@.len() ==> r@[j] < 128,
{
    let mut out: Vec<u8> = Vec::new();
    let len: usize = data.len();
    let mut i: usize = 0;
    while i < len
        invariant
            len == data@.len(),
            i <= len,
            out@ == spec_hex(data@).take(2 * i),
            forall|j: int| 0 <= j < out@.len() ==> out@[j] < 128,
        decreases len - i,
    {
        let b = data[i];
        out.push(hex_digit(b / 16));
        out.push(hex_digit(b % 16));
        i = i + 1;
        assert(out@ =~= spec_hex(data@).take(2 * i));
    }
    assert(out@ =~= spec_hex(data@));
    out
}

/// The lower-case hex digit for a value below 16.
fn hex_digit(n: u8) -> (r: u8)
    requires
        n < 16,
    ensures
        r == spec_hex_digit(n),
        r < 128,
{
    if n < 10 {
        0x30 + n
    } else {
        0x57 + n
    }
}

/// Appends the decimal rendering of `n` to `out`.
fn push_decimal(n: u64, out: &mut Vec<u8>)
    ensures
        final(out)@ == old(out)@ + spec_decimal(n as nat),
    decreases n,
{
    if n >= 10 {
        assert(n / 10 < n) by (nonlinear_arith)
            requires
                n >= 10,
        ;
        push_decimal(n / 10, out);
    }
    out.push(0x30 + (n % 10) as u8);
}

/// Decimal rendering of `n`, most significant digit first.
pub fn decimal_bytes(n: u64) -> (r: Vec<u8>)
    ensures
        r@ == spec_decimal(n as nat),
        forall|j: int| 0 <= j < r@.len() ==> r@[j] < 128,
{
    let mut out: Vec<u8> = Vec::new();
    push_decimal(n, &mut out);
    proof {
        lemma_decimal_ascii(n as nat);
    }
    out
}

/// Every byte of a decimal rendering is an ASCII digit.
proof fn lemma_decimal_ascii(n: nat)
    ensures
        forall|j: int| 0 <= j < spec_decimal(n).len() ==> 0x30 <= #[trigger] spec_decimal(n)[j] <= 0x39,
    decreases n,
{
    if n >= 10 {
        lemma_decimal_ascii((n / 10) as nat);
        let prefix = spec_decimal((n / 10) as nat);
        assert(spec_decimal(n) == prefix.push((0x30 + n % 10) as u8));
        assert forall|j: int| 0 <= j < spec_decimal(n).len() implies 0x30 <= #[trigger] spec_decimal(
            n,
        )[j] <= 0x39 by {
            if j < prefix.len() {
                assert(spec_decimal(n)[j] == prefix[j]);
            }
        }
    }
}

/// Relies on String::from_utf8: bytes below 128 decode to exactly one
/// character each, with the same code point.
#[verifier::external_body]
pub fn ascii_string(bytes: Vec<u8>) -> (r: String)
    requires
        forall|j: int| 0 <= j < bytes@.len() ==> bytes@[j] < 128,
    ensures
        r@ == bytes@.map_values(|b: u8| b as char),
{
    String::from_utf8(bytes).unwrap()
}

/// Copies a 32-byte slice into a fixed-width array.
pub fn bytes32(data: &[u8]) -> (r: [u8; 32])
    requires
        data@.len() == 32,
    ensures
        r@ == data@,
{
    let mut out: [u8; 32] = [0u8; 32];
    let mut i: usize = 0;
    while i < 32
        invariant
            i <= 32,
            data@.len() == 32,
            forall|j: int| 0 <= j < i ==> out@[j] == data@[j],
        decreases 32 - i,
    {
        out[i] = data[i];
        i = i + 1;
    }
    assert(out@ =~= data@);
    out
}

} // verus!
