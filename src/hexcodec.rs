use vstd::prelude::*;

verus! {

/// The lowercase hex digit for a value below 16.
pub open spec fn hex_digit(n: int) -> char {
    seq!['0', '1', '2', '3', '4', '5', '6', '7', '8', '9', 'a', 'b', 'c', 'd', 'e', 'f'][n]
}

/// Lowercase hex text of a byte string: two digits per byte, high nibble first.
pub open spec fn hex_of(b: Seq<u8>) -> Seq<char> {
    Seq::new(
        2 * b.len(),
        |i: int|
            if i % 2 == 0 {
                hex_digit(b[i / 2] as int / 16)
            } else {
                hex_digit(b[i / 2] as int % 16)
            },
    )
}

/// Value of one hex digit given as an ASCII byte (either case), or -1.
pub open spec fn nibble(c: u8) -> int {
    if 48 <= c <= 57 {
        c - 48
    } else if 97 <= c <= 102 {
        c - 87
    } else if 65 <= c <= 70 {
        c - 55
    } else {
        -1
    }
}

/// Text of even length made of hex digits only.
pub open spec fn is_hex_text(t: Seq<u8>) -> bool {
    &&& t.len() % 2 == 0
    &&& forall|i: int| 0 <= i < t.len() ==> nibble(#[trigger] t[i]) >= 0
}

/// The bytes that hex text stands for, one byte per pair of digits.
pub open spec fn hex_value(t: Seq<u8>) -> Seq<u8> {
    Seq::new(t.len() / 2, |i: int| (16 * nibble(t[2 * i]) + nibble(t[2 * i + 1])) as u8)
}

#[verifier::external_type_specification]
#[verifier::external_body]
pub struct ExFromHexError(hex::FromHexError);

/// Relies on hex::encode: two lowercase digits for each byte, in order.
#[verifier::external_body]
pub(crate) fn hex_encode(b: &[u8]) -> (r: String)
    ensures
        r@ == hex_of(b@),
{
    hex::encode(b)
}

/// Relies on hex::decode: text of odd length or with a byte that is no hex
/// digit (either case) is refused; otherwise each pair of digits gives a byte.
#[verifier::external_body]
pub(crate) fn hex_decode(t: &[u8]) -> (r: Result<Vec<u8>, hex::FromHexError>)
    ensures
        r is Ok <==> is_hex_text(t@),
        r is Ok ==> r->Ok_0@ == hex_value(t@),
{
    hex::decode(t)
}

/// Hex text read back gives the bytes it was made from.
pub proof fn lemma_hex_round_trip(b: Seq<u8>)
    ensures
        is_hex_text(hex_of(b).map_values(|c: char| c as u8)),
        hex_value(hex_of(b).map_values(|c: char| c as u8)) == b,
{
    let t = hex_of(b).map_values(|c: char| c as u8);
    assert forall|i: int| 0 <= i < t.len() implies nibble(#[trigger] t[i]) >= 0 && (i % 2 == 0
        ==> nibble(t[i]) == b[i / 2] as int / 16) && (i % 2 == 1 ==> nibble(t[i]) == b[i / 2] as int % 16) by {
        let v: int = if i % 2 == 0 { b[i / 2] as int / 16 } else { b[i / 2] as int % 16 };
        assert(0 <= v < 16);
        assert(hex_of(b)[i] == hex_digit(v));
    }
    assert(t.len() == 2 * b.len());
    assert forall|k: int| 0 <= k < b.len() implies #[trigger] hex_value(t)[k] == b[k] by {
        assert(2 * k / 2 == k);
        assert((2 * k + 1) / 2 == k);
        assert((2 * k) % 2 == 0);
        assert((2 * k + 1) % 2 == 1);
        let x = b[k] as int;
        assert(16 * (x / 16) + x % 16 == x);
    }
    assert(hex_value(t) =~= b);
}

} // verus!
