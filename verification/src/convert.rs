//! Conversions between packed BCD bytes and plain decimal values, as used by
//! the real-time-clock register encoding.

use vstd::prelude::*;

verus! {

/// Why a BCD or decimal conversion was refused.
#[derive(Clone, Copy, Debug, PartialEq, Eq, Structural)]
pub enum ConvertError {
    /// One of the two BCD nibbles is above 9.
    BadBcd,
    /// The decimal value is above 99 and has no two-digit BCD form.
    BadDec,
}

/// The decimal value of a packed BCD byte, meaningful when both nibbles are
/// at most 9.
pub open spec fn bcd_value(bcd: u8) -> int {
    ((bcd >> 4) & 0x0F) * 10 + (bcd & 0x0F)
}

/// Whether both nibbles of `bcd` are decimal digits.
pub open spec fn is_valid_bcd(bcd: u8) -> bool {
    ((bcd >> 4) & 0x0F) <= 9 && (bcd & 0x0F) <= 9
}

/// The packed BCD byte of a decimal value below 100.
pub open spec fn bcd_of(dec: u8) -> u8 {
    (((dec / 10) << 4) | (dec % 10)) as u8
}

/// Decode a packed BCD byte into its decimal value.
pub fn bcd_to_dec(bcd: u8) -> (r: Result<u8, ConvertError>)
    ensures
        is_valid_bcd(bcd) <==> r is Ok,
        r matches Ok(v) ==> v == bcd_value(bcd) && v <= 99,
        !is_valid_bcd(bcd) ==> r == Result::<u8, ConvertError>::Err(ConvertError::BadBcd),
{
    let high = (bcd >> 4) & 0x0F;
    let low = bcd & 0x0F;

    if high > 9 || low > 9 {
        return Err(ConvertError::BadBcd);
    }

    Ok(high * 10 + low)
}

/// Encode a decimal value below 100 as a packed BCD byte.
pub fn dec_to_bcd(dec: u8) -> (r: Result<u8, ConvertError>)
    ensures
        dec <= 99 <==> r is Ok,
        r matches Ok(b) ==> b == bcd_of(dec) && is_valid_bcd(b) && bcd_value(b) == dec,
        dec > 99 ==> r == Result::<u8, ConvertError>::Err(ConvertError::BadDec),
{
    if dec > 99 {
        return Err(ConvertError::BadDec);
    }

    let b = ((dec / 10) << 4) | (dec % 10);
    proof {
        lemma_bcd_round_trip(dec);
    }
    Ok(b)
}

/// Encoding a decimal value below 100 and decoding the result gives the value
/// back: the two conversions are inverse on their shared domain.
pub proof fn lemma_bcd_round_trip(dec: u8)
    requires
        dec <= 99,
    ensures
        is_valid_bcd(bcd_of(dec)),
        bcd_value(bcd_of(dec)) == dec,
{
    let h = dec / 10;
    let l = dec % 10;
    assert(h <= 9 && l <= 9) by (nonlinear_arith)
        requires
            dec <= 99,
            h == dec / 10,
            l == dec % 10,
    ;
    assert(dec == h * 10 + l) by (nonlinear_arith)
        requires
            h == dec / 10,
            l == dec % 10,
    ;
    assert((((h << 4) | l) >> 4) & 0x0F == h && ((h << 4) | l) & 0x0F == l) by (bit_vector)
        requires
            h <= 9 && l <= 9,
    ;
}

} // verus!
