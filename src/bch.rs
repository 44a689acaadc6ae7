use vstd::prelude::*;

verus! {

/// Format-information mask of the standard.
pub const ECC_FORMAT_MASK: u16 = 21522;

/// Generator polynomial of the version information, x^12 + x^11 + x^10 + x^9 + x^8 + x^5 + x^2 + 1.
pub const GEN_POLY_VERSION: u32 = 7973;

/// Generator polynomial of the format information, x^10 + x^8 + x^5 + x^4 + x^2 + x + 1.
pub const GEN_POLY_FORMAT: u16 = 1335;

/// Polynomial division over GF(2), one bit at a time: from bit `top` down to
/// bit `deg`, every set bit is cleared by adding `gen` (of degree `deg`)
/// shifted under it. What remains below bit `deg` is the remainder.
pub open spec fn bch_reduce(value: u32, gen: u32, deg: nat, top: int) -> u32
    decreases top + 1,
{
    if top < deg || top >= 32 {
        value
    } else {
        let next = if value & (1u32 << (top as u32)) != 0 {
            value ^ (gen << ((top - deg) as u32))
        } else {
            value
        };
        bch_reduce(next, gen, deg, top - 1)
    }
}

fn bch_remainder(value: u32, gen: u32, deg: u32, top: u32) -> (r: u32)
    requires
        1 <= deg <= top < 32,
    ensures
        r == bch_reduce(value, gen, deg as nat, top as int),
{
    let mut v = value;
    let mut i = top;
    while i >= deg
        invariant
            1 <= deg <= top < 32,
            deg - 1 <= i <= top,
            bch_reduce(v, gen, deg as nat, i as int) == bch_reduce(
                value,
                gen,
                deg as nat,
                top as int,
            ),
        decreases i,
    {
        if v & (1u32 << i) != 0 {
            v = v ^ (gen << (i - deg));
        }
        i -= 1;
    }
    v
}

/// The 18-bit version string: the 6-bit `data` followed by the 12-bit BCH
/// remainder of `data * x^12` modulo `gen_poly` (a polynomial of degree 12).
pub fn ecc_format_u32(data: u32, gen_poly: u32) -> (r: u32)
    requires
        data < 64,
        4096 <= gen_poly < 8192,
    ensures
        r == (data << 12u32) | bch_reduce(data << 12u32, gen_poly, 12, 17),
{
    let format_str = bch_remainder(data << 12u32, gen_poly, 12, 17);
    (data << 12u32) | format_str
}

/// The 15-bit format string: the 5-bit `data` followed by the 10-bit BCH
/// remainder of `data * x^10` modulo `gen_poly` (a polynomial of degree 10),
/// the whole XORed with `gen_mask`.
pub fn ecc_format_u16(data: u16, gen_poly: u16, gen_mask: u16) -> (r: u16)
    requires
        data < 32,
        1024 <= gen_poly < 2048,
    ensures
        r == ((((data as u32) << 10u32) | bch_reduce(
            (data as u32) << 10u32,
            gen_poly as u32,
            10,
            14,
        )) ^ gen_mask as u32) as u16,
{
    let shifted = (data as u32) << 10u32;
    let format_str = bch_remainder(shifted, gen_poly as u32, 10, 14);
    ((shifted | format_str) ^ gen_mask as u32) as u16
}

} // verus!
