//! Endpoint-number bitmaps: bit `n` stands for endpoint number `n`.
use vstd::prelude::*;

verus! {

/// Whether bit `n` of an 8-bit map is set.
pub open spec fn has_bit8(m: u8, n: u8) -> bool {
    m & (1u8 << n) != 0
}

/// Whether bit `n` of a 16-bit map is set.
pub open spec fn has_bit16(m: u16, n: u16) -> bool {
    m & (1u16 << n) != 0
}

/// Sets bit `n` of an 8-bit map.
pub fn set_bit8(m: u8, n: u8) -> (r: u8)
    requires
        n < 8,
    ensures
        r == m | (1u8 << n),
        forall|k: u8| k < 8 ==> (#[trigger] has_bit8(r, k) <==> (k == n || has_bit8(m, k))),
        m < 16 && n < 4 ==> r < 16,
{
    let r = m | (1u8 << n);
    assert(forall|k: u8| k < 8 ==> ((r & (1u8 << k) != 0) <==> (k == n || m & (1u8 << k) != 0)))
        by (bit_vector)
        requires
            r == m | (1u8 << n),
            n < 8,
    ;
    assert(m < 16 && n < 4 ==> r < 16) by (bit_vector)
        requires
            r == m | (1u8 << n),
    ;
    r
}

} // verus!
