//! Lowest-set-bit helpers on the unsigned integer types.

use vstd::prelude::*;

verus! {

/// Position of the lowest set bit of a non-zero `x`.
pub fn lsb_u8(x: u8) -> (r: u32)
    requires
        x != 0,
    ensures
        r == vstd::std_specs::bits::u8_trailing_zeros(x),
        r < 8,
        (x >> (r as u8)) & 1u8 == 1u8,
        forall|j: u8| j < r ==> #[trigger] (x >> j) & 1u8 == 0u8,
{
    proof {
        vstd::std_specs::bits::axiom_u8_trailing_zeros(x);
    }
    x.trailing_zeros()
}

/// `x` with its lowest set bit cleared; `x` must not be zero.
pub fn blsr_u8(x: u8) -> (r: u8)
    requires
        x != 0,
    ensures
        r == x & ((x - 1) as u8),
        r < x,
{
    let y: u8 = x - 1;
    assert(x & y < x) by (bit_vector)
        requires
            x != 0,
            y == (x - 1) as u8,
    ;
    x & y
}

/// Clears the lowest set bit of a non-zero `x` and returns its position.
pub fn pop_lsb_u8(x: &mut u8) -> (r: u32)
    requires
        *old(x) != 0,
    ensures
        r == vstd::std_specs::bits::u8_trailing_zeros(*old(x)),
        r < 8,
        *final(x) == *old(x) & ((*old(x) - 1) as u8),
        *final(x) < *old(x),
{
    let res: u32 = lsb_u8(*x);
    *x = blsr_u8(*x);
    res
}

/// Position of the lowest set bit of a non-zero `x`.
pub fn lsb_u16(x: u16) -> (r: u32)
    requires
        x != 0,
    ensures
        r == vstd::std_specs::bits::u16_trailing_zeros(x),
        r < 16,
        (x >> (r as u16)) & 1u16 == 1u16,
        forall|j: u16| j < r ==> #[trigger] (x >> j) & 1u16 == 0u16,
{
    proof {
        vstd::std_specs::bits::axiom_u16_trailing_zeros(x);
    }
    x.trailing_zeros()
}

/// `x` with its lowest set bit cleared; `x` must not be zero.
pub fn blsr_u16(x: u16) -> (r: u16)
    requires
        x != 0,
    ensures
        r == x & ((x - 1) as u16),
        r < x,
{
    let y: u16 = x - 1;
    assert(x & y < x) by (bit_vector)
        requires
            x != 0,
            y == (x - 1) as u16,
    ;
    x & y
}

/// Clears the lowest set bit of a non-zero `x` and returns its position.
pub fn pop_lsb_u16(x: &mut u16) -> (r: u32)
    requires
        *old(x) != 0,
    ensures
        r == vstd::std_specs::bits::u16_trailing_zeros(*old(x)),
        r < 16,
        *final(x) == *old(x) & ((*old(x) - 1) as u16),
        *final(x) < *old(x),
{
    let res: u32 = lsb_u16(*x);
    *x = blsr_u16(*x);
    res
}

/// Position of the lowest set bit of a non-zero `x`.
pub fn lsb_u32(x: u32) -> (r: u32)
    requires
        x != 0,
    ensures
        r == vstd::std_specs::bits::u32_trailing_zeros(x),
        r < 32,
        (x >> r) & 1u32 == 1u32,
        forall|j: u32| j < r ==> #[trigger] (x >> j) & 1u32 == 0u32,
{
    proof {
        vstd::std_specs::bits::axiom_u32_trailing_zeros(x);
    }
    x.trailing_zeros()
}

/// `x` with its lowest set bit cleared; `x` must not be zero.
pub fn blsr_u32(x: u32) -> (r: u32)
    requires
        x != 0,
    ensures
        r == x & ((x - 1) as u32),
        r < x,
{
    let y: u32 = x - 1;
    assert(x & y < x) by (bit_vector)
        requires
            x != 0,
            y == (x - 1) as u32,
    ;
    x & y
}

/// Clears the lowest set bit of a non-zero `x` and returns its position.
pub fn pop_lsb_u32(x: &mut u32) -> (r: u32)
    requires
        *old(x) != 0,
    ensures
        r == vstd::std_specs::bits::u32_trailing_zeros(*old(x)),
        r < 32,
        *final(x) == *old(x) & ((*old(x) - 1) as u32),
        *final(x) < *old(x),
{
    let res: u32 = lsb_u32(*x);
    *x = blsr_u32(*x);
    res
}

/// The positions of the set bits of `x`, lowest first, as a specification.
pub open spec fn ones_u32(x: u32) -> Seq<u32>
    decreases x,
{
    if x == 0 {
        Seq::empty()
    } else {
        let y: u32 = x & ((x - 1) as u32);
        if y < x {
            seq![vstd::std_specs::bits::u32_trailing_zeros(x)] + ones_u32(y)
        } else {
            Seq::empty()
        }
    }
}

/// The positions of the set bits of `x` in ascending order.
pub fn iter_ones_u32(x: u32) -> (r: Vec<u32>)
    ensures
        r@ == ones_u32(x),
{
    let mut v: Vec<u32> = Vec::new();
    let mut y: u32 = x;
    while y != 0
        invariant
            v@ + ones_u32(y) == ones_u32(x),
        decreases y,
    {
        let ghost before = y;
        let i: u32 = pop_lsb_u32(&mut y);
        v.push(i);
        assert(ones_u32(before) == seq![i] + ones_u32(y));
        assert(v@ + ones_u32(y) =~= (v@.drop_last() + seq![i]) + ones_u32(y));
        assert((v@.drop_last() + seq![i]) + ones_u32(y) =~= v@.drop_last() + (seq![i] + ones_u32(y)));
    }
    assert(ones_u32(0) =~= Seq::<u32>::empty());
    assert(v@ + Seq::<u32>::empty() =~= v@);
    v
}

/// Position of the lowest set bit of a non-zero `x`.
pub fn lsb_u64(x: u64) -> (r: u32)
    requires
        x != 0,
    ensures
        r == vstd::std_specs::bits::u64_trailing_zeros(x),
        r < 64,
        (x >> (r as u64)) & 1u64 == 1u64,
        forall|j: u64| j < r ==> #[trigger] (x >> j) & 1u64 == 0u64,
{
    proof {
        vstd::std_specs::bits::axiom_u64_trailing_zeros(x);
    }
    x.trailing_zeros()
}

/// `x` with its lowest set bit cleared; `x` must not be zero.
pub fn blsr_u64(x: u64) -> (r: u64)
    requires
        x != 0,
    ensures
        r == x & ((x - 1) as u64),
        r < x,
{
    let y: u64 = x - 1;
    assert(x & y < x) by (bit_vector)
        requires
            x != 0,
            y == (x - 1) as u64,
    ;
    x & y
}

/// Clears the lowest set bit of a non-zero `x` and returns its position.
pub fn pop_lsb_u64(x: &mut u64) -> (r: u32)
    requires
        *old(x) != 0,
    ensures
        r == vstd::std_specs::bits::u64_trailing_zeros(*old(x)),
        r < 64,
        *final(x) == *old(x) & ((*old(x) - 1) as u64),
        *final(x) < *old(x),
{
    let res: u32 = lsb_u64(*x);
    *x = blsr_u64(*x);
    res
}

} // verus!
