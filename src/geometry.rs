//! Partition of a viewport into whole square cells, centred.
use vstd::prelude::*;

verus! {

/// How many whole cells fit along each axis, and the space left over.
///
/// The grid is centred: the offset of the first cell along an axis is half of
/// the spare space along it.
#[derive(Debug, Clone, Copy, PartialEq, Eq)]
pub struct Amount {
    pub amount_x: u32,
    pub amount_y: u32,
    /// Width not covered by cells; the horizontal offset is half of it.
    pub spare_x: u32,
    /// Height not covered by cells; the vertical offset is half of it.
    pub spare_y: u32,
}

/// The number of cells of edge `size` that fit into `length`.
pub open spec fn fit_count(size: nat, length: nat) -> nat
    recommends
        size > 0,
{
    length / size
}

/// Partition along one axis: accumulate `size` while the next cell still fits.
/// Returns the count and the spare length.
fn fit_axis(size: u32, length: u32) -> (r: (u32, u32))
    requires
        size > 0,
    ensures
        r.0 == fit_count(size as nat, length as nat),
        r.1 == length - r.0 * size,
        r.1 < size,
{
    let mut count: u32 = 0;
    let mut current: u32 = 0;
    loop
        invariant
            size > 0,
            current == count * size,
            current <= length,
            count <= current,
        ensures
            current == count * size,
            current <= length,
            length - current < size,
        decreases length - current,
    {
        if size > length - current {
            break;
        }
        current = current + size;
        count = count + 1;
        assert(current == count * size) by (nonlinear_arith)
            requires
                current == (count - 1) * size + size,
        ;
    }
    proof {
        vstd::arithmetic::div_mod::lemma_fundamental_div_mod_converse(
            length as int,
            size as int,
            count as int,
            length - current,
        );
    }
    (count, length - current)
}

/// Computes how many whole cells of edge `size` fit into a viewport of
/// `width` by `height` pixels, and the space that is left over.
pub fn calculate_square_amount(size: u32, width: u32, height: u32) -> (r: Amount)
    requires
        size > 0,
    ensures
        r.amount_x == fit_count(size as nat, width as nat),
        r.amount_y == fit_count(size as nat, height as nat),
        r.spare_x == width - r.amount_x * size,
        r.spare_y == height - r.amount_y * size,
        r.spare_x < size,
        r.spare_y < size,
{
    let (amount_x, spare_x) = fit_axis(size, width);
    let (amount_y, spare_y) = fit_axis(size, height);
    Amount { amount_x, amount_y, spare_x, spare_y }
}

} // verus!
