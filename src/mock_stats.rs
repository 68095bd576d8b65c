use vstd::prelude::*;

verus! {

/// Stock on hand of the first mock item in store A: the available packs of its three
/// stock lines times their pack sizes.
pub fn item_1_soh() -> (r: u32)
    ensures
        r == 10 + 20 * 10 + 10 * 1,
{
    10 + 20 * 10 + 10 * 1
}

/// Stock on hand of the first mock item in store B.
pub fn item_1_store_b_soh() -> (r: u32)
    ensures
        r == 1 * 10,
{
    1 * 10
}

/// Stock on hand of the second mock item.
pub fn item_2_soh() -> (r: u32)
    ensures
        r == 2 * 11,
{
    2 * 11
}

} // verus!
