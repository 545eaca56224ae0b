use vstd::prelude::*;

pub mod double_perlin_noise;
pub mod math;
pub mod noise;
pub mod perlin_noise;
pub mod rng;
pub mod simplex_noise;
pub mod voronoi;

verus! {

/// The inclusive range `low..=high` as a sequence of integers.
pub open spec fn range_seq(low: int, high: int) -> Seq<int> {
    Seq::new(if high >= low { (high - low + 1) as nat } else { 0 }, |i: int| low + i)
}

/// Every integer from `low` to `high`, both included, in ascending order.
pub fn create_range(low: i32, high: i32) -> (r: Vec<i32>)
    ensures
        r@.map_values(|v: i32| v as int) == range_seq(low as int, high as int),
{
    let mut r: Vec<i32> = Vec::new();
    let mut v: i64 = low as i64;
    while v <= high as i64
        invariant
            low <= v <= high as int + 1 || (high < low && v == low),
            r@.len() == v - low,
            forall|i: int| 0 <= i < r@.len() ==> r@[i] == low + i,
        decreases high as int + 1 - v,
    {
        r.push(v as i32);
        v = v + 1;
    }
    assert(r@.map_values(|v: i32| v as int) =~= range_seq(low as int, high as int));
    r
}

} // verus!
