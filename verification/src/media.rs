//! Choosing which rendition of a media item to fetch: the one with the
//! largest pixel area, taking the last among equals.

use vstd::prelude::*;

verus! {

/// The pixel area of a (width, height) rendition.
pub open spec fn spec_area(size: (i32, i32)) -> int {
    size.0 * size.1
}

proof fn lemma_i32_product_fits(a: int, b: int)
    requires
        -0x8000_0000 <= a < 0x8000_0000,
        -0x8000_0000 <= b < 0x8000_0000,
    ensures
        -0x4000_0000_0000_0000 <= a * b <= 0x4000_0000_0000_0000,
{
    assert(-0x4000_0000_0000_0000 <= a * b <= 0x4000_0000_0000_0000) by (nonlinear_arith)
        requires
            -0x8000_0000 <= a < 0x8000_0000,
            -0x8000_0000 <= b < 0x8000_0000,
    ;
}

/// The index of the rendition with the largest area; among equally large
/// ones, the last. `None` exactly when there are no renditions.
pub fn largest_by_area(sizes: &Vec<(i32, i32)>) -> (r: Option<usize>)
    ensures
        match r {
            Some(i) => {
                &&& i < sizes@.len()
                &&& forall|j: int| 0 <= j < sizes@.len() ==> spec_area(#[trigger] sizes@[j])
                    <= spec_area(sizes@[i as int])
                &&& forall|j: int| i < j < sizes@.len() ==> spec_area(#[trigger] sizes@[j])
                    < spec_area(sizes@[i as int])
            },
            None => sizes@.len() == 0,
        },
{
    if sizes.len() == 0 {
        return None;
    }
    let mut best: usize = 0;
    let first = sizes[0];
    proof {
        lemma_i32_product_fits(first.0 as int, first.1 as int);
    }
    let mut best_area: i64 = (first.0 as i64) * (first.1 as i64);
    let mut i: usize = 1;
    while i < sizes.len()
        invariant
            0 < sizes@.len(),
            best < i <= sizes@.len() || (best == 0 && i <= sizes@.len()),
            best < sizes@.len(),
            best_area == spec_area(sizes@[best as int]),
            forall|j: int| 0 <= j < i ==> spec_area(#[trigger] sizes@[j]) <= best_area,
            forall|j: int| best < j < i ==> spec_area(#[trigger] sizes@[j]) < best_area,
        decreases sizes@.len() - i,
    {
        let s = sizes[i];
        proof {
            lemma_i32_product_fits(s.0 as int, s.1 as int);
        }
        let area: i64 = (s.0 as i64) * (s.1 as i64);
        if area >= best_area {
            best = i;
            best_area = area;
        }
        i = i + 1;
    }
    Some(best)
}

} // verus!
