//! Expansion of a row-major grayscale field into the RGBA byte buffer the
//! presentation surface expects: four bytes `[v, v, v, 255]` per cell.
//!
//! The narrowing of a cell's scalar value to the 8-bit intensity `v` is the
//! caller's direct numeric conversion and happens before this module is
//! handed the bytes; nothing here rounds or clamps.

use vstd::prelude::*;

verus! {

/// The RGBA frame for a grayscale field: byte `4k + 3` of the frame is the
/// opaque alpha 255, and bytes `4k`, `4k + 1`, `4k + 2` are cell `k`'s
/// intensity.
pub open spec fn rgba_frame(gray: Seq<u8>) -> Seq<u8> {
    Seq::new(
        4 * gray.len(),
        |j: int|
            if j % 4 == 3 {
                255u8
            } else {
                gray[j / 4]
            },
    )
}

/// Render a grayscale field as an RGBA buffer, one `[v, v, v, 255]` quad
/// per cell, in row-major cell order.
pub fn draw(gray: &Vec<u8>) -> (frame: Vec<u8>)
    requires
        4 * gray@.len() <= usize::MAX,
    ensures
        frame@ == rgba_frame(gray@),
        frame@.len() == 4 * gray@.len(),
{
    let n = gray.len();
    let mut frame: Vec<u8> = Vec::new();
    let mut i: usize = 0;
    while i < n
        invariant
            n == gray@.len(),
            4 * n <= usize::MAX,
            i <= n,
            frame@.len() == 4 * i,
            forall|j: int| 0 <= j < 4 * i ==> frame@[j] == rgba_frame(gray@)[j],
        decreases n - i,
    {
        let v = gray[i];
        frame.push(v);
        frame.push(v);
        frame.push(v);
        frame.push(255);
        i = i + 1;
    }
    proof {
        assert(frame@ =~= rgba_frame(gray@));
    }
    frame
}

} // verus!
