use vstd::prelude::*;

verus! {

/// A one-bit picture.
pub struct Bitmap {
    pub width: i32,
    pub height: i32,
    /// one byte represents 8 pixels on the grid, each bit being a pixel
    pub data: Vec<u8>,
}

/// `width / 8`, rounded towards zero as Rust divides integers.
pub open spec fn div8_toward_zero(width: i32) -> int {
    if width >= 0 {
        width as int / 8
    } else {
        -((-(width as int)) / 8)
    }
}

impl Bitmap {
    /// A bitmap of the given size holding a copy of `data`.
    pub fn new(width: i32, height: i32, data: &[u8]) -> (b: Self)
        ensures
            b.width == width,
            b.height == height,
            b.data@ == data@,
    {
        Bitmap { width, height, data: vstd::slice::slice_to_vec(data) }
    }

    /// A bitmap of the given size with every pixel unset: `width / 8 *
    /// height` zero bytes, eight pixels a byte.
    pub fn empty(width: i32, height: i32) -> (b: Self)
        requires
            0 <= div8_toward_zero(width) * height <= i32::MAX,
        ensures
            b.width == width,
            b.height == height,
            b.data@ == Seq::new((div8_toward_zero(width) * height) as nat, |i: int| 0u8),
    {
        let q: i32 = width / 8;
        assert(q == div8_toward_zero(width));
        let n: i32 = q * height;
        let data = vec![0u8; n as usize];
        assert(data@ =~= Seq::new((div8_toward_zero(width) * height) as nat, |i: int| 0u8));
        Bitmap { width, height, data }
    }
}

} // verus!
