use super::{Bitmap, Color};
use super::color::{spec_empty, spec_full};
use vstd::prelude::*;
use vstd::arithmetic::div_mod::lemma_fundamental_div_mod_converse;

verus! {

/// A picture of colours, row by row.
#[derive(Clone, Default)]
pub struct Image {
    pub width: i32,
    pub height: i32,
    pub data: Vec<Color>,
}

/// Whether bit `i` (0 is the leftmost) of a bitmap byte is set.
pub open spec fn pixel_on(byte: u8, i: int) -> bool {
    (byte >> ((7 - i) as u8)) & 1u8 == 1u8
}

/// The colours of a bitmap drawn in `color`: eight pixels a byte, the most
/// significant bit first, transparent where a bit is clear.
pub open spec fn bitmap_pixels(bytes: Seq<u8>, color: Color) -> Seq<Color> {
    Seq::new(
        (bytes.len() * 8) as nat,
        |k: int|
            if pixel_on(bytes[k / 8], k % 8) {
                color
            } else {
                spec_empty()
            },
    )
}

/// The character that stands for a pixel in an ascii rendering.
pub open spec fn ascii_pixel(c: Color) -> char {
    if c == spec_full() {
        '1'
    } else if c == spec_empty() {
        '0'
    } else {
        '?'
    }
}

/// Where pixel `i` of an image layered onto a target lands.
#[derive(Debug, Clone, Copy, PartialEq, Eq, Structural)]
pub enum LayerTarget {
    /// The target's pixel with this index.
    Pixel(usize),
    /// Outside the target's pixels: the pixel is dropped.
    Outside,
    /// The position cannot be computed in `i32`: the index is too large,
    /// the image has no width, or a step of the computation overflows.
    Overflow,
}

/// Rust's `/` of a non-negative `a` by `d`, rounding toward zero.
pub open spec fn quot_toward_zero(a: int, d: int) -> int {
    if d > 0 {
        a / d
    } else {
        -(a / (-d))
    }
}

/// Rust's `%` of a non-negative `a` by `d`: it has the sign of `a`.
pub open spec fn rem_toward_zero(a: int, d: int) -> int {
    if d > 0 {
        a % d
    } else {
        a % (-d)
    }
}

/// The rows that pixel `i` of an image `iw` wide lies below its first one,
/// counted in pixels of a target `tw` wide.
pub open spec fn layer_row(tw: int, iw: int, i: int) -> int {
    quot_toward_zero(i, iw) * tw
}

/// The index in a target `tw` wide of pixel `i` of an image `iw` wide
/// layered with its corner at `(x, y)`.
pub open spec fn layer_index(tw: int, iw: int, x: int, y: int, i: int) -> int {
    x + y * tw + layer_row(tw, iw, i) + rem_toward_zero(i, iw)
}

/// Whether that index computes in `i32`, each step as it is taken.
pub open spec fn layer_computes(tw: int, iw: int, x: int, y: int, i: int) -> bool {
    &&& i <= i32::MAX
    &&& iw != 0
    &&& i32::MIN <= y * tw <= i32::MAX
    &&& i32::MIN <= x + y * tw <= i32::MAX
    &&& i32::MIN <= layer_row(tw, iw, i) <= i32::MAX
    &&& i32::MIN <= x + y * tw + layer_row(tw, iw, i) <= i32::MAX
    &&& i32::MIN <= layer_index(tw, iw, x, y, i) <= i32::MAX
}

/// Index of the cell in row `r` and column `c` of rows `w` wide.
pub open spec fn cell_index(w: int, r: int, c: int) -> int {
    r * w + c
}

/// Index, in an image `w` wide, of the pixel that the cell at row `r` and
/// column `c` of its scaling by `f` copies.
pub open spec fn scaled_source(w: int, f: int, r: int, c: int) -> int {
    cell_index(w, r / f, c / f)
}

proof fn lemma_cell_unique(w: int, r1: int, c1: int, r2: int, c2: int)
    requires
        w > 0,
        0 <= c1 < w,
        0 <= c2 < w,
        cell_index(w, r1, c1) == cell_index(w, r2, c2),
    ensures
        r1 == r2,
        c1 == c2,
{
    let x = cell_index(w, r1, c1);
    lemma_fundamental_div_mod_converse(x, w, r1, c1);
    lemma_fundamental_div_mod_converse(x, w, r2, c2);
}

/// Scaling by `a` and then by `b` is scaling by `a * b`: the pixel that a
/// cell of the second scaling copies is the pixel that the same cell of the
/// single scaling copies.
pub proof fn law_scale_twice(w: int, a: int, b: int, r: int, c: int)
    requires
        a > 0,
        b > 0,
        r >= 0,
        c >= 0,
    ensures
        scaled_source(w * a, b, r, c) == cell_index(w * a, r / b, c / b),
        scaled_source(w, a, r / b, c / b) == scaled_source(w, a * b, r, c),
{
    vstd::arithmetic::div_mod::lemma_div_denominator(r, b, a);
    vstd::arithmetic::div_mod::lemma_div_denominator(c, b, a);
    assert(b * a == a * b) by (nonlinear_arith);
}

/// A bitmap drawn in opaque white renders as its bits: `1` where a bit is set,
/// `0` where it is clear.
pub proof fn law_bitmap_ascii(bytes: Seq<u8>, k: int)
    requires
        0 <= k < bytes.len() * 8,
    ensures
        ascii_pixel(bitmap_pixels(bytes, spec_full())[k]) == if pixel_on(bytes[k / 8], k % 8) {
            '1'
        } else {
            '0'
        },
{
}

proof fn lemma_div_mod(x: int, d: int)
    requires
        d > 0,
    ensures
        x == (x / d) * d + x % d,
        0 <= x % d < d,
{
    vstd::arithmetic::div_mod::lemma_fundamental_div_mod(x, d);
    assert(d * (x / d) == (x / d) * d) by (nonlinear_arith);
}

proof fn lemma_cell_bound(w: int, h: int, r: int, c: int)
    requires
        0 <= r < h,
        0 <= c < w,
    ensures
        0 <= cell_index(w, r, c) < w * h,
{
    assert(0 <= r * w + c < w * h) by (nonlinear_arith)
        requires
            0 <= r < h,
            0 <= c < w,
    ;
}

impl Image {
    /// The image is `width` by `height` and holds one colour a pixel.
    pub open spec fn wf(&self) -> bool {
        &&& self.width >= 0
        &&& self.height >= 0
        &&& self.data@.len() == self.width * self.height
    }

    /// Whether the pixels fit the image's size: a size that is not negative,
    /// and no more pixels than it holds (a scaling leaves the cells of the
    /// missing ones transparent).
    pub open spec fn data_fits(&self) -> bool {
        &&& self.width >= 0
        &&& self.height >= 0
        &&& self.data@.len() <= self.width * self.height
    }

    /// A transparent image of the given size.
    pub fn new(width: i32, height: i32) -> (img: Self)
        requires
            0 <= width * height <= i32::MAX,
        ensures
            img.width == width,
            img.height == height,
            img.data@ == Seq::new((width * height) as nat, |i: int| spec_empty()),
    {
        let n: i32 = width * height;
        let data = vec![Color::empty(); n as usize];
        assert(data@ =~= Seq::new((width * height) as nat, |i: int| spec_empty()));
        Image { width, height, data }
    }

    /// The image of a bitmap: its size, and `color` where a bit is set.
    pub fn from_bitmap(bitmap: &Bitmap, color: Color) -> (img: Self)
        requires
            bitmap.data@.len() * 8 <= usize::MAX,
        ensures
            img.width == bitmap.width,
            img.height == bitmap.height,
            img.data@ == bitmap_pixels(bitmap.data@, color),
    {
        let mut data: Vec<Color> = Vec::with_capacity(bitmap.data.len() * 8);
        let mut j: usize = 0;
        while j < bitmap.data.len()
            invariant
                j <= bitmap.data@.len(),
                data@.len() == j * 8,
                forall|k: int|
                    0 <= k < j * 8 ==> #[trigger] data@[k] == bitmap_pixels(bitmap.data@, color)[k],
            decreases bitmap.data@.len() - j,
        {
            let byte = bitmap.data[j];
            let mut i: u8 = 0;
            while i < 8
                invariant
                    j < bitmap.data@.len(),
                    byte == bitmap.data@[j as int],
                    i <= 8,
                    data@.len() == j * 8 + i,
                    forall|k: int|
                        0 <= k < j * 8 + i ==> #[trigger] data@[k] == bitmap_pixels(bitmap.data@, color)[k],
                decreases 8 - i,
            {
                let ghost k = j * 8 + i;
                assert(k / 8 == j && k % 8 == i) by {
                    lemma_fundamental_div_mod_converse(k, 8, j as int, i as int);
                }
                if (byte >> (7 - i)) & 1 == 1 {
                    data.push(color);
                } else {
                    data.push(Color::empty());
                }
                i = i + 1;
            }
            j = j + 1;
        }
        assert(data@ =~= bitmap_pixels(bitmap.data@, color));
        Image { width: bitmap.width, height: bitmap.height, data }
    }

    /// Sets every pixel to `color`.
    pub fn clear(&mut self, color: Color)
        ensures
            final(self).width == old(self).width,
            final(self).height == old(self).height,
            final(self).data@ == Seq::new(old(self).data@.len(), |i: int| color),
    {
        let mut i: usize = 0;
        while i < self.data.len()
            invariant
                self.width == old(self).width,
                self.height == old(self).height,
                self.data@.len() == old(self).data@.len(),
                i <= self.data@.len(),
                forall|k: int| 0 <= k < i ==> #[trigger] self.data@[k] == color,
            decreases self.data@.len() - i,
        {
            self.data.set(i, color);
            i = i + 1;
        }
        assert(self.data@ =~= Seq::new(old(self).data@.len(), |i: int| color));
    }

    /// Renders the pixels as text, row after row with no separator: `1` for
    /// opaque white, `0` for transparent black and `?` for any other colour.
    pub fn to_ascii(&self) -> (s: String)
        ensures
            s@ == Seq::new(self.data@.len(), |i: int| ascii_pixel(self.data@[i])),
    {
        let mut ascii = String::from_str("");
        proof {
            reveal_strlit("");
        }
        let mut i: usize = 0;
        while i < self.data.len()
            invariant
                i <= self.data@.len(),
                ascii@ == Seq::new(i as nat, |k: int| ascii_pixel(self.data@[k])),
            decreases self.data@.len() - i,
        {
            let color = self.data[i];
            let ghost prev = ascii@;
            proof {
                reveal_strlit("1");
                reveal_strlit("0");
                reveal_strlit("?");
            }
            if color == Color::full() {
                ascii.append("1");
            } else if color == Color::empty() {
                ascii.append("0");
            } else {
                ascii.append("?");
            }
            assert(ascii@ =~= Seq::new((i + 1) as nat, |k: int| ascii_pixel(self.data@[k])));
            i = i + 1;
        }
        ascii
    }

    /// Where pixel `i` of an image `image_width` wide lands when that image
    /// is layered onto this one with its corner at `(x, y)`: rows of the
    /// image go to rows of this image, and a pixel whose index falls
    /// outside this image's pixels is dropped.
    pub fn layer_target(&self, image_width: i32, x: i32, y: i32, i: usize) -> (r: LayerTarget)
        ensures
            r == if !layer_computes(self.width as int, image_width as int, x as int, y as int, i as int) {
                LayerTarget::Overflow
            } else if 0 <= layer_index(self.width as int, image_width as int, x as int, y as int, i as int)
                < self.data@.len() {
                LayerTarget::Pixel(
                    layer_index(self.width as int, image_width as int, x as int, y as int, i as int) as usize,
                )
            } else {
                LayerTarget::Outside
            },
    {
        if i > 2147483647 || image_width == 0 {
            return LayerTarget::Overflow;
        }
        let tw = self.width as i64;
        let iw = image_width as i64;
        let k = i as i64;
        let quot = if iw > 0 {
            k / iw
        } else {
            -(k / (-iw))
        };
        let rem = if iw > 0 {
            k % iw
        } else {
            k % (-iw)
        };
        assert(-2147483647 <= quot <= 2147483647) by {
            let d: int = if iw > 0 { iw as int } else { -iw };
            vstd::arithmetic::div_mod::lemma_div_is_ordered_by_denominator(k as int, 1, d);
            vstd::arithmetic::div_mod::lemma_div_pos_is_pos(k as int, d);
        }
        assert(-2147483648 * 2147483648 <= (y as int) * (tw as int) <= 2147483648 * 2147483648) by (nonlinear_arith)
            requires
                -2147483648 <= y <= 2147483647,
                -2147483648 <= tw <= 2147483647,
        ;
        assert(-2147483648 * 2147483648 <= (quot as int) * (tw as int) <= 2147483648 * 2147483648) by (nonlinear_arith)
            requires
                -2147483647 <= quot <= 2147483647,
                -2147483648 <= tw <= 2147483647,
        ;
        let offset_y = y as i64 * tw;
        let row = quot * tw;
        if offset_y < -2147483648 || offset_y > 2147483647 {
            return LayerTarget::Overflow;
        }
        let offset = x as i64 + offset_y;
        if offset < -2147483648 || offset > 2147483647 || row < -2147483648 || row > 2147483647 {
            return LayerTarget::Overflow;
        }
        let start = offset + row;
        if start < -2147483648 || start > 2147483647 {
            return LayerTarget::Overflow;
        }
        let index = start + rem;
        if index < -2147483648 || index > 2147483647 {
            return LayerTarget::Overflow;
        }
        if index >= 0 && (index as usize) < self.data.len() {
            LayerTarget::Pixel(index as usize)
        } else {
            LayerTarget::Outside
        }
    }

    /// Scales the image up by `factor`: every pixel becomes a `factor` by
    /// `factor` block of its colour.
    pub fn scale(&mut self, factor: usize)
        requires
            old(self).data_fits(),
            factor > 0 || old(self).data@.len() == 0,
            old(self).width * factor <= usize::MAX,
            old(self).height * factor <= usize::MAX,
            (old(self).width * factor) * (old(self).height * factor) <= usize::MAX,
        ensures
            final(self).width == (old(self).width * factor) as i32,
            final(self).height == (old(self).height * factor) as i32,
            final(self).data@.len() == (old(self).width * factor) * (old(self).height * factor),
            forall|r: int, c: int|
                0 <= r < old(self).height * factor && 0 <= c < old(self).width * factor
                    ==> #[trigger] final(self).data@[cell_index(old(self).width * factor, r, c)] == if scaled_source(
                    old(self).width as int,
                    factor as int,
                    r,
                    c,
                ) < old(self).data@.len() {
                    old(self).data@[scaled_source(old(self).width as int, factor as int, r, c)]
                } else {
                    spec_empty()
                },
    {
        let ghost w = self.width as int;
        let ghost h = self.height as int;
        let ghost f = factor as int;
        let height = self.height as usize * factor;
        let width = self.width as usize * factor;
        let new_length = width * height;
        let ghost ww = width as int;
        let ghost hh = height as int;
        let mut data = vec![Color::empty(); new_length];
        assert forall|rr: int, cc: int|
            0 <= rr < hh && 0 <= cc < ww && scaled_source(w, f, rr, cc) >= self.data@.len() implies #[trigger] data@[cell_index(
            ww,
            rr,
            cc,
        )] == spec_empty() by {
            lemma_cell_bound(ww, hh, rr, cc);
        }
        let mut i: usize = 0;
        while i < self.data.len()
            invariant
                *self == *old(self),
                self.data_fits(),
                w == self.width,
                h == self.height,
                f == factor,
                ww == width,
                hh == height,
                ww == w * f,
                hh == h * f,
                f > 0 || self.data@.len() == 0,
                new_length == ww * hh,
                data@.len() == ww * hh,
                i <= self.data@.len(),
                forall|r: int, c: int|
                    0 <= r < hh && 0 <= c < ww && scaled_source(w, f, r, c) < i
                        ==> #[trigger] data@[cell_index(ww, r, c)] == self.data@[scaled_source(w, f, r, c)],
                forall|rr: int, cc: int|
                    0 <= rr < hh && 0 <= cc < ww && scaled_source(w, f, rr, cc) >= self.data@.len()
                        ==> #[trigger] data@[cell_index(ww, rr, cc)] == spec_empty(),
            decreases self.data@.len() - i,
        {
            let color = self.data[i];
            let ghost a: int = i as int / w;
            let ghost b: int = i as int % w;
            proof {
                assert(w > 0 && f > 0) by (nonlinear_arith)
                    requires
                        i < self.data@.len(),
                        self.data@.len() <= w * h,
                        w >= 0,
                        h >= 0,
                        f > 0 || self.data@.len() == 0,
                ;
                lemma_div_mod(i as int, w);
                assert(i == a * w + b);
                assert(0 <= b < w);
                assert(0 <= a < h) by (nonlinear_arith)
                    requires
                        i == a * w + b,
                        0 <= b < w,
                        0 <= i < w * h,
                ;
                assert(i * f == a * ww + b * f && b * f < ww && b * f >= 0) by (nonlinear_arith)
                    requires
                        i == a * w + b,
                        0 <= b < w,
                        ww == w * f,
                        f > 0,
                ;
                lemma_fundamental_div_mod_converse(i * f, ww, a, b * f);
                assert(i * f <= ww * hh && a * ww * f <= ww * hh) by (nonlinear_arith)
                    requires
                        i < w * h,
                        a < h,
                        a >= 0,
                        ww == w * f,
                        hh == h * f,
                        f > 0,
                        w > 0,
                ;
            }
            assert(b * f + a * ww * f < ww * hh) by (nonlinear_arith)
                requires
                    0 <= a < h,
                    0 <= b < w,
                    ww == w * f,
                    hh == h * f,
                    f > 0,
            ;
            let offset_column = i * factor % width;
            let offset_row = (i / self.width as usize) * width * factor;
            let offset = offset_column + offset_row;
            assert(offset == b * f + a * ww * f);
            let mut r: usize = 0;
            while r < factor
                invariant
                    *self == *old(self),
                    self.data_fits(),
                    w == self.width,
                    h == self.height,
                    f == factor,
                    ww == width,
                    hh == height,
                    ww == w * f,
                    hh == h * f,
                    w > 0,
                    f > 0,
                    data@.len() == ww * hh,
                    ww * hh <= usize::MAX,
                    i < self.data@.len(),
                    color == self.data@[i as int],
                    i == a * w + b,
                    0 <= a < h,
                    0 <= b < w,
                    offset == b * f + a * ww * f,
                    r <= factor,
                    forall|rr: int, cc: int|
                        0 <= rr < hh && 0 <= cc < ww && (scaled_source(w, f, rr, cc) < i || (
                        scaled_source(w, f, rr, cc) == i && rr % f < r))
                            ==> #[trigger] data@[cell_index(ww, rr, cc)] == self.data@[scaled_source(w, f, rr, cc)],
                    forall|rr: int, cc: int|
                        0 <= rr < hh && 0 <= cc < ww && scaled_source(w, f, rr, cc) >= self.data@.len()
                            ==> #[trigger] data@[cell_index(ww, rr, cc)] == spec_empty(),
                decreases factor - r,
            {
                assert(r * ww <= ww * hh) by (nonlinear_arith)
                    requires
                        r < f,
                        0 <= a < h,
                        hh == h * f,
                        ww >= 0,
                ;
                let row = r * width;
                let mut column: usize = 0;
                while column < factor
                    invariant
                        *self == *old(self),
                        self.data_fits(),
                        w == self.width,
                        h == self.height,
                        f == factor,
                        ww == width,
                        hh == height,
                        ww == w * f,
                        hh == h * f,
                        w > 0,
                        f > 0,
                        data@.len() == ww * hh,
                        ww * hh <= usize::MAX,
                        i < self.data@.len(),
                        color == self.data@[i as int],
                        i == a * w + b,
                        0 <= a < h,
                        0 <= b < w,
                        offset == b * f + a * ww * f,
                        r < factor,
                        row == r * ww,
                        column <= factor,
                        forall|rr: int, cc: int|
                            0 <= rr < hh && 0 <= cc < ww && (scaled_source(w, f, rr, cc) < i || (
                            scaled_source(w, f, rr, cc) == i && (rr % f < r || (rr % f == r && cc
                                % f < column))))
                                ==> #[trigger] data@[cell_index(ww, rr, cc)] == self.data@[scaled_source(w, f, rr, cc)],
                        forall|rr: int, cc: int|
                            0 <= rr < hh && 0 <= cc < ww && scaled_source(w, f, rr, cc) >= self.data@.len()
                                ==> #[trigger] data@[cell_index(ww, rr, cc)] == spec_empty(),
                    decreases factor - column,
                {
                    let ghost rr0 = a * f + r;
                    let ghost cc0 = b * f + column;
                    proof {
                        assert(0 <= rr0 < hh && 0 <= cc0 < ww) by (nonlinear_arith)
                            requires
                                rr0 == a * f + r,
                                cc0 == b * f + column,
                                0 <= a < h,
                                0 <= b < w,
                                r < f,
                                column < f,
                                hh == h * f,
                                ww == w * f,
                        ;
                        assert(offset + row + column == cell_index(ww, rr0, cc0)) by (nonlinear_arith)
                            requires
                                offset == b * f + a * ww * f,
                                row == r * ww,
                                rr0 == a * f + r,
                                cc0 == b * f + column,
                        ;
                        lemma_cell_bound(ww, hh, rr0, cc0);
                        lemma_fundamental_div_mod_converse(rr0, f, a, r as int);
                        lemma_fundamental_div_mod_converse(cc0, f, b, column as int);
                        assert(scaled_source(w, f, rr0, cc0) == i);
                    }
                    let ghost before = data@;
                    assert(offset + row + column < ww * hh);
                    data.set(offset + row + column, color);
                    proof {
                        assert forall|rr: int, cc: int|
                            0 <= rr < hh && 0 <= cc < ww && scaled_source(w, f, rr, cc) >= self.data@.len() implies #[trigger] data@[cell_index(
                            ww,
                            rr,
                            cc,
                        )] == spec_empty() by {
                            if cell_index(ww, rr, cc) == cell_index(ww, rr0, cc0) {
                                lemma_cell_unique(ww, rr, cc, rr0, cc0);
                            }
                            lemma_cell_bound(ww, hh, rr, cc);
                            assert(data@[cell_index(ww, rr, cc)] == before[cell_index(ww, rr, cc)]);
                        }
                        assert forall|rr: int, cc: int|
                            0 <= rr < hh && 0 <= cc < ww && (scaled_source(w, f, rr, cc) < i || (
                            scaled_source(w, f, rr, cc) == i && (rr % f < r || (rr % f == r && cc
                                % f < column + 1)))) implies #[trigger] data@[cell_index(ww, rr, cc)]
                            == self.data@[scaled_source(w, f, rr, cc)] by {
                            if rr == rr0 && cc == cc0 {
                                assert(data@[cell_index(ww, rr, cc)] == color);
                            } else {
                                if cell_index(ww, rr, cc) == cell_index(ww, rr0, cc0) {
                                    lemma_cell_unique(ww, rr, cc, rr0, cc0);
                                }
                                if scaled_source(w, f, rr, cc) == i && rr % f == r && cc % f == column {
                                    lemma_div_mod(rr, f);
                                    lemma_div_mod(cc, f);
                                    assert(0 <= cc / f < w) by (nonlinear_arith)
                                        requires
                                            0 <= cc < ww,
                                            ww == w * f,
                                            cc == (cc / f) * f + cc % f,
                                            0 <= cc % f < f,
                                            f > 0,
                                    ;
                                    lemma_cell_unique(w, rr / f, cc / f, a, b);
                                    assert(rr == rr0 && cc == cc0);
                                }
                                lemma_cell_bound(ww, hh, rr, cc);
                                assert(data@[cell_index(ww, rr, cc)] == before[cell_index(ww, rr, cc)]);
                            }
                        }
                    }
                    column = column + 1;
                }
                r = r + 1;
            }
            proof {
                assert forall|rr: int, cc: int|
                    0 <= rr < hh && 0 <= cc < ww && scaled_source(w, f, rr, cc) < i + 1
                        implies #[trigger] data@[cell_index(ww, rr, cc)] == self.data@[scaled_source(w, f, rr, cc)] by {
                    lemma_div_mod(rr, f);
                }
            }
            i = i + 1;
        }
        self.width = #[verifier::truncate] (width as i32);
        self.height = #[verifier::truncate] (height as i32);
        self.data = data;
    }
}

} // verus!
