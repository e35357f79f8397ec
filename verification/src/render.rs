//! The pixel store that notifications are drawn into, and where a border goes on it.
use vstd::prelude::*;

use crate::configuration::Color;

verus! {

/// The pixels of a notification surface, row by row, at the surface's buffer scale.
#[derive(Debug)]
pub struct Canvas {
    pub backing_store: Vec<u32>,
    /// Pixels per row.
    pub backing_store_stride: usize,
    pub width: usize,
    pub height: usize,
    pub buffer_scale: usize,
    pub clear_color: Color,
}

impl Canvas {
    /// A canvas of `width` by `height` pixels at scale one, all zero, cleared with
    /// `clear_color`.
    pub fn new(width: usize, height: usize, clear_color: Color) -> (ret: Canvas)
        requires
            width * height <= usize::MAX,
        ensures
            ret.backing_store@ == Seq::new((width * height) as nat, |i: int| 0u32),
            ret.backing_store_stride == width,
            ret.width == width,
            ret.height == height,
            ret.buffer_scale == 1,
            ret.clear_color == clear_color,
    {
        let n = width * height;
        let mut store: Vec<u32> = Vec::new();
        for i in 0..n
            invariant
                store@ == Seq::new(i as nat, |j: int| 0u32),
        {
            store.push(0);
            assert(store@ =~= Seq::new((i + 1) as nat, |j: int| 0u32));
        }
        Canvas {
            backing_store: store,
            backing_store_stride: width,
            width,
            height,
            buffer_scale: 1,
            clear_color,
        }
    }

    /// The pixels.
    pub fn get_backing_store(&self) -> (ret: &Vec<u32>)
        ensures
            ret == self.backing_store,
    {
        &self.backing_store
    }

    /// Sets the buffer scale: unless it is the scale already, the store grows to the scaled
    /// size, new pixels taking the clear colour (or shrinks to it), and rows are the scaled
    /// width long.
    pub fn set_buffer_scale(&mut self, scale_factor: i32)
        requires
            scale_factor as usize != old(self).buffer_scale ==> {
                let s = scale_factor as usize;
                &&& old(self).width * old(self).height <= usize::MAX
                &&& s * s <= usize::MAX
                &&& (old(self).width * old(self).height) * (s * s) <= usize::MAX
                &&& old(self).width * s <= usize::MAX
            },
        ensures
            scale_factor as usize == old(self).buffer_scale ==> *final(self) == *old(self),
            scale_factor as usize != old(self).buffer_scale ==> {
                let s = scale_factor as usize;
                let n = old(self).width * old(self).height * (s * s);
                &&& final(self).buffer_scale == s
                &&& final(self).backing_store_stride == old(self).width * s
                &&& final(self).backing_store@.len() == n
                &&& forall|i: int|
                    0 <= i < n ==> #[trigger] final(self).backing_store@[i] == if i < old(
                        self,
                    ).backing_store@.len() {
                        old(self).backing_store@[i]
                    } else {
                        old(self).clear_color.0
                    }
                &&& final(self).width == old(self).width
                &&& final(self).height == old(self).height
                &&& final(self).clear_color == old(self).clear_color
            },
    {
        let s = scale_factor as usize;
        if s == self.buffer_scale {
            return;
        }
        self.buffer_scale = s;
        let n = self.width * self.height * (s * s);
        let stride = self.width * s;
        let ghost before = self.backing_store@;
        let fill = self.clear_color.0;
        if n <= self.backing_store.len() {
            self.backing_store.truncate(n);
        } else {
            let mut i = self.backing_store.len();
            while i < n
                invariant
                    i <= n,
                    self.backing_store@.len() == i,
                    before.len() <= i,
                    self.width == old(self).width,
                    self.height == old(self).height,
                    self.clear_color == old(self).clear_color,
                    self.buffer_scale == s,
                    forall|j: int|
                        0 <= j < i ==> #[trigger] self.backing_store@[j] == if j < before.len() {
                            before[j]
                        } else {
                            fill
                        },
                decreases n - i,
            {
                self.backing_store.push(fill);
                i = i + 1;
            }
        }
        self.backing_store_stride = stride;
    }

    /// Fills every pixel with `color`, or with the clear colour where none is given.
    pub fn clear(&mut self, color: Option<Color>)
        ensures
            final(self).backing_store@ == Seq::new(
                old(self).backing_store@.len(),
                |i: int|
                    match color {
                        Some(c) => c.0,
                        None => old(self).clear_color.0,
                    },
            ),
            final(self).backing_store_stride == old(self).backing_store_stride,
            final(self).width == old(self).width,
            final(self).height == old(self).height,
            final(self).buffer_scale == old(self).buffer_scale,
            final(self).clear_color == old(self).clear_color,
    {
        let c = match color {
            Some(c) => c,
            None => self.clear_color,
        };
        let n = self.backing_store.len();
        let ghost target = Seq::new(n as nat, |i: int| c.0);
        for i in 0..n
            invariant
                self.backing_store@.len() == n,
                target == Seq::new(n as nat, |i: int| c.0),
                forall|j: int| 0 <= j < i ==> #[trigger] self.backing_store@[j] == c.0,
                self.backing_store_stride == old(self).backing_store_stride,
                self.width == old(self).width,
                self.height == old(self).height,
                self.buffer_scale == old(self).buffer_scale,
                self.clear_color == old(self).clear_color,
        {
            self.backing_store.set(i, c.0);
        }
        assert(self.backing_store@ =~= target);
    }

    /// A position counted from the left and top edges where non-negative and from the right
    /// and bottom ones where negative, counted from the left and top.
    pub fn wrap_position(&self, x: i32, y: i32) -> (ret: (usize, usize))
        requires
            x < 0 ==> i32::MIN <= (self.width as i32) + x <= i32::MAX,
            y < 0 ==> i32::MIN <= (self.height as i32) + y <= i32::MAX,
        ensures
            ret.0 == (if x >= 0 {
                x as int
            } else {
                (self.width as i32) + x
            }) as i32 as usize,
            ret.1 == (if y >= 0 {
                y as int
            } else {
                (self.height as i32) + y
            }) as i32 as usize,
    {
        let x = if x >= 0 {
            x
        } else {
            (self.width as i32) + x
        };
        let y = if y >= 0 {
            y
        } else {
            (self.height as i32) + y
        };
        (x as usize, y as usize)
    }
}

/// Whether the pixel at `i` is among those of the rectangle of rows `ys..ye` and columns
/// `xs..xe` of a store with rows of `stride` pixels.
pub open spec fn in_rect(i: int, stride: int, xs: int, xe: int, ys: int, ye: int) -> bool {
    exists|r: int, c: int| ys <= r < ye && xs <= c < xe && i == #[trigger] (r * stride + c)
}

/// The end of a run of `n` pixels from `start`, at scale `scale`: the count is taken modulo
/// 2^16 and the sum saturates.
pub open spec fn scaled_end(scale: usize, start: usize, n: usize) -> int {
    scale * (if start + (n as u16) > usize::MAX {
        usize::MAX as int
    } else {
        start + (n as u16)
    })
}

impl Canvas {
    /// Paints the rectangle of `width` by `height` pixels at (`x`, `y`), at the buffer scale,
    /// with `color`, replacing what was there. Sizes are taken modulo 2^16.
    pub fn fill_rect(&mut self, x: usize, y: usize, width: usize, height: usize, color: Color)
        requires
            old(self).buffer_scale * x <= usize::MAX,
            old(self).buffer_scale * y <= usize::MAX,
            scaled_end(old(self).buffer_scale, x, width) <= usize::MAX,
            scaled_end(old(self).buffer_scale, y, height) <= usize::MAX,
            scaled_end(old(self).buffer_scale, y, height) > old(self).buffer_scale * y
                && scaled_end(old(self).buffer_scale, x, width) > old(self).buffer_scale * x ==> (
            scaled_end(old(self).buffer_scale, y, height) - 1) * old(self).backing_store_stride
                + scaled_end(old(self).buffer_scale, x, width) <= old(self).backing_store@.len(),
        ensures
            ({
                let s = old(self).buffer_scale;
                let stride = old(self).backing_store_stride as int;
                let (xs, xe) = ((s * x) as int, scaled_end(s, x, width));
                let (ys, ye) = ((s * y) as int, scaled_end(s, y, height));
                &&& final(self).backing_store@.len() == old(self).backing_store@.len()
                &&& forall|i: int|
                    0 <= i < old(self).backing_store@.len() ==> #[trigger] final(self).backing_store@[i]
                        == if in_rect(i, stride, xs, xe, ys, ye) {
                        color.0
                    } else {
                        old(self).backing_store@[i]
                    }
            }),
            final(self).backing_store_stride == old(self).backing_store_stride,
            final(self).width == old(self).width,
            final(self).height == old(self).height,
            final(self).buffer_scale == old(self).buffer_scale,
            final(self).clear_color == old(self).clear_color,
    {
        let s = self.buffer_scale;
        let stride = self.backing_store_stride;
        let ghost old_store = self.backing_store@;
        let total = self.backing_store.len();
        let xs = s * x;
        let ys = s * y;
        let xe = s * x.saturating_add(width as u16 as usize);
        let ye = s * y.saturating_add(height as u16 as usize);
        assert(xe == scaled_end(s, x, width));
        assert(ye == scaled_end(s, y, height));
        let xa = x.saturating_add(width as u16 as usize);
        let ya = y.saturating_add(height as u16 as usize);
        assert(xs <= xe) by (nonlinear_arith)
            requires
                xs == s * x,
                xe == s * xa,
                x <= xa,
        ;
        assert(ys <= ye) by (nonlinear_arith)
            requires
                ys == s * y,
                ye == s * ya,
                y <= ya,
        ;
        let mut row = ys;
        while row < ye
            invariant
                ys <= row,
                row <= ye,
                xs <= xe,
                xe == scaled_end(s, x, width),
                ye == scaled_end(s, y, height),
                ys < ye && xs < xe ==> (ye - 1) * stride + xe <= old_store.len(),
                total == old_store.len(),
                self.backing_store@.len() == old_store.len(),
                stride == self.backing_store_stride,
                s == self.buffer_scale,
                self.backing_store_stride == old(self).backing_store_stride,
                self.width == old(self).width,
                self.height == old(self).height,
                self.buffer_scale == old(self).buffer_scale,
                self.clear_color == old(self).clear_color,
                forall|i: int|
                    0 <= i < old_store.len() ==> #[trigger] self.backing_store@[i] == if in_rect(
                        i,
                        stride as int,
                        xs as int,
                        xe as int,
                        ys as int,
                        row as int,
                    ) {
                        color.0
                    } else {
                        old_store[i]
                    },
            decreases ye - row,
        {
            let mut col = xs;
            while col < xe
                invariant
                    ys <= row < ye,
                    xs <= col,
                    col <= xe,
                    xs <= xe,
                    xe == scaled_end(s, x, width),
                    xs < xe ==> (ye - 1) * stride + xe <= old_store.len(),
                    total == old_store.len(),
                    self.backing_store@.len() == old_store.len(),
                    stride == self.backing_store_stride,
                    s == self.buffer_scale,
                    self.backing_store_stride == old(self).backing_store_stride,
                    self.width == old(self).width,
                    self.height == old(self).height,
                    self.buffer_scale == old(self).buffer_scale,
                    self.clear_color == old(self).clear_color,
                    forall|i: int|
                        0 <= i < old_store.len() ==> #[trigger] self.backing_store@[i] == if in_rect(
                            i,
                            stride as int,
                            xs as int,
                            xe as int,
                            ys as int,
                            row as int,
                        ) || in_rect(i, stride as int, xs as int, col as int, row as int, row + 1) {
                            color.0
                        } else {
                            old_store[i]
                        },
                decreases xe - col,
            {
                assert(row * stride + col < total && row * stride <= row * stride + col) by (nonlinear_arith)
                    requires
                        row < ye,
                        col < xe,
                        (ye - 1) * stride + xe <= total,
                ;
                let k = row * stride + col;
                self.backing_store.set(k, color.0);
                proof {
                    assert forall|i: int| 0 <= i < old_store.len() implies #[trigger] self.backing_store@[i]
                        == if in_rect(i, stride as int, xs as int, xe as int, ys as int, row as int)
                        || in_rect(i, stride as int, xs as int, col + 1, row as int, row + 1) {
                        color.0
                    } else {
                        old_store[i]
                    } by {
                        if i == k {
                            assert(in_rect(i, stride as int, xs as int, col + 1, row as int, row + 1)) by {
                                assert(i == row * stride + col);
                            }
                        } else {
                            if in_rect(i, stride as int, xs as int, col + 1, row as int, row + 1) {
                                let (r, c) = choose|r: int, c: int| row <= r < row + 1 && xs <= c < col + 1 && i == #[trigger] (r * stride + c);
                                assert(r == row);
                                if c == col {
                                    assert(i == k);
                                }
                                assert(in_rect(i, stride as int, xs as int, col as int, row as int, row + 1));
                            }
                        }
                    }
                }
                col = col + 1;
            }
            proof {
                assert forall|i: int| 0 <= i < old_store.len() implies #[trigger] self.backing_store@[i]
                    == if in_rect(i, stride as int, xs as int, xe as int, ys as int, row + 1) {
                    color.0
                } else {
                    old_store[i]
                } by {
                    let a = in_rect(i, stride as int, xs as int, xe as int, ys as int, row as int);
                    let b = in_rect(i, stride as int, xs as int, col as int, row as int, row + 1);
                    let u = in_rect(i, stride as int, xs as int, xe as int, ys as int, row + 1);
                    if u {
                        let (r, c) = choose|r: int, c: int| ys <= r < row + 1 && xs <= c < xe && i == #[trigger] (r * stride + c);
                        if r < row {
                            assert(a);
                        } else {
                            assert(b);
                        }
                    }
                    if a {
                        let (r, c) = choose|r: int, c: int| ys <= r < row && xs <= c < xe && i == #[trigger] (r * stride + c);
                        assert(u);
                    }
                    if b {
                        let (r, c) = choose|r: int, c: int| row <= r < row + 1 && xs <= c < col && i == #[trigger] (r * stride + c);
                        assert(u);
                    }
                }
            }
            row = row + 1;
        }
    }
}

/// A quarter of the rounded corners of a border.
#[derive(Clone, Copy, Debug, PartialEq, Eq, Structural)]
pub enum Corner {
    TopLeft,
    TopRight,
    BottomLeft,
    BottomRight,
}

/// A rectangle of a border: its corner (counted from the right or bottom edge where
/// negative) and its size.
#[derive(Clone, Copy, Debug, PartialEq, Eq, Structural)]
pub struct BorderRect {
    pub x: i32,
    pub y: i32,
    pub width: usize,
    pub height: usize,
}

/// Where the parts of a border go on a surface.
#[derive(Debug)]
pub struct BorderLayout {
    /// The top, bottom, left and right sides.
    pub sides: Vec<BorderRect>,
    /// The rounded corners, each with the centre of its arc, where the radius is not zero.
    pub corners: Vec<(Corner, i32, i32)>,
}

/// The sides and corners of a border of `size` on a surface of `width` by `height` with
/// corners of `radius`: the top and bottom sides run between the corners, as do the left and
/// right ones (counted from the bottom and right edges for the bottom and right sides); the
/// four arcs are centred `radius` inside each corner, where the radius is not zero. `None`
/// where the corners do not fit or a negated size does not fit an `i32`.
pub open spec fn border_parts(width: usize, height: usize, size: usize, radius: usize) -> Option<
    (Seq<BorderRect>, Seq<(Corner, i32, i32)>),
> {
    let r = radius as i32;
    let z = size as i32;
    if 2 * radius <= usize::MAX && 2 * radius <= width && 2 * radius <= height && z > i32::MIN
        && (radius == 0 || r > i32::MIN) {
        let neg = (0 - z) as i32;
        let negr = (0 - r) as i32;
        Some(
            (
                seq![
                    BorderRect { x: r, y: 0, width: (width - 2 * radius) as usize, height: size },
                    BorderRect { x: r, y: neg, width: (width - 2 * radius) as usize, height: size },
                    BorderRect { x: 0, y: r, width: size, height: (height - 2 * radius) as usize },
                    BorderRect { x: neg, y: r, width: size, height: (height - 2 * radius) as usize },
                ],
                if radius == 0 {
                    Seq::empty()
                } else {
                    seq![
                        (Corner::TopLeft, r, r),
                        (Corner::TopRight, negr, r),
                        (Corner::BottomLeft, r, negr),
                        (Corner::BottomRight, negr, negr),
                    ]
                },
            ),
        )
    } else {
        None
    }
}

/// Where the parts of a border of `size` with corners of `radius` (none where not given) go
/// on a surface of `width` by `height` (see `border_parts`).
pub fn border_layout(width: usize, height: usize, size: usize, radius: Option<usize>) -> (ret: Option<BorderLayout>)
    ensures
        ({
            let r = match radius {
                Some(r) => r,
                None => 0,
            };
            match border_parts(width, height, size, r) {
                Some((sides, corners)) => ret matches Some(l) && l.sides@ == sides && l.corners@
                    == corners,
                None => ret is None,
            }
        }),
{
    let r = match radius {
        Some(r) => r,
        None => 0,
    };
    if r > usize::MAX / 2 {
        return None;
    }
    let twice = 2 * r;
    if twice > width || twice > height {
        return None;
    }
    let ri = r as i32;
    let si = size as i32;
    let neg = match 0i32.checked_sub(si) {
        Some(n) => n,
        None => return None,
    };
    let mut corners: Vec<(Corner, i32, i32)> = Vec::new();
    if r != 0 {
        let negr = match 0i32.checked_sub(ri) {
            Some(n) => n,
            None => return None,
        };
        corners.push((Corner::TopLeft, ri, ri));
        corners.push((Corner::TopRight, negr, ri));
        corners.push((Corner::BottomLeft, ri, negr));
        corners.push((Corner::BottomRight, negr, negr));
    }
    let mut sides: Vec<BorderRect> = Vec::new();
    sides.push(BorderRect { x: ri, y: 0, width: width - twice, height: size });
    sides.push(BorderRect { x: ri, y: neg, width: width - twice, height: size });
    sides.push(BorderRect { x: 0, y: ri, width: size, height: height - twice });
    sides.push(BorderRect { x: neg, y: ri, width: size, height: height - twice });
    let ret = BorderLayout { sides, corners };
    proof {
        let parts = border_parts(width, height, size, r).unwrap();
        assert(ret.sides@ =~= parts.0);
        assert(ret.corners@ =~= parts.1);
    }
    Some(ret)
}

} // verus!
