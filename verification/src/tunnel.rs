//! Corridor carving: one-cell-wide horizontal and vertical tunnels with the
//! defensive linear-index bound on every write.

use vstd::prelude::*;
use crate::grid::Grid;
use crate::grid::TileType;

verus! {

/// The linear indices a horizontal corridor covers: row `y`, columns between
/// the two endpoints, both inclusive, in either order.
pub open spec fn on_horizontal_tunnel(i: int, y: int, x_start: int, x_end: int, width: int) -> bool {
    y * width + vstd::math::min(x_start, x_end) <= i <= y * width + vstd::math::max(x_start, x_end)
}

/// The linear index of the cell in row `cy` of the column at offset `x`; the
/// named form gives the quantifiers below their trigger.
pub open spec fn vertical_cell_index(cy: int, x: int, width: int) -> int {
    cy * width + x
}

/// The linear indices of column `x` in rows `y_lo` through `y_hi`, both
/// inclusive.
pub open spec fn on_vertical_span(i: int, x: int, y_lo: int, y_hi: int, width: int) -> bool {
    exists|cy: int| y_lo <= cy <= y_hi && i == #[trigger] vertical_cell_index(cy, x, width)
}

/// The linear indices a vertical corridor covers: column `x`, rows between
/// the two endpoints, both inclusive, in either order.
pub open spec fn on_vertical_tunnel(i: int, x: int, y_start: int, y_end: int, width: int) -> bool {
    on_vertical_span(i, x, vstd::math::min(y_start, y_end), vstd::math::max(y_start, y_end), width)
}

/// The defensive bound corridor carving applies to each write: the linear
/// index must fall strictly between the first and the last buffer cell. The
/// bound is on the linear index, not on 2D coordinates, so it is a safety
/// net, not a geometric clamp: a segment that runs off the grid's horizontal
/// edge wraps into a neighbouring row instead of being cut off.
pub open spec fn tunnel_writable(i: int, width: int, height: int) -> bool {
    1 <= i < width * height - 1
}

impl Grid {
    /// One guarded corridor write: the tile at `pos` becomes floor only when
    /// `pos` passes the defensive bound; otherwise nothing changes.
    fn carve_checked(&mut self, pos: usize)
        requires
            old(self).sized(),
        ensures
            final(self).width == old(self).width,
            final(self).height == old(self).height,
            final(self).sized(),
            final(self).tiles@ == (if tunnel_writable(
                pos as int,
                old(self).width as int,
                old(self).height as int,
            ) {
                old(self).tiles@.update(pos as int, TileType::Empty)
            } else {
                old(self).tiles@
            }),
    {
        let n = self.tiles.len();
        if n > 0 && pos > 0 && pos < n - 1 {
            self.tiles[pos] = TileType::Empty;
        }
    }

    /// Carves a one-cell-high corridor along row `y` between the two column
    /// endpoints, both inclusive, given in either order. A covered cell
    /// becomes floor only when its linear index passes the defensive bound
    /// `tunnel_writable`; every other tile is untouched.
    pub fn place_tunnel_horizontal(&mut self, x_start: usize, x_end: usize, y: usize)
        requires
            old(self).sized(),
            y * old(self).width + x_start <= usize::MAX,
            y * old(self).width + x_end <= usize::MAX,
        ensures
            final(self).width == old(self).width,
            final(self).height == old(self).height,
            final(self).sized(),
            forall|i: int|
                0 <= i < final(self).tiles@.len() ==> final(self).tiles@[i] == (
                if on_horizontal_tunnel(
                    i,
                    y as int,
                    x_start as int,
                    x_end as int,
                    old(self).width as int,
                ) && tunnel_writable(i, old(self).width as int, old(self).height as int) {
                    TileType::Empty
                } else {
                    old(self).tiles@[i]
                }),
    {
        let lo = if x_start <= x_end {
            x_start
        } else {
            x_end
        };
        let hi = if x_start <= x_end {
            x_end
        } else {
            x_start
        };
        let n = self.tiles.len();
        let ghost t0 = self.tiles@;
        let ghost w = self.width as int;
        let ghost h = self.height as int;
        let mut x = lo;
        while x < hi
            invariant
                lo <= x <= hi,
                y * w + hi <= usize::MAX,
                w == self.width as int,
                h == self.height as int,
                self.sized(),
                n == self.tiles@.len(),
                n == t0.len(),
                forall|i: int|
                    0 <= i < n ==> (#[trigger] self.tiles@[i]) == (if y * w + lo <= i < y * w + x
                        && tunnel_writable(i, w, h) {
                        TileType::Empty
                    } else {
                        t0[i]
                    }),
            decreases hi - x,
        {
            let ghost pre = *self;
            let ghost wx = x as int;
            proof {
                // Pin the loop invariant to the `pre` snapshot: facts phrased
                // over `self` and `x` would not survive the mutations below.
                assert(forall|i: int|
                    0 <= i < n ==> (#[trigger] pre.tiles@[i]) == (if y * w + lo <= i < y * w + wx
                        && tunnel_writable(i, w, h) {
                        TileType::Empty
                    } else {
                        t0[i]
                    }));
            }
            let pos = self.xy_idx(x, y);
            self.carve_checked(pos);
            x = x + 1;
            proof {
                assert forall|i: int|
                    0 <= i < n implies self.tiles@[i] == (if y * w + lo <= i < y * w + x
                        && tunnel_writable(i, w, h) {
                    TileType::Empty
                } else {
                    t0[i]
                }) by {
                    assert(pre.tiles@[i] == (if y * w + lo <= i < y * w + wx && tunnel_writable(
                        i,
                        w,
                        h,
                    ) {
                        TileType::Empty
                    } else {
                        t0[i]
                    }));
                }
            }
        }
        let ghost pre = *self;
        let pos = self.xy_idx(hi, y);
        self.carve_checked(pos);
        proof {
            assert forall|i: int|
                0 <= i < self.tiles@.len() implies self.tiles@[i] == (if on_horizontal_tunnel(
                i,
                y as int,
                x_start as int,
                x_end as int,
                w,
            ) && tunnel_writable(i, w, h) {
                TileType::Empty
            } else {
                t0[i]
            }) by {
                assert(pre.tiles@[i] == (if y * w + lo <= i < y * w + hi && tunnel_writable(
                    i,
                    w,
                    h,
                ) {
                    TileType::Empty
                } else {
                    t0[i]
                }));
            }
        }
    }

    /// Carves a one-cell-wide corridor along column `x` between the two row
    /// endpoints, both inclusive, given in either order. A covered cell
    /// becomes floor only when its linear index passes the defensive bound
    /// `tunnel_writable`; every other tile is untouched.
    pub fn place_tunnel_vertical(&mut self, y_start: usize, y_end: usize, x: usize)
        requires
            old(self).sized(),
            y_start * old(self).width + x <= usize::MAX,
            y_end * old(self).width + x <= usize::MAX,
        ensures
            final(self).width == old(self).width,
            final(self).height == old(self).height,
            final(self).sized(),
            forall|i: int|
                0 <= i < final(self).tiles@.len() ==> final(self).tiles@[i] == (
                if on_vertical_tunnel(
                    i,
                    x as int,
                    y_start as int,
                    y_end as int,
                    old(self).width as int,
                ) && tunnel_writable(i, old(self).width as int, old(self).height as int) {
                    TileType::Empty
                } else {
                    old(self).tiles@[i]
                }),
    {
        let lo = if y_start <= y_end {
            y_start
        } else {
            y_end
        };
        let hi = if y_start <= y_end {
            y_end
        } else {
            y_start
        };
        let n = self.tiles.len();
        let ghost t0 = self.tiles@;
        let ghost w = self.width as int;
        let ghost h = self.height as int;
        let mut cy = lo;
        while cy < hi
            invariant
                lo <= cy <= hi,
                hi * w + x <= usize::MAX,
                w == self.width as int,
                h == self.height as int,
                self.sized(),
                n == self.tiles@.len(),
                n == t0.len(),
                forall|i: int|
                    0 <= i < n ==> (#[trigger] self.tiles@[i]) == (if on_vertical_span(i, x as int,
                    lo as int, cy - 1, w) && tunnel_writable(i, w, h) {
                        TileType::Empty
                    } else {
                        t0[i]
                    }),
            decreases hi - cy,
        {
            let ghost pre = *self;
            let ghost wy = cy as int;
            proof {
                // Pin the loop invariant to the `pre` snapshot: facts phrased
                // over `self` and `cy` would not survive the mutations below.
                assert(forall|i: int|
                    0 <= i < n ==> (#[trigger] pre.tiles@[i]) == (if on_vertical_span(i, x as int,
                    lo as int, wy - 1, w) && tunnel_writable(i, w, h) {
                        TileType::Empty
                    } else {
                        t0[i]
                    }));
                assert(wy * w + x <= hi * w + x) by (nonlinear_arith)
                    requires
                        wy <= hi,
                        w >= 0,
                ;
            }
            let pos = self.xy_idx(x, cy);
            self.carve_checked(pos);
            cy = cy + 1;
            proof {
                assert forall|i: int|
                    0 <= i < n implies self.tiles@[i] == (if on_vertical_span(i, x as int, lo as int,
                    cy - 1, w) && tunnel_writable(i, w, h) {
                    TileType::Empty
                } else {
                    t0[i]
                }) by {
                    assert(pre.tiles@[i] == (if on_vertical_span(i, x as int, lo as int, wy - 1, w)
                        && tunnel_writable(i, w, h) {
                        TileType::Empty
                    } else {
                        t0[i]
                    }));
                    assert(vertical_cell_index(wy, x as int, w) == wy * w + x);
                    if i == wy * w + x {
                        assert(on_vertical_span(i, x as int, lo as int, cy - 1, w));
                    } else {
                        if on_vertical_span(i, x as int, lo as int, cy - 1, w) {
                            let r = choose|r: int|
                                lo <= r <= cy - 1 && i == vertical_cell_index(r, x as int, w);
                            assert(r <= wy - 1 || r == wy);
                            assert(r != wy);
                            assert(on_vertical_span(i, x as int, lo as int, wy - 1, w));
                        }
                    }
                }
            }
        }
        let ghost pre = *self;
        let ghost wy = hi as int;
        let pos = self.xy_idx(x, hi);
        self.carve_checked(pos);
        proof {
            assert forall|i: int|
                0 <= i < self.tiles@.len() implies self.tiles@[i] == (if on_vertical_tunnel(
                i,
                x as int,
                y_start as int,
                y_end as int,
                w,
            ) && tunnel_writable(i, w, h) {
                TileType::Empty
            } else {
                t0[i]
            }) by {
                assert(pre.tiles@[i] == (if on_vertical_span(i, x as int, lo as int, wy - 1, w)
                    && tunnel_writable(i, w, h) {
                    TileType::Empty
                } else {
                    t0[i]
                }));
                assert(vertical_cell_index(wy, x as int, w) == wy * w + x);
                if i == wy * w + x {
                    assert(on_vertical_span(i, x as int, lo as int, wy, w));
                } else {
                    if on_vertical_span(i, x as int, lo as int, wy, w) {
                        let r = choose|r: int|
                            lo <= r <= wy && i == vertical_cell_index(r, x as int, w);
                        assert(r != wy);
                        assert(on_vertical_span(i, x as int, lo as int, wy - 1, w));
                    }
                }
            }
        }
    }
}

} // verus!
