//! The tile grid: a flat wall/floor buffer with a linear coordinate mapping,
//! room and corridor carving, and the room-placement pass.

use vstd::prelude::*;
use crate::rect::Rect;
use crate::rng::sample_range;

verus! {

/// The state of one grid cell: solid wall or walkable floor.
#[derive(Clone, Copy, Debug, PartialEq, Eq, Structural)]
pub enum TileType {
    Empty,
    Wall,
}

/// The error returned when the sizing parameters handed to generation cannot
/// produce valid sampling ranges.
#[derive(Clone, Copy, Debug, PartialEq, Eq, Structural)]
pub enum GenerationError {
    InvalidParameters,
}

/// A rectangular tile map stored as one flat row-major buffer: cell `(x, y)`
/// lives at index `y * width + x`.
pub struct Grid {
    pub tiles: Vec<TileType>,
    pub width: usize,
    pub height: usize,
}

impl Grid {
    /// The buffer holds exactly one tile per cell. This holds from the start
    /// of generation on; a freshly constructed grid has an empty buffer.
    pub open spec fn sized(self) -> bool {
        self.tiles@.len() == self.width * self.height
    }

    /// `(x, y)` lies within the grid's extents.
    pub open spec fn valid_coord(self, x: int, y: int) -> bool {
        0 <= x < self.width && 0 <= y < self.height
    }

    /// The linear index of `(x, y)` in the flat buffer.
    pub open spec fn spec_xy_idx(self, x: int, y: int) -> int {
        y * self.width + x
    }

    /// The tile stored for cell `(x, y)`.
    pub open spec fn spec_tile_at(self, x: int, y: int) -> TileType {
        self.tiles@[y * self.width + x]
    }

    /// Constructs a grid with the given extents and a still-empty tile
    /// buffer; generation sizes the buffer. Degenerate extents are accepted
    /// and produce a degenerate map.
    pub fn new(width: usize, height: usize) -> (g: Grid)
        ensures
            g.width == width,
            g.height == height,
            g.tiles@.len() == 0,
    {
        Grid { tiles: Vec::new(), width, height }
    }

    /// Maps `(x, y)` to its linear index. Callers are responsible for bounds
    /// checks: an out-of-range coordinate silently yields an out-of-range
    /// index.
    pub fn xy_idx(&self, x: usize, y: usize) -> (i: usize)
        requires
            y * self.width + x <= usize::MAX,
        ensures
            i == self.spec_xy_idx(x as int, y as int),
    {
        y * self.width + x
    }

    /// The grid's extents as `(width, height)`.
    pub fn dimensions(&self) -> (d: (usize, usize))
        ensures
            d.0 == self.width,
            d.1 == self.height,
    {
        (self.width, self.height)
    }

    /// Sizes the tile buffer to one tile per cell and sets every cell to
    /// wall, discarding whatever the buffer held.
    fn reset_to_walls(&mut self)
        requires
            old(self).width * old(self).height <= usize::MAX,
        ensures
            final(self).width == old(self).width,
            final(self).height == old(self).height,
            final(self).sized(),
            forall|x: int, y: int|
                final(self).valid_coord(x, y) ==> final(self).spec_tile_at(x, y)
                    == TileType::Wall,
    {
        let n = self.width * self.height;
        let mut walls: Vec<TileType> = Vec::new();
        while walls.len() < n
            invariant
                walls@.len() <= n,
                forall|i: int| 0 <= i < walls@.len() ==> walls@[i] == TileType::Wall,
            decreases n - walls@.len(),
        {
            walls.push(TileType::Wall);
        }
        self.tiles = walls;
        proof {
            assert forall|x: int, y: int|
                self.valid_coord(x, y) implies self.spec_tile_at(x, y) == TileType::Wall by {
                lemma_xy_idx_in_bounds(*self, x, y);
            }
        }
    }

    /// The room-placement pass. After validating the sizing parameters it
    /// resets the grid to all wall and then makes exactly `max_rooms`
    /// placement attempts. Each attempt samples a candidate room with sides
    /// in `[min_room_size, max_room_size)` and an origin biased one cell
    /// towards the top-left of its raw sampled range, rejects the candidate
    /// if it overlaps (or merely touches) any accepted room, and otherwise
    /// carves it and accepts it. The accepted rooms are returned.
    ///
    /// A rejected attempt is not resampled, so fewer than `max_rooms` rooms
    /// may be accepted; the first attempt has nothing to collide with, so at
    /// least one room is accepted whenever `max_rooms >= 1`.
    ///
    /// Despite the name, the pass only places rooms: the corridor-carving
    /// primitives are provided for callers to link the returned rooms (for
    /// example centroid to centroid) but are not invoked here.
    pub fn generate_map_rooms_and_corridors(
        &mut self,
        rng: &mut rand::rngs::StdRng,
        max_rooms: usize,
        min_room_size: usize,
        max_room_size: usize,
    ) -> (result: Result<Vec<Rect>, GenerationError>)
        requires
            old(self).width * old(self).height <= usize::MAX,
            min_room_size >= 1,
        ensures
            final(self).width == old(self).width,
            final(self).height == old(self).height,
            result is Err <==> !params_valid(
                old(self).width as int,
                old(self).height as int,
                min_room_size as int,
                max_room_size as int,
            ),
            result is Err ==> *final(self) == *old(self),
            result matches Ok(rooms) ==> {
                &&& final(self).sized()
                &&& rooms@.len() <= max_rooms
                &&& max_rooms >= 1 ==> rooms@.len() >= 1
                &&& forall|k: int|
                    0 <= k < rooms@.len() ==> room_fits(
                        #[trigger] rooms@[k],
                        old(self).width as int,
                        old(self).height as int,
                        min_room_size as int,
                        max_room_size as int,
                    )
                &&& forall|i: int, j: int|
                    0 <= i < rooms@.len() && 0 <= j < rooms@.len() && i != j ==> !(
                    #[trigger] rooms@[i]).spec_overlaps(#[trigger] rooms@[j])
                &&& forall|x: int, y: int|
                    final(self).valid_coord(x, y) ==> final(self).spec_tile_at(x, y) == (
                    if in_some_room(rooms@, x, y) {
                        TileType::Empty
                    } else {
                        TileType::Wall
                    })
                &&& forall|k: int, x: int, y: int|
                    0 <= k < rooms@.len() && #[trigger] rooms@[k].contains(x, y)
                        ==> final(self).spec_tile_at(x, y) == TileType::Empty
            },
    {
        let valid = min_room_size < max_room_size && max_room_size < self.width && self.width
            - max_room_size > 1 && max_room_size < self.height && self.height - max_room_size > 1;
        if !valid {
            return Err(GenerationError::InvalidParameters);
        }
        self.reset_to_walls();
        let mut rooms: Vec<Rect> = Vec::new();
        let mut attempt: usize = 0;
        while attempt < max_rooms
            invariant
                min_room_size < max_room_size,
                max_room_size + 1 < old(self).width,
                max_room_size + 1 < old(self).height,
                self.width == old(self).width,
                self.height == old(self).height,
                self.sized(),
                attempt <= max_rooms,
                rooms@.len() <= attempt,
                attempt >= 1 ==> rooms@.len() >= 1,
                forall|k: int|
                    0 <= k < rooms@.len() ==> room_fits(
                        #[trigger] rooms@[k],
                        old(self).width as int,
                        old(self).height as int,
                        min_room_size as int,
                        max_room_size as int,
                    ),
                forall|i: int, j: int|
                    0 <= i < rooms@.len() && 0 <= j < rooms@.len() && i != j ==> !(
                #[trigger] rooms@[i]).spec_overlaps(#[trigger] rooms@[j]),
                forall|x: int, y: int|
                    self.valid_coord(x, y) ==> self.spec_tile_at(x, y) == (if in_some_room(
                        rooms@,
                        x,
                        y,
                    ) {
                        TileType::Empty
                    } else {
                        TileType::Wall
                    }),
            decreases max_rooms - attempt,
        {
            let room_w = sample_range(rng, min_room_size, max_room_size);
            let room_h = sample_range(rng, min_room_size, max_room_size);
            let room_x = sample_range(rng, 1, self.width - room_w - 1) - 1;
            let room_y = sample_range(rng, 1, self.height - room_h - 1) - 1;

            let new_room = Rect::new(room_x, room_y, room_w, room_h);

            let mut placing = true;
            let mut j: usize = 0;
            while j < rooms.len()
                invariant
                    j <= rooms@.len(),
                    placing <==> (forall|k: int|
                        0 <= k < j ==> !new_room.spec_overlaps(#[trigger] rooms@[k])),
                decreases rooms@.len() - j,
            {
                if new_room.overlaps_with(&rooms[j]) {
                    placing = false;
                }
                j = j + 1;
            }

            if placing {
                let ghost pre = *self;
                let ghost prev_rooms = rooms@;
                proof {
                    // Pin the tile characterization to the `pre` snapshot
                    // before the grid and the room list change.
                    assert(forall|x: int, y: int|
                        pre.valid_coord(x, y) ==> pre.spec_tile_at(x, y) == (if in_some_room(
                            prev_rooms,
                            x,
                            y,
                        ) {
                            TileType::Empty
                        } else {
                            TileType::Wall
                        }));
                }
                self.place_room(&new_room);
                rooms.push(new_room);
                proof {
                    assert(rooms@ == prev_rooms.push(new_room));
                    assert forall|x: int, y: int|
                        self.valid_coord(x, y) implies self.spec_tile_at(x, y) == (
                    if in_some_room(rooms@, x, y) {
                        TileType::Empty
                    } else {
                        TileType::Wall
                    }) by {
                        if in_some_room(rooms@, x, y) {
                            let k = choose|k: int|
                                0 <= k < rooms@.len() && rooms@[k].contains(x, y);
                            if k < prev_rooms.len() {
                                assert(in_some_room(prev_rooms, x, y));
                            } else {
                                assert(rooms@[k] == new_room);
                            }
                        } else {
                            assert(rooms@[prev_rooms.len() as int] == new_room);
                            if new_room.contains(x, y) {
                                assert(rooms@[prev_rooms.len() as int].contains(x, y));
                                assert(in_some_room(rooms@, x, y));
                            }
                            if in_some_room(prev_rooms, x, y) {
                                let k = choose|k: int|
                                    0 <= k < prev_rooms.len() && prev_rooms[k].contains(x, y);
                                assert(rooms@[k].contains(x, y));
                                assert(in_some_room(rooms@, x, y));
                            }
                        }
                    }
                }
            }
            attempt = attempt + 1;
        }
        proof {
            assert forall|k: int, x: int, y: int|
                0 <= k < rooms@.len() && #[trigger] rooms@[k].contains(x, y) implies
                self.spec_tile_at(x, y) == TileType::Empty by {
                assert(self.valid_coord(x, y));
                assert(in_some_room(rooms@, x, y));
            }
        }
        Ok(rooms)
    }

    /// Carves a room: every cell of `room`'s interior `[x1, x2) x [y1, y2)`
    /// becomes floor, and every other cell keeps its tile. No bounds
    /// validation against the grid happens beyond the stated precondition;
    /// callers must hand in rooms that fit.
    pub fn place_room(&mut self, room: &Rect)
        requires
            old(self).sized(),
            room.well_formed(),
            room.x2 <= old(self).width,
            room.y2 <= old(self).height,
        ensures
            final(self).width == old(self).width,
            final(self).height == old(self).height,
            final(self).sized(),
            forall|cx: int, cy: int|
                old(self).valid_coord(cx, cy) ==> final(self).spec_tile_at(cx, cy) == (if room.contains(cx, cy) {
                    TileType::Empty
                } else {
                    old(self).spec_tile_at(cx, cy)
                }),
    {
        let mut y = room.y1;
        while y < room.y2
            invariant
                old(self).sized(),
                room.well_formed(),
                room.y1 <= y <= room.y2,
                room.x2 <= old(self).width,
                room.y2 <= old(self).height,
                self.width == old(self).width,
                self.height == old(self).height,
                self.sized(),
                forall|cx: int, cy: int|
                    old(self).valid_coord(cx, cy) ==> self.spec_tile_at(cx, cy) == (if room.contains(cx, cy) && cy < y {
                        TileType::Empty
                    } else {
                        old(self).spec_tile_at(cx, cy)
                    }),
            decreases room.y2 - y,
        {
            let mut x = room.x1;
            while x < room.x2
                invariant
                    old(self).sized(),
                    room.well_formed(),
                    room.x1 <= x <= room.x2,
                    room.y1 <= y < room.y2,
                    room.x2 <= old(self).width,
                    room.y2 <= old(self).height,
                    self.width == old(self).width,
                    self.height == old(self).height,
                    self.sized(),
                    forall|cx: int, cy: int|
                        old(self).valid_coord(cx, cy) ==> self.spec_tile_at(cx, cy) == (if room.contains(cx, cy) && (cy < y || (cy == y && cx < x)) {
                            TileType::Empty
                        } else {
                            old(self).spec_tile_at(cx, cy)
                        }),
                decreases room.x2 - x,
            {
                let ghost pre = *self;
                proof {
                    // Pin the loop invariant to the `pre` snapshot: facts
                    // phrased over `self` and `x` would not survive the
                    // mutations below.
                    assert(forall|cx: int, cy: int|
                        old(self).valid_coord(cx, cy) ==> pre.spec_tile_at(cx, cy) == (if room.contains(cx, cy) && (cy < y || (cy == y && cx < x)) {
                            TileType::Empty
                        } else {
                            old(self).spec_tile_at(cx, cy)
                        }));
                }
                // The call bounds the buffer length by usize::MAX, which the
                // index computation below needs.
                let _buffer_len = self.tiles.len();
                proof {
                    lemma_xy_idx_in_bounds(*self, x as int, y as int);
                }
                let i = self.xy_idx(x, y);
                let ghost wx = x as int;
                self.tiles[i] = TileType::Empty;
                x = x + 1;
                proof {
                    assert(self.tiles@ == pre.tiles@.update(
                        pre.spec_xy_idx(wx, y as int),
                        TileType::Empty,
                    ));
                    assert forall|cx: int, cy: int|
                        old(self).valid_coord(cx, cy) implies self.spec_tile_at(cx, cy) == (if room.contains(cx, cy) && (cy < y || (cy == y && cx < x)) {
                        TileType::Empty
                    } else {
                        old(self).spec_tile_at(cx, cy)
                    }) by {
                        lemma_xy_idx_in_bounds(pre, cx, cy);
                        if cx == wx && cy == y {
                            assert(room.contains(cx, cy));
                            assert(self.spec_tile_at(cx, cy) == TileType::Empty);
                        } else {
                            if pre.spec_xy_idx(cx, cy) == pre.spec_xy_idx(wx, y as int) {
                                lemma_xy_idx_injective(pre, cx, cy, wx, y as int);
                            }
                            assert(self.spec_tile_at(cx, cy) == pre.spec_tile_at(cx, cy));
                        }
                    }
                }
            }
            let ghost yprev = y as int;
            let ghost xend = x as int;
            y = y + 1;
            proof {
                assert forall|cx: int, cy: int|
                    old(self).valid_coord(cx, cy) implies self.spec_tile_at(cx, cy) == (if room.contains(cx, cy) && cy < y {
                    TileType::Empty
                } else {
                    old(self).spec_tile_at(cx, cy)
                }) by {
                    assert(self.spec_tile_at(cx, cy) == (if room.contains(cx, cy) && (cy < yprev || (
                    cy == yprev && cx < xend)) {
                        TileType::Empty
                    } else {
                        old(self).spec_tile_at(cx, cy)
                    }));
                }
            }
        }
    }

    /// Reads the tile at a valid cell.
    pub fn tile_at(&self, x: usize, y: usize) -> (t: TileType)
        requires
            self.sized(),
            self.valid_coord(x as int, y as int),
        ensures
            t == self.spec_tile_at(x as int, y as int),
    {
        // The call bounds the buffer length by usize::MAX, which the index
        // computation below needs.
        let _buffer_len = self.tiles.len();
        proof {
            lemma_xy_idx_in_bounds(*self, x as int, y as int);
        }
        let i = self.xy_idx(x, y);
        self.tiles[i]
    }
}

/// The sizing parameters of a generation call give non-empty sampling ranges
/// for every candidate room: sampled sizes lie in
/// `[min_room_size, max_room_size)`, and even the largest size leaves room
/// for an origin inside the grid on both axes.
pub open spec fn params_valid(width: int, height: int, min_room_size: int, max_room_size: int) -> bool {
    min_room_size < max_room_size && max_room_size + 1 < width && max_room_size + 1 < height
}

/// What generation guarantees of every accepted room: it is well formed, its
/// sides were sampled from `[min_room_size, max_room_size)`, and it lies
/// strictly inside a `width` by `height` grid with a margin at the far edges.
pub open spec fn room_fits(r: Rect, width: int, height: int, min_room_size: int, max_room_size: int) -> bool {
    &&& r.well_formed()
    &&& min_room_size <= r.x2 - r.x1 < max_room_size
    &&& min_room_size <= r.y2 - r.y1 < max_room_size
    &&& r.x2 + 2 < width
    &&& r.y2 + 2 < height
}

/// The cell `(x, y)` lies in the interior of at least one room of the list.
pub open spec fn in_some_room(rooms: Seq<Rect>, x: int, y: int) -> bool {
    exists|k: int| 0 <= k < rooms.len() && rooms[k].contains(x, y)
}

/// On a valid cell the linear index stays within the buffer of a sized grid.
pub proof fn lemma_xy_idx_in_bounds(g: Grid, x: int, y: int)
    requires
        g.valid_coord(x, y),
    ensures
        0 <= g.spec_xy_idx(x, y) < g.width * g.height,
{
    assert(0 <= y * g.width + x < g.width * g.height) by (nonlinear_arith)
        requires
            0 <= x < g.width,
            0 <= y < g.height,
    ;
}

/// The coordinate-to-index mapping is injective over the grid's valid
/// coordinate space: no two distinct in-range cells share a buffer index.
pub proof fn lemma_xy_idx_injective(g: Grid, xa: int, ya: int, xb: int, yb: int)
    requires
        g.valid_coord(xa, ya),
        g.valid_coord(xb, yb),
        g.spec_xy_idx(xa, ya) == g.spec_xy_idx(xb, yb),
    ensures
        xa == xb,
        ya == yb,
{
    assert(xa == xb && ya == yb) by (nonlinear_arith)
        requires
            0 <= xa < g.width,
            0 <= xb < g.width,
            ya * g.width + xa == yb * g.width + xb,
    ;
}

} // verus!
