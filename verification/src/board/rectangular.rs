//! Implements a basic rectangular board.
use vstd::prelude::*;
use vstd::arithmetic::div_mod::{lemma_fundamental_div_mod, lemma_fundamental_div_mod_converse};

use crate::board::{ColinearCheck, Dimensions, NeighborIterState, Neighborhood};

pub use crate::board::common::Coordinate2D as Coordinate;

verus! {

/// Names the directions in which a grid can wrap around.
#[derive(Debug, Copy, Clone, Eq, PartialEq, Structural)]
pub enum Wrapping {
    /// The grid wraps along the `x` direction.
    Horizontal,
    /// The grid wraps along the `y` direction.
    Vertical,
}

/// A set of [`Wrapping`] directions.
#[derive(Debug, Copy, Clone, Eq, PartialEq, Structural)]
pub struct WrappingFlags {
    /// Whether [`Wrapping::Horizontal`] is in the set.
    pub horizontal: bool,
    /// Whether [`Wrapping::Vertical`] is in the set.
    pub vertical: bool,
}

impl WrappingFlags {
    /// The set without any direction.
    pub open spec fn spec_empty() -> Self {
        WrappingFlags { horizontal: false, vertical: false }
    }

    /// The set without any direction.
    #[verifier::when_used_as_spec(spec_empty)]
    pub fn empty() -> (flags: Self)
        ensures
            flags == Self::spec_empty(),
    {
        WrappingFlags { horizontal: false, vertical: false }
    }

    /// Whether the direction is in the set.
    pub fn contains(&self, wrapping: Wrapping) -> (r: bool)
        ensures
            r == match wrapping {
                Wrapping::Horizontal => self.horizontal,
                Wrapping::Vertical => self.vertical,
            },
    {
        match wrapping {
            Wrapping::Horizontal => self.horizontal,
            Wrapping::Vertical => self.vertical,
        }
    }
}

/// Simple rectangular dimensions. Optionally supports wrapping.
#[derive(Debug, Copy, Clone, Eq, PartialEq, Structural)]
pub struct RectDimensions {
    /// Width of the board. This corresponds to the `x` [`Coordinate`].
    width: usize,
    /// Height of the board. This corresponds to the `y` [`Coordinate`].
    height: usize,
    /// Set of orientations that the grid wraps along.
    wrapping: WrappingFlags,
}

/// The sequence of zero or one coordinates that an optional coordinate stands for.
pub open spec fn optional_seq(c: Option<Coordinate>) -> Seq<Coordinate> {
    match c {
        Some(c) => seq![c],
        None => Seq::empty(),
    }
}

/// An optional coordinate in front of a sequence is its first entry, if it is
/// there at all.
proof fn lemma_optional_seq_front(c: Option<Coordinate>, rest: Seq<Coordinate>)
    ensures
        match c {
            Some(first) => (optional_seq(c) + rest).len() > 0 && (optional_seq(c) + rest)[0]
                == first && (optional_seq(c) + rest).skip(1) == rest,
            None => optional_seq(c) + rest == rest,
        },
{
    match c {
        Some(first) => {
            assert((optional_seq(c) + rest).skip(1) =~= rest);
        },
        None => {
            assert(optional_seq(c) + rest =~= rest);
        },
    }
}

impl RectDimensions {
    /// Width of the board.
    pub closed spec fn spec_width(&self) -> nat {
        self.width as nat
    }

    /// Height of the board.
    pub closed spec fn spec_height(&self) -> nat {
        self.height as nat
    }

    /// The directions in which the board wraps.
    pub closed spec fn spec_wrapping(&self) -> WrappingFlags {
        self.wrapping
    }

    /// Both sides are positive and the number of cells fits an index.
    pub open spec fn valid_size(width: nat, height: nat) -> bool {
        width > 0 && height > 0 && width * height <= usize::MAX
    }

    /// Whether the coordinate lies on the board.
    pub open spec fn in_bounds(&self, c: Coordinate) -> bool {
        c.x < self.spec_width() && c.y < self.spec_height()
    }

    /// The cell above `c`: one row up, or the last row when `c` is in the
    /// first row of a board that wraps vertically.
    pub open spec fn spec_up(&self, c: Coordinate) -> Option<Coordinate> {
        if c.y > 0 {
            Some(Coordinate { x: c.x, y: (c.y - 1) as usize })
        } else if self.spec_wrapping().vertical {
            Some(Coordinate { x: c.x, y: (self.spec_height() - 1) as usize })
        } else {
            None
        }
    }

    /// The cell below `c`: one row down, or the first row when `c` is in the
    /// last row of a board that wraps vertically.
    pub open spec fn spec_down(&self, c: Coordinate) -> Option<Coordinate> {
        if c.y + 1 < self.spec_height() {
            Some(Coordinate { x: c.x, y: (c.y + 1) as usize })
        } else if self.spec_wrapping().vertical {
            Some(Coordinate { x: c.x, y: 0 })
        } else {
            None
        }
    }

    /// The cell left of `c`: one column back, or the last column when `c` is
    /// in the first column of a board that wraps horizontally.
    pub open spec fn spec_left(&self, c: Coordinate) -> Option<Coordinate> {
        if c.x > 0 {
            Some(Coordinate { x: (c.x - 1) as usize, y: c.y })
        } else if self.spec_wrapping().horizontal {
            Some(Coordinate { x: (self.spec_width() - 1) as usize, y: c.y })
        } else {
            None
        }
    }

    /// The cell right of `c`: one column on, or the first column when `c` is
    /// in the last column of a board that wraps horizontally.
    pub open spec fn spec_right(&self, c: Coordinate) -> Option<Coordinate> {
        if c.x + 1 < self.spec_width() {
            Some(Coordinate { x: (c.x + 1) as usize, y: c.y })
        } else if self.spec_wrapping().horizontal {
            Some(Coordinate { x: 0, y: c.y })
        } else {
            None
        }
    }

    /// Each side of valid dimensions fits an index.
    pub proof fn lemma_sides_fit(&self)
        requires
            self.wf(),
        ensures
            self.spec_width() <= usize::MAX,
            self.spec_height() <= usize::MAX,
    {
    }

    /// On a rectangular board, wrapping or not, being a neighbor goes both
    /// ways: a cell is among the neighbors of each of its neighbors.
    pub proof fn lemma_neighbors_are_mutual(&self, a: Coordinate, b: Coordinate)
        requires
            self.wf(),
        ensures
            self.spec_neighbors(a).contains(b) == self.spec_neighbors(b).contains(a),
    {
        if self.spec_neighbors(a).contains(b) {
            self.lemma_one_way(a, b);
        }
        if self.spec_neighbors(b).contains(a) {
            self.lemma_one_way(b, a);
        }
    }

    /// A cell is among the neighbors of each of its neighbors.
    proof fn lemma_one_way(&self, a: Coordinate, b: Coordinate)
        requires
            self.wf(),
            self.spec_neighbors(a).contains(b),
        ensures
            self.spec_neighbors(b).contains(a),
    {
        let around_a = self.spec_neighbors(a);
        let k = choose|k: int| 0 <= k < around_a.len() && around_a[k] == b;
        self.lemma_neighbors_in_bounds(a, k);
        self.lemma_neighbors_listed(a);
        self.lemma_neighbors_listed(b);
    }

    /// The neighbors of a cell on the board are the cells above, below, left
    /// and right of it, as far as there are such cells.
    proof fn lemma_neighbors_listed(&self, c: Coordinate)
        requires
            self.in_bounds(c),
        ensures
            forall|n: Coordinate|
                self.spec_neighbors(c).contains(n) <==> (self.spec_up(c) == Some(n)
                    || self.spec_down(c) == Some(n) || self.spec_left(c) == Some(n)
                    || self.spec_right(c) == Some(n)),
    {
        let up = optional_seq(self.spec_up(c));
        let down = optional_seq(self.spec_down(c));
        let left = optional_seq(self.spec_left(c));
        let right = optional_seq(self.spec_right(c));
        let all = up + (down + (left + right));
        assert forall|n: Coordinate| all.contains(n) <==> (up.contains(n) || down.contains(n)
            || left.contains(n) || right.contains(n)) by {
            if all.contains(n) {
                let k = choose|k: int| 0 <= k < all.len() && all[k] == n;
                if k < up.len() {
                    assert(up[k] == n);
                } else if k < up.len() + down.len() {
                    assert(down[k - up.len()] == n);
                } else if k < up.len() + down.len() + left.len() {
                    assert(left[k - up.len() - down.len()] == n);
                } else {
                    assert(right[k - up.len() - down.len() - left.len()] == n);
                }
            }
            if up.contains(n) {
                let k = choose|k: int| 0 <= k < up.len() && up[k] == n;
                assert(all[k] == n);
            }
            if down.contains(n) {
                let k = choose|k: int| 0 <= k < down.len() && down[k] == n;
                assert(all[up.len() + k] == n);
            }
            if left.contains(n) {
                let k = choose|k: int| 0 <= k < left.len() && left[k] == n;
                assert(all[up.len() + down.len() + k] == n);
            }
            if right.contains(n) {
                let k = choose|k: int| 0 <= k < right.len() && right[k] == n;
                assert(all[up.len() + down.len() + left.len() + k] == n);
            }
        }
        assert forall|n: Coordinate, o: Option<Coordinate>|
            #[trigger] optional_seq(o).contains(n) <==> o == Some(n) by {
            if o == Some(n) {
                assert(optional_seq(o)[0] == n);
            }
        }
    }

    /// Create new [`RectDimensions`] with the specified width and height.
    /// Defaults to no wrapping. Both sides must be nonzero and
    /// `width * height` must fit in a `usize`.
    pub fn new(width: usize, height: usize) -> (dim: Self)
        requires
            Self::valid_size(width as nat, height as nat),
        ensures
            dim.wf(),
            dim.spec_width() == width,
            dim.spec_height() == height,
            dim.spec_wrapping() == WrappingFlags::empty(),
    {
        Self::new_wrapping(width, height, WrappingFlags::empty())
    }

    /// Create new [`RectDimensions`] with the specified width and height,
    /// wrapping on the specified axes. Both sides must be nonzero and
    /// `width * height` must fit in a `usize`.
    pub fn new_wrapping(width: usize, height: usize, wrapping: WrappingFlags) -> (dim: Self)
        requires
            Self::valid_size(width as nat, height as nat),
        ensures
            dim.wf(),
            dim.spec_width() == width,
            dim.spec_height() == height,
            dim.spec_wrapping() == wrapping,
    {
        Self { width, height, wrapping }
    }

    /// Create new [`RectDimensions`] with the specified width and height.
    /// Defaults to no wrapping. Returns `None` if `width * height` exceeds
    /// `usize::MAX` or if `width` or `height` is 0.
    pub fn try_new(width: usize, height: usize) -> (r: Option<Self>)
        ensures
            r is Some <==> Self::valid_size(width as nat, height as nat),
            r matches Some(dim) ==> dim.wf() && dim.spec_width() == width && dim.spec_height()
                == height && dim.spec_wrapping() == WrappingFlags::empty(),
    {
        Self::try_new_wrapping(width, height, WrappingFlags::empty())
    }

    /// Create new [`RectDimensions`] with the specified width and height.
    /// Returns `None` if `width * height` exceeds `usize::MAX` or if `width`
    /// or `height` is 0.
    pub fn try_new_wrapping(width: usize, height: usize, wrapping: WrappingFlags) -> (r: Option<
        Self,
    >)
        ensures
            r is Some <==> Self::valid_size(width as nat, height as nat),
            r matches Some(dim) ==> dim.wf() && dim.spec_width() == width && dim.spec_height()
                == height && dim.spec_wrapping() == wrapping,
    {
        if width == 0 || height == 0 {
            None
        } else {
            match width.checked_mul(height) {
                Some(_) => Some(Self { width, height, wrapping }),
                None => None,
            }
        }
    }

    /// Get the width of these [`RectDimensions`].
    pub fn width(&self) -> (w: usize)
        ensures
            w == self.spec_width(),
    {
        self.width
    }

    /// Get the height of these [`RectDimensions`].
    pub fn height(&self) -> (h: usize)
        ensures
            h == self.spec_height(),
    {
        self.height
    }

    /// Get the wrapping modes of these [`RectDimensions`].
    pub fn wrapping(&self) -> (w: WrappingFlags)
        ensures
            w == self.spec_wrapping(),
    {
        self.wrapping
    }

    /// Whether the grid wraps along the `x` direction.
    pub fn wrap_x(&self) -> (r: bool)
        ensures
            r == self.spec_wrapping().horizontal,
    {
        self.wrapping.contains(Wrapping::Horizontal)
    }

    /// Whether the grid wraps along the `y` direction.
    pub fn wrap_y(&self) -> (r: bool)
        ensures
            r == self.spec_wrapping().vertical,
    {
        self.wrapping.contains(Wrapping::Vertical)
    }

    /// Get the rows of this grid. Each row holds the coordinates of that row,
    /// from left to right.
    pub fn iter_coordinates(&self) -> (rows: Vec<Vec<Coordinate>>)
        ensures
            rows.len() == self.spec_height(),
            forall|y: int|
                0 <= y < rows.len() ==> (#[trigger] rows[y]).len() == self.spec_width(),
            forall|y: int, x: int|
                0 <= y < rows.len() && 0 <= x < self.spec_width() ==> #[trigger] rows[y][x] == (
                Coordinate { x: x as usize, y: y as usize }),
    {
        let mut rows: Vec<Vec<Coordinate>> = Vec::new();
        let mut y: usize = 0;
        while y < self.height
            invariant
                y <= self.height,
                rows.len() == y,
                forall|j: int| 0 <= j < rows.len() ==> (#[trigger] rows[j]).len() == self.width,
                forall|j: int, i: int|
                    0 <= j < rows.len() && 0 <= i < self.width ==> #[trigger] rows[j][i] == (
                    Coordinate { x: i as usize, y: j as usize }),
            decreases self.height - y,
        {
            let mut row: Vec<Coordinate> = Vec::new();
            let mut x: usize = 0;
            while x < self.width
                invariant
                    x <= self.width,
                    row.len() == x,
                    forall|i: int|
                        0 <= i < row.len() ==> #[trigger] row[i] == (Coordinate {
                            x: i as usize,
                            y,
                        }),
                decreases self.width - x,
            {
                row.push(Coordinate { x, y });
                x += 1;
            }
            rows.push(row);
            y += 1;
        }
        rows
    }

    /// Check if the given [`Coordinate`] is in bounds for these
    /// [`RectDimensions`].
    fn check_bounds(&self, coord: &Coordinate) -> (r: bool)
        ensures
            r == self.in_bounds(*coord),
    {
        coord.x < self.width && coord.y < self.height
    }
}

impl Dimensions for RectDimensions {
    type Coordinate = Coordinate;

    open spec fn wf(&self) -> bool {
        Self::valid_size(self.spec_width(), self.spec_height())
    }

    open spec fn spec_total_size(&self) -> nat {
        self.spec_width() * self.spec_height()
    }

    open spec fn spec_try_linearize(&self, coord: Coordinate) -> Option<nat> {
        if self.in_bounds(coord) {
            Some((coord.y * self.spec_width() + coord.x) as nat)
        } else {
            None
        }
    }

    open spec fn spec_un_linearize(&self, idx: nat) -> Coordinate {
        Coordinate {
            x: (idx % self.spec_width()) as usize,
            y: (idx / self.spec_width()) as usize,
        }
    }

    open spec fn spec_neighbors(&self, coord: Coordinate) -> Seq<Coordinate> {
        if self.in_bounds(coord) {
            optional_seq(self.spec_up(coord)) + (optional_seq(self.spec_down(coord)) + (
            optional_seq(self.spec_left(coord)) + optional_seq(self.spec_right(coord))))
        } else {
            Seq::empty()
        }
    }

    proof fn lemma_linearize_round_trip(&self, coord: Coordinate) {
        let w = self.spec_width() as int;
        let h = self.spec_height() as int;
        let x = coord.x as int;
        let y = coord.y as int;
        assert(y * w + x < w * h) by (nonlinear_arith)
            requires
                0 <= x < w,
                0 <= y < h,
        ;
        lemma_fundamental_div_mod_converse(y * w + x, w, y, x);
        let idx = self.spec_try_linearize(coord).unwrap();
        assert(idx == y * w + x);
        assert(idx as int % w == x);
        assert(idx as int / w == y);
        assert(self.spec_un_linearize(idx).x == coord.x);
        assert(self.spec_un_linearize(idx).y == coord.y);
    }

    proof fn lemma_un_linearize_round_trip(&self, idx: nat) {
        let w = self.spec_width() as int;
        let h = self.spec_height() as int;
        let i = idx as int;
        lemma_fundamental_div_mod(i, w);
        assert(0 <= i / w < h && 0 <= i % w < w) by (nonlinear_arith)
            requires
                0 <= i < w * h,
                0 < w,
                i == w * (i / w) + i % w,
                0 <= i % w < w,
        ;
        assert((i / w) * w + i % w == i) by (nonlinear_arith)
            requires
                i == w * (i / w) + i % w,
        ;
    }

    proof fn lemma_neighbors_in_bounds(&self, coord: Coordinate, k: int) {
    }

    /// Compute the linear total size of these [`Dimensions`].
    fn total_size(&self) -> (n: usize) {
        self.width * self.height
    }

    /// Convert a coordinate to a linear index within this dimension.
    /// Returns `None` if the coordinate is out of range for the dimension.
    fn try_linearize(&self, coord: &Coordinate) -> (r: Option<usize>) {
        if self.check_bounds(coord) {
            proof {
                self.lemma_linearize_round_trip(*coord);
            }
            Some(coord.y * self.width + coord.x)
        } else {
            None
        }
    }

    /// Convert a linear index back into a [`Coordinate`].
    fn un_linearize(&self, idx: usize) -> (coord: Coordinate) {
        Coordinate { x: idx % self.width, y: idx / self.width }
    }
}

impl ColinearCheck for RectDimensions {
    /// Three coordinates are colinear when they differ along at most one axis.
    open spec fn spec_is_colinear(&self, c1: Coordinate, c2: Coordinate, c3: Coordinate) -> bool {
        (c1.x == c2.x && c2.x == c3.x) || (c1.y == c2.y && c2.y == c3.y)
    }

    proof fn lemma_neighbor_is_colinear(&self, coord: Coordinate, k: int) {
    }

    fn is_colinear(&self, c1: &Coordinate, c2: &Coordinate, c3: &Coordinate) -> (r: bool) {
        let difx = c1.x != c2.x || c2.x != c3.x;
        let dify = c1.y != c2.y || c2.y != c3.y;
        // Allowed to differ in only one direction.
        !(difx && dify)
    }
}

impl Default for RectDimensions {
    /// Construct the default rectangular dimensions, a 10x10 board with no
    /// wrapping.
    fn default() -> (dim: Self)
        ensures
            dim.wf(),
            dim.spec_width() == 10,
            dim.spec_height() == 10,
            dim.spec_wrapping() == WrappingFlags::empty(),
    {
        Self { width: 10, height: 10, wrapping: WrappingFlags::empty() }
    }
}

/// The direction that a walk over the neighbors of a cell looks at next.
#[derive(Debug, Copy, Clone)]
enum RectNeighborsStep {
    Up,
    Down,
    Left,
    Right,
    End,
}

/// State of the neighbors iter for RectDimensions.
pub struct RectNeighbors {
    coord: Coordinate,
    step: RectNeighborsStep,
}

impl RectNeighbors {
    /// How many directions are still to be looked at.
    closed spec fn steps_left(&self) -> nat {
        match self.step {
            RectNeighborsStep::Up => 4,
            RectNeighborsStep::Down => 3,
            RectNeighborsStep::Left => 2,
            RectNeighborsStep::Right => 1,
            RectNeighborsStep::End => 0,
        }
    }
}

impl NeighborIterState<RectDimensions> for RectNeighbors {
    closed spec fn wf(&self, dim: &RectDimensions) -> bool {
        self.step is End || dim.in_bounds(self.coord)
    }

    closed spec fn remaining(&self, dim: &RectDimensions) -> Seq<Coordinate> {
        let up = optional_seq(dim.spec_up(self.coord));
        let down = optional_seq(dim.spec_down(self.coord));
        let left = optional_seq(dim.spec_left(self.coord));
        let right = optional_seq(dim.spec_right(self.coord));
        match self.step {
            RectNeighborsStep::Up => up + (down + (left + right)),
            RectNeighborsStep::Down => down + (left + right),
            RectNeighborsStep::Left => left + right,
            RectNeighborsStep::Right => right,
            RectNeighborsStep::End => Seq::empty(),
        }
    }

    fn start(dim: &RectDimensions, coord: Coordinate) -> (state: Self) {
        Self {
            coord,
            // If the coordinate is out of bounds, skip directly to the End
            // state so that the bounds need not be checked at every step.
            step: if dim.check_bounds(&coord) {
                RectNeighborsStep::Up
            } else {
                RectNeighborsStep::End
            },
        }
    }

    fn next(&mut self, dim: &RectDimensions) -> (r: Option<Coordinate>) {
        loop
            invariant
                dim.wf(),
                self.wf(dim),
                self.remaining(dim) == old(self).remaining(dim),
            decreases self.steps_left(),
        {
            proof {
                let down = optional_seq(dim.spec_down(self.coord));
                let left = optional_seq(dim.spec_left(self.coord));
                let right = optional_seq(dim.spec_right(self.coord));
                lemma_optional_seq_front(dim.spec_up(self.coord), down + (left + right));
                lemma_optional_seq_front(dim.spec_down(self.coord), left + right);
                lemma_optional_seq_front(dim.spec_left(self.coord), right);
                lemma_optional_seq_front(dim.spec_right(self.coord), Seq::empty());
                assert(right + Seq::empty() =~= right);
            }
            match self.step {
                RectNeighborsStep::Up => {
                    self.step = RectNeighborsStep::Down;
                    match self.coord.y.checked_sub(1) {
                        Some(y) => {
                            return Some(Coordinate::new(self.coord.x, y));
                        },
                        None => {
                            if dim.wrap_y() {
                                return Some(Coordinate::new(self.coord.x, dim.height - 1));
                            }
                        },
                    }
                },
                RectNeighborsStep::Down => {
                    self.step = RectNeighborsStep::Left;
                    let y: usize = self.coord.y + 1;
                    if y < dim.height {
                        return Some(Coordinate::new(self.coord.x, y));
                    } else if dim.wrap_y() {
                        return Some(Coordinate::new(self.coord.x, 0));
                    }
                },
                RectNeighborsStep::Left => {
                    self.step = RectNeighborsStep::Right;
                    match self.coord.x.checked_sub(1) {
                        Some(x) => {
                            return Some(Coordinate::new(x, self.coord.y));
                        },
                        None => {
                            if dim.wrap_x() {
                                return Some(Coordinate::new(dim.width - 1, self.coord.y));
                            }
                        },
                    }
                },
                RectNeighborsStep::Right => {
                    self.step = RectNeighborsStep::End;
                    let x: usize = self.coord.x + 1;
                    if x < dim.width {
                        return Some(Coordinate::new(x, self.coord.y));
                    } else if dim.wrap_x() {
                        return Some(Coordinate::new(0, self.coord.y));
                    }
                },
                RectNeighborsStep::End => {
                    return None;
                },
            }
        }
    }
}

impl Neighborhood for RectDimensions {
    type NeighborIterState = RectNeighbors;
}

} // verus!
