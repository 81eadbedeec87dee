//! Ships that lie on a straight line.
use vstd::prelude::*;

use crate::board::common::Coordinate2D;
use crate::board::rectangular::RectDimensions;
use crate::board::{ColinearCheck, Coordinate, Dimensions, Neighborhood};
use crate::ships::{all_in_bounds, ProjectIterState, ProjectShape, ShapeProjection, ShipShape};

verus! {

/// A linear ship shape, with a given length.
#[derive(Debug, Copy, Clone, Eq, PartialEq, Structural)]
pub struct Line(usize);

impl Line {
    /// The length of this ship.
    pub closed spec fn spec_len(&self) -> nat {
        self.0 as nat
    }

    /// The possible placements of a line of `len` cells whose first cell is
    /// `coord`. A line of one cell is the anchor alone, if it lies on the
    /// board. A longer line has one placement for each neighbor of the anchor
    /// towards which a route of its length exists.
    pub open spec fn spec_project_from<D: ColinearCheck>(
        len: nat,
        coord: D::Coordinate,
        dim: &D,
    ) -> Seq<Seq<D::Coordinate>> {
        if len == 1 {
            if dim.spec_try_linearize(coord) is Some {
                seq![seq![coord]]
            } else {
                Seq::empty()
            }
        } else {
            spec_routes(dim, len, coord, dim.spec_neighbors(coord))
        }
    }

    /// Construct a linear ship with the specified length, which must not
    /// be 0.
    pub fn new(len: usize) -> (line: Self)
        requires
            len > 0,
        ensures
            line.spec_len() == len,
    {
        Line(len)
    }

    /// Get the length of this ship.
    pub fn len(&self) -> (len: usize)
        ensures
            len == self.spec_len(),
    {
        self.0
    }
}

/// The first of the candidates that lies on the line through the first two
/// cells of the route and is not part of the route yet.
pub open spec fn spec_next_cell<D: ColinearCheck>(
    dim: &D,
    route: Seq<D::Coordinate>,
    candidates: Seq<D::Coordinate>,
) -> Option<D::Coordinate>
    decreases candidates.len(),
{
    if candidates.len() == 0 {
        None
    } else if dim.spec_is_colinear(route[0], route[1], candidates[0]) && !route.contains(
        candidates[0],
    ) {
        Some(candidates[0])
    } else {
        spec_next_cell(dim, route, candidates.skip(1))
    }
}

/// The route grown to `len` cells: each further cell is the first neighbor of
/// the last cell that continues the line and was not visited. `None` when the
/// route gets stuck before it is long enough.
pub open spec fn spec_extend_route<D: ColinearCheck>(
    dim: &D,
    len: nat,
    route: Seq<D::Coordinate>,
) -> Option<Seq<D::Coordinate>>
    decreases len - route.len(),
{
    if route.len() >= len || route.len() == 0 {
        Some(route)
    } else {
        match spec_next_cell(dim, route, dim.spec_neighbors(route.last())) {
            Some(next) => spec_extend_route(dim, len, route.push(next)),
            None => None,
        }
    }
}

/// The route of `len` cells that leaves `start` towards its neighbor `dir`.
/// No route leads from a cell towards itself, which a cell can be asked for
/// where it is its own neighbor.
pub open spec fn spec_route<D: ColinearCheck>(
    dim: &D,
    len: nat,
    start: D::Coordinate,
    dir: D::Coordinate,
) -> Option<Seq<D::Coordinate>> {
    if start == dir {
        None
    } else {
        spec_extend_route(dim, len, seq![start, dir])
    }
}

/// The routes of `len` cells from `start` towards each of the directions that
/// admits one, in the order of the directions.
pub open spec fn spec_routes<D: ColinearCheck>(
    dim: &D,
    len: nat,
    start: D::Coordinate,
    dirs: Seq<D::Coordinate>,
) -> Seq<Seq<D::Coordinate>>
    decreases dirs.len(),
{
    if dirs.len() == 0 {
        Seq::empty()
    } else {
        match spec_route(dim, len, start, dirs[0]) {
            Some(route) => seq![route] + spec_routes(dim, len, start, dirs.skip(1)),
            None => spec_routes(dim, len, start, dirs.skip(1)),
        }
    }
}

/// A chain of cells in which each cell after the first is a neighbor of the
/// one before it and lies on the line through the first two cells.
pub open spec fn is_chain<D: ColinearCheck>(dim: &D, route: Seq<D::Coordinate>) -> bool {
    forall|i: int|
        #![trigger route[i]]
        1 <= i < route.len() ==> dim.spec_neighbors(route[i - 1]).contains(route[i])
            && dim.spec_is_colinear(route[0], route[1], route[i])
}

/// On a rectangular board it makes no difference which of two consecutive
/// cells of a chain is asked whether the other is its neighbor.
pub proof fn lemma_chain_on_rectangle(dim: &RectDimensions, route: Seq<Coordinate2D>)
    requires
        dim.wf(),
    ensures
        is_chain(dim, route) <==> forall|i: int|
            #![trigger route[i]]
            1 <= i < route.len() ==> dim.spec_neighbors(route[i]).contains(route[i - 1])
                && dim.spec_is_colinear(route[0], route[1], route[i]),
{
    assert forall|i: int| 1 <= i < route.len() implies dim.spec_neighbors(route[i - 1]).contains(
        #[trigger] route[i],
    ) == dim.spec_neighbors(route[i]).contains(route[i - 1]) by {
        dim.lemma_neighbors_are_mutual(route[i - 1], route[i]);
    }
}

/// What the search for the next cell finds is one of the candidates, lies on
/// the line and is new to the route.
pub proof fn lemma_next_cell<D: ColinearCheck>(
    dim: &D,
    route: Seq<D::Coordinate>,
    candidates: Seq<D::Coordinate>,
)
    ensures
        spec_next_cell(dim, route, candidates) matches Some(next) ==> candidates.contains(next)
            && dim.spec_is_colinear(route[0], route[1], next) && !route.contains(next),
    decreases candidates.len(),
{
    if candidates.len() > 0 {
        if dim.spec_is_colinear(route[0], route[1], candidates[0]) && !route.contains(
            candidates[0],
        ) {
        } else {
            lemma_next_cell(dim, route, candidates.skip(1));
            if let Some(next) = spec_next_cell(dim, route, candidates.skip(1)) {
                let k = choose|k: int|
                    0 <= k < candidates.skip(1).len() && candidates.skip(1)[k] == next;
                assert(candidates[k + 1] == next);
            }
        }
    }
}

/// Growing a chain on the board gives a chain on the board, of the length
/// asked for, that begins with the chain it was grown from; and if no cell
/// occurred twice in that, none occurs twice in what was grown.
pub proof fn lemma_extend_route<D: ColinearCheck>(dim: &D, len: nat, route: Seq<D::Coordinate>)
    requires
        dim.wf(),
        2 <= route.len() <= len,
        is_chain(dim, route),
        all_in_bounds(route, dim),
    ensures
        spec_extend_route(dim, len, route) matches Some(full) ==> full.len() == len && is_chain(
            dim,
            full,
        ) && all_in_bounds(full, dim) && full.subrange(0, route.len() as int) == route && (
        route.no_duplicates() ==> full.no_duplicates()),
    decreases len - route.len(),
{
    if route.len() < len {
        let candidates = dim.spec_neighbors(route.last());
        lemma_next_cell(dim, route, candidates);
        if let Some(next) = spec_next_cell(dim, route, candidates) {
            let longer = route.push(next);
            let k = choose|k: int| 0 <= k < candidates.len() && candidates[k] == next;
            dim.lemma_neighbors_in_bounds(route.last(), k);
            assert(is_chain(dim, longer)) by {
                assert forall|i: int| 1 <= i < longer.len() implies dim.spec_neighbors(
                    longer[i - 1],
                ).contains(#[trigger] longer[i]) && dim.spec_is_colinear(
                    longer[0],
                    longer[1],
                    longer[i],
                ) by {
                    if i < route.len() {
                        assert(longer[i] == route[i]);
                        assert(longer[i - 1] == route[i - 1]);
                    }
                }
            }
            assert(all_in_bounds(longer, dim)) by {
                assert forall|j: int| 0 <= j < longer.len() implies dim.spec_try_linearize(
                    #[trigger] longer[j],
                ) is Some by {
                    if j < route.len() {
                        assert(longer[j] == route[j]);
                    }
                }
            }
            if route.no_duplicates() {
                assert forall|i: int, j: int|
                    0 <= i < longer.len() && 0 <= j < longer.len() && i != j implies longer[i]
                    != longer[j] by {
                    if i < route.len() && j < route.len() {
                        assert(route[i] != route[j]);
                    } else if i < route.len() {
                        assert(route[i] != next);
                    } else {
                        assert(route[j] != next);
                    }
                }
            }
            lemma_extend_route(dim, len, longer);
            if let Some(full) = spec_extend_route(dim, len, longer) {
                assert(full.subrange(0, route.len() as int) =~= longer.subrange(
                    0,
                    route.len() as int,
                ));
                assert(longer.subrange(0, route.len() as int) =~= route);
            }
        }
    } else {
        assert(route.subrange(0, route.len() as int) =~= route);
    }
}

/// Every route from a cell towards one of its neighbors is a chain of the
/// length asked for that starts with the cell and lies on the board, and no
/// cell occurs twice in it.
pub proof fn lemma_route<D: ColinearCheck>(
    dim: &D,
    len: nat,
    start: D::Coordinate,
    dir: D::Coordinate,
)
    requires
        dim.wf(),
        len >= 2,
        dim.spec_neighbors(start).contains(dir),
    ensures
        spec_route(dim, len, start, dir) matches Some(full) ==> full.len() == len && full[0]
            == start && full[1] == dir && is_chain(dim, full) && all_in_bounds(full, dim)
            && full.no_duplicates(),
{
    let route = seq![start, dir];
    let k = choose|k: int| 0 <= k < dim.spec_neighbors(start).len() && dim.spec_neighbors(start)[k]
        == dir;
    dim.lemma_neighbors_in_bounds(start, k);
    dim.lemma_neighbor_is_colinear(start, k);
    assert(is_chain(dim, route));
    assert(all_in_bounds(route, dim));
    lemma_extend_route(dim, len, route);
    if let Some(full) = spec_extend_route(dim, len, route) {
        assert(full.subrange(0, 2)[0] == full[0]);
        assert(full.subrange(0, 2)[1] == full[1]);
    }
}

/// Each of the routes towards some directions is the route towards one of
/// them.
pub proof fn lemma_routes<D: ColinearCheck>(
    dim: &D,
    len: nat,
    start: D::Coordinate,
    dirs: Seq<D::Coordinate>,
    k: int,
)
    requires
        0 <= k < spec_routes(dim, len, start, dirs).len(),
    ensures
        exists|j: int|
            0 <= j < dirs.len() && spec_route(dim, len, start, #[trigger] dirs[j]) == Some(
                spec_routes(dim, len, start, dirs)[k],
            ),
    decreases dirs.len(),
{
    if dirs.len() > 0 {
        let rest = spec_routes(dim, len, start, dirs.skip(1));
        match spec_route(dim, len, start, dirs[0]) {
            Some(route) => {
                if k == 0 {
                    assert(spec_route(dim, len, start, dirs[0]) == Some(
                        spec_routes(dim, len, start, dirs)[k],
                    ));
                } else {
                    lemma_routes(dim, len, start, dirs.skip(1), k - 1);
                    let j = choose|j: int|
                        0 <= j < dirs.skip(1).len() && spec_route(
                            dim,
                            len,
                            start,
                            #[trigger] dirs.skip(1)[j],
                        ) == Some(rest[k - 1]);
                    assert(dirs[j + 1] == dirs.skip(1)[j]);
                }
            },
            None => {
                lemma_routes(dim, len, start, dirs.skip(1), k);
                let j = choose|j: int|
                    0 <= j < dirs.skip(1).len() && spec_route(
                        dim,
                        len,
                        start,
                        #[trigger] dirs.skip(1)[j],
                    ) == Some(rest[k]);
                assert(dirs[j + 1] == dirs.skip(1)[j]);
            },
        }
    }
}

impl<D: Neighborhood + ColinearCheck> ShipShape<D> for Line {
    open spec fn wf(&self) -> bool {
        self.spec_len() > 0
    }

    open spec fn spec_project(&self, coord: D::Coordinate, dim: &D) -> Seq<Seq<D::Coordinate>> {
        Line::spec_project_from(self.spec_len(), coord, dim)
    }

    /// A placement has the length of the line, and it is a chain.
    open spec fn spec_is_valid_placement(&self, proj: Seq<D::Coordinate>, dim: &D) -> bool {
        proj.len() == self.spec_len() && is_chain(dim, proj)
    }

    proof fn lemma_projections_are_valid(&self, coord: D::Coordinate, dim: &D, k: int) {
        if self.spec_len() != 1 {
            let dirs = dim.spec_neighbors(coord);
            lemma_routes(dim, self.spec_len(), coord, dirs, k);
            let j = choose|j: int|
                0 <= j < dirs.len() && spec_route(dim, self.spec_len(), coord, #[trigger] dirs[j])
                    == Some(spec_routes(dim, self.spec_len(), coord, dirs)[k]);
            lemma_route(dim, self.spec_len(), coord, dirs[j]);
        }
    }

    fn is_valid_placement(&self, proj: &ShapeProjection<D::Coordinate>, dim: &D) -> (r: bool) {
        if proj.len() != self.len() {
            return false;
        }
        let mut i: usize = 1;
        while i < proj.len()
            invariant
                dim.wf(),
                1 <= i,
                forall|j: int|
                    #![trigger proj@[j]]
                    1 <= j < i && j < proj.len() ==> dim.spec_neighbors(proj@[j - 1]).contains(
                        proj@[j],
                    ) && dim.spec_is_colinear(proj@[0], proj@[1], proj@[j]),
            decreases proj.len() - i,
        {
            if dim.is_neighbor(&proj[i - 1], &proj[i]) && dim.is_colinear(
                &proj[0],
                &proj[1],
                &proj[i],
            ) {
                i += 1;
            } else {
                return false;
            }
        }
        true
    }
}

/// Whether the coordinate is one of the cells of the route.
fn route_contains<C: Coordinate>(route: &Vec<C>, coord: &C) -> (r: bool)
    ensures
        r == route@.contains(*coord),
{
    let mut i: usize = 0;
    while i < route.len()
        invariant
            i <= route.len(),
            forall|j: int| 0 <= j < i ==> route@[j] != *coord,
        decreases route.len() - i,
    {
        if route[i].same(coord) {
            return true;
        }
        i += 1;
    }
    false
}

/// The view of an optional projection.
pub open spec fn optional_view<C>(proj: Option<ShapeProjection<C>>) -> Option<Seq<C>> {
    match proj {
        Some(proj) => Some(proj@),
        None => None,
    }
}

/// Attempt to build a route of `len` cells in the given direction from the
/// start.
pub fn try_build_route<D: Neighborhood + ColinearCheck>(
    dim: &D,
    len: usize,
    start: D::Coordinate,
    dir: D::Coordinate,
) -> (r: Option<ShapeProjection<D::Coordinate>>)
    requires
        dim.wf(),
    ensures
        optional_view(r) == spec_route(dim, len as nat, start, dir),
{
    if start.same(&dir) {
        // The direction is the start itself: the cell is visited already.
        return None;
    }
    let mut route: Vec<D::Coordinate> = Vec::new();
    route.push(start);
    route.push(dir);
    assert(route@ =~= seq![start, dir]);

    // Search out along the direction until the length is reached.
    while route.len() < len
        invariant
            dim.wf(),
            route.len() >= 2,
            route@[0] == start,
            route@[1] == dir,
            spec_extend_route(dim, len as nat, route@) == spec_route(dim, len as nat, start, dir),
        decreases len - route.len(),
    {
        // Check the neighbors of the last cell, to find one that's in the same
        // direction and not yet visited.
        let last = route[route.len() - 1];
        let mut neighbors = dim.neighbors(last);
        let mut found: Option<D::Coordinate> = None;
        let ghost candidates = dim.spec_neighbors(last);
        assert(neighbors.remaining().skip(0) =~= neighbors.remaining());
        loop
            invariant_except_break
                neighbors.wf(),
                neighbors.dimensions() == *dim,
                found is None,
                neighbors.remaining().len() <= candidates.len(),
                spec_next_cell(dim, route@, neighbors.remaining()) == spec_next_cell(
                    dim,
                    route@,
                    candidates,
                ),
            invariant
                dim.wf(),
                route.len() >= 2,
                route@[0] == start,
                route@[1] == dir,
            ensures
                found == spec_next_cell(dim, route@, candidates),
            decreases neighbors.remaining().len(),
        {
            match neighbors.next() {
                Some(neighbor) => {
                    if dim.is_colinear(&start, &dir, &neighbor) && !route_contains(
                        &route,
                        &neighbor,
                    ) {
                        found = Some(neighbor);
                        break ;
                    }
                },
                None => {
                    break ;
                },
            }
        }
        match found {
            Some(neighbor) => {
                route.push(neighbor);
            },
            None => {
                // If no neighbor matches along the line, there's nowhere else
                // to go from here.
                return None;
            },
        }
    }
    Some(route)
}

/// State of the projection iterator for Line shape.
pub struct LineProjectIterState<C> {
    start: C,
    directions: Vec<C>,
    next_dir: usize,
}

impl<D: Neighborhood + ColinearCheck> ProjectIterState<D, Line> for LineProjectIterState<
    D::Coordinate,
> {
    closed spec fn wf(&self, shape: &Line, dim: &D) -> bool {
        self.next_dir <= self.directions.len() + 1
    }

    closed spec fn remaining(&self, shape: &Line, dim: &D) -> Seq<Seq<D::Coordinate>> {
        if shape.spec_len() == 1 {
            if self.next_dir == 0 {
                seq![seq![self.start]]
            } else {
                Seq::empty()
            }
        } else if self.next_dir <= self.directions.len() {
            spec_routes(dim, shape.spec_len(), self.start, self.directions@.skip(self.next_dir as int))
        } else {
            Seq::empty()
        }
    }

    /// Construct an instance of this iter state given the arguments.
    fn start(shape: &Line, dim: &D, coord: D::Coordinate) -> (state: Self) {
        if shape.len() == 1 {
            let on_board = dim.try_linearize(&coord).is_some();
            Self { start: coord, directions: Vec::new(), next_dir: if on_board { 0 } else { 1 } }
        } else {
            let mut directions: Vec<D::Coordinate> = Vec::new();
            let mut neighbors = dim.neighbors(coord);
            let ghost all = dim.spec_neighbors(coord);
            loop
                invariant
                    neighbors.wf(),
                    directions.len() + neighbors.remaining().len() == all.len(),
                    neighbors.remaining() == all.skip(directions.len() as int),
                    forall|k: int| 0 <= k < directions.len() ==> directions@[k] == all[k],
                ensures
                    directions@ == all,
                decreases neighbors.remaining().len(),
            {
                match neighbors.next() {
                    Some(neighbor) => {
                        directions.push(neighbor);
                    },
                    None => {
                        assert(directions@ =~= all);
                        break ;
                    },
                }
            }
            assert(directions@.skip(0) =~= directions@);
            Self { start: coord, directions, next_dir: 0 }
        }
    }

    /// Get the next possible projection of the ship's shape.
    fn next(&mut self, shape: &Line, dim: &D) -> (r: Option<ShapeProjection<D::Coordinate>>) {
        if shape.len() == 1 {
            if self.next_dir == 0 {
                self.next_dir = 1;
                let mut proj: Vec<D::Coordinate> = Vec::new();
                proj.push(self.start);
                assert(proj@ =~= seq![self.start]);
                assert(seq![seq![self.start]].skip(1) =~= Seq::<Seq<D::Coordinate>>::empty());
                Some(proj)
            } else {
                None
            }
        } else {
            loop
                invariant
                    dim.wf(),
                    shape.spec_len() != 1,
                    self.wf(shape, dim),
                    self.remaining(shape, dim) == old(self).remaining(shape, dim),
                decreases self.directions.len() + 1 - self.next_dir,
            {
                if self.next_dir < self.directions.len() {
                    let dir = self.directions[self.next_dir];
                    assert(self.directions@.skip(self.next_dir as int).skip(1)
                        =~= self.directions@.skip(self.next_dir as int + 1));
                    let ghost before = self.remaining(shape, dim);
                    self.next_dir += 1;
                    if let Some(route) = try_build_route(dim, shape.len(), self.start, dir) {
                        assert(before.skip(1) =~= self.remaining(shape, dim));
                        return Some(route);
                    }
                } else {
                    return None;
                }
            }
        }
    }
}

impl<D: Neighborhood + ColinearCheck> ProjectShape<D> for Line {
    type ProjectIterState = LineProjectIterState<D::Coordinate>;
}

} // verus!
