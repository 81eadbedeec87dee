//! Straight lines on a rectangular board that does not wrap: what the
//! placements of a [`Line`](crate::ships::Line) are there, in closed form.
use vstd::prelude::*;

use crate::board::rectangular::{optional_seq, Coordinate, RectDimensions};
use crate::board::{ColinearCheck, Dimensions};
use crate::game::simple::Orientation;
use crate::ships::linear::{spec_extend_route, spec_next_cell, spec_route, spec_routes};

verus! {

/// Valid dimensions that wrap in no direction.
pub open spec fn plain(dim: &RectDimensions) -> bool {
    dim.wf() && !dim.spec_wrapping().horizontal && !dim.spec_wrapping().vertical
}

/// The cell that lies `i` steps from `start` in the given direction: up is
/// towards smaller `y`, down towards larger `y`, left towards smaller `x` and
/// right towards larger `x`.
pub open spec fn cell_at(start: Coordinate, dir: Orientation, i: int) -> Coordinate {
    match dir {
        Orientation::Up => Coordinate { x: start.x, y: (start.y - i) as usize },
        Orientation::Down => Coordinate { x: start.x, y: (start.y + i) as usize },
        Orientation::Left => Coordinate { x: (start.x - i) as usize, y: start.y },
        Orientation::Right => Coordinate { x: (start.x + i) as usize, y: start.y },
    }
}

/// The straight line of `len` cells from `start` in the given direction.
pub open spec fn line_cells(start: Coordinate, dir: Orientation, len: nat) -> Seq<Coordinate> {
    Seq::new(len, |i: int| cell_at(start, dir, i))
}

/// Whether the straight line of `len` cells from `start` in the given
/// direction lies on the board.
pub open spec fn fits(dim: &RectDimensions, start: Coordinate, dir: Orientation, len: nat) -> bool {
    &&& dim.in_bounds(start)
    &&& len >= 1
    &&& match dir {
        Orientation::Up => start.y - (len - 1) >= 0,
        Orientation::Down => start.y + (len - 1) < dim.spec_height(),
        Orientation::Left => start.x - (len - 1) >= 0,
        Orientation::Right => start.x + (len - 1) < dim.spec_width(),
    }
}

/// The neighbor of a cell in the given direction.
pub open spec fn toward(dim: &RectDimensions, c: Coordinate, dir: Orientation) -> Option<
    Coordinate,
> {
    match dir {
        Orientation::Up => dim.spec_up(c),
        Orientation::Down => dim.spec_down(c),
        Orientation::Left => dim.spec_left(c),
        Orientation::Right => dim.spec_right(c),
    }
}

/// The placement of a line of `len` cells from `start` in the given
/// direction, as a sequence of no or one placements.
pub open spec fn line_option(
    dim: &RectDimensions,
    start: Coordinate,
    dir: Orientation,
    len: nat,
) -> Seq<Seq<Coordinate>> {
    if fits(dim, start, dir, len) {
        seq![line_cells(start, dir, len)]
    } else {
        Seq::empty()
    }
}

/// The placements of a line of `len` cells from `start`: the straight lines
/// up, down, left and right, as far as they lie on the board.
pub open spec fn line_options(dim: &RectDimensions, start: Coordinate, len: nat) -> Seq<
    Seq<Coordinate>,
> {
    line_option(dim, start, Orientation::Up, len) + (line_option(
        dim,
        start,
        Orientation::Down,
        len,
    ) + (line_option(dim, start, Orientation::Left, len) + line_option(
        dim,
        start,
        Orientation::Right,
        len,
    )))
}

/// The search for the next cell looks at an optional candidate first and at
/// the others after it.
proof fn lemma_next_cell_front(
    dim: &RectDimensions,
    route: Seq<Coordinate>,
    first: Option<Coordinate>,
    rest: Seq<Coordinate>,
)
    ensures
        spec_next_cell(dim, route, optional_seq(first) + rest) == match first {
            Some(c) => if dim.spec_is_colinear(route[0], route[1], c) && !route.contains(c) {
                Some(c)
            } else {
                spec_next_cell(dim, route, rest)
            },
            None => spec_next_cell(dim, route, rest),
        },
{
    match first {
        Some(c) => {
            assert((optional_seq(first) + rest).skip(1) =~= rest);
        },
        None => {
            assert(optional_seq(first) + rest =~= rest);
        },
    }
}

/// The search for the next cell among the neighbors of a cell looks up, down,
/// left and right, in that order.
proof fn lemma_next_cell_of_neighbors(dim: &RectDimensions, route: Seq<Coordinate>, last: Coordinate)
    requires
        dim.in_bounds(last),
    ensures
        spec_next_cell(dim, route, dim.spec_neighbors(last)) == pick(
            dim,
            route,
            dim.spec_up(last),
            pick(
                dim,
                route,
                dim.spec_down(last),
                pick(dim, route, dim.spec_left(last), pick(dim, route, dim.spec_right(last), None)),
            ),
        ),
{
    let up = dim.spec_up(last);
    let down = dim.spec_down(last);
    let left = dim.spec_left(last);
    let right = dim.spec_right(last);
    lemma_next_cell_front(
        dim,
        route,
        up,
        optional_seq(down) + (optional_seq(left) + optional_seq(right)),
    );
    lemma_next_cell_front(dim, route, down, optional_seq(left) + optional_seq(right));
    lemma_next_cell_front(dim, route, left, optional_seq(right));
    lemma_next_cell_front(dim, route, right, Seq::empty());
    assert(optional_seq(right) + Seq::empty() =~= optional_seq(right));
}

/// The candidate if it is there, continues the line of the route and is new
/// to it; otherwise what was found elsewhere.
pub open spec fn pick(
    dim: &RectDimensions,
    route: Seq<Coordinate>,
    candidate: Option<Coordinate>,
    otherwise: Option<Coordinate>,
) -> Option<Coordinate> {
    match candidate {
        Some(c) => if dim.spec_is_colinear(route[0], route[1], c) && !route.contains(c) {
            Some(c)
        } else {
            otherwise
        },
        None => otherwise,
    }
}

/// On a board that does not wrap, a straight line of at least two cells is
/// continued by the next cell in its direction, if that cell is on the board,
/// and by nothing else.
proof fn lemma_next_cell_of_line(
    dim: &RectDimensions,
    start: Coordinate,
    dir: Orientation,
    len: nat,
)
    requires
        plain(dim),
        len >= 2,
        fits(dim, start, dir, len),
    ensures
        spec_next_cell(
            dim,
            line_cells(start, dir, len),
            dim.spec_neighbors(line_cells(start, dir, len).last()),
        ) == if fits(dim, start, dir, len + 1) {
            Some(cell_at(start, dir, len as int))
        } else {
            None
        },
{
    dim.lemma_sides_fit();
    let route = line_cells(start, dir, len);
    let last = route.last();
    assert(last == cell_at(start, dir, len - 1));
    assert(route[0] == cell_at(start, dir, 0));
    assert(route[1] == cell_at(start, dir, 1));
    assert(route[len - 2] == cell_at(start, dir, len - 2));
    lemma_next_cell_of_neighbors(dim, route, last);
    let ahead = cell_at(start, dir, len as int);
    if fits(dim, start, dir, len + 1) {
        assert(!route.contains(ahead)) by {
            assert forall|i: int| 0 <= i < route.len() implies route[i] != ahead by {
                assert(route[i] == cell_at(start, dir, i));
            }
        }
    }
    assert(route.contains(cell_at(start, dir, len - 2)));
}

/// On a board that does not wrap, growing a straight line gives the straight
/// line of the length asked for, if that line lies on the board, and nothing
/// otherwise.
proof fn lemma_extend_line(
    dim: &RectDimensions,
    start: Coordinate,
    dir: Orientation,
    from: nat,
    len: nat,
)
    requires
        plain(dim),
        2 <= from <= len,
        fits(dim, start, dir, from),
    ensures
        spec_extend_route(dim, len, line_cells(start, dir, from)) == if fits(
            dim,
            start,
            dir,
            len,
        ) {
            Some(line_cells(start, dir, len))
        } else {
            None
        },
    decreases len - from,
{
    let route = line_cells(start, dir, from);
    if from < len {
        lemma_next_cell_of_line(dim, start, dir, from);
        if fits(dim, start, dir, from + 1) {
            assert(route.push(cell_at(start, dir, from as int)) =~= line_cells(
                start,
                dir,
                from + 1,
            ));
            lemma_extend_line(dim, start, dir, from + 1, len);
        }
    }
}

/// On a board that does not wrap, the route from a cell towards its neighbor
/// in some direction is the straight line in that direction, if that line
/// lies on the board, and nothing otherwise.
pub proof fn lemma_route_is_line(
    dim: &RectDimensions,
    start: Coordinate,
    dir: Orientation,
    len: nat,
)
    requires
        plain(dim),
        len >= 2,
        dim.in_bounds(start),
    ensures
        toward(dim, start, dir) is Some <==> fits(dim, start, dir, 2),
        toward(dim, start, dir) matches Some(next) ==> spec_route(dim, len, start, next)
            == if fits(dim, start, dir, len) {
            Some(line_cells(start, dir, len))
        } else {
            None
        },
        toward(dim, start, dir) is None ==> !fits(dim, start, dir, len),
{
    if let Some(next) = toward(dim, start, dir) {
        dim.lemma_sides_fit();
        assert(next != start);
        assert(seq![start, next] =~= line_cells(start, dir, 2));
        lemma_extend_line(dim, start, dir, 2, len);
    }
}

/// The routes towards an optional direction first and towards the others
/// after it.
proof fn lemma_routes_front(
    dim: &RectDimensions,
    len: nat,
    start: Coordinate,
    first: Option<Coordinate>,
    rest: Seq<Coordinate>,
)
    ensures
        spec_routes(dim, len, start, optional_seq(first) + rest) == match first {
            Some(c) => match spec_route(dim, len, start, c) {
                Some(route) => seq![route] + spec_routes(dim, len, start, rest),
                None => spec_routes(dim, len, start, rest),
            },
            None => spec_routes(dim, len, start, rest),
        },
{
    match first {
        Some(c) => {
            assert((optional_seq(first) + rest).skip(1) =~= rest);
        },
        None => {
            assert(optional_seq(first) + rest =~= rest);
        },
    }
}

/// On a board that does not wrap, the placements of a line of at least two
/// cells from a cell on the board are the straight lines up, down, left and
/// right, as far as they lie on the board.
pub proof fn lemma_routes_are_lines(dim: &RectDimensions, start: Coordinate, len: nat)
    requires
        plain(dim),
        len >= 2,
        dim.in_bounds(start),
    ensures
        spec_routes(dim, len, start, dim.spec_neighbors(start)) == line_options(dim, start, len),
{
    let up = dim.spec_up(start);
    let down = dim.spec_down(start);
    let left = dim.spec_left(start);
    let right = dim.spec_right(start);
    lemma_route_is_line(dim, start, Orientation::Up, len);
    lemma_route_is_line(dim, start, Orientation::Down, len);
    lemma_route_is_line(dim, start, Orientation::Left, len);
    lemma_route_is_line(dim, start, Orientation::Right, len);
    lemma_routes_front(
        dim,
        len,
        start,
        up,
        optional_seq(down) + (optional_seq(left) + optional_seq(right)),
    );
    lemma_routes_front(dim, len, start, down, optional_seq(left) + optional_seq(right));
    lemma_routes_front(dim, len, start, left, optional_seq(right));
    lemma_routes_front(dim, len, start, right, Seq::empty());
    assert(optional_seq(right) + Seq::empty() =~= optional_seq(right));
    let tail = Seq::<Seq<Coordinate>>::empty();
    assert(spec_routes(dim, len, start, Seq::empty()) == tail);
    assert(line_option(dim, start, Orientation::Right, len) + tail =~= line_option(
        dim,
        start,
        Orientation::Right,
        len,
    ));
    assert(tail + tail =~= tail);
    let r = line_option(dim, start, Orientation::Right, len);
    let l = line_option(dim, start, Orientation::Left, len);
    let d = line_option(dim, start, Orientation::Down, len);
    let u = line_option(dim, start, Orientation::Up, len);
    assert(spec_routes(dim, len, start, optional_seq(right)) =~= r);
    assert(spec_routes(dim, len, start, optional_seq(left) + optional_seq(right)) =~= l + r);
    assert(spec_routes(
        dim,
        len,
        start,
        optional_seq(down) + (optional_seq(left) + optional_seq(right)),
    ) =~= d + (l + r));
    assert(spec_routes(dim, len, start, dim.spec_neighbors(start)) =~= u + (d + (l + r)));
}

} // verus!
