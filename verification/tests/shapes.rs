use spacebattleship::board::rectangular::{Coordinate, RectDimensions, WrappingFlags};
use spacebattleship::ships::linear::try_build_route;
use spacebattleship::ships::{
    Line, LineProjectIterState, ProjectIter, ProjectIterState, ProjectShape, ShipShape,
};

fn line_of(cells: &[(usize, usize)]) -> Vec<Coordinate> {
    cells.iter().map(|&(x, y)| Coordinate::new(x, y)).collect()
}

fn placements(len: usize, dim: &RectDimensions, x: usize, y: usize) -> Vec<Vec<Coordinate>> {
    let line = Line::new(len);
    let found = line.project(Coordinate::new(x, y), dim).collect();
    found
}

#[test]
fn line_keeps_its_length() {
    assert_eq!(Line::new(3).len(), 3);
    assert_eq!(Line::new(1).len(), 1);
}

#[test]
fn line_projects_towards_each_neighbor() {
    let dim = RectDimensions::new(10, 10);
    assert_eq!(
        placements(3, &dim, 5, 5),
        vec![
            line_of(&[(5, 5), (5, 4), (5, 3)]),
            line_of(&[(5, 5), (5, 6), (5, 7)]),
            line_of(&[(5, 5), (4, 5), (3, 5)]),
            line_of(&[(5, 5), (6, 5), (7, 5)]),
        ]
    );
}

#[test]
fn line_projects_only_where_it_fits() {
    let dim = RectDimensions::new(10, 10);
    assert_eq!(
        placements(5, &dim, 0, 0),
        vec![
            line_of(&[(0, 0), (0, 1), (0, 2), (0, 3), (0, 4)]),
            line_of(&[(0, 0), (1, 0), (2, 0), (3, 0), (4, 0)]),
        ]
    );
    assert_eq!(
        placements(5, &dim, 7, 0),
        vec![
            line_of(&[(7, 0), (7, 1), (7, 2), (7, 3), (7, 4)]),
            line_of(&[(7, 0), (6, 0), (5, 0), (4, 0), (3, 0)]),
        ]
    );
    let small = RectDimensions::new(2, 2);
    assert_eq!(placements(3, &small, 0, 0), Vec::<Vec<Coordinate>>::new());
}

#[test]
fn line_of_one_cell_is_the_anchor_alone() {
    let dim = RectDimensions::new(10, 10);
    assert_eq!(placements(1, &dim, 3, 3), vec![line_of(&[(3, 3)])]);
}

#[test]
fn no_placements_from_an_anchor_off_the_board() {
    let dim = RectDimensions::new(10, 10);
    assert_eq!(placements(1, &dim, 10, 3), Vec::<Vec<Coordinate>>::new());
    assert_eq!(placements(2, &dim, 10, 10), Vec::<Vec<Coordinate>>::new());
    assert_eq!(placements(5, &dim, 0, 10), Vec::<Vec<Coordinate>>::new());
}

#[test]
fn line_wraps_where_the_board_does() {
    let dim =
        RectDimensions::new_wrapping(4, 4, WrappingFlags { horizontal: true, vertical: true });
    assert_eq!(
        placements(3, &dim, 3, 0),
        vec![
            line_of(&[(3, 0), (3, 3), (3, 2)]),
            line_of(&[(3, 0), (3, 1), (3, 2)]),
            line_of(&[(3, 0), (2, 0), (1, 0)]),
            line_of(&[(3, 0), (0, 0), (1, 0)]),
        ]
    );
    assert_eq!(placements(5, &dim, 0, 0), Vec::<Vec<Coordinate>>::new());
}

#[test]
fn placements_come_one_at_a_time() {
    let dim = RectDimensions::new(10, 10);
    let line = Line::new(2);
    let mut walk = line.project(Coordinate::new(0, 9), &dim);
    assert_eq!(walk.next(), Some(line_of(&[(0, 9), (0, 8)])));
    assert_eq!(walk.next(), Some(line_of(&[(0, 9), (1, 9)])));
    assert_eq!(walk.next(), None);
    assert_eq!(walk.next(), None);
    let mut state: LineProjectIterState<Coordinate> =
        ProjectIterState::start(&line, &dim, Coordinate::new(9, 0));
    assert_eq!(state.next(&line, &dim), Some(line_of(&[(9, 0), (9, 1)])));
    assert_eq!(state.next(&line, &dim), Some(line_of(&[(9, 0), (8, 0)])));
    assert_eq!(state.next(&line, &dim), None);
    let mut fresh: ProjectIter<'_, RectDimensions, Line, LineProjectIterState<Coordinate>> =
        ProjectIter::new(&line, &dim, Coordinate::new(9, 9));
    assert_eq!(fresh.next(), Some(line_of(&[(9, 9), (9, 8)])));
}

#[test]
fn try_build_route_follows_the_direction() {
    let dim = RectDimensions::new(10, 10);
    assert_eq!(
        try_build_route(&dim, 3, Coordinate::new(0, 0), Coordinate::new(1, 0)),
        Some(line_of(&[(0, 0), (1, 0), (2, 0)]))
    );
    assert_eq!(
        try_build_route(&dim, 4, Coordinate::new(5, 5), Coordinate::new(5, 4)),
        Some(line_of(&[(5, 5), (5, 4), (5, 3), (5, 2)]))
    );
    assert_eq!(
        try_build_route(&dim, 2, Coordinate::new(8, 0), Coordinate::new(9, 0)),
        Some(line_of(&[(8, 0), (9, 0)]))
    );
}

#[test]
fn try_build_route_stops_at_the_edge() {
    let dim = RectDimensions::new(10, 10);
    assert_eq!(try_build_route(&dim, 3, Coordinate::new(8, 0), Coordinate::new(9, 0)), None);
    assert_eq!(try_build_route(&dim, 5, Coordinate::new(0, 3), Coordinate::new(0, 2)), None);
}

#[test]
fn valid_placement_is_a_chain_of_the_right_length() {
    let dim = RectDimensions::new(10, 10);
    let line = Line::new(3);
    assert!(line.is_valid_placement(&line_of(&[(0, 0), (1, 0), (2, 0)]), &dim));
    assert!(line.is_valid_placement(&line_of(&[(2, 0), (1, 0), (0, 0)]), &dim));
    assert!(line.is_valid_placement(&line_of(&[(4, 4), (4, 5), (4, 6)]), &dim));
    assert!(Line::new(1).is_valid_placement(&line_of(&[(4, 4)]), &dim));
}

#[test]
fn placement_of_the_wrong_length_is_invalid() {
    let dim = RectDimensions::new(10, 10);
    let line = Line::new(3);
    assert!(!line.is_valid_placement(&line_of(&[(0, 0), (1, 0)]), &dim));
    assert!(!line.is_valid_placement(&line_of(&[(0, 0), (1, 0), (2, 0), (3, 0)]), &dim));
    assert!(!line.is_valid_placement(&line_of(&[]), &dim));
}

#[test]
fn placement_with_a_gap_is_invalid() {
    let dim = RectDimensions::new(10, 10);
    let line = Line::new(3);
    assert!(!line.is_valid_placement(&line_of(&[(0, 0), (1, 0), (3, 0)]), &dim));
    assert!(!line.is_valid_placement(&line_of(&[(0, 0), (2, 0), (3, 0)]), &dim));
}

#[test]
fn placement_with_a_bend_is_invalid() {
    let dim = RectDimensions::new(10, 10);
    let line = Line::new(3);
    assert!(!line.is_valid_placement(&line_of(&[(0, 0), (1, 0), (1, 1)]), &dim));
    assert!(!line.is_valid_placement(&line_of(&[(0, 0), (0, 1), (1, 1)]), &dim));
}

#[test]
fn placement_off_the_board_is_invalid_for_longer_lines() {
    let dim = RectDimensions::new(10, 10);
    let line = Line::new(3);
    assert!(!line.is_valid_placement(&line_of(&[(8, 0), (9, 0), (10, 0)]), &dim));
}

#[test]
fn every_projection_starts_at_the_anchor_and_is_valid() {
    let dim = RectDimensions::new(10, 10);
    for len in 1..6 {
        let line = Line::new(len);
        for y in 0..11 {
            for x in 0..11 {
                let anchor = Coordinate::new(x, y);
                let found = line.project(anchor, &dim).collect();
                for placement in found.iter() {
                    assert_eq!(placement[0], anchor);
                    assert_eq!(placement.len(), len);
                    assert!(line.is_valid_placement(placement, &dim));
                }
            }
        }
    }
    let torus =
        RectDimensions::new_wrapping(5, 3, WrappingFlags { horizontal: true, vertical: true });
    let line = Line::new(3);
    for y in 0..3 {
        for x in 0..5 {
            let anchor = Coordinate::new(x, y);
            let found = line.project(anchor, &torus).collect();
            assert_eq!(found.len(), 4);
            for placement in found.iter() {
                assert_eq!(placement[0], anchor);
                assert!(line.is_valid_placement(placement, &torus));
            }
        }
    }
}

#[test]
fn no_route_leads_from_a_cell_towards_itself() {
    let narrow =
        RectDimensions::new_wrapping(1, 3, WrappingFlags { horizontal: true, vertical: false });
    assert_eq!(placements(2, &narrow, 0, 0), vec![line_of(&[(0, 0), (0, 1)])]);
    assert_eq!(
        placements(2, &narrow, 0, 1),
        vec![line_of(&[(0, 1), (0, 0)]), line_of(&[(0, 1), (0, 2)])]
    );
    assert_eq!(placements(3, &narrow, 0, 2), vec![line_of(&[(0, 2), (0, 1), (0, 0)])]);
    assert_eq!(try_build_route(&narrow, 2, Coordinate::new(0, 0), Coordinate::new(0, 0)), None);
    assert_eq!(try_build_route(&narrow, 5, Coordinate::new(0, 1), Coordinate::new(0, 1)), None);
    let single =
        RectDimensions::new_wrapping(1, 1, WrappingFlags { horizontal: true, vertical: true });
    assert_eq!(placements(2, &single, 0, 0), Vec::<Vec<Coordinate>>::new());
    assert_eq!(placements(1, &single, 0, 0), vec![line_of(&[(0, 0)])]);
}

#[test]
fn every_projection_holds_each_cell_once() {
    let boards = [
        RectDimensions::new(4, 4),
        RectDimensions::new_wrapping(1, 3, WrappingFlags { horizontal: true, vertical: false }),
        RectDimensions::new_wrapping(3, 1, WrappingFlags { horizontal: false, vertical: true }),
        RectDimensions::new_wrapping(2, 2, WrappingFlags { horizontal: true, vertical: true }),
        RectDimensions::new_wrapping(4, 3, WrappingFlags { horizontal: true, vertical: true }),
    ];
    for dim in boards.iter() {
        for len in 1..5 {
            for y in 0..dim.height() {
                for x in 0..dim.width() {
                    for placement in placements(len, dim, x, y) {
                        assert_eq!(placement.len(), len);
                        for (a, first) in placement.iter().enumerate() {
                            for second in placement.iter().skip(a + 1) {
                                assert_ne!(first, second);
                            }
                        }
                        assert!(Line::new(len).is_valid_placement(&placement, dim));
                    }
                }
            }
        }
    }
}
