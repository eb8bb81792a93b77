use stttwmdtt::geom::{Point, Rect};
use stttwmdtt::hit::hit_test;
use stttwmdtt::region::{BoardRef, CellRef, GridConfig, Region, RegionRegistry};

fn registry(regions: Vec<Region>, config: GridConfig) -> RegionRegistry {
    RegionRegistry::new(regions, config).expect("registry must validate")
}

/// One board with one cell in its middle, leaving a padding band where
/// only the board matches.
fn one_board_one_cell() -> RegionRegistry {
    let board = BoardRef { board_id: 0 };
    let cell = CellRef { x: 0, y: 0, board_id: 0 };
    registry(
        vec![
            Region::Cell(cell, Rect { min_x: -10, min_y: -10, max_x: 10, max_y: 10 }),
            Region::Board(board, Rect { min_x: -50, min_y: -50, max_x: 50, max_y: 50 }),
        ],
        GridConfig { games_per_row: 1, game_rows: 1, n: 1 },
    )
}

#[test]
fn cell_match_implies_owning_board() {
    let reg = one_board_one_cell();
    let (cell, board) = hit_test(&reg, &Point { x: 0, y: 0 });
    assert_eq!(cell, Some(CellRef { x: 0, y: 0, board_id: 0 }));
    assert_eq!(board, Some(BoardRef { board_id: 0 }));
}

#[test]
fn padding_band_reports_board_only() {
    let reg = one_board_one_cell();
    let (cell, board) = hit_test(&reg, &Point { x: 30, y: 30 });
    assert_eq!(cell, None);
    assert_eq!(board, Some(BoardRef { board_id: 0 }));
}

#[test]
fn outside_everything_reports_nothing() {
    let reg = one_board_one_cell();
    let (cell, board) = hit_test(&reg, &Point { x: 200, y: 0 });
    assert_eq!(cell, None);
    assert_eq!(board, None);
}

#[test]
fn bounds_are_inclusive_on_all_edges() {
    let reg = one_board_one_cell();
    for p in [
        Point { x: -10, y: 0 },
        Point { x: 10, y: 0 },
        Point { x: 0, y: -10 },
        Point { x: 0, y: 10 },
        Point { x: 10, y: 10 },
    ] {
        let (cell, _) = hit_test(&reg, &p);
        assert_eq!(cell, Some(CellRef { x: 0, y: 0, board_id: 0 }), "at {:?}", p);
    }
    let (cell, board) = hit_test(&reg, &Point { x: 11, y: 0 });
    assert_eq!(cell, None);
    assert_eq!(board, Some(BoardRef { board_id: 0 }));
}

#[test]
fn first_matching_cell_wins() {
    // Two overlapping cells: the defensive tie-break picks the first in
    // registry order.
    let board = BoardRef { board_id: 0 };
    let first = CellRef { x: 0, y: 0, board_id: 0 };
    let second = CellRef { x: 1, y: 0, board_id: 0 };
    let reg = registry(
        vec![
            Region::Cell(first, Rect { min_x: -10, min_y: -10, max_x: 10, max_y: 10 }),
            Region::Cell(second, Rect { min_x: -10, min_y: -10, max_x: 10, max_y: 10 }),
            Region::Board(board, Rect { min_x: -50, min_y: -50, max_x: 50, max_y: 50 }),
        ],
        GridConfig { games_per_row: 1, game_rows: 1, n: 2 },
    );
    let (cell, _) = hit_test(&reg, &Point { x: 0, y: 0 });
    assert_eq!(cell, Some(first));
}

#[test]
fn cell_beats_board_whatever_the_order() {
    let board = BoardRef { board_id: 0 };
    let cell = CellRef { x: 0, y: 0, board_id: 0 };
    let reg = registry(
        vec![
            Region::Board(board, Rect { min_x: -50, min_y: -50, max_x: 50, max_y: 50 }),
            Region::Cell(cell, Rect { min_x: -10, min_y: -10, max_x: 10, max_y: 10 }),
        ],
        GridConfig { games_per_row: 1, game_rows: 1, n: 1 },
    );
    let (hit_cell, hit_board) = hit_test(&reg, &Point { x: 0, y: 0 });
    assert_eq!(hit_cell, Some(cell));
    assert_eq!(hit_board, Some(board));
}

#[test]
fn last_matching_board_wins_without_cell() {
    // Two overlapping board regions and no cell match: the scan keeps
    // overwriting the candidate, so the later region wins.
    let b0 = BoardRef { board_id: 0 };
    let b1 = BoardRef { board_id: 1 };
    let reg = registry(
        vec![
            Region::Board(b0, Rect { min_x: -50, min_y: -50, max_x: 50, max_y: 50 }),
            Region::Board(b1, Rect { min_x: -50, min_y: -50, max_x: 50, max_y: 50 }),
        ],
        GridConfig { games_per_row: 2, game_rows: 1, n: 1 },
    );
    let (cell, board) = hit_test(&reg, &Point { x: 0, y: 0 });
    assert_eq!(cell, None);
    assert_eq!(board, Some(b1));
}
