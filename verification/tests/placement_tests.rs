use battleships::board::{MAX_BOARD_SIZE, MIN_BOARD_SIZE};
use battleships::fleet::{FLEET_CELLS, FLEET_LEN};
use battleships::{
    check_placement, create_board, display_board, fleet, place_all_ships, place_missile_token,
    place_ship, Board, Cell, GameError, Orientation, Placement, ShipKind,
};

fn at(col: usize, row: usize, orientation: Orientation) -> Placement {
    Placement { col, row, orientation }
}

fn rows_of_ships() -> Vec<Placement> {
    vec![
        at(0, 0, Orientation::Horizontal),
        at(0, 1, Orientation::Horizontal),
        at(0, 2, Orientation::Horizontal),
        at(0, 3, Orientation::Horizontal),
        at(0, 4, Orientation::Horizontal),
    ]
}

fn same(a: &Board, b: &Board) -> bool {
    display_board(a) == display_board(b)
}

#[test]
fn board_sizes_span_nine_to_twenty() {
    assert_eq!(MIN_BOARD_SIZE, 9);
    assert_eq!(MAX_BOARD_SIZE, 20);
    assert_eq!(create_board(9).size(), 9);
    assert_eq!(create_board(20).size(), 20);
}

#[test]
fn new_board_is_all_empty() {
    let board = create_board(12);
    for row in 0..12 {
        for col in 0..12 {
            assert_eq!(board.cell(col, row), Some(Cell::Empty));
        }
    }
    assert_eq!(board.cell(12, 0), None);
    assert_eq!(board.cell(0, 12), None);
    assert_eq!(board.ship_cells(), 0);
    assert!(board.fleet_sunk());
}

#[test]
fn fleet_catalog_has_five_ships_of_seventeen_cells() {
    let ships = fleet();
    assert_eq!(
        ships,
        vec![
            ShipKind::Carrier,
            ShipKind::Battleship,
            ShipKind::Cruiser,
            ShipKind::Submarine,
            ShipKind::Destroyer
        ]
    );
    assert_eq!(ships.len(), FLEET_LEN);
    let sizes: Vec<usize> = ships.iter().map(|kind| kind.size()).collect();
    assert_eq!(sizes, vec![5, 4, 3, 3, 2]);
    assert_eq!(sizes.iter().sum::<usize>(), FLEET_CELLS);
    assert_eq!(FLEET_CELLS, 17);
    let symbols: Vec<char> = ships.iter().map(|kind| kind.symbol()).collect();
    assert_eq!(symbols, vec!['A', 'B', 'C', 'S', 'D']);
}

#[test]
fn destroyer_at_origin_then_submarine_overlaps() {
    let mut board = create_board(9);
    let origin = at(0, 0, Orientation::Horizontal);
    assert_eq!(place_ship(&mut board, ShipKind::Destroyer, origin), Ok(()));
    assert_eq!(board.cell(0, 0), Some(Cell::ShipSegment(ShipKind::Destroyer)));
    assert_eq!(board.cell(1, 0), Some(Cell::ShipSegment(ShipKind::Destroyer)));
    assert_eq!(board.cell(2, 0), Some(Cell::Empty));
    assert_eq!(board.cell(0, 1), Some(Cell::Empty));
    assert_eq!(board.ship_cells(), 2);
    let before = board.clone();
    assert_eq!(
        place_ship(&mut board, ShipKind::Submarine, origin),
        Err(GameError::Overlap)
    );
    assert!(same(&board, &before));
    assert_eq!(board.ship_cells(), 2);
}

#[test]
fn vertical_ship_runs_down_the_rows() {
    let mut board = create_board(9);
    assert_eq!(
        place_ship(&mut board, ShipKind::Cruiser, at(4, 2, Orientation::Vertical)),
        Ok(())
    );
    for row in 0..9 {
        for col in 0..9 {
            let expected = if col == 4 && (2..5).contains(&row) {
                Cell::ShipSegment(ShipKind::Cruiser)
            } else {
                Cell::Empty
            };
            assert_eq!(board.cell(col, row), Some(expected));
        }
    }
}

#[test]
fn placement_past_the_edge_is_out_of_bounds() {
    let mut board = create_board(9);
    let before = board.clone();
    let refused = [
        (ShipKind::Carrier, at(5, 0, Orientation::Horizontal)),
        (ShipKind::Carrier, at(0, 5, Orientation::Vertical)),
        (ShipKind::Destroyer, at(8, 8, Orientation::Horizontal)),
        (ShipKind::Destroyer, at(8, 8, Orientation::Vertical)),
        (ShipKind::Destroyer, at(9, 0, Orientation::Vertical)),
        (ShipKind::Destroyer, at(0, 9, Orientation::Horizontal)),
        (ShipKind::Destroyer, at(usize::MAX, 0, Orientation::Horizontal)),
        (ShipKind::Destroyer, at(0, usize::MAX, Orientation::Vertical)),
    ];
    for (kind, p) in refused {
        assert_eq!(check_placement(&board, kind, p), Err(GameError::OutOfBounds));
        assert_eq!(place_ship(&mut board, kind, p), Err(GameError::OutOfBounds));
        assert!(same(&board, &before));
    }
    assert_eq!(
        place_ship(&mut board, ShipKind::Carrier, at(4, 0, Orientation::Horizontal)),
        Ok(())
    );
    assert_eq!(
        place_ship(&mut board, ShipKind::Destroyer, at(7, 8, Orientation::Horizontal)),
        Ok(())
    );
}

#[test]
fn out_of_bounds_is_reported_before_overlap() {
    let mut board = create_board(9);
    assert_eq!(
        place_ship(&mut board, ShipKind::Destroyer, at(7, 0, Orientation::Horizontal)),
        Ok(())
    );
    assert_eq!(
        place_ship(&mut board, ShipKind::Cruiser, at(7, 0, Orientation::Horizontal)),
        Err(GameError::OutOfBounds)
    );
}

#[test]
fn placement_on_the_token_overlaps() {
    let mut board = create_board(9);
    let (col, row) = place_missile_token(&mut board, 7).unwrap();
    let before = board.clone();
    let origin_col = if col + 2 <= 9 { col } else { col - 1 };
    let p = at(origin_col, row, Orientation::Horizontal);
    assert_eq!(check_placement(&board, ShipKind::Destroyer, p), Err(GameError::Overlap));
    assert_eq!(place_ship(&mut board, ShipKind::Destroyer, p), Err(GameError::Overlap));
    assert!(same(&board, &before));
    assert_eq!(board.cell(col, row), Some(Cell::MissileToken));
    assert_eq!(board.ship_cells(), 0);
}

#[test]
fn crossing_ship_overlaps_and_changes_nothing() {
    let mut board = create_board(10);
    assert_eq!(
        place_ship(&mut board, ShipKind::Battleship, at(2, 3, Orientation::Horizontal)),
        Ok(())
    );
    let before = board.clone();
    assert_eq!(
        place_ship(&mut board, ShipKind::Carrier, at(4, 0, Orientation::Vertical)),
        Err(GameError::Overlap)
    );
    assert!(same(&board, &before));
    assert_eq!(board.cell(4, 0), Some(Cell::Empty));
    assert_eq!(board.cell(4, 3), Some(Cell::ShipSegment(ShipKind::Battleship)));
}

#[test]
fn check_placement_only_reads() {
    let board = create_board(9);
    let before = board.clone();
    assert_eq!(
        check_placement(&board, ShipKind::Carrier, at(0, 0, Orientation::Vertical)),
        Ok(())
    );
    assert!(same(&board, &before));
}

#[test]
fn full_setup_has_seventeen_ship_cells() {
    for size in [9usize, 14, 20] {
        let mut board = create_board(size);
        place_missile_token(&mut board, 1).unwrap();
        let token_free_rows: Vec<Placement> = (0..size)
            .filter(|&row| (0..5).all(|col| board.cell(col, row) == Some(Cell::Empty)))
            .take(5)
            .map(|row| at(0, row, Orientation::Horizontal))
            .collect();
        let runs = place_all_ships(&mut board, &token_free_rows);
        assert_eq!(runs, token_free_rows);
        assert_eq!(board.ship_cells(), 17);
        for (i, kind) in fleet().into_iter().enumerate() {
            let mut count = 0;
            for row in 0..size {
                for col in 0..size {
                    if board.cell(col, row) == Some(Cell::ShipSegment(kind)) {
                        count += 1;
                        assert_eq!(row, runs[i].row);
                        assert!(col < kind.size());
                    }
                }
            }
            assert_eq!(count, kind.size());
        }
    }
}

#[test]
fn refused_attempts_keep_the_same_ship_due() {
    let mut board = create_board(9);
    let attempts = vec![
        at(6, 0, Orientation::Horizontal),
        at(0, 0, Orientation::Horizontal),
        at(0, 0, Orientation::Vertical),
        at(5, 0, Orientation::Vertical),
        at(8, 8, Orientation::Vertical),
        at(6, 0, Orientation::Vertical),
        at(7, 0, Orientation::Vertical),
        at(8, 0, Orientation::Vertical),
        at(0, 8, Orientation::Horizontal),
    ];
    let runs = place_all_ships(&mut board, &attempts);
    assert_eq!(
        runs,
        vec![
            at(0, 0, Orientation::Horizontal),
            at(5, 0, Orientation::Vertical),
            at(6, 0, Orientation::Vertical),
            at(7, 0, Orientation::Vertical),
            at(8, 0, Orientation::Vertical),
        ]
    );
    assert_eq!(board.ship_cells(), 17);
    assert_eq!(board.cell(0, 8), Some(Cell::Empty));
    assert_eq!(board.cell(4, 0), Some(Cell::ShipSegment(ShipKind::Carrier)));
    assert_eq!(board.cell(5, 3), Some(Cell::ShipSegment(ShipKind::Battleship)));
    assert_eq!(board.cell(6, 2), Some(Cell::ShipSegment(ShipKind::Cruiser)));
    assert_eq!(board.cell(7, 2), Some(Cell::ShipSegment(ShipKind::Submarine)));
    assert_eq!(board.cell(8, 1), Some(Cell::ShipSegment(ShipKind::Destroyer)));
    assert_eq!(board.cell(8, 2), Some(Cell::Empty));
}

#[test]
fn too_few_attempts_leave_the_fleet_incomplete() {
    let mut board = create_board(9);
    let attempts = vec![
        at(0, 0, Orientation::Horizontal),
        at(0, 0, Orientation::Horizontal),
        at(0, 1, Orientation::Horizontal),
    ];
    let runs = place_all_ships(&mut board, &attempts);
    assert_eq!(runs.len(), 2);
    assert_eq!(board.ship_cells(), 9);
    let mut untouched = create_board(9);
    assert!(place_all_ships(&mut untouched, &Vec::new()).is_empty());
    assert_eq!(untouched.ship_cells(), 0);
}

#[test]
fn ships_of_a_full_setup_do_not_share_cells() {
    let mut board = create_board(9);
    let runs = place_all_ships(&mut board, &rows_of_ships());
    assert_eq!(runs.len(), 5);
    let mut seen = std::collections::HashSet::new();
    for (kind, p) in fleet().into_iter().zip(runs) {
        for k in 0..kind.size() {
            assert!(seen.insert((p.col + k, p.row)));
            assert_eq!(board.cell(p.col + k, p.row), Some(Cell::ShipSegment(kind)));
        }
    }
    assert_eq!(seen.len(), 17);
}
