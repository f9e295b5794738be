use pacman::grid::{is_grid_aligned, round_to_cell, snap_coord, trunc_cell};

#[test]
fn cell_rounding_halves_away_from_zero() {
    assert_eq!(round_to_cell(0), 0);
    assert_eq!(round_to_cell(15), 0);
    assert_eq!(round_to_cell(16), 1);
    assert_eq!(round_to_cell(48), 2);
    assert_eq!(round_to_cell(64), 2);
    assert_eq!(round_to_cell(79), 2);
    assert_eq!(round_to_cell(80), 3);
    assert_eq!(round_to_cell(-15), 0);
    assert_eq!(round_to_cell(-16), -1);
    assert_eq!(round_to_cell(-48), -2);
}

#[test]
fn snapping_picks_nearest_multiple() {
    assert_eq!(snap_coord(68), 64);
    assert_eq!(snap_coord(79), 64);
    assert_eq!(snap_coord(80), 96);
    assert_eq!(snap_coord(-20), -32);
}

#[test]
fn pickup_cells_truncate() {
    assert_eq!(trunc_cell(64), 2);
    assert_eq!(trunc_cell(95), 2);
    assert_eq!(trunc_cell(-48), -1);
    assert_eq!(trunc_cell(-64), -2);
}

#[test]
fn alignment_tolerance_is_one_unit() {
    assert!(is_grid_aligned(64));
    assert!(is_grid_aligned(65));
    assert!(!is_grid_aligned(66));
    assert!(is_grid_aligned(-5));
}
