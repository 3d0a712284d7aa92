use castle_game::debris::{debris_particle, scatter, MAX_DRIFT};
use castle_game::physics::{Position, Velocity};

#[test]
fn debris_starts_in_the_middle_of_its_cell() {
    let (p, v) = debris_particle((3, 7), -250);
    assert_eq!(p, Position::new(3_500, 7_500));
    assert_eq!(v, Velocity::new(-250, 0));
    let (p, v) = debris_particle((0, 0), 0);
    assert_eq!(p, Position::new(500, 500));
    assert_eq!(v, Velocity::new(0, 0));
}

#[test]
fn debris_of_a_cell_beyond_the_range_saturates() {
    let (p, _) = debris_particle((usize::MAX, 1), 1);
    assert_eq!(p, Position::new(i64::MAX, 1_500));
}

#[test]
fn scattered_debris_keeps_the_cells_and_drifts_within_bounds() {
    let cells: Vec<(usize, usize)> = (0..200).map(|i| (i, 2 * i)).collect();
    let bodies = scatter(&cells);
    assert_eq!(bodies.len(), cells.len());
    for (cell, body) in cells.iter().zip(bodies.iter()) {
        assert_eq!(body.0, Position::new(cell.0 as i64 * 1_000 + 500, cell.1 as i64 * 1_000 + 500));
        assert_eq!(body.1.y, 0);
        assert!(-MAX_DRIFT <= body.1.x && body.1.x <= MAX_DRIFT);
    }
}

#[test]
fn scattered_debris_does_not_all_drift_alike() {
    let cells: Vec<(usize, usize)> = (0..200).map(|i| (i, 0)).collect();
    let bodies = scatter(&cells);
    let first = bodies[0].1.x;
    assert!(bodies.iter().any(|b| b.1.x != first));
    assert!(bodies.iter().any(|b| b.1.x != -MAX_DRIFT));
    assert!(bodies.iter().any(|b| b.1.x != MAX_DRIFT));
}

#[test]
fn nothing_scatters_into_nothing() {
    assert!(scatter(&Vec::new()).is_empty());
}
