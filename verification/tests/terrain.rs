use castle_game::terrain::{Terrain, MAX_DIM};

fn filled(width: usize, height: usize, rows: &[&str]) -> Terrain {
    let mut t = Terrain::new(width, height).unwrap();
    for (y, row) in rows.iter().enumerate() {
        for (x, c) in row.chars().enumerate() {
            t.set_solid(x as i64, y as i64, c == '#');
        }
    }
    t
}

fn picture(t: &Terrain) -> Vec<String> {
    (0..t.height())
        .map(|y| {
            (0..t.width())
                .map(|x| if t.is_solid(x as i64, y as i64) { '#' } else { '.' })
                .collect()
        })
        .collect()
}

#[test]
fn a_new_terrain_is_empty() {
    let t = Terrain::new(4, 3).unwrap();
    assert_eq!(t.width(), 4);
    assert_eq!(t.height(), 3);
    assert_eq!(picture(&t), vec!["....", "....", "...."]);
}

#[test]
fn a_terrain_has_a_largest_size() {
    assert!(Terrain::new(MAX_DIM, 1).is_some());
    assert!(Terrain::new(1, MAX_DIM).is_some());
    assert!(Terrain::new(MAX_DIM + 1, 1).is_none());
    assert!(Terrain::new(1, MAX_DIM + 1).is_none());
    assert!(Terrain::new(usize::MAX, usize::MAX).is_none());
    let none = Terrain::new(0, 0).unwrap();
    assert_eq!((none.width(), none.height()), (0, 0));
    assert!(!none.is_solid(0, 0));
}

#[test]
fn cells_outside_are_never_solid() {
    let mut t = Terrain::new(3, 2).unwrap();
    for (x, y) in [(-1, 0), (0, -1), (3, 0), (0, 2), (i64::MAX, 0), (0, i64::MIN)] {
        t.set_solid(x, y, true);
        assert!(!t.is_solid(x, y));
    }
    assert_eq!(picture(&t), vec!["...", "..."]);
}

#[test]
fn a_cell_is_set_and_cleared() {
    let mut t = Terrain::new(3, 2).unwrap();
    t.set_solid(2, 1, true);
    t.set_solid(0, 0, true);
    assert_eq!(picture(&t), vec!["#..", "..#"]);
    t.set_solid(2, 1, false);
    t.set_solid(1, 1, false);
    assert_eq!(picture(&t), vec!["#..", "..."]);
}

#[test]
fn a_carve_empties_the_disc_with_its_rim() {
    let rows = ["#######"; 7];
    let mut t = filled(7, 7, &rows);
    t.carve(3, 3, 2);
    assert_eq!(
        picture(&t),
        vec!["#######", "###.###", "##...##", "#.....#", "##...##", "###.###", "#######"]
    );
}

#[test]
fn a_carve_of_radius_nought_empties_one_cell() {
    let mut t = filled(3, 3, &["###", "###", "###"]);
    t.carve(1, 1, 0);
    assert_eq!(picture(&t), vec!["###", "#.#", "###"]);
}

#[test]
fn a_carve_across_the_edge_is_cut_to_the_terrain() {
    let mut t = filled(5, 4, &["#####", "#####", "#####", "#####"]);
    t.carve(0, 0, 1);
    t.carve(5, 3, 2);
    assert_eq!(picture(&t), vec!["..###", ".####", "####.", "###.."]);
}

#[test]
fn a_carve_far_outside_changes_nothing() {
    let mut t = filled(3, 2, &["###", "###"]);
    t.carve(-10, 0, 9);
    t.carve(i64::MAX, i64::MAX, u32::MAX);
    t.carve(i64::MIN, 0, u32::MAX);
    t.carve(0, 200, 100);
    assert_eq!(picture(&t), vec!["###", "###"]);
}

#[test]
fn a_carve_wider_than_the_terrain_empties_it() {
    let mut t = filled(3, 2, &["###", "###"]);
    t.carve(1, 1, u32::MAX);
    assert_eq!(picture(&t), vec!["...", "..."]);
}

#[test]
fn the_surface_is_the_topmost_solid_cell() {
    let t = filled(4, 4, &["....", ".#..", "..#.", "###."]);
    assert_eq!(t.surface(0), Some(3));
    assert_eq!(t.surface(1), Some(1));
    assert_eq!(t.surface(2), Some(2));
    assert_eq!(t.surface(3), None);
    assert_eq!(t.surface(-1), None);
    assert_eq!(t.surface(4), None);
}

#[test]
fn terrain_joined_to_the_ground_stays() {
    let rows = ["#....", "#.##.", "#..#.", "####."];
    let mut t = filled(5, 4, &rows);
    let debris = t.collapse();
    assert!(debris.is_empty());
    assert_eq!(picture(&t), rows.to_vec());
}

#[test]
fn terrain_cut_off_from_the_ground_collapses() {
    let mut t = filled(6, 5, &["##..#.", "....#.", ".##...", "......", "######"]);
    let debris = t.collapse();
    assert_eq!(debris, vec![(0, 0), (1, 0), (4, 0), (4, 1), (1, 2), (2, 2)]);
    assert_eq!(picture(&t), vec!["......", "......", "......", "......", "######"]);
}

#[test]
fn cells_that_touch_only_at_a_corner_are_not_joined() {
    let mut t = filled(4, 3, &["..#.", ".#..", "#..."]);
    let debris = t.collapse();
    assert_eq!(debris, vec![(2, 0), (1, 1)]);
    assert_eq!(picture(&t), vec!["....", "....", "#..."]);
}

#[test]
fn support_reaches_round_corners() {
    let rows = ["####", "...#", "##.#", "#..#", "#.##"];
    let mut t = filled(4, 5, &rows);
    assert!(t.collapse().is_empty());
    assert_eq!(picture(&t), rows.to_vec());
}

#[test]
fn without_a_solid_ground_row_everything_collapses() {
    let mut t = filled(3, 3, &["###", "###", "..."]);
    let debris = t.collapse();
    assert_eq!(debris, vec![(0, 0), (1, 0), (2, 0), (0, 1), (1, 1), (2, 1)]);
    assert_eq!(picture(&t), vec!["...", "...", "..."]);
}

#[test]
fn an_empty_terrain_has_nothing_to_collapse() {
    let mut t = Terrain::new(0, 0).unwrap();
    assert!(t.collapse().is_empty());
    let mut flat = Terrain::new(5, 0).unwrap();
    assert!(flat.collapse().is_empty());
    let mut thin = Terrain::new(0, 5).unwrap();
    assert!(thin.collapse().is_empty());
}

#[test]
fn a_second_collapse_changes_nothing() {
    let mut t = filled(6, 5, &["##..#.", "....#.", ".##..#", ".#...#", "##.###"]);
    let first = t.collapse();
    assert_eq!(first, vec![(0, 0), (1, 0), (4, 0), (4, 1)]);
    let settled = picture(&t);
    assert_eq!(settled, vec!["......", "......", ".##..#", ".#...#", "##.###"]);
    assert!(t.is_settled());
    let second = t.collapse();
    assert!(second.is_empty());
    assert_eq!(picture(&t), settled);
    assert!(t.is_settled());
}

#[test]
fn a_terrain_with_a_loose_cell_is_not_settled() {
    let mut t = filled(3, 3, &["...", "...", "###"]);
    assert!(t.is_settled());
    t.set_solid(1, 0, true);
    assert!(!t.is_settled());
    t.set_solid(1, 1, true);
    assert!(t.is_settled());
    t.set_solid(1, 2, false);
    assert!(!t.is_settled());
    assert!(Terrain::new(0, 0).unwrap().is_settled());
    assert!(Terrain::new(3, 3).unwrap().is_settled());
}

#[test]
fn a_carve_that_cuts_a_pillar_brings_down_what_it_carried() {
    let mut t = filled(
        7,
        8,
        &["#######", "#######", "...#...", "...#...", "...#...", "...#...", "#######", "#######"],
    );
    assert!(t.collapse().is_empty());
    t.carve(3, 4, 1);
    let debris = t.collapse();
    let mut expected = Vec::new();
    for y in 0..2 {
        for x in 0..7 {
            expected.push((x, y));
        }
    }
    expected.push((3, 2));
    assert_eq!(debris, expected);
    assert_eq!(
        picture(&t),
        vec![".......", ".......", ".......", ".......", ".......", ".......", "#######", "#######"]
    );
    assert!(t.collapse().is_empty());
}

#[test]
fn a_large_terrain_collapses_within_its_time() {
    let mut t = Terrain::new(400, 200).unwrap();
    for x in 0..400 {
        for y in 100..200 {
            t.set_solid(x, y, true);
        }
        t.set_solid(x, 50, true);
    }
    let debris = t.collapse();
    assert_eq!(debris.len(), 400);
    assert_eq!(debris[0], (0, 50));
    assert_eq!(debris[399], (399, 50));
    assert!(t.is_solid(0, 100));
    assert!(!t.is_solid(0, 50));
}

#[test]
fn a_line_stops_at_the_first_solid_cell() {
    let t = filled(6, 4, &["......", "...#..", "....#.", "######"]);
    assert_eq!(t.line_collides((0, 1), (5, 1)), Some((3, 1)));
    assert_eq!(t.line_collides((5, 1), (0, 1)), Some((3, 1)));
    assert_eq!(t.line_collides((0, 0), (5, 0)), None);
    assert_eq!(t.line_collides((1, 0), (1, 3)), Some((1, 3)));
    assert_eq!(t.line_collides((5, 0), (2, 3)), Some((2, 3)));
    assert_eq!(t.line_collides((5, 3), (0, 0)), Some((5, 3)));
    assert_eq!(t.line_collides((0, 0), (4, 2)), Some((3, 1)));
}

#[test]
fn a_line_holds_both_its_ends() {
    let t = filled(3, 3, &["#..", "...", "..#"]);
    assert_eq!(t.line_collides((0, 0), (2, 1)), Some((0, 0)));
    assert_eq!(t.line_collides((0, 1), (2, 2)), Some((2, 2)));
    assert_eq!(t.line_collides((2, 2), (2, 2)), Some((2, 2)));
    assert_eq!(t.line_collides((1, 1), (1, 1)), None);
}

#[test]
fn a_line_outside_the_terrain_meets_nothing() {
    let t = filled(3, 2, &["###", "###"]);
    assert_eq!(t.line_collides((-50, -1), (50, -1)), None);
    assert_eq!(t.line_collides((-1_000_000, 5), (-1, 5)), None);
    assert_eq!(t.line_collides((-5, 1), (5, 1)), Some((0, 1)));
    assert_eq!(t.line_collides((1, -1_000), (1, 1_000)), Some((1, 0)));
}

#[test]
fn the_first_solid_of_given_points() {
    let t = filled(3, 2, &["..#", "#.."]);
    assert_eq!(t.first_solid_of(&vec![(1, 0), (1, 1), (0, 1), (2, 0)]), Some((0, 1)));
    assert_eq!(t.first_solid_of(&vec![(2, 0), (0, 1)]), Some((2, 0)));
    assert_eq!(t.first_solid_of(&vec![(1, 0), (9, 9), (-1, 0)]), None);
    assert_eq!(t.first_solid_of(&Vec::new()), None);
}

#[test]
fn a_steep_line_takes_the_cells_of_its_own_walk() {
    let on_the_line = [(0, 0), (0, 1), (1, 2), (2, 3), (3, 4), (4, 5), (5, 6)];
    for (k, cell) in on_the_line.iter().enumerate() {
        let mut t = Terrain::new(6, 7).unwrap();
        t.set_solid(cell.0, cell.1, true);
        t.set_solid(5, 6, true);
        let hit = t.line_collides((0, 0), (5, 6));
        assert_eq!(hit, Some((cell.0 as i32, cell.1 as i32)), "cell {}", k);
    }
    let mut beside = Terrain::new(6, 7).unwrap();
    for cell in [(1, 0), (1, 1), (0, 2), (2, 2), (1, 3), (3, 3), (2, 4), (4, 4), (3, 5), (5, 5)] {
        beside.set_solid(cell.0, cell.1, true);
    }
    assert_eq!(beside.line_collides((0, 0), (5, 6)), None);
}

#[test]
fn a_line_from_beyond_the_limit_is_taken_back_to_it() {
    let t = filled(3, 2, &["...", "###"]);
    assert_eq!(t.line_collides((i32::MIN, 1), (i32::MAX, 1)), Some((0, 1)));
    assert_eq!(t.line_collides((i32::MAX, 1), (i32::MIN, 1)), Some((2, 1)));
    assert_eq!(t.line_collides((1, i32::MIN), (1, i32::MAX)), Some((1, 1)));
    assert_eq!(t.line_collides((i32::MIN, 0), (i32::MAX, 0)), None);
    assert_eq!(t.line_collides((i32::MAX, i32::MAX), (i32::MAX, i32::MAX)), None);
}
