use life_core::grid::count_alive_neighbors;
use life_core::grid::next_cell_state;
use life_core::grid::Cell;
use life_core::world::World;

fn sorted(mut v: Vec<(i64, i64)>) -> Vec<(i64, i64)> {
    v.sort();
    v
}

/// Brute-force next generation: builds a dense grid over the bounding box
/// of the population padded by one cell and evaluates Conway's rule on
/// every coordinate of it.
fn brute_force_step(alive: &[(i64, i64)]) -> Vec<(i64, i64)> {
    if alive.is_empty() {
        return Vec::new();
    }
    let min_x = alive.iter().map(|c| c.0).min().unwrap() - 1;
    let max_x = alive.iter().map(|c| c.0).max().unwrap() + 1;
    let min_y = alive.iter().map(|c| c.1).min().unwrap() - 1;
    let max_y = alive.iter().map(|c| c.1).max().unwrap() + 1;
    let width = (max_x - min_x + 1) as u16;
    let height = (max_y - min_y + 1) as u16;
    let mut cells: Vec<Vec<Cell>> = (0..height)
        .map(|_| (0..width).map(|_| Cell::Dead).collect())
        .collect();
    for &(x, y) in alive {
        cells[(y - min_y) as usize][(x - min_x) as usize] = Cell::Alive;
    }
    let mut next = Vec::new();
    for gy in 0..height as usize {
        for gx in 0..width as usize {
            let count = count_alive_neighbors(&cells, width, height, gy, gx);
            if matches!(next_cell_state(&cells[gy][gx], count), Cell::Alive) {
                next.push((gx as i64 + min_x, gy as i64 + min_y));
            }
        }
    }
    next
}

fn world_with(alive: &[(i64, i64)]) -> World {
    let mut w = World::new();
    w.place_pattern(&alive.to_vec());
    w
}

fn alive_in_box(w: &World, min: i64, max: i64) -> Vec<(i64, i64)> {
    let mut out = Vec::new();
    for y in min..=max {
        for x in min..=max {
            if w.is_alive(x, y) {
                out.push((x, y));
            }
        }
    }
    out
}

#[test]
fn stepper_matches_brute_force_on_known_patterns() {
    let patterns: Vec<Vec<(i64, i64)>> = vec![
        vec![(0, 0)],
        vec![(0, 0), (1, 0), (2, 0)],
        vec![(0, 0), (1, 0), (0, 1), (1, 1)],
        // r-pentomino
        vec![(0, -1), (1, -1), (-1, 0), (0, 0), (0, 1)],
        // acorn
        vec![(-3, 1), (-2, -1), (-2, 1), (0, 0), (1, 1), (2, 1), (3, 1)],
        // glider
        vec![(0, -1), (1, 0), (-1, 1), (0, 1), (1, 1)],
    ];
    for pattern in patterns {
        let mut w = world_with(&pattern);
        let mut current = pattern.clone();
        for _ in 0..4 {
            let expected = sorted(brute_force_step(&current));
            w.progress_generation();
            assert_eq!(w.population(), expected.len());
            let got = sorted(alive_in_box(&w, -40, 40));
            assert_eq!(got, expected);
            current = expected;
        }
    }
}

#[test]
fn blinker_oscillates_with_period_two() {
    let mut w = world_with(&[(1, 2), (2, 2), (3, 2)]);
    w.progress_generation();
    assert_eq!(sorted(alive_in_box(&w, -10, 10)), vec![(2, 1), (2, 2), (2, 3)]);
    assert_eq!(w.population(), 3);
    w.progress_generation();
    assert_eq!(sorted(alive_in_box(&w, -10, 10)), vec![(1, 2), (2, 2), (3, 2)]);
    assert_eq!(w.population(), 3);
}

#[test]
fn block_is_a_fixed_point() {
    let mut w = world_with(&[(0, 0), (1, 0), (0, 1), (1, 1)]);
    w.progress_generation();
    assert_eq!(w.population(), 4);
    assert_eq!(sorted(alive_in_box(&w, -10, 10)), vec![(0, 0), (0, 1), (1, 0), (1, 1)]);
    assert_eq!(w.generation_count(), 1);
}

#[test]
fn toggle_makes_dead_cell_alive_and_back() {
    let mut w = World::new();
    w.clear_dirty_chunks();
    w.toggle_cell(130, -1);
    assert!(w.is_alive(130, -1));
    assert_eq!(w.generation_count(), 0);
    // cell (130, -1) lies in chunk (2, -1); exactly that chunk is dirty
    assert_eq!(w.dirty_chunks(), vec![(2, -1)]);
    w.toggle_cell(130, -1);
    assert!(!w.is_alive(130, -1));
    // toggling back off removed it from the initial pattern too
    w.reset();
    assert!(!w.is_alive(130, -1));
}

#[test]
fn toggle_survives_reset_as_initial_pattern() {
    let mut w = World::new();
    w.toggle_cell(5, 6);
    w.progress_generation();
    assert!(!w.is_alive(5, 6));
    w.reset();
    assert!(w.is_alive(5, 6));
    assert_eq!(w.generation_count(), 0);
    assert_eq!(w.population(), 1);
}

#[test]
fn reset_round_trip_restores_placed_cell() {
    let mut w = World::new();
    w.place_pattern(&vec![(0, 0)]);
    w.progress_generation();
    assert!(!w.is_alive(0, 0));
    w.reset();
    assert!(w.is_alive(0, 0));
    assert_eq!(w.generation_count(), 0);
}

#[test]
fn place_pattern_is_additive() {
    let mut w = World::new();
    w.toggle_cell(100, 100);
    w.place_pattern(&vec![(0, 0), (1, 1)]);
    assert!(w.is_alive(100, 100));
    assert!(w.is_alive(0, 0));
    assert!(w.is_alive(1, 1));
    assert_eq!(w.population(), 3);
    assert_eq!(w.generation_count(), 0);
}

#[test]
fn clear_empties_world_and_initial_pattern() {
    let mut w = World::new();
    w.place_pattern(&vec![(0, 0), (70, 0)]);
    w.clear_dirty_chunks();
    w.clear();
    assert_eq!(w.population(), 0);
    assert_eq!(w.generation_count(), 0);
    // both covered chunks are marked dirty again
    assert_eq!(sorted(w.dirty_chunks()), vec![(0, 0), (1, 0)]);
    w.reset();
    assert_eq!(w.population(), 0);
}

#[test]
fn generation_counter_increments_and_resets() {
    let mut w = world_with(&[(0, 0), (1, 0), (2, 0)]);
    assert_eq!(w.generation_count(), 0);
    w.progress_generation();
    w.progress_generation();
    assert_eq!(w.generation_count(), 2);
    w.toggle_cell(50, 50);
    assert_eq!(w.generation_count(), 0);
}

#[test]
fn step_on_empty_world_marks_nothing_dirty() {
    let mut w = World::new();
    w.clear_dirty_chunks();
    w.progress_generation();
    assert!(w.dirty_chunks().is_empty());
    assert_eq!(w.population(), 0);
    assert_eq!(w.generation_count(), 1);
}

#[test]
fn step_marks_exactly_the_chunks_of_changed_cells() {
    // a blinker well inside chunk (0, 0): all changes stay in that chunk
    let mut w = world_with(&[(10, 10), (11, 10), (12, 10)]);
    w.clear_dirty_chunks();
    w.progress_generation();
    assert_eq!(w.dirty_chunks(), vec![(0, 0)]);
    // a block changes nothing, so a step marks nothing
    let mut still = world_with(&[(0, 0), (1, 0), (0, 1), (1, 1)]);
    still.clear_dirty_chunks();
    still.progress_generation();
    assert!(still.dirty_chunks().is_empty());
}

#[test]
fn placing_an_alive_cell_again_marks_no_chunk() {
    let mut w = World::new();
    w.place_pattern(&vec![(3, 3)]);
    w.clear_dirty_chunks();
    w.place_pattern(&vec![(3, 3)]);
    assert!(w.dirty_chunks().is_empty());
    assert!(w.is_alive(3, 3));
}
