use life_core::grid::count_alive_neighbors;
use life_core::grid::next_cell_state;
use life_core::grid::Cell;

#[test]
fn count_neighbors_center_all_alive() {
    let cells = vec![
        vec![Cell::Alive, Cell::Alive, Cell::Alive],
        vec![Cell::Alive, Cell::Dead, Cell::Alive],
        vec![Cell::Alive, Cell::Alive, Cell::Alive],
    ];
    assert_eq!(count_alive_neighbors(&cells, 3, 3, 1, 1), 8);
}

#[test]
fn count_neighbors_corner() {
    let cells = vec![
        vec![Cell::Dead, Cell::Alive, Cell::Dead],
        vec![Cell::Alive, Cell::Alive, Cell::Dead],
        vec![Cell::Dead, Cell::Dead, Cell::Dead],
    ];
    // neighbors of (0,0): (0,1)=Alive, (1,0)=Alive, (1,1)=Alive
    assert_eq!(count_alive_neighbors(&cells, 3, 3, 0, 0), 3);
}

#[test]
fn count_neighbors_edge() {
    let cells = vec![
        vec![Cell::Alive, Cell::Dead, Cell::Alive],
        vec![Cell::Dead, Cell::Dead, Cell::Dead],
        vec![Cell::Dead, Cell::Dead, Cell::Dead],
    ];
    // neighbors of (0,1): (0,0)=Alive, (0,2)=Alive, the rest Dead
    assert_eq!(count_alive_neighbors(&cells, 3, 3, 0, 1), 2);
}

#[test]
fn next_state_alive_with_2_survives() {
    assert!(matches!(next_cell_state(&Cell::Alive, 2), Cell::Alive));
}

#[test]
fn next_state_alive_with_3_survives() {
    assert!(matches!(next_cell_state(&Cell::Alive, 3), Cell::Alive));
}

#[test]
fn next_state_alive_with_1_dies() {
    assert!(matches!(next_cell_state(&Cell::Alive, 1), Cell::Dead));
}

#[test]
fn next_state_alive_with_4_dies() {
    assert!(matches!(next_cell_state(&Cell::Alive, 4), Cell::Dead));
}

#[test]
fn next_state_dead_with_3_becomes_alive() {
    assert!(matches!(next_cell_state(&Cell::Dead, 3), Cell::Alive));
}

#[test]
fn next_state_dead_with_2_stays_dead() {
    assert!(matches!(next_cell_state(&Cell::Dead, 2), Cell::Dead));
}

#[test]
fn switch_state_flips() {
    assert!(matches!(Cell::Alive.switch_state(), Cell::Dead));
    assert!(matches!(Cell::Dead.switch_state(), Cell::Alive));
}
