use game_of_life::Cell;

#[test]
fn toggle_makes_a_dead_cell_alive() {
    let mut cell = Cell::Dead;
    cell.toggle();
    assert_eq!(cell, Cell::Alive);
}

#[test]
fn toggle_makes_a_live_cell_dead() {
    let mut cell = Cell::Alive;
    cell.toggle();
    assert_eq!(cell, Cell::Dead);
}

#[test]
fn toggle_twice_gives_the_cell_back() {
    for start in [Cell::Dead, Cell::Alive] {
        let mut cell = start;
        cell.toggle();
        assert_ne!(cell, start);
        cell.toggle();
        assert_eq!(cell, start);
    }
}
