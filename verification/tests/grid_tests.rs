use collision_simulation::grid::{Cell, Col, Grid, Row};

#[test]
fn test_index() {
    assert_eq!(Grid::get_vec_index(&Row(0), &Col(1), 10), 1);
    assert_eq!(Grid::get_grid_index(1, 10), (Row(0), Col(1)));

    assert_eq!(Grid::get_vec_index(&Row(2), &Col(1), 5), 11);
    assert_eq!(Grid::get_grid_index(11, 5), (Row(2), Col(1)));
}

#[test]
fn test_get() {
    let grid = Grid::new(10, 41, 1);

    assert_eq!(grid.get(&Row(0), &Col(0)), Some(&vec![]));
    assert_eq!(grid.get(&Row(9), &Col(40)), Some(&vec![]));
    assert_eq!(grid.get(&Row(10), &Col(40)), None);
    assert_eq!(grid.get(&Row(9), &Col(41)), None);
}

#[test]
fn test_set_unique() {
    let mut grid = Grid::new(50, 50, 1);

    assert_eq!(grid.get(&Row(9), &Col(15)), Some(&vec![]));
    assert_eq!(grid.set_unique(69, &Row(9), &Col(15)), Some(true));
    assert_eq!(grid.get(&Row(9), &Col(15)), Some(&vec![69]));

    assert_eq!(grid.set_unique(69, &Row(9), &Col(15)), Some(false));
    assert_eq!(grid.get(&Row(9), &Col(15)), Some(&vec![69]));

    assert_eq!(grid.set_unique(420, &Row(9), &Col(15)), Some(true));
    assert_eq!(grid.get(&Row(9), &Col(15)), Some(&vec![69, 420]));
}

#[test]
fn test_get_many() {
    let mut grid = Grid::new(50, 50, 1);

    assert_eq!(grid.set_unique(10, &Row(10), &Col(10)), Some(true));
    assert_eq!(grid.set_unique(10, &Row(15), &Col(15)), Some(true));
    assert_eq!(grid.set_unique(420, &Row(15), &Col(15)), Some(true));
    assert_eq!(grid.set_unique(69, &Row(20), &Col(20)), Some(true));
    assert_eq!(grid.set_unique(13, &Row(21), &Col(21)), Some(true));

    let mut many = grid.get_many_unique((Row(10), Row(20)), (Col(10), Col(20)));
    assert_eq!(many.len(), 3);

    many.sort();
    assert_eq!(many, [10, 69, 420]);
}

#[test]
fn test_set_out_of_bounds_is_rejected() {
    let mut grid = Grid::new(4, 4, 1);
    assert_eq!(grid.set(1, &Row(4), &Col(0)), None);
    assert_eq!(grid.set(1, &Row(0), &Col(4)), None);
    assert_eq!(grid.set_unique(1, &Row(9), &Col(9)), None);
    assert_eq!(grid.set(1, &Row(3), &Col(3)), Some(()));
    assert_eq!(grid.get(&Row(3), &Col(3)), Some(&vec![1]));
}

#[test]
fn test_set_many_registers_whole_block() {
    let mut grid = Grid::new(6, 6, 1);
    assert_eq!(grid.set_many(7, (Row(1), Row(2)), (Col(3), Col(4))), Some(()));
    assert_eq!(grid.get(&Row(1), &Col(3)), Some(&vec![7]));
    assert_eq!(grid.get(&Row(1), &Col(4)), Some(&vec![7]));
    assert_eq!(grid.get(&Row(2), &Col(3)), Some(&vec![7]));
    assert_eq!(grid.get(&Row(2), &Col(4)), Some(&vec![7]));
    assert_eq!(grid.get(&Row(0), &Col(3)), Some(&vec![]));
    assert_eq!(grid.get(&Row(3), &Col(3)), Some(&vec![]));
}

#[test]
fn test_set_many_out_of_bounds_is_a_no_op() {
    let mut grid = Grid::new(4, 4, 1);
    assert_eq!(grid.set_many(7, (Row(2), Row(5)), (Col(0), Col(1))), None);
    for r in 0..4 {
        for c in 0..4 {
            assert_eq!(grid.get(&Row(r), &Col(c)), Some(&vec![]));
        }
    }
}

#[test]
fn test_set_many_empty_block_succeeds_trivially() {
    let mut grid = Grid::new(4, 4, 1);
    assert_eq!(grid.set_many(7, (Row(3), Row(1)), (Col(0), Col(1))), Some(()));
    assert_eq!(grid.get(&Row(3), &Col(0)), Some(&vec![]));
}

#[test]
fn test_get_many_keeps_duplicates_in_traversal_order() {
    let mut grid = Grid::new(4, 4, 1);
    // column-major traversal: columns outermost, rows within a column
    assert_eq!(grid.set(5, &Row(0), &Col(0)), Some(()));
    assert_eq!(grid.set(6, &Row(1), &Col(0)), Some(()));
    assert_eq!(grid.set(5, &Row(0), &Col(1)), Some(()));
    let all = grid.get_many((Row(0), Row(1)), (Col(0), Col(1)));
    assert_eq!(all, [5, 6, 5]);
}

#[test]
fn test_get_many_skips_cells_outside_the_grid() {
    let mut grid = Grid::new(2, 2, 1);
    assert_eq!(grid.set(9, &Row(1), &Col(1)), Some(()));
    let all = grid.get_many((Row(0), Row(7)), (Col(0), Col(7)));
    assert_eq!(all, [9]);
}

// Registering an item over a block and querying the same block with
// de-duplication returns the item exactly once.
#[test]
fn test_insert_range_then_query_unique_finds_item_once() {
    let mut grid = Grid::new(8, 8, 1);
    assert_eq!(grid.set_many(42, (Row(2), Row(5)), (Col(1), Col(6))), Some(()));
    let found = grid.get_many_unique((Row(2), Row(5)), (Col(1), Col(6)));
    assert_eq!(found, [42]);
}

#[test]
fn test_get_many_unique_keeps_first_seen_order() {
    let mut grid = Grid::new(4, 4, 1);
    assert_eq!(grid.set(5, &Row(0), &Col(0)), Some(()));
    assert_eq!(grid.set(6, &Row(1), &Col(0)), Some(()));
    assert_eq!(grid.set(5, &Row(0), &Col(1)), Some(()));
    assert_eq!(grid.set(2, &Row(1), &Col(1)), Some(()));
    let unique = grid.get_many_unique((Row(0), Row(1)), (Col(0), Col(1)));
    assert_eq!(unique, [5, 6, 2]);
}

#[test]
fn test_cell_operations() {
    let empty = Cell::empty();
    assert_eq!(empty.0, vec![]);

    let mut cell = Cell::single(3);
    assert_eq!(cell.0, vec![3]);

    cell.insert(3);
    assert_eq!(cell.0, vec![3, 3]);

    assert!(!cell.insert_unique(3));
    assert!(cell.insert_unique(4));
    assert_eq!(cell.0, vec![3, 3, 4]);

    let fresh: Cell = Default::default();
    assert_eq!(fresh.0, vec![]);
}
