use grid_canvas::Canvas;
use grid_canvas::CanvasIterator;
use grid_canvas::Color;
use grid_canvas::DiamondGrid;
use grid_canvas::OfflineGrid;
use grid_canvas::OutOfBounds;
use grid_canvas::RectGrid;

fn drain<C: Canvas>(mut it: CanvasIterator<C>) -> Vec<(u32, u32)> {
    let mut coords = Vec::new();
    while let Some(button) = it.next() {
        coords.push((button.x(), button.y()));
    }
    coords
}

#[test]
fn is_valid_is_stable_across_repeated_calls() {
    for x in 0..4u32 {
        for y in 0..4u32 {
            let first = DiamondGrid::is_valid(x, y);
            let second = DiamondGrid::is_valid(x, y);
            assert_eq!(first, second);
            let first_rect = RectGrid::<2, 2>::is_valid(x, y);
            let second_rect = RectGrid::<2, 2>::is_valid(x, y);
            assert_eq!(first_rect, second_rect);
        }
    }
}

#[test]
fn out_of_bounds_coordinates_are_invalid() {
    assert!(!RectGrid::<2, 3>::is_valid(2, 0));
    assert!(!RectGrid::<2, 3>::is_valid(0, 3));
    assert!(!RectGrid::<2, 3>::is_valid(2, 3));
    assert!(!RectGrid::<2, 3>::is_valid(u32::MAX, 0));
    assert!(!DiamondGrid::is_valid(3, 1));
    assert!(!DiamondGrid::is_valid(1, 3));
    assert!(RectGrid::<2, 3>::is_valid(1, 2));
}

#[test]
fn bounding_box_getters_report_the_dimensions() {
    assert_eq!(RectGrid::<5, 7>::bounding_box_width(), 5);
    assert_eq!(RectGrid::<5, 7>::bounding_box_height(), 7);
    assert_eq!(DiamondGrid::bounding_box_width(), 3);
    assert_eq!(DiamondGrid::bounding_box_height(), 3);
}

#[test]
fn traversal_of_full_grid_is_row_major() {
    let coords = drain(grid_canvas::iter::<RectGrid<3, 2>>());
    assert_eq!(coords, vec![(0, 0), (1, 0), (2, 0), (0, 1), (1, 1), (2, 1)]);
}

#[test]
fn traversal_of_full_grid_counts_every_cell() {
    let coords = drain(CanvasIterator::<RectGrid<4, 5>>::new());
    assert_eq!(coords.len(), 20);
    for (i, &(x, y)) in coords.iter().enumerate() {
        assert_eq!(x, (i as u32) % 4);
        assert_eq!(y, (i as u32) / 4);
    }
}

#[test]
fn traversal_of_empty_bounding_box_yields_nothing() {
    assert_eq!(drain(CanvasIterator::<RectGrid<0, 3>>::new()), vec![]);
    assert_eq!(drain(CanvasIterator::<RectGrid<3, 0>>::new()), vec![]);
    assert_eq!(drain(CanvasIterator::<RectGrid<0, 0>>::new()), vec![]);
}

#[test]
fn traversal_of_diamond_grid_skips_invalid_cells_in_order() {
    let coords = drain(CanvasIterator::<DiamondGrid>::new());
    assert_eq!(coords, vec![(1, 0), (0, 1), (1, 1), (2, 1), (1, 2)]);
}

#[test]
fn traversal_is_consumed_by_a_single_pass() {
    let mut it = CanvasIterator::<RectGrid<2, 1>>::new();
    assert!(it.next().is_some());
    assert!(it.next().is_some());
    assert!(it.next().is_none());
    assert!(it.next().is_none());
}

#[test]
fn set_then_get_round_trips_and_get_old_waits_for_flush() {
    let black = Color::new(0, 0, 0);
    let green = Color::new(0, 255, 0);
    let mut grid = RectGrid::<3, 3>::new(black);
    assert_eq!(grid.set(2, 1, green), Ok(()));
    assert_eq!(grid.get(2, 1), Ok(green));
    assert_eq!(grid.get_old(2, 1), Ok(black));
    assert!(grid.flush().is_ok());
    assert_eq!(grid.get_old(2, 1), Ok(green));
    assert_eq!(grid.get(2, 1), Ok(green));
}

#[test]
fn set_leaves_other_cells_alone() {
    let black = Color::new(0, 0, 0);
    let blue = Color::new(0, 0, 255);
    let mut grid = RectGrid::<2, 2>::new(black);
    assert_eq!(grid.set(0, 1, blue), Ok(()));
    assert_eq!(grid.get(0, 0), Ok(black));
    assert_eq!(grid.get(1, 0), Ok(black));
    assert_eq!(grid.get(1, 1), Ok(black));
    assert_eq!(grid.get(0, 1), Ok(blue));
}

#[test]
fn facade_rejects_invalid_coordinates() {
    let black = Color::new(0, 0, 0);
    let red = Color::new(255, 0, 0);
    let mut grid = RectGrid::<2, 2>::new(black);
    assert_eq!(grid.set(2, 0, red), Err(OutOfBounds { x: 2, y: 0 }));
    assert_eq!(grid.get(0, 2), Err(OutOfBounds { x: 0, y: 2 }));
    assert_eq!(grid.get_old(5, 9), Err(OutOfBounds { x: 5, y: 9 }));
    let mut diamond = DiamondGrid::new(black);
    assert_eq!(diamond.set(0, 0, red), Err(OutOfBounds { x: 0, y: 0 }));
    assert_eq!(diamond.get(2, 2), Err(OutOfBounds { x: 2, y: 2 }));
}

#[test]
fn handles_read_and_write_without_rechecking() {
    let black = Color::new(0, 0, 0);
    let amber = Color::new(255, 191, 0);
    let mut grid = DiamondGrid::new(black);
    let mut it = CanvasIterator::<DiamondGrid>::new();
    while let Some(button) = it.next() {
        assert_eq!(button.get(&grid), black);
        assert_eq!(button.get_old(&grid), black);
        button.set(&mut grid, amber);
        assert_eq!(button.get(&grid), amber);
        assert_eq!(button.get_old(&grid), black);
    }
    assert_eq!(grid.get(1, 1), Ok(amber));
    assert_eq!(grid.get_old(1, 1), Ok(black));
}

#[test]
fn two_by_two_scenario() {
    let black = Color::new(0, 0, 0);
    let red = Color::new(255, 0, 0);
    let coords = drain(CanvasIterator::<RectGrid<2, 2>>::new());
    assert_eq!(coords, vec![(0, 0), (1, 0), (0, 1), (1, 1)]);
    let mut grid = RectGrid::<2, 2>::new(black);
    assert_eq!(grid.set(1, 1, red), Ok(()));
    assert_eq!(grid.get(1, 1), Ok(red));
    assert_eq!(grid.get_old(1, 1), Ok(black));
    assert!(grid.flush().is_ok());
    assert_eq!(grid.get_old(1, 1), Ok(red));
}

#[test]
fn failed_flush_surfaces_the_error_and_commits_nothing() {
    let black = Color::new(0, 0, 0);
    let red = Color::new(255, 0, 0);
    let mut grid = OfflineGrid::<2, 2>::new(black);
    assert_eq!(grid.set(1, 0, red), Ok(()));
    let outcome = grid.flush();
    assert!(outcome.is_err());
    let message = format!("{}", outcome.unwrap_err());
    assert!(message.contains("offline"));
    assert_eq!(grid.get(1, 0), Ok(red));
    assert_eq!(grid.get_old(1, 0), Ok(black));
}

#[test]
fn button_accessors_report_their_coordinate() {
    let mut it = CanvasIterator::<DiamondGrid>::new();
    let button = it.next().expect("the diamond grid has valid cells");
    assert_eq!(button.x(), 1);
    assert_eq!(button.y(), 0);
    let copy = button.clone();
    assert_eq!(copy.x(), button.x());
    assert_eq!(copy.y(), button.y());
}
