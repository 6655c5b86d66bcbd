use minsweeper_client::board::{BoardSize, BoardSizeError, ConventionalSize};
use minsweeper_client::grid::Grid;
use minsweeper_client::texture::{Border, Texture};

#[test]
fn board_size_accepts_valid_dimensions() {
    let size = BoardSize::new(9, 9, 10).unwrap();
    assert_eq!(size.width(), 9);
    assert_eq!(size.height(), 9);
    assert_eq!(size.mines(), 10);
}

#[test]
fn board_size_rejects_zero_sides() {
    assert!(matches!(
        BoardSize::new(0, 5, 1),
        Err(BoardSizeError::InvalidSize { width: 0, height: 5 })
    ));
    assert!(matches!(
        BoardSize::new(5, 0, 1),
        Err(BoardSizeError::InvalidSize { width: 5, height: 0 })
    ));
}

#[test]
fn board_size_rejects_zero_mines() {
    assert!(matches!(BoardSize::new(5, 5, 0), Err(BoardSizeError::TooFewMines)));
}

#[test]
fn board_size_rejects_too_many_mines() {
    assert!(matches!(
        BoardSize::new(3, 3, 9),
        Err(BoardSizeError::TooManyMines { mines: 9 })
    ));
    assert!(BoardSize::new(3, 3, 8).is_ok());
}

#[test]
fn conventional_sizes_match_the_classics() {
    let beginner = ConventionalSize::Beginner.size();
    assert_eq!((beginner.width(), beginner.height(), beginner.mines()), (9, 9, 10));
    let intermediate = ConventionalSize::Intermediate.size();
    assert_eq!(
        (intermediate.width(), intermediate.height(), intermediate.mines()),
        (16, 16, 40)
    );
    let expert = ConventionalSize::Expert.size();
    assert_eq!((expert.width(), expert.height(), expert.mines()), (30, 16, 99));
}

#[test]
fn neighbours_of_a_centre_cell() {
    let size = BoardSize::new(3, 3, 1).unwrap();
    let ns = size.neighbours((1, 1));
    assert_eq!(
        ns,
        vec![(0, 0), (1, 0), (2, 0), (0, 1), (2, 1), (0, 2), (1, 2), (2, 2)]
    );
}

#[test]
fn neighbours_of_a_corner_cell() {
    let size = BoardSize::new(3, 3, 1).unwrap();
    assert_eq!(size.neighbours((0, 0)), vec![(1, 0), (0, 1), (1, 1)]);
    assert_eq!(size.neighbours((2, 2)), vec![(1, 1), (2, 1), (1, 2)]);
}

#[test]
fn neighbours_of_an_edge_cell() {
    let size = BoardSize::new(3, 3, 1).unwrap();
    assert_eq!(size.neighbours((1, 0)), vec![(0, 0), (2, 0), (0, 1), (1, 1), (2, 1)]);
}

#[test]
fn points_are_row_major() {
    let size = BoardSize::new(3, 2, 1).unwrap();
    assert_eq!(
        size.points(),
        vec![(0, 0), (1, 0), (2, 0), (0, 1), (1, 1), (2, 1)]
    );
}

#[test]
fn grid_fill_get_and_set() {
    let mut grid: Grid<u8> = Grid::new(3, 2, 7);
    assert_eq!(*grid.get((2, 1)), 7);
    grid.set((2, 1), 9);
    assert_eq!(*grid.get((2, 1)), 9);
    assert_eq!(*grid.get((2, 0)), 7);
    assert_eq!(grid.width(), 3);
    assert_eq!(grid.height(), 2);
}

#[test]
fn grid_iter_concatenates_columns() {
    let mut grid: Grid<u8> = Grid::new(2, 2, 0);
    grid.set((0, 0), 1);
    grid.set((0, 1), 2);
    grid.set((1, 0), 3);
    grid.set((1, 1), 4);
    assert_eq!(grid.iter(), vec![1, 2, 3, 4]);
}

#[test]
fn grid_iter_mut_gives_access_to_one_entry() {
    let mut grid: Grid<u8> = Grid::new(2, 2, 0);
    *grid.iter_mut(1, 0) = 5;
    assert_eq!(*grid.get((1, 0)), 5);
    assert_eq!(*grid.get((0, 0)), 0);
}

#[test]
fn grid_from_2d_vec_keeps_columns() {
    let grid = Grid::from_2d_vec(vec![vec![1, 2], vec![3, 4]], 2, 2);
    assert_eq!(*grid.get((0, 1)), 2);
    assert_eq!(*grid.get((1, 0)), 3);
}

#[test]
fn texture_defaults_to_dark() {
    assert_eq!(Texture::default(), Texture::Dark);
    assert_ne!(Texture::Light, Texture::Gay);
}

#[test]
fn border_pieces_are_distinct() {
    assert_ne!(Border::TopLeft, Border::TopRight);
    assert_ne!(Border::CounterTop, Border::CounterBottom);
}
