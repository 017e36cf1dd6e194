use cyber_path::models::Position;
use cyber_path::ui::{Board, BoardError, clamp_u16};

#[test]
fn board_layout_for_standard_terminal() {
    let b = Board::from_size(80, 24).unwrap();
    assert_eq!(b.cols, 15);
    assert_eq!(b.rows, 5);
    assert_eq!(b.origin_x, 2);
    assert_eq!(b.origin_y, 2);
    assert_eq!(b.term_w, 80);
    assert_eq!(b.cell_pos(Position::new(0, 0)), (3, 3));
    assert_eq!(b.cell_pos(Position::new(2, 1)), (13, 6));
    assert_eq!(b.status_row(), 19);
    assert_eq!(b.line_y(2), 8);
    assert_eq!(b.centered_x(10), 35);
}

#[test]
fn board_size_is_clamped() {
    let small = Board::from_size(30, 15).unwrap();
    assert_eq!((small.cols, small.rows), (5, 4));
    let big = Board::from_size(300, 100).unwrap();
    assert_eq!((big.cols, big.rows), (16, 10));
    assert_eq!(big.origin_x, (300 - 81) / 2);
}

#[test]
fn too_small_terminal_is_refused() {
    assert_eq!(Board::from_size(29, 40).err(), Some(BoardError::TooSmall { width: 29, height: 40 }));
    assert_eq!(Board::from_size(100, 14).err(), Some(BoardError::TooSmall { width: 100, height: 14 }));
}

#[test]
fn grid_lines() {
    let b = Board::from_size(30, 15).unwrap();
    let top: String = b.border_line(0).into_iter().collect();
    assert_eq!(top, "┌────┬────┬────┬────┬────┐");
    let middle: String = b.border_line(2).into_iter().collect();
    assert_eq!(middle, "├────┼────┼────┼────┼────┤");
    let bottom: String = b.border_line(4).into_iter().collect();
    assert_eq!(bottom, "└────┴────┴────┴────┴────┘");
    let cells: String = b.cell_line().into_iter().collect();
    assert_eq!(cells, "│    │    │    │    │    │");
    assert_eq!(b.junction_char(0, 5), '┐');
    assert_eq!(b.junction_char(4, 0), '└');
}

#[test]
fn clamp_values() {
    assert_eq!(clamp_u16(3, 5, 16), 5);
    assert_eq!(clamp_u16(20, 5, 16), 16);
    assert_eq!(clamp_u16(9, 5, 16), 9);
}
