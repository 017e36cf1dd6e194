use cyber_path::models::{Direction, Position};

#[test]
fn neighbor_steps_and_edges() {
    let p = Position::new(3, 4);
    assert_eq!(p.neighbor(Direction::Up), Some(Position::new(3, 3)));
    assert_eq!(p.neighbor(Direction::Down), Some(Position::new(3, 5)));
    assert_eq!(p.neighbor(Direction::Left), Some(Position::new(2, 4)));
    assert_eq!(p.neighbor(Direction::Right), Some(Position::new(4, 4)));
    let corner = Position::new(0, 0);
    assert_eq!(corner.neighbor(Direction::Up), None);
    assert_eq!(corner.neighbor(Direction::Left), None);
}

#[test]
fn manhattan_distance_values() {
    assert_eq!(Position::new(1, 2).manhattan_distance(Position::new(4, 0)), 5);
    assert_eq!(Position::new(4, 0).manhattan_distance(Position::new(1, 2)), 5);
    assert_eq!(Position::new(7, 7).manhattan_distance(Position::new(7, 7)), 0);
    assert_eq!(Position::new(0, 0).manhattan_distance(Position::new(65535, 65535)), 131070);
}

#[test]
fn direction_to_adjacent_only() {
    let p = Position::new(5, 5);
    assert_eq!(p.direction_to(Position::new(5, 4)), Some(Direction::Up));
    assert_eq!(p.direction_to(Position::new(5, 6)), Some(Direction::Down));
    assert_eq!(p.direction_to(Position::new(4, 5)), Some(Direction::Left));
    assert_eq!(p.direction_to(Position::new(6, 5)), Some(Direction::Right));
    assert_eq!(p.direction_to(Position::new(6, 6)), None);
    assert_eq!(p.direction_to(Position::new(5, 5)), None);
    assert_eq!(p.direction_to(Position::new(5, 7)), None);
}

#[test]
fn neighbor_and_direction_agree() {
    let p = Position::new(2, 9);
    for d in [Direction::Up, Direction::Down, Direction::Left, Direction::Right] {
        let q = p.neighbor(d).unwrap();
        assert_eq!(p.direction_to(q), Some(d));
        assert_eq!(p.manhattan_distance(q), 1);
    }
}
