use snake::{new_game, randint, Area, Cell, Game};

fn food_count(g: &Game) -> usize {
    g.area
        .iter()
        .map(|row| row.iter().filter(|c| **c == Cell::Food).count())
        .sum()
}

#[test]
fn create_minimal_grid() {
    let g = new_game(1, 1);
    assert_eq!(g.max_x, 2);
    assert_eq!(g.max_y, 2);
    assert_eq!(g.area.len(), 3);
    for row in &g.area {
        assert_eq!(row.len(), 3);
    }
    for y in 0..3 {
        for x in 0..3 {
            if x == 1 && y == 1 {
                assert_eq!(g.area[y][x], Cell::Empty);
            } else {
                assert_eq!(g.area[y][x], Cell::Border);
            }
        }
    }
}

#[test]
fn create_bordered_grid() {
    let g = new_game(5, 7);
    assert_eq!(g.max_x, 6);
    assert_eq!(g.max_y, 8);
    assert_eq!(g.area.len(), 9);
    for y in 0..9 {
        assert_eq!(g.area[y].len(), 7);
        for x in 0..7 {
            if x == 0 || x == 6 || y == 0 || y == 8 {
                assert_eq!(g.area[y][x], Cell::Border);
            } else {
                assert_eq!(g.area[y][x], Cell::Empty);
            }
        }
    }
}

#[test]
fn at_and_mark() {
    let mut g = new_game(3, 3);
    assert_eq!(g.at((1, 1)), Cell::Empty);
    assert_eq!(g.at((0, 0)), Cell::Border);
    g.mark((2, 2), Cell::Food);
    assert_eq!(g.at((2, 2)), Cell::Food);
    g.to_player((1, 2));
    assert_eq!(g.at((1, 2)), Cell::Occupied);
    g.to_empty((2, 2));
    assert_eq!(g.at((2, 2)), Cell::Empty);
    assert_eq!(g.at((1, 2)), Cell::Occupied);
}

#[test]
fn can_move_by_cell_state() {
    let mut g = new_game(3, 3);
    g.mark((1, 1), Cell::Food);
    g.mark((2, 1), Cell::Occupied);
    assert!(g.can_move(&(1, 1)));
    assert!(g.can_move(&(1, 2)));
    assert!(!g.can_move(&(2, 1)));
    assert!(!g.can_move(&(0, 1)));
}

#[test]
fn update_marks_every_segment() {
    let mut g = new_game(4, 4);
    let body = vec![(1, 1), (2, 1), (3, 1)];
    g.update(&body);
    assert_eq!(g.at((1, 1)), Cell::Occupied);
    assert_eq!(g.at((2, 1)), Cell::Occupied);
    assert_eq!(g.at((3, 1)), Cell::Occupied);
    assert_eq!(g.at((2, 2)), Cell::Empty);
}

#[test]
fn new_food_places_exactly_one() {
    for _ in 0..25 {
        let mut g = new_game(4, 4);
        g.new_food();
        assert_eq!(food_count(&g), 1);
        for y in 0..g.area.len() {
            for x in 0..g.area[y].len() {
                if g.area[y][x] == Cell::Food {
                    assert!(1 <= x && x < g.max_x);
                    assert!(1 <= y && y < g.max_y);
                }
            }
        }
    }
}

#[test]
fn is_over_iff_interior_occupied() {
    let mut g = new_game(2, 2);
    assert!(!g.is_over());
    g.to_player((1, 1));
    g.to_player((2, 1));
    g.to_player((1, 2));
    assert!(!g.is_over());
    g.to_player((2, 2));
    assert!(g.is_over());
    g.mark((1, 1), Cell::Food);
    assert!(!g.is_over());
}

#[test]
fn refresh_draws_the_frame() {
    let g = new_game(1, 1);
    assert_eq!(snake::refresh(&g.area), "# # # \n#   # \n# # # ");
}

#[test]
fn refresh_glyphs() {
    let area: Area = vec![vec![
        Cell::Border,
        Cell::Empty,
        Cell::Food,
        Cell::Occupied,
    ]];
    assert_eq!(snake::refresh(&area), "#   * o ");
}

#[test]
fn randint_stays_in_range() {
    for _ in 0..100 {
        let v = randint(1..6);
        assert!(1 <= v && v < 6);
    }
    assert_eq!(randint(4..5), 4);
}
