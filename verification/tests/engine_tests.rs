use snake::{key_direction, new_game, Cell, Direction, End, Game, GameState, Player, Tick};

fn food_count(g: &Game) -> usize {
    g.area
        .iter()
        .map(|row| row.iter().filter(|c| **c == Cell::Food).count())
        .sum()
}

fn state_with(mut game: Game, body: Vec<(usize, usize)>) -> GameState {
    let (max_x, max_y) = game.size();
    let head = body[0];
    game.update(&body);
    let player = Player {
        max_x,
        max_y,
        pos_x: head.0,
        pos_y: head.1,
        body,
    };
    GameState {
        game,
        player,
        prev_key: Vec::new(),
    }
}

#[test]
fn key_decoding() {
    assert_eq!(key_direction(b'w'), Some(Direction::Up));
    assert_eq!(key_direction(b'a'), Some(Direction::Left));
    assert_eq!(key_direction(b's'), Some(Direction::Down));
    assert_eq!(key_direction(b'd'), Some(Direction::Right));
    assert_eq!(key_direction(b'x'), None);
    assert_eq!(key_direction(b'W'), None);
}

#[test]
fn fresh_run_shows_spawn_and_food() {
    for _ in 0..20 {
        let s = GameState::new(5, 5);
        assert_eq!(s.game.max_x, 6);
        assert_eq!(s.game.max_y, 6);
        assert_eq!(s.player.body.len(), 1);
        assert!(s.prev_key.is_empty());
        // the spawn cell is drawn
        assert_eq!(s.game.at((s.player.pos_x, s.player.pos_y)), Cell::Occupied);
        // one food was placed; it shows unless it spawned under the body
        assert!(food_count(&s.game) <= 1);
    }
}

#[test]
fn single_cell_move_down() {
    let mut s = state_with(new_game(5, 5), vec![(3, 3)]);
    let r = s.tick(&vec![b's']);
    assert_eq!(r, Tick::Running);
    assert_eq!((s.player.pos_x, s.player.pos_y), (3, 4));
    assert_eq!(s.player.body, vec![(3, 4)]);
    // the vacated cell empties and the head is drawn
    assert_eq!(s.game.at((3, 3)), Cell::Empty);
    assert_eq!(s.game.at((3, 4)), Cell::Occupied);
}

#[test]
fn held_key_is_debounced() {
    let mut s = state_with(new_game(5, 5), vec![(3, 3)]);
    assert_eq!(s.tick(&vec![b's']), Tick::Running);
    assert_eq!((s.player.pos_x, s.player.pos_y), (3, 4));
    // the same held list again: no new command
    assert_eq!(s.tick(&vec![b's']), Tick::Running);
    assert_eq!((s.player.pos_x, s.player.pos_y), (3, 4));
    // a release, then the same key moves again
    assert_eq!(s.tick(&Vec::new()), Tick::Running);
    assert_eq!((s.player.pos_x, s.player.pos_y), (3, 4));
    assert_eq!(s.tick(&vec![b's']), Tick::Running);
    assert_eq!((s.player.pos_x, s.player.pos_y), (3, 5));
}

#[test]
fn non_directional_key_is_observed_but_ignored() {
    let mut s = state_with(new_game(5, 5), vec![(3, 3)]);
    assert_eq!(s.tick(&vec![b's']), Tick::Running);
    assert_eq!((s.player.pos_x, s.player.pos_y), (3, 4));
    // a non-directional key moves nothing, but it is observed
    assert_eq!(s.tick(&vec![b'x']), Tick::Running);
    assert_eq!((s.player.pos_x, s.player.pos_y), (3, 4));
    assert_eq!(s.prev_key, vec![b'x']);
    // so the earlier key counts as a new command again
    assert_eq!(s.tick(&vec![b's']), Tick::Running);
    assert_eq!((s.player.pos_x, s.player.pos_y), (3, 5));
}

#[test]
fn border_moves_are_rejected() {
    let mut s = state_with(new_game(5, 5), vec![(1, 1)]);
    assert_eq!(s.tick(&vec![b'w']), Tick::Running);
    assert_eq!((s.player.pos_x, s.player.pos_y), (1, 1));
    assert_eq!(s.player.body, vec![(1, 1)]);
    assert_eq!(s.tick(&vec![b'a']), Tick::Running);
    assert_eq!((s.player.pos_x, s.player.pos_y), (1, 1));
    // the grid is untouched: the spawn cell stays marked, no cell empties
    assert_eq!(s.game.at((1, 1)), Cell::Occupied);
    assert_eq!(s.game.at((0, 1)), Cell::Border);
}

#[test]
fn eating_grows_by_one() {
    let mut game = new_game(5, 5);
    game.mark((3, 4), Cell::Food);
    let mut s = state_with(game, vec![(3, 3)]);
    let r = s.tick(&vec![b's']);
    assert_eq!(r, Tick::Running);
    assert_eq!((s.player.pos_x, s.player.pos_y), (3, 4));
    assert_eq!(s.player.body, vec![(3, 4), (3, 3)]);
    // the vacated tail was retained, not emptied, and the eaten cell is
    // now drawn as body
    assert_eq!(s.game.at((3, 3)), Cell::Occupied);
    assert_eq!(s.game.at((3, 4)), Cell::Occupied);
    // one fresh food was placed; it shows unless it landed under the body
    assert!(food_count(&s.game) <= 1);
}

#[test]
fn plain_move_keeps_length_and_empties_tail() {
    let mut game = new_game(5, 5);
    game.mark((5, 5), Cell::Food);
    let mut s = state_with(game, vec![(3, 3), (3, 2), (2, 2)]);
    let r = s.tick(&vec![b'd']);
    assert_eq!(r, Tick::Running);
    assert_eq!(s.player.body, vec![(4, 3), (3, 3), (3, 2)]);
    assert_eq!(s.player.body.len(), 3);
    assert_eq!(s.game.at((2, 2)), Cell::Empty);
    assert_eq!(s.game.at((4, 3)), Cell::Occupied);
    assert_eq!(s.game.at((3, 3)), Cell::Occupied);
    assert_eq!(s.game.at((3, 2)), Cell::Occupied);
    assert_eq!(food_count(&s.game), 1);
}

#[test]
fn self_collision_loses() {
    let mut s = state_with(
        new_game(5, 5),
        vec![(2, 2), (2, 3), (3, 3), (3, 2)],
    );
    let r = s.tick(&vec![b's']);
    assert_eq!(r, Tick::Over(End::Lose));
    assert_eq!((s.player.pos_x, s.player.pos_y), (2, 3));
}

#[test]
fn moving_onto_the_vacating_tail_continues() {
    let mut s = state_with(
        new_game(5, 5),
        vec![(2, 2), (3, 2), (3, 3), (2, 3)],
    );
    // down onto (2, 3): the tail vacates that very cell this tick
    let r = s.tick(&vec![b's']);
    assert_eq!(r, Tick::Running);
    assert_eq!(s.player.body, vec![(2, 3), (2, 2), (3, 2), (3, 3)]);
}

#[test]
fn food_stays_unique_through_play() {
    let mut s = GameState::new(4, 4);
    let keys = [b's', b'd', b'w', b'a'];
    for i in 0..40 {
        let r = s.tick(&vec![keys[i % 4]]);
        assert!(food_count(&s.game) <= 1);
        if let Tick::Over(_) = r {
            break;
        }
        s.tick(&Vec::new());
    }
}

#[test]
fn filling_the_grid_wins() {
    // a minimal 3x3 playable area: the body occupies eight cells and the
    // ninth holds the food; eating it fills the grid
    let mut game = new_game(3, 3);
    game.mark((3, 3), Cell::Food);
    let body = vec![
        (3, 2),
        (2, 2),
        (1, 2),
        (1, 1),
        (2, 1),
        (3, 1),
        (1, 3),
        (2, 3),
    ];
    let mut s = state_with(game, body);
    let r = s.tick(&vec![b's']);
    assert_eq!(r, Tick::Over(End::Win));
    assert_eq!(s.player.body.len(), 9);
}
