use snake::{new_player, Player};

fn at(x: usize, y: usize) -> Player {
    Player {
        max_x: 6,
        max_y: 6,
        pos_x: x,
        pos_y: y,
        body: vec![(x, y)],
    }
}

#[test]
fn spawn_strictly_inside() {
    for _ in 0..50 {
        let p = new_player((6, 8));
        assert!(1 <= p.pos_x && p.pos_x < 6);
        assert!(1 <= p.pos_y && p.pos_y < 8);
        assert_eq!(p.body, vec![(p.pos_x, p.pos_y)]);
        assert_eq!(p.max_x, 6);
        assert_eq!(p.max_y, 8);
    }
}

#[test]
fn head_and_tail() {
    let mut p = at(3, 3);
    p.body = vec![(3, 3), (3, 4), (2, 4)];
    assert_eq!(p.head(), (3, 3));
    assert_eq!(p.tail(), (2, 4));
}

#[test]
fn directional_steps() {
    let mut p = at(3, 3);
    p.up();
    assert_eq!((p.pos_x, p.pos_y), (3, 2));
    p.down();
    p.down();
    assert_eq!((p.pos_x, p.pos_y), (3, 4));
    p.left();
    assert_eq!((p.pos_x, p.pos_y), (2, 4));
    p.right();
    p.right();
    assert_eq!((p.pos_x, p.pos_y), (4, 4));
}

#[test]
fn legality_is_the_strict_interior() {
    let p = at(1, 1);
    assert!(!p.can_up(0));
    assert!(p.can_up(1));
    assert!(p.can_down(5));
    assert!(!p.can_down(6));
    assert!(!p.can_left(0));
    assert!(p.can_left(1));
    assert!(p.can_right(5));
    assert!(!p.can_right(6));
}

#[test]
fn update_commits_the_step() {
    let mut p = at(3, 3);
    p.body = vec![(3, 4), (3, 5), (2, 5)];
    p.update();
    assert_eq!(p.body, vec![(3, 3), (3, 4), (3, 5)]);
}

#[test]
fn grow_restores_the_vacated_tail() {
    let mut p = at(3, 3);
    p.body = vec![(3, 4), (3, 5)];
    p.update();
    p.grow((2, 5));
    assert_eq!(p.body, vec![(3, 3), (3, 4), (2, 5)]);
}
