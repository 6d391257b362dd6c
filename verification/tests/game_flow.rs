use dasnake::cell::Cell;
use dasnake::cell::Direction;
use dasnake::game::Game;
use dasnake::game::Input;
use dasnake::game::State;
use dasnake::game::TickAction;
use dasnake::snake::Snake;

fn held(up: bool, down: bool, left: bool, right: bool) -> Input {
    Input { up, down, left, right, confirm: false, boost: false }
}

#[test]
fn new_game_derives_grid_from_pixels() {
    let g = Game::new(Cell { x: 640, y: 320 }, 20, 80);
    assert_eq!(g.canvas_size, Cell { x: 32, y: 16 });
    assert_eq!(g.tile_size, 20);
    assert_eq!(g.speed_ms, 80);
    assert_eq!(g.state, State::Menu);
    assert!(g.apples.is_empty());
}

#[test]
fn spawn_avoids_head_trail_and_other_apples() {
    let mut g = Game::new(Cell { x: 80, y: 80 }, 20, 80);
    let s = Snake {
        pos: Cell { x: 1, y: 1 },
        last_pos: vec![Cell { x: 0, y: 1 }, Cell { x: 0, y: 0 }],
        len: 3,
        next: Direction::Right,
        last_dir: Direction::Right,
        super_speed: false,
    };
    for _ in 0..10 {
        g.spawn_apple(&s);
    }
    assert_eq!(g.apples.len(), 10);
    for (i, a) in g.apples.iter().enumerate() {
        assert!(0 <= a.x && a.x < 4 && 0 <= a.y && a.y < 4);
        assert_ne!(*a, s.pos);
        assert!(!s.last_pos.contains(a));
        for b in g.apples[i + 1..].iter() {
            assert_ne!(*a, *b);
        }
    }
}

#[test]
fn spawn_on_two_cell_board_takes_the_only_free_cell() {
    let mut g = Game::new(Cell { x: 40, y: 20 }, 20, 80);
    let s = Snake::new(Cell { x: 0, y: 0 });
    g.spawn_apple(&s);
    assert_eq!(g.apples, vec![Cell { x: 1, y: 0 }]);
}

#[test]
fn spawn_on_overfull_board_declares_win_without_placing() {
    let mut g = Game::new(Cell { x: 40, y: 20 }, 20, 80);
    g.state = State::Playing;
    let s = Snake {
        pos: Cell { x: 0, y: 0 },
        last_pos: vec![Cell { x: 1, y: 0 }, Cell { x: 0, y: 0 }],
        len: 3,
        next: Direction::Right,
        last_dir: Direction::Right,
        super_speed: false,
    };
    g.spawn_apple(&s);
    assert_eq!(g.state, State::Win);
    assert!(g.apples.is_empty());
}

#[test]
fn restart_resets_snake_and_places_one_apple() {
    let mut g = Game::new(Cell { x: 80, y: 80 }, 20, 80);
    g.state = State::Lose;
    let mut s = Snake {
        pos: Cell { x: 2, y: 2 },
        last_pos: vec![Cell { x: 1, y: 2 }, Cell { x: 0, y: 2 }, Cell { x: 0, y: 1 }],
        len: 7,
        next: Direction::Down,
        last_dir: Direction::Down,
        super_speed: false,
    };
    g.restart(&mut s);
    assert_eq!(g.state, State::Playing);
    assert_eq!(s.len, 3);
    assert!(s.last_pos.is_empty());
    assert_eq!(s.pos, Cell { x: 0, y: 0 });
    assert_eq!(s.next, Direction::Right);
    assert_eq!(s.last_dir, Direction::Right);
    assert_eq!(g.apples.len(), 1);
    assert_ne!(g.apples[0], Cell { x: 2, y: 2 });
    assert!(!vec![Cell { x: 1, y: 2 }, Cell { x: 0, y: 2 }, Cell { x: 0, y: 1 }]
        .contains(&g.apples[0]));
}

#[test]
fn menu_waits_for_confirm() {
    let mut g = Game::new(Cell { x: 80, y: 80 }, 20, 80);
    let mut s = Snake::new(Cell { x: 0, y: 0 });
    let action = g.tick(&mut s, 5000, Input::idle());
    assert_eq!(action, TickAction::Idle);
    assert_eq!(g.state, State::Menu);

    let begin = Input { confirm: true, ..Input::idle() };
    let action = g.tick(&mut s, 5000, begin);
    assert_eq!(action, TickAction::Idle);
    assert_eq!(g.state, State::Playing);
}

#[test]
fn tick_before_the_interval_only_steers() {
    let mut g = Game::new(Cell { x: 80, y: 80 }, 20, 80);
    g.state = State::Playing;
    g.apples.push(Cell { x: 3, y: 3 });
    let mut s = Snake::new(Cell { x: 0, y: 0 });
    let action = g.tick(&mut s, 10, held(false, true, false, false));
    assert_eq!(action, TickAction::Idle);
    assert_eq!(s.pos, Cell { x: 0, y: 0 });
    assert!(s.last_pos.is_empty());
    assert_eq!(s.next, Direction::Down);
    assert_eq!(s.last_dir, Direction::Down);
}

#[test]
fn boost_halves_the_interval() {
    let mut g = Game::new(Cell { x: 80, y: 80 }, 20, 80);
    g.state = State::Playing;
    g.apples.push(Cell { x: 3, y: 3 });
    let mut s = Snake::new(Cell { x: 0, y: 0 });

    let action = g.tick(&mut s, 40, Input::idle());
    assert_eq!(action, TickAction::Idle);
    assert_eq!(s.pos, Cell { x: 0, y: 0 });

    s.super_speed = true;
    let boosting = Input { boost: true, ..Input::idle() };
    let action = g.tick(&mut s, 40, boosting);
    assert_eq!(action, TickAction::Moved);
    assert_eq!(s.pos, Cell { x: 1, y: 0 });
}

#[test]
fn eating_an_apple_grows_and_respawns() {
    let mut g = Game::new(Cell { x: 80, y: 80 }, 20, 80);
    g.state = State::Playing;
    g.apples.push(Cell { x: 1, y: 0 });
    let mut s = Snake::new(Cell { x: 0, y: 0 });

    let action = g.tick(&mut s, 1000, Input::idle());
    assert_eq!(action, TickAction::Moved);
    assert_eq!(s.pos, Cell { x: 1, y: 0 });
    assert_eq!(s.len, 4);
    assert_eq!(s.last_pos, vec![Cell { x: 0, y: 0 }]);
    assert_eq!(g.state, State::Playing);
    assert_eq!(g.apples.len(), 1);
    assert_ne!(g.apples[0], Cell { x: 1, y: 0 });
    assert_ne!(g.apples[0], Cell { x: 0, y: 0 });
}

#[test]
fn colliding_tick_flips_to_lose_and_freezes_the_snake() {
    let mut g = Game::new(Cell { x: 80, y: 80 }, 20, 80);
    g.state = State::Playing;
    g.apples.push(Cell { x: 3, y: 3 });
    let mut s = Snake {
        pos: Cell { x: 1, y: 0 },
        last_pos: vec![Cell { x: 2, y: 0 }, Cell { x: 2, y: 1 }, Cell { x: 1, y: 1 }],
        len: 3,
        next: Direction::Right,
        last_dir: Direction::Right,
        super_speed: false,
    };
    let action = g.tick(&mut s, 1000, Input::idle());
    assert_eq!(action, TickAction::Idle);
    assert_eq!(g.state, State::Lose);
    assert_eq!(s.pos, Cell { x: 1, y: 0 });
    assert_eq!(s.len, 3);
}

#[test]
fn lose_restarts_after_delay_or_confirm() {
    let mut g = Game::new(Cell { x: 80, y: 80 }, 20, 80);
    g.state = State::Lose;
    let mut s = Snake::new(Cell { x: 2, y: 2 });

    let action = g.tick(&mut s, 400, Input::idle());
    assert_eq!(action, TickAction::Idle);
    assert_eq!(g.state, State::Lose);

    let action = g.tick(&mut s, 1000, Input::idle());
    assert_eq!(action, TickAction::Idle);
    assert_eq!(g.state, State::Playing);
    assert_eq!(s.pos, Cell { x: 0, y: 0 });
    assert_eq!(s.len, 3);
    assert!(s.last_pos.is_empty());
    assert_eq!(g.apples.len(), 1);
}

#[test]
fn phase_messages_are_preserved_verbatim() {
    assert_eq!(State::Menu.message(), Some("Press Space To Begin..."));
    assert_eq!(State::Playing.message(), None);
    assert_eq!(State::Lose.message(), Some("Sorry, you failed. RESETTING."));
    assert_eq!(State::Win.message(), Some("YOU DID IT? WHY? GET HELP"));
}

#[test]
fn win_asks_to_quit_only_after_the_delay() {
    let mut g = Game::new(Cell { x: 80, y: 80 }, 20, 80);
    g.state = State::Win;
    let mut s = Snake::new(Cell { x: 0, y: 0 });

    let action = g.tick(&mut s, 999, Input::idle());
    assert_eq!(action, TickAction::Idle);
    assert_eq!(g.state, State::Win);

    let action = g.tick(&mut s, 1000, Input::idle());
    assert_eq!(action, TickAction::Quit);
    assert_eq!(g.state, State::Win);
}
