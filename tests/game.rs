use tetris::field::{Block, Coord, GameError, PLAYGROUND_HEIGHT, PLAYGROUND_WIDTH};
use tetris::game::Game;
use tetris::shape::{Color, Shape};
use tetris::tetromino::Tetromino;

fn empty() -> Block {
    Block { value: 0, color: None }
}

/// A game whose falling and preview pieces are the given ones.
fn game_with(shape: Shape, rotation: u16) -> Game {
    let mut game = Game::new();
    game.current_tetromino = Tetromino::spawn(game.grid, shape, rotation);
    game.next_tetromino = Tetromino::spawn(game.grid, Shape::T, 114);
    game
}

fn count_locked(game: &Game) -> usize {
    game.grid.iter().flatten().filter(|b| b.value != 0).count()
}

#[test]
fn create_grid() {
    let grid = Game::create_grid();
    assert_eq!(grid.len(), PLAYGROUND_HEIGHT as usize);
    for i in 0..PLAYGROUND_HEIGHT {
        assert_eq!(grid[i as usize].len(), PLAYGROUND_WIDTH as usize);
    }
}

#[test]
fn create_empty_row() {
    let row = Game::create_empty_row();
    assert_eq!(row.len(), PLAYGROUND_WIDTH as usize);
    for i in 0..PLAYGROUND_WIDTH {
        assert_eq!(
            row[i as usize],
            Block {
                value: 0,
                color: None
            }
        );
    }
}

#[test]
fn clear_rows() {
    let mut game = Game::new();
    for row in 0..PLAYGROUND_HEIGHT {
        for column in 0..PLAYGROUND_WIDTH {
            if row > ((PLAYGROUND_HEIGHT / 4) * 3) - 1 {
                game.grid[row as usize][column as usize] = Block::new(1, None);
            }
        }
    }

    let row_above_last_quarter = (((PLAYGROUND_HEIGHT / 4) * 3) - 1) as usize;
    for column in 4..7 {
        game.grid[row_above_last_quarter][column] = Block::new(1, None);
    }

    game.clear_rows();

    for column in 4..7 {
        assert_eq!(
            game.grid[PLAYGROUND_HEIGHT as usize - 1][column],
            Block::new(1, None)
        );
    }
}

#[test]
fn clear_rows_scores_each_row() {
    let mut game = Game::new();
    for row in 12..16 {
        game.grid[row] = [Block::new(1, Some(Color::Red)); 10];
    }
    game.grid[11][4] = Block::new(1, Some(Color::Blue));
    game.clear_rows();
    assert_eq!(game.score, 40);
    assert_eq!(game.grid[15][4], Block::new(1, Some(Color::Blue)));
    assert_eq!(count_locked(&game), 1);
    assert_eq!(game.current_tetromino.grid, game.grid);
}

#[test]
fn clearing_one_full_row_shifts_rows_above() {
    let mut game = Game::new();
    for c in 0..10 {
        game.grid[9][c] = Block::new(1, Some(Color::Green));
    }
    game.grid[3][0] = Block::new(1, Some(Color::Red));
    game.grid[8][5] = Block::new(1, Some(Color::Cyan));
    game.grid[12][2] = Block::new(1, Some(Color::White));
    game.grid[15][9] = Block::new(1, Some(Color::Yellow));
    game.score = 7;
    let before = game.grid;
    game.clear_rows();
    assert_eq!(game.score, 17);
    assert_eq!(game.grid[0], Game::create_empty_row());
    for r in 1..=9 {
        assert_eq!(game.grid[r], before[r - 1]);
    }
    for r in 10..16 {
        assert_eq!(game.grid[r], before[r]);
    }
}

#[test]
fn row_that_is_not_full_stays() {
    let mut game = Game::new();
    for c in 0..9 {
        game.grid[15][c] = Block::new(1, Some(Color::Green));
    }
    let before = game.grid;
    game.clear_rows();
    assert_eq!(game.grid, before);
    assert_eq!(game.score, 0);
}

#[test]
fn adjacent_full_rows_are_both_cleared() {
    let mut game = Game::new();
    game.grid[13] = [Block::new(1, Some(Color::Red)); 10];
    game.grid[14] = [Block::new(1, Some(Color::Red)); 10];
    game.grid[12][1] = Block::new(1, Some(Color::Blue));
    game.grid[15][2] = Block::new(1, Some(Color::Cyan));
    game.clear_rows();
    assert_eq!(game.score, 20);
    assert_eq!(game.grid[14][1], Block::new(1, Some(Color::Blue)));
    assert_eq!(game.grid[15][2], Block::new(1, Some(Color::Cyan)));
    assert_eq!(count_locked(&game), 2);
}

#[test]
fn new_game_is_empty() {
    let game = Game::new();
    assert!(game.grid.iter().flatten().all(|b| *b == empty()));
    assert_eq!(game.score, 0);
    assert_eq!(game.counter, 0);
    assert!(!game.paused);
    assert!(!game.game_over);
    assert_eq!(game.current_tetromino.topleft, Coord { y: 0, x: 4 });
    assert_eq!(game.next_tetromino.topleft, Coord { y: 0, x: 4 });
    assert_eq!(game.current_tetromino.grid, game.grid);
    assert_eq!(game.next_tetromino.grid, game.grid);
}

#[test]
fn gravity_every_fifth_tick() {
    let mut game = game_with(Shape::O, 51);
    for tick in 1..5 {
        assert_eq!(game.handle_falling(), Ok(()));
        assert_eq!(game.counter, tick);
        assert_eq!(game.current_tetromino.topleft.y, 0);
    }
    assert_eq!(game.handle_falling(), Ok(()));
    assert_eq!(game.counter, 0);
    assert_eq!(game.current_tetromino.topleft.y, 1);
}

#[test]
fn blocked_piece_is_locked_and_replaced() {
    let mut game = game_with(Shape::O, 51);
    game.current_tetromino.topleft.y = 12;
    for _ in 0..5 {
        assert_eq!(game.handle_falling(), Ok(()));
    }
    assert_eq!(game.grid[15][6], Block::new(1, Some(Color::Blue)));
    assert_eq!(game.grid[15][7], Block::new(1, Some(Color::Blue)));
    assert_eq!(game.grid[14][6], Block::new(1, Some(Color::Blue)));
    assert_eq!(game.grid[14][7], Block::new(1, Some(Color::Blue)));
    assert_eq!(count_locked(&game), 4);
    assert_eq!(game.current_tetromino.shape, Shape::T);
    assert_eq!(game.current_tetromino.current_rotation, 114);
    assert_eq!(game.current_tetromino.grid, game.grid);
    assert_eq!(game.next_tetromino.grid, game.grid);
    assert_eq!(game.next_tetromino.topleft, Coord { y: 0, x: 4 });
}

#[test]
fn blocked_at_spawn_row_ends_the_game() {
    let mut game = game_with(Shape::O, 51);
    game.grid[4] = [Block::new(1, Some(Color::Red)); 10];
    game.current_tetromino.grid = game.grid;
    game.next_tetromino.grid = game.grid;
    for _ in 0..4 {
        assert_eq!(game.handle_falling(), Ok(()));
    }
    assert_eq!(game.handle_falling(), Err(GameError::GameOver));
    assert!(game.game_over);
    let after = game.grid;
    assert_eq!(game.move_left(), Err(GameError::GameOver));
    assert_eq!(game.move_right(), Err(GameError::GameOver));
    assert_eq!(game.soft_drop(), Err(GameError::GameOver));
    assert_eq!(game.hard_drop(), Err(GameError::GameOver));
    assert_eq!(game.rotate_left(), Err(GameError::GameOver));
    assert_eq!(game.rotate_right(), Err(GameError::GameOver));
    assert_eq!(game.advance_tick(), Err(GameError::GameOver));
    assert_eq!(game.handle_falling(), Err(GameError::GameOver));
    assert_eq!(game.grid, after);
    assert_eq!(game.current_tetromino.topleft, Coord { y: 0, x: 4 });
}

#[test]
fn pause_suppresses_gravity() {
    let mut game = game_with(Shape::O, 51);
    for _ in 0..4 {
        assert_eq!(game.handle_falling(), Ok(()));
    }
    game.toggle_pause();
    for _ in 0..10 {
        assert_eq!(game.handle_falling(), Err(GameError::Paused));
    }
    assert_eq!(game.counter, 4);
    assert_eq!(game.current_tetromino.topleft, Coord { y: 0, x: 4 });
    game.toggle_pause();
    assert_eq!(game.handle_falling(), Ok(()));
    assert_eq!(game.counter, 0);
    assert_eq!(game.current_tetromino.topleft, Coord { y: 1, x: 4 });
}

#[test]
fn pause_refuses_commands() {
    let mut game = game_with(Shape::I, 8738);
    game.toggle_pause();
    assert!(game.paused);
    assert_eq!(game.move_left(), Err(GameError::Paused));
    assert_eq!(game.move_right(), Err(GameError::Paused));
    assert_eq!(game.soft_drop(), Err(GameError::Paused));
    assert_eq!(game.hard_drop(), Err(GameError::Paused));
    assert_eq!(game.rotate_left(), Err(GameError::Paused));
    assert_eq!(game.rotate_right(), Err(GameError::Paused));
    for _ in 0..10 {
        assert_eq!(game.advance_tick(), Err(GameError::Paused));
    }
    assert_eq!(game.counter, 0);
    assert_eq!(game.current_tetromino.topleft, Coord { y: 0, x: 4 });
    game.toggle_pause();
    assert!(!game.paused);
    assert_eq!(game.move_left(), Ok(()));
    assert_eq!(game.current_tetromino.topleft, Coord { y: 0, x: 3 });
}

#[test]
fn commands_move_the_piece() {
    let mut game = game_with(Shape::T, 114);
    assert_eq!(game.move_right(), Ok(()));
    assert_eq!(game.current_tetromino.topleft, Coord { y: 0, x: 5 });
    assert_eq!(game.soft_drop(), Ok(()));
    assert_eq!(game.current_tetromino.topleft, Coord { y: 1, x: 5 });
    assert_eq!(game.rotate_right(), Ok(()));
    assert_eq!(game.current_tetromino.current_rotation, 305);
    assert_eq!(game.rotate_left(), Ok(()));
    assert_eq!(game.rotate_left(), Ok(()));
    assert_eq!(game.current_tetromino.current_rotation, 562);
    assert_eq!(game.move_left(), Ok(()));
    assert_eq!(game.current_tetromino.topleft, Coord { y: 1, x: 4 });
}

/// Hard-drops `game`'s falling piece on an empty field, lets it lock, and
/// checks where it rests and what it leaves in the field.
fn drop_and_lock(mut game: Game) {
    let piece = game.current_tetromino;
    let matrix = piece.shape.to_vec(piece.current_rotation);
    let mut cells = 0;
    let mut lowest = 0;
    for r in 0..4 {
        for c in 0..4 {
            if matrix[r][c] != 0 {
                cells += 1;
                lowest = r;
            }
        }
    }
    assert_eq!(game.hard_drop(), Ok(()));
    let rest = PLAYGROUND_HEIGHT - 1 - lowest as i32;
    assert_eq!(game.current_tetromino.topleft, Coord { y: rest, x: 4 });
    for _ in 0..5 {
        assert_eq!(game.advance_tick(), Ok(()));
    }
    assert_eq!(count_locked(&game), cells);
    for r in 0..4 {
        for c in 0..4 {
            if matrix[r][c] != 0 {
                let b = game.grid[rest as usize + r][4 + c];
                assert_eq!(b, Block::new(1, Some(piece.color)));
            }
        }
    }
    assert!(game
        .grid
        .iter()
        .flatten()
        .filter(|b| b.value != 0)
        .all(|b| b.color == Some(piece.color)));
    assert_eq!(game.score, 0);
}

#[test]
fn hard_drop_then_lock() {
    drop_and_lock(Game::new());
    for shape in [
        Shape::O,
        Shape::I,
        Shape::S,
        Shape::Z,
        Shape::J,
        Shape::L,
        Shape::T,
    ] {
        for rotation in shape.get_possible_rotations() {
            drop_and_lock(game_with(shape, rotation));
        }
    }
}

#[test]
fn advance_tick_clears_after_lock() {
    let mut game = game_with(Shape::I, 240);
    for c in 0..10 {
        if !(4..8).contains(&c) {
            game.grid[15][c] = Block::new(1, Some(Color::Red));
        }
    }
    game.grid[14][0] = Block::new(1, Some(Color::Green));
    game.current_tetromino.grid = game.grid;
    assert_eq!(game.hard_drop(), Ok(()));
    assert_eq!(game.current_tetromino.topleft, Coord { y: 13, x: 4 });
    for _ in 0..5 {
        assert_eq!(game.advance_tick(), Ok(()));
    }
    assert_eq!(game.score, 10);
    assert_eq!(count_locked(&game), 1);
    assert_eq!(game.grid[15][0], Block::new(1, Some(Color::Green)));
}
