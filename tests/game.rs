use tictactoe::game::{Board, Game, GameState, Player, State};
use tictactoe::update::{GameCell, Move, Opponent, Position, Score};

#[test]
fn game_test_up() {
    let mut game = Game::new(Opponent::Human);
    game.current_position = Position { x: 0, y: 1 };
    game.update(Move::Up).unwrap();
    assert_eq!(game.current_position, Position { x: 0, y: 0 });
}

#[test]
fn game_test_down() {
    let mut game = Game::new(Opponent::Human);
    game.current_position = Position { x: 0, y: 1 };
    game.update(Move::Down).unwrap();
    assert_eq!(game.current_position, Position { x: 0, y: 2 });
}

#[test]
fn game_test_left() {
    let mut game = Game::new(Opponent::Human);
    game.current_position = Position { x: 1, y: 0 };
    game.update(Move::Left).unwrap();
    assert_eq!(game.current_position, Position { x: 0, y: 0 });
}

#[test]
fn game_test_right() {
    let mut game = Game::new(Opponent::Human);
    game.current_position = Position { x: 1, y: 0 };
    game.update(Move::Right).unwrap();
    assert_eq!(game.current_position, Position { x: 2, y: 0 });
}

#[test]
fn game_test_place() {
    let mut game = Game::new(Opponent::Human);
    game.current_position = Position { x: 0, y: 0 };
    assert_eq!(game.current_player, Player::Player1);
    game.place().unwrap();
    assert_eq!(game.board.get_cell(Position { x: 0, y: 0 }), Some(&GameCell::Cross));
    assert_eq!(game.current_player, Player::Player2);
    assert_eq!(game.current_position, Position { x: 0, y: 0 });
    println!("{:?}", game.board.cells);

    game.update(Move::Right).unwrap();
    game.place().unwrap();
    println!("{:?}", game.board.cells);
    assert_eq!(game.board.get_state(), State::Empty);
    assert_eq!(game.current_player, Player::Player1);
    assert_eq!(game.current_position, Position { x: 1, y: 0 });
    assert_eq!(game.board.get_cell(Position { x: 1, y: 0 }), Some(&GameCell::Circle));
}

#[test]
fn game_test_minimax() {
    let mut game = Game::new(Opponent::Minimax);
    game.current_position = Position { x: 0, y: 0 };
    game.place().unwrap();
    assert_eq!(game.board.get_cell(Position { x: 0, y: 0 }), Some(&GameCell::Cross));
    assert_eq!(game.current_player, Player::Player1);
    assert_eq!(game.current_position, Position { x: 0, y: 0 });
}

#[test]
fn game_test_random() {
    let mut game = Game::new(Opponent::Random);
    game.current_position = Position { x: 0, y: 0 };
    game.place().unwrap();
    assert_eq!(game.board.get_cell(Position { x: 0, y: 0 }), Some(&GameCell::Cross));
    assert_eq!(game.current_player, Player::Player1);
    assert_eq!(game.current_position, Position { x: 0, y: 0 });
    assert_eq!(game.board.moves(), 2);
    assert_eq!(game.board.get_state(), State::Empty)
}

#[test]
fn game_test_available_moves() {
    let mut game = Game::new(Opponent::Human);
    game.current_position = Position { x: 0, y: 0 };
    game.board.cells = vec![
        vec![GameCell::Cross, GameCell::Empty, GameCell::Empty],
        vec![GameCell::Cross, GameCell::Empty, GameCell::Empty],
        vec![GameCell::Cross, GameCell::Empty, GameCell::Empty],
    ];
    assert_eq!(game.board.moves(), 3);
    assert_eq!(game.board.available_moves().contains(&Position { x: 1, y: 0 }), true);
    assert_eq!(game.board.available_moves().contains(&Position { x: 1, y: 1 }), true);
    assert_eq!(game.board.available_moves().contains(&Position { x: 1, y: 2 }), true);
    assert_eq!(game.board.available_moves().contains(&Position { x: 2, y: 0 }), true);
    assert_eq!(game.board.available_moves().contains(&Position { x: 2, y: 1 }), true);
    assert_eq!(game.board.available_moves().contains(&Position { x: 2, y: 2 }), true);
    assert_eq!(game.board.available_moves().contains(&Position { x: 0, y: 1 }), false);
    assert_eq!(game.board.available_moves().contains(&Position { x: 0, y: 0 }), false);
    assert_eq!(game.board.available_moves().contains(&Position { x: 0, y: 2 }), false);
}

const X: GameCell = GameCell::Cross;
const O: GameCell = GameCell::Circle;
const E: GameCell = GameCell::Empty;

fn board_of(rows: [[GameCell; 3]; 3]) -> Board {
    Board { cells: rows.iter().map(|r| r.to_vec()).collect() }
}

#[test]
fn available_moves_in_reading_order() {
    let board = board_of([[X, E, O], [E, X, E], [O, E, E]]);
    assert_eq!(
        board.available_moves(),
        vec![
            Position { x: 1, y: 0 },
            Position { x: 0, y: 1 },
            Position { x: 2, y: 1 },
            Position { x: 1, y: 2 },
            Position { x: 2, y: 2 },
        ]
    );
    assert_eq!(board.moves(), 4);
}

#[test]
fn board_states() {
    assert_eq!(Board::new().get_state(), State::Empty);
    assert_eq!(board_of([[O, O, O], [X, X, E], [E, E, E]]).get_state(), State::Win(GameCell::Circle));
    assert_eq!(board_of([[X, O, E], [X, O, E], [X, E, E]]).get_state(), State::Win(GameCell::Cross));
    assert_eq!(board_of([[X, O, E], [O, X, E], [E, E, X]]).get_state(), State::Win(GameCell::Cross));
    assert_eq!(board_of([[X, X, O], [E, O, E], [O, E, E]]).get_state(), State::Win(GameCell::Circle));
    assert_eq!(board_of([[X, O, X], [X, O, O], [O, X, X]]).get_state(), State::Draw);
    // two full rows at once count as none; the column decides
    assert_eq!(board_of([[X, X, X], [X, X, X], [X, O, O]]).get_state(), State::Win(GameCell::Cross));
}

#[test]
fn set_cell_refuses_a_mark() {
    let mut board = Board::new();
    assert_eq!(board.set_cell(Position { x: 1, y: 1 }, GameCell::Cross), Ok(()));
    assert_eq!(
        board.set_cell(Position { x: 1, y: 1 }, GameCell::Circle),
        Err("Cell is not empty".to_string())
    );
    assert_eq!(board.set_cell(Position { x: 3, y: 0 }, GameCell::Circle), Err("Cell is not empty".to_string()));
    assert_eq!(board.get_cell(Position { x: 1, y: 1 }), Some(&GameCell::Cross));
    assert_eq!(board.get_cell(Position { x: 0, y: 3 }), None);
    board.set_cell_force(Position { x: 1, y: 1 }, GameCell::Empty);
    assert_eq!(board.get_cell(Position { x: 1, y: 1 }), Some(&GameCell::Empty));
}

#[test]
fn cursor_stays_on_the_board() {
    let mut game = Game::new(Opponent::Human);
    assert_eq!(game.update(Move::Up), Err("Cannot move up".to_string()));
    assert_eq!(game.update(Move::Left), Err("Cannot move left".to_string()));
    game.current_position = Position { x: 2, y: 2 };
    assert_eq!(game.update(Move::Down), Err("Cannot move down".to_string()));
    assert_eq!(game.update(Move::Right), Err("Cannot move down".to_string()));
    assert_eq!(game.current_position, Position { x: 2, y: 2 });
}

#[test]
fn place_refusals_set_the_warning() {
    let mut game = Game::new(Opponent::Human);
    game.place().unwrap();
    game.current_player = Player::Player1;
    assert_eq!(game.place(), Err("This cell is already taken!".to_string()));
    assert_eq!(game.get_warning_message(), Some("This cell is already taken!".to_string()));
    game.current_position = Position { x: 5, y: 0 };
    assert_eq!(game.place(), Err("This cell is out of bounds!".to_string()));
    assert_eq!(game.get_warning_message(), Some("This cell is out of bounds!".to_string()));
    game.current_position = Position { x: 1, y: 0 };
    game.place().unwrap();
    assert_eq!(game.get_warning_message(), None);
}

#[test]
fn a_full_line_ends_the_game() {
    let mut game = Game::new(Opponent::Human);
    for (x, y) in [(0, 0), (0, 1), (1, 0), (1, 1), (2, 0)] {
        game.current_position = Position { x, y };
        game.update(Move::Place).unwrap();
    }
    assert!(game.is_over());
    assert_eq!(game.winner, Some(Player::Player1));
    assert_eq!(game.get_score(), Score { player1: 1, player2: 0 });
    match game.get_state() {
        None => {}
        Some(_) => panic!("the change was already reported"),
    }
}

#[test]
fn place_at_keeps_the_turn() {
    let mut game = Game::new(Opponent::Human);
    let state = game.update(Move::PlaceAt(Position { x: 2, y: 1 })).unwrap();
    assert_eq!(game.current_player, Player::Player1);
    match state {
        GameState::GameInProgress(cells, player, pos) => {
            assert_eq!(cells[1][2], GameCell::Cross);
            assert_eq!(player, Player::Player1);
            assert_eq!(pos, Position { x: 0, y: 0 });
        }
        GameState::GameOver(..) => panic!("the game goes on"),
    }
    assert_eq!(
        game.update(Move::PlaceAt(Position { x: 2, y: 1 })),
        Err("Cell is not empty".to_string())
    );
}

#[test]
fn get_state_reports_a_change_once() {
    let mut game = Game::new(Opponent::Human);
    assert!(game.get_state().is_some());
    assert!(game.get_state().is_none());
}

#[test]
fn small_values() {
    assert_eq!(Player::Player1.next(), Player::Player2);
    assert_eq!(Player::Player2.get_cell(), GameCell::Circle);
    assert_eq!(GameCell::Cross.opposite(), GameCell::Circle);
    assert_eq!(GameCell::Empty.opposite(), GameCell::Empty);
    assert_eq!(GameCell::Empty.to_text(Some((2, 1))), "L");
    assert_eq!(GameCell::Cross.to_text(None), "X");
    assert_eq!(GameCell::Circle.to_text(Some((0, 0))), "O");
    assert_eq!(Position { x: 2, y: 1 }.to_tuple(), (1, 2));
    assert_eq!(Position::default(), Position { x: 0, y: 0 });
    assert_eq!(Score::new(), Score::default());
    assert_eq!(Game::new(Opponent::Human).get_score(), Score { player1: 0, player2: 0 });
}

#[test]
fn cursor_keys_move_until_the_game_is_over() {
    let mut game = Game::new(Opponent::Human);
    game.on_up();
    assert_eq!(game.current_position, Position { x: 0, y: 0 });
    game.on_down();
    game.on_right();
    game.on_right();
    game.on_right();
    assert_eq!(game.current_position, Position { x: 2, y: 1 });
    game.on_left();
    assert_eq!(game.current_position, Position { x: 1, y: 1 });
    assert_eq!(game.get_warning_message(), None);
    game.should_continue = false;
    game.on_up();
    assert_eq!(game.current_position, Position { x: 1, y: 1 });
    assert_eq!(game.get_warning_message(), Some("Game is over!".to_string()));
}

#[test]
fn online_opponent_does_not_reply_here() {
    let mut game = Game::new(Opponent::Online);
    assert_eq!(game.place(), Err("Player is not allowed to play".to_string()));
    assert_eq!(game.current_player, Player::Player2);
    assert_eq!(game.board.moves(), 1);
}
