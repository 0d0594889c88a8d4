use tictactoe::app::{App, AppState, Menu};
use tictactoe::game::{GameState, Player};
use tictactoe::update::{Action, Move, Opponent, Position, Score};

#[test]
fn app_test_start_menu() {
    let mut app = App::new();
    assert_eq!(app.state, AppState::Menu(Menu::Start, 0));
    app.next_row_menu(true);
    assert_eq!(app.state, AppState::Menu(Menu::Start, 1));
    app.next_row_menu(true);
    assert_eq!(app.state, AppState::Menu(Menu::Start, 2));
    app.next_row_menu(true);
    assert_eq!(app.state, AppState::Menu(Menu::Start, 0));
}

#[test]
fn menu_rows_wrap_upwards() {
    let mut app = App::new();
    app.update(Action::Move(Move::Up));
    assert_eq!(app.state, AppState::Menu(Menu::Start, 2));
    app.update(Action::Move(Move::Down));
    assert_eq!(app.state, AppState::Menu(Menu::Start, 0));
}

#[test]
fn starting_and_winning_a_game() {
    let mut app = App::new();
    app.update(Action::Move(Move::Place));
    assert_eq!(app.game.opponent, Opponent::Human);
    match &app.state {
        AppState::Playing(GameState::GameInProgress(_, player, pos)) => {
            assert_eq!(*player, Player::Player1);
            assert_eq!(*pos, Position { x: 0, y: 0 });
        }
        other => panic!("expected a game, got {:?}", other),
    }
    let mut app = App::new();
    app.update(Action::Select(0));
    for (x, y) in [(0, 0), (0, 1), (1, 0), (1, 1)] {
        app.game.current_position = Position { x, y };
        app.update(Action::Move(Move::Place));
    }
    app.game.current_position = Position { x: 2, y: 0 };
    app.update(Action::Move(Move::Place));
    assert_eq!(app.score, Score { player1: 1, player2: 0 });
    match &app.state {
        AppState::Playing(GameState::GameOver(winner, _)) => assert_eq!(*winner, Some(Player::Player1)),
        other => panic!("expected a finished game, got {:?}", other),
    }
    app.update(Action::Move(Move::Up));
    assert_eq!(app.warning_message, Some("Cannot move in this state".to_string()));
}

#[test]
fn refused_move_becomes_the_warning() {
    let mut app = App::new();
    app.update(Action::Select(0));
    app.update(Action::Move(Move::Up));
    assert_eq!(app.warning_message, Some("Cannot move up".to_string()));
}

#[test]
fn game_menu_goes_back_to_the_game() {
    let mut app = App::new();
    app.update(Action::Select(2));
    assert_eq!(app.game.opponent, Opponent::Minimax);
    app.update(Action::ToggleMenu);
    assert_eq!(app.state, AppState::Menu(Menu::Game, 0));
    app.update(Action::Select(1));
    match &app.state {
        AppState::Playing(_) => {}
        other => panic!("expected the game again, got {:?}", other),
    }
    app.update(Action::ToggleMenu);
    app.update(Action::Select(5));
    assert_eq!(app.warning_message, Some("Invalid menu row".to_string()));
    app.update(Action::Select(0));
    assert_eq!(app.state, AppState::Quit);
    app.update(Action::Select(0));
    assert_eq!(app.warning_message, Some("Cannot select in this state".to_string()));
}

#[test]
fn reset_starts_again_against_the_same_opponent() {
    let mut app = App::new();
    app.update(Action::Select(1));
    app.game.current_position = Position { x: 1, y: 1 };
    app.update(Action::Move(Move::Place));
    assert_eq!(app.game.board.moves(), 2);
    app.update(Action::Reset);
    assert_eq!(app.game.opponent, Opponent::Random);
    assert_eq!(app.game.board.moves(), 0);
    app.update(Action::Quit);
    assert_eq!(app.state, AppState::Quit);
}
