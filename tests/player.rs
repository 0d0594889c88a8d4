use tictactoe::game::{Board, State};
use tictactoe::player::get_pos;
use tictactoe::update::{GameCell, Opponent};

const X: GameCell = GameCell::Cross;
const O: GameCell = GameCell::Circle;
const E: GameCell = GameCell::Empty;

#[test]
fn test_add() {
    let board = Board::new();
    let mov = get_pos(Opponent::Random, &board, &GameCell::Cross);
    assert_eq!(true, board.available_moves().contains(&mov.unwrap()));
}

#[test]
fn player_test_minimax() {
    let mut board = Board::new();
    let mut cell = GameCell::Cross;
    println!("{:?}", board.cells);
    let mut i = 0;
    loop {
        assert_eq!(State::Empty, board.get_state());
        println!("{:?}", board.cells);
        let mov = get_pos(Opponent::Minimax, &board, &cell).unwrap();
        assert_eq!(true, board.available_moves().contains(&mov));
        let _ = board.set_cell(mov, cell);
        if board.get_state() != State::Empty {
            break;
        }
        cell = cell.opposite();
        i += 1;
        if i == 9 {
            break;
        }
    }
}

#[test]
fn people_do_not_play_by_themselves() {
    let board = Board::new();
    assert_eq!(
        get_pos(Opponent::Human, &board, &GameCell::Cross),
        Err("Player is not allowed to play".to_string())
    );
    assert_eq!(
        get_pos(Opponent::Online, &board, &GameCell::Cross),
        Err("Player is not allowed to play".to_string())
    );
}

#[test]
fn a_full_board_has_no_move() {
    let board = Board { cells: vec![vec![X, O, X], vec![X, O, O], vec![O, X, X]] };
    assert_eq!(get_pos(Opponent::Random, &board, &X), Err("No available moves".to_string()));
    assert_eq!(get_pos(Opponent::Minimax, &board, &X), Err("No available moves".to_string()));
}

#[test]
fn minimax_takes_the_corner_first() {
    let board = Board::new();
    let p = get_pos(Opponent::Minimax, &board, &GameCell::Cross).unwrap();
    assert_eq!((p.x, p.y), (0, 0));
}

#[test]
fn random_picks_the_only_free_cell() {
    let board = Board { cells: vec![vec![X, O, X], vec![X, E, O], vec![O, X, O]] };
    for _ in 0..20 {
        let p = get_pos(Opponent::Random, &board, &X).unwrap();
        assert_eq!((p.x, p.y), (1, 1));
    }
}
