//! The computer opponents: one that picks a free cell at random and one that
//! searches the game tree with alpha-beta pruning.

use crate::game::{state_of, Board, State};
use crate::grid::{
    available, cell_at, grid_wf, lemma_available_free, lemma_set_at,
    lemma_set_back, lemma_top_left_free,
};
use crate::update::{GameCell, Opponent, Position};
use rand::Rng;
use vstd::prelude::*;

verus! {

/// Relies on rand's `thread_rng` and `Rng::gen_range`: a number drawn
/// uniformly from `0..n`; the range must not be empty.
#[verifier::external_body]
fn random_below(n: usize) -> (r: usize)
    requires
        0 < n,
    ensures
        r < n,
{
    rand::thread_rng().gen_range(0..n)
}

/// The text of the error for an opponent that does not play by itself.
pub open spec fn msg_not_allowed() -> Seq<char> {
    "Player is not allowed to play"@
}

/// The text of the error for a board without a free cell.
pub open spec fn msg_no_moves() -> Seq<char> {
    "No available moves"@
}

/// The value of a finished board for the side that plays `cell`.
pub open spec fn value_of(g: Seq<Seq<GameCell>>, cell: GameCell) -> int {
    match state_of(g) {
        State::Win(c) => if c == cell { 1000 } else { -1000 },
        _ => 0,
    }
}

/// The cell that the opponent chooses for `cell`. Only the computer
/// opponents play, and only where a cell is free; the cell they choose is a
/// free one.
pub fn get_pos(player: Opponent, board: &Board, cell: &GameCell) -> (r: Result<Position, String>)
    requires
        board.wf(),
    ensures
        (player == Opponent::Human || player == Opponent::Online) ==> (r matches Err(e) && e@
            == msg_not_allowed()),
        (player == Opponent::Random || player == Opponent::Minimax) ==> (r is Err <==> available(
            board@,
        ).len() == 0),
        (player == Opponent::Random || player == Opponent::Minimax) && available(board@).len()
            == 0 ==> (r matches Err(e) && e@ == msg_no_moves()),
        r matches Ok(p) ==> cell_at(board@, p) == Some(GameCell::Empty),
        player == Opponent::Minimax && board@[0][0] == GameCell::Empty ==> r == Ok::<
            Position,
            String,
        >(Position { x: 0, y: 0 }),
{
    match player {
        Opponent::Random => random_play(board),
        Opponent::Minimax => minimax_play(board, cell),
        _ => Err("Player is not allowed to play".to_string()),
    }
}

/// A free cell drawn at random.
fn random_play(board: &Board) -> (r: Result<Position, String>)
    requires
        board.wf(),
    ensures
        r is Err <==> available(board@).len() == 0,
        r matches Err(e) ==> e@ == msg_no_moves(),
        r matches Ok(p) ==> available(board@).contains(p),
        r matches Ok(p) ==> cell_at(board@, p) == Some(GameCell::Empty),
{
    let available_moves = board.available_moves();
    if available_moves.len() == 0 {
        return Err("No available moves".to_string());
    }
    let move_index = random_below(available_moves.len());
    proof {
        lemma_available_free(board@);
        assert(available(board@)[move_index as int] == available_moves@[move_index as int]);
    }
    Ok(available_moves[move_index])
}

/// The cell that the game-tree search picks.
fn minimax_play(board: &Board, cell: &GameCell) -> (r: Result<Position, String>)
    requires
        board.wf(),
    ensures
        r is Err <==> available(board@).len() == 0,
        r matches Err(e) ==> e@ == msg_no_moves(),
        r matches Ok(p) ==> cell_at(board@, p) == Some(GameCell::Empty),
        board@[0][0] == GameCell::Empty ==> r == Ok::<Position, String>(Position { x: 0, y: 0 }),
{
    let available_moves = board.available_moves();
    if available_moves.len() == 0 {
        proof {
            if board@[0][0] == GameCell::Empty {
                lemma_top_left_free(board@);
            }
        }
        return Err("No available moves".to_string());
    }
    minimax(board, cell)
}

/// The top-left cell while it is free; otherwise the first free cell of
/// best score.
fn minimax(board: &Board, cell: &GameCell) -> (r: Result<Position, String>)
    requires
        board.wf(),
        available(board@).len() > 0,
    ensures
        r matches Ok(p) && cell_at(board@, p) == Some(GameCell::Empty),
        board@[0][0] == GameCell::Empty ==> r == Ok::<Position, String>(Position { x: 0, y: 0 }),
{
    proof {
        assert(board@[0] == board.cells@[0]@);
    }
    if board.cells[0][0] == GameCell::Empty {
        return Ok(Position { x: 0, y: 0 });
    }
    let moves = board.available_moves();
    proof {
        lemma_available_free(board@);
    }
    let mut best_move: Option<Position> = None;
    let mut best_score: i64 = i64::MIN;
    let mut i: usize = 0;
    while i < moves.len()
        invariant
            board.wf(),
            moves@ == available(board@),
            moves@.len() > 0,
            i <= moves@.len(),
            forall|k: int|
                0 <= k < moves@.len() ==> cell_at(board@, #[trigger] moves@[k]) == Some(
                    GameCell::Empty,
                ),
            i > 0 ==> (best_move matches Some(p) && cell_at(board@, p) == Some(GameCell::Empty)),
            i > 0 ==> best_score > i64::MIN,
            i == 0 ==> best_score == i64::MIN,
        decreases moves@.len() - i,
    {
        let m = moves[i];
        let mut new_board = board.clone();
        proof {
            assert(cell_at(board@, moves@[i as int]) == Some(GameCell::Empty));
        }
        let _ = new_board.set_cell(m, *cell);
        proof {
            lemma_set_at(board@, m, *cell);
        }
        let score = minimax_score(&mut new_board, cell, 3, true, i64::MIN, i64::MAX, 3);
        proof {
            lemma_shift_total(3, 3);
        }
        if score > best_score {
            best_move = Some(m);
            best_score = score;
        }
        i = i + 1;
    }
    match best_move {
        Some(p) => Ok(p),
        None => Ok(Position { x: 0, y: 0 }),
    }
}

/// The value of a finished board for the side that plays `cell`: a win is
/// worth a thousand, a loss minus a thousand, anything else nothing.
fn evaluate(board: &Board, cell: &GameCell) -> (r: i64)
    requires
        board.wf(),
    ensures
        r == value_of(board@, *cell),
{
    match board.get_state() {
        State::Win(c) => {
            if c == *cell {
                1000
            } else {
                -1000
            }
        },
        State::Draw => 0,
        _ => 0,
    }
}

/// How far the values found `depth` plies deep can drift from a win or a
/// loss: each ply shifts a decided value by its distance from the top.
pub open spec fn shift_total(depth: int, max_depth: int) -> int
    decreases depth,
{
    if depth <= 0 {
        0
    } else {
        shift_total(depth - 1, max_depth) + (max_depth - depth)
    }
}

proof fn lemma_shift_total(depth: int, max_depth: int)
    requires
        0 <= depth <= max_depth <= 10,
    ensures
        0 <= shift_total(depth, max_depth) <= 10 * depth,
    decreases depth,
{
    if depth > 0 {
        lemma_shift_total(depth - 1, max_depth);
    }
}

/// The alpha-beta value of `board` searched `depth` plies deep. Each ply
/// tries every free cell and puts it back, so the board comes back as it
/// was. A decided value shrinks by one for each ply it lies below the top.
fn minimax_score(
    board: &mut Board,
    cell: &GameCell,
    depth: i64,
    is_maximizing: bool,
    alpha: i64,
    beta: i64,
    max_depth: i64,
) -> (r: i64)
    requires
        old(board).wf(),
        0 <= depth <= max_depth <= 10,
    ensures
        final(board)@ == old(board)@,
        -1000 - shift_total(depth as int, max_depth as int) <= r <= 1000 + shift_total(
            depth as int,
            max_depth as int,
        ),
    decreases depth,
{
    proof {
        lemma_shift_total(depth as int, max_depth as int);
    }
    let mut alpha = alpha;
    let mut beta = beta;
    let moves = board.available_moves();
    if depth == 0 || board.get_state() != State::Empty || moves.len() == 0 {
        return evaluate(board, cell);
    }
    let ghost start = board@;
    proof {
        lemma_available_free(start);
    }
    let ghost lo: int = -1000 - shift_total(depth - 1, max_depth as int);
    let ghost hi: int = 1000 + shift_total(depth - 1, max_depth as int);
    proof {
        lemma_shift_total(depth - 1, max_depth as int);
    }
    if is_maximizing {
        let mut value: i64 = i64::MIN;
        let mut i: usize = 0;
        let mut pruned = false;
        while i < moves.len() && !pruned
            invariant
                board@ == start,
                grid_wf(start),
                0 < depth <= max_depth <= 10,
                moves@ == available(start),
                moves@.len() > 0,
                i <= moves@.len(),
                forall|k: int|
                    0 <= k < moves@.len() ==> cell_at(start, #[trigger] moves@[k]) == Some(
                        GameCell::Empty,
                    ),
                lo == -1000 - shift_total(depth - 1, max_depth as int),
                hi == 1000 + shift_total(depth - 1, max_depth as int),
                0 <= shift_total(depth - 1, max_depth as int) <= 10 * (depth - 1),
                i > 0 ==> lo <= value <= hi,
                i == 0 ==> value == i64::MIN && !pruned,
            decreases moves@.len() - i,
        {
            let idx = moves[i];
            proof {
                assert(cell_at(start, moves@[i as int]) == Some(GameCell::Empty));
                lemma_set_at(start, idx, *cell);
            }
            board.set_cell_force(idx, *cell);
            let score = minimax_score(
                board,
                &cell.opposite(),
                depth - 1,
                false,
                alpha,
                beta,
                max_depth,
            );
            if score >= value {
                value = score;
            }
            if score >= alpha {
                alpha = score;
            }
            board.set_cell_force(idx, GameCell::Empty);
            proof {
                lemma_set_back(start, idx, *cell, GameCell::Empty);
            }
            i = i + 1;
            if beta <= alpha {
                pruned = true;
            }
        }
        if value != 0 {
            return value - (max_depth - depth);
        }
        value
    } else {
        let mut value: i64 = i64::MAX;
        let mut i: usize = 0;
        let mut pruned = false;
        while i < moves.len() && !pruned
            invariant
                board@ == start,
                grid_wf(start),
                0 < depth <= max_depth <= 10,
                moves@ == available(start),
                moves@.len() > 0,
                i <= moves@.len(),
                forall|k: int|
                    0 <= k < moves@.len() ==> cell_at(start, #[trigger] moves@[k]) == Some(
                        GameCell::Empty,
                    ),
                lo == -1000 - shift_total(depth - 1, max_depth as int),
                hi == 1000 + shift_total(depth - 1, max_depth as int),
                0 <= shift_total(depth - 1, max_depth as int) <= 10 * (depth - 1),
                i > 0 ==> lo <= value <= hi,
                i == 0 ==> value == i64::MAX && !pruned,
            decreases moves@.len() - i,
        {
            let idx = moves[i];
            let other = cell.opposite();
            proof {
                assert(cell_at(start, moves@[i as int]) == Some(GameCell::Empty));
                lemma_set_at(start, idx, other);
            }
            board.set_cell_force(idx, other);
            let score = minimax_score(board, &other, depth - 1, true, alpha, beta, max_depth);
            if score <= value {
                value = score;
            }
            if score <= beta {
                beta = score;
            }
            board.set_cell_force(idx, GameCell::Empty);
            proof {
                lemma_set_back(start, idx, other, GameCell::Empty);
            }
            i = i + 1;
            if beta <= alpha {
                pruned = true;
            }
        }
        if value != 0 {
            return value + (max_depth - depth);
        }
        value
    }
}

} // verus!
