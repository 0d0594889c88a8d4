//! The rules engine: the board, the turn order and the outcome of a game.

use crate::grid::{
    available, cell_at, col_lines, filled, grid_wf, line, present, row_empties, row_filled, row_lines, set_at, empties,
};
use crate::grid::{lemma_mark_free, lemma_set_at};
use crate::player::{get_pos, msg_not_allowed};
use crate::update::{GameCell, Move, Opponent, Position, Score};
use vstd::prelude::*;

verus! {

pub type Cells = Vec<Vec<GameCell>>;

/// The grid of a board or of a snapshot of one.
pub open spec fn cells_view(c: Cells) -> Seq<Seq<GameCell>> {
    c@.map_values(|r: Vec<GameCell>| r@)
}

/// The text of the error that refuses to overwrite a mark.
pub open spec fn msg_cell_not_empty() -> Seq<char> {
    "Cell is not empty"@
}

/// What a board shows: nobody has won yet, a side has, or it is full.
#[derive(Clone, Copy, PartialEq, Eq, Debug, Structural)]
pub enum State {
    Empty,
    Win(GameCell),
    Draw,
}

/// The outcome that a grid shows. A row is looked at before a column, a
/// column before the falling diagonal, that before the rising one; two
/// full rows (or columns) at once count as none.
pub open spec fn state_of(g: Seq<Seq<GameCell>>) -> State {
    let rows = row_lines(g);
    let cols = col_lines(g);
    let d1 = line(g[0][0], g[1][1], g[2][2]);
    let d2 = line(g[0][2], g[1][1], g[2][0]);
    if rows.len() == 1 {
        State::Win(rows[0])
    } else if cols.len() == 1 {
        State::Win(cols[0])
    } else if d1 is Some {
        State::Win(d1->0)
    } else if d2 is Some {
        State::Win(d2->0)
    } else if available(g).len() == 0 {
        State::Draw
    } else {
        State::Empty
    }
}

#[derive(Debug, PartialEq)]
pub struct Board {
    pub cells: Cells,
}

impl View for Board {
    type V = Seq<Seq<GameCell>>;

    open spec fn view(&self) -> Seq<Seq<GameCell>> {
        cells_view(self.cells)
    }
}

/// A copy of a row.
fn copy_row(r: &Vec<GameCell>) -> (o: Vec<GameCell>)
    ensures
        o@ == r@,
{
    let mut o: Vec<GameCell> = Vec::new();
    let mut i: usize = 0;
    while i < r.len()
        invariant
            i <= r.len(),
            o@ == r@.subrange(0, i as int),
        decreases r.len() - i,
    {
        o.push(r[i]);
        i = i + 1;
    }
    assert(o@ =~= r@);
    o
}

/// A copy of a grid.
pub fn copy_cells(c: &Cells) -> (o: Cells)
    ensures
        cells_view(o) == cells_view(*c),
{
    let mut o: Cells = Vec::new();
    let mut i: usize = 0;
    while i < c.len()
        invariant
            i <= c.len(),
            o@.len() == i,
            cells_view(o) =~= cells_view(*c).subrange(0, i as int),
        decreases c.len() - i,
    {
        let ghost prev = o@;
        o.push(copy_row(&c[i]));
        proof {
            assert(o@ == prev.push(o@[i as int]));
            assert(cells_view(o) =~= cells_view(*c).subrange(0, i + 1));
        }
        i = i + 1;
    }
    assert(cells_view(o) =~= cells_view(*c));
    o
}

impl Clone for Board {
    fn clone(&self) -> (r: Self)
        ensures
            r@ == self@,
    {
        Board { cells: copy_cells(&self.cells) }
    }
}

/// The mark that fills a line, if one does.
fn check(a: GameCell, b: GameCell, c: GameCell) -> (r: Option<GameCell>)
    ensures
        r == line(a, b, c),
{
    if a == b && b == c && a != GameCell::Empty {
        Some(a)
    } else {
        None
    }
}

/// The marks that are present, in order.
fn collect(a: Option<GameCell>, b: Option<GameCell>, c: Option<GameCell>) -> (r: Vec<GameCell>)
    ensures
        r@ == present(a, b, c),
{
    let mut r: Vec<GameCell> = Vec::new();
    if let Some(v) = a {
        r.push(v);
    }
    if let Some(v) = b {
        r.push(v);
    }
    if let Some(v) = c {
        r.push(v);
    }
    assert(r@ =~= present(a, b, c));
    r
}

impl Board {
    /// A board without marks.
    pub open spec fn new_view() -> Seq<Seq<GameCell>> {
        seq![
            seq![GameCell::Empty, GameCell::Empty, GameCell::Empty],
            seq![GameCell::Empty, GameCell::Empty, GameCell::Empty],
            seq![GameCell::Empty, GameCell::Empty, GameCell::Empty],
        ]
    }

    /// The rows and columns are three cells long.
    pub open spec fn wf(&self) -> bool {
        grid_wf(self@)
    }

    /// An empty board.
    pub fn new() -> (r: Board)
        ensures
            r.wf(),
            r@ == Board::new_view(),
    {
        let r = Board {
            cells: vec![
                vec![GameCell::Empty, GameCell::Empty, GameCell::Empty],
                vec![GameCell::Empty, GameCell::Empty, GameCell::Empty],
                vec![GameCell::Empty, GameCell::Empty, GameCell::Empty],
            ],
        };
        assert(r@ =~= Board::new_view());
        r
    }

    /// The cell at `pos`, or `None` off the board.
    pub fn get_cell(&self, pos: Position) -> (r: Option<&GameCell>)
        ensures
            match r {
                Some(c) => cell_at(self@, pos) == Some(*c),
                None => cell_at(self@, pos) is None,
            },
    {
        if pos.y < self.cells.len() && pos.x < self.cells[pos.y].len() {
            Some(&self.cells[pos.y][pos.x])
        } else {
            None
        }
    }

    /// Puts `cell` at `pos` whatever the cell held.
    pub fn set_cell_force(&mut self, pos: Position, cell: GameCell)
        requires
            cell_at(old(self)@, pos) is Some,
        ensures
            final(self)@ == set_at(old(self)@, pos, cell),
    {
        let mut row: Vec<GameCell> = Vec::new();
        self.cells.set_and_swap(pos.y, &mut row);
        row.set(pos.x, cell);
        self.cells.set_and_swap(pos.y, &mut row);
        assert(self@ =~= set_at(old(self)@, pos, cell));
    }

    /// Puts `cell` at `pos` if that cell is on the board and free.
    pub fn set_cell(&mut self, pos: Position, cell: GameCell) -> (r: Result<(), String>)
        ensures
            cell_at(old(self)@, pos) == Some(GameCell::Empty) ==> r is Ok && final(self)@
                == set_at(old(self)@, pos, cell),
            cell_at(old(self)@, pos) != Some(GameCell::Empty) ==> (r matches Err(e) && e@
                == msg_cell_not_empty()) && final(self)@ == old(self)@,
    {
        let free = match self.get_cell(pos) {
            Some(c) => *c == GameCell::Empty,
            None => false,
        };
        if free {
            self.set_cell_force(pos, cell);
            Ok(())
        } else {
            let e = "Cell is not empty".to_string();
            Err(e)
        }
    }

    /// Every free cell, in reading order.
    pub fn available_moves(&self) -> (r: Vec<Position>)
        requires
            self.wf(),
        ensures
            r@ == available(self@),
    {
        let mut moves: Vec<Position> = Vec::new();
        let mut y: usize = 0;
        while y < 3
            invariant
                self.wf(),
                y <= 3,
                moves@ == empties(self@, y as int),
            decreases 3 - y,
        {
            let row = &self.cells[y];
            let mut x: usize = 0;
            while x < 3
                invariant
                    self.wf(),
                    y < 3,
                    x <= 3,
                    row@ == self@[y as int],
                    moves@ == empties(self@, y as int) + row_empties(self@[y as int], y as int, x as int),
                decreases 3 - x,
            {
                if row[x] == GameCell::Empty {
                    moves.push(Position { y, x });
                }
                proof {
                    assert(moves@ =~= empties(self@, y as int) + row_empties(
                        self@[y as int],
                        y as int,
                        x + 1,
                    ));
                }
                x = x + 1;
            }
            y = y + 1;
        }
        moves
    }

    /// How many cells hold a mark.
    pub fn moves(&self) -> (r: usize)
        requires
            self.wf(),
        ensures
            r == filled(self@, 3),
    {
        let mut count: usize = 0;
        let mut k: usize = 0;
        while k < 3
            invariant
                self.wf(),
                k <= 3,
                count == filled(self@, k as int),
                count <= 3 * k,
            decreases 3 - k,
        {
            let row = &self.cells[k];
            let mut j: usize = 0;
            while j < 3
                invariant
                    self.wf(),
                    k < 3,
                    j <= 3,
                    row@ == self@[k as int],
                    count == filled(self@, k as int) + row_filled(self@[k as int], j as int),
                    count <= 3 * k + j,
                decreases 3 - j,
            {
                if row[j] != GameCell::Empty {
                    count = count + 1;
                }
                j = j + 1;
            }
            k = k + 1;
        }
        count
    }

    /// What the board shows.
    pub fn get_state(&self) -> (r: State)
        requires
            self.wf(),
        ensures
            r == state_of(self@),
    {
        let c = &self.cells;
        let rows = collect(
            check(c[0][0], c[0][1], c[0][2]),
            check(c[1][0], c[1][1], c[1][2]),
            check(c[2][0], c[2][1], c[2][2]),
        );
        let cols = collect(
            check(c[0][0], c[1][0], c[2][0]),
            check(c[0][1], c[1][1], c[2][1]),
            check(c[0][2], c[1][2], c[2][2]),
        );
        let diag1 = check(c[0][0], c[1][1], c[2][2]);
        let diag2 = check(c[0][2], c[1][1], c[2][0]);
        if rows.len() == 1 {
            State::Win(rows[0])
        } else if cols.len() == 1 {
            State::Win(cols[0])
        } else if let Some(v) = diag1 {
            State::Win(v)
        } else if let Some(v) = diag2 {
            State::Win(v)
        } else if self.available_moves().len() == 0 {
            State::Draw
        } else {
            State::Empty
        }
    }
}

/// One of the two sides. The first plays crosses, the second circles.
#[derive(Copy, Clone, Debug, PartialEq, Eq, Structural)]
pub enum Player {
    Player1,
    Player2,
}

/// The side that plays after `p`.
pub open spec fn next_player(p: Player) -> Player {
    match p {
        Player::Player1 => Player::Player2,
        Player::Player2 => Player::Player1,
    }
}

/// The mark that `p` puts on the board.
pub open spec fn mark_of(p: Player) -> GameCell {
    match p {
        Player::Player1 => GameCell::Cross,
        Player::Player2 => GameCell::Circle,
    }
}

impl Player {
    pub fn next(&self) -> (r: Player)
        ensures
            r == next_player(*self),
    {
        match self {
            Player::Player1 => Player::Player2,
            Player::Player2 => Player::Player1,
        }
    }

    pub fn get_cell(&self) -> (r: GameCell)
        ensures
            r == mark_of(*self),
    {
        match self {
            Player::Player1 => GameCell::Cross,
            Player::Player2 => GameCell::Circle,
        }
    }
}

/// What a front end is shown of a game: the final board and its winner, or
/// the board, the side to play and the cursor.
#[derive(Debug, PartialEq)]
pub enum GameState {
    GameOver(Option<Player>, Cells),
    GameInProgress(Cells, Player, Position),
}

pub enum GameStateView {
    GameOver(Option<Player>, Seq<Seq<GameCell>>),
    GameInProgress(Seq<Seq<GameCell>>, Player, Position),
}

impl View for GameState {
    type V = GameStateView;

    open spec fn view(&self) -> GameStateView {
        match self {
            GameState::GameOver(w, c) => GameStateView::GameOver(*w, cells_view(*c)),
            GameState::GameInProgress(c, p, pos) => GameStateView::GameInProgress(
                cells_view(*c),
                *p,
                *pos,
            ),
        }
    }
}

impl Clone for GameState {
    fn clone(&self) -> (r: Self)
        ensures
            r@ == self@,
    {
        match self {
            GameState::GameOver(w, c) => GameState::GameOver(*w, copy_cells(c)),
            GameState::GameInProgress(c, p, pos) => GameState::GameInProgress(
                copy_cells(c),
                *p,
                *pos,
            ),
        }
    }
}

/// A game: the board, the cursor, the side to play, the winner once there
/// is one, the last refusal of a placement, and who plays the second side.
#[derive(Debug, PartialEq)]
pub struct Game {
    pub board: Board,
    pub current_position: Position,
    pub current_player: Player,
    pub winner: Option<Player>,
    pub warning_message: Option<String>,
    pub opponent: Opponent,
    pub should_continue: bool,
    pub state_changed: bool,
}

pub struct GameView {
    pub board: Seq<Seq<GameCell>>,
    pub current_position: Position,
    pub current_player: Player,
    pub winner: Option<Player>,
    pub warning_message: Option<Seq<char>>,
    pub opponent: Opponent,
    pub should_continue: bool,
    pub state_changed: bool,
}

/// The text of an optional message.
pub open spec fn text_view(m: Option<String>) -> Option<Seq<char>> {
    match m {
        Some(s) => Some(s@),
        None => None,
    }
}

impl View for Game {
    type V = GameView;

    open spec fn view(&self) -> GameView {
        GameView {
            board: self.board@,
            current_position: self.current_position,
            current_player: self.current_player,
            winner: self.winner,
            warning_message: text_view(self.warning_message),
            opponent: self.opponent,
            should_continue: self.should_continue,
            state_changed: self.state_changed,
        }
    }
}

/// A copy of an optional message.
fn copy_text(m: &Option<String>) -> (r: Option<String>)
    ensures
        text_view(r) == text_view(*m),
{
    match m {
        Some(s) => Some(s.clone()),
        None => None,
    }
}

impl Clone for Game {
    fn clone(&self) -> (r: Self)
        ensures
            r@ == self@,
    {
        Game {
            board: self.board.clone(),
            current_position: self.current_position,
            current_player: self.current_player,
            winner: self.winner,
            warning_message: copy_text(&self.warning_message),
            opponent: self.opponent,
            should_continue: self.should_continue,
            state_changed: self.state_changed,
        }
    }
}

/// The board is three by three, and a winner is only named once the game
/// is over.
pub open spec fn game_wf(g: GameView) -> bool {
    grid_wf(g.board) && (g.winner is Some ==> !g.should_continue)
}

/// What a front end is shown of `g`.
pub open spec fn snapshot(g: GameView) -> GameStateView {
    if !g.should_continue {
        GameStateView::GameOver(g.winner, g.board)
    } else {
        GameStateView::GameInProgress(g.board, g.current_player, g.current_position)
    }
}

/// The text of the error for a cursor outside the board.
pub open spec fn msg_out_of_bounds() -> Seq<char> {
    "This cell is out of bounds!"@
}

/// The text of the error for a cursor on a mark.
pub open spec fn msg_taken() -> Seq<char> {
    "This cell is already taken!"@
}

/// Whether a call came back with `Ok`, and the text of its error if not.
pub open spec fn outcome<T>(r: Result<T, String>) -> Result<(), Seq<char>> {
    match r {
        Ok(_) => Ok(()),
        Err(e) => Err(e@),
    }
}

/// How a game `g` goes on once a mark has been put, when no computer reply
/// follows: a completed line ends it with the side that put the mark as
/// winner, a full board ends it with none; otherwise the turn passes.
pub open spec fn turn_ends(g: GameView, h: GameView, r: Result<(), Seq<char>>) -> bool {
    &&& h.opponent == g.opponent
    &&& h.current_position == g.current_position
    &&& h.warning_message == g.warning_message
    &&& game_wf(h)
    &&& match state_of(g.board) {
        State::Win(_) => {
            &&& h.board == g.board
            &&& h.current_player == g.current_player
            &&& h.winner == Some(g.current_player)
            &&& !h.should_continue
            &&& h.state_changed == g.state_changed
            &&& r is Ok
        },
        State::Draw => {
            &&& h.board == g.board
            &&& h.current_player == g.current_player
            &&& h.winner is None
            &&& !h.should_continue
            &&& h.state_changed == g.state_changed
            &&& r is Ok
        },
        State::Empty => {
            &&& h.board == g.board
            &&& h.current_player == next_player(g.current_player)
            &&& h.winner == g.winner
            &&& h.should_continue == g.should_continue
            &&& h.state_changed
            &&& r is Ok
        },
    }
}

/// Whether the turn passes from the first side to a computer opponent: the
/// game goes on, the first side has just played, and the opponent is not a
/// person.
pub open spec fn computer_replies(g: GameView) -> bool {
    state_of(g.board) is Empty && g.opponent != Opponent::Human && g.current_player
        == Player::Player1
}

/// `g` with the turn passed to the second side and a change pending.
pub open spec fn handed_over(g: GameView) -> GameView {
    GameView { current_player: Player::Player2, state_changed: true, ..g }
}

/// `g` with a circle put at `p`.
pub open spec fn replied(g: GameView, p: Position) -> GameView {
    GameView { board: set_at(g.board, p, GameCell::Circle), ..g }
}

/// How a game `g` goes on once a mark has been put. When the turn passes to
/// a computer opponent, the opponent puts a circle on a free cell and the
/// game goes on from there, which hands the turn back to the first side or
/// ends the game; an opponent on the network does not play here, and the
/// turn stays with it. Otherwise the game goes on as `turn_ends` says.
pub open spec fn after_turn(g: GameView, h: GameView, r: Result<(), Seq<char>>) -> bool {
    if computer_replies(g) {
        if g.opponent == Opponent::Online {
            h == handed_over(g) && r == Err::<(), Seq<char>>(msg_not_allowed())
        } else {
            exists|p: Position|
                cell_at(g.board, p) == Some(GameCell::Empty) && #[trigger] turn_ends(
                    replied(handed_over(g), p),
                    h,
                    r,
                )
        }
    } else {
        turn_ends(g, h, r)
    }
}

/// `g` with the mark of the side to play put under the cursor.
pub open spec fn marked(g: GameView) -> GameView {
    GameView {
        board: set_at(g.board, g.current_position, mark_of(g.current_player)),
        warning_message: None,
        state_changed: true,
        ..g
    }
}

/// How `place` changes `g` into `h` and what it returns, leaving aside
/// whether a change is left to report. A cursor off the board or on a mark
/// is refused, with the refusal kept as the warning; otherwise the mark of
/// the side to play goes under the cursor and the game goes on.
pub open spec fn after_place(g: GameView, h: GameView, r: Result<(), Seq<char>>) -> bool {
    match cell_at(g.board, g.current_position) {
        None => {
            &&& r == Err::<(), Seq<char>>(msg_out_of_bounds())
            &&& h == GameView {
                warning_message: Some(msg_out_of_bounds()),
                state_changed: h.state_changed,
                ..g
            }
        },
        Some(c) => if c != GameCell::Empty {
            &&& r == Err::<(), Seq<char>>(msg_taken())
            &&& h == GameView {
                warning_message: Some(msg_taken()),
                state_changed: h.state_changed,
                ..g
            }
        } else {
            after_turn(marked(g), GameView { state_changed: true, ..h }, r)
        },
    }
}

/// The text of the error for a cursor move that would leave the board.
pub open spec fn msg_cannot_move(m: Move) -> Seq<char> {
    match m {
        Move::Up => "Cannot move up"@,
        Move::Left => "Cannot move left"@,
        _ => "Cannot move down"@,
    }
}

/// The cursor after a move of it, if it stays on the board.
pub open spec fn moved(p: Position, m: Move) -> Option<Position> {
    match m {
        Move::Up => if p.y > 0 { Some(Position { y: (p.y - 1) as usize, ..p }) } else { None },
        Move::Down => if p.y < 2 { Some(Position { y: (p.y + 1) as usize, ..p }) } else { None },
        Move::Left => if p.x > 0 { Some(Position { x: (p.x - 1) as usize, ..p }) } else { None },
        Move::Right => if p.x < 2 { Some(Position { x: (p.x + 1) as usize, ..p }) } else { None },
        _ => None,
    }
}

/// The score that the winner of a game earns.
pub open spec fn score_of(w: Option<Player>) -> (u32, u32) {
    match w {
        Some(Player::Player1) => (1, 0),
        Some(Player::Player2) => (0, 1),
        None => (0, 0),
    }
}

/// How a move changes a game `g` into `h` and what it returns: the
/// contract of `Game::update`, leaving aside the snapshot it hands back.
pub open spec fn after_move(g: GameView, mov: Move, h: GameView, r: Result<(), Seq<char>>) -> bool {
    match mov {
        Move::Place => {
            &&& after_place(g, h, r)
            &&& r is Err ==> h.state_changed
        },
        Move::PlaceAt(pos) => if cell_at(g.board, pos) == Some(GameCell::Empty) {
            &&& r is Ok
            &&& h == GameView {
                board: set_at(g.board, pos, mark_of(g.current_player)),
                state_changed: false,
                ..g
            }
        } else {
            &&& r == Err::<(), Seq<char>>(msg_cell_not_empty())
            &&& h == g
        },
        _ => match moved(g.current_position, mov) {
            Some(p) => {
                &&& r is Ok
                &&& h == GameView {
                    current_position: p,
                    state_changed: false,
                    ..g
                }
            },
            None => {
                &&& r == Err::<(), Seq<char>>(msg_cannot_move(mov))
                &&& h == g
            },
        },
    }
}

impl Game {
    pub open spec fn wf(&self) -> bool {
        game_wf(self@)
    }

    /// A fresh game against `opponent`: an empty board, the cursor at the
    /// top left, the first side to play.
    pub fn new(opponent: Opponent) -> (r: Game)
        ensures
            r.wf(),
            r.board@ == Board::new_view(),
            r.current_position == (Position { x: 0, y: 0 }),
            r.current_player == Player::Player1,
            r.winner is None,
            r.warning_message is None,
            r.opponent == opponent,
            r.should_continue,
            r.state_changed,
    {
        Game {
            board: Board::new(),
            current_position: Position { x: 0, y: 0 },
            current_player: Player::Player1,
            winner: None,
            warning_message: None,
            opponent,
            should_continue: true,
            state_changed: true,
        }
    }

    fn get_current_player_cell(&self) -> (r: GameCell)
        ensures
            r == mark_of(self.current_player),
    {
        match self.current_player {
            Player::Player1 => GameCell::Cross,
            Player::Player2 => GameCell::Circle,
        }
    }

    /// The computer opponent plays for the second side, and the game goes
    /// on from there.
    fn opponent_move(&mut self) -> (r: Result<(), String>)
        requires
            old(self).wf(),
            old(self).current_player == Player::Player2,
            old(self).opponent != Opponent::Human,
            available(old(self).board@).len() > 0,
        ensures
            old(self).opponent == Opponent::Online ==> final(self)@ == old(self)@ && outcome(r)
                == Err::<(), Seq<char>>(msg_not_allowed()),
            old(self).opponent != Opponent::Online ==> exists|p: Position|
                cell_at(old(self).board@, p) == Some(GameCell::Empty) && #[trigger] turn_ends(
                    replied(old(self)@, p),
                    final(self)@,
                    outcome(r),
                ),
        decreases available(old(self).board@).len(), 0nat,
    {
        let cell = self.current_player.get_cell();
        let pos = match get_pos(self.opponent, &self.board, &cell) {
            Ok(pos) => pos,
            Err(e) => return Err(e),
        };
        proof {
            lemma_mark_free(self.board@, pos, cell);
        }
        let ghost g2 = replied(old(self)@, pos);
        match self.board.set_cell(pos, cell) {
            Ok(_) => {
                assert(self@ == g2);
                let r = self.next();
                assert(turn_ends(g2, self@, outcome(r)));
                r
            },
            Err(e) => Err(e),
        }
    }

    /// The game goes on after a mark has been put.
    fn next(&mut self) -> (r: Result<(), String>)
        requires
            old(self).wf(),
        ensures
            after_turn(old(self)@, final(self)@, outcome(r)),
            old(self).state_changed ==> final(self).state_changed,
        decreases available(old(self).board@).len(), 1nat,
    {
        match self.board.get_state() {
            State::Empty => {
                self.current_player = self.current_player.next();
                self.state_changed = true;
                if let Opponent::Human = self.opponent {
                    return Ok(());
                }
                if let Player::Player2 = self.current_player {
                    return self.opponent_move();
                }
            },
            State::Win(_) => {
                self.winner = Some(self.current_player);
                self.should_continue = false;
            },
            State::Draw => {
                self.winner = None;
                self.should_continue = false;
            },
        }
        Ok(())
    }

    pub fn is_over(&self) -> (r: bool)
        ensures
            r == !self.should_continue,
    {
        self.should_continue == false
    }

    /// One point to the winner, if there is one.
    pub fn get_score(&self) -> (r: Score)
        ensures
            (r.player1, r.player2) == score_of(self.winner),
    {
        match self.winner {
            Some(Player::Player1) => Score { player1: 1, player2: 0 },
            Some(Player::Player2) => Score { player1: 0, player2: 1 },
            None => Score::new(),
        }
    }

    /// The refusal of the last placement, if it was refused.
    pub fn get_warning_message(&self) -> (r: Option<String>)
        ensures
            text_view(r) == text_view(self.warning_message),
    {
        copy_text(&self.warning_message)
    }

    /// Puts the mark of the side to play under the cursor, and lets the game
    /// go on.
    pub fn place(&mut self) -> (r: Result<(), String>)
        requires
            old(self).wf(),
        ensures
            after_place(old(self)@, final(self)@, outcome(r)),
            final(self).state_changed,
            final(self).wf(),
    {
        self.state_changed = true;
        self.warning_message = None;
        let free = match self.board.get_cell(self.current_position) {
            Some(cell) => match cell {
                GameCell::Empty => 1u8,
                _ => 2u8,
            },
            None => 0u8,
        };
        if free == 1 {
            let mark = self.get_current_player_cell();
            proof {
                lemma_set_at(self.board@, self.current_position, mark);
            }
            match self.board.set_cell(self.current_position, mark) {
                Ok(_) => self.next(),
                Err(e) => Err(e),
            }
        } else if free == 2 {
            let e = "This cell is already taken!".to_string();
            self.warning_message = Some(e.clone());
            Err(e)
        } else {
            let e = "This cell is out of bounds!".to_string();
            self.warning_message = Some(e.clone());
            Err(e)
        }
    }

    /// What a front end is shown, if anything has changed since it was last
    /// asked; asking clears the change.
    pub fn get_state(&mut self) -> (r: Option<GameState>)
        ensures
            old(self).state_changed ==> (r matches Some(s) && s@ == snapshot(old(self)@)),
            !old(self).state_changed ==> r is None,
            final(self)@ == (GameView { state_changed: false, ..old(self)@ }),
    {
        if self.state_changed {
            self.state_changed = false;
            Some(self.snapshot())
        } else {
            None
        }
    }

    /// Applies a move and reports what a front end is then shown. A cursor
    /// move that would leave the board, a refused placement, and a cell
    /// named by `PlaceAt` that is off the board or taken, are errors that
    /// change nothing but the warning and the pending change.
    /// `PlaceAt` puts the mark of the side to play and keeps the turn.
    pub fn update(&mut self, mov: Move) -> (r: Result<GameState, String>)
        requires
            old(self).wf(),
        ensures
            final(self).wf(),
            r matches Ok(s) ==> s@ == snapshot(final(self)@) && !final(self).state_changed,
            after_move(old(self)@, mov, final(self)@, outcome(r)),
    {
        match mov {
            Move::Up => {
                if self.current_position.y > 0 {
                    self.current_position.y = self.current_position.y - 1;
                    self.state_changed = true;
                    self.report()
                } else {
                    Err("Cannot move up".to_string())
                }
            },
            Move::Down => {
                if self.current_position.y < 2 {
                    self.current_position.y = self.current_position.y + 1;
                    self.state_changed = true;
                    self.report()
                } else {
                    Err("Cannot move down".to_string())
                }
            },
            Move::Left => {
                if self.current_position.x > 0 {
                    self.current_position.x = self.current_position.x - 1;
                    self.state_changed = true;
                    self.report()
                } else {
                    Err("Cannot move left".to_string())
                }
            },
            Move::Right => {
                if self.current_position.x < 2 {
                    self.current_position.x = self.current_position.x + 1;
                    self.state_changed = true;
                    self.report()
                } else {
                    Err("Cannot move down".to_string())
                }
            },
            Move::Place => match self.place() {
                Ok(_) => {
                    self.state_changed = true;
                    self.report()
                },
                Err(e) => Err(e),
            },
            Move::PlaceAt(pos) => {
                let mark = self.get_current_player_cell();
                proof {
                    if cell_at(self.board@, pos) == Some(GameCell::Empty) {
                        lemma_set_at(self.board@, pos, mark);
                    }
                }
                match self.board.set_cell(pos, mark) {
                    Ok(_) => {
                        self.state_changed = true;
                        self.report()
                    },
                    Err(e) => Err(e),
                }
            },
        }
    }

    /// What a front end is shown of the game.
    fn snapshot(&self) -> (r: GameState)
        ensures
            r@ == snapshot(self@),
    {
        if self.is_over() {
            GameState::GameOver(self.winner, copy_cells(&self.board.cells))
        } else {
            GameState::GameInProgress(
                copy_cells(&self.board.cells),
                self.current_player,
                self.current_position,
            )
        }
    }

    /// Reports a change: what a front end is then shown.
    fn report(&mut self) -> (r: Result<GameState, String>)
        ensures
            r matches Ok(s) && s@ == snapshot(old(self)@),
            final(self)@ == (GameView { state_changed: false, ..old(self)@ }),
    {
        self.state_changed = false;
        Ok(self.snapshot())
    }

    /// The text of the refusal of a cursor move once the game is over.
    pub open spec fn msg_game_over() -> Seq<char> {
        "Game is over!"@
    }

    /// A cursor move of a front end: while the game goes on the cursor
    /// moves if it stays on the board, the warning is cleared and a change
    /// is pending; once the game is over only the warning says so.
    pub open spec fn cursor_moved(g: GameView, mov: Move, h: GameView) -> bool {
        if g.should_continue {
            h == GameView {
                current_position: match moved(g.current_position, mov) {
                    Some(p) => p,
                    None => g.current_position,
                },
                warning_message: None,
                state_changed: true,
                ..g
            }
        } else {
            h == GameView { warning_message: Some(Self::msg_game_over()), ..g }
        }
    }

    /// Runs a cursor move while the game goes on.
    fn wrap(&mut self, mov: Move)
        requires
            mov == Move::Up || mov == Move::Down || mov == Move::Left || mov == Move::Right,
        ensures
            Self::cursor_moved(old(self)@, mov, final(self)@),
    {
        if self.should_continue {
            self.state_changed = true;
            self.warning_message = None;
            match mov {
                Move::Up => {
                    if self.current_position.y > 0 {
                        self.current_position.y = self.current_position.y - 1;
                    }
                },
                Move::Down => {
                    if self.current_position.y < 2 {
                        self.current_position.y = self.current_position.y + 1;
                    }
                },
                Move::Left => {
                    if self.current_position.x > 0 {
                        self.current_position.x = self.current_position.x - 1;
                    }
                },
                _ => {
                    if self.current_position.x < 2 {
                        self.current_position.x = self.current_position.x + 1;
                    }
                },
            }
        } else {
            self.warning_message = Some("Game is over!".to_string());
        }
    }

    pub fn on_up(&mut self)
        ensures
            Self::cursor_moved(old(self)@, Move::Up, final(self)@),
    {
        self.wrap(Move::Up)
    }

    pub fn on_down(&mut self)
        ensures
            Self::cursor_moved(old(self)@, Move::Down, final(self)@),
    {
        self.wrap(Move::Down)
    }

    pub fn on_left(&mut self)
        ensures
            Self::cursor_moved(old(self)@, Move::Left, final(self)@),
    {
        self.wrap(Move::Left)
    }

    pub fn on_right(&mut self)
        ensures
            Self::cursor_moved(old(self)@, Move::Right, final(self)@),
    {
        self.wrap(Move::Right)
    }
}

} // verus!
