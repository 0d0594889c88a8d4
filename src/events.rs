//! The messages between a client and the broker, and the state of a match
//! that the broker keeps for each session.

use crate::game::{
    after_move, copy_cells, game_wf, outcome, snapshot, Game, GameState,
    GameStateView, GameView,
};
use crate::update::{Move, Opponent, Position, Score};
use vstd::prelude::*;

verus! {

/// What a client asks of the broker.
#[derive(Debug)]
pub enum ClientEvent {
    ListSessions,
    CreateSession,
    LeaveSession,
    JoinSession(String),
    GameEvent(Move),
}

/// What the broker sends to a client.
#[derive(Debug, PartialEq)]
pub enum ServerEvent {
    /// The ids of the live sessions, in answer to `ListSessions`.
    ListSessions(Vec<String>),
    /// The players and the fresh game of a session that has just filled.
    GameStart(ServerGameState),
    /// The game after an accepted move.
    GameUpdate(ServerApp),
    /// The id of the session that the sender now waits in.
    Queue(String),
    /// A refusal, in words.
    Error(String),
}

/// One of the two connections of a match, with its cursor.
#[derive(Debug, PartialEq)]
pub struct PlayerData {
    pub id: String,
    pub current_pos: Position,
}

/// The players of a session: both with the id of the one whose move is
/// accepted next, one waiting for an opponent, or none.
#[derive(Debug, PartialEq)]
pub enum Players {
    Full(PlayerData, PlayerData, String),
    Partial(PlayerData),
    Empty,
}

/// The game that a session replicates to its players.
#[derive(Debug, PartialEq)]
pub struct ServerApp {
    pub game: Game,
    pub game_state: GameState,
    pub score: Score,
}

/// What a session holds: its players, and its game once it has two.
#[derive(Debug, PartialEq)]
pub struct ServerGameState {
    pub players: Players,
    pub game: Option<ServerApp>,
}

pub struct PlayerDataView {
    pub id: Seq<char>,
    pub current_pos: Position,
}

pub enum PlayersView {
    Full(PlayerDataView, PlayerDataView, Seq<char>),
    Partial(PlayerDataView),
    Empty,
}

pub struct ServerAppView {
    pub game: GameView,
    pub game_state: GameStateView,
    pub score: Score,
}

pub struct ServerGameStateView {
    pub players: PlayersView,
    pub game: Option<ServerAppView>,
}

pub enum ServerEventView {
    ListSessions(Seq<Seq<char>>),
    GameStart(ServerGameStateView),
    GameUpdate(ServerAppView),
    Queue(Seq<char>),
    Error(Seq<char>),
}

impl View for PlayerData {
    type V = PlayerDataView;

    open spec fn view(&self) -> PlayerDataView {
        PlayerDataView { id: self.id@, current_pos: self.current_pos }
    }
}

impl View for Players {
    type V = PlayersView;

    open spec fn view(&self) -> PlayersView {
        match self {
            Players::Full(a, b, active) => PlayersView::Full(a@, b@, active@),
            Players::Partial(a) => PlayersView::Partial(a@),
            Players::Empty => PlayersView::Empty,
        }
    }
}

impl View for ServerApp {
    type V = ServerAppView;

    open spec fn view(&self) -> ServerAppView {
        ServerAppView { game: self.game@, game_state: self.game_state@, score: self.score }
    }
}

impl View for ServerGameState {
    type V = ServerGameStateView;

    open spec fn view(&self) -> ServerGameStateView {
        ServerGameStateView {
            players: self.players@,
            game: match self.game {
                Some(a) => Some(a@),
                None => None,
            },
        }
    }
}

/// The texts of a list of strings.
pub open spec fn texts_view(v: Vec<String>) -> Seq<Seq<char>> {
    v@.map_values(|s: String| s@)
}

impl View for ServerEvent {
    type V = ServerEventView;

    open spec fn view(&self) -> ServerEventView {
        match self {
            ServerEvent::ListSessions(ids) => ServerEventView::ListSessions(texts_view(*ids)),
            ServerEvent::GameStart(s) => ServerEventView::GameStart(s@),
            ServerEvent::GameUpdate(a) => ServerEventView::GameUpdate(a@),
            ServerEvent::Queue(id) => ServerEventView::Queue(id@),
            ServerEvent::Error(m) => ServerEventView::Error(m@),
        }
    }
}

impl Clone for PlayerData {
    fn clone(&self) -> (r: Self)
        ensures
            r@ == self@,
    {
        PlayerData { id: self.id.clone(), current_pos: self.current_pos }
    }
}

impl Clone for Players {
    fn clone(&self) -> (r: Self)
        ensures
            r@ == self@,
    {
        match self {
            Players::Full(a, b, active) => Players::Full(a.clone(), b.clone(), active.clone()),
            Players::Partial(a) => Players::Partial(a.clone()),
            Players::Empty => Players::Empty,
        }
    }
}

impl Clone for ServerApp {
    fn clone(&self) -> (r: Self)
        ensures
            r@ == self@,
    {
        ServerApp {
            game: self.game.clone(),
            game_state: self.game_state.clone(),
            score: self.score,
        }
    }
}

impl Clone for ServerGameState {
    fn clone(&self) -> (r: Self)
        ensures
            r@ == self@,
    {
        ServerGameState {
            players: self.players.clone(),
            game: match &self.game {
                Some(a) => Some(a.clone()),
                None => None,
            },
        }
    }
}

/// The text of the refusal of a move once the game is over.
pub open spec fn msg_not_in_progress() -> Seq<char> {
    "Game is not in progress"@
}

/// The game that a session starts with: a fresh game between two people,
/// shown as in progress, and no points yet.
pub open spec fn initial_app() -> ServerAppView {
    let g = GameView {
        board: crate::game::Board::new_view(),
        current_position: Position { x: 0, y: 0 },
        current_player: crate::game::Player::Player1,
        winner: None,
        warning_message: None,
        opponent: Opponent::Human,
        should_continue: true,
        state_changed: true,
    };
    ServerAppView { game: g, game_state: snapshot(g), score: Score { player1: 0, player2: 0 } }
}

/// How a move changes the game `a` of a session into `b`, and what it
/// returns. A finished game refuses every move; otherwise the move goes to
/// the game, and when it is accepted what the game then shows is recorded.
/// The points stay as they are.
pub open spec fn app_updated(
    a: ServerAppView,
    mv: Move,
    b: ServerAppView,
    r: Result<(), Seq<char>>,
) -> bool {
    match a.game_state {
        GameStateView::GameOver(..) => {
            &&& r == Err::<(), Seq<char>>(msg_not_in_progress())
            &&& b == a
        },
        GameStateView::GameInProgress(..) => {
            &&& after_move(a.game, mv, b.game, r)
            &&& b.score == a.score
            &&& r is Ok ==> b.game_state == snapshot(b.game)
            &&& r is Err ==> b.game_state == a.game_state
        },
    }
}

/// The player record of a connection that takes a slot.
pub open spec fn new_player(id: Seq<char>) -> PlayerDataView {
    PlayerDataView { id, current_pos: Position { x: 0, y: 0 } }
}

impl ServerApp {
    /// The game is well formed.
    pub open spec fn wf(&self) -> bool {
        game_wf(self.game@)
    }

    /// A fresh game between two people.
    pub fn default() -> (r: Self)
        ensures
            r@ == initial_app(),
            r.wf(),
    {
        let game = Game::new(Opponent::Human);
        let game_state = GameState::GameInProgress(
            copy_cells(&game.board.cells),
            game.current_player,
            game.current_position,
        );
        ServerApp { game, game_state, score: Score::default() }
    }

    /// Applies a move of the player whose turn it is.
    pub fn update(&mut self, mv: Move) -> (r: Result<(), String>)
        requires
            old(self).wf(),
        ensures
            final(self).wf(),
            app_updated(old(self)@, mv, final(self)@, outcome(r)),
            r is Ok ==> !final(self).game.state_changed,
    {
        match self.game_state {
            GameState::GameInProgress(..) => match self.game.update(mv) {
                Ok(state) => {
                    if let GameState::GameInProgress(..) = state {
                        let won = self.game.get_score();
                        self.score = Score {
                            player1: self.score.player1 + won.player1,
                            player2: self.score.player2 + won.player2,
                        };
                    }
                    self.game_state = state;
                    Ok(())
                },
                Err(e) => Err(e),
            },
            GameState::GameOver(..) => Err("Game is not in progress".to_string()),
        }
    }
}

impl ServerGameState {
    /// No players and no game.
    pub fn default() -> (r: Self)
        ensures
            r@ == (ServerGameStateView { players: PlayersView::Empty, game: None }),
    {
        Self { players: Players::Empty, game: None }
    }
}

impl PlayerData {
    /// The record of the connection `id`, with its cursor at the top left.
    pub fn new(id: &String) -> (r: Self)
        ensures
            r@ == new_player(id@),
    {
        Self { id: id.clone(), current_pos: Position::default() }
    }
}

} // verus!
