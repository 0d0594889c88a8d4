//! The local front end: a start menu, a game menu, and a game played on
//! one machine, against a person or a computer opponent.

use crate::game::{
    after_move, game_wf, score_of, snapshot, text_view, Board, Game,
    GameState, GameStateView, GameView, Player,
};
use crate::update::{Action, Move, Opponent, Position, Score};
use vstd::prelude::*;

verus! {

/// Which menu is shown.
#[derive(Clone, Copy, PartialEq, Eq, Debug, Structural)]
pub enum Menu {
    Start,
    Game,
}

/// What the front end shows: a menu with its selected row, a game, or
/// nothing once the user has quit.
#[derive(Debug, PartialEq)]
pub enum AppState {
    Menu(Menu, u8),
    Playing(GameState),
    Quit,
}

pub enum AppStateView {
    Menu(Menu, u8),
    Playing(GameStateView),
    Quit,
}

impl View for AppState {
    type V = AppStateView;

    open spec fn view(&self) -> AppStateView {
        match self {
            AppState::Menu(m, row) => AppStateView::Menu(*m, *row),
            AppState::Playing(s) => AppStateView::Playing(s@),
            AppState::Quit => AppStateView::Quit,
        }
    }
}

/// The local front end: the game, the games won, what is shown, the last
/// refusal, and the game shown before the game menu was opened.
pub struct App {
    pub game: Game,
    pub score: Score,
    pub state: AppState,
    pub warning_message: Option<String>,
    pub prev_state: Option<GameState>,
}

pub struct AppView {
    pub game: GameView,
    pub score: Score,
    pub state: AppStateView,
    pub warning_message: Option<Seq<char>>,
    pub prev_state: Option<GameStateView>,
}

impl View for App {
    type V = AppView;

    open spec fn view(&self) -> AppView {
        AppView {
            game: self.game@,
            score: self.score,
            state: self.state@,
            warning_message: text_view(self.warning_message),
            prev_state: match self.prev_state {
                Some(s) => Some(s@),
                None => None,
            },
        }
    }
}

/// The text of the refusal of a move outside a running game.
pub open spec fn msg_cannot_move_here() -> Seq<char> {
    "Cannot move in this state"@
}

/// The text of the refusal of a selection outside a menu.
pub open spec fn msg_cannot_select_here() -> Seq<char> {
    "Cannot select in this state"@
}

/// The text of the refusal of a row that the game menu lacks.
pub open spec fn msg_invalid_row() -> Seq<char> {
    "Invalid menu row"@
}

/// The text of the refusal to change rows outside a menu.
pub open spec fn msg_no_menu_row() -> Seq<char> {
    "Cannot change menu row in this state"@
}

/// A fresh game against `opponent`, once shown.
pub open spec fn fresh_game(opponent: Opponent) -> GameView {
    GameView {
        board: Board::new_view(),
        current_position: Position { x: 0, y: 0 },
        current_player: Player::Player1,
        winner: None,
        warning_message: None,
        opponent,
        should_continue: true,
        state_changed: false,
    }
}

/// `a` with a fresh game against `opponent` shown.
pub open spec fn started(a: AppView, opponent: Opponent) -> AppView {
    AppView {
        game: fresh_game(opponent),
        state: AppStateView::Playing(snapshot(fresh_game(opponent))),
        ..a
    }
}

/// The menu row after a step down (`up` false) or up, wrapping round.
pub open spec fn next_row(row: u8, up: bool) -> u8 {
    if up {
        ((row + 1) % 3) as u8
    } else {
        ((row + 2) % 3) as u8
    }
}

/// `a` with the game menu opened over a shown game, or closed again.
pub open spec fn toggled(a: AppView) -> AppView {
    match a.state {
        AppStateView::Menu(Menu::Game, _) => AppView {
            state: AppStateView::Playing(a.prev_state->0),
            ..a
        },
        AppStateView::Playing(s) => AppView {
            prev_state: Some(s),
            state: AppStateView::Menu(Menu::Game, 0),
            ..a
        },
        _ => a,
    }
}

/// The opponent that a row of the start menu chooses.
pub open spec fn opponent_of_row(row: u8) -> Opponent {
    if row == 1 {
        Opponent::Random
    } else if row == 2 {
        Opponent::Minimax
    } else {
        Opponent::Human
    }
}

/// `a` with a warning.
pub open spec fn warned(a: AppView, m: Seq<char>) -> AppView {
    AppView { warning_message: Some(m), ..a }
}

/// How an action changes the front end `a` into `b`. In a running game a
/// move goes to the game: when it is accepted the new game is shown, and a
/// finished game adds its point to the score; a refusal becomes the warning.
/// In a menu, up and down change the row and placing picks the row: a game
/// against a person, a random or a searching opponent from the start menu;
/// back to the game, a new game, or quitting from the game menu. A
/// selection picks a row in the same way.
pub open spec fn after_action(a: AppView, action: Action, b: AppView) -> bool {
    match action {
        Action::Move(mv) => match a.state {
            AppStateView::Playing(GameStateView::GameInProgress(..)) => exists|
                r: Result<(), Seq<char>>,
            |
                #[trigger] after_move(a.game, mv, b.game, r) && match r {
                    Ok(_) => {
                        &&& b.state == AppStateView::Playing(snapshot(b.game))
                        &&& b.warning_message == a.warning_message
                        &&& b.prev_state == a.prev_state
                        &&& b.score == if b.game.should_continue {
                            a.score
                        } else {
                            Score {
                                player1: (a.score.player1 + score_of(b.game.winner).0) as u32,
                                player2: (a.score.player2 + score_of(b.game.winner).1) as u32,
                            }
                        }
                    },
                    Err(m) => b == AppView { game: b.game, warning_message: Some(m), ..a },
                },
            AppStateView::Menu(menu, row) => match mv {
                Move::Down => b == AppView { state: AppStateView::Menu(menu, next_row(row, true)), ..a },
                Move::Up => b == AppView { state: AppStateView::Menu(menu, next_row(row, false)), ..a },
                Move::Place => match menu {
                    Menu::Start => if row < 3 {
                        b == started(a, opponent_of_row(row))
                    } else {
                        b == AppView { state: AppStateView::Menu(Menu::Start, 0), ..a }
                    },
                    Menu::Game => if row == 0 {
                        b == toggled(a)
                    } else if row == 1 {
                        b == started(a, a.game.opponent)
                    } else if row == 2 {
                        b == AppView { state: AppStateView::Quit, ..a }
                    } else {
                        b == AppView { state: AppStateView::Menu(Menu::Game, 0), ..a }
                    },
                },
                _ => b == warned(a, msg_cannot_move_here()),
            },
            _ => b == warned(a, msg_cannot_move_here()),
        },
        Action::Select(row) => match a.state {
            AppStateView::Menu(Menu::Start, _) => b == started(a, opponent_of_row(row)),
            AppStateView::Menu(Menu::Game, _) => if row == 0 {
                b == AppView { state: AppStateView::Quit, ..a }
            } else if row == 1 {
                b == toggled(a)
            } else {
                b == warned(a, msg_invalid_row())
            },
            _ => b == warned(a, msg_cannot_select_here()),
        },
        Action::Quit => b == AppView { state: AppStateView::Quit, ..a },
        Action::Reset => b == started(a, a.game.opponent),
        Action::ToggleMenu => b == toggled(a),
    }
}

/// A copy of an optional snapshot.
fn copy_state(s: &GameState) -> (r: GameState)
    ensures
        r@ == s@,
{
    s.clone()
}

impl App {
    /// The game is well formed, a menu row is one of three, and the game
    /// menu has a game to go back to.
    pub open spec fn wf(&self) -> bool {
        &&& game_wf(self.game@)
        &&& (self.state matches AppState::Menu(_, row) ==> row < 3)
        &&& (self.state matches AppState::Menu(Menu::Game, _) ==> self.prev_state is Some)
    }

    /// The start menu, with a game against a person ready and no point yet.
    pub fn new() -> (r: App)
        ensures
            r.wf(),
            r.state@ == AppStateView::Menu(Menu::Start, 0),
            r.score == (Score { player1: 0, player2: 0 }),
            r.warning_message is None,
            r.prev_state is None,
    {
        App {
            game: Game::new(Opponent::Human),
            score: Score::new(),
            state: AppState::Menu(Menu::Start, 0),
            warning_message: None,
            prev_state: None,
        }
    }

    pub fn quit(&mut self)
        ensures
            final(self)@ == (AppView { state: AppStateView::Quit, ..old(self)@ }),
    {
        self.state = AppState::Quit;
    }

    /// Opens the game menu over a shown game, or closes it again; the start
    /// menu has nothing to go back to.
    fn toggle_menu(&mut self) -> (r: Result<(), String>)
        requires
            old(self).wf(),
        ensures
            final(self).wf(),
            old(self).state matches AppState::Menu(Menu::Start, _) ==> r is Err && final(self)@
                == old(self)@,
            !(old(self).state matches AppState::Menu(Menu::Start, _)) ==> r is Ok && final(self)@
                == toggled(old(self)@),
    {
        match &self.state {
            AppState::Menu(Menu::Start, _) => Err("Cannot go back from game menu".to_string()),
            AppState::Menu(Menu::Game, _) => {
                let back = match &self.prev_state {
                    Some(s) => copy_state(s),
                    None => GameState::GameOver(None, Vec::new()),
                };
                self.state = AppState::Playing(back);
                Ok(())
            },
            AppState::Playing(state) => {
                let shown = copy_state(state);
                self.prev_state = Some(shown);
                self.state = AppState::Menu(Menu::Game, 0);
                Ok(())
            },
            AppState::Quit => Ok(()),
        }
    }

    /// Moves the selection of a menu down (`up`) or up, wrapping round.
    pub fn next_row_menu(&mut self, up: bool)
        requires
            old(self).wf(),
        ensures
            final(self).wf(),
            match old(self)@.state {
                AppStateView::Menu(menu, row) => final(self)@ == (AppView {
                    state: AppStateView::Menu(menu, next_row(row, up)),
                    ..old(self)@
                }),
                _ => final(self)@ == warned(old(self)@, msg_no_menu_row()),
            },
    {
        match self.state {
            AppState::Menu(menu, row) => {
                let next = if up {
                    (row + 1) % 3
                } else {
                    (row + 2) % 3
                };
                self.state = AppState::Menu(menu, next);
            },
            _ => {
                self.warning_message = Some("Cannot change menu row in this state".to_string());
            },
        }
    }

    /// Shows a fresh game against `opponent`.
    fn start_game(&mut self, opponent: Opponent)
        requires
            old(self).wf(),
        ensures
            final(self).wf(),
            final(self)@ == started(old(self)@, opponent),
    {
        self.game = Game::new(opponent);
        let shown = self.game.get_state();
        match shown {
            Some(s) => {
                self.state = AppState::Playing(s);
            },
            None => {},
        }
    }

    /// A fresh game against the same opponent.
    fn reset(&mut self)
        requires
            old(self).wf(),
        ensures
            final(self).wf(),
            final(self)@ == started(old(self)@, old(self).game.opponent),
    {
        let opponent = self.game.opponent;
        self.start_game(opponent);
    }

    /// Applies an action of the user. The start menu has nothing to toggle
    /// back to, and a point cannot be added to a score that is at its
    /// largest.
    pub fn update(&mut self, action: Action)
        requires
            old(self).wf(),
            !(old(self).state matches AppState::Menu(Menu::Start, _) && action
                == Action::ToggleMenu),
            old(self).score.player1 < u32::MAX,
            old(self).score.player2 < u32::MAX,
        ensures
            final(self).wf(),
            after_action(old(self)@, action, final(self)@),
    {
        match action {
            Action::Move(mv) => {
                let in_progress = match &self.state {
                    AppState::Playing(GameState::GameInProgress(..)) => true,
                    _ => false,
                };
                if in_progress {
                    let ghost g0 = self.game@;
                    match self.game.update(mv) {
                        Ok(state) => {
                            if let GameState::GameOver(..) = state {
                                let won = self.game.get_score();
                                self.score = Score {
                                    player1: self.score.player1 + won.player1,
                                    player2: self.score.player2 + won.player2,
                                };
                            }
                            proof {
                                assert(after_move(g0, mv, self.game@, Ok(())));
                            }
                            self.state = AppState::Playing(state);
                        },
                        Err(message) => {
                            proof {
                                assert(after_move(g0, mv, self.game@, Err(message@)));
                            }
                            self.warning_message = Some(message);
                        },
                    }
                } else {
                    match self.state {
                        AppState::Menu(menu, row) => match mv {
                            Move::Down => self.next_row_menu(true),
                            Move::Up => self.next_row_menu(false),
                            Move::Place => match menu {
                                Menu::Start => {
                                    if row == 0 {
                                        self.start_game(Opponent::Human)
                                    } else if row == 1 {
                                        self.start_game(Opponent::Random)
                                    } else if row == 2 {
                                        self.start_game(Opponent::Minimax)
                                    } else {
                                        self.state = AppState::Menu(Menu::Start, 0)
                                    }
                                },
                                Menu::Game => {
                                    if row == 0 {
                                        let _ = self.toggle_menu();
                                    } else if row == 1 {
                                        self.reset()
                                    } else if row == 2 {
                                        self.quit()
                                    } else {
                                        self.state = AppState::Menu(Menu::Game, 0)
                                    }
                                },
                            },
                            _ => {
                                self.warning_message = Some("Cannot move in this state".to_string())
                            },
                        },
                        _ => {
                            self.warning_message = Some("Cannot move in this state".to_string())
                        },
                    }
                }
            },
            Action::Select(row) => {
                match self.state {
                    AppState::Menu(Menu::Start, _) => {
                        let opponent = if row == 1 {
                            Opponent::Random
                        } else if row == 2 {
                            Opponent::Minimax
                        } else {
                            Opponent::Human
                        };
                        self.start_game(opponent)
                    },
                    AppState::Menu(Menu::Game, _) => {
                        if row == 0 {
                            self.quit()
                        } else if row == 1 {
                            let _ = self.toggle_menu();
                        } else {
                            self.warning_message = Some("Invalid menu row".to_string())
                        }
                    },
                    _ => { self.warning_message = Some("Cannot select in this state".to_string()) },
                }
            },
            Action::Quit => self.quit(),
            Action::Reset => self.reset(),
            Action::ToggleMenu => {
                let _ = self.toggle_menu();
            },
        }
    }
}

} // verus!
