use tictactoe::broker::{Broker, Outgoing};
use tictactoe::events::{ClientEvent, PlayerData, Players, ServerApp, ServerEvent, ServerGameState};
use tictactoe::game::{Player, State};
use tictactoe::session::{
    cleanup_session, create_session, generate_session_id, IDAlreadyTaken, Sessions,
};
use tictactoe::update::{GameCell, Move, Position};

fn id(s: &str) -> String {
    s.to_string()
}

fn broker_with(ids: &[&str]) -> Broker {
    let mut b = Broker::new();
    for i in ids {
        b.connect(&id(i)).unwrap();
    }
    b
}

fn queued_id(out: &[Outgoing]) -> String {
    assert_eq!(out.len(), 1);
    match &out[0].event {
        ServerEvent::Queue(s) => s.clone(),
        other => panic!("expected a queue message, got {:?}", other),
    }
}

fn listed(b: &Broker, who: &str) -> Vec<String> {
    let out = b.list_sessions(&id(who));
    match &out[0].event {
        ServerEvent::ListSessions(ids) => ids.clone(),
        other => panic!("expected a list, got {:?}", other),
    }
}

fn expected_start(a: &str, b: &str) -> ServerGameState {
    ServerGameState {
        players: Players::Full(PlayerData::new(&id(a)), PlayerData::new(&id(b)), id(a)),
        game: Some(ServerApp::default()),
    }
}

#[test]
fn test_generate_session_id() {
    let id = generate_session_id(5);
    assert_eq!(id.len(), 5);
}

#[test]
fn generated_ids_are_capital_letters() {
    for _ in 0..20 {
        let s = generate_session_id(5);
        assert_eq!(s.chars().count(), 5);
        assert!(s.chars().all(|c| c.is_ascii_uppercase()));
    }
}

#[test]
fn create_session_takes_a_given_id_or_makes_one() {
    let mut sessions = Sessions::new();
    assert_eq!(create_session(Some("ROOM"), &mut sessions), Ok(id("ROOM")));
    let made = create_session(None, &mut sessions).unwrap();
    assert_eq!(made.len(), 5);
    assert!(made.chars().all(|c| c.is_ascii_uppercase()));
    assert_eq!(sessions.list_ids().len(), 2);
    assert_eq!(create_session(Some("ROOM"), &mut sessions), Ok(id("ROOM")));
    assert_eq!(sessions.list_ids().len(), 2);
    cleanup_session("ROOM", &mut sessions);
    assert_eq!(sessions.list_ids(), vec![made]);
    cleanup_session("NOPE", &mut sessions);
    assert_eq!(sessions.list_ids().len(), 1);
}

#[test]
fn duplicate_connection_is_refused() {
    let mut b = broker_with(&["A"]);
    assert_eq!(b.connect(&id("A")), Err(IDAlreadyTaken));
    assert_eq!(b.clients.entries.len(), 1);
}

#[test]
fn create_then_list() {
    let mut b = broker_with(&["A"]);
    assert_eq!(listed(&b, "A"), Vec::<String>::new());
    let sid = queued_id(&b.handle_event(&id("A"), ClientEvent::CreateSession));
    assert_eq!(sid.len(), 5);
    assert_eq!(listed(&b, "A"), vec![sid.clone()]);
    let client = &b.clients.entries[0];
    assert_eq!(client.session_id, Some(sid));
}

#[test]
fn join_unknown_session_creates_it() {
    let mut b = broker_with(&["A"]);
    let out = b.handle_event(&id("A"), ClientEvent::JoinSession(id("NEWID")));
    assert_eq!(out, vec![Outgoing { to: id("A"), event: ServerEvent::Queue(id("NEWID")) }]);
    let session = &b.sessions.entries[0];
    assert_eq!(session.id, "NEWID");
    assert_eq!(session.data.players, Players::Partial(PlayerData::new(&id("A"))));
    assert_eq!(session.client_status, vec![(id("A"), true)]);
}

#[test]
fn create_then_join_starts_the_game_for_both() {
    let mut b = broker_with(&["A", "B"]);
    let sid = queued_id(&b.handle_event(&id("A"), ClientEvent::CreateSession));
    let out = b.handle_event(&id("B"), ClientEvent::JoinSession(sid));
    let start = expected_start("A", "B");
    assert_eq!(
        out,
        vec![
            Outgoing { to: id("B"), event: ServerEvent::GameStart(start.clone()) },
            Outgoing { to: id("A"), event: ServerEvent::GameStart(start) },
        ]
    );
}

#[test]
fn scenario_two_players_and_a_move() {
    let mut b = broker_with(&["A", "B"]);
    let sid = queued_id(&b.handle_event(&id("A"), ClientEvent::CreateSession));
    let out = b.handle_event(&id("B"), ClientEvent::JoinSession(sid.clone()));
    assert_eq!(out.len(), 2);
    for o in &out {
        match &o.event {
            ServerEvent::GameStart(s) => {
                assert_eq!(s.players, Players::Full(PlayerData::new(&id("A")), PlayerData::new(&id("B")), id("A")))
            }
            other => panic!("expected a game start, got {:?}", other),
        }
    }
    // out of turn: ignored, nobody hears of it
    let out = b.handle_event(&id("B"), ClientEvent::GameEvent(Move::Place));
    assert!(out.is_empty());
    // in turn: both hear of the new game, and the turn passes
    let out = b.handle_event(&id("A"), ClientEvent::GameEvent(Move::Place));
    assert_eq!(out.len(), 2);
    let mut to: Vec<String> = out.iter().map(|o| o.to.clone()).collect();
    to.sort();
    assert_eq!(to, vec![id("A"), id("B")]);
    for o in &out {
        match &o.event {
            ServerEvent::GameUpdate(app) => {
                assert_eq!(app.game.current_player, Player::Player2);
                assert_eq!(app.game.board.get_cell(Position { x: 0, y: 0 }), Some(&GameCell::Cross));
            }
            other => panic!("expected a game update, got {:?}", other),
        }
    }
    match &b.sessions.entries[0].data.players {
        Players::Full(_, _, active) => assert_eq!(active, "B"),
        other => panic!("expected two players, got {:?}", other),
    }
    // now A is out of turn
    assert!(b.handle_event(&id("A"), ClientEvent::GameEvent(Move::Down)).is_empty());
}

#[test]
fn refused_move_goes_to_the_mover_only() {
    let mut b = broker_with(&["A", "B"]);
    b.handle_event(&id("A"), ClientEvent::JoinSession(id("S")));
    b.handle_event(&id("B"), ClientEvent::JoinSession(id("S")));
    let out = b.handle_event(&id("A"), ClientEvent::GameEvent(Move::Up));
    assert_eq!(out, vec![Outgoing { to: id("A"), event: ServerEvent::Error(id("Cannot move up")) }]);
    match &b.sessions.entries[0].data.players {
        Players::Full(_, _, active) => assert_eq!(active, "A"),
        other => panic!("expected two players, got {:?}", other),
    }
}

#[test]
fn joining_a_full_session_is_refused() {
    let mut b = broker_with(&["A", "B", "C"]);
    b.handle_event(&id("A"), ClientEvent::JoinSession(id("S")));
    b.handle_event(&id("B"), ClientEvent::JoinSession(id("S")));
    let before = b.sessions.entries[0].data.clone();
    let out = b.handle_event(&id("C"), ClientEvent::JoinSession(id("S")));
    assert_eq!(out, vec![Outgoing { to: id("C"), event: ServerEvent::Error(id("Session is full")) }]);
    assert_eq!(b.sessions.entries[0].data, before);
    assert_eq!(b.sessions.entries[0].client_status.len(), 2);
    assert_eq!(b.clients.entries[2].session_id, None);
}

#[test]
fn disconnect_removes_a_session_only_when_nobody_is_active() {
    let mut b = broker_with(&["A", "B"]);
    b.handle_event(&id("A"), ClientEvent::JoinSession(id("S")));
    b.handle_event(&id("B"), ClientEvent::JoinSession(id("S")));
    b.disconnect(&id("A"));
    assert_eq!(listed(&b, "B"), vec![id("S")]);
    assert_eq!(b.sessions.entries[0].client_status, vec![(id("A"), false), (id("B"), true)]);
    b.disconnect(&id("B"));
    assert!(b.sessions.entries.is_empty());
    assert!(b.clients.entries.is_empty());
}

#[test]
fn reconnecting_marks_the_member_active_again() {
    let mut b = broker_with(&["A", "B"]);
    b.handle_event(&id("A"), ClientEvent::JoinSession(id("S")));
    b.handle_event(&id("B"), ClientEvent::JoinSession(id("S")));
    b.disconnect(&id("A"));
    b.connect(&id("A")).unwrap();
    assert_eq!(b.sessions.entries[0].client_status, vec![(id("A"), true), (id("B"), true)]);
    assert_eq!(b.clients.entries[1].session_id, Some(id("S")));
}

#[test]
fn leaving_the_last_active_member_removes_the_session() {
    let mut b = broker_with(&["A"]);
    let sid = queued_id(&b.handle_event(&id("A"), ClientEvent::CreateSession));
    assert_eq!(listed(&b, "A"), vec![sid]);
    let out = b.handle_event(&id("A"), ClientEvent::LeaveSession);
    assert!(out.is_empty());
    assert!(listed(&b, "A").is_empty());
    assert_eq!(b.clients.entries[0].session_id, None);
}

#[test]
fn unknown_connections_get_nothing() {
    let mut b = broker_with(&["A"]);
    assert!(b.handle_event(&id("Z"), ClientEvent::CreateSession).is_empty());
    assert!(b.handle_event(&id("Z"), ClientEvent::ListSessions).is_empty());
    assert!(b.sessions.entries.is_empty());
}

#[test]
fn malformed_event_is_answered() {
    let b = broker_with(&["A"]);
    assert_eq!(
        b.invalid_event(&id("A"), "nonsense"),
        vec![Outgoing { to: id("A"), event: ServerEvent::Error(id("Invalid Client Event: nonsense")) }]
    );
    assert!(b.invalid_event(&id("Q"), "x").is_empty());
}

#[test]
fn finished_game_refuses_moves() {
    let mut app = ServerApp::default();
    for (x, y) in [(0, 0), (0, 1), (1, 0), (1, 1), (2, 0)] {
        app.game.current_position = Position { x, y };
        app.update(Move::Place).unwrap();
    }
    assert_eq!(app.game.board.get_state(), State::Win(GameCell::Cross));
    assert_eq!(app.update(Move::Up), Err(id("Game is not in progress")));
}

#[test]
fn default_values() {
    let s = ServerGameState::default();
    assert_eq!(s.players, Players::Empty);
    assert!(s.game.is_none());
    let p = PlayerData::new(&id("A"));
    assert_eq!(p.id, "A");
    assert_eq!(p.current_pos, Position { x: 0, y: 0 });
}

#[test]
fn session_member_status() {
    let mut b = broker_with(&["A", "B"]);
    b.handle_event(&id("A"), ClientEvent::JoinSession(id("S")));
    let session = &mut b.sessions.entries[0];
    assert!(session.contains_client(&id("A")));
    assert!(!session.contains_client(&id("B")));
    assert_eq!(
        session.set_client_active_status(&id("B"), false),
        Err(id("Client is not a member of the session"))
    );
    assert_eq!(session.set_client_active_status(&id("A"), false), Ok(()));
    assert!(!session.has_active_client());
    session.insert_client(&id("B"), true);
    assert!(session.has_active_client());
    assert_eq!(session.client_status, vec![(id("A"), false), (id("B"), true)]);
}

#[test]
fn waiting_player_cannot_fill_its_own_session() {
    let mut b = broker_with(&["A"]);
    let sid = queued_id(&b.handle_event(&id("A"), ClientEvent::CreateSession));
    let before = b.sessions.entries[0].data.clone();
    let out = b.handle_event(&id("A"), ClientEvent::JoinSession(sid));
    assert_eq!(out, vec![Outgoing { to: id("A"), event: ServerEvent::Error(id("Already waiting in this session")) }]);
    assert_eq!(b.sessions.entries[0].data, before);
    assert_eq!(b.sessions.entries[0].client_status, vec![(id("A"), true)]);
}

#[test]
fn empty_session_id_length() {
    assert_eq!(generate_session_id(0), "");
}

#[test]
fn joining_another_session_leaves_the_previous_one() {
    let mut b = broker_with(&["A", "B"]);
    b.handle_event(&id("A"), ClientEvent::JoinSession(id("S1")));
    b.handle_event(&id("B"), ClientEvent::JoinSession(id("S1")));
    // A, waiting alone in T, is gone from T once it joins U
    b.handle_event(&id("A"), ClientEvent::JoinSession(id("T")));
    assert_eq!(b.sessions.entries[0].client_status, vec![(id("A"), false), (id("B"), true)]);
    b.handle_event(&id("A"), ClientEvent::JoinSession(id("U")));
    assert_eq!(listed(&b, "A"), vec![id("S1"), id("U")]);
    assert_eq!(b.clients.entries[0].session_id, Some(id("U")));
}
