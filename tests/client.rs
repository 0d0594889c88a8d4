use tictactoe::client::OnlineState;
use tictactoe::events::{PlayerData, Players, ServerApp, ServerEvent, ServerGameState};

fn start() -> ServerGameState {
    ServerGameState {
        players: Players::Full(
            PlayerData::new(&"A".to_string()),
            PlayerData::new(&"B".to_string()),
            "A".to_string(),
        ),
        game: Some(ServerApp::default()),
    }
}

#[test]
fn lobby_from_the_menu() {
    let state = OnlineState::Menu;
    assert_eq!(
        state.lobby(ServerEvent::ListSessions(vec!["S".to_string()])),
        Ok(vec!["S".to_string()])
    );
    assert_eq!(state.lobby(ServerEvent::Queue("S".to_string())), Err("Did not receive lobby".to_string()));
    let waiting = OnlineState::Queue("S".to_string());
    assert_eq!(
        waiting.lobby(ServerEvent::ListSessions(vec![])),
        Err("Cannot get lobby in this state".to_string())
    );
}

#[test]
fn joining_starts_playing() {
    let mut state = OnlineState::Menu;
    assert_eq!(state.joined(ServerEvent::Error("Session is full".to_string())), Err("Did not receive lobby".to_string()));
    assert_eq!(state, OnlineState::Menu);
    assert_eq!(state.joined(ServerEvent::GameStart(start())), Ok(()));
    assert_eq!(state, OnlineState::Playing(start()));
    assert_eq!(
        state.joined(ServerEvent::GameStart(start())),
        Err("Cannot get lobby in this state".to_string())
    );
}

#[test]
fn creating_waits_in_the_session() {
    let mut state = OnlineState::Menu;
    assert_eq!(state.created(ServerEvent::Queue("K7QXZ".to_string())), Ok(()));
    assert_eq!(state, OnlineState::Queue("K7QXZ".to_string()));
    assert_eq!(state.created(ServerEvent::ListSessions(vec![])), Err("Did not receive lobby".to_string()));
    assert!(!state.in_menu());
}
