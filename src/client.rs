//! What an online player's front end decides from the broker's answers: the
//! request goes out and the answer comes back through the front end's
//! connection; these functions say what the answer means.

use crate::events::{ServerEvent, ServerEventView, ServerGameState, ServerGameStateView, texts_view};
use vstd::prelude::*;

verus! {

/// Where an online player stands: choosing a session, waiting in one, or
/// playing.
#[derive(Debug, PartialEq)]
pub enum OnlineState {
    Menu,
    Queue(String),
    Playing(ServerGameState),
}

pub enum OnlineStateView {
    Menu,
    Queue(Seq<char>),
    Playing(ServerGameStateView),
}

impl View for OnlineState {
    type V = OnlineStateView;

    open spec fn view(&self) -> OnlineStateView {
        match self {
            OnlineState::Menu => OnlineStateView::Menu,
            OnlineState::Queue(id) => OnlineStateView::Queue(id@),
            OnlineState::Playing(s) => OnlineStateView::Playing(s@),
        }
    }
}

/// The text of the refusal of an answer of the wrong kind.
pub open spec fn msg_unexpected() -> Seq<char> {
    "Did not receive lobby"@
}

/// The text of the refusal of a request outside the menu.
pub open spec fn msg_not_in_menu() -> Seq<char> {
    "Cannot get lobby in this state"@
}

impl OnlineState {
    /// Whether sessions can be listed or joined: only from the menu.
    pub fn in_menu(&self) -> (r: bool)
        ensures
            r == (self@ is Menu),
    {
        match self {
            OnlineState::Menu => true,
            _ => false,
        }
    }

    /// The session ids of the answer to `ListSessions`, asked from the menu.
    pub fn lobby(&self, reply: ServerEvent) -> (r: Result<Vec<String>, String>)
        ensures
            !(self@ is Menu) ==> (r matches Err(e) && e@ == msg_not_in_menu()),
            self@ is Menu ==> match reply@ {
                ServerEventView::ListSessions(ids) => r matches Ok(v) && texts_view(v) == ids,
                _ => r matches Err(e) && e@ == msg_unexpected(),
            },
    {
        if !self.in_menu() {
            return Err("Cannot get lobby in this state".to_string());
        }
        match reply {
            ServerEvent::ListSessions(ids) => Ok(ids),
            _ => Err("Did not receive lobby".to_string()),
        }
    }

    /// Takes the answer to `JoinSession`, asked from the menu: the start of a
    /// game is played.
    pub fn joined(&mut self, reply: ServerEvent) -> (r: Result<(), String>)
        ensures
            !(old(self)@ is Menu) ==> (r matches Err(e) && e@ == msg_not_in_menu()),
            !(old(self)@ is Menu) ==> final(self)@ == old(self)@,
            old(self)@ is Menu ==> match reply@ {
                ServerEventView::GameStart(s) => r is Ok && final(self)@ == OnlineStateView::Playing(
                    s,
                ),
                _ => (r matches Err(e) && e@ == msg_unexpected()) && final(self)@ == old(self)@,
            },
    {
        if !self.in_menu() {
            return Err("Cannot get lobby in this state".to_string());
        }
        match reply {
            ServerEvent::GameStart(state) => {
                *self = OnlineState::Playing(state);
                Ok(())
            },
            _ => Err("Did not receive lobby".to_string()),
        }
    }

    /// Takes the answer to `CreateSession`: the player waits in the session
    /// it names.
    pub fn created(&mut self, reply: ServerEvent) -> (r: Result<(), String>)
        ensures
            match reply@ {
                ServerEventView::Queue(id) => r is Ok && final(self)@ == OnlineStateView::Queue(id),
                _ => (r matches Err(e) && e@ == msg_unexpected()) && final(self)@ == old(self)@,
            },
    {
        match reply {
            ServerEvent::Queue(id) => {
                *self = OnlineState::Queue(id);
                Ok(())
            },
            _ => Err("Did not receive lobby".to_string()),
        }
    }
}

} // verus!
