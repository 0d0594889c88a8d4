//! The event dispatcher: given the sender and what it asked, it updates the
//! two registries and says which messages go to which connection.

use crate::events::{
    app_updated, initial_app, new_player, ClientEvent, PlayerData, Players, PlayersView,
    ServerApp, ServerAppView, ServerEvent, ServerEventView, ServerGameStateView,
};
use crate::game::{game_wf, Board};
use crate::grid::grid_wf;
use crate::session::{
    any_active, client_index, clients_unique, empty_session, id_shaped,
    lemma_client_index, lemma_session_index, lemma_set_status,
    mark_inactive, member_index, members_unique, replace_session, session_ids, session_index,
    sessions_unique, set_status, status_view, with_session, Client, ClientView, Clients,
    IDAlreadyTaken, Session, SessionView, Sessions, generate_session_id, SESSION_ID_LENGTH,
};
use crate::update::Move;
use vstd::prelude::*;
use vstd::string::StringExecFns;

verus! {

/// A message and the connection it goes to.
#[derive(Debug, PartialEq)]
pub struct Outgoing {
    pub to: String,
    pub event: ServerEvent,
}

pub struct OutgoingView {
    pub to: Seq<char>,
    pub event: ServerEventView,
}

impl View for Outgoing {
    type V = OutgoingView;

    open spec fn view(&self) -> OutgoingView {
        OutgoingView { to: self.to@, event: self.event@ }
    }
}

/// The messages of a list, in order.
pub open spec fn outs_view(v: Vec<Outgoing>) -> Seq<OutgoingView> {
    v@.map_values(|o: Outgoing| o@)
}

pub open spec fn outgoing(to: Seq<char>, event: ServerEventView) -> OutgoingView {
    OutgoingView { to, event }
}

/// The two registries of the broker.
pub struct Broker {
    pub clients: Clients,
    pub sessions: Sessions,
}

pub struct BrokerView {
    pub clients: Seq<ClientView>,
    pub sessions: Seq<SessionView>,
}

impl View for Broker {
    type V = BrokerView;

    open spec fn view(&self) -> BrokerView {
        BrokerView { clients: self.clients@, sessions: self.sessions@ }
    }
}

/// The text of the refusal to join a session that has two players.
pub open spec fn msg_full() -> Seq<char> {
    "Session is full"@
}

/// The text of the refusal to join a session that the joiner waits in.
pub open spec fn msg_already_waiting() -> Seq<char> {
    "Already waiting in this session"@
}

/// The text of the refusal of a message that is no client event.
pub open spec fn msg_invalid(raw: Seq<char>) -> Seq<char> {
    "Invalid Client Event: "@ + raw
}

/// A session keeps its members distinct, has an active one, and lists every
/// player among them. Two players have distinct ids and come with a game and
/// with the id of one of them as the one to move; every game is well formed.
pub open spec fn session_wf(s: SessionView) -> bool {
    &&& members_unique(s.status)
    &&& any_active(s.status)
    &&& match s.data.players {
        PlayersView::Full(first, second, active) => {
            &&& active == first.id || active == second.id
            &&& first.id != second.id
            &&& member_index(s.status, first.id) is Some
            &&& member_index(s.status, second.id) is Some
            &&& s.data.game is Some
        },
        PlayersView::Partial(p) => member_index(s.status, p.id) is Some,
        PlayersView::Empty => true,
    }
    &&& (s.data.game matches Some(a) ==> game_wf(a.game))
}

/// The connection `id` is live and records the session `sid` as its own.
pub open spec fn belongs(cs: Seq<ClientView>, id: Seq<char>, sid: Seq<char>) -> bool {
    exists|c: int| 0 <= c < cs.len() && (#[trigger] cs[c]).id == id && cs[c].session_id == Some(sid)
}

/// Connections and member lists agree: an active member of a session is a
/// live connection that records that session as its own. So a connection
/// is active in one session at most.
pub open spec fn memberships_agree(b: BrokerView) -> bool {
    forall|i: int, k: int|
        0 <= i < b.sessions.len() && 0 <= k < b.sessions[i].status.len() && b.sessions[i].status[k].1
            ==> #[trigger] belongs(b.clients, b.sessions[i].status[k].0, b.sessions[i].id)
}

/// `id` is active in no session but the one at `i`.
pub open spec fn active_only_at(ss: Seq<SessionView>, id: Seq<char>, i: int) -> bool {
    forall|j: int, k: int|
        0 <= j < ss.len() && 0 <= k < ss[j].status.len() && #[trigger] ss[j].status[k] == (id, true)
            ==> j == i
}

/// Connections and sessions have distinct ids, every session is well
/// formed, and connections and member lists agree.
pub open spec fn broker_wf(b: BrokerView) -> bool {
    &&& clients_unique(b.clients)
    &&& sessions_unique(b.sessions)
    &&& forall|i: int| 0 <= i < b.sessions.len() ==> session_wf(#[trigger] b.sessions[i])
    &&& memberships_agree(b)
}

/// The join procedure for the connection at `c` and the session at `i`. A
/// session with two players refuses; one with a waiting player starts the
/// game, with the waiting player to move first, and both players are sent
/// the session, unless the joiner is the waiting player, who is refused; an empty one makes the connection wait there, and it is
/// sent the session id.
pub open spec fn join_at(b: BrokerView, c: int, i: int) -> (BrokerView, Seq<OutgoingView>) {
    let client = b.clients[c].id;
    let s = b.sessions[i];
    let clients = b.clients.update(c, ClientView { session_id: Some(s.id), ..b.clients[c] });
    let status = set_status(s.status, client, true);
    match s.data.players {
        PlayersView::Full(..) => (b, seq![outgoing(client, ServerEventView::Error(msg_full()))]),
        PlayersView::Partial(w) => if w.id == client {
            (b, seq![outgoing(client, ServerEventView::Error(msg_already_waiting()))])
        } else {
            let data = ServerGameStateView {
                players: PlayersView::Full(w, new_player(client), w.id),
                game: Some(initial_app()),
            };
            let b2 = BrokerView {
                clients,
                sessions: b.sessions.update(i, SessionView { status, data, ..s }),
            };
            let first = seq![outgoing(client, ServerEventView::GameStart(data))];
            if client_index(b.clients, w.id) is Some {
                (b2, first.push(outgoing(w.id, ServerEventView::GameStart(data))))
            } else {
                (b2, first)
            }
        },
        PlayersView::Empty => {
            let data = ServerGameStateView {
                players: PlayersView::Partial(new_player(client)),
                game: s.data.game,
            };
            let b2 = BrokerView {
                clients,
                sessions: b.sessions.update(i, SessionView { status, data, ..s }),
            };
            (b2, seq![outgoing(client, ServerEventView::Queue(s.id))])
        },
    }
}

/// Whether the session `s` refuses `client`: it has two players, or
/// `client` is the one waiting in it.
pub open spec fn refuses(s: SessionView, client: Seq<char>) -> bool {
    match s.data.players {
        PlayersView::Full(..) => true,
        PlayersView::Partial(w) => w.id == client,
        PlayersView::Empty => false,
    }
}

/// The connection at `c`, about to join the session `sid`, stops being
/// active in the session it belonged to, if that is another live one.
pub open spec fn leave_prev(b: BrokerView, c: int, sid: Seq<char>) -> BrokerView {
    match b.clients[c].session_id {
        Some(p) => if p != sid {
            match session_index(b.sessions, p) {
                Some(j) => BrokerView { sessions: drop_member(b.sessions, j, b.clients[c].id), ..b },
                None => b,
            }
        } else {
            b
        },
        None => b,
    }
}

/// The join procedure for `client` and the session `sid`; nothing happens
/// for a connection or a session that is not there. A join that is not
/// refused first takes the connection out of its previous session.
pub open spec fn join_step(b: BrokerView, client: Seq<char>, sid: Seq<char>) -> (
    BrokerView,
    Seq<OutgoingView>,
) {
    match (client_index(b.clients, client), session_index(b.sessions, sid)) {
        (Some(c), Some(i)) => if refuses(b.sessions[i], client) {
            join_at(b, c, i)
        } else {
            let b1 = leave_prev(b, c, sid);
            join_at(b1, c, session_index(b1.sessions, sid)->0)
        },
        _ => (b, seq![]),
    }
}

/// A new session under `id` joined by the connection at `c`, which first
/// leaves its previous session.
pub open spec fn create_at(b: BrokerView, c: int, id: Seq<char>) -> (
    BrokerView,
    Seq<OutgoingView>,
) {
    let b1 = leave_prev(b, c, id);
    let b2 = BrokerView { sessions: with_session(b1.sessions, id), ..b1 };
    join_at(b2, c, session_index(b2.sessions, id)->0)
}

/// `CreateSession` from `client`, with `id` for the new session.
pub open spec fn create_step(b: BrokerView, client: Seq<char>, id: Seq<char>) -> (
    BrokerView,
    Seq<OutgoingView>,
) {
    match client_index(b.clients, client) {
        None => (b, seq![]),
        Some(c) => create_at(b, c, id),
    }
}

/// `JoinSession(sid)` from `client`: a session that is not there is created
/// under that id first.
pub open spec fn join_session_step(b: BrokerView, client: Seq<char>, sid: Seq<char>) -> (
    BrokerView,
    Seq<OutgoingView>,
) {
    if client_index(b.clients, client) is None {
        (b, seq![])
    } else if session_index(b.sessions, sid) is None {
        create_step(b, client, sid)
    } else {
        join_step(b, client, sid)
    }
}

/// The answer to `ListSessions`: the ids of all live sessions.
pub open spec fn list_out(b: BrokerView, client: Seq<char>) -> Seq<OutgoingView> {
    if client_index(b.clients, client) is Some {
        seq![outgoing(client, ServerEventView::ListSessions(session_ids(b.sessions)))]
    } else {
        seq![]
    }
}

/// The sessions after `client` stops being active in the session at `i`:
/// the session goes once no member is active.
pub open spec fn drop_member(ss: Seq<SessionView>, i: int, client: Seq<char>) -> Seq<SessionView> {
    let s = ss[i];
    let s2 = SessionView { status: mark_inactive(s.status, client), ..s };
    if any_active(s2.status) {
        ss.update(i, s2)
    } else {
        ss.remove(i)
    }
}

/// `LeaveSession` from `client`: it stops being active in its session and
/// no longer belongs to one.
pub open spec fn leave_step(b: BrokerView, client: Seq<char>) -> BrokerView {
    match client_index(b.clients, client) {
        None => b,
        Some(c) => match b.clients[c].session_id {
            None => b,
            Some(sid) => match session_index(b.sessions, sid) {
                None => b,
                Some(i) => BrokerView {
                    clients: b.clients.update(c, ClientView { session_id: None, ..b.clients[c] }),
                    sessions: drop_member(b.sessions, i, client),
                },
            },
        },
    }
}

/// The connection `client` closes: it leaves the registry and stops being
/// active in its session.
pub open spec fn disconnect_step(b: BrokerView, client: Seq<char>) -> BrokerView {
    match client_index(b.clients, client) {
        None => b,
        Some(c) => {
            let clients = b.clients.remove(c);
            match b.clients[c].session_id {
                None => BrokerView { clients, ..b },
                Some(sid) => match session_index(b.sessions, sid) {
                    None => BrokerView { clients, ..b },
                    Some(i) => BrokerView { clients, sessions: drop_member(b.sessions, i, client) },
                },
            }
        },
    }
}

/// Whether the session `s` has `id` as a member.
pub open spec fn has_member(s: SessionView, id: Seq<char>) -> bool {
    member_index(s.status, id) is Some
}

/// The first session in registry order that has `id` as a member.
pub open spec fn first_with_member(ss: Seq<SessionView>, id: Seq<char>) -> Option<int> {
    if exists|i: int| 0 <= i < ss.len() && has_member(ss[i], id) {
        Some(
            choose|i: int|
                0 <= i < ss.len() && has_member(ss[i], id) && forall|j: int|
                    0 <= j < i ==> !has_member(#[trigger] ss[j], id),
        )
    } else {
        None
    }
}

/// A new connection `client`: it joins the registry, belonging to the first
/// session that lists it, where it becomes active again.
pub open spec fn connect_step(b: BrokerView, client: Seq<char>) -> BrokerView {
    match first_with_member(b.sessions, client) {
        None => BrokerView {
            clients: b.clients.push(ClientView { id: client, session_id: None }),
            ..b
        },
        Some(i) => BrokerView {
            clients: b.clients.push(ClientView { id: client, session_id: Some(b.sessions[i].id) }),
            sessions: b.sessions.update(
                i,
                SessionView { status: set_status(b.sessions[i].status, client, true), ..b.sessions[i] },
            ),
        },
    }
}

/// The session and game in which a move of `client` is its turn: the
/// connection is there, its session is there and has two players, and
/// `client` is the one to move.
pub open spec fn turn_of(b: BrokerView, client: Seq<char>) -> Option<(int, ServerAppView)> {
    match client_index(b.clients, client) {
        None => None,
        Some(c) => match b.clients[c].session_id {
            None => None,
            Some(sid) => match session_index(b.sessions, sid) {
                None => None,
                Some(i) => match b.sessions[i].data.players {
                    PlayersView::Full(_, _, active) => if active == client {
                        match b.sessions[i].data.game {
                            Some(app) => Some((i, app)),
                            None => None,
                        }
                    } else {
                        None
                    },
                    _ => None,
                },
            },
        },
    }
}

/// The players with the turn passed to the other one.
pub open spec fn pass_turn(p: PlayersView) -> PlayersView {
    match p {
        PlayersView::Full(first, second, active) => PlayersView::Full(
            first,
            second,
            if active == first.id { second.id } else { first.id },
        ),
        _ => p,
    }
}

/// The sessions after an accepted move in the session at `i`: the new game
/// is kept and the turn passes.
pub open spec fn moved_on(ss: Seq<SessionView>, i: int, app: ServerAppView) -> Seq<SessionView> {
    let s = ss[i];
    ss.update(
        i,
        SessionView {
            data: ServerGameStateView { players: pass_turn(s.data.players), game: Some(app) },
            ..s
        },
    )
}

/// `ev` for each of the first `n` members that is a live connection, in
/// member order.
pub open spec fn broadcast(
    st: Seq<(Seq<char>, bool)>,
    cs: Seq<ClientView>,
    ev: ServerEventView,
    n: int,
) -> Seq<OutgoingView>
    decreases n,
{
    if n <= 0 {
        seq![]
    } else {
        let prev = broadcast(st, cs, ev, n - 1);
        if client_index(cs, st[n - 1].0) is Some {
            prev.push(outgoing(st[n - 1].0, ev))
        } else {
            prev
        }
    }
}

/// `GameEvent(mv)` from `client`. Out of turn, or outside a game, it is
/// ignored without a word. In turn, the move goes to the game: a refusal
/// goes back to the mover alone and changes nothing; an accepted move is
/// kept, the turn passes, and the new game goes to every member.
pub open spec fn game_event_rel(
    b: BrokerView,
    client: Seq<char>,
    mv: Move,
    b2: BrokerView,
    out: Seq<OutgoingView>,
) -> bool {
    match turn_of(b, client) {
        None => b2 == b && out == Seq::<OutgoingView>::empty(),
        Some((i, app)) => exists|app2: ServerAppView, r: Result<(), Seq<char>>|
            #[trigger] app_updated(app, mv, app2, r) && match r {
                Err(e) => b2 == b && out == seq![outgoing(client, ServerEventView::Error(e))],
                Ok(_) => {
                    &&& b2 == BrokerView { sessions: moved_on(b.sessions, i, app2), ..b }
                    &&& out == broadcast(
                        b.sessions[i].status,
                        b.clients,
                        ServerEventView::GameUpdate(app2),
                        b.sessions[i].status.len() as int,
                    )
                },
            },
    }
}

/// A fresh session under `id` leaves the others as they were, and is found
/// under its id.
pub proof fn lemma_with_session(ss: Seq<SessionView>, id: Seq<char>)
    requires
        sessions_unique(ss),
        forall|j: int| 0 <= j < ss.len() ==> session_wf(#[trigger] ss[j]),
    ensures
        sessions_unique(with_session(ss, id)),
        session_index(with_session(ss, id), id) matches Some(i) && with_session(ss, id)[i]
            == empty_session(id) && forall|j: int|
            0 <= j < with_session(ss, id).len() && j != i ==> session_wf(
                #[trigger] with_session(ss, id)[j],
            ),
{
    let ss2 = with_session(ss, id);
    match session_index(ss, id) {
        Some(i) => {
            assert(ss2[i].id == id);
        },
        None => {
            assert(ss2[ss.len() as int].id == id);
        },
    }
    assert(sessions_unique(ss2)) by {
        assert forall|x: int, y: int|
            0 <= x < ss2.len() && 0 <= y < ss2.len() && x != y implies ss2[x].id != ss2[y].id by {
            if session_index(ss, id) is None {
                if x == ss.len() {
                    assert(ss2[y] == ss[y]);
                } else if y == ss.len() {
                    assert(ss2[x] == ss[x]);
                }
            }
        }
    }
    let i = session_index(ss2, id)->0;
    lemma_session_index(ss2, i);
    assert forall|j: int| 0 <= j < ss2.len() && j != i implies session_wf(#[trigger] ss2[j]) by {
        assert(ss2[j] == ss[j]);
    }
}

/// Dropping a member keeps the sessions well formed.
pub proof fn lemma_drop_wf(ss: Seq<SessionView>, i: int, client: Seq<char>)
    requires
        sessions_unique(ss),
        0 <= i < ss.len(),
        forall|j: int| 0 <= j < ss.len() ==> session_wf(#[trigger] ss[j]),
    ensures
        sessions_unique(drop_member(ss, i, client)),
        forall|j: int|
            0 <= j < drop_member(ss, i, client).len() ==> session_wf(
                #[trigger] drop_member(ss, i, client)[j],
            ),
{
    let s = ss[i];
    lemma_set_status(s.status, client, false);
    let ss2 = drop_member(ss, i, client);
    if any_active(mark_inactive(s.status, client)) {
        assert forall|j: int| 0 <= j < ss2.len() implies session_wf(#[trigger] ss2[j]) by {
            if j != i {
                assert(ss2[j] == ss[j]);
            }
        }
        assert forall|x: int, y: int|
            0 <= x < ss2.len() && 0 <= y < ss2.len() && x != y implies ss2[x].id != ss2[y].id by {
            assert(ss2[x].id == ss[x].id);
            assert(ss2[y].id == ss[y].id);
        }
    } else {
        assert forall|j: int| 0 <= j < ss2.len() implies session_wf(#[trigger] ss2[j]) by {
            if j < i {
                assert(ss2[j] == ss[j]);
            } else {
                assert(ss2[j] == ss[j + 1]);
            }
        }
        assert forall|x: int, y: int|
            0 <= x < ss2.len() && 0 <= y < ss2.len() && x != y implies ss2[x].id != ss2[y].id by {
            let x0 = if x < i { x } else { x + 1 };
            let y0 = if y < i { y } else { y + 1 };
            assert(ss2[x] == ss[x0]);
            assert(ss2[y] == ss[y0]);
        }
    }
}

/// Only the entry of `id` changes when it is marked inactive, and it is
/// then not active.
pub proof fn lemma_mark_inactive_entries(st: Seq<(Seq<char>, bool)>, id: Seq<char>)
    requires
        members_unique(st),
    ensures
        mark_inactive(st, id).len() == st.len(),
        forall|k: int|
            0 <= k < st.len() && (#[trigger] mark_inactive(st, id)[k]).1 ==> mark_inactive(st, id)[k]
                == st[k] && st[k].0 != id,
{
    let mi = mark_inactive(st, id);
    match member_index(st, id) {
        Some(m) => {
            assert forall|k: int| 0 <= k < st.len() && (#[trigger] mi[k]).1 implies mi[k] == st[k]
                && st[k].0 != id by {
                if k != m {
                    assert(st[m].0 == id);
                }
            }
        },
        None => {
            assert forall|k: int| 0 <= k < st.len() && (#[trigger] mi[k]).1 implies mi[k] == st[k]
                && st[k].0 != id by {
                if st[k].0 == id {
                    assert(exists|i: int| 0 <= i < st.len() && st[i].0 == id);
                }
            }
        },
    }
}

/// Setting the status of `id` leaves the other entries where they were.
pub proof fn lemma_set_status_entries(st: Seq<(Seq<char>, bool)>, id: Seq<char>, active: bool)
    requires
        members_unique(st),
    ensures
        forall|k: int|
            0 <= k < set_status(st, id, active).len() && (#[trigger] set_status(st, id, active)[k]).0
                != id ==> k < st.len() && set_status(st, id, active)[k] == st[k],
{
}

/// In a well-formed broker, a session where the connection at `c` is
/// active is the one it records.
pub proof fn lemma_active_records(b: BrokerView, c: int)
    requires
        broker_wf(b),
        0 <= c < b.clients.len(),
    ensures
        forall|j: int, k: int|
            0 <= j < b.sessions.len() && 0 <= k < b.sessions[j].status.len()
                && #[trigger] b.sessions[j].status[k] == (b.clients[c].id, true)
                ==> b.clients[c].session_id == Some(b.sessions[j].id),
{
    let id = b.clients[c].id;
    assert forall|j: int, k: int|
        0 <= j < b.sessions.len() && 0 <= k < b.sessions[j].status.len()
            && #[trigger] b.sessions[j].status[k] == (id, true) implies b.clients[c].session_id
        == Some(b.sessions[j].id) by {
        assert(belongs(b.clients, b.sessions[j].status[k].0, b.sessions[j].id));
        let c2 = choose|c2: int|
            0 <= c2 < b.clients.len() && (#[trigger] b.clients[c2]).id == id
                && b.clients[c2].session_id == Some(b.sessions[j].id);
        assert(c2 == c);
    }
}

/// Dropping a connection that is active in the session at `j` alone from
/// it keeps the member lists in agreement with connections `cs2` that keep
/// every other connection; it is then active nowhere.
pub proof fn lemma_drop_agree(b: BrokerView, j: int, id: Seq<char>, cs2: Seq<ClientView>)
    requires
        broker_wf(b),
        0 <= j < b.sessions.len(),
        active_only_at(b.sessions, id, j),
        forall|c: int|
            0 <= c < b.clients.len() && b.clients[c].id != id ==> exists|c2: int|
                0 <= c2 < cs2.len() && #[trigger] cs2[c2] == b.clients[c],
    ensures
        memberships_agree(BrokerView { clients: cs2, sessions: drop_member(b.sessions, j, id) }),
        active_only_at(drop_member(b.sessions, j, id), id, -1),
{
    let ss = b.sessions;
    let ss2 = drop_member(ss, j, id);
    let st2 = mark_inactive(ss[j].status, id);
    assert(session_wf(ss[j]));
    lemma_mark_inactive_entries(ss[j].status, id);
    let kept = any_active(st2);
    assert forall|j2: int, k2: int|
        0 <= j2 < ss2.len() && 0 <= k2 < ss2[j2].status.len() && ss2[j2].status[k2].1 implies {
        &&& ss2[j2].status[k2].0 != id
        &&& belongs(cs2, ss2[j2].status[k2].0, ss2[j2].id)
    } by {
        let j0 = if kept || j2 < j { j2 } else { j2 + 1 };
        assert(ss2[j2].id == ss[j0].id);
        if j0 == j {
            assert(ss2[j2].status == st2);
            assert(ss2[j2].status[k2] == ss[j].status[k2]);
        } else {
            assert(ss2[j2] == ss[j0]);
            if ss[j0].status[k2].0 == id {
                assert(ss[j0].status[k2] == (id, true));
            }
        }
        let x = ss[j0].status[k2].0;
        assert(ss[j0].status[k2] == ss2[j2].status[k2]);
        assert(belongs(b.clients, x, ss[j0].id));
        let c = choose|c: int|
            0 <= c < b.clients.len() && (#[trigger] b.clients[c]).id == x
                && b.clients[c].session_id == Some(ss[j0].id);
        let c2 = choose|c2: int| 0 <= c2 < cs2.len() && #[trigger] cs2[c2] == b.clients[c];
        assert(cs2[c2].id == x);
    }
    assert forall|j2: int, k2: int|
        0 <= j2 < ss2.len() && 0 <= k2 < ss2[j2].status.len() && #[trigger] ss2[j2].status[k2] == (
            id,
            true,
        ) implies j2 == -1 by {
        assert(ss2[j2].status[k2].0 != id);
    }
}

/// Marking a connection active in the session at `i`, where alone it may
/// already be active, keeps the member lists in agreement with connections
/// `cs2` that keep every other connection and record that session for it.
pub proof fn lemma_activate_agree(
    b: BrokerView,
    i: int,
    id: Seq<char>,
    cs2: Seq<ClientView>,
    ss2: Seq<SessionView>,
)
    requires
        memberships_agree(b),
        0 <= i < b.sessions.len(),
        members_unique(b.sessions[i].status),
        active_only_at(b.sessions, id, i),
        ss2.len() == b.sessions.len(),
        forall|j: int| 0 <= j < ss2.len() && j != i ==> ss2[j] == b.sessions[j],
        ss2[i].id == b.sessions[i].id,
        ss2[i].status == set_status(b.sessions[i].status, id, true),
        forall|c: int|
            0 <= c < b.clients.len() && b.clients[c].id != id ==> exists|c2: int|
                0 <= c2 < cs2.len() && #[trigger] cs2[c2] == b.clients[c],
        belongs(cs2, id, b.sessions[i].id),
    ensures
        memberships_agree(BrokerView { clients: cs2, sessions: ss2 }),
{
    let ss = b.sessions;
    lemma_set_status_entries(ss[i].status, id, true);
    assert forall|j2: int, k2: int|
        0 <= j2 < ss2.len() && 0 <= k2 < ss2[j2].status.len() && ss2[j2].status[k2].1 implies belongs(
        cs2,
        ss2[j2].status[k2].0,
        ss2[j2].id,
    ) by {
        let x = ss2[j2].status[k2].0;
        if x != id {
            if j2 == i {
                assert(ss2[i].status[k2] == ss[i].status[k2]);
            } else {
                assert(ss2[j2] == ss[j2]);
            }
            assert(ss[j2].status[k2] == ss2[j2].status[k2]);
            assert(belongs(b.clients, x, ss[j2].id));
            let c = choose|c: int|
                0 <= c < b.clients.len() && (#[trigger] b.clients[c]).id == x
                    && b.clients[c].session_id == Some(ss[j2].id);
            let c2 = choose|c2: int| 0 <= c2 < cs2.len() && #[trigger] cs2[c2] == b.clients[c];
            assert(cs2[c2].id == x);
        } else if j2 != i {
            assert(ss2[j2] == ss[j2]);
            assert(ss[j2].status[k2] == (id, true));
        }
    }
}

/// Member lists that keep their active entries under the same session ids
/// stay in agreement with connections that keep every one that is active.
pub proof fn lemma_same_actives_agree(b: BrokerView, b2: BrokerView, id: Seq<char>)
    requires
        memberships_agree(b),
        b2.sessions.len() == b.sessions.len(),
        forall|j: int|
            0 <= j < b.sessions.len() ==> (#[trigger] b2.sessions[j]).id == b.sessions[j].id
                && b2.sessions[j].status == b.sessions[j].status,
        b2.clients == b.clients || active_only_at(b.sessions, id, -1),
        forall|c: int|
            0 <= c < b.clients.len() && b.clients[c].id != id ==> exists|c2: int|
                0 <= c2 < b2.clients.len() && #[trigger] b2.clients[c2] == b.clients[c],
    ensures
        memberships_agree(b2),
{
    assert forall|j: int, k: int|
        0 <= j < b2.sessions.len() && 0 <= k < b2.sessions[j].status.len()
            && b2.sessions[j].status[k].1 implies belongs(
        b2.clients,
        b2.sessions[j].status[k].0,
        b2.sessions[j].id,
    ) by {
        assert(b2.sessions[j].id == b.sessions[j].id);
        let x = b.sessions[j].status[k].0;
        assert(belongs(b.clients, x, b.sessions[j].id));
        let c = choose|c: int|
            0 <= c < b.clients.len() && (#[trigger] b.clients[c]).id == x
                && b.clients[c].session_id == Some(b.sessions[j].id);
        if b2.clients == b.clients {
            assert(b2.clients[c] == b.clients[c]);
        } else {
            assert(b.sessions[j].status[k] == (x, true));
            assert(x != id);
            let c2 = choose|c2: int|
                0 <= c2 < b2.clients.len() && #[trigger] b2.clients[c2] == b.clients[c];
            assert(b2.clients[c2] == b.clients[c]);
        }
    }
}

/// A connection that is not live is active nowhere.
pub proof fn lemma_unregistered_inactive(b: BrokerView, id: Seq<char>)
    requires
        memberships_agree(b),
        client_index(b.clients, id) is None,
    ensures
        active_only_at(b.sessions, id, -1),
{
    assert forall|j: int, k: int|
        0 <= j < b.sessions.len() && 0 <= k < b.sessions[j].status.len()
            && #[trigger] b.sessions[j].status[k] == (id, true) implies j == -1 by {
        assert(belongs(b.clients, b.sessions[j].status[k].0, b.sessions[j].id));
        let c = choose|c: int|
            0 <= c < b.clients.len() && (#[trigger] b.clients[c]).id == id
                && b.clients[c].session_id == Some(b.sessions[j].id);
        assert(exists|i: int| 0 <= i < b.clients.len() && b.clients[i].id == id);
    }
}

/// The connection at `c` records a session that is live.
pub open spec fn records_live(b: BrokerView, c: int) -> bool {
    b.clients[c].session_id is Some && session_index(b.sessions, b.clients[c].session_id->0) is Some
}

/// The connection at `c` is active at most in the session it records, and
/// nowhere when it records none that is live.
pub proof fn lemma_active_where(b: BrokerView, c: int)
    requires
        broker_wf(b),
        0 <= c < b.clients.len(),
    ensures
        records_live(b, c) ==> active_only_at(
            b.sessions,
            b.clients[c].id,
            session_index(b.sessions, b.clients[c].session_id->0)->0,
        ),
        !records_live(b, c) ==> active_only_at(b.sessions, b.clients[c].id, -1),
        forall|j: int, k: int|
            0 <= j < b.sessions.len() && 0 <= k < b.sessions[j].status.len()
                && #[trigger] b.sessions[j].status[k] == (b.clients[c].id, true)
                ==> b.clients[c].session_id == Some(b.sessions[j].id),
{
    lemma_active_records(b, c);
    let id = b.clients[c].id;
    assert forall|j: int, k: int|
        0 <= j < b.sessions.len() && 0 <= k < b.sessions[j].status.len()
            && #[trigger] b.sessions[j].status[k] == (id, true) implies b.clients[c].session_id
        == Some(b.sessions[j].id) && session_index(b.sessions, b.sessions[j].id) == Some(j) by {
        lemma_session_index(b.sessions, j);
    }
    if records_live(b, c) {
        let j = session_index(b.sessions, b.clients[c].session_id->0)->0;
        assert forall|j2: int, k: int|
            0 <= j2 < b.sessions.len() && 0 <= k < b.sessions[j2].status.len()
                && #[trigger] b.sessions[j2].status[k] == (id, true) implies j2 == j by {
            lemma_session_index(b.sessions, j2);
        }
    } else {
        assert forall|j2: int, k: int|
            0 <= j2 < b.sessions.len() && 0 <= k < b.sessions[j2].status.len()
                && #[trigger] b.sessions[j2].status[k] == (id, true) implies j2 == -1 by {
            lemma_session_index(b.sessions, j2);
        }
    }
}

/// Leaving the previous session keeps the broker well formed and the
/// session `sid` as it was; the connection is then active at most in `sid`.
pub proof fn lemma_leave_prev(b: BrokerView, c: int, sid: Seq<char>)
    requires
        broker_wf(b),
        0 <= c < b.clients.len(),
    ensures
        broker_wf(leave_prev(b, c, sid)),
        leave_prev(b, c, sid).clients == b.clients,
        forall|j: int, k: int|
            0 <= j < leave_prev(b, c, sid).sessions.len() && 0 <= k < leave_prev(
                b,
                c,
                sid,
            ).sessions[j].status.len() && #[trigger] leave_prev(b, c, sid).sessions[j].status[k] == (
                b.clients[c].id,
                true,
            ) ==> leave_prev(b, c, sid).sessions[j].id == sid,
        session_index(b.sessions, sid) matches Some(i) ==> session_index(
            leave_prev(b, c, sid).sessions,
            sid,
        ) matches Some(i1) && leave_prev(b, c, sid).sessions[i1] == b.sessions[i],
{
    let id = b.clients[c].id;
    let b1 = leave_prev(b, c, sid);
    lemma_active_where(b, c);
    if b1 != b {
        let p = b.clients[c].session_id->0;
        let j = session_index(b.sessions, p)->0;
        lemma_session_index(b.sessions, j);
        lemma_drop_wf(b.sessions, j, id);
        assert forall|c1: int| 0 <= c1 < b.clients.len() && b.clients[c1].id != id implies exists|
            c2: int,
        | 0 <= c2 < b.clients.len() && #[trigger] b.clients[c2] == b.clients[c1] by {
            assert(b.clients[c1] == b.clients[c1]);
        }
        lemma_drop_agree(b, j, id, b.clients);
        let ss2 = b1.sessions;
        let st2 = mark_inactive(b.sessions[j].status, id);
        if session_index(b.sessions, sid) is Some {
            let i = session_index(b.sessions, sid)->0;
            assert(i != j);
            let i1 = if any_active(st2) || i < j { i } else { i - 1 };
            assert(ss2[i1] == b.sessions[i]);
            lemma_session_index(ss2, i1);
        }
    } else {
        if session_index(b.sessions, sid) is Some {
            let i = session_index(b.sessions, sid)->0;
            lemma_session_index(b.sessions, i);
        }
    }
}

/// A fresh session under `id` keeps member lists and connections in
/// agreement; a connection that was active only under `id` is then active
/// nowhere.
pub proof fn lemma_with_session_agree(b: BrokerView, id: Seq<char>, who: Seq<char>)
    requires
        memberships_agree(b),
        sessions_unique(b.sessions),
        forall|j: int, k: int|
            0 <= j < b.sessions.len() && 0 <= k < b.sessions[j].status.len()
                && #[trigger] b.sessions[j].status[k] == (who, true) ==> b.sessions[j].id == id,
    ensures
        memberships_agree(BrokerView { sessions: with_session(b.sessions, id), ..b }),
        forall|i: int| #[trigger] active_only_at(with_session(b.sessions, id), who, i),
{
    let ss = b.sessions;
    let ws = with_session(ss, id);
    assert forall|j: int|
        0 <= j < ws.len() && 0 < (#[trigger] ws[j]).status.len() implies ws[j] == ss[j] && ws[j].id
        != id by {
        if session_index(ss, id) is Some {
            let i = session_index(ss, id)->0;
            if j == i {
                assert(ws[j].status.len() == 0);
            }
            lemma_session_index(ss, i);
        } else {
            if j == ss.len() {
                assert(ws[j].status.len() == 0);
            }
        }
    }
    assert forall|j: int, k: int|
        0 <= j < ws.len() && 0 <= k < ws[j].status.len() && ws[j].status[k].1 implies #[trigger] belongs(
        b.clients,
        ws[j].status[k].0,
        ws[j].id,
    ) by {
        assert(belongs(b.clients, ss[j].status[k].0, ss[j].id));
    }
    assert forall|i: int| #[trigger] active_only_at(ws, who, i) by {
        assert forall|j: int, k: int|
            0 <= j < ws.len() && 0 <= k < ws[j].status.len() && #[trigger] ws[j].status[k] == (
                who,
                true,
            ) implies j == i by {
            assert(ws[j] == ss[j]);
        }
    }
}

/// The join procedure keeps the broker well formed, also when the session
/// is a fresh empty one.
pub proof fn lemma_join_wf(b: BrokerView, c: int, i: int)
    requires
        clients_unique(b.clients),
        sessions_unique(b.sessions),
        0 <= c < b.clients.len(),
        0 <= i < b.sessions.len(),
        forall|j: int| 0 <= j < b.sessions.len() && j != i ==> session_wf(#[trigger] b.sessions[j]),
        session_wf(b.sessions[i]) || b.sessions[i] == empty_session(b.sessions[i].id),
        memberships_agree(b),
        !refuses(b.sessions[i], b.clients[c].id) ==> active_only_at(b.sessions, b.clients[c].id, i),
    ensures
        broker_wf(join_at(b, c, i).0),
{
    let s = b.sessions[i];
    let client = b.clients[c].id;
    lemma_set_status(s.status, client, true);
    let b2 = join_at(b, c, i).0;
    if !refuses(s, client) {
        assert(s.status =~= Seq::<(Seq<char>, bool)>::empty() || members_unique(s.status));
        assert forall|c1: int| 0 <= c1 < b.clients.len() && b.clients[c1].id != client implies exists|
            c2: int,
        | 0 <= c2 < b2.clients.len() && #[trigger] b2.clients[c2] == b.clients[c1] by {
            assert(b2.clients[c1] == b.clients[c1]);
        }
        assert(b2.clients[c].id == client);
        assert(belongs(b2.clients, client, s.id));
        lemma_activate_agree(b, i, client, b2.clients, b2.sessions);
    }
    assert(grid_wf(Board::new_view()));
    assert forall|x: int, y: int|
        0 <= x < b2.clients.len() && 0 <= y < b2.clients.len() && x != y implies b2.clients[x].id
        != b2.clients[y].id by {
        assert(b2.clients[x].id == b.clients[x].id);
        assert(b2.clients[y].id == b.clients[y].id);
    }
    assert forall|x: int, y: int|
        0 <= x < b2.sessions.len() && 0 <= y < b2.sessions.len() && x != y implies b2.sessions[x].id
        != b2.sessions[y].id by {
        assert(b2.sessions[x].id == b.sessions[x].id);
        assert(b2.sessions[y].id == b.sessions[y].id);
    }
}

impl Broker {
    pub open spec fn wf(&self) -> bool {
        broker_wf(self@)
    }

    /// No connection and no session.
    pub fn new() -> (r: Broker)
        ensures
            r.wf(),
            r@.clients.len() == 0,
            r@.sessions.len() == 0,
    {
        Broker { clients: Clients::new(), sessions: Sessions::new() }
    }

    /// The join procedure for the connection at `c` and the session at `i`.
    fn start_game(&mut self, c: usize, i: usize) -> (r: Vec<Outgoing>)
        requires
            clients_unique(old(self)@.clients),
            sessions_unique(old(self)@.sessions),
            c < old(self)@.clients.len(),
            i < old(self)@.sessions.len(),
            forall|j: int|
                0 <= j < old(self)@.sessions.len() && j != i ==> session_wf(
                    #[trigger] old(self)@.sessions[j],
                ),
            session_wf(old(self)@.sessions[i as int]) || old(self)@.sessions[i as int]
                == empty_session(old(self)@.sessions[i as int].id),
            memberships_agree(old(self)@),
            !refuses(old(self)@.sessions[i as int], old(self)@.clients[c as int].id)
                ==> active_only_at(old(self)@.sessions, old(self)@.clients[c as int].id, i as int),
        ensures
            (final(self)@, outs_view(r)) == join_at(old(self)@, c as int, i as int),
            final(self).wf(),
    {
        proof {
            lemma_join_wf(self@, c as int, i as int);
        }
        let client_id = self.clients.entries[c].id.clone();
        let players = self.sessions.entries[i].data.players.clone();
        match players {
            Players::Full(..) => {
                let r = vec![
                    Outgoing { to: client_id, event: ServerEvent::Error("Session is full".to_string()) },
                ];
                proof {
                    assert(outs_view(r) =~= join_at(old(self)@, c as int, i as int).1);
                }
                r
            },
            Players::Partial(player) => {
                if player.id == client_id {
                    let r = vec![
                        Outgoing {
                            to: client_id,
                            event: ServerEvent::Error("Already waiting in this session".to_string()),
                        },
                    ];
                    proof {
                        assert(outs_view(r) =~= join_at(old(self)@, c as int, i as int).1);
                    }
                    return r;
                }
                let waiting = player.id.clone();
                let notify = self.clients.find(&waiting).is_some();
                let mut session = self.sessions.take(i);
                proof {
                    assert(members_unique(status_view(session.client_status)));
                }
                session.insert_client(&client_id, true);
                self.clients.set_session(c, Some(session.id.clone()));
                session.data.game = Some(ServerApp::default());
                let first = player.id.clone();
                session.data.players = Players::Full(player, PlayerData::new(&client_id), first);
                let data = session.data.clone();
                let data2 = session.data.clone();
                self.sessions.put(i, session);
                let mut r = vec![Outgoing { to: client_id, event: ServerEvent::GameStart(data) }];
                proof {
                    assert(self@.clients =~= join_at(old(self)@, c as int, i as int).0.clients);
                    assert(self@.sessions =~= join_at(old(self)@, c as int, i as int).0.sessions);
                }
                if notify {
                    r.push(Outgoing { to: waiting, event: ServerEvent::GameStart(data2) });
                }
                proof {
                    assert(outs_view(r) =~= join_at(old(self)@, c as int, i as int).1);
                }
                r
            },
            Players::Empty => {
                let mut session = self.sessions.take(i);
                proof {
                    assert(members_unique(status_view(session.client_status)));
                }
                session.insert_client(&client_id, true);
                self.clients.set_session(c, Some(session.id.clone()));
                session.data.players = Players::Partial(PlayerData::new(&client_id));
                let sid = session.id.clone();
                self.sessions.put(i, session);
                let r = vec![Outgoing { to: client_id, event: ServerEvent::Queue(sid) }];
                proof {
                    assert(self@.clients =~= join_at(old(self)@, c as int, i as int).0.clients);
                    assert(self@.sessions =~= join_at(old(self)@, c as int, i as int).0.sessions);
                    assert(outs_view(r) =~= join_at(old(self)@, c as int, i as int).1);
                }
                r
            },
        }
    }

    /// The connection at `c` stops being active in its previous session, if
    /// that is another live one than `sid`.
    fn leave_previous(&mut self, c: usize, sid: &String)
        requires
            old(self).wf(),
            c < old(self)@.clients.len(),
        ensures
            final(self)@ == leave_prev(old(self)@, c as int, sid@),
    {
        let prev = match &self.clients.entries[c].session_id {
            Some(p) => p.clone(),
            None => return,
        };
        if prev == *sid {
            return;
        }
        let j = match self.sessions.find(&prev) {
            Some(j) => j,
            None => return,
        };
        proof {
            lemma_session_index(self@.sessions, j as int);
        }
        let id = self.clients.entries[c].id.clone();
        self.drop_member(j, &id);
    }

    /// A new session under `id`, joined by the connection at `c` once it has
    /// left its previous session.
    fn create_and_join(&mut self, c: usize, id: &String) -> (r: Vec<Outgoing>)
        requires
            old(self).wf(),
            c < old(self)@.clients.len(),
        ensures
            final(self).wf(),
            (final(self)@, outs_view(r)) == create_at(old(self)@, c as int, id@),
    {
        proof {
            lemma_leave_prev(self@, c as int, id@);
        }
        self.leave_previous(c, id);
        proof {
            lemma_with_session(self@.sessions, id@);
            lemma_with_session_agree(self@, id@, self@.clients[c as int].id);
        }
        replace_session(id, &mut self.sessions);
        match self.sessions.find(id) {
            Some(i) => {
                proof {
                    lemma_session_index(self@.sessions, i as int);
                }
                self.start_game(c, i)
            },
            None => vec![],
        }
    }

    /// `CreateSession` from `client_id`, with `id` for the new session: a
    /// session under `id` replaces any that had it, and the sender joins it.
    pub fn create_session_with_id(&mut self, client_id: &String, id: String) -> (r: Vec<Outgoing>)
        requires
            old(self).wf(),
        ensures
            final(self).wf(),
            (final(self)@, outs_view(r)) == create_step(old(self)@, client_id@, id@),
    {
        let c = match self.clients.find(client_id) {
            Some(c) => c,
            None => return vec![],
        };
        proof {
            lemma_client_index(self@.clients, c as int);
        }
        self.create_and_join(c, &id)
    }

    /// `JoinSession(sid)` from `client_id`: a session that is not there is
    /// created under that id, and the sender joins it.
    pub fn join_session(&mut self, client_id: &String, sid: &String) -> (r: Vec<Outgoing>)
        requires
            old(self).wf(),
        ensures
            final(self).wf(),
            (final(self)@, outs_view(r)) == join_session_step(old(self)@, client_id@, sid@),
    {
        let c = match self.clients.find(client_id) {
            Some(c) => c,
            None => return vec![],
        };
        proof {
            lemma_client_index(self@.clients, c as int);
        }
        let i = match self.sessions.find(sid) {
            Some(i) => i,
            None => return self.create_and_join(c, sid),
        };
        proof {
            lemma_session_index(self@.sessions, i as int);
            assert(session_wf(self@.sessions[i as int]));
        }
        let refused = match &self.sessions.entries[i].data.players {
            Players::Full(..) => true,
            Players::Partial(w) => w.id == *client_id,
            Players::Empty => false,
        };
        if refused {
            return self.start_game(c, i);
        }
        proof {
            lemma_leave_prev(self@, c as int, sid@);
        }
        self.leave_previous(c, sid);
        match self.sessions.find(sid) {
            Some(i1) => {
                proof {
                    lemma_session_index(self@.sessions, i1 as int);
                    let id = self@.clients[c as int].id;
                    assert forall|j: int, k: int|
                        0 <= j < self@.sessions.len() && 0 <= k < self@.sessions[j].status.len()
                            && #[trigger] self@.sessions[j].status[k] == (id, true) implies j
                        == i1 by {
                        lemma_session_index(self@.sessions, j);
                    }
                }
                self.start_game(c, i1)
            },
            None => vec![],
        }
    }

    /// `ListSessions` from `client_id`: the ids of all live sessions.
    pub fn list_sessions(&self, client_id: &String) -> (r: Vec<Outgoing>)
        ensures
            outs_view(r) == list_out(self@, client_id@),
    {
        match self.clients.find(client_id) {
            Some(_) => {
                let ids = self.sessions.list_ids();
                let r = vec![Outgoing { to: client_id.clone(), event: ServerEvent::ListSessions(ids) }];
                proof {
                    assert(outs_view(r) =~= list_out(self@, client_id@));
                }
                r
            },
            None => {
                let r: Vec<Outgoing> = vec![];
                proof {
                    assert(outs_view(r) =~= list_out(self@, client_id@));
                }
                r
            },
        }
    }

    /// Marks `client_id` inactive in the session at `i`, and removes the
    /// session once no member is active.
    fn drop_member(&mut self, i: usize, client_id: &String)
        requires
            old(self)@.sessions.len() > i,
            sessions_unique(old(self)@.sessions),
            forall|j: int|
                0 <= j < old(self)@.sessions.len() ==> session_wf(#[trigger] old(self)@.sessions[j]),
        ensures
            final(self)@ == (BrokerView {
                sessions: drop_member(old(self)@.sessions, i as int, client_id@),
                ..old(self)@
            }),
    {
        proof {
            lemma_drop_wf(self@.sessions, i as int, client_id@);
        }
        let mut session = self.sessions.take(i);
        proof {
            assert(members_unique(status_view(session.client_status)));
        }
        let _ = session.set_client_active_status(client_id, false);
        proof {
            assert(session@.status == mark_inactive(old(self)@.sessions[i as int].status, client_id@));
        }
        let active = session.has_active_client();
        self.sessions.put(i, session);
        proof {
            assert(self@.sessions =~= old(self)@.sessions.update(
                i as int,
                SessionView {
                    status: mark_inactive(old(self)@.sessions[i as int].status, client_id@),
                    ..old(self)@.sessions[i as int]
                },
            ));
        }
        if !active {
            self.sessions.remove_at(i);
            proof {
                assert(self@.sessions =~= old(self)@.sessions.remove(i as int));
            }
        }
    }

    /// `LeaveSession` from `client_id`: it stops being active in its
    /// session, which goes once no member is active.
    pub fn leave_session(&mut self, client_id: &String)
        requires
            old(self).wf(),
        ensures
            final(self).wf(),
            final(self)@ == leave_step(old(self)@, client_id@),
    {
        let c = match self.clients.find(client_id) {
            Some(c) => c,
            None => return,
        };
        proof {
            lemma_client_index(self@.clients, c as int);
        }
        let sid = match &self.clients.entries[c].session_id {
            Some(s) => s.clone(),
            None => return,
        };
        let i = match self.sessions.find(&sid) {
            Some(i) => i,
            None => return,
        };
        proof {
            lemma_session_index(self@.sessions, i as int);
            lemma_drop_wf(self@.sessions, i as int, client_id@);
            lemma_active_where(self@, c as int);
        }
        let ghost b0 = self@;
        self.clients.set_session(c, None);
        proof {
            assert forall|c1: int| 0 <= c1 < b0.clients.len() && b0.clients[c1].id != client_id@ implies exists|
                c2: int,
            | 0 <= c2 < self@.clients.len() && #[trigger] self@.clients[c2] == b0.clients[c1] by {
                assert(self@.clients[c1] == b0.clients[c1]);
            }
            lemma_drop_agree(b0, i as int, client_id@, self@.clients);
        }
        proof {
            assert forall|x: int, y: int|
                0 <= x < self@.clients.len() && 0 <= y < self@.clients.len() && x != y implies self@.clients[x].id
                != self@.clients[y].id by {
                assert(self@.clients[x].id == old(self)@.clients[x].id);
                assert(self@.clients[y].id == old(self)@.clients[y].id);
            }
        }
        self.drop_member(i, client_id);
    }

    /// The connection `client_id` closes: it leaves the registry and stops
    /// being active in its session, which goes once no member is active.
    pub fn disconnect(&mut self, client_id: &String)
        requires
            old(self).wf(),
        ensures
            final(self).wf(),
            final(self)@ == disconnect_step(old(self)@, client_id@),
    {
        let c = match self.clients.find(client_id) {
            Some(c) => c,
            None => return,
        };
        proof {
            lemma_client_index(self@.clients, c as int);
        }
        let sid = match &self.clients.entries[c].session_id {
            Some(s) => Some(s.clone()),
            None => None,
        };
        proof {
            lemma_active_where(self@, c as int);
        }
        let ghost b0 = self@;
        self.clients.remove_at(c);
        proof {
            assert forall|c1: int| 0 <= c1 < b0.clients.len() && b0.clients[c1].id != client_id@ implies exists|
                c2: int,
            | 0 <= c2 < self@.clients.len() && #[trigger] self@.clients[c2] == b0.clients[c1] by {
                let c2 = if c1 < c { c1 } else { c1 - 1 };
                assert(self@.clients[c2] == b0.clients[c1]);
            }
            assert forall|j: int| 0 <= j < b0.sessions.len() implies (#[trigger] self@.sessions[j]).id
                == b0.sessions[j].id && self@.sessions[j].status == b0.sessions[j].status by {}
            assert forall|x: int, y: int|
                0 <= x < self@.clients.len() && 0 <= y < self@.clients.len() && x != y implies self@.clients[x].id
                != self@.clients[y].id by {
                let x0 = if x < c { x } else { x + 1 };
                let y0 = if y < c { y } else { y + 1 };
                assert(self@.clients[x] == old(self)@.clients[x0]);
                assert(self@.clients[y] == old(self)@.clients[y0]);
            }
        }
        let sid = match sid {
            Some(s) => s,
            None => {
                proof {
                    lemma_same_actives_agree(b0, self@, client_id@);
                }
                return;
            },
        };
        let i = match self.sessions.find(&sid) {
            Some(i) => i,
            None => {
                proof {
                    lemma_same_actives_agree(b0, self@, client_id@);
                }
                return;
            },
        };
        proof {
            lemma_session_index(self@.sessions, i as int);
            lemma_drop_wf(self@.sessions, i as int, client_id@);
            lemma_drop_agree(b0, i as int, client_id@, self@.clients);
        }
        self.drop_member(i, client_id);
    }

    /// A new connection `client_id`. An id that is already live is refused
    /// and changes nothing; otherwise the connection joins the registry,
    /// belonging to the first session that lists it, where it becomes active
    /// again.
    pub fn connect(&mut self, client_id: &String) -> (r: Result<(), IDAlreadyTaken>)
        requires
            old(self).wf(),
        ensures
            final(self).wf(),
            r is Err <==> client_index(old(self)@.clients, client_id@) is Some,
            r is Err ==> final(self)@ == old(self)@,
            r is Ok ==> final(self)@ == connect_step(old(self)@, client_id@),
    {
        if self.clients.find(client_id).is_some() {
            return Err(IDAlreadyTaken);
        }
        let mut found: Option<usize> = None;
        let mut i: usize = 0;
        while i < self.sessions.entries.len()
            invariant
                self@ == old(self)@,
                i <= self@.sessions.len(),
                self.sessions.entries@.len() == self@.sessions.len(),
                found is None ==> forall|j: int| 0 <= j < i ==> !has_member(#[trigger] self@.sessions[j], client_id@),
                found matches Some(k) ==> k < self@.sessions.len() && has_member(self@.sessions[k as int], client_id@)
                    && forall|j: int| 0 <= j < k ==> !has_member(#[trigger] self@.sessions[j], client_id@),
            decreases self@.sessions.len() - i,
        {
            if found.is_none() && self.sessions.entries[i].contains_client(client_id) {
                found = Some(i);
            }
            i = i + 1;
        }
        proof {
            lemma_unregistered_inactive(self@, client_id@);
            assert forall|x: int, y: int|
                0 <= x < self@.clients.len() + 1 && 0 <= y < self@.clients.len() + 1 && x != y implies
                self@.clients.push(ClientView { id: client_id@, session_id: None })[x].id != self@.clients.push(ClientView { id: client_id@, session_id: None })[y].id by {
                if x == self@.clients.len() {
                    assert(self@.clients[y].id != client_id@);
                } else if y == self@.clients.len() {
                    assert(self@.clients[x].id != client_id@);
                }
            }
        }
        match found {
            None => {
                proof {
                    assert(first_with_member(self@.sessions, client_id@) is None);
                }
                self.clients.push(client_id.clone(), None);
                proof {
                    let b0 = old(self)@;
                    assert forall|c1: int| 0 <= c1 < b0.clients.len() && b0.clients[c1].id != client_id@ implies exists|
                        c2: int,
                    | 0 <= c2 < self@.clients.len() && #[trigger] self@.clients[c2] == b0.clients[c1] by {
                        assert(self@.clients[c1] == b0.clients[c1]);
                    }
                    lemma_same_actives_agree(b0, self@, client_id@);
                }
                Ok(())
            },
            Some(k) => {
                proof {
                    let j = first_with_member(self@.sessions, client_id@)->0;
                    assert(j == k);
                    lemma_set_status(self@.sessions[k as int].status, client_id@, true);
                }
                let mut session = self.sessions.take(k);
                proof {
                    assert(members_unique(status_view(session.client_status)));
                }
                session.insert_client(client_id, true);
                let sid = session.id.clone();
                self.sessions.put(k, session);
                self.clients.push(client_id.clone(), Some(sid));
                proof {
                    let b2 = connect_step(old(self)@, client_id@);
                    assert(self@.sessions =~= b2.sessions);
                    assert(self@.clients =~= b2.clients);
                    assert forall|x: int, y: int|
                        0 <= x < self@.clients.len() && 0 <= y < self@.clients.len() && x != y implies
                        self@.clients[x].id != self@.clients[y].id by {
                        if x == old(self)@.clients.len() {
                            assert(old(self)@.clients[y].id != client_id@);
                        } else if y == old(self)@.clients.len() {
                            assert(old(self)@.clients[x].id != client_id@);
                        }
                    }
                    assert forall|j: int| 0 <= j < self@.sessions.len() implies session_wf(#[trigger] self@.sessions[j]) by {
                        if j != k {
                            assert(self@.sessions[j] == old(self)@.sessions[j]);
                        }
                    }
                    assert forall|x: int, y: int|
                        0 <= x < self@.sessions.len() && 0 <= y < self@.sessions.len() && x != y implies
                        self@.sessions[x].id != self@.sessions[y].id by {
                        assert(self@.sessions[x].id == old(self)@.sessions[x].id);
                        assert(self@.sessions[y].id == old(self)@.sessions[y].id);
                    }
                    let b0 = old(self)@;
                    assert forall|c1: int| 0 <= c1 < b0.clients.len() && b0.clients[c1].id != client_id@ implies exists|
                        c2: int,
                    | 0 <= c2 < self@.clients.len() && #[trigger] self@.clients[c2] == b0.clients[c1] by {
                        assert(self@.clients[c1] == b0.clients[c1]);
                    }
                    assert forall|j: int, kk: int|
                        0 <= j < b0.sessions.len() && 0 <= kk < b0.sessions[j].status.len()
                            && #[trigger] b0.sessions[j].status[kk] == (client_id@, true) implies j == k by {
                    }
                    assert(session_wf(b0.sessions[k as int]));
                    assert(self@.clients[b0.clients.len() as int].id == client_id@);
                    assert(belongs(self@.clients, client_id@, b0.sessions[k as int].id));
                    lemma_activate_agree(b0, k as int, client_id@, self@.clients, self@.sessions);
                }
                Ok(())
            },
        }
    }

    /// The new game of the session at `i` for each member that is a live
    /// connection, in member order.
    fn broadcast_update(&self, i: usize, app: &ServerApp) -> (r: Vec<Outgoing>)
        requires
            i < self@.sessions.len(),
        ensures
            outs_view(r) == broadcast(
                self@.sessions[i as int].status,
                self@.clients,
                ServerEventView::GameUpdate(app@),
                self@.sessions[i as int].status.len() as int,
            ),
    {
        let ghost st = self@.sessions[i as int].status;
        let ghost ev = ServerEventView::GameUpdate(app@);
        let status = &self.sessions.entries[i].client_status;
        assert(status_view(*status) == st);
        let mut r: Vec<Outgoing> = Vec::new();
        let mut k: usize = 0;
        while k < status.len()
            invariant
                status_view(*status) == st,
                ev == ServerEventView::GameUpdate(app@),
                st == self@.sessions[i as int].status,
                k <= st.len(),
                status@.len() == st.len(),
                outs_view(r) == broadcast(st, self@.clients, ev, k as int),
            decreases st.len() - k,
        {
            let id = &status[k].0;
            assert(id@ == st[k as int].0);
            let ghost prev = r@;
            let found = self.clients.find(id);
            if found.is_some() {
                let o = Outgoing { to: id.clone(), event: ServerEvent::GameUpdate(app.clone()) };
                assert(o@ == outgoing(st[k as int].0, ev));
                r.push(o);
                proof {
                    let j = found->0 as int;
                    assert(self@.clients[j].id == st[k as int].0);
                    assert(client_index(self@.clients, st[k as int].0) is Some);
                    assert(r@ == prev.push(o));
                    assert(outs_view(r) =~= broadcast(st, self@.clients, ev, k + 1));
                }
            } else {
                proof {
                    assert(outs_view(r) =~= broadcast(st, self@.clients, ev, k + 1));
                }
            }
            k = k + 1;
        }
        r
    }

    /// `GameEvent(mv)` from `client_id`: a move in turn goes to the game;
    /// any other is ignored.
    pub fn game_event(&mut self, client_id: &String, mv: Move) -> (r: Vec<Outgoing>)
        requires
            old(self).wf(),
        ensures
            final(self).wf(),
            game_event_rel(old(self)@, client_id@, mv, final(self)@, outs_view(r)),
    {
        let none: Vec<Outgoing> = Vec::new();
        proof {
            assert(outs_view(none) =~= Seq::<OutgoingView>::empty());
        }
        let c = match self.clients.find(client_id) {
            Some(c) => c,
            None => return none,
        };
        proof {
            lemma_client_index(self@.clients, c as int);
        }
        let sid = match &self.clients.entries[c].session_id {
            Some(s) => s.clone(),
            None => return none,
        };
        let i = match self.sessions.find(&sid) {
            Some(i) => i,
            None => return none,
        };
        proof {
            lemma_session_index(self@.sessions, i as int);
            assert(session_wf(self@.sessions[i as int]));
        }
        let active = match &self.sessions.entries[i].data.players {
            Players::Full(_, _, a) => a.clone(),
            _ => return none,
        };
        if !(active == *client_id) {
            return none;
        }
        let mut app = match &self.sessions.entries[i].data.game {
            Some(a) => a.clone(),
            None => return none,
        };
        let ghost app0 = app@;
        match app.update(mv) {
            Err(e) => {
                let r = vec![Outgoing { to: client_id.clone(), event: ServerEvent::Error(e) }];
                proof {
                    assert(app_updated(app0, mv, app@, Err(e@)));
                    assert(outs_view(r) =~= seq![outgoing(client_id@, ServerEventView::Error(e@))]);
                }
                r
            },
            Ok(()) => {
                let r = self.broadcast_update(i, &app);
                let mut session = self.sessions.take(i);
                let players = session.data.players.clone();
                let next = match players {
                    Players::Full(first, second, a) => {
                        let to_move = if a == first.id {
                            second.id.clone()
                        } else {
                            first.id.clone()
                        };
                        Players::Full(first, second, to_move)
                    },
                    other => other,
                };
                session.data.players = next;
                let ghost app1 = app@;
                session.data.game = Some(app);
                self.sessions.put(i, session);
                proof {
                    assert(app_updated(app0, mv, app1, Ok(())));
                    assert(self@.sessions =~= moved_on(old(self)@.sessions, i as int, app1));
                    assert forall|j: int| 0 <= j < self@.sessions.len() implies session_wf(#[trigger] self@.sessions[j]) by {
                        if j != i {
                            assert(self@.sessions[j] == old(self)@.sessions[j]);
                        }
                    }
                    assert forall|x: int, y: int|
                        0 <= x < self@.sessions.len() && 0 <= y < self@.sessions.len() && x != y implies
                        self@.sessions[x].id != self@.sessions[y].id by {
                        assert(self@.sessions[x].id == old(self)@.sessions[x].id);
                        assert(self@.sessions[y].id == old(self)@.sessions[y].id);
                    }
                }
                r
            },
        }
    }

    /// The answer to a message from `client_id` that is no client event: a
    /// refusal that quotes it.
    pub fn invalid_event(&self, client_id: &String, raw: &str) -> (r: Vec<Outgoing>)
        ensures
            client_index(self@.clients, client_id@) is Some ==> outs_view(r) == seq![
                outgoing(client_id@, ServerEventView::Error(msg_invalid(raw@))),
            ],
            client_index(self@.clients, client_id@) is None ==> outs_view(r) == Seq::<
                OutgoingView,
            >::empty(),
    {
        match self.clients.find(client_id) {
            Some(_) => {
                let text = "Invalid Client Event: ".to_string().concat(raw);
                proof {
                    reveal_strlit("Invalid Client Event: ");
                }
                let r = vec![Outgoing { to: client_id.clone(), event: ServerEvent::Error(text) }];
                proof {
                    assert(outs_view(r) =~= seq![
                        outgoing(client_id@, ServerEventView::Error(msg_invalid(raw@))),
                    ]);
                }
                r
            },
            None => {
                let r: Vec<Outgoing> = Vec::new();
                proof {
                    assert(outs_view(r) =~= Seq::<OutgoingView>::empty());
                }
                r
            },
        }
    }

    /// Dispatches an event from `client_id`. A new session gets a generated
    /// id; everything else is as the operation for the event states.
    pub fn handle_event(&mut self, client_id: &String, event: ClientEvent) -> (r: Vec<Outgoing>)
        requires
            old(self).wf(),
        ensures
            final(self).wf(),
            match event {
                ClientEvent::ListSessions => {
                    &&& final(self)@ == old(self)@
                    &&& outs_view(r) == list_out(old(self)@, client_id@)
                },
                ClientEvent::CreateSession => exists|id: Seq<char>|
                    #[trigger] id_shaped(id) && (final(self)@, outs_view(r)) == create_step(
                        old(self)@,
                        client_id@,
                        id,
                    ),
                ClientEvent::JoinSession(sid) => (final(self)@, outs_view(r)) == join_session_step(
                    old(self)@,
                    client_id@,
                    sid@,
                ),
                ClientEvent::LeaveSession => {
                    &&& final(self)@ == leave_step(old(self)@, client_id@)
                    &&& outs_view(r) == Seq::<OutgoingView>::empty()
                },
                ClientEvent::GameEvent(mv) => game_event_rel(
                    old(self)@,
                    client_id@,
                    mv,
                    final(self)@,
                    outs_view(r),
                ),
            },
    {
        match event {
            ClientEvent::ListSessions => self.list_sessions(client_id),
            ClientEvent::CreateSession => {
                let id = generate_session_id(SESSION_ID_LENGTH);
                let ghost shaped = id@;
                let r = self.create_session_with_id(client_id, id);
                proof {
                    assert(id_shaped(shaped));
                }
                r
            },
            ClientEvent::JoinSession(sid) => self.join_session(client_id, &sid),
            ClientEvent::LeaveSession => {
                self.leave_session(client_id);
                let r: Vec<Outgoing> = Vec::new();
                proof {
                    assert(outs_view(r) =~= Seq::<OutgoingView>::empty());
                }
                r
            },
            ClientEvent::GameEvent(mv) => self.game_event(client_id, mv),
        }
    }
}

} // verus!
