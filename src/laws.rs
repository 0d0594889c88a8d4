//! What holds of the broker across calls, stated over the contracts of its
//! operations.

use crate::broker::{
    active_only_at, broker_wf, create_step, disconnect_step, drop_member, game_event_rel,
    join_at, join_session_step, leave_prev, lemma_join_wf, lemma_leave_prev,
    lemma_with_session, lemma_with_session_agree, list_out, msg_full, outgoing, refuses,
    session_wf, turn_of, BrokerView, OutgoingView,
};
use crate::events::{initial_app, new_player, PlayersView, ServerEventView, ServerGameStateView};
use crate::session::{
    any_active, client_index, empty_session, lemma_client_index, lemma_session_index,
    mark_inactive, member_index, session_ids, session_index, with_session,
};
use crate::update::Move;
use vstd::prelude::*;

verus! {

/// A session is listed exactly when it has an active member: the answer to
/// `ListSessions` holds the ids of the registry, and every session in a
/// well-formed registry has an active member. Each operation of the broker
/// keeps the registry well formed.
pub proof fn lemma_listed_iff_active(b: BrokerView, client: Seq<char>, id: Seq<char>)
    requires
        broker_wf(b),
        client_index(b.clients, client) is Some,
    ensures
        list_out(b, client) == seq![
            outgoing(client, ServerEventView::ListSessions(session_ids(b.sessions))),
        ],
        session_ids(b.sessions).contains(id) <==> (session_index(b.sessions, id) matches Some(i)
            && any_active(b.sessions[i].status)),
{
    let ids = session_ids(b.sessions);
    if ids.contains(id) {
        let k = choose|k: int| 0 <= k < ids.len() && ids[k] == id;
        lemma_session_index(b.sessions, k);
        assert(session_wf(b.sessions[k]));
    }
    if session_index(b.sessions, id) is Some {
        let i = session_index(b.sessions, id)->0;
        assert(ids[i] == id);
    }
}

/// Joining a session that already has two players changes nothing and
/// answers the joiner, alone, with an error.
pub proof fn lemma_join_full_session(b: BrokerView, client: Seq<char>, sid: Seq<char>)
    requires
        broker_wf(b),
        client_index(b.clients, client) is Some,
        session_index(b.sessions, sid) matches Some(i) && b.sessions[i].data.players is Full,
    ensures
        join_session_step(b, client, sid) == (b, seq![
            outgoing(client, ServerEventView::Error(msg_full())),
        ]),
{
    let c = client_index(b.clients, client)->0;
    assert(b.clients[c].id == client);
}

/// In a session with two players, exactly one of them is the one to move. A move in turn either changes nothing (it was refused)
/// or is kept and passes the turn to the other player; the player to move is
/// then again exactly one of the two.
pub proof fn lemma_turn_alternates(
    b: BrokerView,
    client: Seq<char>,
    mv: Move,
    b2: BrokerView,
    out: Seq<OutgoingView>,
)
    requires
        broker_wf(b),
        game_event_rel(b, client, mv, b2, out),
        turn_of(b, client) is Some,
    ensures
        turn_of(b, client) matches Some((i, _)) && b.sessions[i].data.players matches PlayersView::Full(
            first,
            second,
            a,
        ) && (a == first.id) != (a == second.id) && (b2 == b || (b2.sessions[i].data.players
            matches PlayersView::Full(first2, second2, a2) && first2 == first && second2 == second && a2 != a && (a2
            == first.id) != (a2 == second.id))),
{
    let t = turn_of(b, client)->0;
    let i = t.0;
    assert(session_wf(b.sessions[i]));
}

/// A move from a connection that is not the one to move in its session
/// changes nothing and sends nothing.
pub proof fn lemma_out_of_turn_ignored(
    b: BrokerView,
    client: Seq<char>,
    mv: Move,
    b2: BrokerView,
    out: Seq<OutgoingView>,
)
    requires
        game_event_rel(b, client, mv, b2, out),
        client_index(b.clients, client) matches Some(c) && b.clients[c].session_id matches Some(
            sid,
        ) && session_index(b.sessions, sid) matches Some(i) && b.sessions[i].data.players matches PlayersView::Full(
            _,
            _,
            a,
        ) && a != client,
    ensures
        b2 == b,
        out == Seq::<OutgoingView>::empty(),
{
}

/// When a member of a session with two players disconnects, the session is
/// removed if that member was its only active one, and stays if another
/// member is active.
pub proof fn lemma_disconnect_cleanup(b: BrokerView, client: Seq<char>)
    requires
        broker_wf(b),
        client_index(b.clients, client) matches Some(c) && b.clients[c].session_id matches Some(
            sid,
        ) && session_index(b.sessions, sid) matches Some(i) && b.sessions[i].data.players is Full,
    ensures
        ({
            let c = client_index(b.clients, client)->0;
            let sid = b.clients[c].session_id->0;
            let st = b.sessions[session_index(b.sessions, sid)->0].status;
            let after = disconnect_step(b, client);
            &&& (forall|k: int| 0 <= k < st.len() && #[trigger] st[k].1 ==> st[k].0 == client)
                ==> session_index(after.sessions, sid) is None
            &&& (exists|k: int| 0 <= k < st.len() && #[trigger] st[k].1 && st[k].0 != client)
                ==> session_index(after.sessions, sid) is Some
        }),
{
    let c = client_index(b.clients, client)->0;
    let sid = b.clients[c].session_id->0;
    let i = session_index(b.sessions, sid)->0;
    let s = b.sessions[i];
    let st = s.status;
    assert(session_wf(s));
    let st2 = mark_inactive(st, client);
    let after = disconnect_step(b, client);
    assert(after.sessions == drop_member(b.sessions, i, client));
    if forall|k: int| 0 <= k < st.len() && #[trigger] st[k].1 ==> st[k].0 == client {
        assert(!any_active(st2)) by {
            assert forall|k: int| 0 <= k < st2.len() implies !(#[trigger] st2[k]).1 by {
                if let Some(m) = member_index(st, client) {
                    if k != m {
                        assert(st2[k] == st[k]);
                        if st[k].1 {
                            assert(st[k].0 == client);
                            assert(st[m].0 == client);
                        }
                    }
                } else {
                    assert(st2[k] == st[k]);
                }
            }
        }
        assert(after.sessions == b.sessions.remove(i));
        assert forall|j: int| 0 <= j < after.sessions.len() implies #[trigger] after.sessions[j].id
            != sid by {
            if j < i {
                assert(after.sessions[j] == b.sessions[j]);
            } else {
                assert(after.sessions[j] == b.sessions[j + 1]);
            }
        }
    }
    if exists|k: int| 0 <= k < st.len() && #[trigger] st[k].1 && st[k].0 != client {
        let k = choose|k: int| 0 <= k < st.len() && #[trigger] st[k].1 && st[k].0 != client;
        if let Some(m) = member_index(st, client) {
            assert(k != m);
        }
        assert(st2[k] == st[k]);
        assert(any_active(st2));
        assert(after.sessions[i].id == sid);
    }
}

/// A session created by one connection and then joined by its id from a
/// second connection starts the game for both, with the same snapshot: the creator
/// first learns the id, and then both are sent the two players, with the
/// creator to move, and a fresh game.
pub proof fn lemma_create_then_join(b: BrokerView, a: Seq<char>, c2: Seq<char>, id: Seq<char>)
    requires
        broker_wf(b),
        client_index(b.clients, a) is Some,
        client_index(b.clients, c2) is Some,
        a != c2,
    ensures
        ({
            let (b1, m1) = create_step(b, a, id);
            let (b2, m2) = join_session_step(b1, c2, id);
            let data = ServerGameStateView {
                players: PlayersView::Full(new_player(a), new_player(c2), a),
                game: Some(initial_app()),
            };
            &&& m1 == seq![outgoing(a, ServerEventView::Queue(id))]
            &&& m2 == seq![
                outgoing(c2, ServerEventView::GameStart(data)),
                outgoing(a, ServerEventView::GameStart(data)),
            ]
        }),
{
    let ca = client_index(b.clients, a)->0;
    let cb = client_index(b.clients, c2)->0;
    lemma_leave_prev(b, ca, id);
    let bl = leave_prev(b, ca, id);
    lemma_with_session(bl.sessions, id);
    lemma_with_session_agree(bl, id, a);
    let b0 = BrokerView { sessions: with_session(bl.sessions, id), ..bl };
    let i = session_index(b0.sessions, id)->0;
    assert(b0.clients[ca].id == a);
    assert(b0.sessions[i] == empty_session(id));
    assert(active_only_at(b0.sessions, a, i));
    assert(create_step(b, a, id) == join_at(b0, ca, i));
    lemma_join_wf(b0, ca, i);
    let b1 = join_at(b0, ca, i).0;
    assert(b1.clients[cb].id == c2);
    assert(b1.clients[ca].id == a);
    lemma_client_index(b1.clients, cb);
    lemma_client_index(b1.clients, ca);
    assert(b1.sessions[i].id == id);
    lemma_session_index(b1.sessions, i);
    assert(!refuses(b1.sessions[i], c2));
    lemma_leave_prev(b1, cb, id);
    let b2 = leave_prev(b1, cb, id);
    let i1 = session_index(b2.sessions, id)->0;
    assert(b2.sessions[i1] == b1.sessions[i]);
    assert(b2.clients == b1.clients);
    assert(join_session_step(b1, c2, id) == join_at(b2, cb, i1));
}

} // verus!
