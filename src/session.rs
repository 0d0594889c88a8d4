//! The two registries of the broker: the connections by id, and the
//! sessions by id with the status of each member.

use crate::events::{PlayersView, ServerGameState, ServerGameStateView};
use vstd::prelude::*;

verus! {

/// The length of a generated session id.
pub const SESSION_ID_LENGTH: usize = 5;

/// The refusal of a connection whose id is already live.
#[derive(Debug, PartialEq, Eq, Structural)]
pub struct IDAlreadyTaken;

/// A live connection, and the session it belongs to if any.
#[derive(Debug)]
pub struct Client {
    pub id: String,
    pub session_id: Option<String>,
}

pub struct ClientView {
    pub id: Seq<char>,
    pub session_id: Option<Seq<char>>,
}

impl View for Client {
    type V = ClientView;

    open spec fn view(&self) -> ClientView {
        ClientView {
            id: self.id@,
            session_id: match self.session_id {
                Some(s) => Some(s@),
                None => None,
            },
        }
    }
}

/// A session: its id, whether each member connection is active, in the
/// order they first joined, and the state of its match.
#[derive(Debug)]
pub struct Session {
    pub id: String,
    pub client_status: Vec<(String, bool)>,
    pub data: ServerGameState,
}

pub struct SessionView {
    pub id: Seq<char>,
    pub status: Seq<(Seq<char>, bool)>,
    pub data: ServerGameStateView,
}

/// The member list with its texts.
pub open spec fn status_view(v: Vec<(String, bool)>) -> Seq<(Seq<char>, bool)> {
    v@.map_values(|p: (String, bool)| (p.0@, p.1))
}

impl View for Session {
    type V = SessionView;

    open spec fn view(&self) -> SessionView {
        SessionView { id: self.id@, status: status_view(self.client_status), data: self.data@ }
    }
}

/// The live connections.
#[derive(Debug)]
pub struct Clients {
    pub entries: Vec<Client>,
}

/// The live sessions, in the order they were created.
#[derive(Debug)]
pub struct Sessions {
    pub entries: Vec<Session>,
}

impl View for Clients {
    type V = Seq<ClientView>;

    open spec fn view(&self) -> Seq<ClientView> {
        self.entries@.map_values(|c: Client| c@)
    }
}

impl View for Sessions {
    type V = Seq<SessionView>;

    open spec fn view(&self) -> Seq<SessionView> {
        self.entries@.map_values(|s: Session| s@)
    }
}

/// Where the connection `id` stands in the registry, if it is there.
pub open spec fn client_index(cs: Seq<ClientView>, id: Seq<char>) -> Option<int> {
    if exists|i: int| 0 <= i < cs.len() && cs[i].id == id {
        Some(choose|i: int| 0 <= i < cs.len() && cs[i].id == id)
    } else {
        None
    }
}

/// Where the session `id` stands in the registry, if it is there.
pub open spec fn session_index(ss: Seq<SessionView>, id: Seq<char>) -> Option<int> {
    if exists|i: int| 0 <= i < ss.len() && ss[i].id == id {
        Some(choose|i: int| 0 <= i < ss.len() && ss[i].id == id)
    } else {
        None
    }
}

/// Where the member `id` stands in a member list, if it is there.
pub open spec fn member_index(st: Seq<(Seq<char>, bool)>, id: Seq<char>) -> Option<int> {
    if exists|i: int| 0 <= i < st.len() && st[i].0 == id {
        Some(choose|i: int| 0 <= i < st.len() && st[i].0 == id)
    } else {
        None
    }
}

pub open spec fn clients_unique(cs: Seq<ClientView>) -> bool {
    forall|i: int, j: int| 0 <= i < cs.len() && 0 <= j < cs.len() && i != j ==> cs[i].id != cs[j].id
}

pub open spec fn sessions_unique(ss: Seq<SessionView>) -> bool {
    forall|i: int, j: int| 0 <= i < ss.len() && 0 <= j < ss.len() && i != j ==> ss[i].id != ss[j].id
}

pub open spec fn members_unique(st: Seq<(Seq<char>, bool)>) -> bool {
    forall|i: int, j: int| 0 <= i < st.len() && 0 <= j < st.len() && i != j ==> st[i].0 != st[j].0
}

/// Some member is active.
pub open spec fn any_active(st: Seq<(Seq<char>, bool)>) -> bool {
    exists|i: int| 0 <= i < st.len() && st[i].1
}

/// The member list with `id` marked `active`, added at the end if new.
pub open spec fn set_status(st: Seq<(Seq<char>, bool)>, id: Seq<char>, active: bool) -> Seq<
    (Seq<char>, bool),
> {
    match member_index(st, id) {
        Some(i) => st.update(i, (id, active)),
        None => st.push((id, active)),
    }
}

/// The member list with `id` marked inactive if it is a member.
pub open spec fn mark_inactive(st: Seq<(Seq<char>, bool)>, id: Seq<char>) -> Seq<
    (Seq<char>, bool),
> {
    match member_index(st, id) {
        Some(i) => st.update(i, (id, false)),
        None => st,
    }
}

/// A session without members, players or game.
pub open spec fn empty_session(id: Seq<char>) -> SessionView {
    SessionView {
        id,
        status: seq![],
        data: ServerGameStateView { players: PlayersView::Empty, game: None },
    }
}

/// The registry with a fresh empty session under `id`; one that had the
/// id is replaced in place.
pub open spec fn with_session(ss: Seq<SessionView>, id: Seq<char>) -> Seq<SessionView> {
    match session_index(ss, id) {
        Some(i) => ss.update(i, empty_session(id)),
        None => ss.push(empty_session(id)),
    }
}

/// The registry without the session `id`.
pub open spec fn without_session(ss: Seq<SessionView>, id: Seq<char>) -> Seq<SessionView> {
    match session_index(ss, id) {
        Some(i) => ss.remove(i),
        None => ss,
    }
}

/// The ids of the sessions, in registry order.
pub open spec fn session_ids(ss: Seq<SessionView>) -> Seq<Seq<char>> {
    ss.map_values(|s: SessionView| s.id)
}

/// The shape of a generated session id: five capital letters.
pub open spec fn id_shaped(id: Seq<char>) -> bool {
    id.len() == SESSION_ID_LENGTH && forall|i: int| 0 <= i < id.len() ==> 'A' <= #[trigger] id[i]
        <= 'Z'
}

pub proof fn lemma_client_index(cs: Seq<ClientView>, i: int)
    requires
        clients_unique(cs),
        0 <= i < cs.len(),
    ensures
        client_index(cs, cs[i].id) == Some(i),
{
}

pub proof fn lemma_session_index(ss: Seq<SessionView>, i: int)
    requires
        sessions_unique(ss),
        0 <= i < ss.len(),
    ensures
        session_index(ss, ss[i].id) == Some(i),
{
}

pub proof fn lemma_member_index(st: Seq<(Seq<char>, bool)>, i: int)
    requires
        members_unique(st),
        0 <= i < st.len(),
    ensures
        member_index(st, st[i].0) == Some(i),
{
}

/// Setting a status keeps the members distinct.
pub proof fn lemma_set_status(st: Seq<(Seq<char>, bool)>, id: Seq<char>, active: bool)
    requires
        members_unique(st),
    ensures
        members_unique(set_status(st, id, active)),
        members_unique(mark_inactive(st, id)),
        member_index(set_status(st, id, active), id) is Some,
        active ==> any_active(set_status(st, id, active)),
        forall|k: Seq<char>|
            member_index(st, k) is Some ==> #[trigger] member_index(set_status(st, id, active), k)
                is Some,
        forall|k: Seq<char>|
            member_index(st, k) is Some ==> #[trigger] member_index(mark_inactive(st, id), k)
                is Some,
{
    let s2 = set_status(st, id, active);
    match member_index(st, id) {
        Some(i) => {
            assert(s2[i].1 == active);
        },
        None => {
            assert(s2[st.len() as int] == (id, active));
        },
    }
    assert forall|k: Seq<char>| member_index(st, k) is Some implies #[trigger] member_index(
        s2,
        k,
    ) is Some by {
        let j = member_index(st, k)->0;
        assert(s2[j].0 == k);
    }
    let s3 = mark_inactive(st, id);
    assert forall|k: Seq<char>| member_index(st, k) is Some implies #[trigger] member_index(
        s3,
        k,
    ) is Some by {
        let j = member_index(st, k)->0;
        assert(s3[j].0 == k);
    }
}

/// The alphabet of generated session ids.
fn id_alphabet() -> (r: Vec<char>)
    ensures
        r@.len() == 26,
        forall|i: int| 0 <= i < r@.len() ==> 'A' <= #[trigger] r@[i] <= 'Z',
{
    let mut r: Vec<char> = Vec::new();
    let mut c: u32 = 'A' as u32;
    while c <= 'Z' as u32
        invariant
            'A' as u32 <= c <= 'Z' as u32 + 1,
            r@.len() == c - 'A' as u32,
            forall|i: int| 0 <= i < r@.len() ==> 'A' <= #[trigger] r@[i] <= 'Z',
        decreases 'Z' as u32 + 1 - c,
    {
        let ch = char_of(c);
        r.push(ch);
        c = c + 1;
    }
    r
}

/// The capital letter with code `c`.
fn char_of(c: u32) -> (r: char)
    requires
        'A' as u32 <= c <= 'Z' as u32,
    ensures
        r as u32 == c,
        'A' <= r <= 'Z',
{
    let b: u8 = c as u8;
    b as char
}

/// Relies on `nanoid::format` with nanoid's default random source: it keeps
/// drawing bytes and appending the symbol each one selects until the text
/// is `size` bytes long; every symbol comes from `alphabet`. It panics on
/// an alphabet longer than 255 symbols and does not return on an empty one;
/// with single-byte symbols the text holds `size` of them.
#[verifier::external_body]
fn random_id(alphabet: &[char], size: usize) -> (r: String)
    requires
        0 < alphabet@.len() <= 255,
        forall|i: int| 0 <= i < alphabet@.len() ==> (#[trigger] alphabet@[i] as u32) < 128,
        0 < size <= usize::MAX / 8,
    ensures
        r@.len() == size,
        forall|i: int| 0 <= i < r@.len() ==> alphabet@.contains(#[trigger] r@[i]),
{
    nanoid::format(nanoid::rngs::default, alphabet, size)
}

/// A random id of `length` capital letters.
pub fn generate_session_id(length: usize) -> (r: String)
    requires
        length <= usize::MAX / 8,
    ensures
        r@.len() == length,
        forall|i: int| 0 <= i < r@.len() ==> 'A' <= #[trigger] r@[i] <= 'Z',
{
    if length == 0 {
        return String::new();
    }
    let alphabet = id_alphabet();
    let r = random_id(alphabet.as_slice(), length);
    proof {
        assert forall|i: int| 0 <= i < r@.len() implies 'A' <= #[trigger] r@[i] <= 'Z' by {
            assert(alphabet@.contains(r@[i]));
        }
    }
    r
}

impl Session {
    /// Marks `id` as active or not, adding it as a member if it is new.
    pub fn insert_client(&mut self, id: &String, active: bool)
        requires
            members_unique(status_view(old(self).client_status)),
        ensures
            final(self)@ == (SessionView {
                status: set_status(old(self)@.status, id@, active),
                ..old(self)@
            }),
    {
        match self.find_client(id) {
            Some(i) => {
                proof {
                    lemma_member_index(self@.status, i as int);
                }
                self.client_status.set(i, (id.clone(), active));
            },
            None => {
                self.client_status.push((id.clone(), active));
            },
        }
        proof {
            assert(self@.status =~= set_status(old(self)@.status, id@, active));
        }
    }

    /// Where the member `id` stands in the member list.
    fn find_client(&self, id: &String) -> (r: Option<usize>)
        ensures
            match r {
                Some(i) => i < self@.status.len() && self@.status[i as int].0 == id@,
                None => member_index(self@.status, id@) is None,
            },
    {
        let mut i: usize = 0;
        while i < self.client_status.len()
            invariant
                i <= self.client_status@.len(),
                forall|k: int| 0 <= k < i ==> #[trigger] self@.status[k].0 != id@,
            decreases self.client_status@.len() - i,
        {
            if self.client_status[i].0 == *id {
                return Some(i);
            }
            i = i + 1;
        }
        None
    }

    /// Whether `id` is a member, active or not.
    pub fn contains_client(&self, id: &String) -> (r: bool)
        ensures
            r == (member_index(self@.status, id@) is Some),
    {
        match self.find_client(id) {
            Some(_) => true,
            None => false,
        }
    }

    /// Marks the member `id` as active or not; refuses a connection that is
    /// not a member.
    pub fn set_client_active_status(&mut self, id: &String, active: bool) -> (r: Result<
        (),
        String,
    >)
        requires
            members_unique(status_view(old(self).client_status)),
        ensures
            member_index(old(self)@.status, id@) is Some ==> r is Ok && final(self)@ == (
            SessionView { status: set_status(old(self)@.status, id@, active), ..old(self)@ }),
            member_index(old(self)@.status, id@) is None ==> r is Err && final(self)@ == old(
                self,
            )@,
    {
        if self.contains_client(id) {
            self.insert_client(id, active);
            Ok(())
        } else {
            Err("Client is not a member of the session".to_string())
        }
    }

    /// Whether some member is active.
    pub fn has_active_client(&self) -> (r: bool)
        ensures
            r == any_active(self@.status),
    {
        let mut i: usize = 0;
        while i < self.client_status.len()
            invariant
                i <= self.client_status@.len(),
                forall|k: int| 0 <= k < i ==> !(#[trigger] self@.status[k]).1,
            decreases self.client_status@.len() - i,
        {
            if self.client_status[i].1 {
                proof {
                    assert(self@.status[i as int].1);
                }
                return true;
            }
            i = i + 1;
        }
        false
    }
}

impl Clients {
    /// Records that the connection at `c` belongs to the session `sid`, or
    /// to none.
    pub fn set_session(&mut self, c: usize, sid: Option<String>)
        requires
            c < old(self)@.len(),
        ensures
            final(self)@ == old(self)@.update(
                c as int,
                ClientView {
                    session_id: match sid {
                        Some(s) => Some(s@),
                        None => None,
                    },
                    ..old(self)@[c as int]
                },
            ),
    {
        let id = self.entries[c].id.clone();
        self.entries.set(c, Client { id, session_id: sid });
        assert(self@ =~= old(self)@.update(
            c as int,
            ClientView {
                session_id: match sid {
                    Some(s) => Some(s@),
                    None => None,
                },
                ..old(self)@[c as int]
            },
        ));
    }

    /// Removes the connection at `c`.
    pub fn remove_at(&mut self, c: usize)
        requires
            c < old(self)@.len(),
        ensures
            final(self)@ == old(self)@.remove(c as int),
    {
        self.entries.remove(c);
        assert(self@ =~= old(self)@.remove(c as int));
    }

    /// Adds the connection `id`, belonging to the session `sid` or to none.
    pub fn push(&mut self, id: String, sid: Option<String>)
        ensures
            final(self)@ == old(self)@.push(
                ClientView {
                    id: id@,
                    session_id: match sid {
                        Some(s) => Some(s@),
                        None => None,
                    },
                },
            ),
    {
        self.entries.push(Client { id, session_id: sid });
        assert(self@ =~= old(self)@.push(
            ClientView {
                id: id@,
                session_id: match sid {
                    Some(s) => Some(s@),
                    None => None,
                },
            },
        ));
    }

    /// No connection.
    pub fn new() -> (r: Self)
        ensures
            r@ == Seq::<ClientView>::empty(),
    {
        Clients { entries: Vec::new() }
    }

    /// Where the connection `id` stands in the registry.
    pub fn find(&self, id: &String) -> (r: Option<usize>)
        ensures
            match r {
                Some(i) => i < self@.len() && self@[i as int].id == id@,
                None => client_index(self@, id@) is None,
            },
    {
        let mut i: usize = 0;
        while i < self.entries.len()
            invariant
                i <= self.entries@.len(),
                forall|k: int| 0 <= k < i ==> #[trigger] self@[k].id != id@,
            decreases self.entries@.len() - i,
        {
            if self.entries[i].id == *id {
                return Some(i);
            }
            i = i + 1;
        }
        None
    }
}

impl Sessions {
    /// No session.
    pub fn new() -> (r: Self)
        ensures
            r@ == Seq::<SessionView>::empty(),
    {
        Sessions { entries: Vec::new() }
    }

    /// Where the session `id` stands in the registry.
    pub fn find(&self, id: &String) -> (r: Option<usize>)
        ensures
            match r {
                Some(i) => i < self@.len() && self@[i as int].id == id@,
                None => session_index(self@, id@) is None,
            },
    {
        let mut i: usize = 0;
        while i < self.entries.len()
            invariant
                i <= self.entries@.len(),
                forall|k: int| 0 <= k < i ==> #[trigger] self@[k].id != id@,
            decreases self.entries@.len() - i,
        {
            if self.entries[i].id == *id {
                return Some(i);
            }
            i = i + 1;
        }
        None
    }

    /// Takes the session at `i` out, leaving a placeholder in its place.
    pub fn take(&mut self, i: usize) -> (r: Session)
        requires
            i < old(self)@.len(),
        ensures
            r@ == old(self)@[i as int],
            final(self)@.len() == old(self)@.len(),
            forall|j: int| 0 <= j < old(self)@.len() && j != i ==> #[trigger] final(self)@[j] == old(self)@[j],
    {
        let mut r = Session {
            id: String::new(),
            client_status: Vec::new(),
            data: ServerGameState::default(),
        };
        self.entries.set_and_swap(i, &mut r);
        r
    }

    /// Puts `s` at `i`.
    pub fn put(&mut self, i: usize, s: Session)
        requires
            i < old(self)@.len(),
        ensures
            final(self)@ == old(self)@.update(i as int, s@),
    {
        self.entries.set(i, s);
        assert(self@ =~= old(self)@.update(i as int, s@));
    }

    /// Removes the session at `i`.
    pub fn remove_at(&mut self, i: usize)
        requires
            i < old(self)@.len(),
        ensures
            final(self)@ == old(self)@.remove(i as int),
    {
        self.entries.remove(i);
        assert(self@ =~= old(self)@.remove(i as int));
    }

    /// The ids of the live sessions, in registry order.
    pub fn list_ids(&self) -> (r: Vec<String>)
        ensures
            r@.map_values(|s: String| s@) == session_ids(self@),
    {
        let mut r: Vec<String> = Vec::new();
        let mut i: usize = 0;
        while i < self.entries.len()
            invariant
                i <= self.entries@.len(),
                r@.len() == i,
                r@.map_values(|s: String| s@) =~= session_ids(self@).subrange(0, i as int),
            decreases self.entries@.len() - i,
        {
            let ghost prev = r@;
            r.push(self.entries[i].id.clone());
            proof {
                assert(r@ == prev.push(r@[i as int]));
                assert(r@.map_values(|s: String| s@) =~= session_ids(self@).subrange(
                    0,
                    i + 1,
                ));
            }
            i = i + 1;
        }
        proof {
            assert(session_ids(self@).subrange(0, i as int) =~= session_ids(self@));
        }
        r
    }
}

/// Creates an empty session and returns its id: the one given, taken as it
/// is, or a generated one. A session that already has the id is replaced.
pub fn create_session(session_id: Option<&str>, sessions: &mut Sessions) -> (r: Result<String, ()>)
    requires
        sessions_unique(old(sessions)@),
    ensures
        r is Ok,
        r matches Ok(id) ==> {
            &&& final(sessions)@ == with_session(old(sessions)@, id@)
            &&& sessions_unique(final(sessions)@)
            &&& match session_id {
                Some(s) => id@ == s@,
                None => id_shaped(id@),
            }
        },
{
    let id = match session_id {
        Some(s) => s.to_string(),
        None => generate_session_id(SESSION_ID_LENGTH),
    };
    replace_session(&id, sessions);
    Ok(id)
}

/// Puts a fresh empty session under `id`, replacing one that had the id.
pub fn replace_session(id: &String, sessions: &mut Sessions)
    requires
        sessions_unique(old(sessions)@),
    ensures
        final(sessions)@ == with_session(old(sessions)@, id@),
        sessions_unique(final(sessions)@),
{
    let session = Session {
        id: id.clone(),
        client_status: Vec::new(),
        data: ServerGameState::default(),
    };
    proof {
        assert(session@.status =~= Seq::<(Seq<char>, bool)>::empty());
        assert(session@ == empty_session(id@));
    }
    match sessions.find(id) {
        Some(i) => {
            proof {
                lemma_session_index(sessions@, i as int);
            }
            sessions.entries.set(i, session);
            proof {
                assert(sessions@ =~= old(sessions)@.update(i as int, empty_session(id@)));
            }
        },
        None => {
            sessions.entries.push(session);
            proof {
                assert(sessions@ =~= old(sessions)@.push(empty_session(id@)));
            }
        },
    }
}

/// Removes the session `session_id`, if there is one.
pub fn cleanup_session(session_id: &str, sessions: &mut Sessions)
    requires
        sessions_unique(old(sessions)@),
    ensures
        final(sessions)@ == without_session(old(sessions)@, session_id@),
        sessions_unique(final(sessions)@),
{
    let id = session_id.to_string();
    match sessions.find(&id) {
        Some(i) => {
            proof {
                lemma_session_index(sessions@, i as int);
            }
            sessions.entries.remove(i);
            proof {
                assert(sessions@ =~= old(sessions)@.remove(i as int));
            }
        },
        None => {},
    }
}

} // verus!
