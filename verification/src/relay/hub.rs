//! Session registry: maps a session to its peers, at most one per role.
//!
//! Each connection has a unique id. A new connection that joins an occupied role
//! evicts the incumbent, so that a peer which reconnects over a half-open socket
//! is never locked out by its own stale session. Leaving is checked by id, so an
//! evicted connection's teardown never disturbs the one that replaced it.

use vstd::prelude::*;

use crate::proto::id::{Role, SessionId};

verus! {

/// Outbound queue depth per peer. A peer that lets it fill is a stalled consumer
/// and disconnected.
pub const PEER_QUEUE_DEPTH: usize = 256;

/// The concurrent map of the dashmap crate.
#[verifier::external_type_specification]
#[verifier::external_body]
#[verifier::reject_recursive_types(K)]
#[verifier::reject_recursive_types(V)]
#[verifier::reject_recursive_types(S)]
pub struct ExDashMap<K, V, S>(dashmap::DashMap<K, V, S>);

/// The connections of a session: the controller's and the runner's.
pub type Slots = (Option<u64>, Option<u64>);

/// The session table: the connections of each session, by its bytes.
pub type Table = dashmap::DashMap<[u8; 16], (Option<u64>, Option<u64>)>;

/// What a session table holds: the connections of each session, by its bytes.
pub uninterp spec fn table_contents(table: Table) -> Map<Seq<u8>, (Option<u64>, Option<u64>)>;

/// `DashMap::new`: an empty table.
#[verifier::external_body]
fn table_new() -> (table: Table)
    ensures
        table_contents(table).dom() == Set::<Seq<u8>>::empty(),
{
    dashmap::DashMap::new()
}

/// `DashMap::get`, with the entry copied: what is stored under the key.
#[verifier::external_body]
fn table_get(
    table: &Table,
    key: &[u8; 16],
) -> (r: Option<Slots>)
    ensures
        r == table_contents(*table).get(key@),
{
    table.get(key).map(|entry| *entry)
}

/// `DashMap::insert`: stores the value under the key, replacing what was there.
#[verifier::external_body]
fn table_insert(
    table: &mut Table,
    key: &[u8; 16],
    value: Slots,
)
    ensures
        table_contents(*final(table)) == table_contents(*old(table)).insert(key@, value),
{
    table.insert(*key, value);
}

/// `DashMap::remove`: the key and what was stored under it are gone.
#[verifier::external_body]
fn table_remove(
    table: &mut Table,
    key: &[u8; 16],
)
    ensures
        table_contents(*final(table)) == table_contents(*old(table)).remove(key@),
{
    table.remove(key);
}

/// `DashMap::len`: the number of keys.
#[verifier::external_body]
fn table_len(table: &Table) -> (n: usize)
    ensures
        n == table_contents(*table).len(),
{
    table.len()
}

/// The connection in a role's slot.
pub open spec fn slot(slots: Slots, role: Role) -> Option<u64> {
    match role {
        Role::Controller => slots.0,
        Role::Runner => slots.1,
    }
}

/// The slots with a role's slot set.
pub open spec fn with_slot(slots: Slots, role: Role, id: Option<u64>) -> Slots {
    match role {
        Role::Controller => (id, slots.1),
        Role::Runner => (slots.0, id),
    }
}

fn get_slot(slots: Slots, role: Role) -> (r: Option<u64>)
    ensures
        r == slot(slots, role),
{
    match role {
        Role::Controller => slots.0,
        Role::Runner => slots.1,
    }
}

fn set_slot(slots: Slots, role: Role, id: Option<u64>) -> (r: Slots)
    ensures
        r == with_slot(slots, role, id),
{
    match role {
        Role::Controller => (id, slots.1),
        Role::Runner => (slots.0, id),
    }
}

/// The slots of a session, both free if it is not in the table.
pub open spec fn slots_of(table: Map<Seq<u8>, Slots>, session: Seq<u8>) -> Slots {
    if table.dom().contains(session) {
        table[session]
    } else {
        (None, None)
    }
}

/// The table after a connection took a role.
pub open spec fn joined_table(
    table: Map<Seq<u8>, Slots>,
    session: Seq<u8>,
    role: Role,
    id: u64,
) -> Map<Seq<u8>, Slots> {
    table.insert(session, with_slot(slots_of(table, session), role, Some(id)))
}

/// The table after a connection left: its slot is free if it still held it, and
/// a session without connections is gone.
pub open spec fn left_table(
    table: Map<Seq<u8>, Slots>,
    session: Seq<u8>,
    role: Role,
    id: u64,
) -> Map<Seq<u8>, Slots> {
    let slots = slots_of(table, session);
    let rest = with_slot(slots, role, None);
    if slot(slots, role) != Some(id) {
        table
    } else if rest == (None::<u64>, None::<u64>) {
        table.remove(session)
    } else {
        table.insert(session, rest)
    }
}

/// Outcome of a [`Hub::join`].
#[derive(Debug, Clone, Copy, PartialEq, Eq, Structural)]
pub struct Joined {
    /// Whether the opposite role was already connected.
    pub peer_present: bool,
    /// The opposite connection, to be told of the arrival.
    pub peer: Option<u64>,
    /// The connection that was displaced from this role, if any.
    pub evicted: Option<u64>,
}

/// The relay's session table.
pub struct Hub {
    sessions: Table,
    next_id: u64,
}

impl View for Hub {
    type V = Map<Seq<u8>, Slots>;

    closed spec fn view(&self) -> Map<Seq<u8>, Slots> {
        table_contents(self.sessions)
    }
}

impl Hub {
    /// No session is without connections.
    pub open spec fn well_formed(self) -> bool {
        forall|s: Seq<u8>| #[trigger]
            self@.dom().contains(s) ==> self@[s] != (None::<u64>, None::<u64>)
    }

    /// The id that the next connection gets.
    pub closed spec fn upcoming(self) -> u64 {
        self.next_id
    }

    /// Creates an empty hub.
    #[must_use]
    pub fn new() -> (hub: Self)
        ensures
            hub@ == Map::<Seq<u8>, Slots>::empty(),
            hub.well_formed(),
            hub.upcoming() == 0,
    {
        let hub = Hub { sessions: table_new(), next_id: 0 };
        assert(hub@ =~= Map::<Seq<u8>, Slots>::empty());
        hub
    }

    /// Allocates an id for a new connection: they count up from zero.
    #[must_use]
    pub fn new_connection_id(&mut self) -> (id: u64)
        ensures
            id == old(self).upcoming(),
            final(self).upcoming() == (if id == u64::MAX {
                0u64
            } else {
                (id + 1) as u64
            }),
            final(self)@ == old(self)@,
    {
        let id: u64 = self.next_id;
        self.next_id = if id == u64::MAX {
            0
        } else {
            id + 1
        };
        id
    }

    /// Registers a connection for `role`, evicting any incumbent.
    pub fn join(&mut self, session: SessionId, role: Role, id: u64) -> (r: Joined)
        requires
            old(self).well_formed(),
        ensures
            final(self).well_formed(),
            final(self)@ == joined_table(old(self)@, session@, role, id),
            final(self).upcoming() == old(self).upcoming(),
            r.evicted == slot(slots_of(old(self)@, session@), role),
            r.peer == slot(slots_of(old(self)@, session@), role.spec_peer()),
            r.peer_present == (r.peer is Some),
    {
        let key = session.as_bytes();
        let slots: Slots = match table_get(&self.sessions, key) {
            Some(found) => found,
            None => (None, None),
        };
        let evicted = get_slot(slots, role);
        let peer = get_slot(slots, role.peer());
        table_insert(&mut self.sessions, key, set_slot(slots, role, Some(id)));
        Joined { peer_present: peer.is_some(), peer, evicted }
    }

    /// The opposite connection, to which a payload is forwarded, if there is one.
    #[must_use]
    pub fn peer_of(&self, session: &SessionId, role: Role) -> (r: Option<u64>)
        ensures
            r == slot(slots_of(self@, session@), role.spec_peer()),
    {
        match table_get(&self.sessions, session.as_bytes()) {
            Some(slots) => get_slot(slots, role.peer()),
            None => None,
        }
    }

    /// Removes the connection from its role, only if the slot still holds it. Gives
    /// the opposite connection, to be told, when a removal happened.
    #[must_use]
    pub fn leave(&mut self, session: &SessionId, role: Role, id: u64) -> (r: Option<u64>)
        requires
            old(self).well_formed(),
        ensures
            final(self).well_formed(),
            final(self)@ == left_table(old(self)@, session@, role, id),
            final(self).upcoming() == old(self).upcoming(),
            r == (if slot(slots_of(old(self)@, session@), role) == Some(id) {
                slot(slots_of(old(self)@, session@), role.spec_peer())
            } else {
                None
            }),
    {
        let key = session.as_bytes();
        let slots: Slots = match table_get(&self.sessions, key) {
            Some(found) => found,
            None => {
                return None;
            },
        };
        match get_slot(slots, role) {
            Some(held) => {
                if held != id {
                    return None;
                }
            },
            None => {
                return None;
            },
        }
        let rest = set_slot(slots, role, None);
        if rest.0.is_none() && rest.1.is_none() {
            table_remove(&mut self.sessions, key);
        } else {
            table_insert(&mut self.sessions, key, rest);
        }
        get_slot(slots, role.peer())
    }

    /// Number of live sessions.
    #[must_use]
    pub fn session_count(&self) -> (n: usize)
        ensures
            n == self@.len(),
    {
        table_len(&self.sessions)
    }
}

/// A newcomer takes over an occupied role, and the teardown of the connection it
/// displaced changes nothing.
pub proof fn law_evicted_teardown_is_harmless(
    table: Map<Seq<u8>, Slots>,
    session: Seq<u8>,
    role: Role,
    old_id: u64,
    new_id: u64,
)
    requires
        slot(slots_of(table, session), role) == Some(old_id),
        old_id != new_id,
    ensures
        slot(slots_of(joined_table(table, session, role, new_id), session), role) == Some(new_id),
        left_table(joined_table(table, session, role, new_id), session, role, old_id)
            == joined_table(table, session, role, new_id),
{
}

/// Joining a role touches neither the other role nor any other session.
pub proof fn law_join_is_local(
    table: Map<Seq<u8>, Slots>,
    session: Seq<u8>,
    role: Role,
    id: u64,
    other: Seq<u8>,
)
    ensures
        slot(slots_of(joined_table(table, session, role, id), session), role.spec_peer()) == slot(
            slots_of(table, session),
            role.spec_peer(),
        ),
        other != session ==> slots_of(joined_table(table, session, role, id), other) == slots_of(
            table,
            other,
        ),
{
}

/// A connection that joins a free role and leaves again leaves the table as it
/// was.
pub proof fn law_leave_undoes_join(
    table: Map<Seq<u8>, Slots>,
    session: Seq<u8>,
    role: Role,
    id: u64,
)
    requires
        slot(slots_of(table, session), role) is None,
        forall|s: Seq<u8>| #[trigger]
            table.dom().contains(s) ==> table[s] != (None::<u64>, None::<u64>),
    ensures
        left_table(joined_table(table, session, role, id), session, role, id) == table,
{
    let after = left_table(joined_table(table, session, role, id), session, role, id);
    assert(after =~= table);
}

/// When the last connection of a session leaves, the session is gone.
pub proof fn law_empty_session_is_reaped(
    table: Map<Seq<u8>, Slots>,
    session: Seq<u8>,
    role: Role,
    id: u64,
)
    requires
        slot(slots_of(table, session), role) == Some(id),
        slot(slots_of(table, session), role.spec_peer()) is None,
    ensures
        !left_table(table, session, role, id).dom().contains(session),
{
}

/// A connection that joins takes its own role in its own session, and nothing else
/// changes. What it displaced is the connection that had that role, and its peer is
/// the one that has the other.
pub proof fn law_newcomer_takes_its_role(
    hub: &mut Hub,
    session: SessionId,
    role: Role,
    id: u64,
    other: Seq<u8>,
    r: Joined,
)
    requires
        old(hub).well_formed(),
        call_ensures(Hub::join, (hub, session, role, id), r),
    ensures
        ({
            let before = if old(hub)@.dom().contains(session@) {
                old(hub)@[session@]
            } else {
                (None, None)
            };
            let after = final(hub)@[session@];
            &&& final(hub)@.dom().contains(session@)
            &&& role is Controller ==> after.0 == Some(id) && after.1 == before.1 && r.evicted
                == before.0 && r.peer == before.1
            &&& role is Runner ==> after.1 == Some(id) && after.0 == before.0 && r.evicted
                == before.1 && r.peer == before.0
            &&& r.peer_present <==> r.peer is Some
        }),
        other != session@ ==> final(hub)@.dom().contains(other) == old(hub)@.dom().contains(other)
            && final(hub)@[other] == old(hub)@[other],
{
}

/// A connection that leaves frees its own role, and only if it still has it; its peer
/// stays and is the one to be told. A session that nobody is in is gone.
pub proof fn law_leaver_frees_its_role(
    hub: &mut Hub,
    session: &SessionId,
    role: Role,
    id: u64,
    other: Seq<u8>,
    r: Option<u64>,
)
    requires
        old(hub).well_formed(),
        call_ensures(Hub::leave, (hub, session, role, id), r),
    ensures
        ({
            let before = if old(hub)@.dom().contains(session@) {
                old(hub)@[session@]
            } else {
                (None, None)
            };
            let (mine, peer) = if role is Controller {
                (before.0, before.1)
            } else {
                (before.1, before.0)
            };
            &&& mine != Some(id) ==> final(hub)@ == old(hub)@ && r is None
            &&& mine == Some(id) ==> r == peer && (final(hub)@.dom().contains(session@) <==> peer
                is Some)
            &&& mine == Some(id) && peer is Some && role is Controller
                ==> final(hub)@[session@] == (None::<u64>, peer)
            &&& mine == Some(id) && peer is Some && role is Runner ==> final(hub)@[session@] == (
                peer,
                None::<u64>,
            )
        }),
        other != session@ ==> final(hub)@.dom().contains(other) == old(hub)@.dom().contains(other)
            && final(hub)@[other] == old(hub)@[other],
{
}

/// What one side sends goes to the connection that has the other role in the same
/// session.
pub proof fn law_payload_goes_to_the_other_role(
    hub: &Hub,
    session: &SessionId,
    from_controller: Option<u64>,
    from_runner: Option<u64>,
)
    requires
        call_ensures(Hub::peer_of, (hub, session, Role::Controller), from_controller),
        call_ensures(Hub::peer_of, (hub, session, Role::Runner), from_runner),
    ensures
        hub@.dom().contains(session@) ==> from_controller == hub@[session@].1 && from_runner
            == hub@[session@].0,
        !hub@.dom().contains(session@) ==> from_controller is None && from_runner is None,
{
}

/// Two connections that follow each other have different ids, and making ids changes
/// nothing about the sessions.
pub proof fn law_connection_ids_differ(hub: &mut Hub, a: u64, later: &mut Hub, b: u64)
    requires
        call_ensures(Hub::new_connection_id, (hub,), a),
        *old(later) == *final(hub),
        call_ensures(Hub::new_connection_id, (later,), b),
    ensures
        a != b,
        final(later)@ == old(hub)@,
{
}

} // verus!
