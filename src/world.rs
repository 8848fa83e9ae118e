//! The world: every live connection, and the tick that drains and reaps them.
use vstd::prelude::*;

use crate::conn::{cancelled, lemma_drain_frame, spec_drain, ConnView, Connection, Outgoing, OutgoingView, QUEUE_CAPACITY};
use crate::frame::RawPacket;
use crate::legacy::{handle, kick_packet, legacy_text, utf16_units, MAX_KICK_UNITS};
use crate::registry::PacketIds;
use crate::state::{is_step, is_valid_path, lemma_path_extend, ProtocolState};
use crate::status::Settings;

verus! {

/// The most connections that the world holds at once (the status document
/// counts them in a `u32`).
pub const MAX_CONNECTIONS: usize = 0xFFFF_FFFF;

/// The state of a connection that was just accepted.
pub open spec fn fresh_connection(id: u64) -> ConnView {
    ConnView {
        id,
        state: ProtocolState::Handshake,
        inbound: Seq::empty(),
        outbound: Seq::empty(),
        player: None,
        cancelled: false,
    }
}

/// Whether `c` is still live (its cancel flag is clear).
pub open spec fn is_live(c: ConnView) -> bool {
    !c.cancelled
}

/// The ids of the cancelled connections in `conns`, in order.
pub open spec fn cancelled_ids(conns: Seq<ConnView>) -> Seq<u64> {
    conns.filter_map(|c: ConnView| if c.cancelled { Some(c.id) } else { None })
}

/// The connections after one tick's listen: each drained, all seeing the same
/// count of live connections.
pub open spec fn spec_listen(ids: PacketIds, settings: Settings, conns: Seq<ConnView>) -> Seq<ConnView> {
    conns.map_values(|c: ConnView| spec_drain(ids, settings, conns.len() as u32, c))
}

/// The live connections of `conns`, in order: what reaping leaves.
pub open spec fn live_only(conns: Seq<ConnView>) -> Seq<ConnView> {
    conns.filter(|c: ConnView| is_live(c))
}

/// The connections after one tick: listen, then reap the cancelled ones.
pub open spec fn spec_tick(ids: PacketIds, settings: Settings, conns: Seq<ConnView>) -> Seq<ConnView> {
    live_only(spec_listen(ids, settings, conns))
}

/// Whether the ids of `conns` increase strictly, so that each names one connection.
pub open spec fn ids_increasing(conns: Seq<ConnView>) -> bool {
    forall|i: int, j: int| 0 <= i < j < conns.len() ==> conns[i].id < conns[j].id
}

/// What each connection of `v` holds.
pub open spec fn views(v: Seq<Connection>) -> Seq<ConnView> {
    v.map_values(|c: Connection| c@)
}

/// The world of connections.
pub struct World {
    connections: Vec<Connection>,
    next_id: u64,
    ids: PacketIds,
    settings: Settings,
}

/// Filtering keeps strictly increasing ids strictly increasing.
proof fn lemma_filter_increasing(s: Seq<ConnView>)
    requires
        ids_increasing(s),
    ensures
        ids_increasing(live_only(s)),
        forall|i: int| 0 <= i < live_only(s).len() ==> s.contains(#[trigger] live_only(s)[i]),
    decreases s.len(),
{
    broadcast use vstd::seq_lib::group_filter_ensures;

    let f = |c: ConnView| is_live(c);
    reveal(Seq::filter);
    if s.len() > 0 {
        let rest = s.drop_last();
        assert(ids_increasing(rest));
        lemma_filter_increasing(rest);
        if is_live(s.last()) {
            let fr = rest.filter(f);
            assert forall|i: int| 0 <= i < fr.len() implies #[trigger] fr[i].id < s.last().id by {
                assert(rest.contains(fr[i]));
                let k = choose|k: int| 0 <= k < rest.len() && rest[k] == fr[i];
                assert(s[k] == rest[k]);
            }
        }
    }
}


/// One tick reaps every connection whose cancel flag was set, before or during
/// the tick, and moves every other connection's state only along the
/// transition table.
pub proof fn lemma_tick_laws(ids: PacketIds, settings: Settings, conns: Seq<ConnView>)
    requires
        ids_increasing(conns),
    ensures
        forall|i: int|
            0 <= i < spec_tick(ids, settings, conns).len() ==> !(#[trigger] spec_tick(
                ids,
                settings,
                conns,
            )[i]).cancelled,
        forall|i: int, j: int|
            0 <= i < spec_tick(ids, settings, conns).len() && 0 <= j < conns.len() && conns[j].cancelled
                ==> #[trigger] spec_tick(ids, settings, conns)[i].id != #[trigger] conns[j].id,
        forall|i: int, j: int|
            0 <= i < spec_tick(ids, settings, conns).len() && 0 <= j < conns.len() && (
            #[trigger] spec_tick(ids, settings, conns)[i]).id == (#[trigger] conns[j]).id ==> is_step(
                conns[j].state,
                spec_tick(ids, settings, conns)[i].state,
            ),
{
    broadcast use vstd::seq_lib::group_filter_ensures;

    let listened = spec_listen(ids, settings, conns);
    let after = spec_tick(ids, settings, conns);
    let online = conns.len() as u32;
    assert forall|k: int| 0 <= k < conns.len() implies #[trigger] listened[k].id == conns[k].id
        && (conns[k].cancelled ==> listened[k] == conns[k]) && is_step(
        conns[k].state,
        listened[k].state,
    ) by {
        lemma_drain_frame(ids, settings, online, conns[k]);
    }
    assert(ids_increasing(listened));
    lemma_filter_increasing(listened);
    assert forall|i: int, j: int|
        0 <= i < after.len() && 0 <= j < conns.len() && after[i].id == conns[j].id implies after[i]
        == listened[j] by {
        assert(listened.contains(after[i]));
        let k = choose|k: int| 0 <= k < listened.len() && listened[k] == after[i];
        if k < j {
            assert(conns[k].id < conns[j].id);
        } else if k > j {
            assert(conns[j].id < conns[k].id);
        }
    }
}

/// The states observed of a connection across ticks form a path through the
/// transition table: a path that ends in the connection's state before a tick,
/// extended by its state after the tick, is still a path.
pub proof fn lemma_tick_extends_path(
    ids: PacketIds,
    settings: Settings,
    conns: Seq<ConnView>,
    states: Seq<ProtocolState>,
    i: int,
    j: int,
)
    requires
        ids_increasing(conns),
        is_valid_path(states),
        0 <= j < conns.len(),
        states.last() == conns[j].state,
        0 <= i < spec_tick(ids, settings, conns).len(),
        spec_tick(ids, settings, conns)[i].id == conns[j].id,
    ensures
        is_valid_path(states.push(spec_tick(ids, settings, conns)[i].state)),
{
    lemma_tick_laws(ids, settings, conns);
    let after = spec_tick(ids, settings, conns);
    assert(is_step(conns[j].state, after[i].state));
    lemma_path_extend(states, after[i].state);
}

/// A connection starts its path in the Handshake state.
pub proof fn lemma_fresh_path(id: u64)
    ensures
        is_valid_path(seq![fresh_connection(id).state]),
{
}

impl World {
    /// The connections, in the order they were accepted.
    pub closed spec fn conns(&self) -> Seq<ConnView> {
        views(self.connections@)
    }

    /// The id that the next accepted connection gets.
    pub closed spec fn spec_next_id(&self) -> u64 {
        self.next_id
    }

    /// The packet ids the world dispatches by.
    pub closed spec fn spec_ids(&self) -> PacketIds {
        self.ids
    }

    /// The configuration snapshot the world answers with.
    pub closed spec fn spec_settings(&self) -> Settings {
        self.settings
    }

    /// The world's invariant: distinct ids in increasing order, all below the
    /// next id to hand out; queues within capacity; at most `MAX_CONNECTIONS`.
    pub closed spec fn wf(&self) -> bool {
        &&& self.connections@.len() <= MAX_CONNECTIONS
        &&& ids_increasing(self.conns())
        &&& forall|i: int| 0 <= i < self.conns().len() ==> #[trigger] self.conns()[i].id < self.next_id
        &&& forall|i: int|
            0 <= i < self.conns().len() ==> #[trigger] self.conns()[i].inbound.len() <= QUEUE_CAPACITY
    }

    /// An empty world.
    pub fn new(ids: PacketIds, settings: Settings) -> (r: World)
        ensures
            r.wf(),
            r.conns().len() == 0,
            r.spec_ids() == ids,
            r.spec_settings() == settings,
    {
        let r = World { connections: Vec::new(), next_id: 0, ids, settings };
        assert(r.conns().len() == 0);
        r
    }

    /// The number of connections in the world.
    pub fn connection_count(&self) -> (r: usize)
        ensures
            r == self.conns().len(),
    {
        self.connections.len()
    }

    /// The packet ids the world dispatches by.
    pub fn ids(&self) -> (r: &PacketIds)
        ensures
            *r == self.spec_ids(),
    {
        &self.ids
    }

    /// The configuration snapshot the world answers with.
    pub fn settings(&self) -> (r: &Settings)
        ensures
            *r == self.spec_settings(),
    {
        &self.settings
    }

    /// The reply to a legacy ping, or `None` where the socket is to be closed
    /// without writing: status is disabled, or the reply is too long for its
    /// count. The online count is the number of connections in the world.
    pub fn legacy_reply(&self, v2: bool) -> (r: Option<Vec<u8>>)
        ensures
            !self.spec_settings().status ==> r is None,
            self.spec_settings().status ==> {
                let text = legacy_text(
                    v2,
                    self.spec_settings().motd@,
                    self.conns().len() as u32,
                    self.spec_settings().max_players,
                );
                &&& r matches Some(bytes) ==> bytes@ == kick_packet(text)
                &&& r is None ==> utf16_units(text).len() > MAX_KICK_UNITS
            },
    {
        if !self.settings.status {
            return None;
        }
        let online = self.connections.len() as u32;
        handle(v2, self.settings.motd.as_str(), online, self.settings.max_players)
    }

    /// Replaces the configuration snapshot, as a reload between ticks does.
    pub fn set_settings(&mut self, settings: Settings)
        requires
            old(self).wf(),
        ensures
            final(self).wf(),
            final(self).conns() == old(self).conns(),
            final(self).spec_ids() == old(self).spec_ids(),
            final(self).spec_settings() == settings,
    {
        self.settings = settings;
    }

    /// The index of the connection with id `id`.
    fn find(&self, id: u64) -> (r: Option<usize>)
        ensures
            r matches Some(i) ==> i < self.conns().len() && self.conns()[i as int].id == id,
            r is None ==> forall|i: int| 0 <= i < self.conns().len() ==> self.conns()[i].id != id,
    {
        let mut i: usize = 0;
        while i < self.connections.len()
            invariant
                i <= self.conns().len(),
                self.conns().len() == self.connections@.len(),
                forall|j: int| 0 <= j < i ==> self.conns()[j].id != id,
            decreases self.connections@.len() - i,
        {
            if self.connections[i].id == id {
                return Some(i);
            }
            i = i + 1;
        }
        None
    }

    /// Registers a newly accepted connection, in the Handshake state with empty
    /// queues, and returns its id; `None` where the world is full.
    pub fn spawn(&mut self) -> (r: Option<u64>)
        requires
            old(self).wf(),
        ensures
            final(self).wf(),
            final(self).spec_ids() == old(self).spec_ids(),
            final(self).spec_settings() == old(self).spec_settings(),
            r matches Some(id) ==> final(self).conns() == old(self).conns().push(fresh_connection(id))
                && forall|i: int| 0 <= i < old(self).conns().len() ==> old(self).conns()[i].id != id,
            r is None ==> final(self).conns() == old(self).conns() && (old(self).conns().len()
                == MAX_CONNECTIONS || old(self).spec_next_id() == u64::MAX),
    {
        if self.connections.len() >= MAX_CONNECTIONS || self.next_id == u64::MAX {
            return None;
        }
        let id = self.next_id;
        let ghost before = self.conns();
        let c = Connection::new(id);
        proof {
            assert(c@.inbound =~= Seq::empty());
            assert(c@.outbound =~= Seq::empty());
            assert(c@ == fresh_connection(id));
        }
        self.connections.push(c);
        self.next_id = id + 1;
        proof {
            assert(self.conns() =~= before.push(fresh_connection(id)));
        }
        Some(id)
    }

    /// Queues a packet that connection `id` received; hands it back where there
    /// is no such connection or its inbound queue is full.
    pub fn push_inbound(&mut self, id: u64, packet: RawPacket) -> (r: Result<(), RawPacket>)
        requires
            old(self).wf(),
        ensures
            final(self).wf(),
            final(self).spec_ids() == old(self).spec_ids(),
            final(self).spec_settings() == old(self).spec_settings(),
            forall|i: int|
                0 <= i < old(self).conns().len() && old(self).conns()[i].id == id ==> {
                    &&& r is Ok == (old(self).conns()[i].inbound.len() < QUEUE_CAPACITY)
                    &&& r is Ok ==> final(self).conns() == old(self).conns().update(
                        i,
                        ConnView {
                            inbound: old(self).conns()[i].inbound.push(packet@),
                            ..old(self).conns()[i]
                        },
                    )
                },
            r matches Err(p) ==> p == packet && final(self).conns() == old(self).conns(),
            (forall|i: int| 0 <= i < old(self).conns().len() ==> old(self).conns()[i].id != id)
                ==> r is Err,
    {
        let i = match self.find(id) {
            Some(i) => i,
            None => return Err(packet),
        };
        if self.connections[i].inbound.len() >= QUEUE_CAPACITY {
            return Err(packet);
        }
        let ghost before = self.conns();
        let mut c = self.connections.remove(i);
        let ghost cv = c@;
        assert(cv == before[i as int]);
        c.inbound.push(packet);
        proof {
            assert(c@.inbound =~= cv.inbound.push(packet@));
            assert(c@.outbound =~= cv.outbound);
            assert(c@ == ConnView { inbound: cv.inbound.push(packet@), ..cv });
        }
        self.connections.insert(i, c);
        proof {
            assert(self.conns() == before.update(
                i as int,
                ConnView { inbound: cv.inbound.push(packet@), ..cv },
            ));
            assert forall|j: int, k: int|
                0 <= j < k < self.conns().len() implies self.conns()[j].id < self.conns()[k].id by {
                assert(before[j].id == self.conns()[j].id);
                assert(before[k].id == self.conns()[k].id);
            }
            assert forall|j: int| 0 <= j < before.len() && before[j].id == id implies j == i by {
                if j < i {
                    assert(before[j].id < before[i as int].id);
                } else if j > i {
                    assert(before[i as int].id < before[j].id);
                }
            }
        }
        Ok(())
    }

    /// Sets the cancel flag of connection `id`; it stays set until the
    /// connection is reaped.
    pub fn cancel(&mut self, id: u64)
        requires
            old(self).wf(),
        ensures
            final(self).wf(),
            final(self).spec_ids() == old(self).spec_ids(),
            final(self).spec_settings() == old(self).spec_settings(),
            forall|i: int|
                0 <= i < old(self).conns().len() && old(self).conns()[i].id == id
                    ==> final(self).conns() == old(self).conns().update(i, cancelled(old(self).conns()[i])),
            (forall|i: int| 0 <= i < old(self).conns().len() ==> old(self).conns()[i].id != id)
                ==> final(self).conns() == old(self).conns(),
    {
        let i = match self.find(id) {
            Some(i) => i,
            None => return ,
        };
        let ghost before = self.conns();
        let mut c = self.connections.remove(i);
        let ghost cv = c@;
        assert(cv == before[i as int]);
        c.cancelled = true;
        self.connections.insert(i, c);
        proof {
            assert(self.conns() == before.update(i as int, cancelled(cv)));
            assert forall|j: int, k: int|
                0 <= j < k < self.conns().len() implies self.conns()[j].id < self.conns()[k].id by {
                assert(before[j].id == self.conns()[j].id);
                assert(before[k].id == self.conns()[k].id);
            }
            assert forall|j: int| 0 <= j < before.len() && before[j].id == id implies j == i by {
                if j < i {
                    assert(before[j].id < before[i as int].id);
                } else if j > i {
                    assert(before[i as int].id < before[j].id);
                }
            }
        }
    }

    /// The protocol state of connection `id`, if it is in the world.
    pub fn state_of(&self, id: u64) -> (r: Option<ProtocolState>)
        ensures
            r matches Some(s) ==> exists|i: int|
                0 <= i < self.conns().len() && self.conns()[i].id == id && self.conns()[i].state
                    == s,
            r is None ==> forall|i: int| 0 <= i < self.conns().len() ==> self.conns()[i].id != id,
    {
        match self.find(id) {
            Some(i) => Some(self.connections[i].state),
            None => None,
        }
    }

    /// Whether connection `id` is in the world with its cancel flag set.
    pub fn is_cancelled(&self, id: u64) -> (r: bool)
        requires
            self.wf(),
        ensures
            r == exists|i: int|
                0 <= i < self.conns().len() && self.conns()[i].id == id && self.conns()[i].cancelled,
    {
        match self.find(id) {
            Some(i) => {
                let r = self.connections[i].cancelled;
                proof {
                    if !r {
                        assert forall|j: int|
                            0 <= j < self.conns().len() && self.conns()[j].id == id implies !self.conns()[j].cancelled by {
                            if j < i {
                                assert(self.conns()[j].id < self.conns()[i as int].id);
                            } else if j > i {
                                assert(self.conns()[i as int].id < self.conns()[j].id);
                            }
                        }
                    }
                }
                r
            },
            None => false,
        }
    }

    /// Hands out what the server queued for connection `id`, oldest first.
    pub fn take_outbound(&mut self, id: u64) -> (r: Vec<Outgoing>)
        requires
            old(self).wf(),
        ensures
            final(self).wf(),
            final(self).spec_ids() == old(self).spec_ids(),
            final(self).spec_settings() == old(self).spec_settings(),
            forall|i: int|
                0 <= i < old(self).conns().len() && old(self).conns()[i].id == id ==> {
                    &&& r@.map_values(|o: Outgoing| o@) == old(self).conns()[i].outbound
                    &&& final(self).conns() == old(self).conns().update(
                        i,
                        ConnView { outbound: Seq::empty(), ..old(self).conns()[i] },
                    )
                },
            (forall|i: int| 0 <= i < old(self).conns().len() ==> old(self).conns()[i].id != id)
                ==> final(self).conns() == old(self).conns() && r@.len() == 0,
    {
        let i = match self.find(id) {
            Some(i) => i,
            None => return Vec::new(),
        };
        let ghost before = self.conns();
        let mut c = self.connections.remove(i);
        let ghost cv = c@;
        assert(cv == before[i as int]);
        let mut out: Vec<Outgoing> = Vec::new();
        std::mem::swap(&mut out, &mut c.outbound);
        proof {
            assert(c@.outbound =~= Seq::empty());
            assert(c@.inbound =~= cv.inbound);
            assert(c@ == ConnView { outbound: Seq::empty(), ..cv });
        }
        self.connections.insert(i, c);
        proof {
            assert(self.conns() == before.update(i as int, ConnView { outbound: Seq::empty(), ..cv }));
            assert forall|j: int, k: int|
                0 <= j < k < self.conns().len() implies self.conns()[j].id < self.conns()[k].id by {
                assert(before[j].id == self.conns()[j].id);
                assert(before[k].id == self.conns()[k].id);
            }
            assert forall|j: int| 0 <= j < before.len() && before[j].id == id implies j == i by {
                if j < i {
                    assert(before[j].id < before[i as int].id);
                } else if j > i {
                    assert(before[i as int].id < before[j].id);
                }
            }
        }
        out
    }

    /// Drains every connection's inbound queue once, first connection to last.
    pub fn listen(&mut self)
        requires
            old(self).wf(),
        ensures
            final(self).wf(),
            final(self).spec_ids() == old(self).spec_ids(),
            final(self).spec_settings() == old(self).spec_settings(),
            final(self).conns() == spec_listen(old(self).spec_ids(), old(self).spec_settings(), old(self).conns()),
    {
        let online = self.connections.len() as u32;
        let ghost orig = self.conns();
        let mut pending: Vec<Connection> = Vec::new();
        std::mem::swap(&mut pending, &mut self.connections);
        assert(self.conns() =~= Seq::<ConnView>::empty());
        assert(orig.skip(0) == orig);
        let mut k: usize = 0;
        while pending.len() > 0
            invariant
                online == orig.len() as u32,
                orig.len() <= MAX_CONNECTIONS,
                orig == old(self).conns(),
                k + pending@.len() == orig.len(),
                views(pending@) == orig.skip(k as int),
                self.conns().len() == k,
                forall|j: int|
                    0 <= j < k ==> #[trigger] self.conns()[j] == spec_drain(
                        self.ids,
                        self.settings,
                        online,
                        orig[j],
                    ),
                self.ids == old(self).ids,
                self.settings == old(self).settings,
                self.next_id == old(self).next_id,
            decreases pending@.len(),
        {
            let ghost rest = pending@;
            let mut c = pending.remove(0);
            proof {
                assert(c@ == orig[k as int]) by {
                    assert(views(rest)[0] == orig.skip(k as int)[0]);
                }
                assert forall|i: int| 0 <= i < pending@.len() implies #[trigger] views(pending@)[i] == orig.skip(k + 1)[i] by {
                    assert(pending@[i] == rest[i + 1]);
                    assert(views(rest)[i + 1] == orig.skip(k as int)[i + 1]);
                }
                assert(views(pending@) =~= orig.skip(k + 1));
            }
            c.drain(&self.ids, &self.settings, online);
            let ghost done = self.conns();
            self.connections.push(c);
            proof {
                assert(self.conns() =~= done.push(c@));
            }
            k = k + 1;
        }
        proof {
            let listened = spec_listen(self.ids, self.settings, orig);
            assert(self.conns() =~= listened);
            assert forall|j: int| 0 <= j < orig.len() implies #[trigger] listened[j].id == orig[j].id
                && listened[j].inbound.len() <= orig[j].inbound.len() by {
                lemma_drain_frame(self.ids, self.settings, online, orig[j]);
            }
            assert(ids_increasing(orig));
            assert forall|i: int, j: int| 0 <= i < j < listened.len() implies listened[i].id
                < listened[j].id by {
                assert(listened[i].id == orig[i].id);
                assert(listened[j].id == orig[j].id);
            }
            assert forall|i: int| 0 <= i < listened.len() implies #[trigger] listened[i].id
                < self.next_id && listened[i].inbound.len() <= QUEUE_CAPACITY by {
                assert(listened[i].id == orig[i].id);
                assert(orig[i].id < old(self).next_id);
                assert(orig[i].inbound.len() <= QUEUE_CAPACITY);
            }
        }
    }

    /// Removes every cancelled connection, returning their ids in order.
    pub fn reap(&mut self) -> (r: Vec<u64>)
        requires
            old(self).wf(),
        ensures
            final(self).wf(),
            final(self).spec_ids() == old(self).spec_ids(),
            final(self).spec_settings() == old(self).spec_settings(),
            final(self).conns() == live_only(old(self).conns()),
            r@ == cancelled_ids(old(self).conns()),
    {
        let ghost orig = self.conns();
        let mut pending: Vec<Connection> = Vec::new();
        std::mem::swap(&mut pending, &mut self.connections);
        let mut removed: Vec<u64> = Vec::new();
        proof {
            reveal(Seq::filter);
            assert(self.conns() =~= Seq::<ConnView>::empty());
            assert(orig.skip(0) == orig);
            assert(orig.take(0) =~= Seq::<ConnView>::empty());
        }
        let mut k: usize = 0;
        while pending.len() > 0
            invariant
                orig.len() <= MAX_CONNECTIONS,
                orig == old(self).conns(),
                k + pending@.len() == orig.len(),
                views(pending@) == orig.skip(k as int),
                self.conns() == live_only(orig.take(k as int)),
                removed@ == cancelled_ids(orig.take(k as int)),
                self.ids == old(self).ids,
                self.settings == old(self).settings,
                self.next_id == old(self).next_id,
            decreases pending@.len(),
        {
            let ghost rest = pending@;
            let c = pending.remove(0);
            let ghost done = self.conns();
            let ghost t = orig.take(k as int);
            proof {
                assert(c@ == orig[k as int]) by {
                    assert(views(rest)[0] == orig.skip(k as int)[0]);
                }
                assert forall|i: int| 0 <= i < pending@.len() implies #[trigger] views(pending@)[i] == orig.skip(k + 1)[i] by {
                    assert(pending@[i] == rest[i + 1]);
                    assert(views(rest)[i + 1] == orig.skip(k as int)[i + 1]);
                }
                assert(views(pending@) =~= orig.skip(k + 1));
                assert(orig.take(k + 1) =~= t.push(c@));
                assert(t.push(c@).drop_last() =~= t);
                reveal(Seq::filter);
            }
            if c.cancelled {
                removed.push(c.id);
            } else {
                self.connections.push(c);
                proof {
                    assert(self.conns() =~= done.push(c@));
                }
            }
            k = k + 1;
        }
        proof {
            assert(orig.take(orig.len() as int) =~= orig);
            lemma_filter_increasing(orig);
            let kept = live_only(orig);
            assert forall|i: int| 0 <= i < kept.len() implies #[trigger] kept[i].id < self.next_id
                && kept[i].inbound.len() <= QUEUE_CAPACITY by {
                assert(orig.contains(kept[i]));
            }
        }
        removed
    }

    /// One tick: listen, then reap. Returns the ids of the connections removed.
    pub fn tick(&mut self) -> (r: Vec<u64>)
        requires
            old(self).wf(),
        ensures
            final(self).wf(),
            final(self).spec_ids() == old(self).spec_ids(),
            final(self).spec_settings() == old(self).spec_settings(),
            final(self).conns() == spec_tick(old(self).spec_ids(), old(self).spec_settings(), old(self).conns()),
            r@ == cancelled_ids(spec_listen(old(self).spec_ids(), old(self).spec_settings(), old(self).conns())),
            forall|i: int|
                0 <= i < final(self).conns().len() ==> !(#[trigger] final(self).conns()[i]).cancelled,
            forall|i: int, j: int|
                0 <= i < final(self).conns().len() && 0 <= j < old(self).conns().len()
                    && old(self).conns()[j].cancelled ==> #[trigger] final(self).conns()[i].id
                    != #[trigger] old(self).conns()[j].id,
            forall|i: int, j: int|
                0 <= i < final(self).conns().len() && 0 <= j < old(self).conns().len() && (
                #[trigger] final(self).conns()[i]).id == (#[trigger] old(self).conns()[j]).id
                    ==> is_step(old(self).conns()[j].state, final(self).conns()[i].state),
    {
        proof {
            lemma_tick_laws(self.ids, self.settings, self.conns());
        }
        self.listen();
        self.reap()
    }
}

} // verus!
