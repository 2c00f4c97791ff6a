//! The topology registry: connected sessions, the publisher of each room,
//! which subscriber receives which publisher, and recorder attachments.

use std::collections::HashMap;
use std::collections::HashSet;
use vstd::prelude::*;

use crate::bidirectional_multimap::BidirectionalMultimap;

verus! {

broadcast use vstd::std_specs::hash::group_hash_axioms;

/// The stable handle of one participant connection.
pub type SessionId = u64;

/// The recorder attached to a publisher: it writes the stream of its room.
pub struct Recorder {
    pub room_id: String,
}

/// Why a switchboard operation did not take effect.
#[derive(PartialEq, Eq, Structural, Clone, Copy, Debug)]
pub enum SwitchboardError {
    /// No publisher is registered for the room.
    NotFound,
}

/// The state of a switchboard as mathematical values.
pub struct SwitchboardView {
    pub sessions: Set<SessionId>,
    /// The publisher of each room.
    pub publishers: Map<Seq<char>, SessionId>,
    /// The publisher of each subscriber.
    pub subscriptions: Map<SessionId, SessionId>,
    pub recorders: Map<SessionId, Recorder>,
    /// The participant identity of each signaling session.
    pub agents: Map<SessionId, Seq<char>>,
}

pub struct Switchboard {
    sessions: HashSet<SessionId>,
    publishers: Vec<(String, SessionId)>,
    rooms: Ghost<Map<Seq<char>, SessionId>>,
    publishers_subscribers: BidirectionalMultimap,
    recorders: HashMap<SessionId, Recorder>,
    agents: HashMap<SessionId, String>,
}

impl View for Switchboard {
    type V = SwitchboardView;

    closed spec fn view(&self) -> SwitchboardView {
        SwitchboardView {
            sessions: self.sessions@,
            publishers: self.rooms@,
            subscriptions: self.publishers_subscribers@,
            recorders: self.recorders@,
            agents: self.agents@.map_values(|a: String| a@),
        }
    }
}

/// The subscribers of `publisher` under the relation `subscriptions`.
pub open spec fn subscribers_of(subscriptions: Map<SessionId, SessionId>, publisher: SessionId) -> Set<
    SessionId,
> {
    Set::new(|s: SessionId| subscriptions.contains_key(s) && subscriptions[s] == publisher)
}

/// No room is listed twice.
spec fn unique_rooms(publishers: Seq<(String, SessionId)>) -> bool {
    forall|i: int, j: int|
        0 <= i < j < publishers.len() ==> #[trigger] publishers[i].0@ != #[trigger] publishers[j].0@
}

/// Every entry of `publishers` is a room of `rooms`, with its publisher.
spec fn rooms_agree(publishers: Seq<(String, SessionId)>, rooms: Map<Seq<char>, SessionId>) -> bool {
    forall|i: int|
        0 <= i < publishers.len() ==> rooms.contains_key(#[trigger] publishers[i].0@)
            && rooms[publishers[i].0@] == publishers[i].1
}

/// Every room of `rooms` has an entry in `publishers`.
spec fn rooms_listed(publishers: Seq<(String, SessionId)>, rooms: Map<Seq<char>, SessionId>) -> bool {
    forall|r: Seq<char>| #[trigger]
        rooms.contains_key(r) ==> exists|i: int|
            0 <= i < publishers.len() && #[trigger] publishers[i].0@ == r
}

/// `publishers` without the rooms that `session` publishes.
pub open spec fn without_publisher(publishers: Map<Seq<char>, SessionId>, session: SessionId) -> Map<
    Seq<char>,
    SessionId,
> {
    Map::new(
        |r: Seq<char>| publishers.contains_key(r) && publishers[r] != session,
        |r: Seq<char>| publishers[r],
    )
}

/// The entries of `listed` whose publisher is not `session`.
fn rooms_without(
    listed: &Vec<(String, SessionId)>,
    rooms: Ghost<Map<Seq<char>, SessionId>>,
    session: SessionId,
) -> (kept: Vec<(String, SessionId)>)
    requires
        unique_rooms(listed@),
        rooms_agree(listed@, rooms@),
        rooms_listed(listed@, rooms@),
    ensures
        unique_rooms(kept@),
        rooms_agree(kept@, without_publisher(rooms@, session)),
        rooms_listed(kept@, without_publisher(rooms@, session)),
{
    let ghost result = without_publisher(rooms@, session);
    let mut kept: Vec<(String, SessionId)> = Vec::new();
    // For each kept entry, the index of the entry of `listed` it copies.
    let ghost mut origin: Seq<int> = Seq::empty();
    let mut i: usize = 0;
    while i < listed.len()
        invariant
            i <= listed.len(),
            unique_rooms(listed@),
            rooms_agree(listed@, rooms@),
            result == without_publisher(rooms@, session),
            unique_rooms(kept@),
            rooms_agree(kept@, result),
            origin.len() == kept.len(),
            forall|j: int|
                0 <= j < kept.len() ==> 0 <= #[trigger] origin[j] < i && kept@[j].0@
                    == listed@[origin[j]].0@,
            forall|m: int|
                #![trigger listed@[m]]
                0 <= m < i && listed@[m].1 != session ==> exists|j: int|
                    0 <= j < kept.len() && #[trigger] kept@[j].0@ == listed@[m].0@,
        decreases listed.len() - i,
    {
        let ghost before = kept@;
        let publisher = listed[i].1;
        if publisher != session {
            let name = listed[i].0.clone();
            assert forall|j: int| 0 <= j < before.len() implies before[j].0@ != name@ by {
                assert(origin[j] < i);
            }
            kept.push((name, publisher));
            proof {
                origin = origin.push(i as int);
            }
            assert(kept@[before.len() as int].0@ == listed@[i as int].0@);
            assert forall|j: int| 0 <= j < kept.len() implies 0 <= #[trigger] origin[j] < i + 1
                && kept@[j].0@ == listed@[origin[j]].0@ by {
                if j < before.len() {
                    assert(kept@[j] == before[j]);
                }
            }
            assert forall|m: int|
                #![trigger listed@[m]]
                0 <= m < i + 1 && listed@[m].1 != session implies exists|j: int|
                    0 <= j < kept.len() && #[trigger] kept@[j].0@ == listed@[m].0@ by {
                if m < i {
                    let j = choose|j: int|
                        0 <= j < before.len() && #[trigger] before[j].0@ == listed@[m].0@;
                    assert(kept@[j] == before[j]);
                } else {
                    assert(kept@[before.len() as int].0@ == listed@[m].0@);
                }
            }
            assert(rooms_agree(kept@, result)) by {
                assert forall|j: int| 0 <= j < kept.len() implies result.contains_key(
                    #[trigger] kept@[j].0@,
                ) && result[kept@[j].0@] == kept@[j].1 by {
                    if j < before.len() {
                        assert(kept@[j] == before[j]);
                    } else {
                        assert(rooms@.contains_key(listed@[i as int].0@));
                    }
                }
            }
        }
        i = i + 1;
    }
    assert forall|r: Seq<char>| #[trigger] result.contains_key(r) implies exists|j: int|
        0 <= j < kept.len() && #[trigger] kept@[j].0@ == r by {
        let m = choose|m: int| 0 <= m < listed.len() && #[trigger] listed@[m].0@ == r;
        assert(listed@[m].1 == rooms@[r]);
        let j = choose|j: int| 0 <= j < kept.len() && #[trigger] kept@[j].0@ == listed@[m].0@;
    }
    kept
}

/// The state after `publisher` is made the publisher of `room`.
pub open spec fn after_create_room(s: SwitchboardView, room: Seq<char>, publisher: SessionId) -> SwitchboardView {
    SwitchboardView { publishers: s.publishers.insert(room, publisher), ..s }
}

/// The state after `subscriber` joins the publisher of `room`, which has one.
pub open spec fn after_join_room(s: SwitchboardView, room: Seq<char>, subscriber: SessionId) -> SwitchboardView {
    SwitchboardView {
        subscriptions: s.subscriptions.insert(subscriber, s.publishers[room]),
        ..s
    }
}

/// The state after `session` is disconnected.
pub open spec fn after_disconnect(s: SwitchboardView, session: SessionId) -> SwitchboardView {
    SwitchboardView {
        sessions: s.sessions.remove(session),
        publishers: without_publisher(s.publishers, session),
        subscriptions: s.subscriptions.remove_keys(subscribers_of(s.subscriptions, session)).remove(
            session,
        ),
        recorders: s.recorders.remove(session),
        agents: s.agents.remove(session),
    }
}

impl Switchboard {
    /// Rooms are listed once each, and the list agrees with the room map.
    pub closed spec fn wf(&self) -> bool {
        &&& self.publishers_subscribers.wf()
        &&& unique_rooms(self.publishers@)
        &&& rooms_agree(self.publishers@, self.rooms@)
        &&& rooms_listed(self.publishers@, self.rooms@)
    }

    pub fn new() -> (r: Self)
        ensures
            r.wf(),
            r@.sessions == Set::<SessionId>::empty(),
            r@.publishers == Map::<Seq<char>, SessionId>::empty(),
            r@.subscriptions == Map::<SessionId, SessionId>::empty(),
            r@.recorders == Map::<SessionId, Recorder>::empty(),
            r@.agents == Map::<SessionId, Seq<char>>::empty(),
    {
        let r = Switchboard {
            sessions: HashSet::new(),
            publishers: Vec::new(),
            rooms: Ghost(Map::empty()),
            publishers_subscribers: BidirectionalMultimap::new(),
            recorders: HashMap::new(),
            agents: HashMap::new(),
        };
        assert(r@.agents =~= Map::<SessionId, Seq<char>>::empty());
        r
    }

    /// The index of `room_id` in the room list, if it has a publisher.
    fn find_room(&self, room_id: &String) -> (r: Option<usize>)
        requires
            self.wf(),
        ensures
            match r {
                Some(i) => i < self.publishers.len() && self.publishers@[i as int].0@ == room_id@,
                None => !self.rooms@.contains_key(room_id@),
            },
    {
        let mut i: usize = 0;
        while i < self.publishers.len()
            invariant
                self.wf(),
                i <= self.publishers.len(),
                forall|j: int| 0 <= j < i ==> #[trigger] self.publishers@[j].0@ != room_id@,
            decreases self.publishers.len() - i,
        {
            if self.publishers[i].0 == *room_id {
                return Some(i);
            }
            i = i + 1;
        }
        None
    }

    /// Registers a newly established session.
    pub fn connect(&mut self, session: SessionId)
        requires
            old(self).wf(),
        ensures
            final(self).wf(),
            final(self)@ == (SwitchboardView {
                sessions: old(self)@.sessions.insert(session),
                ..old(self)@
            }),
    {
        self.sessions.insert(session);
    }

    /// The subscribers that receive the media of `publisher`.
    pub fn subscribers_to(&self, publisher: SessionId) -> (r: Vec<SessionId>)
        requires
            self.wf(),
        ensures
            r@.no_duplicates(),
            r@.to_set() == subscribers_of(self@.subscriptions, publisher),
    {
        let r = self.publishers_subscribers.get_values(publisher);
        assert(r@.to_set() =~= subscribers_of(self@.subscriptions, publisher));
        r
    }

    /// The publisher whose media `subscriber` receives, if any.
    pub fn publisher_to(&self, subscriber: SessionId) -> (r: Option<SessionId>)
        requires
            self.wf(),
        ensures
            r == (if self@.subscriptions.contains_key(subscriber) {
                Some(self@.subscriptions[subscriber])
            } else {
                None
            }),
    {
        self.publishers_subscribers.get_key(subscriber)
    }

    /// The recorder attached to `publisher`, if any.
    pub fn recorder_for(&self, publisher: SessionId) -> (r: Option<&Recorder>)
        requires
            self.wf(),
        ensures
            r == (if self@.recorders.contains_key(publisher) {
                Some(&self@.recorders[publisher])
            } else {
                None
            }),
    {
        self.recorders.get(&publisher)
    }

    /// Makes `publisher` the publisher of `room_id`, replacing the one it
    /// had. The subscribers of a replaced publisher keep their association.
    pub fn create_room(&mut self, room_id: String, publisher: SessionId)
        requires
            old(self).wf(),
        ensures
            final(self).wf(),
            final(self)@ == after_create_room(old(self)@, room_id@, publisher),
    {
        let ghost key = room_id@;
        let ghost mut at: int = 0;
        match self.find_room(&room_id) {
            Some(i) => {
                self.publishers.set(i, (room_id, publisher));
                proof {
                    at = i as int;
                }
            },
            None => {
                self.publishers.push((room_id, publisher));
                proof {
                    at = self.publishers.len() - 1;
                }
            },
        }
        assert(self.publishers@[at].0@ == key);
        self.rooms = Ghost(self.rooms@.insert(key, publisher));
        proof {
            assert forall|r: Seq<char>| #[trigger]
                self.rooms@.contains_key(r) implies exists|i: int|
                0 <= i < self.publishers.len() && #[trigger] self.publishers@[i].0@ == r by {
                if r != key {
                    let i = choose|i: int|
                        0 <= i < old(self).publishers.len() && #[trigger] old(
                            self,
                        ).publishers@[i].0@ == r;
                    assert(self.publishers@[i] == old(self).publishers@[i]);
                } else {
                    assert(self.publishers@[at].0@ == r);
                }
            }
            assert(self@ =~= (SwitchboardView {
                publishers: old(self)@.publishers.insert(room_id@, publisher),
                ..old(self)@
            }));
        }
    }

    /// Joins `subscriber` to the publisher of `room_id`, taking it away from
    /// any publisher it received before. Fails, changing nothing, when the
    /// room has no publisher.
    pub fn join_room(&mut self, room_id: &String, subscriber: SessionId) -> (r: Result<
        (),
        SwitchboardError,
    >)
        requires
            old(self).wf(),
        ensures
            final(self).wf(),
            old(self)@.publishers.contains_key(room_id@) ==> r is Ok && final(self)@
                == after_join_room(old(self)@, room_id@, subscriber),
            !old(self)@.publishers.contains_key(room_id@) ==> r == Err::<(), SwitchboardError>(
                SwitchboardError::NotFound,
            ) && final(self)@ == old(self)@,
    {
        match self.find_room(room_id) {
            Some(i) => {
                let publisher = self.publishers[i].1;
                self.publishers_subscribers.associate(publisher, subscriber);
                Ok(())
            },
            None => Err(SwitchboardError::NotFound),
        }
    }

    /// Removes the publisher entry of `room_id`, if there is one. Its
    /// subscribers keep their association.
    pub fn remove_stream(&mut self, room_id: &String)
        requires
            old(self).wf(),
        ensures
            final(self).wf(),
            final(self)@ == (SwitchboardView {
                publishers: old(self)@.publishers.remove(room_id@),
                ..old(self)@
            }),
    {
        match self.find_room(room_id) {
            Some(i) => {
                self.publishers.remove(i);
                self.rooms = Ghost(self.rooms@.remove(room_id@));
                proof {
                    let old_list = old(self).publishers@;
                    assert forall|j: int|
                        0 <= j < self.publishers.len() implies #[trigger] self.publishers@[j]
                        == old_list[if j < i {
                        j
                    } else {
                        j + 1
                    }] by {}
                    assert forall|r: Seq<char>| #[trigger]
                        self.rooms@.contains_key(r) implies exists|j: int|
                        0 <= j < self.publishers.len() && #[trigger] self.publishers@[j].0@ == r by {
                        let k = choose|k: int| 0 <= k < old_list.len() && #[trigger] old_list[k].0@ == r;
                        if k < i {
                            assert(self.publishers@[k] == old_list[k]);
                        } else {
                            assert(self.publishers@[k - 1] == old_list[k]);
                        }
                    }
                }
            },
            None => {
                assert(self.rooms@ =~= old(self).rooms@.remove(room_id@));
            },
        }
        assert(self@ =~= (SwitchboardView {
            publishers: old(self)@.publishers.remove(room_id@),
            ..old(self)@
        }));
    }

    /// Attaches `recorder` to `publisher`, replacing the one it had.
    pub fn attach_recorder(&mut self, publisher: SessionId, recorder: Recorder)
        requires
            old(self).wf(),
        ensures
            final(self).wf(),
            final(self)@ == (SwitchboardView {
                recorders: old(self)@.recorders.insert(publisher, recorder),
                ..old(self)@
            }),
    {
        self.recorders.insert(publisher, recorder);
    }

    /// Records `agent_id` as the participant identity of `session`.
    pub fn associate_agent(&mut self, session: SessionId, agent_id: String)
        requires
            old(self).wf(),
        ensures
            final(self).wf(),
            final(self)@ == (SwitchboardView {
                agents: old(self)@.agents.insert(session, agent_id@),
                ..old(self)@
            }),
    {
        let ghost a = agent_id@;
        self.agents.insert(session, agent_id);
        assert(self@.agents =~= old(self)@.agents.insert(session, a));
    }

    /// Removes `session` everywhere: from the connected sessions, as a
    /// publisher of rooms, as a publisher and as a subscriber, and its
    /// recorder and identity. A second call changes nothing.
    pub fn disconnect(&mut self, session: SessionId)
        requires
            old(self).wf(),
        ensures
            final(self).wf(),
            final(self)@ == after_disconnect(old(self)@, session),
    {
        self.sessions.remove(&session);
        self.publishers_subscribers.remove_key(session);
        self.publishers_subscribers.remove_value(session);
        self.recorders.remove(&session);
        self.agents.remove(&session);
        let ghost rooms = without_publisher(self.rooms@, session);
        let kept = rooms_without(&self.publishers, Ghost(self.rooms@), session);
        self.publishers = kept;
        self.rooms = Ghost(rooms);
        assert(self@.agents =~= old(self)@.agents.remove(session));
        assert(self@.sessions == old(self)@.sessions.remove(session));
        assert(self@.publishers == without_publisher(old(self)@.publishers, session));
        assert(self@.subscriptions == old(self)@.subscriptions.remove_keys(
                subscribers_of(old(self)@.subscriptions, session),
            ).remove(session));
        assert(self@.recorders == old(self)@.recorders.remove(session));
        assert(self@ =~= (SwitchboardView {
            sessions: old(self)@.sessions.remove(session),
            publishers: without_publisher(old(self)@.publishers, session),
            subscriptions: old(self)@.subscriptions.remove_keys(
                subscribers_of(old(self)@.subscriptions, session),
            ).remove(session),
            recorders: old(self)@.recorders.remove(session),
            agents: old(self)@.agents.remove(session),
        }));
    }
}

/// A subscriber that joins a room just after a publisher created it is
/// among that publisher's subscribers, and that publisher is its publisher.
pub proof fn lemma_join_follows_create(
    s: SwitchboardView,
    room: Seq<char>,
    publisher: SessionId,
    subscriber: SessionId,
)
    ensures
        ({
            let joined = after_join_room(after_create_room(s, room, publisher), room, subscriber);
            &&& subscribers_of(joined.subscriptions, publisher).contains(subscriber)
            &&& joined.subscriptions.contains_key(subscriber)
            &&& joined.subscriptions[subscriber] == publisher
        }),
{
}

/// After a disconnect, no lookup reaches the session: it has no publisher,
/// it is no publisher's subscriber, it has no subscribers, and none of its
/// former subscribers still points at it.
pub proof fn lemma_disconnect_leaves_no_reference(s: SwitchboardView, session: SessionId)
    ensures
        ({
            let d = after_disconnect(s, session);
            &&& !d.subscriptions.contains_key(session)
            &&& forall|p: SessionId| !#[trigger] subscribers_of(d.subscriptions, p).contains(session)
            &&& subscribers_of(d.subscriptions, session) == Set::<SessionId>::empty()
            &&& forall|v: SessionId|
                s.subscriptions.contains_key(v) && s.subscriptions[v] == session
                    ==> !#[trigger] d.subscriptions.contains_key(v)
            &&& forall|r: Seq<char>| #[trigger]
                d.publishers.contains_key(r) ==> d.publishers[r] != session
        }),
{
    let d = after_disconnect(s, session);
    assert(subscribers_of(d.subscriptions, session) =~= Set::<SessionId>::empty());
}

} // verus!
