//! The shared state of the coordinator: the open rooms by code, and the
//! joiners that are still searching.

use crate::base36::{
    code_number, digits36, is_code, lemma_code_of_number, lemma_number_of_code,
    lemma_value_of_digits, value36, GameID, UniformID, MAX, MIN,
};
use crate::token::{is_random_id, new_v4};
use std::collections::HashMap;
use vstd::prelude::*;
use vstd::std_specs::iter::IteratorSpec;

verus! {

/// The number of rooms that may be open at once, unless configured otherwise.
pub const MAX_GAMES: usize = 1000;

/// An open room: what is kept of a host that waits for a joiner. `S` is the
/// channel on which the host is notified, `H` the handle by which the host's
/// listener is cancelled.
#[derive(Debug, PartialEq, Eq)]
pub struct WaitingRoom<S, H> {
    pub host_id: u128,
    pub host_canceller: H,
    pub host_sender: S,
}

/// Why a room was not registered.
#[derive(Debug, Clone, Copy, PartialEq, Eq, Structural)]
pub enum RegisterError {
    /// As many rooms are open as may be.
    Full,
    /// The text is no room code.
    NotACode,
    /// A room is open under the code.
    Duplicate,
}

/// The open rooms, each under the number of its code.
pub struct Waiting<S, H> {
    rooms: HashMap<u32, WaitingRoom<S, H>>,
    max: usize,
}

/// What `register` leaves of the rooms `m`, where at most `max` may be
/// open: the room is added where there is space and `code` is the code of
/// no open room.
pub open spec fn registered<R>(m: Map<u32, R>, max: nat, code: Seq<char>, room: R) -> Map<u32, R> {
    match register_refusal(m, max, code) {
        None => m.insert(code_number(code)->0, room),
        Some(_) => m,
    }
}

/// Why `register` refuses, if it does.
pub open spec fn register_refusal<R>(m: Map<u32, R>, max: nat, code: Seq<char>) -> Option<
    RegisterError,
> {
    if m.len() >= max {
        Some(RegisterError::Full)
    } else {
        match code_number(code) {
            None => Some(RegisterError::NotACode),
            Some(n) => if m.contains_key(n) {
                Some(RegisterError::Duplicate)
            } else {
                None
            },
        }
    }
}

/// The room that is open under `code`, if there is one.
pub open spec fn room_under<R>(m: Map<u32, R>, code: Seq<char>) -> Option<R> {
    match code_number(code) {
        Some(n) => if m.contains_key(n) {
            Some(m[n])
        } else {
            None
        },
        None => None,
    }
}

/// The rooms `m` without the one under `code`.
pub open spec fn without<R>(m: Map<u32, R>, code: Seq<char>) -> Map<u32, R> {
    match code_number(code) {
        Some(n) => m.remove(n),
        None => m,
    }
}

/// Whether the room that is open under `code` is that of the host with the
/// token `host_id`.
pub open spec fn holds_room_of<S, H>(
    m: Map<u32, WaitingRoom<S, H>>,
    code: Seq<char>,
    host_id: u128,
) -> bool {
    room_under(m, code) matches Some(room) && room.host_id == host_id
}

/// The rooms `m` without the room of the host `host_id` under `code`. Where
/// no room is open under `code`, or that of another host, they are `m`.
pub open spec fn without_room_of<S, H>(
    m: Map<u32, WaitingRoom<S, H>>,
    code: Seq<char>,
    host_id: u128,
) -> Map<u32, WaitingRoom<S, H>> {
    if holds_room_of(m, code, host_id) {
        without(m, code)
    } else {
        m
    }
}

/// Whether `entries` holds every entry of `m`, each of them once.
pub open spec fn lists<K, V>(entries: Seq<(K, V)>, m: Map<K, V>) -> bool {
    &&& entries.len() == m.len()
    &&& forall|i: int|
        0 <= i < entries.len() ==> m.contains_pair((#[trigger] entries[i]).0, entries[i].1)
    &&& forall|i: int, j: int|
        0 <= i < j < entries.len() ==> (#[trigger] entries[i]).0 != (#[trigger] entries[j]).0
    &&& forall|k: K|
        m.contains_key(k) ==> exists|i: int|
            0 <= i < entries.len() && (#[trigger] entries[i]).0 == k
}

/// The entries of `rooms` with each code replaced by its number.
pub open spec fn numbered<R>(rooms: Seq<(GameID, R)>) -> Seq<(u32, R)> {
    Seq::new(rooms.len(), |i: int| (value36(rooms[i].0@) as u32, rooms[i].1))
}

/// One change to the rooms: what a host, a joiner or the shutdown may ask
/// of the registry.
pub enum Change<S, H> {
    /// Open `room` under `code`.
    Register { code: Seq<char>, room: WaitingRoom<S, H> },
    /// Take the room under `code`.
    Take { code: Seq<char> },
    /// Close the room under `code`.
    Remove { code: Seq<char> },
    /// Close the room under `code` where it is that of the host `host_id`.
    RemoveOwn { code: Seq<char>, host_id: u128 },
    /// Close every room.
    Drain,
}

/// The rooms `m` after `change`, where at most `max` may be open.
pub open spec fn changed<S, H>(
    m: Map<u32, WaitingRoom<S, H>>,
    max: nat,
    change: Change<S, H>,
) -> Map<u32, WaitingRoom<S, H>> {
    match change {
        Change::Register { code, room } => registered(m, max, code, room),
        Change::Take { code } => without(m, code),
        Change::Remove { code } => without(m, code),
        Change::RemoveOwn { code, host_id } => without_room_of(m, code, host_id),
        Change::Drain => Map::empty(),
    }
}

/// The rooms `m` after the changes of `changes`, one after the other.
pub open spec fn changed_all<S, H>(
    m: Map<u32, WaitingRoom<S, H>>,
    max: nat,
    changes: Seq<Change<S, H>>,
) -> Map<u32, WaitingRoom<S, H>>
    decreases changes.len(),
{
    if changes.len() == 0 {
        m
    } else {
        changed(changed_all(m, max, changes.drop_last()), max, changes.last())
    }
}

/// Whatever is asked of the registry, in whatever order, no more rooms are
/// open than may be, and each stands under the number of a room code.
pub proof fn lemma_never_above_max<S, H>(
    m: Map<u32, WaitingRoom<S, H>>,
    max: nat,
    changes: Seq<Change<S, H>>,
)
    requires
        m.dom().finite(),
        m.len() <= max,
        forall|n: u32| m.contains_key(n) ==> MIN <= n < MAX,
    ensures
        changed_all(m, max, changes).dom().finite(),
        changed_all(m, max, changes).len() <= max,
        forall|n: u32| changed_all(m, max, changes).contains_key(n) ==> MIN <= n < MAX,
    decreases changes.len(),
{
    if changes.len() > 0 {
        lemma_never_above_max(m, max, changes.drop_last());
        match changes.last() {
            Change::Register { code, room } => {
                if is_code(code) {
                    lemma_number_of_code(code);
                }
            },
            _ => {},
        }
    }
}

/// A room that is open is not displaced by a registration: under a code
/// there is never a second room.
pub proof fn lemma_register_keeps_rooms<R>(m: Map<u32, R>, max: nat, code: Seq<char>, room: R)
    ensures
        forall|n: u32|
            m.contains_key(n) ==> registered(m, max, code, room).contains_key(n) && registered(
                m,
                max,
                code,
                room,
            )[n] == m[n],
        room_under(m, code) is Some ==> registered(m, max, code, room) == m,
{
}

/// Of two that take the room under one code, with nothing registered in
/// between, at most the first gets a room.
pub proof fn lemma_take_once<R>(m: Map<u32, R>, code: Seq<char>)
    ensures
        room_under(without(m, code), code) is None,
        without(without(m, code), code) == without(m, code),
{
    assert(without(without(m, code), code) =~= without(m, code));
}

/// Once the room of a host is not open under a code, no change brings it
/// back but a registration with that host's token: not a take or a removal,
/// and not the room that another host opens under the same code.
pub proof fn lemma_gone_stays_gone<S, H>(
    m: Map<u32, WaitingRoom<S, H>>,
    max: nat,
    change: Change<S, H>,
    code: Seq<char>,
    host_id: u128,
)
    requires
        !holds_room_of(m, code, host_id),
        change matches Change::Register { room, .. } ==> room.host_id != host_id,
    ensures
        !holds_room_of(changed(m, max, change), code, host_id),
{
}

/// The room that was taken under a code is not open under it afterwards,
/// whoever its host was.
pub proof fn lemma_taken_room_is_gone<S, H>(
    m: Map<u32, WaitingRoom<S, H>>,
    code: Seq<char>,
    host_id: u128,
)
    ensures
        !holds_room_of(without(m, code), code, host_id),
{
}

/// Rooms under different codes do not touch: to take or close one leaves
/// the other as it was.
pub proof fn lemma_take_leaves_others<R>(m: Map<u32, R>, code: Seq<char>, other: Seq<char>)
    requires
        is_code(code),
        is_code(other),
        code != other,
    ensures
        room_under(without(m, code), other) == room_under(m, other),
{
    lemma_number_of_code(code);
    lemma_number_of_code(other);
}

/// The keys of `m`, each once, in the order in which the map hands them out.
fn keys_of<K: Copy, V>(m: &HashMap<K, V>) -> (keys: Vec<K>)
    requires
        vstd::std_specs::hash::obeys_key_model::<K>(),
    ensures
        keys@.no_duplicates(),
        keys@.to_set() == m@.dom(),
        keys@.len() == m@.len(),
{
    let mut keys: Vec<K> = Vec::new();
    let ghost all = m.keys().remaining();
    proof {
        vstd::std_specs::hash::axiom_spec_keys_iter(m);
    }
    for k in rest: m.keys()
        invariant
            rest.seq() == all,
            keys@ == all.take(rest.index()).unref(),
    {
        proof {
            assert(all.take(rest.index() + 1).unref() =~= all.take(rest.index()).unref().push(*k));
        }
        keys.push(*k);
    }
    proof {
        assert(all.take(all.len() as int) =~= all);
        assert forall|i: int, j: int|
            0 <= i < keys@.len() && 0 <= j < keys@.len() && i != j implies keys@[i]
            != keys@[j] by {
            assert(all[i] != all[j]);
        }
    }
    keys
}

impl<S, H> Waiting<S, H> {
    #[verifier::type_invariant]
    spec fn bounded(self) -> bool {
        &&& self.rooms@.len() <= self.max
        &&& forall|n: u32| self.rooms@.contains_key(n) ==> MIN <= n < MAX
    }

    /// The open rooms, each under the number of its code.
    pub closed spec fn view(&self) -> Map<u32, WaitingRoom<S, H>> {
        self.rooms@
    }

    /// The number of rooms that may be open at once.
    pub closed spec fn max(&self) -> usize {
        self.max
    }

    /// Takes the rooms out of the registry, which is empty until `put_back`.
    fn take_out(&mut self) -> (rooms: HashMap<u32, WaitingRoom<S, H>>)
        ensures
            rooms@ == old(self)@,
            final(self)@ == Map::<u32, WaitingRoom<S, H>>::empty(),
            final(self).max() == old(self).max(),
            rooms@.len() <= old(self).max(),
            rooms@.dom().finite(),
            forall|n: u32| rooms@.contains_key(n) ==> MIN <= n < MAX,
    {
        proof {
            use_type_invariant(&*self);
        }
        let mut rooms = HashMap::new();
        std::mem::swap(&mut self.rooms, &mut rooms);
        rooms
    }

    /// Puts `rooms` in the place of the rooms of the registry.
    fn put_back(&mut self, rooms: HashMap<u32, WaitingRoom<S, H>>)
        requires
            rooms@.len() <= old(self).max(),
            forall|n: u32| rooms@.contains_key(n) ==> MIN <= n < MAX,
        ensures
            final(self)@ == rooms@,
            final(self).max() == old(self).max(),
    {
        let mut rooms = rooms;
        std::mem::swap(&mut self.rooms, &mut rooms);
    }

    /// A registry without rooms that admits at most `max` of them.
    pub fn new(max: usize) -> (registry: Self)
        ensures
            registry@ == Map::<u32, WaitingRoom<S, H>>::empty(),
            registry.max() == max,
    {
        Waiting { rooms: HashMap::new(), max }
    }

    /// The number of open rooms, which is never above the maximum.
    pub fn len(&self) -> (n: usize)
        ensures
            n == self@.len(),
            n <= self.max(),
            self@.dom().finite(),
    {
        proof {
            use_type_invariant(self);
        }
        self.rooms.len()
    }

    /// Whether as many rooms are open as may be.
    pub fn is_full(&self) -> (full: bool)
        ensures
            full == (self@.len() >= self.max()),
    {
        self.rooms.len() >= self.max
    }

    /// Whether a room is open under `code`.
    pub fn contains(&self, code: &GameID) -> (open: bool)
        ensures
            open == room_under(self@, code@).is_some(),
    {
        match code.number() {
            Some(n) => self.rooms.contains_key(&n),
            None => false,
        }
    }

    /// Opens `room` under `code`, unless the registry is full, `code` is no
    /// room code, or a room is open under it already; the room then comes
    /// back with the reason.
    pub fn register(&mut self, code: &GameID, room: WaitingRoom<S, H>) -> (outcome: Result<
        (),
        (RegisterError, WaitingRoom<S, H>),
    >)
        ensures
            final(self).max() == old(self).max(),
            final(self)@ == registered(old(self)@, old(self).max() as nat, code@, room),
            final(self)@.len() <= final(self).max(),
            match register_refusal(old(self)@, old(self).max() as nat, code@) {
                None => outcome is Ok,
                Some(e) => outcome == Err::<(), (RegisterError, WaitingRoom<S, H>)>((e, room)),
            },
    {
        proof {
            use_type_invariant(&*self);
        }
        if self.rooms.len() >= self.max {
            return Err((RegisterError::Full, room));
        }
        match code.number() {
            None => Err((RegisterError::NotACode, room)),
            Some(n) => {
                if self.rooms.contains_key(&n) {
                    Err((RegisterError::Duplicate, room))
                } else {
                    proof {
                        lemma_number_of_code(code@);
                    }
                    let mut rooms = self.take_out();
                    rooms.insert(n, room);
                    self.put_back(rooms);
                    Ok(())
                }
            },
        }
    }

    /// Closes the room under `code` and hands it to the caller, who alone
    /// gets it: the match primitive.
    pub fn take(&mut self, code: &GameID) -> (room: Option<WaitingRoom<S, H>>)
        ensures
            final(self).max() == old(self).max(),
            room == room_under(old(self)@, code@),
            final(self)@ == without(old(self)@, code@),
            room_under(final(self)@, code@) is None,
    {
        match code.number() {
            Some(n) => {
                let mut rooms = self.take_out();
                let room = rooms.remove(&n);
                self.put_back(rooms);
                room
            },
            None => None,
        }
    }

    /// Closes every room and hands them all to the caller, each with its
    /// code.
    pub fn drain(&mut self) -> (rooms: Vec<(GameID, WaitingRoom<S, H>)>)
        ensures
            final(self).max() == old(self).max(),
            final(self)@ == Map::<u32, WaitingRoom<S, H>>::empty(),
            forall|i: int| 0 <= i < rooms@.len() ==> is_code((#[trigger] rooms@[i]).0@),
            lists(numbered(rooms@), old(self)@),
    {
        let keys = keys_of(&self.rooms);
        let mut left = self.take_out();
        let ghost before = left@;
        let mut rooms: Vec<(GameID, WaitingRoom<S, H>)> = Vec::new();
        let mut i: usize = 0;
        while i < keys.len()
            invariant
                0 <= i <= keys.len(),
                keys@.no_duplicates(),
                keys@.to_set() == before.dom(),
                keys@.len() == before.len(),
                forall|n: u32| before.contains_key(n) ==> MIN <= n < MAX,
                forall|n: u32|
                    left@.contains_key(n) <==> exists|j: int|
                        i <= j < keys@.len() && #[trigger] keys@[j] == n,
                forall|n: u32| left@.contains_key(n) ==> left@[n] == before[n],
                rooms@.len() == i,
                forall|j: int|
                    0 <= j < i ==> {
                        &&& (#[trigger] rooms@[j]).0@ == digits36(keys@[j] as nat)
                        &&& rooms@[j].1 == before[keys@[j]]
                    },
            decreases keys.len() - i,
        {
            let n = keys[i];
            proof {
                assert(left@.contains_key(n));
            }
            let ghost earlier = left@;
            match left.remove(&n) {
                Some(room) => {
                    rooms.push((GameID::from_number(n), room));
                },
                None => {},
            }
            proof {
                assert forall|m: u32| left@.contains_key(m) implies exists|j: int|
                    i + 1 <= j < keys@.len() && #[trigger] keys@[j] == m by {
                    assert(earlier.contains_key(m));
                    let j = choose|j: int| i <= j < keys@.len() && #[trigger] keys@[j] == m;
                    assert(j != i);
                }
                assert forall|m: u32|
                    (exists|j: int|
                        i + 1 <= j < keys@.len() && #[trigger] keys@[j] == m) implies left@.contains_key(
                    m,
                ) by {
                    let j = choose|j: int| i + 1 <= j < keys@.len() && #[trigger] keys@[j] == m;
                    assert(keys@[j] != keys@[i as int]);
                    assert(earlier.contains_key(m));
                }
            }
            i += 1;
        }
        proof {
            assert(left@ =~= Map::<u32, WaitingRoom<S, H>>::empty());
            let entries = numbered(rooms@);
            assert forall|j: int| 0 <= j < rooms@.len() implies is_code(
                (#[trigger] rooms@[j]).0@,
            ) && entries[j] == (keys@[j], before[keys@[j]]) by {
                assert(keys@.to_set().contains(keys@[j]));
                lemma_code_of_number(keys@[j]);
                lemma_value_of_digits(keys@[j] as nat);
            }
            assert forall|k: u32| before.contains_key(k) implies exists|j: int|
                0 <= j < entries.len() && (#[trigger] entries[j]).0 == k by {
                assert(keys@.to_set().contains(k));
                let j = choose|j: int| 0 <= j < keys@.len() && keys@[j] == k;
                assert(entries[j].0 == k);
            }
            assert forall|j: int| 0 <= j < entries.len() implies before.contains_pair(
                (#[trigger] entries[j]).0,
                entries[j].1,
            ) by {
                assert(keys@.to_set().contains(keys@[j]));
            }
        }
        rooms
    }

    /// Closes the room under `code` where it is that of the host with the
    /// token `host_id`, and drops it; says whether it did. The room of
    /// another host under the same code stays open.
    pub fn remove_own(&mut self, code: &GameID, host_id: u128) -> (removed: bool)
        ensures
            final(self).max() == old(self).max(),
            removed == holds_room_of(old(self)@, code@, host_id),
            final(self)@ == without_room_of(old(self)@, code@, host_id),
            !holds_room_of(final(self)@, code@, host_id),
    {
        match code.number() {
            Some(n) => {
                let own = match self.rooms.get(&n) {
                    Some(room) => room.host_id == host_id,
                    None => false,
                };
                if own {
                    let mut rooms = self.take_out();
                    rooms.remove(&n);
                    self.put_back(rooms);
                }
                own
            },
            None => false,
        }
    }

    /// Closes the room under `code`, if one is open, and drops it; says
    /// whether there was one.
    pub fn remove(&mut self, code: &GameID) -> (removed: bool)
        ensures
            final(self).max() == old(self).max(),
            removed == room_under(old(self)@, code@).is_some(),
            final(self)@ == without(old(self)@, code@),
            room_under(final(self)@, code@) is None,
    {
        self.take(code).is_some()
    }
}

impl<S, H> Default for Waiting<S, H> {
    /// A registry without rooms that admits at most `MAX_GAMES` of them.
    fn default() -> (registry: Self)
        ensures
            registry@ == Map::<u32, WaitingRoom<S, H>>::empty(),
            registry.max() == MAX_GAMES,
    {
        Waiting::new(MAX_GAMES)
    }
}

impl<S, H> WaitingRoom<S, H> {
    /// A room for a host that is notified on `host_sender` and whose
    /// listener is cancelled by `host_canceller`, with a new token for the
    /// host.
    pub fn new(host_sender: S, host_canceller: H) -> (room: Self)
        ensures
            room.host_sender == host_sender,
            room.host_canceller == host_canceller,
            is_random_id(room.host_id),
    {
        WaitingRoom { host_id: new_v4(), host_canceller, host_sender }
    }
}

/// The joiners that are still searching: the channel of each under its
/// token.
pub struct Searching<S> {
    joiners: HashMap<u128, S>,
}

impl<S> Searching<S> {
    /// The channel of each joiner under the joiner's token.
    pub closed spec fn view(&self) -> Map<u128, S> {
        self.joiners@
    }

    /// A registry without joiners.
    pub fn new() -> (registry: Self)
        ensures
            registry@ == Map::<u128, S>::empty(),
    {
        Searching { joiners: HashMap::new() }
    }

    /// The number of joiners that are searching.
    pub fn len(&self) -> (n: usize)
        ensures
            n == self@.len(),
            self@.dom().finite(),
    {
        self.joiners.len()
    }

    /// Enters `sender` under `id`. A channel that stood under `id` leaves
    /// the registry and is handed to the caller.
    pub fn register(&mut self, id: u128, sender: S) -> (displaced: Option<S>)
        ensures
            final(self)@ == old(self)@.insert(id, sender),
            displaced == if old(self)@.contains_key(id) {
                Some(old(self)@[id])
            } else {
                None
            },
    {
        self.joiners.insert(id, sender)
    }

    /// Takes the channel under `id` out of the registry and hands it to the
    /// caller.
    pub fn remove(&mut self, id: u128) -> (sender: Option<S>)
        ensures
            final(self)@ == old(self)@.remove(id),
            sender == if old(self)@.contains_key(id) {
                Some(old(self)@[id])
            } else {
                None
            },
    {
        self.joiners.remove(&id)
    }

    /// Takes every channel out of the registry and hands them all to the
    /// caller, each with its token.
    pub fn drain(&mut self) -> (joiners: Vec<(u128, S)>)
        ensures
            final(self)@ == Map::<u128, S>::empty(),
            lists(joiners@, old(self)@),
    {
        let keys = keys_of(&self.joiners);
        let ghost before = self.joiners@;
        let mut joiners: Vec<(u128, S)> = Vec::new();
        let mut i: usize = 0;
        while i < keys.len()
            invariant
                0 <= i <= keys.len(),
                keys@.no_duplicates(),
                keys@.to_set() == before.dom(),
                keys@.len() == before.len(),
                forall|id: u128|
                    self.joiners@.contains_key(id) <==> exists|j: int|
                        i <= j < keys@.len() && #[trigger] keys@[j] == id,
                forall|id: u128| self.joiners@.contains_key(id) ==> self.joiners@[id] == before[id],
                joiners@.len() == i,
                forall|j: int|
                    0 <= j < i ==> #[trigger] joiners@[j] == (keys@[j], before[keys@[j]]),
            decreases keys.len() - i,
        {
            let id = keys[i];
            proof {
                assert(self.joiners@.contains_key(id));
            }
            let ghost earlier = self.joiners@;
            match self.joiners.remove(&id) {
                Some(sender) => {
                    joiners.push((id, sender));
                },
                None => {},
            }
            proof {
                assert forall|other: u128| self.joiners@.contains_key(other) implies exists|j: int|
                    i + 1 <= j < keys@.len() && #[trigger] keys@[j] == other by {
                    assert(earlier.contains_key(other));
                    let j = choose|j: int| i <= j < keys@.len() && #[trigger] keys@[j] == other;
                    assert(j != i);
                }
                assert forall|other: u128|
                    (exists|j: int|
                        i + 1 <= j < keys@.len() && #[trigger] keys@[j]
                            == other) implies self.joiners@.contains_key(other) by {
                    let j = choose|j: int| i + 1 <= j < keys@.len() && #[trigger] keys@[j] == other;
                    assert(keys@[j] != keys@[i as int]);
                    assert(earlier.contains_key(other));
                }
            }
            i += 1;
        }
        proof {
            assert(self.joiners@ =~= Map::<u128, S>::empty());
            assert forall|id: u128| before.contains_key(id) implies exists|j: int|
                0 <= j < joiners@.len() && (#[trigger] joiners@[j]).0 == id by {
                assert(keys@.to_set().contains(id));
                let j = choose|j: int| 0 <= j < keys@.len() && keys@[j] == id;
                assert(joiners@[j].0 == id);
            }
            assert forall|j: int| 0 <= j < joiners@.len() implies before.contains_pair(
                (#[trigger] joiners@[j]).0,
                joiners@[j].1,
            ) by {
                assert(keys@.to_set().contains(keys@[j]));
            }
        }
        joiners
    }
}

impl<S> Default for Searching<S> {
    /// A registry without joiners.
    fn default() -> (registry: Self)
        ensures
            registry@ == Map::<u128, S>::empty(),
    {
        Searching::new()
    }
}

/// All that the sessions share: the open rooms, the joiners that are
/// searching, and the range from which codes are drawn.
pub struct AppState<S, H> {
    pub waiting: Waiting<S, H>,
    pub searching: Searching<S>,
    pub rand_gen: UniformID,
}

impl<S, H> AppState<S, H> {
    /// A state without rooms and joiners that admits at most `max` rooms.
    pub fn new(max: usize) -> (state: Self)
        ensures
            state.waiting@ == Map::<u32, WaitingRoom<S, H>>::empty(),
            state.waiting.max() == max,
            state.searching@ == Map::<u128, S>::empty(),
            state.rand_gen.low() == MIN,
            state.rand_gen.high() == MAX,
    {
        AppState {
            waiting: Waiting::new(max),
            searching: Searching::new(),
            rand_gen: UniformID::default(),
        }
    }

    /// The open rooms.
    pub fn waiting(&self) -> (rooms: &Waiting<S, H>)
        ensures
            rooms == &self.waiting,
    {
        &self.waiting
    }

    /// The joiners that are searching.
    pub fn searching(&self) -> (joiners: &Searching<S>)
        ensures
            joiners == &self.searching,
    {
        &self.searching
    }
}

impl<S, H> Default for AppState<S, H> {
    /// A state without rooms and joiners that admits at most `MAX_GAMES`
    /// rooms.
    fn default() -> (state: Self)
        ensures
            state.waiting@ == Map::<u32, WaitingRoom<S, H>>::empty(),
            state.waiting.max() == MAX_GAMES,
            state.searching@ == Map::<u128, S>::empty(),
            state.rand_gen.low() == MIN,
            state.rand_gen.high() == MAX,
    {
        AppState::new(MAX_GAMES)
    }
}

} // verus!
