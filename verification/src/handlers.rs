//! The sessions of hosts and joiners, one step at a time, and the shutdown.
//! A step takes the state of a session and what has happened on its
//! connection, changes the shared state, and says what is to be done on the
//! connection; whoever owns the connection does it.

use crate::base36::{is_code, GameID};
use crate::message::Status;
use crate::state::{
    holds_room_of, lemma_take_once, lemma_taken_room_is_gone, lists, numbered, register_refusal,
    registered, room_under, without, without_room_of, AppState, RegisterError, WaitingRoom,
};
use crate::token::{is_random_id, new_v4};
use vstd::prelude::*;

verus! {

/// Where the session of a host stands.
#[derive(Debug, PartialEq, Eq)]
pub enum HostState {
    /// The connection is not accepted yet.
    Idle,
    /// A room is to be opened, and no code has been found for it yet.
    Registering,
    /// The room is open under `game_id`.
    Open { game_id: GameID, host_id: u128 },
    /// A joiner has taken the room.
    Matched,
    /// The host has left, or could not be told of its room.
    Disconnected,
    /// No room was opened, as many were open as may be.
    Rejected,
}

/// What has happened on the connection of a host.
#[derive(Debug, PartialEq, Eq)]
pub enum HostEvent<S, H> {
    /// The connection was accepted.
    Accepted,
    /// A code was drawn for `room`.
    Drawn { game_id: GameID, room: WaitingRoom<S, H> },
    /// The notice of the open room could not be delivered.
    Undelivered,
    /// The host has sent something; what it is does not matter.
    Frame,
    /// The connection is closed.
    Closed,
}

/// What is to be done on the connection of a host.
#[derive(Debug, PartialEq, Eq)]
pub enum HostAction {
    /// Nothing.
    Wait,
    /// Draw a code and come back with it.
    Draw,
    /// Send the notice and listen on.
    Send(Status),
    /// Send the notice and end the session.
    Refuse(Status),
    /// End the session.
    End,
}

/// The state of a host's session after `event`, where `rooms` are open and
/// at most `max` may be.
pub open spec fn host_next<S, H>(
    state: HostState,
    event: HostEvent<S, H>,
    rooms: Map<u32, WaitingRoom<S, H>>,
    max: nat,
) -> HostState {
    match (state, event) {
        (HostState::Idle, HostEvent::Accepted) => if rooms.len() >= max {
            HostState::Rejected
        } else {
            HostState::Registering
        },
        (HostState::Registering, HostEvent::Drawn { game_id, room }) => match register_refusal(
            rooms,
            max,
            game_id@,
        ) {
            None => HostState::Open { game_id, host_id: room.host_id },
            Some(RegisterError::Full) => HostState::Rejected,
            Some(_) => HostState::Registering,
        },
        (HostState::Open { game_id, host_id }, HostEvent::Undelivered) => HostState::Disconnected,
        (HostState::Open { game_id, host_id }, HostEvent::Closed) => if holds_room_of(
            rooms,
            game_id@,
            host_id,
        ) {
            HostState::Disconnected
        } else {
            HostState::Matched
        },
        _ => state,
    }
}

/// What is to be done on a host's connection after `event`.
pub open spec fn host_action<S, H>(
    state: HostState,
    event: HostEvent<S, H>,
    rooms: Map<u32, WaitingRoom<S, H>>,
    max: nat,
) -> HostAction {
    match (state, event) {
        (HostState::Idle, HostEvent::Accepted) => if rooms.len() >= max {
            HostAction::Refuse(Status::ServerFull)
        } else {
            HostAction::Draw
        },
        (HostState::Registering, HostEvent::Drawn { game_id, room }) => match register_refusal(
            rooms,
            max,
            game_id@,
        ) {
            None => HostAction::Send(Status::Registered { game_id, host_id: room.host_id }),
            Some(RegisterError::Full) => HostAction::Refuse(Status::ServerFull),
            Some(_) => HostAction::Draw,
        },
        (HostState::Open { game_id, host_id }, HostEvent::Undelivered) => HostAction::End,
        (HostState::Open { game_id, host_id }, HostEvent::Closed) => HostAction::End,
        _ => HostAction::Wait,
    }
}

/// The rooms that are open after `event` on a host's connection.
pub open spec fn host_rooms<S, H>(
    state: HostState,
    event: HostEvent<S, H>,
    rooms: Map<u32, WaitingRoom<S, H>>,
    max: nat,
) -> Map<u32, WaitingRoom<S, H>> {
    match (state, event) {
        (HostState::Registering, HostEvent::Drawn { game_id, room }) => registered(
            rooms,
            max,
            game_id@,
            room,
        ),
        (HostState::Open { game_id, host_id }, HostEvent::Undelivered) => without_room_of(
            rooms,
            game_id@,
            host_id,
        ),
        (HostState::Open { game_id, host_id }, HostEvent::Closed) => without_room_of(
            rooms,
            game_id@,
            host_id,
        ),
        _ => rooms,
    }
}

/// The room that comes back from a step: the one that `event` brought,
/// unless the step has opened it.
pub open spec fn host_returned<S, H>(
    state: HostState,
    event: HostEvent<S, H>,
    rooms: Map<u32, WaitingRoom<S, H>>,
    max: nat,
) -> Option<WaitingRoom<S, H>> {
    match event {
        HostEvent::Drawn { game_id, room } => if state is Registering && register_refusal(
            rooms,
            max,
            game_id@,
        ) is None {
            None
        } else {
            Some(room)
        },
        _ => None,
    }
}

/// One step of a host's session.
///
/// An accepted host is refused where as many rooms are open as may be, and
/// is otherwise asked for a code. The room that comes with a code is opened
/// under it; where a room is open under the code already, another code is
/// asked for. A host that cannot be told of its room, or whose connection
/// is closed, loses its room, which is known by the host's token; where
/// that room was gone when the connection closed, a joiner had taken it,
/// and whatever room is open under the code by then is another host's and
/// stays open.
pub fn handle_register_host<S, H>(
    state: HostState,
    event: HostEvent<S, H>,
    app: &mut AppState<S, H>,
) -> (step: (HostState, HostAction, Option<WaitingRoom<S, H>>))
    ensures
        step.0 == host_next(state, event, old(app).waiting@, old(app).waiting.max() as nat),
        step.1 == host_action(state, event, old(app).waiting@, old(app).waiting.max() as nat),
        step.2 == host_returned(state, event, old(app).waiting@, old(app).waiting.max() as nat),
        final(app).waiting@ == host_rooms(
            state,
            event,
            old(app).waiting@,
            old(app).waiting.max() as nat,
        ),
        final(app).waiting.max() == old(app).waiting.max(),
        final(app).searching@ == old(app).searching@,
        final(app).rand_gen == old(app).rand_gen,
{
    match state {
        HostState::Idle => match event {
            HostEvent::Accepted => {
                if app.waiting.is_full() {
                    (HostState::Rejected, HostAction::Refuse(Status::ServerFull), None)
                } else {
                    (HostState::Registering, HostAction::Draw, None)
                }
            },
            HostEvent::Drawn { game_id, room } => (HostState::Idle, HostAction::Wait, Some(room)),
            _ => (HostState::Idle, HostAction::Wait, None),
        },
        HostState::Registering => match event {
            HostEvent::Drawn { game_id, room } => {
                let host_id = room.host_id;
                match app.waiting.register(&game_id, room) {
                    Ok(()) => {
                        let notice = Status::Registered { game_id: game_id.clone(), host_id };
                        (HostState::Open { game_id, host_id }, HostAction::Send(notice), None)
                    },
                    Err((RegisterError::Full, room)) => (
                        HostState::Rejected,
                        HostAction::Refuse(Status::ServerFull),
                        Some(room),
                    ),
                    Err((_, room)) => (HostState::Registering, HostAction::Draw, Some(room)),
                }
            },
            _ => (HostState::Registering, HostAction::Wait, None),
        },
        HostState::Open { game_id, host_id } => match event {
            HostEvent::Undelivered => {
                app.waiting.remove_own(&game_id, host_id);
                (HostState::Disconnected, HostAction::End, None)
            },
            HostEvent::Closed => {
                if app.waiting.remove_own(&game_id, host_id) {
                    (HostState::Disconnected, HostAction::End, None)
                } else {
                    (HostState::Matched, HostAction::End, None)
                }
            },
            HostEvent::Drawn { game_id: drawn, room } => (
                HostState::Open { game_id, host_id },
                HostAction::Wait,
                Some(room),
            ),
            _ => (HostState::Open { game_id, host_id }, HostAction::Wait, None),
        },
        other => match event {
            HostEvent::Drawn { game_id, room } => (other, HostAction::Wait, Some(room)),
            _ => (other, HostAction::Wait, None),
        },
    }
}

/// What a joiner has sent.
#[derive(Debug, PartialEq, Eq)]
pub enum Inbound {
    /// A text, which is taken for a room code.
    Text(String),
    /// The joiner closes the connection, or the connection has ended.
    Close,
    /// Anything else.
    Other,
}

/// Where the session of a joiner stands.
#[derive(Debug, PartialEq, Eq)]
pub enum JoinState {
    /// The joiner may send a code.
    Searching { join_id: u128 },
    /// The joiner has found a room.
    Matched,
    /// The joiner has left.
    Disconnected,
    /// The joiner has sent what is no text.
    Invalid,
}

/// What is to be done for a joiner.
#[derive(Debug, PartialEq, Eq)]
pub enum JoinAction<S, H> {
    /// Nothing: the session is over.
    Wait,
    /// Send the notice to the joiner and listen on.
    Reply(Status),
    /// Send `to_joiner` to the joiner and close the joiner's connection,
    /// then send `to_host` on the room's channel, close that channel and
    /// cancel the room's listener. `joiner` is the channel that stood in
    /// the registry of joiners.
    Match { to_joiner: Status, joiner: Option<S>, to_host: Status, room: WaitingRoom<S, H> },
    /// End the session. `joiner` is the channel that stood in the registry
    /// of joiners.
    Leave { joiner: Option<S> },
    /// Send the notice to the joiner and end the session. `joiner` is the
    /// channel that stood in the registry of joiners.
    Refuse { notice: Status, joiner: Option<S> },
}

/// The entry of `m` under `k`, if there is one.
pub open spec fn entry<K, V>(m: Map<K, V>, k: K) -> Option<V> {
    if m.contains_key(k) {
        Some(m[k])
    } else {
        None
    }
}

/// The state of a joiner's session after `frame`, where `rooms` are open.
pub open spec fn join_next<S, H>(
    state: JoinState,
    frame: Inbound,
    rooms: Map<u32, WaitingRoom<S, H>>,
) -> JoinState {
    match (state, frame) {
        (JoinState::Searching { join_id }, Inbound::Text(code)) => if room_under(
            rooms,
            code@,
        ) is Some {
            JoinState::Matched
        } else {
            state
        },
        (JoinState::Searching { join_id }, Inbound::Close) => JoinState::Disconnected,
        (JoinState::Searching { join_id }, Inbound::Other) => JoinState::Invalid,
        _ => state,
    }
}

/// What is to be done for a joiner after `frame`, where `rooms` are open
/// and `joiners` are searching.
pub open spec fn join_action<S, H>(
    state: JoinState,
    frame: Inbound,
    rooms: Map<u32, WaitingRoom<S, H>>,
    joiners: Map<u128, S>,
) -> JoinAction<S, H> {
    match (state, frame) {
        (JoinState::Searching { join_id }, Inbound::Text(code)) => match room_under(
            rooms,
            code@,
        ) {
            Some(room) => JoinAction::Match {
                to_joiner: Status::RoomFoundJoin { game_id: GameID(code), join_id },
                joiner: entry(joiners, join_id),
                to_host: Status::RoomFoundHost { game_id: GameID(code), host_id: room.host_id },
                room,
            },
            None => JoinAction::Reply(Status::RoomNotFound),
        },
        (JoinState::Searching { join_id }, Inbound::Close) => JoinAction::Leave {
            joiner: entry(joiners, join_id),
        },
        (JoinState::Searching { join_id }, Inbound::Other) => JoinAction::Refuse {
            notice: Status::Invalid,
            joiner: entry(joiners, join_id),
        },
        _ => JoinAction::Wait,
    }
}

/// The rooms that are open after `frame` from a joiner.
pub open spec fn join_rooms<S, H>(
    state: JoinState,
    frame: Inbound,
    rooms: Map<u32, WaitingRoom<S, H>>,
) -> Map<u32, WaitingRoom<S, H>> {
    match (state, frame) {
        (JoinState::Searching { join_id }, Inbound::Text(code)) => without(rooms, code@),
        _ => rooms,
    }
}

/// The joiners that are searching after `frame` from one of them.
pub open spec fn join_joiners<S, H>(
    state: JoinState,
    frame: Inbound,
    rooms: Map<u32, WaitingRoom<S, H>>,
    joiners: Map<u128, S>,
) -> Map<u128, S> {
    match (state, frame) {
        (JoinState::Searching { join_id }, Inbound::Text(code)) => if room_under(
            rooms,
            code@,
        ) is Some {
            joiners.remove(join_id)
        } else {
            joiners
        },
        (JoinState::Searching { join_id }, Inbound::Close) => joiners.remove(join_id),
        (JoinState::Searching { join_id }, Inbound::Other) => joiners.remove(join_id),
        _ => joiners,
    }
}

/// Begins the session of a joiner that is notified on `sender`: the joiner
/// gets a new token and is entered under it. A channel that stood under the
/// token comes back.
pub fn begin_search<S, H>(app: &mut AppState<S, H>, sender: S) -> (begun: (JoinState, Option<S>))
    ensures
        begun.0 is Searching,
        is_random_id(begun.0->join_id),
        final(app).searching@ == old(app).searching@.insert(begun.0->join_id, sender),
        begun.1 == entry(old(app).searching@, begun.0->join_id),
        final(app).waiting == old(app).waiting,
        final(app).rand_gen == old(app).rand_gen,
{
    let join_id = new_v4();
    let displaced = app.searching.register(join_id, sender);
    (JoinState::Searching { join_id }, displaced)
}

/// One step of a joiner's session.
///
/// A text is taken for a room code. Where a room is open under it, the room
/// is closed and handed over with the notices for both sides, and the joiner
/// leaves the registry of joiners; where none is, the joiner is told so and
/// may send another. A joiner that closes, or sends what is no text, leaves
/// the registry of joiners, the latter with a notice. Once the session is
/// over nothing happens.
pub fn handle_register_join<S, H>(
    state: JoinState,
    frame: Inbound,
    app: &mut AppState<S, H>,
) -> (step: (JoinState, JoinAction<S, H>))
    ensures
        step.0 == join_next(state, frame, old(app).waiting@),
        step.1 == join_action(state, frame, old(app).waiting@, old(app).searching@),
        final(app).waiting@ == join_rooms(state, frame, old(app).waiting@),
        final(app).waiting.max() == old(app).waiting.max(),
        final(app).searching@ == join_joiners(
            state,
            frame,
            old(app).waiting@,
            old(app).searching@,
        ),
        final(app).rand_gen == old(app).rand_gen,
{
    match state {
        JoinState::Searching { join_id } => match frame {
            Inbound::Text(code) => {
                let game_id = GameID(code);
                match app.waiting.take(&game_id) {
                    Some(room) => {
                        let joiner = app.searching.remove(join_id);
                        let to_joiner = Status::RoomFoundJoin { game_id: game_id.clone(), join_id };
                        let to_host = Status::RoomFoundHost { game_id, host_id: room.host_id };
                        (JoinState::Matched, JoinAction::Match { to_joiner, joiner, to_host, room })
                    },
                    None => (
                        JoinState::Searching { join_id },
                        JoinAction::Reply(Status::RoomNotFound),
                    ),
                }
            },
            Inbound::Close => {
                let joiner = app.searching.remove(join_id);
                (JoinState::Disconnected, JoinAction::Leave { joiner })
            },
            Inbound::Other => {
                let joiner = app.searching.remove(join_id);
                (JoinState::Invalid, JoinAction::Refuse { notice: Status::Invalid, joiner })
            },
        },
        other => (other, JoinAction::Wait),
    }
}

/// What is owed to one party at shutdown: first the listener behind
/// `canceller`, where there is one, is to be cancelled, then `notice` is to
/// be sent on `sender`.
#[derive(Debug, PartialEq, Eq)]
pub struct Farewell<S, H> {
    pub notice: Status,
    pub sender: S,
    pub canceller: Option<H>,
}

/// What is owed to the host of `room` at shutdown.
pub open spec fn room_farewell<S, H>(room: WaitingRoom<S, H>) -> Farewell<S, H> {
    Farewell {
        notice: Status::ServerClosed,
        sender: room.host_sender,
        canceller: Some(room.host_canceller),
    }
}

/// What is owed at shutdown to the joiner that is notified on `sender`.
pub open spec fn joiner_farewell<S, H>(sender: S) -> Farewell<S, H> {
    Farewell { notice: Status::ServerClosed, sender, canceller: None }
}

/// Finalizes a room that was drained at shutdown: its listener is to be
/// cancelled and its host to be told that the coordinator closes.
pub fn remove_waiting<S, H>(entry: (GameID, WaitingRoom<S, H>)) -> (farewell: Farewell<S, H>)
    ensures
        farewell == room_farewell(entry.1),
{
    let (_, room) = entry;
    Farewell {
        notice: Status::ServerClosed,
        sender: room.host_sender,
        canceller: Some(room.host_canceller),
    }
}

/// Finalizes a joiner that was drained at shutdown: it is to be told that
/// the coordinator closes.
pub fn remove_searching<S, H>(sender: S) -> (farewell: Farewell<S, H>)
    ensures
        farewell == joiner_farewell::<S, H>(sender),
{
    Farewell { notice: Status::ServerClosed, sender, canceller: None }
}

/// Empties both registries. Every room that was open and every joiner that
/// was searching gets one farewell, the rooms with their codes, the joiners
/// with their tokens.
pub fn shutdown<S, H>(app: &mut AppState<S, H>) -> (farewells: (
    Vec<(GameID, Farewell<S, H>)>,
    Vec<(u128, Farewell<S, H>)>,
))
    ensures
        final(app).waiting@ == Map::<u32, WaitingRoom<S, H>>::empty(),
        final(app).waiting.max() == old(app).waiting.max(),
        final(app).searching@ == Map::<u128, S>::empty(),
        final(app).rand_gen == old(app).rand_gen,
        forall|i: int| 0 <= i < farewells.0@.len() ==> is_code((#[trigger] farewells.0@[i]).0@),
        lists(
            numbered(farewells.0@),
            old(app).waiting@.map_values(|room: WaitingRoom<S, H>| room_farewell(room)),
        ),
        lists(
            farewells.1@,
            old(app).searching@.map_values(|sender: S| joiner_farewell::<S, H>(sender)),
        ),
{
    let ghost rooms_before = app.waiting@;
    let ghost joiners_before = app.searching@;
    let rooms = app.waiting.drain();
    let ghost drained = rooms@;
    let mut to_hosts: Vec<(GameID, Farewell<S, H>)> = Vec::new();
    for entry in all: rooms.into_iter()
        invariant
            all.seq() == drained,
            to_hosts@.len() == all.index(),
            forall|j: int|
                0 <= j < to_hosts@.len() ==> {
                    &&& (#[trigger] to_hosts@[j]).0 == drained[j].0
                    &&& to_hosts@[j].1 == room_farewell(drained[j].1)
                },
    {
        let code = entry.0.clone();
        to_hosts.push((code, remove_waiting(entry)));
    }
    let joiners = app.searching.drain();
    let ghost left = joiners@;
    let mut to_joiners: Vec<(u128, Farewell<S, H>)> = Vec::new();
    for entry in all: joiners.into_iter()
        invariant
            all.seq() == left,
            to_joiners@.len() == all.index(),
            forall|j: int|
                0 <= j < to_joiners@.len() ==> {
                    &&& (#[trigger] to_joiners@[j]).0 == left[j].0
                    &&& to_joiners@[j].1 == joiner_farewell::<S, H>(left[j].1)
                },
    {
        let (id, sender) = entry;
        to_joiners.push((id, remove_searching(sender)));
    }
    proof {
        let hosts = numbered(to_hosts@);
        let told = rooms_before.map_values(|room: WaitingRoom<S, H>| room_farewell(room));
        assert(told.dom() =~= rooms_before.dom());
        assert forall|i: int| 0 <= i < hosts.len() implies told.contains_pair(
            (#[trigger] hosts[i]).0,
            hosts[i].1,
        ) by {
            assert(rooms_before.contains_pair(numbered(drained)[i].0, numbered(drained)[i].1));
        }
        assert forall|i: int, j: int| 0 <= i < j < hosts.len() implies (#[trigger] hosts[i]).0 != (
        #[trigger] hosts[j]).0 by {
            assert(numbered(drained)[i].0 != numbered(drained)[j].0);
        }
        assert forall|k: u32| told.contains_key(k) implies exists|i: int|
            0 <= i < hosts.len() && (#[trigger] hosts[i]).0 == k by {
            let i = choose|i: int|
                0 <= i < numbered(drained).len() && (#[trigger] numbered(drained)[i]).0 == k;
            assert(hosts[i].0 == k);
        }
        let heard = joiners_before.map_values(|sender: S| joiner_farewell::<S, H>(sender));
        assert(heard.dom() =~= joiners_before.dom());
        assert forall|i: int| 0 <= i < to_joiners@.len() implies heard.contains_pair(
            (#[trigger] to_joiners@[i]).0,
            to_joiners@[i].1,
        ) by {
            assert(joiners_before.contains_pair(left[i].0, left[i].1));
        }
        assert forall|i: int, j: int| 0 <= i < j < to_joiners@.len() implies (
        #[trigger] to_joiners@[i]).0 != (#[trigger] to_joiners@[j]).0 by {
            assert(left[i].0 != left[j].0);
        }
        assert forall|id: u128| heard.contains_key(id) implies exists|i: int|
            0 <= i < to_joiners@.len() && (#[trigger] to_joiners@[i]).0 == id by {
            let i = choose|i: int| 0 <= i < left.len() && (#[trigger] left[i]).0 == id;
            assert(to_joiners@[i].0 == id);
        }
    }
    (to_hosts, to_joiners)
}

/// A room is closed by its own host's session alone, and once at most.
/// Where the room of the host is not open under its code when the host's
/// connection closes, because a joiner has taken it, whether or not another
/// host has opened a room under the same code since, the session ends as
/// matched and leaves every room as it is.
pub proof fn lemma_closed_after_match<S, H>(
    game_id: GameID,
    host_id: u128,
    rooms: Map<u32, WaitingRoom<S, H>>,
    max: nat,
)
    requires
        !holds_room_of(rooms, game_id@, host_id),
    ensures
        ({
            let host = HostState::Open { game_id, host_id };
            &&& host_next(host, HostEvent::<S, H>::Closed, rooms, max) == HostState::Matched
            &&& host_rooms(host, HostEvent::<S, H>::Closed, rooms, max) == rooms
            &&& host_rooms(host, HostEvent::<S, H>::Undelivered, rooms, max) == rooms
        }),
{
}

/// The match itself leaves the rooms so: after a joiner has sent the code
/// of an open room, the room of no host is open under that code.
pub proof fn lemma_match_takes_room<S, H>(
    code: String,
    host_id: u128,
    join_id: u128,
    rooms: Map<u32, WaitingRoom<S, H>>,
)
    ensures
        !holds_room_of(
            join_rooms(JoinState::Searching { join_id }, Inbound::Text(code), rooms),
            code@,
            host_id,
        ),
{
    lemma_taken_room_is_gone(rooms, code@, host_id);
}

/// A room that no joiner has taken is closed when its host's connection
/// closes: the session ends as disconnected, no room is open under the code
/// afterwards, and every other room is as it was.
pub proof fn lemma_closed_unmatched<S, H>(
    game_id: GameID,
    host_id: u128,
    rooms: Map<u32, WaitingRoom<S, H>>,
    max: nat,
)
    requires
        holds_room_of(rooms, game_id@, host_id),
    ensures
        ({
            let host = HostState::Open { game_id, host_id };
            let left = host_rooms(host, HostEvent::<S, H>::Closed, rooms, max);
            &&& host_next(host, HostEvent::<S, H>::Closed, rooms, max) == HostState::Disconnected
            &&& room_under(left, game_id@) is None
            &&& left == without(rooms, game_id@)
        }),
{
    lemma_take_once(rooms, game_id@);
}

} // verus!
