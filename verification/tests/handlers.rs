use ultitato::base36::GameID;
use ultitato::handlers::{
    begin_search, handle_register_host, handle_register_join, remove_searching, remove_waiting,
    shutdown, Farewell, HostAction, HostEvent, HostState, Inbound, JoinAction, JoinState,
};
use ultitato::message::Status;
use ultitato::state::{AppState, WaitingRoom};

type App = AppState<&'static str, u32>;
type Room = WaitingRoom<&'static str, u32>;

fn code(text: &str) -> GameID {
    GameID::from(text.to_string())
}

fn room(host_id: u128, sender: &'static str) -> Room {
    WaitingRoom { host_id, host_canceller: 7, host_sender: sender }
}

/// Runs a host's session up to the open room, with `text` as the code drawn.
fn open_room(app: &mut App, text: &str, host_id: u128, sender: &'static str) -> HostState {
    let (state, action, back) = handle_register_host(HostState::Idle, HostEvent::Accepted, app);
    assert_eq!((&state, &action, &back), (&HostState::Registering, &HostAction::Draw, &None));
    let drawn = HostEvent::Drawn { game_id: code(text), room: room(host_id, sender) };
    let (state, action, back) = handle_register_host(state, drawn, app);
    assert_eq!(action, HostAction::Send(Status::Registered { game_id: code(text), host_id }));
    assert_eq!(back, None);
    state
}

#[test]
fn host_registers_and_is_told_code_and_token() {
    let mut app = App::default();
    let state = open_room(&mut app, "abc123", 11, "host");
    assert_eq!(state, HostState::Open { game_id: code("abc123"), host_id: 11 });
    assert_eq!(app.waiting().len(), 1);
    assert!(app.waiting().contains(&code("abc123")));
}

#[test]
fn second_host_with_the_same_code_redraws() {
    let mut app = App::default();
    open_room(&mut app, "abc123", 11, "first");
    let (state, action, _) = handle_register_host(HostState::Idle, HostEvent::Accepted, &mut app);
    assert_eq!(action, HostAction::Draw);
    let drawn = HostEvent::Drawn { game_id: code("abc123"), room: room(12, "second") };
    let (state, action, back) = handle_register_host(state, drawn, &mut app);
    assert_eq!(state, HostState::Registering);
    assert_eq!(action, HostAction::Draw);
    assert_eq!(back, Some(room(12, "second")));
    assert_eq!(app.waiting().len(), 1);
    let drawn = HostEvent::Drawn { game_id: code("abc124"), room: back.unwrap() };
    let (state, action, back) = handle_register_host(state, drawn, &mut app);
    assert_eq!(state, HostState::Open { game_id: code("abc124"), host_id: 12 });
    assert_eq!(
        action,
        HostAction::Send(Status::Registered { game_id: code("abc124"), host_id: 12 })
    );
    assert_eq!(back, None);
    assert_eq!(app.waiting().len(), 2);
    assert_eq!(app.waiting.take(&code("abc123")), Some(room(11, "first")));
    assert_eq!(app.waiting.take(&code("abc124")), Some(room(12, "second")));
}

#[test]
fn host_is_asked_again_for_text_that_is_no_code() {
    let mut app = App::default();
    let drawn = HostEvent::Drawn { game_id: code("nope"), room: room(1, "h") };
    let (state, action, back) = handle_register_host(HostState::Registering, drawn, &mut app);
    assert_eq!((state, action, back), (HostState::Registering, HostAction::Draw, Some(room(1, "h"))));
    assert_eq!(app.waiting().len(), 0);
}

#[test]
fn joiner_with_the_code_of_an_open_room_is_matched() {
    let mut app = App::default();
    open_room(&mut app, "abc123", 11, "host");
    let (state, displaced) = begin_search(&mut app, "joiner");
    assert_eq!(displaced, None);
    assert_eq!(app.searching().len(), 1);
    let join_id = match state {
        JoinState::Searching { join_id } => join_id,
        _ => unreachable!(),
    };
    let (state, action) =
        handle_register_join(state, Inbound::Text("abc123".to_string()), &mut app);
    assert_eq!(state, JoinState::Matched);
    assert_eq!(
        action,
        JoinAction::Match {
            to_joiner: Status::RoomFoundJoin { game_id: code("abc123"), join_id },
            joiner: Some("joiner"),
            to_host: Status::RoomFoundHost { game_id: code("abc123"), host_id: 11 },
            room: room(11, "host"),
        }
    );
    assert!(!app.waiting().contains(&code("abc123")));
    assert_eq!(app.waiting().len(), 0);
    assert_eq!(app.searching().len(), 0);
}

#[test]
fn joiner_with_an_unknown_code_may_try_again() {
    let mut app = App::default();
    open_room(&mut app, "abc123", 11, "host");
    let (state, _) = begin_search(&mut app, "joiner");
    let (state, action) =
        handle_register_join(state, Inbound::Text("abc124".to_string()), &mut app);
    assert!(matches!(state, JoinState::Searching { .. }));
    assert_eq!(action, JoinAction::Reply(Status::RoomNotFound));
    assert_eq!(app.waiting().len(), 1);
    assert!(app.waiting().contains(&code("abc123")));
    assert_eq!(app.searching().len(), 1);
    let (state, action) = handle_register_join(state, Inbound::Text("what?".to_string()), &mut app);
    assert!(matches!(state, JoinState::Searching { .. }));
    assert_eq!(action, JoinAction::Reply(Status::RoomNotFound));
    let (state, action) =
        handle_register_join(state, Inbound::Text("abc123".to_string()), &mut app);
    assert_eq!(state, JoinState::Matched);
    assert!(matches!(action, JoinAction::Match { .. }));
    assert_eq!(app.waiting().len(), 0);
}

#[test]
fn host_is_refused_when_the_registry_is_full() {
    let mut app = App::new(2);
    open_room(&mut app, "abc123", 1, "a");
    open_room(&mut app, "abc124", 2, "b");
    let (state, action, back) =
        handle_register_host(HostState::Idle, HostEvent::Accepted, &mut app);
    assert_eq!(state, HostState::Rejected);
    assert_eq!(action, HostAction::Refuse(Status::ServerFull));
    assert_eq!(back, None);
    assert_eq!(app.waiting().len(), 2);
}

#[test]
fn host_is_refused_when_the_registry_fills_while_it_draws() {
    let mut app = App::new(1);
    let (late, action, _) = handle_register_host(HostState::Idle, HostEvent::Accepted, &mut app);
    assert_eq!(action, HostAction::Draw);
    open_room(&mut app, "abc123", 1, "a");
    let drawn = HostEvent::Drawn { game_id: code("abc124"), room: room(2, "b") };
    let (state, action, back) = handle_register_host(late, drawn, &mut app);
    assert_eq!(state, HostState::Rejected);
    assert_eq!(action, HostAction::Refuse(Status::ServerFull));
    assert_eq!(back, Some(room(2, "b")));
    assert_eq!(app.waiting().len(), 1);
}

#[test]
fn host_that_drops_before_any_join_loses_its_room() {
    let mut app = App::default();
    let state = open_room(&mut app, "abc123", 11, "host");
    let (state, action, back) = handle_register_host(state, HostEvent::Frame, &mut app);
    assert_eq!(state, HostState::Open { game_id: code("abc123"), host_id: 11 });
    assert_eq!((action, back), (HostAction::Wait, None));
    assert_eq!(app.waiting().len(), 1);
    let (state, action, back) = handle_register_host(state, HostEvent::Closed, &mut app);
    assert_eq!(state, HostState::Disconnected);
    assert_eq!((action, back), (HostAction::End, None));
    assert_eq!(app.waiting().len(), 0);
    let (join, _) = begin_search(&mut app, "joiner");
    let (_, action) = handle_register_join(join, Inbound::Text("abc123".to_string()), &mut app);
    assert_eq!(action, JoinAction::Reply(Status::RoomNotFound));
}

#[test]
fn host_whose_room_was_taken_ends_as_matched() {
    let mut app = App::default();
    let host = open_room(&mut app, "abc123", 11, "host");
    open_room(&mut app, "abc124", 12, "other");
    let (join, _) = begin_search(&mut app, "joiner");
    let (join, _) = handle_register_join(join, Inbound::Text("abc123".to_string()), &mut app);
    assert_eq!(join, JoinState::Matched);
    let (host, action, _) = handle_register_host(host, HostEvent::Closed, &mut app);
    assert_eq!(host, HostState::Matched);
    assert_eq!(action, HostAction::End);
    assert_eq!(app.waiting().len(), 1);
    assert!(app.waiting().contains(&code("abc124")));
}

#[test]
fn host_that_cannot_be_told_of_its_room_loses_it() {
    let mut app = App::default();
    let state = open_room(&mut app, "abc123", 11, "host");
    let (state, action, back) = handle_register_host(state, HostEvent::Undelivered, &mut app);
    assert_eq!((state, action, back), (HostState::Disconnected, HostAction::End, None));
    assert_eq!(app.waiting().len(), 0);
}

#[test]
fn host_steps_out_of_turn_change_nothing() {
    let mut app = App::default();
    open_room(&mut app, "abc123", 11, "host");
    for state in [HostState::Matched, HostState::Disconnected, HostState::Rejected, HostState::Idle] {
        let drawn = HostEvent::Drawn { game_id: code("abc124"), room: room(2, "b") };
        let (next, action, back) = handle_register_host(state, drawn, &mut app);
        assert!(!matches!(next, HostState::Open { .. } | HostState::Registering));
        assert_eq!((action, back), (HostAction::Wait, Some(room(2, "b"))));
    }
    let (next, action, back) =
        handle_register_host(HostState::Registering, HostEvent::Closed, &mut app);
    assert_eq!((next, action, back), (HostState::Registering, HostAction::Wait, None));
    let (next, action, back) =
        handle_register_host(HostState::Matched, HostEvent::Closed, &mut app);
    assert_eq!((next, action, back), (HostState::Matched, HostAction::Wait, None));
    let open = HostState::Open { game_id: code("abc123"), host_id: 11 };
    let (next, action, back) = handle_register_host(open, HostEvent::Accepted, &mut app);
    assert_eq!(next, HostState::Open { game_id: code("abc123"), host_id: 11 });
    assert_eq!((action, back), (HostAction::Wait, None));
    assert_eq!(app.waiting().len(), 1);
}

#[test]
fn joiner_that_closes_leaves_the_registry() {
    let mut app = App::default();
    let (state, _) = begin_search(&mut app, "joiner");
    let (state, action) = handle_register_join(state, Inbound::Close, &mut app);
    assert_eq!(state, JoinState::Disconnected);
    assert_eq!(action, JoinAction::Leave { joiner: Some("joiner") });
    assert_eq!(app.searching().len(), 0);
}

#[test]
fn joiner_that_sends_no_text_is_refused() {
    let mut app = App::default();
    open_room(&mut app, "abc123", 11, "host");
    let (state, _) = begin_search(&mut app, "joiner");
    let (state, action) = handle_register_join(state, Inbound::Other, &mut app);
    assert_eq!(state, JoinState::Invalid);
    assert_eq!(action, JoinAction::Refuse { notice: Status::Invalid, joiner: Some("joiner") });
    assert_eq!(app.searching().len(), 0);
    let (state, action) =
        handle_register_join(state, Inbound::Text("abc123".to_string()), &mut app);
    assert_eq!((state, action), (JoinState::Invalid, JoinAction::Wait));
    assert_eq!(app.waiting().len(), 1);
}

#[test]
fn joiner_steps_after_the_end_change_nothing() {
    let mut app = App::default();
    open_room(&mut app, "abc123", 11, "host");
    let (_, _) = begin_search(&mut app, "other");
    for state in [JoinState::Matched, JoinState::Disconnected, JoinState::Invalid] {
        let (_, action) =
            handle_register_join(state, Inbound::Text("abc123".to_string()), &mut app);
        assert_eq!(action, JoinAction::Wait);
    }
    let (state, action) = handle_register_join(JoinState::Matched, Inbound::Close, &mut app);
    assert_eq!((state, action), (JoinState::Matched, JoinAction::Wait));
    assert_eq!(app.waiting().len(), 1);
    assert_eq!(app.searching().len(), 1);
}

#[test]
fn two_joiners_with_one_code_match_once() {
    let mut app = App::default();
    open_room(&mut app, "abc123", 11, "host");
    let (first, _) = begin_search(&mut app, "first");
    let (second, _) = begin_search(&mut app, "second");
    assert_ne!(first, second);
    let (first, won) = handle_register_join(first, Inbound::Text("abc123".to_string()), &mut app);
    let (second, lost) =
        handle_register_join(second, Inbound::Text("abc123".to_string()), &mut app);
    assert_eq!(first, JoinState::Matched);
    assert!(matches!(won, JoinAction::Match { joiner: Some("first"), .. }));
    assert!(matches!(second, JoinState::Searching { .. }));
    assert_eq!(lost, JoinAction::Reply(Status::RoomNotFound));
    assert_eq!(app.searching().len(), 1);
}

#[test]
fn farewells_say_that_the_coordinator_closes() {
    let told: Farewell<&'static str, u32> = remove_waiting((code("abc123"), room(1, "host")));
    assert_eq!(
        told,
        Farewell { notice: Status::ServerClosed, sender: "host", canceller: Some(7) }
    );
    let told: Farewell<&'static str, u32> = remove_searching("joiner");
    assert_eq!(told, Farewell { notice: Status::ServerClosed, sender: "joiner", canceller: None });
    assert_eq!(told.notice.to_json(), r#"{"status":"ServerClosed"}"#);
}

#[test]
fn shutdown_empties_both_registries_and_tells_everyone_once() {
    let mut app = App::default();
    open_room(&mut app, "abc123", 1, "a");
    open_room(&mut app, "abc124", 2, "b");
    open_room(&mut app, "abc125", 3, "c");
    let (first, _) = begin_search(&mut app, "x");
    let (second, _) = begin_search(&mut app, "y");
    let (mut hosts, mut joiners) = shutdown(&mut app);
    assert_eq!(app.waiting().len(), 0);
    assert_eq!(app.searching().len(), 0);
    hosts.sort_by(|a, b| a.0.cmp(&b.0));
    assert_eq!(
        hosts,
        vec![
            (code("abc123"), Farewell { notice: Status::ServerClosed, sender: "a", canceller: Some(7) }),
            (code("abc124"), Farewell { notice: Status::ServerClosed, sender: "b", canceller: Some(7) }),
            (code("abc125"), Farewell { notice: Status::ServerClosed, sender: "c", canceller: Some(7) }),
        ]
    );
    joiners.sort_by(|a, b| a.1.sender.cmp(b.1.sender));
    let ids = match (first, second) {
        (JoinState::Searching { join_id: x }, JoinState::Searching { join_id: y }) => (x, y),
        _ => unreachable!(),
    };
    assert_eq!(
        joiners,
        vec![
            (ids.0, Farewell { notice: Status::ServerClosed, sender: "x", canceller: None }),
            (ids.1, Farewell { notice: Status::ServerClosed, sender: "y", canceller: None }),
        ]
    );
    let (hosts, joiners) = shutdown(&mut app);
    assert!(hosts.is_empty() && joiners.is_empty());
}

#[test]
fn host_that_closes_after_its_match_leaves_a_newer_room_under_its_code() {
    let mut app = App::default();
    let first = open_room(&mut app, "abc123", 11, "first");
    let (join, _) = begin_search(&mut app, "joiner");
    let (join, action) = handle_register_join(join, Inbound::Text("abc123".to_string()), &mut app);
    assert_eq!(join, JoinState::Matched);
    assert!(matches!(action, JoinAction::Match { .. }));
    let second = open_room(&mut app, "abc123", 12, "second");
    assert_eq!(second, HostState::Open { game_id: code("abc123"), host_id: 12 });
    let (first, action, back) = handle_register_host(first, HostEvent::Closed, &mut app);
    assert_eq!((first, action, back), (HostState::Matched, HostAction::End, None));
    assert_eq!(app.waiting().len(), 1);
    assert!(app.waiting().contains(&code("abc123")));
    let (second, action, _) = handle_register_host(second, HostEvent::Closed, &mut app);
    assert_eq!((second, action), (HostState::Disconnected, HostAction::End));
    assert_eq!(app.waiting().len(), 0);
}

#[test]
fn host_that_cannot_be_told_leaves_the_room_of_another_host() {
    let mut app = App::default();
    open_room(&mut app, "abc123", 12, "other");
    let stale = HostState::Open { game_id: code("abc123"), host_id: 11 };
    let (state, action, back) = handle_register_host(stale, HostEvent::Undelivered, &mut app);
    assert_eq!((state, action, back), (HostState::Disconnected, HostAction::End, None));
    assert_eq!(app.waiting.take(&code("abc123")), Some(room(12, "other")));
}
