//! The synchronization server.

use std::collections::HashSet;

use video_sync::double::Double;
use video_sync::protocol::{ClientInit, ClientMessage, ClientUpdate, ServerDisconnect};
use video_sync::server::{
    process_command, Action, Command, CommandError, ConnectionState, GlobalState, Id, Ids, Plan,
    PlayerChange, ServerMessage, ServerUpdate,
};
use video_sync::time::Time;

fn double(x: f64) -> Double {
    Double::from_bits(x.to_bits())
}

fn at(seconds: f64) -> Time {
    Time::from_seconds(double(seconds))
}

fn run(state: &mut GlobalState, command: Command) -> Plan {
    process_command(command, state, 0).unwrap()
}

fn join(state: &mut GlobalState, id: Id) -> ServerUpdate {
    let plan = run(state, Command::NewConnection(id, Some(format!("peer-{}", id))));
    assert!(plan.change.is_none());
    assert_eq!(plan.actions.len(), 1);
    match plan.actions[0] {
        Action::Send(to, ServerMessage::Update(update)) => {
            assert_eq!(to, id);
            update
        }
        other => panic!("{:?}", other),
    }
}

fn update(state: &mut GlobalState, id: Id, update: ClientUpdate) -> Plan {
    run(state, Command::Message(id, ClientMessage::Update(update)))
}

fn introduce(state: &mut GlobalState, id: Id, hash: &str) -> Plan {
    let init = ClientInit { video_hash: hash.to_string(), name: format!("user-{}", id) };
    run(state, Command::Message(id, ClientMessage::Init(init)))
}

/// Who is sent to, and what.
fn sent(plan: &Plan) -> (HashSet<Id>, Vec<ServerUpdate>) {
    let mut to = HashSet::new();
    let mut updates = Vec::new();
    for action in &plan.actions {
        match action {
            Action::Send(id, ServerMessage::Update(update)) => {
                assert!(to.insert(*id));
                updates.push(*update);
            }
            other => panic!("{:?}", other),
        }
    }
    (to, updates)
}

fn bits(x: Option<Double>) -> Option<u64> {
    x.map(|d| d.to_bits())
}

#[test]
fn server_starts_unpaused_at_normal_speed() {
    let mut state = GlobalState::default();
    assert!(state.connections.is_empty());
    let told = join(&mut state, 1);
    assert_eq!(bits(told.time), Some(0.0f64.to_bits()));
    assert_eq!(bits(told.speed), Some(1.0f64.to_bits()));
    assert_eq!(told.paused, Some(false));
    assert_eq!(state.connections[&1].peer, "peer-1");
    assert_eq!(state.connections[&1].state, ConnectionState::Uninitialized);
}

#[test]
fn ids_never_repeat() {
    let mut ids = Ids::new();
    let mut state = GlobalState::default();
    for expected in 1..=5 {
        let id = ids.next();
        assert_eq!(id, expected);
        join(&mut state, id);
        if id % 2 == 0 {
            run(&mut state, Command::Disconnection(id));
        }
    }
    assert_eq!(ids.next, 6);
}

#[test]
fn joiner_starts_at_the_least_time() {
    let mut state = GlobalState::default();
    for id in 1..=3 {
        join(&mut state, id);
    }
    assert!(state.get_min_time().is_none());
    assert!(state.get_max_time().is_none());
    update(&mut state, 1, ClientUpdate::Timestamp { time: at(7.5) });
    update(&mut state, 3, ClientUpdate::Timestamp { time: at(4.25) });
    let (id, min) = state.get_min_time().unwrap();
    assert_eq!((id, min.to_bits()), (3, 4.25f64.to_bits()));
    let (id, max) = state.get_max_time().unwrap();
    assert_eq!((id, max.to_bits()), (1, 7.5f64.to_bits()));
    assert_eq!(bits(join(&mut state, 4).time), Some(4.25f64.to_bits()));
}

#[test]
fn timestamp_is_noted_with_its_moment() {
    let mut state = GlobalState::default();
    join(&mut state, 1);
    let command =
        Command::Message(1, ClientMessage::Update(ClientUpdate::Timestamp { time: at(2.0) }));
    let plan = process_command(command, &mut state, 123).unwrap();
    assert!(plan.actions.is_empty() && plan.change.is_none());
    let timestamp = state.connections[&1].timestamp.unwrap();
    assert_eq!(timestamp.when, 123);
    assert_eq!(timestamp.value.to_bits(), 2.0f64.to_bits());
}

#[test]
fn known_id_and_unknown_peer_are_refused() {
    let mut state = GlobalState::default();
    join(&mut state, 1);
    assert!(matches!(
        process_command(Command::NewConnection(1, Some("again".to_string())), &mut state, 0),
        Err(CommandError::ExistingConnection(1))
    ));
    assert_eq!(state.connections[&1].peer, "peer-1");
    assert!(matches!(
        process_command(Command::NewConnection(2, None), &mut state, 0),
        Err(CommandError::PeerUnknown)
    ));
    assert!(matches!(
        process_command(Command::Disconnection(2), &mut state, 0),
        Err(CommandError::UnknownConnection(2))
    ));
    assert_eq!(state.connections.len(), 1);
}

#[test]
fn refusals_are_explained() {
    assert_eq!(
        CommandError::UnknownConnection(7).text(),
        "ID: 7 doesn't exist in connections."
    );
    assert_eq!(
        CommandError::ExistingConnection(1020).text(),
        "Existing connection with id: 1020"
    );
    assert_eq!(CommandError::PeerUnknown.text(), "Failed to extract peer addr.");
    for id in [0, 9, 10, 99, 100, usize::MAX] {
        assert_eq!(
            CommandError::ExistingConnection(id).text(),
            format!("Existing connection with id: {}", id)
        );
    }

    let mut state = GlobalState::default();
    state.player.speed = double(2.0);
    state.player.paused = true;
    state.player.video_hash = Some("abc".to_string());
    let error = process_command(Command::Disconnection(7), &mut state, 0).unwrap_err();
    assert_eq!(error.text(), "ID: 7 doesn't exist in connections.");
    assert!(state.connections.is_empty());
    assert!(state.player.speed == double(2.0) && state.player.paused);
    assert_eq!(state.player.video_hash.as_deref(), Some("abc"));
}

#[test]
fn changes_reach_all_others() {
    let mut state = GlobalState::default();
    for id in 1..=3 {
        join(&mut state, id);
    }
    let others: HashSet<Id> = [1, 3].into_iter().collect();

    let plan = update(&mut state, 2, ClientUpdate::Seek { time: at(30.0) });
    let (to, updates) = sent(&plan);
    assert_eq!(to, others);
    assert!(updates.iter().all(|u| bits(u.time) == Some(30.0f64.to_bits())
        && u.speed.is_none()
        && u.paused.is_none()));
    assert!(plan.change.is_none());

    let plan = update(&mut state, 2, ClientUpdate::Pause { time: at(31.0) });
    let (to, updates) = sent(&plan);
    assert_eq!(to, others);
    assert!(updates.iter().all(|u| bits(u.time) == Some(31.0f64.to_bits())
        && u.speed.is_none()
        && u.paused == Some(true)));
    assert!(matches!(plan.change, Some(PlayerChange::Paused(true))));

    let plan = update(&mut state, 2, ClientUpdate::Resume { time: at(32.0) });
    let (to, updates) = sent(&plan);
    assert_eq!(to, others);
    assert!(updates.iter().all(|u| u.paused == Some(false)));
    assert!(matches!(plan.change, Some(PlayerChange::Paused(false))));

    let plan = update(&mut state, 2, ClientUpdate::SpeedChange { factor: double(1.25) });
    let (to, updates) = sent(&plan);
    assert_eq!(to, others);
    assert!(updates.iter().all(|u| bits(u.speed) == Some(1.25f64.to_bits())
        && u.time.is_none()
        && u.paused.is_none()));
    assert!(matches!(plan.change, Some(PlayerChange::Speed(s)) if s == double(1.25)));
}

#[test]
fn joiner_hears_last_change() {
    let mut state = GlobalState::default();
    join(&mut state, 1);
    let plan = update(&mut state, 1, ClientUpdate::Pause { time: at(9.0) });
    state.complete(plan.change, true);
    let plan = update(&mut state, 1, ClientUpdate::SpeedChange { factor: double(2.0) });
    state.complete(plan.change, true);
    let told = join(&mut state, 2);
    assert_eq!(told.paused, Some(true));
    assert_eq!(bits(told.speed), Some(2.0f64.to_bits()));
}

#[test]
fn undelivered_change_does_not_hold() {
    let mut state = GlobalState::default();
    join(&mut state, 1);
    let plan = update(&mut state, 1, ClientUpdate::Pause { time: at(9.0) });
    state.complete(plan.change, false);
    assert_eq!(join(&mut state, 2).paused, Some(false));
}

#[test]
fn other_video_is_refused() {
    let mut state = GlobalState::default();
    join(&mut state, 1);
    join(&mut state, 2);
    join(&mut state, 3);
    assert!(introduce(&mut state, 1, "aa").actions.is_empty());
    assert_eq!(state.player.video_hash.as_deref(), Some("aa"));
    let plan = introduce(&mut state, 3, "bb");
    assert_eq!(plan.actions.len(), 2);
    assert!(matches!(
        plan.actions[0],
        Action::Send(3, ServerMessage::Disconnect(ServerDisconnect::IncorrectHash))
    ));
    assert!(matches!(plan.actions[1], Action::Shutdown(3)));
    assert_eq!(state.player.video_hash.as_deref(), Some("aa"));
    assert_eq!(state.connections[&3].state, ConnectionState::Initialized);
}

#[test]
fn same_video_is_let_in() {
    let mut state = GlobalState::default();
    join(&mut state, 1);
    join(&mut state, 2);
    introduce(&mut state, 1, "aa");
    assert!(introduce(&mut state, 2, "aa").actions.is_empty());
    assert_eq!(state.connections[&2].state, ConnectionState::Initialized);
    assert_eq!(state.player.video_hash.as_deref(), Some("aa"));
}

#[test]
fn first_introduction_sets_video() {
    let mut state = GlobalState::default();
    join(&mut state, 1);
    join(&mut state, 2);
    introduce(&mut state, 2, "cc");
    assert_eq!(state.connections[&1].state, ConnectionState::Uninitialized);
    assert_eq!(state.connections[&2].state, ConnectionState::Initialized);
    assert_eq!(state.player.video_hash.as_deref(), Some("cc"));
}

#[test]
fn video_is_free_after_last_client() {
    let mut state = GlobalState::default();
    join(&mut state, 1);
    join(&mut state, 2);
    introduce(&mut state, 1, "aa");
    run(&mut state, Command::Disconnection(1));
    assert_eq!(state.player.video_hash.as_deref(), Some("aa"));
    run(&mut state, Command::Disconnection(2));
    assert!(state.player.video_hash.is_none());
    join(&mut state, 3);
    assert!(introduce(&mut state, 3, "bb").actions.is_empty());
    assert_eq!(state.player.video_hash.as_deref(), Some("bb"));
}

#[test]
fn leaving_undoes_joining() {
    let mut state = GlobalState::default();
    join(&mut state, 1);
    introduce(&mut state, 1, "aa");
    join(&mut state, 2);
    run(&mut state, Command::Disconnection(2));
    assert_eq!(state.connections.keys().copied().collect::<Vec<Id>>(), [1]);
    assert_eq!(state.player.video_hash.as_deref(), Some("aa"));
}

#[test]
fn level_clients_are_left_alone() {
    let mut state = GlobalState::default();
    assert!(run(&mut state, Command::Synchronize).actions.is_empty());
    join(&mut state, 1);
    join(&mut state, 2);
    assert!(run(&mut state, Command::Synchronize).actions.is_empty());
    update(&mut state, 1, ClientUpdate::Timestamp { time: at(10.0) });
    update(&mut state, 2, ClientUpdate::Timestamp { time: at(10.0) });
    assert!(run(&mut state, Command::Synchronize).actions.is_empty());
    // Exactly five seconds are not too much.
    update(&mut state, 2, ClientUpdate::Timestamp { time: at(15.0) });
    assert!(run(&mut state, Command::Synchronize).actions.is_empty());
}

#[test]
fn synchronization_is_to_the_slowest() {
    let mut state = GlobalState::default();
    for id in 1..=4 {
        join(&mut state, id);
    }
    update(&mut state, 1, ClientUpdate::Timestamp { time: at(100.0) });
    update(&mut state, 2, ClientUpdate::Timestamp { time: at(94.5) });
    update(&mut state, 3, ClientUpdate::Timestamp { time: at(97.0) });
    let plan = run(&mut state, Command::Synchronize);
    let (to, updates) = sent(&plan);
    assert_eq!(to, (1..=4).collect());
    assert!(updates.iter().all(|u| bits(u.time) == Some(94.5f64.to_bits())
        && u.speed.is_none()
        && u.paused.is_none()));
}
