//! What server and clients tell each other.

use video_sync::double::Double;
use video_sync::protocol::{
    ClientInit, ClientMessage, ClientUpdate, PlayerState, PlayerUpdate, ServerDisconnect,
    ServerInit, ServerMessage, UpdateCause, UserUpdate,
};
use video_sync::time::Time;

fn double(x: f64) -> Double {
    Double::from_bits(x.to_bits())
}

#[test]
fn update_starts_empty() {
    let update = PlayerUpdate::new(UpdateCause::Synchronize);
    assert!(update.state.time.is_none());
    assert!(update.state.speed.is_none());
    assert!(update.state.paused.is_none());
    assert!(matches!(update.cause, UpdateCause::Synchronize));
}

#[test]
fn update_parts_are_set_one_by_one() {
    let time = Time::from_seconds(double(3.5));
    let update = PlayerUpdate::new(UpdateCause::UserAction("ada".to_string()))
        .with_time(time)
        .with_pause(true)
        .with_speed(double(1.5));
    assert!(update.state.time == Some(time));
    assert_eq!(update.state.paused, Some(true));
    assert!(update.state.speed == Some(double(1.5)));
    assert!(matches!(update.cause, UpdateCause::UserAction(name) if name == "ada"));
}

#[test]
fn update_parts_are_independent() {
    let time = Time::from_seconds(double(3.5));
    let one = PlayerUpdate::new(UpdateCause::Synchronize)
        .with_pause(true)
        .with_pause(false)
        .with_time(Time::zero())
        .with_time(time);
    let other = PlayerUpdate::new(UpdateCause::Synchronize).with_time(time).with_pause(false);
    assert_eq!(format!("{:?}", one), format!("{:?}", other));
}

#[test]
fn messages_are_made_from_their_parts() {
    let init = ClientInit { video_hash: "h".to_string(), name: "n".to_string() };
    assert!(matches!(ClientMessage::from(init), ClientMessage::Init(i) if i.video_hash == "h"));

    let update = ClientUpdate::SpeedChange { factor: double(2.0) };
    assert!(matches!(
        ClientMessage::from(update),
        ClientMessage::Update(ClientUpdate::SpeedChange { factor }) if factor == double(2.0)
    ));

    let player_state = PlayerState { time: None, speed: None, paused: None };
    let init = ServerInit { player_state, users: vec!["ada".to_string()] };
    assert!(matches!(ServerMessage::from(init), ServerMessage::Init(i) if i.users == ["ada"]));

    let update = UserUpdate::Connected("bob".to_string());
    assert!(matches!(
        ServerMessage::from(update),
        ServerMessage::UserUpdate(UserUpdate::Connected(name)) if name == "bob"
    ));

    let update = PlayerUpdate::new(UpdateCause::Synchronize).with_pause(true);
    assert!(matches!(
        ServerMessage::from(update),
        ServerMessage::PlayerUpdate(u) if u.state.paused == Some(true)
    ));

    assert!(matches!(
        ServerMessage::from(ServerDisconnect::IncorrectHash),
        ServerMessage::Disconnect(ServerDisconnect::IncorrectHash)
    ));
}
