//! The broker between the player, the server and the user.

use video_sync::client::backend::{
    broker_handle_mpv_event, broker_handle_network_event, list_names, Attempts, Broker,
    BrokerAction, BrokerError, BrokerEvent, ConnectVerdict, Connecting, Notice,
};
use video_sync::client::mpv::MpvEvent;
use video_sync::double::Double;
use video_sync::protocol::{
    ClientMessage, ClientUpdate, PlayerState, PlayerUpdate, ServerDisconnect, ServerInit,
    ServerMessage, UpdateCause, UserUpdate,
};
use video_sync::time::Time;

fn double(x: f64) -> Double {
    Double::from_bits(x.to_bits())
}

fn at(seconds: f64) -> Time {
    Time::from_seconds(double(seconds))
}

/// The actions, one line each; a notice as it reads.
fn shown(actions: Vec<BrokerAction>) -> Vec<String> {
    let mut lines = Vec::new();
    for action in actions {
        lines.push(match action {
            BrokerAction::Notify(notice) => {
                let factor = match &notice {
                    Notice::SpeedChanged(_, factor) => {
                        f64::from_bits(factor.to_bits()).to_string()
                    }
                    _ => String::new(),
                };
                notice.text(&factor)
            }
            BrokerAction::Execute(event, attempts) => format!("{} x {}", change(event), attempts),
            BrokerAction::Send(ClientMessage::Update(update)) => match update {
                ClientUpdate::Timestamp { time } => format!("timestamp {}", time.to_string()),
                ClientUpdate::Seek { time } => format!("sends seek {}", time.to_string()),
                ClientUpdate::Pause { time } => format!("sends pause {}", time.to_string()),
                ClientUpdate::Resume { time } => format!("sends resume {}", time.to_string()),
                ClientUpdate::SpeedChange { factor } => {
                    format!("sends speed {}", f64::from_bits(factor.to_bits()))
                }
            },
            BrokerAction::Send(ClientMessage::Init(init)) => format!("init {}", init.name),
            BrokerAction::RequestTime => "asks for the time".to_string(),
        });
    }
    lines
}

fn change(event: MpvEvent) -> String {
    match event {
        MpvEvent::Pause { time } => format!("pause {}", time.to_string()),
        MpvEvent::Resume { time } => format!("resume {}", time.to_string()),
        MpvEvent::Seek { time } => format!("seek {}", time.to_string()),
        MpvEvent::SpeedChange { factor } => {
            format!("speed {}", f64::from_bits(factor.to_bits()))
        }
    }
}

fn by(user: &str) -> PlayerUpdate {
    PlayerUpdate::new(UpdateCause::UserAction(user.to_string()))
}

fn follow(update: PlayerUpdate) -> Vec<String> {
    shown(broker_handle_network_event(ServerMessage::PlayerUpdate(update)).unwrap())
}

fn init(state: PlayerState, users: &[&str]) -> ServerMessage {
    let users = users.iter().map(|user| user.to_string()).collect();
    ServerMessage::Init(ServerInit { player_state: state, users })
}

fn full() -> PlayerState {
    PlayerState { time: Some(at(65.0)), speed: Some(double(1.5)), paused: Some(true) }
}

#[test]
fn users_come_and_go() {
    let connected = ServerMessage::UserUpdate(UserUpdate::Connected("ada".to_string()));
    assert_eq!(shown(broker_handle_network_event(connected).unwrap()), ["ada has connected!"]);
    let gone = ServerMessage::UserUpdate(UserUpdate::Disconnected("bob".to_string()));
    assert_eq!(shown(broker_handle_network_event(gone).unwrap()), ["bob has disconnected!"]);
}

#[test]
fn users_changes_are_announced_and_followed() {
    assert_eq!(
        follow(by("ada").with_time(at(61.0)).with_pause(true)),
        ["ada paused!", "pause 00:01:01 x 1"]
    );
    assert_eq!(
        follow(by("ada").with_time(at(61.0)).with_pause(false)),
        ["ada resumed!", "resume 00:01:01 x 1"]
    );
    assert_eq!(
        follow(by("ada").with_time(at(61.0))),
        ["ada seeked to 00:01:01!", "seek 00:01:01 x 1"]
    );
    assert_eq!(
        follow(by("ada").with_speed(double(1.25))),
        ["ada changed speed to 1.25!", "speed 1.25 x 1"]
    );
    assert_eq!(
        follow(by("ada").with_speed(double(2.0)).with_time(at(3.0)).with_pause(true)),
        ["ada paused!", "pause 00:00:03 x 1", "ada changed speed to 2!", "speed 2 x 1"]
    );
}

#[test]
fn pause_without_time_is_passed_over() {
    assert!(follow(by("ada").with_pause(true)).is_empty());
    assert!(follow(by("ada")).is_empty());
}

#[test]
fn synchronization_is_followed() {
    let update = PlayerUpdate::new(UpdateCause::Synchronize);
    assert_eq!(
        follow(update.with_time(at(30.0))),
        ["Synchronization to 00:00:30!", "seek 00:00:30 x 1"]
    );
    // Nobody to announce.
    let update = PlayerUpdate::new(UpdateCause::Synchronize);
    assert_eq!(
        follow(update.with_time(at(30.0)).with_pause(false).with_speed(double(1.0))),
        ["resume 00:00:30 x 1", "speed 1 x 1"]
    );
}

#[test]
fn refusals_end_the_broker() {
    let refusal = ServerMessage::Disconnect(ServerDisconnect::IncorrectHash);
    let error = broker_handle_network_event(refusal).unwrap_err();
    assert_eq!(error, BrokerError::IncorrectHash);
    assert_eq!(error.text(), "Incorrect video file.");
    let error = broker_handle_network_event(init(full(), &[])).unwrap_err();
    assert_eq!(error.text(), "Server broke protocol by re-initialising.");
}

#[test]
fn change_arrives_unchanged() {
    let events = [
        MpvEvent::Pause { time: at(5.5) },
        MpvEvent::Resume { time: at(6.5) },
        MpvEvent::Seek { time: at(7.5) },
        MpvEvent::SpeedChange { factor: double(0.75) },
    ];
    for event in events {
        let update = match broker_handle_mpv_event(event) {
            ClientMessage::Update(ClientUpdate::Pause { time }) => {
                by("ada").with_time(time).with_pause(true)
            }
            ClientMessage::Update(ClientUpdate::Resume { time }) => {
                by("ada").with_time(time).with_pause(false)
            }
            ClientMessage::Update(ClientUpdate::Seek { time }) => by("ada").with_time(time),
            ClientMessage::Update(ClientUpdate::SpeedChange { factor }) => {
                by("ada").with_speed(factor)
            }
            other => panic!("{:?}", other),
        };
        let actions =
            broker_handle_network_event(ServerMessage::PlayerUpdate(update)).unwrap();
        assert_eq!(actions.len(), 2);
        assert!(matches!(actions[0], BrokerAction::Notify(_)));
        assert!(matches!(actions[1], BrokerAction::Execute(e, 1) if e == event));
    }
}

#[test]
fn first_message_sets_the_client_up() {
    let mut broker = Broker::new();
    let actions = broker.handle(BrokerEvent::Network(Some(init(full(), &["ada", "bob"])))).unwrap();
    assert!(broker.started);
    assert_eq!(
        shown(actions),
        ["pause 00:01:05 x 10", "speed 1.5 x 1", "Connected to server with ada, bob, "]
    );

    let mut broker = Broker::new();
    let state = PlayerState { paused: Some(false), ..full() };
    let actions = broker.handle(BrokerEvent::Network(Some(init(state, &[])))).unwrap();
    assert_eq!(
        shown(actions),
        [
            "resume 00:01:05 x 10",
            "speed 1.5 x 1",
            "Connected to server, no other users connected."
        ]
    );
}

#[test]
fn client_is_set_up_once() {
    let mut broker = Broker::new();
    broker.handle(BrokerEvent::Network(Some(init(full(), &[])))).unwrap();
    assert_eq!(
        broker.handle(BrokerEvent::Network(Some(init(full(), &[])))).unwrap_err(),
        BrokerError::Reinitialized
    );
}

#[test]
fn first_message_must_set_everything() {
    let lacking = [
        PlayerState { time: None, ..full() },
        PlayerState { speed: None, ..full() },
        PlayerState { paused: None, ..full() },
    ];
    for state in lacking {
        let mut broker = Broker::new();
        let error =
            broker.handle(BrokerEvent::Network(Some(init(state, &["ada"])))).unwrap_err();
        assert_eq!(error, BrokerError::InvalidInit);
        assert_eq!(error.text(), "Invalid initial server message");
        assert!(!broker.started);
    }
    let other = ServerMessage::PlayerUpdate(by("ada"));
    assert_eq!(
        Broker::new().handle(BrokerEvent::Network(Some(other))).unwrap_err(),
        BrokerError::InvalidInit
    );
    let error = Broker::new().handle(BrokerEvent::Network(None)).unwrap_err();
    assert_eq!(error, BrokerError::MissingInit);
    assert_eq!(error.text(), "Didn't receive init server message");
}

#[test]
fn broker_passes_events_on() {
    let mut broker = Broker { started: true };
    let pause = MpvEvent::Pause { time: at(4.0) };
    assert_eq!(
        shown(broker.handle(BrokerEvent::Mpv(Some(pause))).unwrap()),
        ["sends pause 00:00:04"]
    );
    assert!(broker.handle(BrokerEvent::Mpv(None)).unwrap().is_empty());
    assert!(broker.handle(BrokerEvent::Network(None)).unwrap().is_empty());
    assert_eq!(shown(broker.handle(BrokerEvent::Quiet).unwrap()), ["asks for the time"]);
    assert_eq!(
        shown(broker.handle(BrokerEvent::Time(at(9.0))).unwrap()),
        ["timestamp 00:00:09"]
    );
    let update = by("eve").with_time(at(2.0));
    assert_eq!(
        shown(broker.handle(BrokerEvent::Network(Some(update.into()))).unwrap()),
        ["eve seeked to 00:00:02!", "seek 00:00:02 x 1"]
    );
}

#[test]
fn names_are_listed() {
    assert_eq!(list_names(&vec![]), "");
    assert_eq!(list_names(&vec!["ada".to_string()]), "ada, ");
    assert_eq!(
        list_names(&vec!["ada".to_string(), "".to_string(), "bob".to_string()]),
        "ada, , bob, "
    );
}

#[test]
fn connection_is_given_up_after_its_attempts() {
    let mut attempts = Attempts::new();
    for _ in 0..20 {
        assert_eq!(attempts.after(Connecting::NotReady), ConnectVerdict::TryAgain);
    }
    assert_eq!(attempts.after(Connecting::NotReady), ConnectVerdict::GiveUp);
    assert_eq!(attempts.failed, 21);

    let mut attempts = Attempts::new();
    assert_eq!(attempts.after(Connecting::NotReady), ConnectVerdict::TryAgain);
    assert_eq!(attempts.after(Connecting::Connected), ConnectVerdict::Done);
    assert_eq!(Attempts::new().after(Connecting::Broken), ConnectVerdict::Fail);
}
