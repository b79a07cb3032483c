//! The blocking client and the blocking server.

use std::collections::HashSet;

use video_sync::blocking::client::{
    broker_handle_mpv_event, broker_handle_network_event, broker_step, observe_speed,
    request_time_pos, BrokerAction, BrokerEvent, BrokerResponseState, Command as Done,
};
use video_sync::blocking::mpv_data_model::{
    MpvCommand, MpvData, MpvErrorStatus, MpvEvent, MpvProperty, MpvPropertyValue, MpvResponse,
    MpvResponseOrEvent,
};
use video_sync::blocking::network_data_model::{ClientMessage, MessageKind};
use video_sync::blocking::server::{Command, Connections, Delivery, Id, Ids};
use video_sync::double::Double;
use video_sync::json::Json;

fn double(x: f64) -> Double {
    Double::from_bits(x.to_bits())
}

fn event(event: MpvEvent) -> MpvResponseOrEvent {
    MpvResponseOrEvent::Event(event)
}

fn time(seconds: f64) -> MpvResponseOrEvent {
    MpvResponseOrEvent::Response(MpvResponse {
        request_id: 42,
        error: MpvErrorStatus::Success,
        data: Some(MpvData::Number(double(seconds))),
    })
}

fn shown(actions: Vec<BrokerAction>) -> Vec<String> {
    actions
        .into_iter()
        .map(|action| match action {
            BrokerAction::ToMpv(command) => {
                assert_eq!(command, request_time_pos());
                "asks for the time".to_string()
            }
            BrokerAction::ToNetwork(message) => spoken(message),
        })
        .collect()
}

fn spoken(message: ClientMessage) -> String {
    let number = |d: Double| f64::from_bits(d.to_bits());
    match message {
        ClientMessage::Timestamp { time } => format!("timestamp {}", number(time)),
        ClientMessage::Seek { time } => format!("seek {}", number(time)),
        ClientMessage::Pause { time } => format!("pause {}", number(time)),
        ClientMessage::Resume { time } => format!("resume {}", number(time)),
        ClientMessage::SpeedChange { factor } => format!("speed {}", number(factor)),
    }
}

fn heard(state: &mut BrokerResponseState, line: MpvResponseOrEvent) -> Vec<String> {
    shown(broker_handle_mpv_event(line, state))
}

#[test]
fn blocking_commands_are_written_as_lists() {
    let json = request_time_pos().to_json_command();
    assert_eq!(json.command, [Json::Text("get_property"), Json::Text("time-pos")]);
    assert_eq!(json.request_id, 42);

    let json = observe_speed().to_json_command();
    assert_eq!(
        json.command,
        [Json::Text("observe_property"), Json::Unsigned(1), Json::Text("speed")]
    );
    assert_eq!(json.request_id, 43);

    let property = MpvPropertyValue::Speed(double(1.5));
    let json = MpvCommand::SetProperty { request_id: 1, property }.to_json_command();
    assert_eq!(
        json.command,
        [Json::Text("set_property"), Json::Text("speed"), Json::Number(double(1.5))]
    );
    assert_eq!(json.request_id, 1);
}

#[test]
fn blocking_properties_are_named() {
    assert_eq!(MpvProperty::Pause.to_string(), "pause");
    assert_eq!(MpvProperty::TimePos.to_string(), "time-pos");
    assert_eq!(MpvProperty::Speed.to_string(), "speed");
    assert_eq!(MpvProperty::from(MpvPropertyValue::Pause(true)), MpvProperty::Pause);
}

#[test]
fn blocking_numbers_that_json_lacks_become_null() {
    let value = MpvPropertyValue::Speed(double(f64::INFINITY));
    assert_eq!(value.to_cmd_list(), [Json::Text("speed"), Json::Null]);
    let value = MpvPropertyValue::TimePos(double(f64::NAN));
    assert_eq!(value.to_cmd_list(), [Json::Text("time-pos"), Json::Null]);
    let value = MpvPropertyValue::TimePos(double(2.5));
    assert_eq!(value.to_cmd_list(), [Json::Text("time-pos"), Json::Number(double(2.5))]);
}

#[test]
fn time_without_cause_is_a_timestamp() {
    let mut state = BrokerResponseState::default();
    assert_eq!(heard(&mut state, time(3.5)), ["timestamp 3.5"]);
}

#[test]
fn change_is_sent_with_its_time() {
    let mut state = BrokerResponseState::default();
    assert_eq!(heard(&mut state, event(MpvEvent::Pause)), ["asks for the time"]);
    assert_eq!(heard(&mut state, time(4.0)), ["pause 4"]);
    assert_eq!(heard(&mut state, time(4.0)), ["timestamp 4"]);
    assert_eq!(heard(&mut state, event(MpvEvent::Unpause)), ["asks for the time"]);
    assert_eq!(heard(&mut state, time(5.0)), ["resume 5"]);
    assert_eq!(heard(&mut state, event(MpvEvent::Seek)), ["asks for the time"]);
    assert_eq!(heard(&mut state, time(60.0)), ["seek 60"]);
}

#[test]
fn repeated_report_is_passed_over() {
    let mut state = BrokerResponseState::default();
    heard(&mut state, event(MpvEvent::Pause));
    assert!(heard(&mut state, event(MpvEvent::Pause)).is_empty());
    assert_eq!(heard(&mut state, event(MpvEvent::Unpause)), ["asks for the time"]);
    assert!(heard(&mut state, event(MpvEvent::Unpause)).is_empty());
    assert_eq!(heard(&mut state, event(MpvEvent::Pause)), ["asks for the time"]);
    assert_eq!(state.last_event, Some(Done::Pause));
}

#[test]
fn speed_is_sent_at_once() {
    let mut state = BrokerResponseState::default();
    let name = MpvPropertyValue::Speed(double(1.25));
    let change = event(MpvEvent::PropertyChange { id: 1, name });
    assert_eq!(heard(&mut state, change), ["speed 1.25"]);
    let name = MpvPropertyValue::Pause(true);
    let change = event(MpvEvent::PropertyChange { id: 1, name });
    assert!(heard(&mut state, change).is_empty());
    assert!(heard(&mut state, event(MpvEvent::PlaybackRestart)).is_empty());
}

#[test]
fn other_answers_mean_nothing() {
    let mut state = BrokerResponseState::default();
    heard(&mut state, event(MpvEvent::Pause));
    let response =
        MpvResponse { request_id: 1, error: MpvErrorStatus::InvalidParameter, data: None };
    assert!(heard(&mut state, MpvResponseOrEvent::Response(response)).is_empty());
    assert_eq!(state.command_waiting_for_time, Some(Done::Pause));
}

#[test]
fn seek_is_not_sent_back() {
    let mut state = BrokerResponseState::default();
    let message = ClientMessage::Seek { time: double(20.0) };
    assert_eq!(
        broker_handle_network_event(message, &mut state),
        [MpvCommand::SetProperty {
            request_id: 1,
            property: MpvPropertyValue::TimePos(double(20.0))
        }]
    );
    assert_eq!(state.last_network_command, Some(MessageKind::Seek));
    assert!(heard(&mut state, event(MpvEvent::Seek)).is_empty());
    assert_eq!(heard(&mut state, event(MpvEvent::Seek)), ["asks for the time"]);
}

#[test]
fn messages_are_followed() {
    let mut state = BrokerResponseState::default();
    let set = |property| MpvCommand::SetProperty { request_id: 1, property };
    assert_eq!(
        broker_handle_network_event(ClientMessage::Pause { time: double(2.0) }, &mut state),
        [set(MpvPropertyValue::Pause(true)), set(MpvPropertyValue::TimePos(double(2.0)))]
    );
    assert_eq!(state.last_network_command, Some(MessageKind::Pause));
    assert_eq!(
        broker_handle_network_event(ClientMessage::Resume { time: double(3.0) }, &mut state),
        [set(MpvPropertyValue::Pause(false)), set(MpvPropertyValue::TimePos(double(3.0)))]
    );
    assert_eq!(
        broker_handle_network_event(
            ClientMessage::SpeedChange { factor: double(2.0) },
            &mut state
        ),
        [set(MpvPropertyValue::Speed(double(2.0)))]
    );
    assert_eq!(state.last_network_command, Some(MessageKind::SpeedChange));
    let timestamp = ClientMessage::Timestamp { time: double(3.0) };
    assert!(broker_handle_network_event(timestamp, &mut state).is_empty());
    assert_eq!(state.last_network_command, Some(MessageKind::SpeedChange));
}

#[test]
fn blocking_broker_passes_events_on() {
    let mut state = BrokerResponseState::default();
    assert_eq!(shown(broker_step(BrokerEvent::Quiet, &mut state)), ["asks for the time"]);
    assert_eq!(shown(broker_step(BrokerEvent::Mpv(time(1.5)), &mut state)), ["timestamp 1.5"]);
    let message = ClientMessage::Pause { time: double(2.0) };
    let actions = broker_step(BrokerEvent::Network(message), &mut state);
    assert_eq!(actions.len(), 2);
    assert!(matches!(
        actions[0],
        BrokerAction::ToMpv(MpvCommand::SetProperty {
            request_id: 1,
            property: MpvPropertyValue::Pause(true)
        })
    ));
    assert!(matches!(
        actions[1],
        BrokerAction::ToMpv(MpvCommand::SetProperty {
            request_id: 1,
            property: MpvPropertyValue::TimePos(t)
        }) if t == double(2.0)
    ));
}

fn recipients(deliveries: &[Delivery]) -> HashSet<Id> {
    let mut to = HashSet::new();
    for delivery in deliveries {
        assert!(to.insert(delivery.to));
    }
    to
}

fn connected(ids: &[Id]) -> Connections {
    let mut connections = Connections::new();
    for &id in ids {
        assert!(connections.process_command(Command::NewConnection(id), 0).is_empty());
    }
    connections
}

fn report(connections: &mut Connections, id: Id, seconds: f64, now: u128) {
    let message = ClientMessage::Timestamp { time: double(seconds) };
    assert!(connections.process_command(Command::Message(id, message), now).is_empty());
}

#[test]
fn blocking_ids_never_repeat() {
    let mut ids = Ids::new();
    assert_eq!([ids.next(), ids.next(), ids.next()], [1, 2, 3]);
    assert_eq!(ids.next, 4);
}

#[test]
fn blocking_server_passes_changes_on() {
    let mut connections = connected(&[1, 2, 3]);
    for message in [
        ClientMessage::Seek { time: double(1.0) },
        ClientMessage::Pause { time: double(2.0) },
        ClientMessage::Resume { time: double(3.0) },
        ClientMessage::SpeedChange { factor: double(4.0) },
    ] {
        let deliveries = connections.process_command(Command::Message(2, message), 0);
        assert_eq!(recipients(&deliveries), [1, 3].into_iter().collect());
        assert!(deliveries.iter().all(|d| spoken(d.message) == spoken(message)));
    }
}

#[test]
fn blocking_server_notes_timestamps() {
    let mut connections = connected(&[1]);
    assert!(connections.connections[&1].timestamp.is_none());
    report(&mut connections, 1, 8.5, 99);
    let timestamp = connections.connections[&1].timestamp.unwrap();
    assert_eq!(timestamp.value.to_bits(), 8.5f64.to_bits());
    assert_eq!(timestamp.when, 99);
}

#[test]
fn blocking_leaving_undoes_joining() {
    let mut connections = connected(&[1, 2]);
    connections.process_command(Command::Disconnection(2), 0);
    assert_eq!(connections.connections.keys().copied().collect::<Vec<Id>>(), [1]);
}

#[test]
fn blocking_server_leaves_level_clients_alone() {
    let mut connections = connected(&[1, 2, 3]);
    assert!(connections.process_command(Command::Synchronize, 0).is_empty());
    report(&mut connections, 1, 10.0, 0);
    report(&mut connections, 2, 15.0, 0);
    report(&mut connections, 3, f64::NAN, 0);
    assert!(connections.process_command(Command::Synchronize, 0).is_empty());
}

#[test]
fn blocking_server_synchronizes_to_the_slowest() {
    let mut connections = connected(&[1, 2, 3, 4]);
    report(&mut connections, 1, 12.0, 0);
    report(&mut connections, 2, 17.5, 0);
    report(&mut connections, 3, f64::NAN, 0);
    let deliveries = connections.process_command(Command::Synchronize, 0);
    assert_eq!(recipients(&deliveries), (1..=4).collect());
    assert!(deliveries.iter().all(|d| spoken(d.message) == "seek 12"));
}
