//! The conversation with the player.

use video_sync::client::ipc_data_model::{
    MpvIpcCommand, MpvIpcData, MpvIpcErrorStatus, MpvIpcEvent, MpvIpcProperty,
    MpvIpcPropertyValue, MpvIpcResponse, MpvIpcResponseOrEvent,
};
use video_sync::client::mpv::{
    EventBundle, ExecutionResponse, Mpv, MpvAction, MpvEvent, Tries, Verdict, OBSERVE_PAUSE_ID,
    OBSERVE_SPEED_ID, TIMER_REQUEST_ID,
};
use video_sync::double::Double;
use video_sync::json::Json;
use video_sync::time::Time;

const MS: u128 = 1_000_000;

fn double(x: f64) -> Double {
    Double::from_bits(x.to_bits())
}

fn at(seconds: f64) -> Time {
    Time::from_seconds(double(seconds))
}

fn paused(paused: bool) -> MpvIpcEvent {
    MpvIpcEvent::PropertyChange {
        id: OBSERVE_PAUSE_ID,
        name: MpvIpcPropertyValue::Pause(paused),
    }
}

fn speed(factor: f64) -> MpvIpcEvent {
    MpvIpcEvent::PropertyChange {
        id: OBSERVE_SPEED_ID,
        name: MpvIpcPropertyValue::Speed(double(factor)),
    }
}

fn time_command() -> MpvIpcCommand {
    MpvIpcCommand::GetProperty {
        request_id: TIMER_REQUEST_ID,
        property: MpvIpcProperty::TimePos,
    }
}

fn time_answer(seconds: f64) -> MpvIpcResponseOrEvent {
    MpvIpcResponseOrEvent::Response(MpvIpcResponse {
        request_id: TIMER_REQUEST_ID,
        error: MpvIpcErrorStatus::Success,
        data: Some(MpvIpcData::Number(double(seconds))),
    })
}

fn answer(request_id: u64, error: MpvIpcErrorStatus) -> MpvIpcResponseOrEvent {
    MpvIpcResponseOrEvent::Response(MpvIpcResponse { request_id, error, data: None })
}

/// A player that is observed, at a time when nothing is expected any more.
fn settled() -> Mpv {
    let (mut mpv, _) = Mpv::new(0);
    mpv.observe_pause(0);
    mpv
}

const LATER: u128 = 5_000 * MS;

#[test]
fn commands_are_written_as_lists() {
    let command = time_command();
    assert_eq!(command.get_request_id(), 3);
    let json = command.to_json_command();
    assert_eq!(json.command, [Json::Text("get_property"), Json::Text("time-pos")]);
    assert_eq!(json.request_id, 3);

    let command = MpvIpcCommand::SetProperty {
        request_id: 9,
        property: MpvIpcPropertyValue::Pause(true),
    };
    let json = command.to_json_command();
    assert_eq!(
        json.command,
        [Json::Text("set_property"), Json::Text("pause"), Json::Bool(true)]
    );
    assert_eq!(json.request_id, 9);

    let command = MpvIpcCommand::ObserveProperty {
        request_id: 4,
        id: 2,
        property: MpvIpcProperty::Speed,
    };
    let json = command.to_json_command();
    assert_eq!(
        json.command,
        [Json::Text("observe_property"), Json::Unsigned(2), Json::Text("speed")]
    );
    assert_eq!(command.get_request_id(), 4);
}

#[test]
fn properties_are_named() {
    assert_eq!(MpvIpcProperty::Pause.to_string(), "pause");
    assert_eq!(MpvIpcProperty::TimePos.to_string(), "time-pos");
    assert_eq!(MpvIpcProperty::Speed.to_string(), "speed");
    let value = MpvIpcPropertyValue::TimePos(double(1.5));
    assert_eq!(MpvIpcProperty::from(value), MpvIpcProperty::TimePos);
    assert_eq!(value.to_cmd_list(), [Json::Text("time-pos"), Json::Number(double(1.5))]);
    let value = MpvIpcPropertyValue::Speed(double(2.0));
    assert_eq!(value.to_cmd_list(), [Json::Text("speed"), Json::Number(double(2.0))]);
}

#[test]
fn statuses_count_as_outcomes() {
    assert_eq!(
        ExecutionResponse::from(MpvIpcErrorStatus::Success),
        ExecutionResponse::Success
    );
    assert_eq!(
        ExecutionResponse::from(MpvIpcErrorStatus::InvalidParameter),
        ExecutionResponse::Failed
    );
    assert_eq!(
        ExecutionResponse::from(MpvIpcErrorStatus::PropertyUnavailable),
        ExecutionResponse::Failed
    );
    let (success, failed) = (ExecutionResponse::Success, ExecutionResponse::Failed);
    assert_eq!(success.and(success), success);
    assert_eq!(success.and(failed), failed);
    assert_eq!(failed.and(success), failed);
    assert_eq!(failed.and(failed), failed);
}

#[test]
fn bundle_forgets_after_half_a_second() {
    let mut bundle = EventBundle { events: Vec::new() };
    bundle.push(MpvIpcEvent::Seek, 0);
    bundle.push(paused(true), 100 * MS);
    bundle.push(MpvIpcEvent::Seek, 200 * MS);
    assert!(!bundle.remove_if_contains(&paused(false), 499 * MS));
    assert_eq!(bundle.events.len(), 3);
    // The first seek is forgotten, the last one is not.
    assert!(bundle.remove_if_contains(&MpvIpcEvent::Seek, 500 * MS));
    assert_eq!(bundle.events.len(), 1);
    assert!(!bundle.remove_if_contains(&paused(true), 600 * MS));
    assert!(bundle.events.is_empty());
}

#[test]
fn bundle_entry_is_replaced_by_the_last() {
    let mut bundle = EventBundle { events: Vec::new() };
    bundle.push(MpvIpcEvent::Seek, 0);
    bundle.push(paused(true), 1);
    bundle.push(speed(2.0), 2);
    assert!(bundle.remove_if_contains(&MpvIpcEvent::Seek, 3));
    assert_eq!(bundle.events, [(speed(2.0), 2), (paused(true), 1)]);
}

#[test]
fn player_is_observed_from_the_start() {
    let (mut mpv, command) = Mpv::new(0);
    assert_eq!(
        command,
        MpvIpcCommand::ObserveProperty {
            request_id: 4,
            id: OBSERVE_SPEED_ID,
            property: MpvIpcProperty::Speed
        }
    );
    assert_eq!(
        mpv.observe_pause(0),
        MpvIpcCommand::ObserveProperty {
            request_id: 5,
            id: OBSERVE_PAUSE_ID,
            property: MpvIpcProperty::Pause
        }
    );
    // What the player reports at once is no change.
    let actions = mpv.process_mpv_response(MpvIpcResponseOrEvent::Event(speed(1.0)), MS);
    assert!(actions.is_empty());
    let actions = mpv.process_mpv_response(MpvIpcResponseOrEvent::Event(paused(false)), MS);
    assert!(actions.is_empty());
    let actions = mpv.process_mpv_response(MpvIpcResponseOrEvent::Event(speed(1.0)), MS);
    assert_eq!(actions, [MpvAction::Emit(MpvEvent::SpeedChange { factor: double(1.0) })]);
}

#[test]
fn users_change_is_reported_with_its_time() {
    let mut mpv = settled();
    for event in [paused(true), MpvIpcEvent::Seek, paused(false)] {
        let actions = mpv.process_mpv_response(MpvIpcResponseOrEvent::Event(event), LATER);
        assert_eq!(actions, [MpvAction::Send(time_command())]);
    }
    assert_eq!(mpv.request_time(77), time_command());
    let actions = mpv.process_mpv_response(time_answer(12.5), LATER);
    assert_eq!(
        actions,
        [
            MpvAction::Emit(MpvEvent::Pause { time: at(12.5) }),
            MpvAction::Emit(MpvEvent::Seek { time: at(12.5) }),
            MpvAction::Emit(MpvEvent::Resume { time: at(12.5) }),
            MpvAction::AnswerTime(77, at(12.5)),
        ]
    );
    assert!(mpv.process_mpv_response(time_answer(13.0), LATER).is_empty());
}

#[test]
fn speed_change_is_reported_at_once() {
    let mut mpv = settled();
    let actions = mpv.process_mpv_response(MpvIpcResponseOrEvent::Event(speed(0.5)), LATER);
    assert_eq!(actions, [MpvAction::Emit(MpvEvent::SpeedChange { factor: double(0.5) })]);
}

#[test]
fn other_events_mean_nothing() {
    let mut mpv = settled();
    let foreign = MpvIpcEvent::PropertyChange {
        id: OBSERVE_SPEED_ID,
        name: MpvIpcPropertyValue::Pause(true),
    };
    for event in
        [foreign, MpvIpcEvent::PlaybackRestart, MpvIpcEvent::Pause, MpvIpcEvent::Unpause]
    {
        let msg = MpvIpcResponseOrEvent::Event(event);
        assert!(mpv.process_mpv_response(msg, LATER).is_empty());
    }
}

#[test]
fn change_is_not_echoed() {
    let mut mpv = settled();
    let execution = mpv.try_execute_event(MpvEvent::Pause { time: at(8.0) }, LATER);
    assert_eq!(
        execution.command,
        MpvIpcCommand::SetProperty {
            request_id: 6,
            property: MpvIpcPropertyValue::Pause(true)
        }
    );
    let time = execution.seek_to.unwrap();
    assert!(time == at(8.0));
    assert_eq!(
        mpv.execute_seek(time, LATER),
        MpvIpcCommand::SetProperty {
            request_id: 7,
            property: MpvIpcPropertyValue::TimePos(double(8.0))
        }
    );
    for event in [MpvIpcEvent::Seek, paused(true)] {
        let msg = MpvIpcResponseOrEvent::Event(event);
        assert!(mpv.process_mpv_response(msg, LATER + 499 * MS).is_empty());
    }
    // The entries are used up: the next report is the user's.
    let msg = MpvIpcResponseOrEvent::Event(paused(true));
    assert_eq!(
        mpv.process_mpv_response(msg, LATER + 499 * MS),
        [MpvAction::Send(time_command())]
    );
}

#[test]
fn pause_with_seek_is_not_echoed() {
    for order in [[paused(false), MpvIpcEvent::Seek], [MpvIpcEvent::Seek, paused(false)]] {
        let mut mpv = settled();
        let execution = mpv.try_execute_event(MpvEvent::Resume { time: at(8.0) }, LATER);
        mpv.execute_seek(execution.seek_to.unwrap(), LATER + MS);
        for event in order {
            let msg = MpvIpcResponseOrEvent::Event(event);
            assert!(mpv.process_mpv_response(msg, LATER + 499 * MS).is_empty());
        }
    }
}

#[test]
fn stale_expectation_is_dropped() {
    let mut mpv = settled();
    let execution = mpv.try_execute_event(MpvEvent::Seek { time: at(8.0) }, LATER);
    assert!(execution.seek_to.is_none());
    let msg = MpvIpcResponseOrEvent::Event(MpvIpcEvent::Seek);
    assert_eq!(
        mpv.process_mpv_response(msg, LATER + 500 * MS),
        [MpvAction::Send(time_command())]
    );
}

#[test]
fn request_is_answered_once() {
    let mut mpv = settled();
    let execution = mpv.try_execute_event(
        MpvEvent::SpeedChange { factor: double(1.5) },
        LATER,
    );
    let id = execution.command.get_request_id();
    assert_eq!(
        mpv.process_mpv_response(answer(id, MpvIpcErrorStatus::PropertyUnavailable), LATER),
        [MpvAction::AnswerExecution(id, ExecutionResponse::Failed)]
    );
    assert!(mpv.process_mpv_response(answer(id, MpvIpcErrorStatus::Success), LATER).is_empty());

    let execution = mpv.try_execute_event(MpvEvent::Resume { time: at(1.0) }, LATER);
    let id = execution.command.get_request_id();
    assert_eq!(
        mpv.process_mpv_response(answer(id, MpvIpcErrorStatus::Success), LATER),
        [MpvAction::AnswerExecution(id, ExecutionResponse::Success)]
    );
}

#[test]
fn stray_answer_changes_nothing() {
    let mut mpv = settled();
    assert!(mpv.process_mpv_response(answer(99, MpvIpcErrorStatus::Success), LATER).is_empty());
    assert!(mpv.process_mpv_response(answer(1, MpvIpcErrorStatus::Success), LATER).is_empty());
    assert_eq!(mpv.state.next_request_id, 6);
}

#[test]
fn waiters_are_answered_in_turn() {
    let mut mpv = settled();
    mpv.request_time(5);
    mpv.request_time(3);
    assert_eq!(
        mpv.process_mpv_response(time_answer(2.0), LATER),
        [MpvAction::AnswerTime(5, at(2.0)), MpvAction::AnswerTime(3, at(2.0))]
    );
}

#[test]
fn event_is_paused_or_resumed() {
    assert_eq!(MpvEvent::new_paused(true, at(1.0)), MpvEvent::Pause { time: at(1.0) });
    assert_eq!(MpvEvent::new_paused(false, at(1.0)), MpvEvent::Resume { time: at(1.0) });
}

#[test]
fn failing_change_is_given_up() {
    let mut tries = Tries::new(10);
    for _ in 0..9 {
        assert_eq!(tries.after_response(ExecutionResponse::Failed), Verdict::TryAgain);
    }
    assert_eq!(tries.after_response(ExecutionResponse::Failed), Verdict::GiveUp);

    assert_eq!(Tries::new(1).after_response(ExecutionResponse::Failed), Verdict::GiveUp);
    assert_eq!(Tries::new(0).after_response(ExecutionResponse::Failed), Verdict::GiveUp);

    let mut tries = Tries::new(u32::MAX);
    assert_eq!(tries.after_response(ExecutionResponse::Failed), Verdict::TryAgain);
    assert_eq!(tries.after_response(ExecutionResponse::Success), Verdict::Done);
}

#[test]
fn request_numbers_never_repeat() {
    let (mut mpv, command) = Mpv::new(0);
    let mut numbers = vec![command.get_request_id(), mpv.observe_pause(0).get_request_id()];
    let execution = mpv.try_execute_event(MpvEvent::Pause { time: at(1.0) }, LATER);
    numbers.push(execution.command.get_request_id());
    mpv.request_time(0);
    numbers.push(mpv.execute_seek(at(1.0), LATER).get_request_id());
    mpv.process_mpv_response(time_answer(1.0), LATER);
    let execution = mpv.try_execute_event(MpvEvent::Seek { time: at(2.0) }, LATER);
    numbers.push(execution.command.get_request_id());
    numbers.push(mpv.new_request_id());
    numbers.push(mpv.new_request_id());
    assert_eq!(numbers, [4, 5, 6, 7, 8, 9, 10]);
}

#[test]
fn answer_is_not_taken_for_the_time() {
    let mut mpv = settled();
    mpv.request_time(9);
    assert_eq!(
        mpv.process_mpv_response(answer(4, MpvIpcErrorStatus::Success), LATER),
        [MpvAction::AnswerExecution(4, ExecutionResponse::Success)]
    );
    assert_eq!(mpv.state.time_requests, [9]);
}

#[test]
fn numbers_that_json_lacks_become_null() {
    for x in [f64::NAN, f64::INFINITY, f64::NEG_INFINITY] {
        let value = MpvIpcPropertyValue::TimePos(double(x));
        assert_eq!(value.to_cmd_list(), [Json::Text("time-pos"), Json::Null]);
        let property = MpvIpcPropertyValue::Speed(double(x));
        let json = MpvIpcCommand::SetProperty { request_id: 8, property }.to_json_command();
        assert_eq!(json.command, [Json::Text("set_property"), Json::Text("speed"), Json::Null]);
    }
    assert_eq!(Json::from_double(double(f64::MAX)), Json::Number(double(f64::MAX)));
}
