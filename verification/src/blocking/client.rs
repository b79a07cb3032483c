//! The blocking client's broker, between the player and the other clients.

use vstd::prelude::*;

use crate::blocking::mpv_data_model::{
    MpvCommand, MpvData, MpvEvent, MpvProperty, MpvPropertyValue, MpvResponse, MpvResponseOrEvent,
};
use crate::blocking::network_data_model::{ClientMessage, MessageKind};
use crate::double::Double;

verus! {

/// The request for the current time.
pub const TIMER_REQUEST_ID: u64 = 42;

/// The request to observe the speed.
pub const SPEED_CHANGE_REQUEST_ID: u64 = 43;

/// How long nothing must happen for the player to be asked for its time, in milliseconds.
pub const QUIET_MS: u64 = 2000;

/// Something that was done at the player.
#[derive(Debug, Clone, Copy, PartialEq, Eq, Structural)]
pub enum Command {
    Pause,
    Resume,
    Seek,
}

/// What the broker keeps in mind.
#[derive(Debug, Clone, Copy, PartialEq, Eq, Structural)]
pub struct BrokerResponseState {
    /// What the next time from the player belongs to.
    pub command_waiting_for_time: Option<Command>,
    /// The player reports a pause and its end twice.  With this the second report is told
    /// from a change.
    pub last_event: Option<Command>,
    /// The kind of message that the player was last made to follow.
    pub last_network_command: Option<MessageKind>,
}

impl Default for BrokerResponseState {
    fn default() -> (state: BrokerResponseState)
        ensures
            state == (BrokerResponseState {
                command_waiting_for_time: None,
                last_event: None,
                last_network_command: None,
            }),
    {
        BrokerResponseState {
            command_waiting_for_time: None,
            last_event: None,
            last_network_command: None,
        }
    }
}

/// What the broker has done.
#[derive(Debug, Clone, Copy)]
pub enum BrokerAction {
    /// Send the command to the player.
    ToMpv(MpvCommand),
    /// Send the message to the others.
    ToNetwork(ClientMessage),
}

/// The command that asks for the current time.
pub open spec fn time_request() -> MpvCommand {
    MpvCommand::GetProperty { property: MpvProperty::TimePos, request_id: TIMER_REQUEST_ID }
}

/// Asks the player for the current time.
pub fn request_time_pos() -> (cmd: MpvCommand)
    ensures
        cmd == time_request(),
{
    MpvCommand::GetProperty { property: MpvProperty::TimePos, request_id: TIMER_REQUEST_ID }
}

/// Makes the player report changes of its speed.
pub fn observe_speed() -> (cmd: MpvCommand)
    ensures
        cmd == (MpvCommand::ObserveProperty {
            request_id: SPEED_CHANGE_REQUEST_ID,
            id: 1,
            property: MpvProperty::Speed,
        }),
{
    MpvCommand::ObserveProperty {
        request_id: SPEED_CHANGE_REQUEST_ID,
        id: 1,
        property: MpvProperty::Speed,
    }
}

/// The message for a time, by what waits for it.
pub open spec fn timed_message(waiting: Option<Command>, time: Double) -> ClientMessage {
    match waiting {
        Some(Command::Pause) => ClientMessage::Pause { time },
        Some(Command::Resume) => ClientMessage::Resume { time },
        Some(Command::Seek) => ClientMessage::Seek { time },
        None => ClientMessage::Timestamp { time },
    }
}

/// The answer to the request for the time brings it.
pub open spec fn timely(event: MpvResponseOrEvent) -> bool {
    match event {
        MpvResponseOrEvent::Response(response) => response.request_id == TIMER_REQUEST_ID
            ==> response.data matches Some(MpvData::Number(_)),
        MpvResponseOrEvent::Event(_) => true,
    }
}

/// The state after something is done at the player whose time is asked for.
pub open spec fn awaiting(pre: BrokerResponseState, command: Command) -> BrokerResponseState {
    BrokerResponseState { command_waiting_for_time: Some(command), ..pre }
}

/// The state after a line from the player, and what is done about it.
pub open spec fn heard(pre: BrokerResponseState, event: MpvResponseOrEvent) -> (
    BrokerResponseState,
    Seq<BrokerAction>,
) {
    match event {
        MpvResponseOrEvent::Response(response) => match response.data {
            Some(MpvData::Number(time)) if response.request_id == TIMER_REQUEST_ID => (
                BrokerResponseState { command_waiting_for_time: None, ..pre },
                seq![
                    BrokerAction::ToNetwork(timed_message(pre.command_waiting_for_time, time)),
                ],
            ),
            _ => (pre, seq![]),
        },
        MpvResponseOrEvent::Event(
            MpvEvent::PropertyChange { name: MpvPropertyValue::Speed(factor), .. },
        ) => (pre, seq![BrokerAction::ToNetwork(ClientMessage::SpeedChange { factor })]),
        MpvResponseOrEvent::Event(MpvEvent::Pause) => if pre.last_event == Some(Command::Pause) {
            (pre, seq![])
        } else {
            (
                BrokerResponseState {
                    last_event: Some(Command::Pause),
                    ..awaiting(pre, Command::Pause)
                },
                seq![BrokerAction::ToMpv(time_request())],
            )
        },
        MpvResponseOrEvent::Event(MpvEvent::Unpause) => if pre.last_event == Some(
            Command::Resume,
        ) {
            (pre, seq![])
        } else {
            (
                BrokerResponseState {
                    last_event: Some(Command::Resume),
                    ..awaiting(pre, Command::Resume)
                },
                seq![BrokerAction::ToMpv(time_request())],
            )
        },
        MpvResponseOrEvent::Event(MpvEvent::Seek) => if pre.last_network_command == Some(
            MessageKind::Seek,
        ) {
            (BrokerResponseState { last_network_command: None, ..pre }, seq![])
        } else {
            (awaiting(pre, Command::Seek), seq![BrokerAction::ToMpv(time_request())])
        },
        _ => (pre, seq![]),
    }
}

/// Deals with a line from the player.  The actions are to be done in this order.
pub fn broker_handle_mpv_event(
    event: MpvResponseOrEvent,
    response_state: &mut BrokerResponseState,
) -> (actions: Vec<BrokerAction>)
    requires
        timely(event),
    ensures
        (*final(response_state), actions@) == heard(*old(response_state), event),
{
    let mut actions: Vec<BrokerAction> = Vec::new();
    match event {
        MpvResponseOrEvent::Response(MpvResponse { request_id, data, .. }) => {
            if request_id == TIMER_REQUEST_ID {
                if let Some(MpvData::Number(time)) = data {
                    let payload = match response_state.command_waiting_for_time {
                        Some(Command::Pause) => ClientMessage::Pause { time },
                        Some(Command::Resume) => ClientMessage::Resume { time },
                        Some(Command::Seek) => ClientMessage::Seek { time },
                        None => ClientMessage::Timestamp { time },
                    };
                    response_state.command_waiting_for_time = None;
                    actions.push(BrokerAction::ToNetwork(payload));
                }
            }
        },
        MpvResponseOrEvent::Event(
            MpvEvent::PropertyChange { name: MpvPropertyValue::Speed(factor), .. },
        ) => {
            actions.push(BrokerAction::ToNetwork(ClientMessage::SpeedChange { factor }));
        },
        MpvResponseOrEvent::Event(MpvEvent::Pause) => {
            if let Some(Command::Pause) = response_state.last_event {
                return actions;
            }
            response_state.last_event = Some(Command::Pause);
            response_state.command_waiting_for_time = Some(Command::Pause);
            actions.push(BrokerAction::ToMpv(request_time_pos()));
        },
        MpvResponseOrEvent::Event(MpvEvent::Unpause) => {
            if let Some(Command::Resume) = response_state.last_event {
                return actions;
            }
            response_state.last_event = Some(Command::Resume);
            response_state.command_waiting_for_time = Some(Command::Resume);
            actions.push(BrokerAction::ToMpv(request_time_pos()));
        },
        MpvResponseOrEvent::Event(MpvEvent::Seek) => {
            if let Some(kind) = response_state.last_network_command {
                if kind == MessageKind::Seek {
                    response_state.last_network_command = None;
                    return actions;
                }
            }
            response_state.command_waiting_for_time = Some(Command::Seek);
            actions.push(BrokerAction::ToMpv(request_time_pos()));
        },
        _ => {},
    }
    actions
}

/// The command that sets a property.
pub open spec fn setting(property: MpvPropertyValue) -> MpvCommand {
    MpvCommand::SetProperty { request_id: 1, property }
}

/// The state after a message of the others, and the commands with which the player follows
/// it; a mere timestamp is passed over.
pub open spec fn obeyed(pre: BrokerResponseState, event: ClientMessage) -> (
    BrokerResponseState,
    Seq<MpvCommand>,
) {
    let post = BrokerResponseState { last_network_command: Some(event.of_kind()), ..pre };
    match event {
        ClientMessage::Pause { time } => (
            post,
            seq![setting(MpvPropertyValue::Pause(true)), setting(MpvPropertyValue::TimePos(time))],
        ),
        ClientMessage::Resume { time } => (
            post,
            seq![setting(MpvPropertyValue::Pause(false)), setting(MpvPropertyValue::TimePos(time))],
        ),
        ClientMessage::Seek { time } => (post, seq![setting(MpvPropertyValue::TimePos(time))]),
        ClientMessage::SpeedChange { factor } => (
            post,
            seq![setting(MpvPropertyValue::Speed(factor))],
        ),
        ClientMessage::Timestamp { .. } => (pre, seq![]),
    }
}

/// Deals with a message of the others.  The commands are for the player, in this order.
pub fn broker_handle_network_event(
    event: ClientMessage,
    response_state: &mut BrokerResponseState,
) -> (commands: Vec<MpvCommand>)
    ensures
        (*final(response_state), commands@) == obeyed(*old(response_state), event),
{
    let mut commands: Vec<MpvCommand> = Vec::new();
    let (action, time): (Option<MpvPropertyValue>, Option<Double>) = match event {
        ClientMessage::Pause { time } => (Some(MpvPropertyValue::Pause(true)), Some(time)),
        ClientMessage::Resume { time } => (Some(MpvPropertyValue::Pause(false)), Some(time)),
        ClientMessage::Seek { time } => (None, Some(time)),
        ClientMessage::SpeedChange { factor } => (Some(MpvPropertyValue::Speed(factor)), None),
        ClientMessage::Timestamp { .. } => {
            return commands;
        },
    };
    response_state.last_network_command = Some(event.kind());
    if let Some(property) = action {
        commands.push(MpvCommand::SetProperty { request_id: 1, property });
    }
    if let Some(time) = time {
        let property = MpvPropertyValue::TimePos(time);
        commands.push(MpvCommand::SetProperty { request_id: 1, property });
    }
    assert(commands@ =~= obeyed(*old(response_state), event).1);
    commands
}

/// What happens at the broker.
#[derive(Debug, Clone, Copy)]
pub enum BrokerEvent {
    /// A line from the player.
    Mpv(MpvResponseOrEvent),
    /// A message of the others.
    Network(ClientMessage),
    /// Nothing has happened for [`QUIET_MS`].
    Quiet,
}

/// The state after an event, and what is done about it.
pub open spec fn brokered(pre: BrokerResponseState, event: BrokerEvent) -> (
    BrokerResponseState,
    Seq<BrokerAction>,
) {
    match event {
        BrokerEvent::Mpv(line) => heard(pre, line),
        BrokerEvent::Network(message) => {
            let (post, commands) = obeyed(pre, message);
            (post, commands.map_values(|command: MpvCommand| BrokerAction::ToMpv(command)))
        },
        BrokerEvent::Quiet => (pre, seq![BrokerAction::ToMpv(time_request())]),
    }
}

/// Deals with an event.  The actions are to be done in this order.
pub fn broker_step(event: BrokerEvent, response_state: &mut BrokerResponseState) -> (actions: Vec<
    BrokerAction,
>)
    requires
        event matches BrokerEvent::Mpv(line) ==> timely(line),
    ensures
        (*final(response_state), actions@) == brokered(*old(response_state), event),
{
    match event {
        BrokerEvent::Mpv(line) => broker_handle_mpv_event(line, response_state),
        BrokerEvent::Network(message) => {
            let commands = broker_handle_network_event(message, response_state);
            let ghost all = commands@.map_values(
                |command: MpvCommand| BrokerAction::ToMpv(command),
            );
            let mut actions: Vec<BrokerAction> = Vec::new();
            let mut i: usize = 0;
            while i < commands.len()
                invariant
                    i <= commands@.len(),
                    all == commands@.map_values(|command: MpvCommand| BrokerAction::ToMpv(command)),
                    actions@ == all.take(i as int),
                decreases commands@.len() - i,
            {
                actions.push(BrokerAction::ToMpv(commands[i]));
                assert(actions@ =~= all.take(i + 1));
                i = i + 1;
            }
            assert(all.take(i as int) =~= all);
            actions
        },
        BrokerEvent::Quiet => {
            let mut actions: Vec<BrokerAction> = Vec::new();
            actions.push(BrokerAction::ToMpv(request_time_pos()));
            actions
        },
    }
}

/// A pause that the player reports twice is passed on once; so is its end.
pub proof fn law_repeated_report_is_passed_over(pre: BrokerResponseState)
    ensures
        ({
            let pause = MpvResponseOrEvent::Event(MpvEvent::Pause);
            let once = heard(pre, pause).0;
            heard(once, pause) == (once, Seq::<BrokerAction>::empty())
        }),
        ({
            let unpause = MpvResponseOrEvent::Event(MpvEvent::Unpause);
            let once = heard(pre, unpause).0;
            heard(once, unpause) == (once, Seq::<BrokerAction>::empty())
        }),
{
}

/// A pause after an end of a pause is passed on, and the other way round.
pub proof fn law_alternating_reports_are_passed_on(pre: BrokerResponseState)
    ensures
        ({
            let mid = heard(pre, MpvResponseOrEvent::Event(MpvEvent::Unpause)).0;
            let (post, actions) = heard(mid, MpvResponseOrEvent::Event(MpvEvent::Pause));
            &&& actions == seq![BrokerAction::ToMpv(time_request())]
            &&& post.command_waiting_for_time == Some(Command::Pause)
        }),
        ({
            let mid = heard(pre, MpvResponseOrEvent::Event(MpvEvent::Pause)).0;
            let (post, actions) = heard(mid, MpvResponseOrEvent::Event(MpvEvent::Unpause));
            &&& actions == seq![BrokerAction::ToMpv(time_request())]
            &&& post.command_waiting_for_time == Some(Command::Resume)
        }),
{
}

/// A seek that comes from the others is not sent back to them; the user's next one is sent.
pub proof fn law_seek_is_not_sent_back(pre: BrokerResponseState, time: Double)
    ensures
        ({
            let seek = MpvResponseOrEvent::Event(MpvEvent::Seek);
            let told = obeyed(pre, ClientMessage::Seek { time }).0;
            let (echoed, nothing) = heard(told, seek);
            &&& nothing.len() == 0
            &&& echoed.command_waiting_for_time == pre.command_waiting_for_time
            &&& heard(echoed, seek).1 == seq![BrokerAction::ToMpv(time_request())]
        }),
{
}

/// What is done at the player is sent with the time that the player gives next, and the time
/// after that is a mere timestamp.
pub proof fn law_change_is_sent_with_its_time(
    pre: BrokerResponseState,
    event: MpvEvent,
    command: Command,
    response: MpvResponse,
    time: Double,
)
    requires
        heard(pre, MpvResponseOrEvent::Event(event)).0.command_waiting_for_time == Some(command),
        response.request_id == TIMER_REQUEST_ID,
        response.data == Some(MpvData::Number(time)),
    ensures
        ({
            let mid = heard(pre, MpvResponseOrEvent::Event(event)).0;
            let (post, sent) = heard(mid, MpvResponseOrEvent::Response(response));
            &&& sent == seq![BrokerAction::ToNetwork(timed_message(Some(command), time))]
            &&& heard(post, MpvResponseOrEvent::Response(response)).1 == seq![
                BrokerAction::ToNetwork(ClientMessage::Timestamp { time }),
            ]
        }),
{
}

/// The time that the player tells is sent as what waits for it, or else as a timestamp, and
/// nothing waits for it afterwards; nothing else is forgotten.
pub proof fn law_time_is_sent_as_what_waits_for_it(
    pre: BrokerResponseState,
    response: MpvResponse,
    time: Double,
)
    requires
        response.request_id == 42,
        response.data == Some(MpvData::Number(time)),
    ensures
        ({
            let (post, actions) = brokered(
                pre,
                BrokerEvent::Mpv(MpvResponseOrEvent::Response(response)),
            );
            &&& actions.len() == 1
            &&& pre.command_waiting_for_time == Some(Command::Pause) ==> actions[0]
                == BrokerAction::ToNetwork(ClientMessage::Pause { time })
            &&& pre.command_waiting_for_time == Some(Command::Resume) ==> actions[0]
                == BrokerAction::ToNetwork(ClientMessage::Resume { time })
            &&& pre.command_waiting_for_time == Some(Command::Seek) ==> actions[0]
                == BrokerAction::ToNetwork(ClientMessage::Seek { time })
            &&& pre.command_waiting_for_time is None ==> actions[0] == BrokerAction::ToNetwork(
                ClientMessage::Timestamp { time },
            )
            &&& post.command_waiting_for_time is None
            &&& post.last_event == pre.last_event
            &&& post.last_network_command == pre.last_network_command
        }),
{
}

/// An answer to any other request changes nothing and is not passed on.
pub proof fn law_other_answers_are_passed_over(pre: BrokerResponseState, response: MpvResponse)
    requires
        response.request_id != 42,
    ensures
        brokered(pre, BrokerEvent::Mpv(MpvResponseOrEvent::Response(response))) == (pre, Seq::<
            BrokerAction,
        >::empty()),
{
}

/// What is done at the player is dealt with as what it is: a change of the speed is sent at
/// once; for a pause, its end and a seek the time is asked for and waited for, unless the pause
/// or its end was reported before, or the others have caused the seek; nothing comes of any
/// other event.
pub proof fn law_events_are_dealt_with_as_they_are(pre: BrokerResponseState, event: MpvEvent)
    ensures
        ({
            let (post, actions) = brokered(
                pre,
                BrokerEvent::Mpv(MpvResponseOrEvent::Event(event)),
            );
            let ask = seq![
                BrokerAction::ToMpv(
                    MpvCommand::GetProperty { request_id: 42, property: MpvProperty::TimePos },
                ),
            ];
            match event {
                MpvEvent::PropertyChange { name: MpvPropertyValue::Speed(factor), .. } => {
                    post == pre && actions == seq![
                        BrokerAction::ToNetwork(ClientMessage::SpeedChange { factor }),
                    ]
                },
                MpvEvent::Pause => if pre.last_event == Some(Command::Pause) {
                    post == pre && actions.len() == 0
                } else {
                    &&& actions == ask
                    &&& post.command_waiting_for_time == Some(Command::Pause)
                    &&& post.last_event == Some(Command::Pause)
                    &&& post.last_network_command == pre.last_network_command
                },
                MpvEvent::Unpause => if pre.last_event == Some(Command::Resume) {
                    post == pre && actions.len() == 0
                } else {
                    &&& actions == ask
                    &&& post.command_waiting_for_time == Some(Command::Resume)
                    &&& post.last_event == Some(Command::Resume)
                    &&& post.last_network_command == pre.last_network_command
                },
                MpvEvent::Seek => {
                    &&& post.last_event == pre.last_event
                    &&& pre.last_network_command == Some(MessageKind::Seek) ==> actions.len() == 0
                        && post.last_network_command is None && post.command_waiting_for_time
                        == pre.command_waiting_for_time
                    &&& pre.last_network_command != Some(MessageKind::Seek) ==> actions == ask
                        && post.last_network_command == pre.last_network_command
                        && post.command_waiting_for_time == Some(Command::Seek)
                },
                _ => post == pre && actions.len() == 0,
            }
        }),
{
}

/// A message of the others sets the player to what it says: first the pause, its end or the
/// speed, and then the time where it holds one.  It is noted what kind it was.
pub proof fn law_message_sets_the_player(pre: BrokerResponseState, message: ClientMessage)
    ensures
        ({
            let (post, actions) = brokered(pre, BrokerEvent::Network(message));
            &&& post.command_waiting_for_time == pre.command_waiting_for_time
            &&& post.last_event == pre.last_event
            &&& match message {
                ClientMessage::Pause { time } => {
                    &&& actions == seq![
                        BrokerAction::ToMpv(
                            MpvCommand::SetProperty {
                                request_id: 1,
                                property: MpvPropertyValue::Pause(true),
                            },
                        ),
                        BrokerAction::ToMpv(
                            MpvCommand::SetProperty {
                                request_id: 1,
                                property: MpvPropertyValue::TimePos(time),
                            },
                        ),
                    ]
                    &&& post.last_network_command == Some(MessageKind::Pause)
                },
                ClientMessage::Resume { time } => {
                    &&& actions == seq![
                        BrokerAction::ToMpv(
                            MpvCommand::SetProperty {
                                request_id: 1,
                                property: MpvPropertyValue::Pause(false),
                            },
                        ),
                        BrokerAction::ToMpv(
                            MpvCommand::SetProperty {
                                request_id: 1,
                                property: MpvPropertyValue::TimePos(time),
                            },
                        ),
                    ]
                    &&& post.last_network_command == Some(MessageKind::Resume)
                },
                ClientMessage::Seek { time } => {
                    &&& actions == seq![
                        BrokerAction::ToMpv(
                            MpvCommand::SetProperty {
                                request_id: 1,
                                property: MpvPropertyValue::TimePos(time),
                            },
                        ),
                    ]
                    &&& post.last_network_command == Some(MessageKind::Seek)
                },
                ClientMessage::SpeedChange { factor } => {
                    &&& actions == seq![
                        BrokerAction::ToMpv(
                            MpvCommand::SetProperty {
                                request_id: 1,
                                property: MpvPropertyValue::Speed(factor),
                            },
                        ),
                    ]
                    &&& post.last_network_command == Some(MessageKind::SpeedChange)
                },
                ClientMessage::Timestamp { .. } => post == pre && actions.len() == 0,
            }
        }),
{
    let (post, actions) = brokered(pre, BrokerEvent::Network(message));
    let commands = obeyed(pre, message).1;
    assert(actions.len() == commands.len());
    assert forall|k: int| 0 <= k < commands.len() implies actions[k] == BrokerAction::ToMpv(
        commands[k],
    ) by {}
}

/// The broker's step is that of the two parts that it has: lines of the player are dealt with
/// by the one, and messages of the others by the other.
pub proof fn law_step_is_that_of_its_parts(
    pre: BrokerResponseState,
    line: MpvResponseOrEvent,
    message: ClientMessage,
)
    ensures
        brokered(pre, BrokerEvent::Mpv(line)) == heard(pre, line),
        brokered(pre, BrokerEvent::Network(message)).0 == obeyed(pre, message).0,
        brokered(pre, BrokerEvent::Network(message)).1.len() == obeyed(pre, message).1.len(),
        forall|k: int|
            0 <= k < obeyed(pre, message).1.len() ==> #[trigger] brokered(
                pre,
                BrokerEvent::Network(message),
            ).1[k] == BrokerAction::ToMpv(obeyed(pre, message).1[k]),
        brokered(pre, BrokerEvent::Quiet) == (
            pre,
            seq![
                BrokerAction::ToMpv(
                    MpvCommand::GetProperty { request_id: 42, property: MpvProperty::TimePos },
                ),
            ],
        ),
{
}

/// The player is asked for its time, and made to report its speed, by these commands.
pub proof fn law_fixed_commands(ask: MpvCommand, observe: MpvCommand)
    requires
        call_ensures(request_time_pos, (), ask),
        call_ensures(observe_speed, (), observe),
    ensures
        ask == (MpvCommand::GetProperty { request_id: 42, property: MpvProperty::TimePos }),
        observe == (MpvCommand::ObserveProperty {
            request_id: 43,
            id: 1,
            property: MpvProperty::Speed,
        }),
{
}

/// An event takes the broker by the step that belongs to it; so do the lines and the messages
/// that are dealt with on their own.
pub proof fn law_event_takes_its_step(
    event: BrokerEvent,
    line: MpvResponseOrEvent,
    message: ClientMessage,
    actions: Vec<BrokerAction>,
    commands: Vec<MpvCommand>,
)
    ensures
        forall|state: &mut BrokerResponseState| #[trigger]
            call_ensures(broker_step, (event, state), actions) ==> (*final(state), actions@)
                == brokered(*state, event),
        forall|state: &mut BrokerResponseState| #[trigger]
            call_ensures(broker_handle_mpv_event, (line, state), actions) ==> (
                *final(state),
                actions@,
            ) == brokered(*state, BrokerEvent::Mpv(line)),
        forall|state: &mut BrokerResponseState| #[trigger]
            call_ensures(broker_handle_network_event, (message, state), commands) ==> (
                *final(state),
                commands@.map_values(|command: MpvCommand| BrokerAction::ToMpv(command)),
            ) == brokered(*state, BrokerEvent::Network(message)),
{
}

/// Every event is dealt with, but for an answer to the request for the time that brings none.
/// The time is asked for after two seconds in which nothing has happened.
pub proof fn law_every_event_is_dealt_with(event: BrokerEvent)
    requires
        event matches BrokerEvent::Mpv(MpvResponseOrEvent::Response(response))
            ==> response.request_id == 42 ==> response.data matches Some(MpvData::Number(_)),
    ensures
        forall|state: &mut BrokerResponseState| #[trigger]
            call_requires(broker_step, (event, state)),
        QUIET_MS == 2000,
{
}

} // verus!
