//! The conversation with one mpv player over its IPC socket.

use std::collections::HashSet;

use vstd::prelude::*;

use crate::client::ipc_data_model::{
    MpvIpcCommand, MpvIpcData, MpvIpcErrorStatus, MpvIpcEvent, MpvIpcProperty, MpvIpcPropertyValue,
    MpvIpcResponse, MpvIpcResponseOrEvent,
};
use crate::double::Double;
use crate::time::Time;

verus! {

/// The request that asks for the current time.
pub const TIMER_REQUEST_ID: u64 = 3;

/// The observation of the pause.
pub const OBSERVE_PAUSE_ID: u64 = 1;

/// The observation of the speed.
pub const OBSERVE_SPEED_ID: u64 = 2;

/// How long an expected event is waited for, in nanoseconds: half a second.
pub const EXPECTED_FOR: u128 = 500_000_000;

/// Events that are expected, each with the time since when (nanoseconds on the client's
/// clock).
#[derive(Debug)]
pub struct EventBundle {
    pub events: Vec<(MpvIpcEvent, u128)>,
}

/// Whether an event is still waited for at `now`.
pub open spec fn fresh(entry: (MpvIpcEvent, u128), now: u128) -> bool {
    now - entry.1 < EXPECTED_FOR
}

/// The events that are still waited for at `now`.
pub open spec fn kept(events: Seq<(MpvIpcEvent, u128)>, now: u128) -> Seq<(MpvIpcEvent, u128)> {
    events.filter(|entry: (MpvIpcEvent, u128)| fresh(entry, now))
}

/// Where the event stands first from `from` on; the length if it does not.
pub open spec fn first(events: Seq<(MpvIpcEvent, u128)>, event: MpvIpcEvent, from: int) -> int
    decreases events.len() - from,
{
    if from >= events.len() {
        events.len() as int
    } else if events[from].0.same(event) {
        from
    } else {
        first(events, event, from + 1)
    }
}

/// Whether the event is waited for at `now`.
pub open spec fn expects(
    events: Seq<(MpvIpcEvent, u128)>,
    event: MpvIpcEvent,
    now: u128,
) -> bool {
    first(kept(events, now), event, 0) < kept(events, now).len()
}

/// The bundle once the event has been looked for at `now`: what is no longer waited for is
/// gone, and so is the event's first entry, whose place the last entry takes.
pub open spec fn looked_for(
    events: Seq<(MpvIpcEvent, u128)>,
    event: MpvIpcEvent,
    now: u128,
) -> Seq<(MpvIpcEvent, u128)> {
    let left = kept(events, now);
    if expects(events, event, now) {
        left.update(first(left, event, 0), left.last()).drop_last()
    } else {
        left
    }
}

impl EventBundle {
    /// An event is expected from `now` on.
    pub fn push(&mut self, event: MpvIpcEvent, now: u128)
        ensures
            final(self).events@ == old(self).events@.push((event, now)),
    {
        self.events.push((event, now));
    }

    /// Takes the event out, if it is expected at `now`, and tells whether it was.
    pub fn remove_if_contains(&mut self, event: &MpvIpcEvent, now: u128) -> (expected: bool)
        ensures
            expected == expects(old(self).events@, *event, now),
            final(self).events@ == looked_for(old(self).events@, *event, now),
    {
        let mut left: Vec<(MpvIpcEvent, u128)> = Vec::new();
        let mut i: usize = 0;
        let ghost pred = |entry: (MpvIpcEvent, u128)| fresh(entry, now);
        proof {
            reveal(Seq::filter);
        }
        while i < self.events.len()
            invariant
                i <= self.events@.len(),
                self.events@ == old(self).events@,
                pred == (|entry: (MpvIpcEvent, u128)| fresh(entry, now)),
                left@ == self.events@.take(i as int).filter(pred),
            decreases self.events@.len() - i,
        {
            let (e, since) = self.events[i];
            proof {
                reveal(Seq::filter);
                assert(self.events@.take(i + 1).drop_last() =~= self.events@.take(i as int));
                assert(self.events@.take(i + 1).last() == self.events@[i as int]);
            }
            if now < since || now - since < EXPECTED_FOR {
                left.push((e, since));
            }
            i = i + 1;
        }
        assert(self.events@.take(i as int) =~= self.events@);
        let mut idx: usize = 0;
        while idx < left.len()
            invariant
                idx <= left@.len(),
                left@ == kept(old(self).events@, now),
                first(left@, *event, 0) == first(left@, *event, idx as int),
            decreases left@.len() - idx,
        {
            if left[idx].0 == *event {
                left.swap_remove(idx);
                self.events = left;
                return true;
            }
            idx = idx + 1;
        }
        self.events = left;
        false
    }
}

/// An event that was seen at the player, and whose time is still asked for.
#[derive(Debug, Clone, Copy, PartialEq, Eq, Structural)]
pub enum TimedEvent {
    Pause,
    Resume,
    Seek,
}

impl TimedEvent {
    /// The event once its time is known.
    pub open spec fn at(self, time: Time) -> MpvEvent {
        match self {
            TimedEvent::Pause => MpvEvent::Pause { time },
            TimedEvent::Resume => MpvEvent::Resume { time },
            TimedEvent::Seek => MpvEvent::Seek { time },
        }
    }

    fn with_time(self, time: Time) -> (event: MpvEvent)
        ensures
            event == self.at(time),
    {
        match self {
            TimedEvent::Pause => MpvEvent::Pause { time },
            TimedEvent::Resume => MpvEvent::Resume { time },
            TimedEvent::Seek => MpvEvent::Seek { time },
        }
    }
}

/// A change of the player, made by its user or asked of it.
#[derive(Debug, Clone, Copy, PartialEq)]
pub enum MpvEvent {
    Pause { time: Time },
    Resume { time: Time },
    Seek { time: Time },
    SpeedChange { factor: Double },
}

impl MpvEvent {
    /// The pause or the resumption at a time.
    pub fn new_paused(pause: bool, time: Time) -> (event: MpvEvent)
        ensures
            event == (if pause {
                MpvEvent::Pause { time }
            } else {
                MpvEvent::Resume { time }
            }),
    {
        if pause {
            MpvEvent::Pause { time }
        } else {
            MpvEvent::Resume { time }
        }
    }
}

/// How the player has taken a change.
#[must_use]
#[derive(Debug, Clone, Copy, PartialEq, Eq, Structural)]
pub enum ExecutionResponse {
    Success,
    Failed,
}

impl ExecutionResponse {
    /// Two changes are taken well only if both are.
    pub fn and(self, other: ExecutionResponse) -> (both: ExecutionResponse)
        ensures
            both == ExecutionResponse::Success <==> self == ExecutionResponse::Success && other
                == ExecutionResponse::Success,
    {
        match (self, other) {
            (ExecutionResponse::Success, ExecutionResponse::Success) => ExecutionResponse::Success,
            _ => ExecutionResponse::Failed,
        }
    }
}

impl From<MpvIpcErrorStatus> for ExecutionResponse {
    fn from(e: MpvIpcErrorStatus) -> (response: ExecutionResponse) {
        match e {
            MpvIpcErrorStatus::Success => ExecutionResponse::Success,
            MpvIpcErrorStatus::InvalidParameter => ExecutionResponse::Failed,
            MpvIpcErrorStatus::PropertyUnavailable => ExecutionResponse::Failed,
        }
    }
}

impl vstd::std_specs::convert::FromSpecImpl<MpvIpcErrorStatus> for ExecutionResponse {
    open spec fn obeys_from_spec() -> bool {
        true
    }

    open spec fn from_spec(e: MpvIpcErrorStatus) -> ExecutionResponse {
        if e == MpvIpcErrorStatus::Success {
            ExecutionResponse::Success
        } else {
            ExecutionResponse::Failed
        }
    }
}

/// What the client keeps of the conversation.
#[derive(Debug)]
pub struct MpvState {
    /// Expected events that are to be ignored, because commands of the client cause them.
    pub events_to_be_ignored: EventBundle,
    /// The numbers of the requests whose answers are expected.
    pub expected_responses: HashSet<u64>,
    /// Events that still require the current time to be sent.
    pub required_time: Vec<TimedEvent>,
    /// Who waits for the current time.
    pub time_requests: Vec<u64>,
    /// The numbers of the requests whose outcome somebody waits for.
    pub execution_requests: HashSet<u64>,
    pub next_request_id: u64,
}

/// The same, as a value.
#[verifier::ext_equal]
pub struct MpvStateView {
    pub ignored: Seq<(MpvIpcEvent, u128)>,
    pub expected: Set<u64>,
    pub required: Seq<TimedEvent>,
    pub waiting: Seq<u64>,
    pub executions: Set<u64>,
    pub next: u64,
}

impl View for MpvState {
    type V = MpvStateView;

    open spec fn view(&self) -> MpvStateView {
        MpvStateView {
            ignored: self.events_to_be_ignored.events@,
            expected: self.expected_responses@,
            required: self.required_time@,
            waiting: self.time_requests@,
            executions: self.execution_requests@,
            next: self.next_request_id,
        }
    }
}

impl MpvStateView {
    /// Answers are expected to requests that were made, and to no others; the request for
    /// the time is not among them.
    pub open spec fn well_formed(self) -> bool {
        &&& self.next > TIMER_REQUEST_ID
        &&& forall|id: u64| #[trigger]
            self.expected.contains(id) ==> TIMER_REQUEST_ID < id < self.next
        &&& self.expected == self.executions.remove(TIMER_REQUEST_ID)
    }

    /// The state before anything was said.
    pub open spec fn initial() -> MpvStateView {
        MpvStateView {
            ignored: Seq::empty(),
            expected: Set::empty(),
            required: Seq::empty(),
            waiting: Seq::empty(),
            executions: Set::empty(),
            next: 4,
        }
    }

    /// The state once a command has been given to the player.
    pub open spec fn sent(self, command: MpvIpcCommand) -> MpvStateView {
        MpvStateView {
            expected: if command.request() != TIMER_REQUEST_ID {
                self.expected.insert(command.request())
            } else {
                self.expected
            },
            executions: self.executions.insert(command.request()),
            ..self
        }
    }

    /// The state once the next request number has been taken.
    pub open spec fn numbered(self) -> MpvStateView {
        MpvStateView { next: (self.next + 1) as u64, ..self }
    }

    /// The state in which an event is expected from `now` on.
    pub open spec fn ignoring(self, event: MpvIpcEvent, now: u128) -> MpvStateView {
        MpvStateView { ignored: self.ignored.push((event, now)), ..self }
    }

    /// The state in which an event waits for its time.
    pub open spec fn requiring(self, event: TimedEvent) -> MpvStateView {
        MpvStateView { required: self.required.push(event), ..self }
    }
}

impl Default for MpvState {
    fn default() -> (state: MpvState)
        ensures
            state@ == MpvStateView::initial(),
            state@.well_formed(),
    {
        let state = MpvState {
            events_to_be_ignored: EventBundle { events: Vec::new() },
            expected_responses: HashSet::new(),
            required_time: Vec::new(),
            time_requests: Vec::new(),
            execution_requests: HashSet::new(),
            next_request_id: TIMER_REQUEST_ID + 1,
        };
        assert(state@.expected =~= state@.executions.remove(TIMER_REQUEST_ID));
        assert(state@ =~= MpvStateView::initial());
        state
    }
}

/// What is to be done for the conversation to go on.
#[derive(Debug, Clone, Copy, PartialEq)]
pub enum MpvAction {
    /// Send the command to the player.
    Send(MpvIpcCommand),
    /// Report a change that the user has made.
    Emit(MpvEvent),
    /// Give the current time to one who waits for it.
    AnswerTime(u64, Time),
    /// Give the outcome of a request to the one who waits for it.
    AnswerExecution(u64, ExecutionResponse),
}

/// The command that asks for the current time.
pub open spec fn time_command() -> MpvIpcCommand {
    MpvIpcCommand::GetProperty { request_id: TIMER_REQUEST_ID, property: MpvIpcProperty::TimePos }
}

/// What an event that was not expected calls for.
pub enum Reaction {
    /// The event is reported once its time is known.
    Ask(TimedEvent),
    /// The event is reported at once.
    Report(MpvEvent),
    Nothing,
}

/// What an event that was not expected calls for.
pub open spec fn reaction(event: MpvIpcEvent) -> Reaction {
    match event {
        MpvIpcEvent::PropertyChange { id, name: MpvIpcPropertyValue::Pause(paused) } => {
            if id != OBSERVE_PAUSE_ID {
                Reaction::Nothing
            } else if paused {
                Reaction::Ask(TimedEvent::Pause)
            } else {
                Reaction::Ask(TimedEvent::Resume)
            }
        },
        MpvIpcEvent::PropertyChange { id, name: MpvIpcPropertyValue::Speed(factor) } => {
            if id != OBSERVE_SPEED_ID {
                Reaction::Nothing
            } else {
                Reaction::Report(MpvEvent::SpeedChange { factor })
            }
        },
        MpvIpcEvent::Seek => Reaction::Ask(TimedEvent::Seek),
        _ => Reaction::Nothing,
    }
}

/// How a status counts.
pub open spec fn outcome(status: MpvIpcErrorStatus) -> ExecutionResponse {
    if status == MpvIpcErrorStatus::Success {
        ExecutionResponse::Success
    } else {
        ExecutionResponse::Failed
    }
}

/// The reports that are due once the time is known, in the order of the events.
pub open spec fn reports(required: Seq<TimedEvent>, time: Time) -> Seq<MpvAction> {
    required.map_values(|event: TimedEvent| MpvAction::Emit(event.at(time)))
}

/// The answers that are due once the time is known, in the order of the requests.
pub open spec fn answers(waiting: Seq<u64>, time: Time) -> Seq<MpvAction> {
    waiting.map_values(|waiter: u64| MpvAction::AnswerTime(waiter, time))
}

/// The answer to the request for the time brings it.
pub open spec fn timely(msg: MpvIpcResponseOrEvent) -> bool {
    match msg {
        MpvIpcResponseOrEvent::Response(response) => response.request_id == TIMER_REQUEST_ID ==> (
        response.data matches Some(MpvIpcData::Number(t)) && t.finite()),
        MpvIpcResponseOrEvent::Event(_) => true,
    }
}

/// The state after a line from the player at `now`, and what is to be done.
pub open spec fn processed(pre: MpvStateView, msg: MpvIpcResponseOrEvent, now: u128) -> (
    MpvStateView,
    Seq<MpvAction>,
) {
    match msg {
        MpvIpcResponseOrEvent::Event(event) => {
            let next = MpvStateView { ignored: looked_for(pre.ignored, event, now), ..pre };
            if expects(pre.ignored, event, now) {
                (next, seq![])
            } else {
                match reaction(event) {
                    Reaction::Ask(timed) => (
                        next.requiring(timed).sent(time_command()),
                        seq![MpvAction::Send(time_command())],
                    ),
                    Reaction::Report(change) => (next, seq![MpvAction::Emit(change)]),
                    Reaction::Nothing => (next, seq![]),
                }
            }
        },
        MpvIpcResponseOrEvent::Response(response) => {
            let id = response.request_id;
            if id == TIMER_REQUEST_ID {
                match response.data {
                    Some(MpvIpcData::Number(t)) => (
                        MpvStateView { required: seq![], waiting: seq![], ..pre },
                        reports(pre.required, Time::at(t)) + answers(pre.waiting, Time::at(t)),
                    ),
                    _ => (pre, seq![]),
                }
            } else if pre.expected.contains(id) {
                (
                    MpvStateView {
                        expected: pre.expected.remove(id),
                        executions: pre.executions.remove(id),
                        ..pre
                    },
                    seq![MpvAction::AnswerExecution(id, outcome(response.error))],
                )
            } else {
                (pre, seq![])
            }
        },
    }
}

/// A change as it is asked of the player: the command for it, and where the player is to
/// be sent once the command has gone out.
#[derive(Debug, Clone, Copy)]
pub struct Execution {
    pub command: MpvIpcCommand,
    pub seek_to: Option<Time>,
}

/// The state after the player has been asked to seek at `now`, and the command for it.
pub open spec fn sought(pre: MpvStateView, time: Time, now: u128) -> (
    MpvStateView,
    MpvIpcCommand,
) {
    let command = MpvIpcCommand::SetProperty {
        request_id: pre.next,
        property: MpvIpcPropertyValue::TimePos(time.seconds()),
    };
    (pre.numbered().ignoring(MpvIpcEvent::Seek, now).sent(command), command)
}

/// The state after a property that is observed has been set at `now`, and the command.
pub open spec fn set_observed(
    pre: MpvStateView,
    id: u64,
    property: MpvIpcPropertyValue,
    now: u128,
) -> (MpvStateView, MpvIpcCommand) {
    let command = MpvIpcCommand::SetProperty { request_id: pre.next, property };
    (
        pre.numbered().ignoring(MpvIpcEvent::PropertyChange { id, name: property }, now).sent(
            command,
        ),
        command,
    )
}

/// The state after a change has been asked of the player at `now`, and what is asked.
pub open spec fn executed(pre: MpvStateView, event: MpvEvent, now: u128) -> (
    MpvStateView,
    Execution,
) {
    match event {
        MpvEvent::Pause { time } => {
            let (post, command) = set_observed(
                pre,
                OBSERVE_PAUSE_ID,
                MpvIpcPropertyValue::Pause(true),
                now,
            );
            (post, Execution { command, seek_to: Some(time) })
        },
        MpvEvent::Resume { time } => {
            let (post, command) = set_observed(
                pre,
                OBSERVE_PAUSE_ID,
                MpvIpcPropertyValue::Pause(false),
                now,
            );
            (post, Execution { command, seek_to: Some(time) })
        },
        MpvEvent::Seek { time } => {
            let (post, command) = sought(pre, time, now);
            (post, Execution { command, seek_to: None })
        },
        MpvEvent::SpeedChange { factor } => {
            let (post, command) = set_observed(
                pre,
                OBSERVE_SPEED_ID,
                MpvIpcPropertyValue::Speed(factor),
                now,
            );
            (post, Execution { command, seek_to: None })
        },
    }
}

/// The state after a property is observed from `now` on, and the command for it; the value
/// that the player reports at once is expected.
pub open spec fn observed(
    pre: MpvStateView,
    id: u64,
    property: MpvIpcProperty,
    value: MpvIpcPropertyValue,
    now: u128,
) -> (MpvStateView, MpvIpcCommand) {
    let command = MpvIpcCommand::ObserveProperty { request_id: pre.next, id, property };
    (
        pre.numbered().ignoring(MpvIpcEvent::PropertyChange { id, name: value }, now).sent(command),
        command,
    )
}

/// The state after the player has been asked for its time on behalf of a waiter.
pub open spec fn time_requested(pre: MpvStateView, waiter: u64) -> MpvStateView {
    MpvStateView { waiting: pre.waiting.push(waiter), ..pre }.sent(time_command())
}

/// The client's side of the conversation with a player.
#[derive(Debug)]
pub struct Mpv {
    pub state: MpvState,
}

impl View for Mpv {
    type V = MpvStateView;

    open spec fn view(&self) -> MpvStateView {
        self.state@
    }
}

impl Mpv {
    /// Begins the conversation at `now`: the command makes the player report its speed.
    /// [`Mpv::observe_pause`] comes next.
    pub fn new(now: u128) -> (r: (Mpv, MpvIpcCommand))
        ensures
            r.0@.well_formed(),
            r.0@.next == 5,
            r.1 == (MpvIpcCommand::ObserveProperty {
                request_id: 4,
                id: OBSERVE_SPEED_ID,
                property: MpvIpcProperty::Speed,
            }),
            (r.0@, r.1) == observed(
                MpvStateView::initial(),
                OBSERVE_SPEED_ID,
                MpvIpcProperty::Speed,
                MpvIpcPropertyValue::Speed((Double { bits: 0x3FF0_0000_0000_0000 })),
                now,
            ),
    {
        let mut mpv = Mpv { state: MpvState::default() };
        let command = mpv.observe(
            OBSERVE_SPEED_ID,
            MpvIpcProperty::Speed,
            MpvIpcPropertyValue::Speed(Double::one()),
            now,
        );
        (mpv, command)
    }

    /// Makes the player report when it is paused, from `now` on.
    pub fn observe_pause(&mut self, now: u128) -> (command: MpvIpcCommand)
        requires
            old(self)@.well_formed(),
            old(self)@.next < u64::MAX,
        ensures
            final(self)@.well_formed(),
            (final(self)@, command) == observed(
                old(self)@,
                OBSERVE_PAUSE_ID,
                MpvIpcProperty::Pause,
                MpvIpcPropertyValue::Pause(false),
                now,
            ),
    {
        self.observe(
            OBSERVE_PAUSE_ID,
            MpvIpcProperty::Pause,
            MpvIpcPropertyValue::Pause(false),
            now,
        )
    }

    fn observe(
        &mut self,
        id: u64,
        property: MpvIpcProperty,
        value: MpvIpcPropertyValue,
        now: u128,
    ) -> (command: MpvIpcCommand)
        requires
            old(self)@.well_formed(),
            old(self)@.next < u64::MAX,
        ensures
            final(self)@.well_formed(),
            (final(self)@, command) == observed(old(self)@, id, property, value, now),
    {
        let request_id = self.new_request_id();
        self.state.events_to_be_ignored.push(MpvIpcEvent::PropertyChange { id, name: value }, now);
        self.send_mpv_ipc_command(MpvIpcCommand::ObserveProperty { request_id, id, property })
    }

    /// Takes the next request number.  No command has had it, and it is not that of the
    /// request for the time.
    pub fn new_request_id(&mut self) -> (id: u64)
        requires
            old(self)@.well_formed(),
            old(self)@.next < u64::MAX,
        ensures
            id == old(self)@.next,
            id != TIMER_REQUEST_ID,
            !old(self)@.expected.contains(id),
            final(self)@ == old(self)@.numbered(),
            final(self)@.well_formed(),
    {
        let id: u64 = self.state.next_request_id;
        self.state.next_request_id = id + 1;
        id
    }

    /// Notes that a command goes out, and hands it on.
    fn send_mpv_ipc_command(&mut self, cmd: MpvIpcCommand) -> (command: MpvIpcCommand)
        requires
            old(self)@.well_formed(),
            TIMER_REQUEST_ID <= cmd.request() < old(self)@.next,
        ensures
            final(self)@.well_formed(),
            final(self)@ == old(self)@.sent(cmd),
            command == cmd,
    {
        let request_id: u64 = cmd.get_request_id();
        self.state.execution_requests.insert(request_id);
        if request_id != TIMER_REQUEST_ID {
            self.state.expected_responses.insert(request_id);
        }
        proof {
            assert(self@.expected =~= self@.executions.remove(TIMER_REQUEST_ID));
            assert(self@ =~= old(self)@.sent(cmd));
        }
        cmd
    }

    /// Asks for the current time.
    fn send_time_request(&mut self) -> (command: MpvIpcCommand)
        requires
            old(self)@.well_formed(),
        ensures
            final(self)@.well_formed(),
            final(self)@ == old(self)@.sent(time_command()),
            command == time_command(),
    {
        self.send_mpv_ipc_command(
            MpvIpcCommand::GetProperty {
                request_id: TIMER_REQUEST_ID,
                property: MpvIpcProperty::TimePos,
            },
        )
    }

    /// Asks for the current time on behalf of a waiter, who is answered in due course.
    pub fn request_time(&mut self, waiter: u64) -> (command: MpvIpcCommand)
        requires
            old(self)@.well_formed(),
        ensures
            final(self)@.well_formed(),
            final(self)@ == time_requested(old(self)@, waiter),
            command == time_command(),
    {
        self.state.time_requests.push(waiter);
        self.send_time_request()
    }

    /// Deals with a line from the player that comes at `now`.
    pub fn process_mpv_response(&mut self, msg: MpvIpcResponseOrEvent, now: u128) -> (actions: Vec<
        MpvAction,
    >)
        requires
            old(self)@.well_formed(),
            timely(msg),
        ensures
            final(self)@.well_formed(),
            (final(self)@, actions@) == processed(old(self)@, msg, now),
    {
        match msg {
            MpvIpcResponseOrEvent::Event(event) => self.process_event(event, now),
            MpvIpcResponseOrEvent::Response(response) => self.process_response(response),
        }
    }

    fn process_event(&mut self, event: MpvIpcEvent, now: u128) -> (actions: Vec<MpvAction>)
        requires
            old(self)@.well_formed(),
        ensures
            final(self)@.well_formed(),
            (final(self)@, actions@) == processed(
                old(self)@,
                MpvIpcResponseOrEvent::Event(event),
                now,
            ),
    {
        let mut actions: Vec<MpvAction> = Vec::new();
        let expected: bool = self.state.events_to_be_ignored.remove_if_contains(&event, now);
        if expected {
            return actions;
        }
        match event {
            MpvIpcEvent::PropertyChange { id, name: MpvIpcPropertyValue::Pause(paused) } => {
                if id == OBSERVE_PAUSE_ID {
                    if paused {
                        self.state.required_time.push(TimedEvent::Pause);
                    } else {
                        self.state.required_time.push(TimedEvent::Resume);
                    }
                    let command = self.send_time_request();
                    actions.push(MpvAction::Send(command));
                }
            },
            MpvIpcEvent::PropertyChange { id, name: MpvIpcPropertyValue::Speed(factor) } => {
                if id == OBSERVE_SPEED_ID {
                    actions.push(MpvAction::Emit(MpvEvent::SpeedChange { factor }));
                }
            },
            MpvIpcEvent::Seek => {
                self.state.required_time.push(TimedEvent::Seek);
                let command = self.send_time_request();
                actions.push(MpvAction::Send(command));
            },
            _ => {},
        }
        actions
    }

    fn process_response(&mut self, response: MpvIpcResponse) -> (actions: Vec<MpvAction>)
        requires
            old(self)@.well_formed(),
            timely(MpvIpcResponseOrEvent::Response(response)),
        ensures
            final(self)@.well_formed(),
            (final(self)@, actions@) == processed(
                old(self)@,
                MpvIpcResponseOrEvent::Response(response),
                0,
            ),
    {
        let mut actions: Vec<MpvAction> = Vec::new();
        let request_id: u64 = response.request_id;
        if request_id == TIMER_REQUEST_ID {
            let seconds: Double = match response.data {
                Some(MpvIpcData::Number(t)) => t,
                _ => {
                    return actions;
                },
            };
            let time = Time::from_seconds(seconds);
            let ghost required = self.state.required_time@;
            let ghost waiting = self.state.time_requests@;
            let mut i: usize = 0;
            while i < self.state.required_time.len()
                invariant
                    i <= required.len(),
                    self.state == old(self).state,
                    required == self.state.required_time@,
                    actions@ == reports(required, time).take(i as int),
                decreases required.len() - i,
            {
                actions.push(MpvAction::Emit(self.state.required_time[i].with_time(time)));
                assert(actions@ =~= reports(required, time).take(i + 1));
                i = i + 1;
            }
            assert(actions@ =~= reports(required, time) + answers(waiting, time).take(0));
            let mut j: usize = 0;
            while j < self.state.time_requests.len()
                invariant
                    j <= waiting.len(),
                    self.state == old(self).state,
                    waiting == self.state.time_requests@,
                    actions@ == reports(required, time) + answers(waiting, time).take(j as int),
                decreases waiting.len() - j,
            {
                actions.push(MpvAction::AnswerTime(self.state.time_requests[j], time));
                assert(actions@ =~= reports(required, time) + answers(waiting, time).take(j + 1));
                j = j + 1;
            }
            self.state.required_time.clear();
            self.state.time_requests.clear();
            proof {
                assert(answers(waiting, time).take(j as int) =~= answers(waiting, time));
                assert(self@ =~= (MpvStateView { required: seq![], waiting: seq![], ..old(self)@ }));
            }
        } else if self.state.expected_responses.remove(&request_id) {
            let requested: bool = self.state.execution_requests.remove(&request_id);
            if requested {
                actions.push(
                    MpvAction::AnswerExecution(request_id, ExecutionResponse::from(response.error)),
                );
            }
            proof {
                assert(self@.expected =~= self@.executions.remove(TIMER_REQUEST_ID));
            }
        } else {
            assert(self@ =~= old(self)@);
        }
        actions
    }

    /// Asks a change of the player at `now`.  Where the outcome says where to seek to,
    /// [`Mpv::execute_seek`] comes next.
    pub fn try_execute_event(&mut self, event: MpvEvent, now: u128) -> (execution: Execution)
        requires
            old(self)@.well_formed(),
            old(self)@.next < u64::MAX,
        ensures
            final(self)@.well_formed(),
            (final(self)@, execution) == executed(old(self)@, event, now),
    {
        match event {
            MpvEvent::Pause { time } => {
                let command = self.set_observed(
                    OBSERVE_PAUSE_ID,
                    MpvIpcPropertyValue::Pause(true),
                    now,
                );
                Execution { command, seek_to: Some(time) }
            },
            MpvEvent::Resume { time } => {
                let command = self.set_observed(
                    OBSERVE_PAUSE_ID,
                    MpvIpcPropertyValue::Pause(false),
                    now,
                );
                Execution { command, seek_to: Some(time) }
            },
            MpvEvent::Seek { time } => {
                let command = self.execute_seek(time, now);
                Execution { command, seek_to: None }
            },
            MpvEvent::SpeedChange { factor } => {
                let command = self.set_observed(
                    OBSERVE_SPEED_ID,
                    MpvIpcPropertyValue::Speed(factor),
                    now,
                );
                Execution { command, seek_to: None }
            },
        }
    }

    fn set_observed(&mut self, id: u64, property: MpvIpcPropertyValue, now: u128) -> (command:
        MpvIpcCommand)
        requires
            old(self)@.well_formed(),
            old(self)@.next < u64::MAX,
        ensures
            final(self)@.well_formed(),
            (final(self)@, command) == set_observed(old(self)@, id, property, now),
    {
        let request_id = self.new_request_id();
        self.state.events_to_be_ignored.push(
            MpvIpcEvent::PropertyChange { id, name: property },
            now,
        );
        self.send_mpv_ipc_command(MpvIpcCommand::SetProperty { request_id, property })
    }

    /// Sends the player to a time, at `now`.
    pub fn execute_seek(&mut self, time: Time, now: u128) -> (command: MpvIpcCommand)
        requires
            old(self)@.well_formed(),
            old(self)@.next < u64::MAX,
        ensures
            final(self)@.well_formed(),
            (final(self)@, command) == sought(old(self)@, time, now),
    {
        let request_id = self.new_request_id();
        self.state.events_to_be_ignored.push(MpvIpcEvent::Seek, now);
        self.send_mpv_ipc_command(
            MpvIpcCommand::SetProperty {
                request_id,
                property: MpvIpcPropertyValue::TimePos(time.as_seconds()),
            },
        )
    }
}

/// How long a failed change is left to settle before it is tried again, in milliseconds.
pub const RETRY_DELAY_MS: u64 = 250;

/// The tries of a change that the player may refuse for a while.
#[derive(Debug, Clone, Copy)]
pub struct Tries {
    pub attempt: u32,
    pub attempts: u32,
}

/// What comes after a try.
#[derive(Debug, Clone, Copy, PartialEq, Eq, Structural)]
pub enum Verdict {
    Done,
    TryAgain,
    GiveUp,
}

impl Tries {
    /// Before the first try.
    pub open spec fn first(attempts: u32) -> Tries {
        Tries { attempt: 1, attempts }
    }

    /// What comes after a try with this outcome.
    pub open spec fn verdict(self, response: ExecutionResponse) -> Verdict {
        if response == ExecutionResponse::Success {
            Verdict::Done
        } else if self.attempt >= self.attempts {
            Verdict::GiveUp
        } else {
            Verdict::TryAgain
        }
    }

    /// The tries once another one is due.
    pub open spec fn next(self) -> Tries {
        Tries { attempt: (self.attempt + 1) as u32, ..self }
    }

    /// The tries after so many that all failed.
    pub open spec fn after(attempts: u32, failures: nat) -> Tries
        decreases failures,
    {
        if failures == 0 {
            Tries::first(attempts)
        } else {
            Tries::after(attempts, (failures - 1) as nat).next()
        }
    }

    /// Begins with the first try.
    pub fn new(attempts: u32) -> (tries: Tries)
        ensures
            tries == Tries::first(attempts),
    {
        Tries { attempt: 1, attempts }
    }

    /// Decides after a try.  After a failure the player is given [`RETRY_DELAY_MS`] first.
    pub fn after_response(&mut self, response: ExecutionResponse) -> (verdict: Verdict)
        ensures
            verdict == old(self).verdict(response),
            *final(self) == (if verdict == Verdict::TryAgain {
                old(self).next()
            } else {
                *old(self)
            }),
    {
        match response {
            ExecutionResponse::Success => Verdict::Done,
            ExecutionResponse::Failed => {
                if self.attempt >= self.attempts {
                    Verdict::GiveUp
                } else {
                    self.attempt = self.attempt + 1;
                    Verdict::TryAgain
                }
            },
        }
    }
}

/// A change that always fails is tried as often as attempts are granted, and then given up.
pub proof fn law_gives_up_after_granted_attempts(attempts: u32, failures: nat)
    requires
        failures < attempts,
    ensures
        Tries::after(attempts, failures).verdict(ExecutionResponse::Failed) == (if failures + 1
            < attempts {
            Verdict::TryAgain
        } else {
            Verdict::GiveUp
        }),
{
    lemma_tries_after(attempts, failures);
}

/// The tries are counted from one.
proof fn lemma_tries_after(attempts: u32, failures: nat)
    requires
        failures < attempts,
    ensures
        Tries::after(attempts, failures) == (Tries { attempt: (failures + 1) as u32, attempts }),
    decreases failures,
{
    if failures > 0 {
        lemma_tries_after(attempts, (failures - 1) as nat);
    }
}

/// Where the search for the first entry ends, it has passed over entries of other events.
proof fn lemma_first(events: Seq<(MpvIpcEvent, u128)>, event: MpvIpcEvent, from: int, i: int)
    requires
        0 <= from <= i < events.len(),
        events[i].0.same(event),
    ensures
        from <= first(events, event, from) <= i,
        events[first(events, event, from)].0.same(event),
    decreases i - from,
{
    if !events[from].0.same(event) {
        lemma_first(events, event, from + 1, i);
    }
}

/// What is waited for is found.
proof fn lemma_expects(
    events: Seq<(MpvIpcEvent, u128)>,
    event: MpvIpcEvent,
    now: u128,
    i: int,
)
    requires
        0 <= i < events.len(),
        events[i].0.same(event),
        fresh(events[i], now),
    ensures
        expects(events, event, now),
        0 <= first(kept(events, now), event, 0),
{
    let pred = |entry: (MpvIpcEvent, u128)| fresh(entry, now);
    events.filter_lemma(pred);
    assert(pred(events[i]));
    assert(kept(events, now).contains(events[i]));
    let k = choose|k: int| 0 <= k < kept(events, now).len() && kept(events, now)[k] == events[i];
    lemma_first(kept(events, now), event, 0, k);
}

/// The search ends at an entry of the event, or at the end.
proof fn lemma_first_is_same(events: Seq<(MpvIpcEvent, u128)>, event: MpvIpcEvent, from: int)
    requires
        0 <= from <= events.len(),
    ensures
        from <= first(events, event, from) <= events.len(),
        first(events, event, from) < events.len() ==> events[first(
            events,
            event,
            from,
        )].0.same(event),
    decreases events.len() - from,
{
    if from < events.len() && !events[from].0.same(event) {
        lemma_first_is_same(events, event, from + 1);
    }
}

/// What is kept was there before.
proof fn lemma_kept_were_there(events: Seq<(MpvIpcEvent, u128)>, now: u128, k: int)
    requires
        0 <= k < kept(events, now).len(),
    ensures
        events.contains(kept(events, now)[k]),
        fresh(kept(events, now)[k], now),
    decreases events.len(),
{
    reveal(Seq::filter);
    let pred = |entry: (MpvIpcEvent, u128)| fresh(entry, now);
    let front = events.drop_last();
    assert(kept(front, now) == front.filter(pred));
    if k < kept(front, now).len() {
        lemma_kept_were_there(front, now, k);
        let j = choose|j: int| 0 <= j < front.len() && front[j] == kept(front, now)[k];
        assert(events[j] == kept(events, now)[k]);
    } else {
        assert(kept(events, now)[k] == events.last());
    }
}

/// An event that no entry of the last half second stands for is taken for the user's.
pub proof fn law_stale_expectation_is_dropped(
    events: Seq<(MpvIpcEvent, u128)>,
    event: MpvIpcEvent,
    now: u128,
)
    requires
        forall|i: int|
            0 <= i < events.len() && (#[trigger] events[i]).0.same(event) ==> !fresh(
                events[i],
                now,
            ),
    ensures
        !expects(events, event, now),
{
    lemma_first_is_same(kept(events, now), event, 0);
    if expects(events, event, now) {
        let k = first(kept(events, now), event, 0);
        lemma_kept_were_there(events, now, k);
        let i = choose|i: int| 0 <= i < events.len() && events[i] == kept(events, now)[k];
        assert(events[i].0.same(event));
    }
}

/// An event that a command of the client has caused is not taken for one of the user's, if
/// it comes within half a second: nothing is sent, reported or answered.  Its entry is then
/// used up.
pub proof fn law_expected_event_is_ignored(
    pre: MpvStateView,
    event: MpvIpcEvent,
    now: u128,
    i: int,
)
    requires
        0 <= i < pre.ignored.len(),
        pre.ignored[i].0.same(event),
        fresh(pre.ignored[i], now),
    ensures
        ({
            let (post, actions) = processed(pre, MpvIpcResponseOrEvent::Event(event), now);
            &&& actions.len() == 0
            &&& post.required == pre.required
            &&& post.ignored.len() == kept(pre.ignored, now).len() - 1
        }),
{
    lemma_expects(pre.ignored, event, now, i);
}

/// When the player reports the change that it was just asked for, nothing comes of it: the
/// change does not go back to where it came from.
pub proof fn law_change_is_not_echoed(
    pre: MpvStateView,
    event: MpvEvent,
    now: u128,
    reported: MpvIpcEvent,
    later: u128,
)
    requires
        later - now < EXPECTED_FOR,
        match event {
            MpvEvent::Pause { .. } => reported == (MpvIpcEvent::PropertyChange {
                id: OBSERVE_PAUSE_ID,
                name: MpvIpcPropertyValue::Pause(true),
            }),
            MpvEvent::Resume { .. } => reported == (MpvIpcEvent::PropertyChange {
                id: OBSERVE_PAUSE_ID,
                name: MpvIpcPropertyValue::Pause(false),
            }),
            MpvEvent::Seek { .. } => reported == MpvIpcEvent::Seek,
            MpvEvent::SpeedChange { factor } => !factor.nan() && reported == (
            MpvIpcEvent::PropertyChange {
                id: OBSERVE_SPEED_ID,
                name: MpvIpcPropertyValue::Speed(factor),
            }),
        },
    ensures
        ({
            let asked = executed(pre, event, now).0;
            let (post, actions) = processed(asked, MpvIpcResponseOrEvent::Event(reported), later);
            actions.len() == 0 && post.required == pre.required
        }),
{
    let asked = executed(pre, event, now).0;
    law_expected_event_is_ignored(asked, reported, later, asked.ignored.len() - 1);
}

/// A seek that the client has asked for is not echoed either.
pub proof fn law_seek_is_not_echoed(pre: MpvStateView, time: Time, now: u128, later: u128)
    requires
        later - now < EXPECTED_FOR,
    ensures
        ({
            let asked = sought(pre, time, now).0;
            let (post, actions) = processed(
                asked,
                MpvIpcResponseOrEvent::Event(MpvIpcEvent::Seek),
                later,
            );
            actions.len() == 0 && post.required == pre.required
        }),
{
    let asked = sought(pre, time, now).0;
    law_expected_event_is_ignored(asked, MpvIpcEvent::Seek, later, asked.ignored.len() - 1);
}

/// An entry of another event outlasts the search for an event, as long as it is waited for.
proof fn lemma_other_entry_stays(
    events: Seq<(MpvIpcEvent, u128)>,
    event: MpvIpcEvent,
    now: u128,
    i: int,
)
    requires
        0 <= i < events.len(),
        !events[i].0.same(event),
        fresh(events[i], now),
    ensures
        looked_for(events, event, now).contains(events[i]),
{
    let left = kept(events, now);
    let pred = |entry: (MpvIpcEvent, u128)| fresh(entry, now);
    events.filter_lemma(pred);
    assert(pred(events[i]));
    assert(left.contains(events[i]));
    let k = choose|k: int| 0 <= k < left.len() && left[k] == events[i];
    lemma_first_is_same(left, event, 0);
    if expects(events, event, now) {
        let j = first(left, event, 0);
        let rest = left.update(j, left.last()).drop_last();
        if k == left.len() - 1 {
            assert(rest[j] == events[i]);
        } else {
            assert(rest[k] == events[i]);
        }
    } else {
        assert(left[k] == events[i]);
    }
}

/// A pause or a resumption that the client has followed, with the seek that belongs to it,
/// is not echoed: the player may report the two in either order.
pub proof fn law_pause_with_seek_is_not_echoed(
    pre: MpvStateView,
    event: MpvEvent,
    pause: bool,
    time: Time,
    now: u128,
    soon: u128,
    pause_first: bool,
    t1: u128,
    t2: u128,
)
    requires
        event == (if pause {
            MpvEvent::Pause { time }
        } else {
            MpvEvent::Resume { time }
        }),
        now <= soon,
        t1 - now < EXPECTED_FOR,
        t2 - now < EXPECTED_FOR,
    ensures
        executed(pre, event, now).1.seek_to == Some(time),
        ({
            let asked = sought(executed(pre, event, now).0, time, soon).0;
            let paused = MpvIpcEvent::PropertyChange {
                id: OBSERVE_PAUSE_ID,
                name: MpvIpcPropertyValue::Pause(pause),
            };
            let (one, other) = if pause_first {
                (paused, MpvIpcEvent::Seek)
            } else {
                (MpvIpcEvent::Seek, paused)
            };
            let (mid, first_actions) = processed(asked, MpvIpcResponseOrEvent::Event(one), t1);
            let (post, then_actions) = processed(mid, MpvIpcResponseOrEvent::Event(other), t2);
            &&& first_actions.len() == 0
            &&& then_actions.len() == 0
            &&& post.required == pre.required
        }),
{
    let asked = sought(executed(pre, event, now).0, time, soon).0;
    let paused = MpvIpcEvent::PropertyChange {
        id: OBSERVE_PAUSE_ID,
        name: MpvIpcPropertyValue::Pause(pause),
    };
    let n = asked.ignored.len() as int;
    assert(asked.ignored[n - 2] == (paused, now));
    assert(asked.ignored[n - 1] == (MpvIpcEvent::Seek, soon));
    let (one, i, other, j) = if pause_first {
        (paused, n - 2, MpvIpcEvent::Seek, n - 1)
    } else {
        (MpvIpcEvent::Seek, n - 1, paused, n - 2)
    };
    law_expected_event_is_ignored(asked, one, t1, i);
    lemma_other_entry_stays(asked.ignored, one, t1, j);
    let mid = processed(asked, MpvIpcResponseOrEvent::Event(one), t1).0;
    let k = choose|k: int| 0 <= k < mid.ignored.len() && mid.ignored[k] == asked.ignored[j];
    law_expected_event_is_ignored(mid, other, t2, k);
}

/// A pause, a resumption or a seek of the user's is reported with the time that the player
/// gives next.
pub proof fn law_users_change_is_reported_with_its_time(
    pre: MpvStateView,
    event: MpvIpcEvent,
    timed: TimedEvent,
    now: u128,
    response: MpvIpcResponse,
    t: Double,
    later: u128,
)
    requires
        !expects(pre.ignored, event, now),
        reaction(event) == Reaction::Ask(timed),
        response.request_id == TIMER_REQUEST_ID,
        response.data == Some(MpvIpcData::Number(t)),
    ensures
        ({
            let (mid, asked) = processed(pre, MpvIpcResponseOrEvent::Event(event), now);
            let (post, done) = processed(mid, MpvIpcResponseOrEvent::Response(response), later);
            &&& asked == seq![MpvAction::Send(time_command())]
            &&& done[pre.required.len() as int] == MpvAction::Emit(timed.at(Time::at(t)))
            &&& post.required.len() == 0
        }),
{
}

/// Everybody who waits for the time is answered with it, in turn and once.
pub proof fn law_waiters_are_answered_once(
    pre: MpvStateView,
    response: MpvIpcResponse,
    t: Double,
    now: u128,
    k: int,
)
    requires
        response.request_id == TIMER_REQUEST_ID,
        response.data == Some(MpvIpcData::Number(t)),
        0 <= k < pre.waiting.len(),
    ensures
        ({
            let (post, actions) = processed(pre, MpvIpcResponseOrEvent::Response(response), now);
            &&& actions.len() == pre.required.len() + pre.waiting.len()
            &&& actions[pre.required.len() + k] == MpvAction::AnswerTime(
                pre.waiting[k],
                Time::at(t),
            )
            &&& post.waiting.len() == 0
            &&& processed(post, MpvIpcResponseOrEvent::Response(response), now).1.len() == 0
        }),
{
}

/// The number of a new request is not in use, and the player's answer to it is passed on
/// once.
pub proof fn law_request_is_answered_once(
    pre: MpvStateView,
    event: MpvEvent,
    now: u128,
    response: MpvIpcResponse,
    later: u128,
)
    requires
        pre.well_formed(),
        pre.next < u64::MAX,
        response.request_id == executed(pre, event, now).1.command.request(),
    ensures
        !pre.expected.contains(response.request_id),
        ({
            let asked = executed(pre, event, now).0;
            let (post, actions) = processed(
                asked,
                MpvIpcResponseOrEvent::Response(response),
                later,
            );
            &&& actions == seq![
                MpvAction::AnswerExecution(response.request_id, outcome(response.error)),
            ]
            &&& processed(post, MpvIpcResponseOrEvent::Response(response), later).1.len() == 0
        }),
{
}

/// An answer to a request that nobody has made changes nothing.
pub proof fn law_stray_answer_changes_nothing(
    pre: MpvStateView,
    response: MpvIpcResponse,
    now: u128,
)
    requires
        pre.well_formed(),
        response.request_id != TIMER_REQUEST_ID,
        response.request_id >= pre.next || response.request_id < TIMER_REQUEST_ID,
    ensures
        processed(pre, MpvIpcResponseOrEvent::Response(response), now) == (pre, Seq::<
            MpvAction,
        >::empty()),
{
}

/// One step of a conversation.
pub enum MpvStep {
    /// A request number is taken.
    TakeNumber,
    /// A property is observed.
    Observe { id: u64, property: MpvIpcProperty, value: MpvIpcPropertyValue, now: u128 },
    /// A change is asked of the player.
    Execute { event: MpvEvent, now: u128 },
    /// The player is sent to a time.
    Seek { time: Time, now: u128 },
    /// The player is asked for its time.
    RequestTime { waiter: u64 },
    /// A line comes from the player.
    Hear { msg: MpvIpcResponseOrEvent, now: u128 },
}

/// The state after a step, and the request number that it has handed out.
pub open spec fn stepped(pre: MpvStateView, step: MpvStep) -> (MpvStateView, Option<u64>) {
    match step {
        MpvStep::TakeNumber => (pre.numbered(), Some(pre.next)),
        MpvStep::Observe { id, property, value, now } => {
            let (post, command) = observed(pre, id, property, value, now);
            (post, Some(command.request()))
        },
        MpvStep::Execute { event, now } => {
            let (post, execution) = executed(pre, event, now);
            (post, Some(execution.command.request()))
        },
        MpvStep::Seek { time, now } => {
            let (post, command) = sought(pre, time, now);
            (post, Some(command.request()))
        },
        MpvStep::RequestTime { waiter } => (time_requested(pre, waiter), None),
        MpvStep::Hear { msg, now } => (processed(pre, msg, now).0, None),
    }
}

/// The state after some steps.
pub open spec fn conversed(pre: MpvStateView, steps: Seq<MpvStep>) -> MpvStateView
    decreases steps.len(),
{
    if steps.len() == 0 {
        pre
    } else {
        stepped(conversed(pre, steps.drop_last()), steps.last()).0
    }
}

/// The request numbers that some steps have handed out, in turn.
pub open spec fn handed_out(pre: MpvStateView, steps: Seq<MpvStep>) -> Seq<u64>
    decreases steps.len(),
{
    if steps.len() == 0 {
        seq![]
    } else {
        let before = handed_out(pre, steps.drop_last());
        match stepped(conversed(pre, steps.drop_last()), steps.last()).1 {
            Some(number) => before.push(number),
            None => before,
        }
    }
}

/// The request numbers of one conversation rise by one, whatever is said in between: none
/// comes twice, and none is that of the request for the time.
pub proof fn law_request_numbers_never_repeat(pre: MpvStateView, steps: Seq<MpvStep>)
    requires
        pre.well_formed(),
        pre.next + handed_out(pre, steps).len() <= u64::MAX,
    ensures
        forall|k: int|
            0 <= k < handed_out(pre, steps).len() ==> #[trigger] handed_out(pre, steps)[k]
                == pre.next + k,
        handed_out(pre, steps).no_duplicates(),
        !handed_out(pre, steps).contains(TIMER_REQUEST_ID),
        conversed(pre, steps).next == pre.next + handed_out(pre, steps).len(),
    decreases steps.len(),
{
    if steps.len() > 0 {
        law_request_numbers_never_repeat(pre, steps.drop_last());
    }
}

/// A request number is greater by one than the last one, and differs from all that were
/// handed out since the conversation began, those of seeks included; the first is four.
pub proof fn law_new_request_number_is_new(steps: Seq<MpvStep>)
    requires
        4 + handed_out(MpvStateView::initial(), steps).len() < u64::MAX,
    ensures
        ({
            let numbers = handed_out(MpvStateView::initial(), steps);
            let number = conversed(MpvStateView::initial(), steps).next;
            &&& number != TIMER_REQUEST_ID
            &&& !numbers.contains(number)
            &&& numbers.len() == 0 ==> number == 4
            &&& numbers.len() > 0 ==> number == numbers.last() + 1
            &&& handed_out(MpvStateView::initial(), steps.push(MpvStep::TakeNumber))
                == numbers.push(number)
        }),
{
    let pre = MpvStateView::initial();
    assert(pre.expected =~= pre.executions.remove(TIMER_REQUEST_ID));
    law_request_numbers_never_repeat(pre, steps);
    assert(steps.push(MpvStep::TakeNumber).drop_last() =~= steps);
}

/// The answer to a command is never taken for the time: who waits for the time goes on
/// waiting, and so does what is still to be reported.
pub proof fn law_answer_is_not_taken_for_the_time(
    pre: MpvStateView,
    steps: Seq<MpvStep>,
    k: int,
    later: MpvStateView,
    response: MpvIpcResponse,
    now: u128,
)
    requires
        pre.well_formed(),
        pre.next + handed_out(pre, steps).len() <= u64::MAX,
        0 <= k < handed_out(pre, steps).len(),
        response.request_id == handed_out(pre, steps)[k],
    ensures
        ({
            let (post, actions) = processed(later, MpvIpcResponseOrEvent::Response(response), now);
            &&& post.waiting == later.waiting
            &&& post.required == later.required
            &&& forall|i: int| 0 <= i < actions.len() ==> #[trigger] actions[i] is AnswerExecution
        }),
{
    law_request_numbers_never_repeat(pre, steps);
}

/// An event is expected exactly if it was noted less than half a second ago.
pub proof fn law_event_is_expected_for_half_a_second(
    events: Seq<(MpvIpcEvent, u128)>,
    event: MpvIpcEvent,
    now: u128,
)
    ensures
        expects(events, event, now) <==> exists|i: int|
            0 <= i < events.len() && (#[trigger] events[i]).0.same(event) && now - events[i].1
                < 500_000_000,
{
    if exists|i: int|
        0 <= i < events.len() && (#[trigger] events[i]).0.same(event) && now - events[i].1
            < 500_000_000 {
        let i = choose|i: int|
            0 <= i < events.len() && (#[trigger] events[i]).0.same(event) && now - events[i].1
                < 500_000_000;
        lemma_expects(events, event, now, i);
    } else {
        law_stale_expectation_is_dropped(events, event, now);
    }
}

/// Looking for an event forgets what was noted half a second ago or earlier, and takes one
/// entry of the event where it is expected; everything else stays noted.
pub proof fn law_search_takes_one_entry(
    events: Seq<(MpvIpcEvent, u128)>,
    event: MpvIpcEvent,
    now: u128,
)
    ensures
        ({
            let left = looked_for(events, event, now);
            let recent = events.filter(|entry: (MpvIpcEvent, u128)| now - entry.1 < 500_000_000);
            &&& forall|k: int|
                0 <= k < left.len() ==> events.contains(#[trigger] left[k]) && now - left[k].1
                    < 500_000_000
            &&& forall|i: int|
                0 <= i < events.len() && !(#[trigger] events[i]).0.same(event) && now
                    - events[i].1 < 500_000_000 ==> left.contains(events[i])
            &&& expects(events, event, now) ==> left.len() == recent.len() - 1
            &&& !expects(events, event, now) ==> left == recent
        }),
{
    let left = looked_for(events, event, now);
    let all = kept(events, now);
    let recent = events.filter(|entry: (MpvIpcEvent, u128)| now - entry.1 < 500_000_000);
    lemma_filters_agree(events, now);
    lemma_first_is_same(all, event, 0);
    assert forall|k: int| 0 <= k < left.len() implies events.contains(#[trigger] left[k]) && now
        - left[k].1 < 500_000_000 by {
        let from = if expects(events, event, now) && k == first(all, event, 0) {
            all.len() - 1
        } else {
            k
        };
        assert(left[k] == all[from]);
        lemma_kept_were_there(events, now, from);
    }
    assert forall|i: int|
        0 <= i < events.len() && !(#[trigger] events[i]).0.same(event) && now - events[i].1
            < 500_000_000 implies left.contains(events[i]) by {
        lemma_other_entry_stays(events, event, now, i);
    }
}

/// Entries of the last half second are those that are still waited for.
proof fn lemma_filters_agree(events: Seq<(MpvIpcEvent, u128)>, now: u128)
    ensures
        kept(events, now) == events.filter(
            |entry: (MpvIpcEvent, u128)| now - entry.1 < 500_000_000,
        ),
    decreases events.len(),
{
    reveal(Seq::filter);
    if events.len() > 0 {
        lemma_filters_agree(events.drop_last(), now);
    }
}

/// An expected event changes nothing but what is expected, and nothing comes of it.
pub proof fn law_expected_event_changes_nothing_else(
    pre: MpvStateView,
    event: MpvIpcEvent,
    now: u128,
)
    requires
        expects(pre.ignored, event, now),
    ensures
        ({
            let (post, actions) = processed(pre, MpvIpcResponseOrEvent::Event(event), now);
            &&& actions.len() == 0
            &&& post.ignored == looked_for(pre.ignored, event, now)
            &&& post.required == pre.required && post.waiting == pre.waiting
            &&& post.expected == pre.expected && post.executions == pre.executions
            &&& post.next == pre.next
        }),
{
}

/// An event that was not expected is the user's doing: for a pause, its end and a seek the
/// time is asked for, and the event waits for it; a change of the speed is reported at once;
/// nothing comes of any other event.
pub proof fn law_unexpected_event_is_the_users(
    pre: MpvStateView,
    event: MpvIpcEvent,
    now: u128,
)
    requires
        !expects(pre.ignored, event, now),
    ensures
        ({
            let (post, actions) = processed(pre, MpvIpcResponseOrEvent::Event(event), now);
            let ask = seq![
                MpvAction::Send(
                    MpvIpcCommand::GetProperty {
                        request_id: 3,
                        property: MpvIpcProperty::TimePos,
                    },
                ),
            ];
            &&& post.ignored == looked_for(pre.ignored, event, now)
            &&& post.waiting == pre.waiting && post.expected == pre.expected && post.next
                == pre.next
            &&& match event {
                MpvIpcEvent::PropertyChange { id: 1, name: MpvIpcPropertyValue::Pause(true) } => {
                    actions == ask && post.required == pre.required.push(TimedEvent::Pause)
                        && post.executions == pre.executions.insert(3)
                },
                MpvIpcEvent::PropertyChange { id: 1, name: MpvIpcPropertyValue::Pause(false) } => {
                    actions == ask && post.required == pre.required.push(TimedEvent::Resume)
                        && post.executions == pre.executions.insert(3)
                },
                MpvIpcEvent::Seek => {
                    actions == ask && post.required == pre.required.push(TimedEvent::Seek)
                        && post.executions == pre.executions.insert(3)
                },
                MpvIpcEvent::PropertyChange { id: 2, name: MpvIpcPropertyValue::Speed(factor) } => {
                    actions == seq![MpvAction::Emit(MpvEvent::SpeedChange { factor })]
                        && post.required == pre.required && post.executions == pre.executions
                },
                _ => actions.len() == 0 && post.required == pre.required && post.executions
                    == pre.executions,
            }
        }),
{
}

/// The time, once the player tells it, goes to everything that waits for it, in turn: each
/// event is reported as what it was, with that time, and each waiter is told that time.
pub proof fn law_time_goes_to_all_that_wait(
    pre: MpvStateView,
    response: MpvIpcResponse,
    t: Double,
    now: u128,
)
    requires
        response.request_id == 3,
        response.data == Some(MpvIpcData::Number(t)),
    ensures
        ({
            let (post, actions) = processed(pre, MpvIpcResponseOrEvent::Response(response), now);
            &&& actions.len() == pre.required.len() + pre.waiting.len()
            &&& forall|k: int|
                0 <= k < pre.required.len() ==> (#[trigger] actions[k] matches MpvAction::Emit(
                    event,
                ) && match pre.required[k] {
                    TimedEvent::Pause => event matches MpvEvent::Pause { time } && time.seconds()
                        == t,
                    TimedEvent::Resume => event matches MpvEvent::Resume { time }
                        && time.seconds() == t,
                    TimedEvent::Seek => event matches MpvEvent::Seek { time } && time.seconds()
                        == t,
                })
            &&& forall|k: int|
                pre.required.len() <= k < actions.len() ==> (
                #[trigger] actions[k] matches MpvAction::AnswerTime(waiter, time) && waiter
                    == pre.waiting[k - pre.required.len()] && time.seconds() == t)
            &&& post.required.len() == 0 && post.waiting.len() == 0
            &&& post.ignored == pre.ignored && post.expected == pre.expected
            &&& post.executions == pre.executions && post.next == pre.next
        }),
{
    crate::time::law_time_is_its_seconds(Time::at(t), t);
}

/// The answer to a request that is expected is passed on as a success exactly if the player
/// says so, and is then expected no more; an answer to any other request is passed over.
pub proof fn law_answer_is_passed_on_as_it_is(
    pre: MpvStateView,
    response: MpvIpcResponse,
    now: u128,
)
    requires
        response.request_id != 3,
    ensures
        ({
            let id = response.request_id;
            let (post, actions) = processed(pre, MpvIpcResponseOrEvent::Response(response), now);
            &&& pre.expected.contains(id) ==> actions == seq![
                MpvAction::AnswerExecution(
                    id,
                    if response.error is Success {
                        ExecutionResponse::Success
                    } else {
                        ExecutionResponse::Failed
                    },
                ),
            ]
            &&& !pre.expected.contains(id) ==> actions.len() == 0 && post == pre
            &&& pre.expected.contains(id) ==> post.expected == pre.expected.remove(id)
                && post.executions == pre.executions.remove(id)
            &&& post.required == pre.required && post.waiting == pre.waiting
            &&& post.ignored == pre.ignored && post.next == pre.next
        }),
{
}

/// The command that is sent for a change sets the player to that change, under the next
/// request number; its answer is expected from then on, and so is the report of what it sets.
/// A pause and its end are followed by a seek to their time.
pub proof fn law_command_sets_the_player_to_the_change(
    pre: MpvStateView,
    event: MpvEvent,
    now: u128,
)
    requires
        pre.next < u64::MAX,
    ensures
        ({
            let (post, execution) = executed(pre, event, now);
            &&& execution.command matches MpvIpcCommand::SetProperty { request_id, property }
            &&& request_id == pre.next
            &&& property == (match event {
                MpvEvent::Pause { .. } => MpvIpcPropertyValue::Pause(true),
                MpvEvent::Resume { .. } => MpvIpcPropertyValue::Pause(false),
                MpvEvent::Seek { time } => MpvIpcPropertyValue::TimePos(time.seconds()),
                MpvEvent::SpeedChange { factor } => MpvIpcPropertyValue::Speed(factor),
            })
            &&& execution.seek_to == (match event {
                MpvEvent::Pause { time } => Some(time),
                MpvEvent::Resume { time } => Some(time),
                _ => None,
            })
            &&& post.ignored == pre.ignored.push(
                (
                    match event {
                        MpvEvent::Pause { .. } => MpvIpcEvent::PropertyChange {
                            id: 1,
                            name: MpvIpcPropertyValue::Pause(true),
                        },
                        MpvEvent::Resume { .. } => MpvIpcEvent::PropertyChange {
                            id: 1,
                            name: MpvIpcPropertyValue::Pause(false),
                        },
                        MpvEvent::Seek { .. } => MpvIpcEvent::Seek,
                        MpvEvent::SpeedChange { factor } => MpvIpcEvent::PropertyChange {
                            id: 2,
                            name: MpvIpcPropertyValue::Speed(factor),
                        },
                    },
                    now,
                ),
            )
            &&& post.next == pre.next + 1
            &&& pre.next != 3 ==> post.expected == pre.expected.insert(pre.next)
            &&& post.executions == pre.executions.insert(pre.next)
            &&& post.required == pre.required && post.waiting == pre.waiting
        }),
{
}

/// The player is sent to the very time that is asked for, under the next request number; its
/// answer is expected from then on, and so is the report of the seek.
pub proof fn law_seek_goes_to_the_time(pre: MpvStateView, time: Time, now: u128)
    requires
        pre.next < u64::MAX,
    ensures
        ({
            let (post, command) = sought(pre, time, now);
            &&& command == (MpvIpcCommand::SetProperty {
                request_id: pre.next,
                property: MpvIpcPropertyValue::TimePos(time.seconds()),
            })
            &&& post.ignored == pre.ignored.push((MpvIpcEvent::Seek, now))
            &&& post.next == pre.next + 1
            &&& pre.next != 3 ==> post.expected == pre.expected.insert(pre.next)
            &&& post.executions == pre.executions.insert(pre.next)
            &&& post.required == pre.required && post.waiting == pre.waiting
        }),
{
}

/// A property is observed under the id that is given and the next request number; its answer
/// is expected from then on, and so is the value that the player reports at once.
pub proof fn law_property_is_observed(
    pre: MpvStateView,
    id: u64,
    property: MpvIpcProperty,
    value: MpvIpcPropertyValue,
    now: u128,
)
    requires
        pre.next < u64::MAX,
    ensures
        ({
            let (post, command) = observed(pre, id, property, value, now);
            &&& command == (MpvIpcCommand::ObserveProperty {
                request_id: pre.next,
                id,
                property,
            })
            &&& post.ignored == pre.ignored.push(
                (MpvIpcEvent::PropertyChange { id, name: value }, now),
            )
            &&& post.next == pre.next + 1
            &&& pre.next != 3 ==> post.expected == pre.expected.insert(pre.next)
            &&& post.executions == pre.executions.insert(pre.next)
            &&& post.required == pre.required && post.waiting == pre.waiting
        }),
{
}

/// A conversation begins with the observation of the speed: normal speed is no change, and
/// nothing else is known or waited for.
pub proof fn law_conversation_begins_with_the_speed(now: u128, r: (Mpv, MpvIpcCommand))
    requires
        call_ensures(Mpv::new, (now,), r),
    ensures
        r.1 == (MpvIpcCommand::ObserveProperty {
            request_id: 4,
            id: 2,
            property: MpvIpcProperty::Speed,
        }),
        r.0@.ignored == seq![
            (
                MpvIpcEvent::PropertyChange {
                    id: 2,
                    name: MpvIpcPropertyValue::Speed((Double { bits: 0x3FF0_0000_0000_0000 })),
                },
                now,
            ),
        ],
        r.0@.expected == set![4u64],
        r.0@.executions == set![4u64],
        r.0@.required.len() == 0 && r.0@.waiting.len() == 0,
        r.0@.next == 5,
{
    assert(Set::<u64>::empty().insert(4u64) =~= set![4u64]);
}

/// Who asks for the time waits for it behind all who have asked before; nothing else changes
/// but that the player is asked.
pub proof fn law_asking_for_the_time_is_queued(pre: MpvStateView, waiter: u64)
    ensures
        ({
            let post = time_requested(pre, waiter);
            &&& post.waiting == pre.waiting.push(waiter)
            &&& post.required == pre.required && post.ignored == pre.ignored
            &&& post.expected == pre.expected && post.next == pre.next
            &&& post.executions == pre.executions.insert(3)
        }),
        time_command() == (MpvIpcCommand::GetProperty {
            request_id: 3,
            property: MpvIpcProperty::TimePos,
        }),
{
}

/// What has succeeded is not tried again, however often it was tried, and two outcomes make a
/// success only if both are one.
pub proof fn law_success_is_done(
    tries: Tries,
    a: ExecutionResponse,
    b: ExecutionResponse,
    both: ExecutionResponse,
    status: MpvIpcErrorStatus,
    counted: ExecutionResponse,
)
    requires
        call_ensures(ExecutionResponse::and, (a, b), both),
        call_ensures(<ExecutionResponse as From<MpvIpcErrorStatus>>::from, (status,), counted),
    ensures
        tries.verdict(ExecutionResponse::Success) is Done,
        !(tries.verdict(ExecutionResponse::Failed) is Done),
        both is Success <==> a is Success && b is Success,
        counted is Success <==> status is Success,
{
}

/// A pause at a time is a pause, and anything else the end of one, at that time.
pub proof fn law_paused_event_pauses(pause: bool, time: Time, event: MpvEvent)
    requires
        call_ensures(MpvEvent::new_paused, (pause, time), event),
    ensures
        pause ==> event == (MpvEvent::Pause { time }),
        !pause ==> event == (MpvEvent::Resume { time }),
{
}

/// Expecting an event notes it last, and looking for one tells whether it was expected and
/// takes it off.
pub proof fn law_bundle_is_a_list_of_expectations(event: MpvIpcEvent, now: u128, expected: bool)
    ensures
        forall|bundle: &mut EventBundle| #[trigger]
            call_ensures(EventBundle::push, (bundle, event, now), ()) ==> final(bundle).events@
                == bundle.events@.push((event, now)),
        forall|bundle: &mut EventBundle| #[trigger]
            call_ensures(EventBundle::remove_if_contains, (bundle, &event, now), expected) ==> {
                &&& expected == expects(bundle.events@, event, now)
                &&& final(bundle).events@ == looked_for(bundle.events@, event, now)
            },
{
}

/// Each part of the conversation takes it by the step that belongs to it, and keeps it well
/// formed.
pub proof fn law_conversation_takes_its_steps(
    event: MpvEvent,
    execution: Execution,
    time: Time,
    command: MpvIpcCommand,
    waiter: u64,
    msg: MpvIpcResponseOrEvent,
    actions: Vec<MpvAction>,
    id: u64,
    now: u128,
)
    ensures
        forall|mpv: &mut Mpv| #[trigger]
            call_ensures(Mpv::try_execute_event, (mpv, event, now), execution) ==> (
                final(mpv)@,
                execution,
            ) == executed(mpv@, event, now) && final(mpv)@.well_formed(),
        forall|mpv: &mut Mpv| #[trigger]
            call_ensures(Mpv::execute_seek, (mpv, time, now), command) ==> (final(mpv)@, command)
                == sought(mpv@, time, now) && final(mpv)@.well_formed(),
        forall|mpv: &mut Mpv| #[trigger]
            call_ensures(Mpv::request_time, (mpv, waiter), command) ==> final(mpv)@
                == time_requested(mpv@, waiter) && command == time_command() && final(mpv)@.well_formed(),
        forall|mpv: &mut Mpv| #[trigger]
            call_ensures(Mpv::process_mpv_response, (mpv, msg, now), actions) ==> (
                final(mpv)@,
                actions@,
            ) == processed(mpv@, msg, now) && final(mpv)@.well_formed(),
        forall|mpv: &mut Mpv| #[trigger]
            call_ensures(Mpv::observe_pause, (mpv, now), command) ==> (final(mpv)@, command)
                == observed(
                mpv@,
                1,
                MpvIpcProperty::Pause,
                MpvIpcPropertyValue::Pause(false),
                now,
            ) && final(mpv)@.well_formed(),
        forall|mpv: &mut Mpv| #[trigger]
            call_ensures(Mpv::new_request_id, (mpv,), id) ==> id == mpv@.next && final(mpv)@
                == mpv@.numbered(),
{
}

/// A try that has failed is counted if another is due; nothing else is.
pub proof fn law_tries_are_counted(
    attempts: u32,
    begun: Tries,
    response: ExecutionResponse,
    verdict: Verdict,
)
    requires
        call_ensures(Tries::new, (attempts,), begun),
    ensures
        begun == (Tries { attempt: 1, attempts }),
        forall|tries: &mut Tries| #[trigger]
            call_ensures(Tries::after_response, (tries, response), verdict) ==> {
                &&& verdict is Done <==> response is Success
                &&& verdict is TryAgain <==> response is Failed && tries.attempt < tries.attempts
                &&& verdict is TryAgain ==> final(tries).attempt == tries.attempt + 1
                &&& !(verdict is TryAgain) ==> final(tries).attempt == tries.attempt
                &&& final(tries).attempts == tries.attempts
            },
{
}

/// Every line of the player is dealt with, but for an answer to the request for the time that
/// brings no finite one; and everything can be asked of the player as long as the request
/// numbers last.  What has failed is tried again after a quarter of a second.
pub proof fn law_every_line_is_dealt_with(
    msg: MpvIpcResponseOrEvent,
    event: MpvEvent,
    time: Time,
    waiter: u64,
    now: u128,
)
    ensures
        forall|mpv: &mut Mpv|
            mpv@.well_formed() && (match msg {
                MpvIpcResponseOrEvent::Response(response) => response.request_id == 3 ==> (
                response.data matches Some(MpvIpcData::Number(t)) && t.finite()),
                MpvIpcResponseOrEvent::Event(_) => true,
            }) ==> #[trigger] call_requires(Mpv::process_mpv_response, (mpv, msg, now)),
        forall|mpv: &mut Mpv|
            mpv@.well_formed() && mpv@.next < u64::MAX ==> #[trigger] call_requires(
                Mpv::try_execute_event,
                (mpv, event, now),
            ),
        forall|mpv: &mut Mpv|
            mpv@.well_formed() && mpv@.next < u64::MAX ==> #[trigger] call_requires(
                Mpv::execute_seek,
                (mpv, time, now),
            ),
        forall|mpv: &mut Mpv|
            mpv@.well_formed() ==> #[trigger] call_requires(Mpv::request_time, (mpv, waiter)),
        RETRY_DELAY_MS == 250,
{
}

} // verus!
