//! What is said over mpv's IPC socket.

use vstd::prelude::*;

use crate::double::Double;
use crate::json::{Json, JsonCommand};

verus! {

/// A command for the player.
#[derive(Debug, Clone, Copy, PartialEq)]
pub enum MpvIpcCommand {
    GetProperty { request_id: u64, property: MpvIpcProperty },
    SetProperty { request_id: u64, property: MpvIpcPropertyValue },
    ObserveProperty { request_id: u64, id: u64, property: MpvIpcProperty },
}

/// A property of the player and its value.
#[derive(Debug, Clone, Copy)]
pub enum MpvIpcPropertyValue {
    Pause(bool),
    TimePos(Double),
    Speed(Double),
}

/// A property of the player.
#[derive(Debug, Clone, Copy, PartialEq, Eq, Structural)]
pub enum MpvIpcProperty {
    Pause,
    TimePos,
    Speed,
}

impl MpvIpcProperty {
    /// What the player calls the property.
    pub open spec fn name(self) -> &'static str {
        match self {
            MpvIpcProperty::Pause => "pause",
            MpvIpcProperty::TimePos => "time-pos",
            MpvIpcProperty::Speed => "speed",
        }
    }

    /// What the player calls the property.
    pub fn to_string(&self) -> (name: &'static str)
        ensures
            name == self.name(),
    {
        match self {
            MpvIpcProperty::Pause => "pause",
            MpvIpcProperty::TimePos => "time-pos",
            MpvIpcProperty::Speed => "speed",
        }
    }
}

impl MpvIpcCommand {
    /// The number by which the player answers the command.
    pub open spec fn request(self) -> u64 {
        match self {
            MpvIpcCommand::GetProperty { request_id, .. } => request_id,
            MpvIpcCommand::SetProperty { request_id, .. } => request_id,
            MpvIpcCommand::ObserveProperty { request_id, .. } => request_id,
        }
    }

    /// The number by which the player answers the command.
    pub fn get_request_id(&self) -> (id: u64)
        ensures
            id == self.request(),
    {
        match self {
            MpvIpcCommand::GetProperty { request_id, .. } => *request_id,
            MpvIpcCommand::SetProperty { request_id, .. } => *request_id,
            MpvIpcCommand::ObserveProperty { request_id, .. } => *request_id,
        }
    }

    /// The words of the command.
    pub open spec fn words(self) -> Seq<Json> {
        match self {
            MpvIpcCommand::GetProperty { property, .. } => seq![
                Json::Text("get_property"),
                Json::Text(property.name()),
            ],
            MpvIpcCommand::SetProperty { property, .. } => seq![
                Json::Text("set_property"),
                Json::Text(property.property().name()),
                property.value(),
            ],
            MpvIpcCommand::ObserveProperty { id, property, .. } => seq![
                Json::Text("observe_property"),
                Json::Unsigned(id),
                Json::Text(property.name()),
            ],
        }
    }

    /// The command in the form that the player reads.
    pub fn to_json_command(&self) -> (json: JsonCommand)
        ensures
            json.command@ == self.words(),
            json.request_id == self.request(),
    {
        match self {
            MpvIpcCommand::GetProperty { request_id, property } => {
                let mut command: Vec<Json> = Vec::new();
                command.push(Json::Text("get_property"));
                command.push(Json::Text(property.to_string()));
                assert(command@ =~= self.words());
                JsonCommand { command, request_id: *request_id }
            },
            MpvIpcCommand::SetProperty { request_id, property } => {
                let mut command: Vec<Json> = property.to_cmd_list();
                command.insert(0, Json::Text("set_property"));
                assert(command@ =~= self.words());
                JsonCommand { command, request_id: *request_id }
            },
            MpvIpcCommand::ObserveProperty { request_id, id, property } => {
                let mut command: Vec<Json> = Vec::new();
                command.push(Json::Text("observe_property"));
                command.push(Json::Unsigned(*id));
                command.push(Json::Text(property.to_string()));
                assert(command@ =~= self.words());
                JsonCommand { command, request_id: *request_id }
            },
        }
    }
}

impl From<MpvIpcPropertyValue> for MpvIpcProperty {
    fn from(val: MpvIpcPropertyValue) -> (property: MpvIpcProperty) {
        match val {
            MpvIpcPropertyValue::Pause(_) => MpvIpcProperty::Pause,
            MpvIpcPropertyValue::TimePos(_) => MpvIpcProperty::TimePos,
            MpvIpcPropertyValue::Speed(_) => MpvIpcProperty::Speed,
        }
    }
}

impl vstd::std_specs::convert::FromSpecImpl<MpvIpcPropertyValue> for MpvIpcProperty {
    open spec fn obeys_from_spec() -> bool {
        true
    }

    open spec fn from_spec(val: MpvIpcPropertyValue) -> MpvIpcProperty {
        val.property()
    }
}

impl MpvIpcPropertyValue {
    /// The property that the value is of.
    pub open spec fn property(self) -> MpvIpcProperty {
        match self {
            MpvIpcPropertyValue::Pause(_) => MpvIpcProperty::Pause,
            MpvIpcPropertyValue::TimePos(_) => MpvIpcProperty::TimePos,
            MpvIpcPropertyValue::Speed(_) => MpvIpcProperty::Speed,
        }
    }

    /// The value alone.
    pub open spec fn value(self) -> Json {
        match self {
            MpvIpcPropertyValue::Pause(paused) => Json::Bool(paused),
            MpvIpcPropertyValue::TimePos(time) => Json::of_double(time),
            MpvIpcPropertyValue::Speed(speed) => Json::of_double(speed),
        }
    }

    /// What `==` says of two values; the numbers are compared as doubles.
    pub open spec fn same(self, other: MpvIpcPropertyValue) -> bool {
        match (self, other) {
            (MpvIpcPropertyValue::Pause(a), MpvIpcPropertyValue::Pause(b)) => a == b,
            (MpvIpcPropertyValue::TimePos(a), MpvIpcPropertyValue::TimePos(b)) => a.equals(b),
            (MpvIpcPropertyValue::Speed(a), MpvIpcPropertyValue::Speed(b)) => a.equals(b),
            _ => false,
        }
    }

    /// The name of the property, then its value.
    pub fn to_cmd_list(&self) -> (list: Vec<Json>)
        ensures
            list@ == seq![Json::Text(self.property().name()), self.value()],
    {
        let property = MpvIpcProperty::from(*self);
        let mut list: Vec<Json> = Vec::new();
        list.push(Json::Text(property.to_string()));
        match *self {
            MpvIpcPropertyValue::Pause(paused) => {
                list.push(Json::Bool(paused));
            },
            MpvIpcPropertyValue::TimePos(time) => {
                list.push(Json::from_double(time));
            },
            MpvIpcPropertyValue::Speed(speed) => {
                list.push(Json::from_double(speed));
            },
        }
        assert(list@ =~= seq![Json::Text(self.property().name()), self.value()]);
        list
    }
}

impl PartialEq for MpvIpcPropertyValue {
    fn eq(&self, other: &MpvIpcPropertyValue) -> (r: bool) {
        match (*self, *other) {
            (MpvIpcPropertyValue::Pause(a), MpvIpcPropertyValue::Pause(b)) => a == b,
            (MpvIpcPropertyValue::TimePos(a), MpvIpcPropertyValue::TimePos(b)) => a == b,
            (MpvIpcPropertyValue::Speed(a), MpvIpcPropertyValue::Speed(b)) => a == b,
            _ => false,
        }
    }
}

impl vstd::std_specs::cmp::PartialEqSpecImpl for MpvIpcPropertyValue {
    open spec fn obeys_eq_spec() -> bool {
        true
    }

    open spec fn eq_spec(&self, other: &MpvIpcPropertyValue) -> bool {
        self.same(*other)
    }
}

/// What the player returns besides the status.
#[derive(Debug, Clone, Copy, PartialEq)]
pub enum MpvIpcData {
    Number(Double),
    Other,
}

/// The player's answer to a command.
#[derive(Debug, Clone, Copy, PartialEq)]
pub struct MpvIpcResponse {
    pub request_id: u64,
    pub error: MpvIpcErrorStatus,
    pub data: Option<MpvIpcData>,
}

/// How a command went.
#[derive(Debug, Clone, Copy, PartialEq, Eq, Structural)]
pub enum MpvIpcErrorStatus {
    Success,
    InvalidParameter,
    PropertyUnavailable,
}

/// Something that happened at the player.
#[derive(Debug, Clone, Copy)]
pub enum MpvIpcEvent {
    PropertyChange { id: u64, name: MpvIpcPropertyValue },
    PlaybackRestart,
    Seek,
    Pause,
    Unpause,
}

impl MpvIpcEvent {
    /// What `==` says of two events.
    pub open spec fn same(self, other: MpvIpcEvent) -> bool {
        match (self, other) {
            (
                MpvIpcEvent::PropertyChange { id: a, name: x },
                MpvIpcEvent::PropertyChange { id: b, name: y },
            ) => a == b && x.same(y),
            (MpvIpcEvent::PlaybackRestart, MpvIpcEvent::PlaybackRestart) => true,
            (MpvIpcEvent::Seek, MpvIpcEvent::Seek) => true,
            (MpvIpcEvent::Pause, MpvIpcEvent::Pause) => true,
            (MpvIpcEvent::Unpause, MpvIpcEvent::Unpause) => true,
            _ => false,
        }
    }
}

impl PartialEq for MpvIpcEvent {
    fn eq(&self, other: &MpvIpcEvent) -> (r: bool) {
        match (*self, *other) {
            (
                MpvIpcEvent::PropertyChange { id: a, name: x },
                MpvIpcEvent::PropertyChange { id: b, name: y },
            ) => a == b && x == y,
            (MpvIpcEvent::PlaybackRestart, MpvIpcEvent::PlaybackRestart) => true,
            (MpvIpcEvent::Seek, MpvIpcEvent::Seek) => true,
            (MpvIpcEvent::Pause, MpvIpcEvent::Pause) => true,
            (MpvIpcEvent::Unpause, MpvIpcEvent::Unpause) => true,
            _ => false,
        }
    }
}

impl vstd::std_specs::cmp::PartialEqSpecImpl for MpvIpcEvent {
    open spec fn obeys_eq_spec() -> bool {
        true
    }

    open spec fn eq_spec(&self, other: &MpvIpcEvent) -> bool {
        self.same(*other)
    }
}

/// A line from the player.
#[derive(Debug, Clone, Copy, PartialEq)]
pub enum MpvIpcResponseOrEvent {
    Event(MpvIpcEvent),
    Response(MpvIpcResponse),
}

/// A command is written as its words, in order: what to do, the number of the observation
/// where one is begun, the player's own name for the property, and the value where one is
/// set; and with the number of the request.
pub proof fn law_command_is_written_as_its_words(command: &MpvIpcCommand, json: JsonCommand)
    requires
        call_ensures(MpvIpcCommand::to_json_command, (command,), json),
    ensures
        match *command {
            MpvIpcCommand::GetProperty { request_id, property } => {
                &&& json.request_id == request_id
                &&& json.command@.len() == 2
                &&& json.command@[0] == Json::Text("get_property")
                &&& json.command@[1] == Json::Text(
                    match property {
                        MpvIpcProperty::Pause => "pause",
                        MpvIpcProperty::TimePos => "time-pos",
                        MpvIpcProperty::Speed => "speed",
                    },
                )
            },
            MpvIpcCommand::SetProperty { request_id, property } => {
                &&& json.request_id == request_id
                &&& json.command@.len() == 3
                &&& json.command@[0] == Json::Text("set_property")
                &&& json.command@[1] == Json::Text(
                    match property {
                        MpvIpcPropertyValue::Pause(_) => "pause",
                        MpvIpcPropertyValue::TimePos(_) => "time-pos",
                        MpvIpcPropertyValue::Speed(_) => "speed",
                    },
                )
                &&& match property {
                    MpvIpcPropertyValue::Pause(paused) => json.command@[2] == Json::Bool(paused),
                    MpvIpcPropertyValue::TimePos(x) | MpvIpcPropertyValue::Speed(x) => if x.finite() {
                        json.command@[2] == Json::Number(x)
                    } else {
                        json.command@[2] is Null
                    },
                }
            },
            MpvIpcCommand::ObserveProperty { request_id, id, property } => {
                &&& json.request_id == request_id
                &&& json.command@.len() == 3
                &&& json.command@[0] == Json::Text("observe_property")
                &&& json.command@[1] == Json::Unsigned(id)
                &&& json.command@[2] == Json::Text(
                    match property {
                        MpvIpcProperty::Pause => "pause",
                        MpvIpcProperty::TimePos => "time-pos",
                        MpvIpcProperty::Speed => "speed",
                    },
                )
            },
        },
{
}

/// A value is listed under the player's name for its property, and belongs to that property.
pub proof fn law_value_is_listed_under_its_property(
    value: MpvIpcPropertyValue,
    list: Vec<Json>,
    property: MpvIpcProperty,
    name: &'static str,
)
    requires
        call_ensures(MpvIpcPropertyValue::to_cmd_list, (&value,), list),
        call_ensures(<MpvIpcProperty as From<MpvIpcPropertyValue>>::from, (value,), property),
        call_ensures(MpvIpcProperty::to_string, (&property,), name),
    ensures
        list@.len() == 2,
        list@[0] == Json::Text(name),
        match value {
            MpvIpcPropertyValue::Pause(paused) => property is Pause && name == "pause" && list@[1]
                == Json::Bool(paused),
            MpvIpcPropertyValue::TimePos(x) => property is TimePos && name == "time-pos" && list@[1]
                == (if x.finite() {
                Json::Number(x)
            } else {
                Json::Null
            }),
            MpvIpcPropertyValue::Speed(x) => property is Speed && name == "speed" && list@[1] == (
            if x.finite() {
                Json::Number(x)
            } else {
                Json::Null
            }),
        },
{
}

/// Values are the same if they are of one property and equal as what they are.
pub proof fn law_values_are_compared_within_a_property(
    a: MpvIpcPropertyValue,
    b: MpvIpcPropertyValue,
    equal: bool,
)
    requires
        call_ensures(<MpvIpcPropertyValue as PartialEq>::eq, (&a, &b), equal),
    ensures
        equal <==> match (a, b) {
            (MpvIpcPropertyValue::Pause(x), MpvIpcPropertyValue::Pause(y)) => x == y,
            (MpvIpcPropertyValue::TimePos(x), MpvIpcPropertyValue::TimePos(y)) => !x.nan() && !y.nan()
                && x.units() == y.units(),
            (MpvIpcPropertyValue::Speed(x), MpvIpcPropertyValue::Speed(y)) => !x.nan() && !y.nan()
                && x.units() == y.units(),
            _ => false,
        },
{
}

/// The number of a command is the one that it was given.
pub proof fn law_command_keeps_its_number(command: &MpvIpcCommand, id: u64)
    requires
        call_ensures(MpvIpcCommand::get_request_id, (command,), id),
    ensures
        *command matches MpvIpcCommand::GetProperty { request_id, .. } ==> id == request_id,
        *command matches MpvIpcCommand::SetProperty { request_id, .. } ==> id == request_id,
        *command matches MpvIpcCommand::ObserveProperty { request_id, .. } ==> id == request_id,
        id == command.request(),
{
}

/// Events are the same if they are of one kind; changes of a property also need the same
/// observation and the same value.
pub proof fn law_events_are_compared_by_kind(a: MpvIpcEvent, b: MpvIpcEvent, equal: bool)
    requires
        call_ensures(<MpvIpcEvent as PartialEq>::eq, (&a, &b), equal),
    ensures
        equal == a.same(b),
        a is Seek && b is Seek ==> equal,
        a is Pause && b is Pause ==> equal,
        a is Unpause && b is Unpause ==> equal,
        a is PlaybackRestart && b is PlaybackRestart ==> equal,
        equal ==> (a is Seek == b is Seek) && (a is Pause == b is Pause) && (a is Unpause
            == b is Unpause) && (a is PlaybackRestart == b is PlaybackRestart),
        match (a, b) {
            (
                MpvIpcEvent::PropertyChange { id: i, name: MpvIpcPropertyValue::Pause(x) },
                MpvIpcEvent::PropertyChange { id: j, name: MpvIpcPropertyValue::Pause(y) },
            ) => equal <==> i == j && x == y,
            (
                MpvIpcEvent::PropertyChange { id: i, name: MpvIpcPropertyValue::Speed(x) },
                MpvIpcEvent::PropertyChange { id: j, name: MpvIpcPropertyValue::Speed(y) },
            ) => equal <==> i == j && !x.nan() && !y.nan() && x.units() == y.units(),
            (
                MpvIpcEvent::PropertyChange { id: i, name: MpvIpcPropertyValue::TimePos(x) },
                MpvIpcEvent::PropertyChange { id: j, name: MpvIpcPropertyValue::TimePos(y) },
            ) => equal <==> i == j && !x.nan() && !y.nan() && x.units() == y.units(),
            (
                MpvIpcEvent::PropertyChange { .. },
                MpvIpcEvent::PropertyChange { .. },
            ) => !equal,
            _ => true,
        },
{
}

} // verus!
