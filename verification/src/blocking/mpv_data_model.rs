//! What the blocking client and mpv tell each other.

use vstd::prelude::*;

use crate::double::Double;
use crate::json::{Json, JsonCommand};

verus! {

/// A command for the player.
#[derive(Debug, Clone, Copy, PartialEq)]
pub enum MpvCommand {
    GetProperty { request_id: u64, property: MpvProperty },
    SetProperty { request_id: u64, property: MpvPropertyValue },
    ObserveProperty { request_id: u64, id: u64, property: MpvProperty },
}

/// A property of the player and its value.
#[derive(Debug, Clone, Copy)]
pub enum MpvPropertyValue {
    Pause(bool),
    TimePos(Double),
    Speed(Double),
}

/// A property of the player.
#[derive(Debug, Clone, Copy, PartialEq, Eq, Structural)]
pub enum MpvProperty {
    Pause,
    TimePos,
    Speed,
}

impl MpvProperty {
    /// What the player calls the property.
    pub open spec fn name(self) -> &'static str {
        match self {
            MpvProperty::Pause => "pause",
            MpvProperty::TimePos => "time-pos",
            MpvProperty::Speed => "speed",
        }
    }

    /// What the player calls the property.
    pub fn to_string(&self) -> (name: &'static str)
        ensures
            name == self.name(),
    {
        match self {
            MpvProperty::Pause => "pause",
            MpvProperty::TimePos => "time-pos",
            MpvProperty::Speed => "speed",
        }
    }
}

impl MpvCommand {
    /// The words of the command.
    pub open spec fn words(self) -> Seq<Json> {
        match self {
            MpvCommand::GetProperty { property, .. } => seq![
                Json::Text("get_property"),
                Json::Text(property.name()),
            ],
            MpvCommand::SetProperty { property, .. } => seq![
                Json::Text("set_property"),
                Json::Text(property.property().name()),
                property.value(),
            ],
            MpvCommand::ObserveProperty { id, property, .. } => seq![
                Json::Text("observe_property"),
                Json::Unsigned(id),
                Json::Text(property.name()),
            ],
        }
    }

    /// The command in the form that the player reads.
    pub fn to_json_command(&self) -> (json: JsonCommand)
        ensures
            json.command@ == self.words(),
            json.request_id == (match *self {
                MpvCommand::GetProperty { request_id, .. } => request_id,
                MpvCommand::SetProperty { request_id, .. } => request_id,
                MpvCommand::ObserveProperty { request_id, .. } => request_id,
            }),
    {
        match self {
            MpvCommand::GetProperty { request_id, property } => {
                let mut command: Vec<Json> = Vec::new();
                command.push(Json::Text("get_property"));
                command.push(Json::Text(property.to_string()));
                assert(command@ =~= self.words());
                JsonCommand { command, request_id: *request_id }
            },
            MpvCommand::SetProperty { request_id, property } => {
                let mut command: Vec<Json> = property.to_cmd_list();
                command.insert(0, Json::Text("set_property"));
                assert(command@ =~= self.words());
                JsonCommand { command, request_id: *request_id }
            },
            MpvCommand::ObserveProperty { request_id, id, property } => {
                let mut command: Vec<Json> = Vec::new();
                command.push(Json::Text("observe_property"));
                command.push(Json::Unsigned(*id));
                command.push(Json::Text(property.to_string()));
                assert(command@ =~= self.words());
                JsonCommand { command, request_id: *request_id }
            },
        }
    }
}

impl From<MpvPropertyValue> for MpvProperty {
    fn from(val: MpvPropertyValue) -> (property: MpvProperty) {
        match val {
            MpvPropertyValue::Pause(_) => MpvProperty::Pause,
            MpvPropertyValue::TimePos(_) => MpvProperty::TimePos,
            MpvPropertyValue::Speed(_) => MpvProperty::Speed,
        }
    }
}

impl vstd::std_specs::convert::FromSpecImpl<MpvPropertyValue> for MpvProperty {
    open spec fn obeys_from_spec() -> bool {
        true
    }

    open spec fn from_spec(val: MpvPropertyValue) -> MpvProperty {
        val.property()
    }
}

impl MpvPropertyValue {
    /// The property that the value is of.
    pub open spec fn property(self) -> MpvProperty {
        match self {
            MpvPropertyValue::Pause(_) => MpvProperty::Pause,
            MpvPropertyValue::TimePos(_) => MpvProperty::TimePos,
            MpvPropertyValue::Speed(_) => MpvProperty::Speed,
        }
    }

    /// The value alone.
    pub open spec fn value(self) -> Json {
        match self {
            MpvPropertyValue::Pause(paused) => Json::Bool(paused),
            MpvPropertyValue::TimePos(time) => Json::of_double(time),
            MpvPropertyValue::Speed(speed) => Json::of_double(speed),
        }
    }

    /// What `==` says of two values; the numbers are compared as doubles.
    pub open spec fn same(self, other: MpvPropertyValue) -> bool {
        match (self, other) {
            (MpvPropertyValue::Pause(a), MpvPropertyValue::Pause(b)) => a == b,
            (MpvPropertyValue::TimePos(a), MpvPropertyValue::TimePos(b)) => a.equals(b),
            (MpvPropertyValue::Speed(a), MpvPropertyValue::Speed(b)) => a.equals(b),
            _ => false,
        }
    }

    /// The name of the property, then its value.
    pub fn to_cmd_list(&self) -> (list: Vec<Json>)
        ensures
            list@ == seq![Json::Text(self.property().name()), self.value()],
    {
        let property = MpvProperty::from(*self);
        let mut list: Vec<Json> = Vec::new();
        list.push(Json::Text(property.to_string()));
        match *self {
            MpvPropertyValue::Pause(paused) => {
                list.push(Json::Bool(paused));
            },
            MpvPropertyValue::TimePos(time) => {
                list.push(Json::from_double(time));
            },
            MpvPropertyValue::Speed(speed) => {
                list.push(Json::from_double(speed));
            },
        }
        assert(list@ =~= seq![Json::Text(self.property().name()), self.value()]);
        list
    }
}

impl PartialEq for MpvPropertyValue {
    fn eq(&self, other: &MpvPropertyValue) -> (r: bool) {
        match (*self, *other) {
            (MpvPropertyValue::Pause(a), MpvPropertyValue::Pause(b)) => a == b,
            (MpvPropertyValue::TimePos(a), MpvPropertyValue::TimePos(b)) => a == b,
            (MpvPropertyValue::Speed(a), MpvPropertyValue::Speed(b)) => a == b,
            _ => false,
        }
    }
}

impl vstd::std_specs::cmp::PartialEqSpecImpl for MpvPropertyValue {
    open spec fn obeys_eq_spec() -> bool {
        true
    }

    open spec fn eq_spec(&self, other: &MpvPropertyValue) -> bool {
        self.same(*other)
    }
}

/// What the player returns besides the status.
#[derive(Debug, Clone, Copy, PartialEq)]
pub enum MpvData {
    Number(Double),
    Other,
}

/// The player's answer to a command.
#[derive(Debug, Clone, Copy, PartialEq)]
pub struct MpvResponse {
    pub request_id: u64,
    pub error: MpvErrorStatus,
    pub data: Option<MpvData>,
}

/// How a command went.
#[derive(Debug, Clone, Copy, PartialEq, Eq, Structural)]
pub enum MpvErrorStatus {
    Success,
    InvalidParameter,
}

/// Something that happened at the player.
#[derive(Debug, Clone, Copy)]
pub enum MpvEvent {
    PropertyChange { id: u64, name: MpvPropertyValue },
    PlaybackRestart,
    Seek,
    Pause,
    Unpause,
}

impl MpvEvent {
    /// What `==` says of two events.
    pub open spec fn same(self, other: MpvEvent) -> bool {
        match (self, other) {
            (
                MpvEvent::PropertyChange { id: a, name: x },
                MpvEvent::PropertyChange { id: b, name: y },
            ) => a == b && x.same(y),
            (MpvEvent::PlaybackRestart, MpvEvent::PlaybackRestart) => true,
            (MpvEvent::Seek, MpvEvent::Seek) => true,
            (MpvEvent::Pause, MpvEvent::Pause) => true,
            (MpvEvent::Unpause, MpvEvent::Unpause) => true,
            _ => false,
        }
    }
}

impl PartialEq for MpvEvent {
    fn eq(&self, other: &MpvEvent) -> (r: bool) {
        match (*self, *other) {
            (
                MpvEvent::PropertyChange { id: a, name: x },
                MpvEvent::PropertyChange { id: b, name: y },
            ) => a == b && x == y,
            (MpvEvent::PlaybackRestart, MpvEvent::PlaybackRestart) => true,
            (MpvEvent::Seek, MpvEvent::Seek) => true,
            (MpvEvent::Pause, MpvEvent::Pause) => true,
            (MpvEvent::Unpause, MpvEvent::Unpause) => true,
            _ => false,
        }
    }
}

impl vstd::std_specs::cmp::PartialEqSpecImpl for MpvEvent {
    open spec fn obeys_eq_spec() -> bool {
        true
    }

    open spec fn eq_spec(&self, other: &MpvEvent) -> bool {
        self.same(*other)
    }
}

/// A line from the player.
#[derive(Debug, Clone, Copy, PartialEq)]
pub enum MpvResponseOrEvent {
    Event(MpvEvent),
    Response(MpvResponse),
}

/// A command is written as its words, in order: what to do, the number of the observation
/// where one is begun, the player's own name for the property, and the value where one is
/// set; and with the number of the request.
pub proof fn law_command_is_written_as_its_words(command: &MpvCommand, json: JsonCommand)
    requires
        call_ensures(MpvCommand::to_json_command, (command,), json),
    ensures
        match *command {
            MpvCommand::GetProperty { request_id, property } => {
                &&& json.request_id == request_id
                &&& json.command@.len() == 2
                &&& json.command@[0] == Json::Text("get_property")
                &&& json.command@[1] == Json::Text(
                    match property {
                        MpvProperty::Pause => "pause",
                        MpvProperty::TimePos => "time-pos",
                        MpvProperty::Speed => "speed",
                    },
                )
            },
            MpvCommand::SetProperty { request_id, property } => {
                &&& json.request_id == request_id
                &&& json.command@.len() == 3
                &&& json.command@[0] == Json::Text("set_property")
                &&& json.command@[1] == Json::Text(
                    match property {
                        MpvPropertyValue::Pause(_) => "pause",
                        MpvPropertyValue::TimePos(_) => "time-pos",
                        MpvPropertyValue::Speed(_) => "speed",
                    },
                )
                &&& match property {
                    MpvPropertyValue::Pause(paused) => json.command@[2] == Json::Bool(paused),
                    MpvPropertyValue::TimePos(x) | MpvPropertyValue::Speed(x) => if x.finite() {
                        json.command@[2] == Json::Number(x)
                    } else {
                        json.command@[2] is Null
                    },
                }
            },
            MpvCommand::ObserveProperty { request_id, id, property } => {
                &&& json.request_id == request_id
                &&& json.command@.len() == 3
                &&& json.command@[0] == Json::Text("observe_property")
                &&& json.command@[1] == Json::Unsigned(id)
                &&& json.command@[2] == Json::Text(
                    match property {
                        MpvProperty::Pause => "pause",
                        MpvProperty::TimePos => "time-pos",
                        MpvProperty::Speed => "speed",
                    },
                )
            },
        },
{
}

/// A value is listed under the player's name for its property, and belongs to that property.
pub proof fn law_value_is_listed_under_its_property(
    value: MpvPropertyValue,
    list: Vec<Json>,
    property: MpvProperty,
    name: &'static str,
)
    requires
        call_ensures(MpvPropertyValue::to_cmd_list, (&value,), list),
        call_ensures(<MpvProperty as From<MpvPropertyValue>>::from, (value,), property),
        call_ensures(MpvProperty::to_string, (&property,), name),
    ensures
        list@.len() == 2,
        list@[0] == Json::Text(name),
        match value {
            MpvPropertyValue::Pause(paused) => property is Pause && name == "pause" && list@[1]
                == Json::Bool(paused),
            MpvPropertyValue::TimePos(x) => property is TimePos && name == "time-pos" && list@[1]
                == (if x.finite() {
                Json::Number(x)
            } else {
                Json::Null
            }),
            MpvPropertyValue::Speed(x) => property is Speed && name == "speed" && list@[1] == (
            if x.finite() {
                Json::Number(x)
            } else {
                Json::Null
            }),
        },
{
}

/// Values are the same if they are of one property and equal as what they are.
pub proof fn law_values_are_compared_within_a_property(
    a: MpvPropertyValue,
    b: MpvPropertyValue,
    equal: bool,
)
    requires
        call_ensures(<MpvPropertyValue as PartialEq>::eq, (&a, &b), equal),
    ensures
        equal <==> match (a, b) {
            (MpvPropertyValue::Pause(x), MpvPropertyValue::Pause(y)) => x == y,
            (MpvPropertyValue::TimePos(x), MpvPropertyValue::TimePos(y)) => !x.nan() && !y.nan()
                && x.units() == y.units(),
            (MpvPropertyValue::Speed(x), MpvPropertyValue::Speed(y)) => !x.nan() && !y.nan()
                && x.units() == y.units(),
            _ => false,
        },
{
}

} // verus!
