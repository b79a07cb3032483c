//! The JSON objects that are sent to mpv.

use vstd::prelude::*;

use crate::double::Double;

verus! {

/// A JSON value that stands in a command.
#[derive(Debug, Clone, Copy, PartialEq)]
pub enum Json {
    Null,
    Bool(bool),
    Unsigned(u64),
    Number(Double),
    Text(&'static str),
}

impl Json {
    /// The value that stands for a double: JSON has no infinities and no NaN, so null
    /// stands for these.
    pub open spec fn of_double(x: Double) -> Json {
        if x.finite() {
            Json::Number(x)
        } else {
            Json::Null
        }
    }

    /// The value that stands for a double.
    pub fn from_double(x: Double) -> (json: Json)
        ensures
            json == Json::of_double(x),
    {
        if x.is_nan() || x.is_infinite() {
            Json::Null
        } else {
            Json::Number(x)
        }
    }
}

/// The JSON object `{"command": [..], "request_id": ..}`.
#[derive(Debug, Clone, PartialEq)]
pub struct JsonCommand {
    pub command: Vec<Json>,
    pub request_id: u64,
}

/// A finite number is written as itself, and any other as null.
pub proof fn law_numbers_are_written_if_finite(x: Double, json: Json)
    requires
        call_ensures(Json::from_double, (x,), json),
    ensures
        x.finite() ==> json == Json::Number(x),
        !x.finite() ==> json is Null,
{
}

} // verus!
