//! What the synchronization server and its clients tell each other.

use vstd::prelude::*;

use crate::double::Double;
use crate::time::Time;

verus! {

/// What a client sends.
#[derive(Debug, Clone)]
pub enum ClientMessage {
    Init(ClientInit),
    Update(ClientUpdate),
}

/// How a client introduces itself.
#[derive(Debug, Clone)]
pub struct ClientInit {
    pub video_hash: String,
    pub name: String,
}

/// A change at a client's player, or the time that it has come to.
#[derive(Debug, Clone, Copy)]
pub enum ClientUpdate {
    Timestamp { time: Time },
    Seek { time: Time },
    Pause { time: Time },
    Resume { time: Time },
    SpeedChange { factor: Double },
}

/// Why the server ends a connection.
#[derive(Debug, Clone, Copy)]
pub enum ServerDisconnect {
    IncorrectHash,
}

/// What made the server change the players.
#[derive(Debug, Clone)]
pub enum UpdateCause {
    /// The client of this name did it.
    UserAction(String),
    Synchronize,
}

/// The parts of a player's state that are to be set.
#[derive(Debug, Clone)]
pub struct PlayerState {
    pub time: Option<Time>,
    pub speed: Option<Double>,
    pub paused: Option<bool>,
}

/// A change that the players are to follow.
#[derive(Debug, Clone)]
pub struct PlayerUpdate {
    pub state: PlayerState,
    pub cause: UpdateCause,
}

/// Somebody, by name, has come or gone.
#[derive(Debug, Clone)]
pub enum UserUpdate {
    Connected(String),
    Disconnected(String),
}

/// What a client is told first.
#[derive(Debug, Clone)]
pub struct ServerInit {
    pub player_state: PlayerState,
    pub users: Vec<String>,
}

/// What the server sends.
#[derive(Debug, Clone)]
pub enum ServerMessage {
    Init(ServerInit),
    UserUpdate(UserUpdate),
    PlayerUpdate(PlayerUpdate),
    Disconnect(ServerDisconnect),
}

impl PlayerUpdate {
    /// An update that sets nothing yet.
    pub fn new(cause: UpdateCause) -> (update: Self)
        ensures
            update.state == (PlayerState { time: None, speed: None, paused: None }),
            update.cause == cause,
    {
        PlayerUpdate { state: PlayerState { time: None, speed: None, paused: None }, cause }
    }

    /// The same update, which sets the time too.
    pub fn with_time(self, t: Time) -> (update: Self)
        ensures
            update == self.timed(t),
    {
        let mut update = self;
        update.state.time = Some(t);
        update
    }

    /// The same update, which pauses or resumes too.
    pub fn with_pause(self, p: bool) -> (update: Self)
        ensures
            update == self.pausing(p),
    {
        let mut update = self;
        update.state.paused = Some(p);
        update
    }

    /// The same update, which sets the speed too.
    pub fn with_speed(self, s: Double) -> (update: Self)
        ensures
            update == self.speeding(s),
    {
        let mut update = self;
        update.state.speed = Some(s);
        update
    }

    /// This update with the time set.
    pub open spec fn timed(self, t: Time) -> PlayerUpdate {
        PlayerUpdate { state: PlayerState { time: Some(t), ..self.state }, ..self }
    }

    /// This update with the pause set.
    pub open spec fn pausing(self, p: bool) -> PlayerUpdate {
        PlayerUpdate { state: PlayerState { paused: Some(p), ..self.state }, ..self }
    }

    /// This update with the speed set.
    pub open spec fn speeding(self, s: Double) -> PlayerUpdate {
        PlayerUpdate { state: PlayerState { speed: Some(s), ..self.state }, ..self }
    }
}

/// The parts of an update can be set in any order, and what is set last stands.
pub proof fn law_update_parts_are_independent(
    u: PlayerUpdate,
    t: Time,
    earlier: Time,
    p: bool,
    s: Double,
)
    ensures
        u.timed(t).pausing(p) == u.pausing(p).timed(t),
        u.timed(t).speeding(s) == u.speeding(s).timed(t),
        u.pausing(p).speeding(s) == u.speeding(s).pausing(p),
        u.timed(earlier).timed(t) == u.timed(t),
        u.pausing(!p).pausing(p) == u.pausing(p),
{
}

impl From<ClientInit> for ClientMessage {
    fn from(inner: ClientInit) -> (msg: ClientMessage) {
        ClientMessage::Init(inner)
    }
}

impl vstd::std_specs::convert::FromSpecImpl<ClientInit> for ClientMessage {
    open spec fn obeys_from_spec() -> bool {
        true
    }

    open spec fn from_spec(inner: ClientInit) -> ClientMessage {
        ClientMessage::Init(inner)
    }
}

impl From<ClientUpdate> for ClientMessage {
    fn from(inner: ClientUpdate) -> (msg: ClientMessage) {
        ClientMessage::Update(inner)
    }
}

impl vstd::std_specs::convert::FromSpecImpl<ClientUpdate> for ClientMessage {
    open spec fn obeys_from_spec() -> bool {
        true
    }

    open spec fn from_spec(inner: ClientUpdate) -> ClientMessage {
        ClientMessage::Update(inner)
    }
}

impl From<ServerInit> for ServerMessage {
    fn from(inner: ServerInit) -> (msg: ServerMessage) {
        ServerMessage::Init(inner)
    }
}

impl vstd::std_specs::convert::FromSpecImpl<ServerInit> for ServerMessage {
    open spec fn obeys_from_spec() -> bool {
        true
    }

    open spec fn from_spec(inner: ServerInit) -> ServerMessage {
        ServerMessage::Init(inner)
    }
}

impl From<UserUpdate> for ServerMessage {
    fn from(inner: UserUpdate) -> (msg: ServerMessage) {
        ServerMessage::UserUpdate(inner)
    }
}

impl vstd::std_specs::convert::FromSpecImpl<UserUpdate> for ServerMessage {
    open spec fn obeys_from_spec() -> bool {
        true
    }

    open spec fn from_spec(inner: UserUpdate) -> ServerMessage {
        ServerMessage::UserUpdate(inner)
    }
}

impl From<PlayerUpdate> for ServerMessage {
    fn from(inner: PlayerUpdate) -> (msg: ServerMessage) {
        ServerMessage::PlayerUpdate(inner)
    }
}

impl vstd::std_specs::convert::FromSpecImpl<PlayerUpdate> for ServerMessage {
    open spec fn obeys_from_spec() -> bool {
        true
    }

    open spec fn from_spec(inner: PlayerUpdate) -> ServerMessage {
        ServerMessage::PlayerUpdate(inner)
    }
}

impl From<ServerDisconnect> for ServerMessage {
    fn from(inner: ServerDisconnect) -> (msg: ServerMessage) {
        ServerMessage::Disconnect(inner)
    }
}

impl vstd::std_specs::convert::FromSpecImpl<ServerDisconnect> for ServerMessage {
    open spec fn obeys_from_spec() -> bool {
        true
    }

    open spec fn from_spec(inner: ServerDisconnect) -> ServerMessage {
        ServerMessage::Disconnect(inner)
    }
}

/// An update starts with nothing set, and each part that is set is set to what was given and
/// leaves the others alone.
pub proof fn law_update_holds_what_is_set(
    cause: UpdateCause,
    fresh: PlayerUpdate,
    u: PlayerUpdate,
    t: Time,
    timed: PlayerUpdate,
    p: bool,
    pausing: PlayerUpdate,
    s: Double,
    speeding: PlayerUpdate,
)
    requires
        call_ensures(PlayerUpdate::new, (cause,), fresh),
        call_ensures(PlayerUpdate::with_time, (u, t), timed),
        call_ensures(PlayerUpdate::with_pause, (u, p), pausing),
        call_ensures(PlayerUpdate::with_speed, (u, s), speeding),
    ensures
        fresh.cause == cause,
        fresh.state.time is None && fresh.state.paused is None && fresh.state.speed is None,
        timed.cause == u.cause && pausing.cause == u.cause && speeding.cause == u.cause,
        timed.state.time == Some(t),
        timed.state.paused == u.state.paused && timed.state.speed == u.state.speed,
        pausing.state.paused == Some(p),
        pausing.state.time == u.state.time && pausing.state.speed == u.state.speed,
        speeding.state.speed == Some(s),
        speeding.state.time == u.state.time && speeding.state.paused == u.state.paused,
{
}

/// A message holds what it was made of, under its own kind.
pub proof fn law_messages_hold_what_they_are_made_of(
    init: ClientInit,
    update: ClientUpdate,
    first: ServerInit,
    user: UserUpdate,
    player: PlayerUpdate,
    reason: ServerDisconnect,
    client: (ClientMessage, ClientMessage),
    server: (ServerMessage, ServerMessage, ServerMessage, ServerMessage),
)
    requires
        call_ensures(<ClientMessage as From<ClientInit>>::from, (init,), client.0),
        call_ensures(<ClientMessage as From<ClientUpdate>>::from, (update,), client.1),
        call_ensures(<ServerMessage as From<ServerInit>>::from, (first,), server.0),
        call_ensures(<ServerMessage as From<UserUpdate>>::from, (user,), server.1),
        call_ensures(<ServerMessage as From<PlayerUpdate>>::from, (player,), server.2),
        call_ensures(<ServerMessage as From<ServerDisconnect>>::from, (reason,), server.3),
    ensures
        client.0 == ClientMessage::Init(init),
        client.1 == ClientMessage::Update(update),
        server.0 == ServerMessage::Init(first),
        server.1 == ServerMessage::UserUpdate(user),
        server.2 == ServerMessage::PlayerUpdate(player),
        server.3 == ServerMessage::Disconnect(reason),
{
}

} // verus!
