//! The broker: it stands between the player, the synchronization server and the user.

use itertools::Itertools;
use vstd::prelude::*;

use crate::client::mpv::MpvEvent;
use crate::double::Double;
use crate::protocol::{
    ClientMessage, ClientUpdate, PlayerState, PlayerUpdate, ServerDisconnect, ServerInit,
    ServerMessage, UpdateCause, UserUpdate,
};
use crate::time::Time;

verus! {

/// What the user is told.
#[derive(Debug)]
pub enum Notice {
    Connected(String),
    Disconnected(String),
    Paused(String),
    Resumed(String),
    Synchronized(Time),
    Sought(String, Time),
    SpeedChanged(String, Double),
    /// The server has nobody else connected.
    Alone,
    /// The server has these users connected.
    Joined(Vec<String>),
}

/// The names in a list, each with a comma after it.
pub open spec fn listed(names: Seq<String>) -> Seq<char>
    decreases names.len(),
{
    if names.len() == 0 {
        seq![]
    } else {
        listed(names.drop_last()) + names.last()@ + ", "@
    }
}

/// `itertools::Itertools::interleave_shortest`, of some names and of one separator without
/// end: a name, the separator, the next name, the separator, and so on, up to the separator
/// after the last name.
#[verifier::external_body]
fn interleave_shortest<'a>(names: &'a Vec<String>, separator: &'a str) -> (pieces: Vec<&'a str>)
    ensures
        pieces@.len() == 2 * names@.len(),
        forall|i: int| 0 <= i < names@.len() ==> (#[trigger] pieces@[2 * i])@ == names@[i]@,
        forall|i: int| 0 <= i < names@.len() ==> (#[trigger] pieces@[2 * i + 1])@ == separator@,
{
    names.iter().map(String::as_str).interleave_shortest(std::iter::repeat(separator)).collect()
}

/// The names in a list, each with a comma after it.
pub fn list_names(names: &Vec<String>) -> (text: String)
    ensures
        text@ == listed(names@),
{
    let pieces = interleave_shortest(names, ", ");
    let count: usize = pieces.len();
    let mut text = String::new();
    let mut i: usize = 0;
    assert(names@.take(0).len() == 0);
    while i < names.len()
        invariant
            i <= names@.len(),
            count == pieces@.len() == 2 * names@.len(),
            forall|k: int| 0 <= k < names@.len() ==> (#[trigger] pieces@[2 * k])@ == names@[k]@,
            forall|k: int| 0 <= k < names@.len() ==> (#[trigger] pieces@[2 * k + 1])@ == ", "@,
            text@ == listed(names@.take(i as int)),
        decreases names@.len() - i,
    {
        text.append(pieces[2 * i]);
        text.append(pieces[2 * i + 1]);
        proof {
            let k = i as int;
            assert(pieces@[2 * k]@ == names@[k]@);
            assert(pieces@[2 * k + 1]@ == ", "@);
            assert(names@.take(i + 1).drop_last() =~= names@.take(i as int));
            assert(names@.take(i + 1).last() == names@[i as int]);
        }
        i = i + 1;
    }
    assert(names@.take(i as int) =~= names@);
    text
}

impl Notice {
    /// How the notice reads; `factor` is how its speed is written, where it holds one.
    pub open spec fn reads(self, factor: Seq<char>) -> Seq<char> {
        match self {
            Notice::Connected(user) => user@ + " has connected!"@,
            Notice::Disconnected(user) => user@ + " has disconnected!"@,
            Notice::Paused(user) => user@ + " paused!"@,
            Notice::Resumed(user) => user@ + " resumed!"@,
            Notice::Synchronized(time) => "Synchronization to "@ + crate::time::clock_text(
                time.seconds().whole(),
            ) + "!"@,
            Notice::Sought(user, time) => user@ + " seeked to "@ + crate::time::clock_text(
                time.seconds().whole(),
            ) + "!"@,
            Notice::SpeedChanged(user, _) => user@ + " changed speed to "@ + factor + "!"@,
            Notice::Alone => "Connected to server, no other users connected."@,
            Notice::Joined(users) => "Connected to server with "@ + listed(users@),
        }
    }

    /// How the notice reads; `factor` is how its speed is written, where it holds one.
    pub fn text(&self, factor: &str) -> (text: String)
        ensures
            text@ == self.reads(factor@),
    {
        match self {
            Notice::Connected(user) => user.clone().concat(" has connected!"),
            Notice::Disconnected(user) => user.clone().concat(" has disconnected!"),
            Notice::Paused(user) => user.clone().concat(" paused!"),
            Notice::Resumed(user) => user.clone().concat(" resumed!"),
            Notice::Synchronized(time) => {
                let mut text = "Synchronization to ".to_string();
                text.append(time.to_string().as_str());
                text.append("!");
                text
            },
            Notice::Sought(user, time) => {
                let mut text = user.clone();
                text.append(" seeked to ");
                text.append(time.to_string().as_str());
                text.append("!");
                text
            },
            Notice::SpeedChanged(user, _) => {
                let mut text = user.clone();
                text.append(" changed speed to ");
                text.append(factor);
                text.append("!");
                text
            },
            Notice::Alone => "Connected to server, no other users connected.".to_string(),
            Notice::Joined(users) => {
                let mut text = "Connected to server with ".to_string();
                text.append(list_names(users).as_str());
                text
            },
        }
    }
}

/// What the broker has done.
#[derive(Debug)]
pub enum BrokerAction {
    /// Tell the user.
    Notify(Notice),
    /// Ask the change of the player, with so many attempts.
    Execute(MpvEvent, u32),
    /// Send the message to the server.
    Send(ClientMessage),
    /// Ask the player for its time; it comes back as [`BrokerEvent::Time`].
    RequestTime,
}

/// Why the broker gives up.
#[derive(Debug, Clone, Copy, PartialEq, Eq, Structural)]
pub enum BrokerError {
    IncorrectHash,
    Reinitialized,
    MissingInit,
    InvalidInit,
}

impl BrokerError {
    /// How the error reads.
    pub open spec fn reads(self) -> &'static str {
        match self {
            BrokerError::IncorrectHash => "Incorrect video file.",
            BrokerError::Reinitialized => "Server broke protocol by re-initialising.",
            BrokerError::MissingInit => "Didn't receive init server message",
            BrokerError::InvalidInit => "Invalid initial server message",
        }
    }

    /// How the error reads.
    pub fn text(&self) -> (text: &'static str)
        ensures
            text == self.reads(),
    {
        match self {
            BrokerError::IncorrectHash => "Incorrect video file.",
            BrokerError::Reinitialized => "Server broke protocol by re-initialising.",
            BrokerError::MissingInit => "Didn't receive init server message",
            BrokerError::InvalidInit => "Invalid initial server message",
        }
    }
}

/// The notice of a change that a user has made; nothing where it was nobody's doing.
pub open spec fn announced(cause: UpdateCause, notice: spec_fn(String) -> Notice) -> Seq<
    BrokerAction,
> {
    match cause {
        UpdateCause::UserAction(user) => seq![BrokerAction::Notify(notice(user))],
        UpdateCause::Synchronize => seq![],
    }
}

/// What is done about the time and the pause in an update: the user is told, then the
/// player follows.  A pause without a time is passed over.
pub open spec fn time_part(update: PlayerUpdate) -> Seq<BrokerAction> {
    match (update.state.time, update.state.paused) {
        (Some(time), Some(true)) => announced(update.cause, |user: String| Notice::Paused(user))
            + seq![BrokerAction::Execute(MpvEvent::Pause { time }, 1)],
        (Some(time), Some(false)) => announced(update.cause, |user: String| Notice::Resumed(user))
            + seq![BrokerAction::Execute(MpvEvent::Resume { time }, 1)],
        (Some(time), None) => (if update.cause is Synchronize {
            seq![BrokerAction::Notify(Notice::Synchronized(time))]
        } else {
            announced(update.cause, |user: String| Notice::Sought(user, time))
        }) + seq![BrokerAction::Execute(MpvEvent::Seek { time }, 1)],
        _ => seq![],
    }
}

/// What is done about the speed in an update.
pub open spec fn speed_part(update: PlayerUpdate) -> Seq<BrokerAction> {
    match update.state.speed {
        Some(factor) => announced(
            update.cause,
            |user: String| Notice::SpeedChanged(user, factor),
        ) + seq![BrokerAction::Execute(MpvEvent::SpeedChange { factor }, 1)],
        None => seq![],
    }
}

/// What is done about a message of the server, once it has set the client up.
pub open spec fn followed(event: ServerMessage) -> Result<Seq<BrokerAction>, BrokerError> {
    match event {
        ServerMessage::UserUpdate(UserUpdate::Connected(user)) => Ok(
            seq![BrokerAction::Notify(Notice::Connected(user))],
        ),
        ServerMessage::UserUpdate(UserUpdate::Disconnected(user)) => Ok(
            seq![BrokerAction::Notify(Notice::Disconnected(user))],
        ),
        ServerMessage::PlayerUpdate(update) => Ok(time_part(update) + speed_part(update)),
        ServerMessage::Disconnect(ServerDisconnect::IncorrectHash) => Err(
            BrokerError::IncorrectHash,
        ),
        ServerMessage::Init(_) => Err(BrokerError::Reinitialized),
    }
}

/// Puts the notice of a user's change on the list.
fn announce_speed(cause: &UpdateCause, factor: Double, actions: &mut Vec<BrokerAction>)
    ensures
        final(actions)@ == old(actions)@ + announced(
            *cause,
            |user: String| Notice::SpeedChanged(user, factor),
        ),
{
    if let UpdateCause::UserAction(user) = cause {
        actions.push(BrokerAction::Notify(Notice::SpeedChanged(user.clone(), factor)));
    }
    assert(actions@ =~= old(actions)@ + announced(
        *cause,
        |user: String| Notice::SpeedChanged(user, factor),
    ));
}

/// Lists what is done about the time and the pause in an update.
fn follow_time(update: &PlayerUpdate) -> (actions: Vec<BrokerAction>)
    ensures
        actions@ == time_part(*update),
{
    let mut actions: Vec<BrokerAction> = Vec::new();
    match (update.state.time, update.state.paused) {
        (Some(time), Some(true)) => {
            if let UpdateCause::UserAction(user) = &update.cause {
                actions.push(BrokerAction::Notify(Notice::Paused(user.clone())));
            }
            actions.push(BrokerAction::Execute(MpvEvent::Pause { time }, 1));
        },
        (Some(time), Some(false)) => {
            if let UpdateCause::UserAction(user) = &update.cause {
                actions.push(BrokerAction::Notify(Notice::Resumed(user.clone())));
            }
            actions.push(BrokerAction::Execute(MpvEvent::Resume { time }, 1));
        },
        (Some(time), None) => {
            match &update.cause {
                UpdateCause::Synchronize => {
                    actions.push(BrokerAction::Notify(Notice::Synchronized(time)));
                },
                UpdateCause::UserAction(user) => {
                    actions.push(BrokerAction::Notify(Notice::Sought(user.clone(), time)));
                },
            }
            actions.push(BrokerAction::Execute(MpvEvent::Seek { time }, 1));
        },
        _ => {},
    }
    assert(actions@ =~= time_part(*update));
    actions
}

/// Deals with a message of the server, once it has set the client up.  The actions are to
/// be done in this order, up to the first that fails.
pub fn broker_handle_network_event(event: ServerMessage) -> (r: Result<
    Vec<BrokerAction>,
    BrokerError,
>)
    ensures
        match r {
            Ok(actions) => followed(event) == Ok::<_, BrokerError>(actions@),
            Err(error) => followed(event) == Err::<Seq<BrokerAction>, _>(error),
        },
{
    match event {
        ServerMessage::UserUpdate(update) => {
            let mut actions: Vec<BrokerAction> = Vec::new();
            match update {
                UserUpdate::Connected(user) => {
                    actions.push(BrokerAction::Notify(Notice::Connected(user)));
                },
                UserUpdate::Disconnected(user) => {
                    actions.push(BrokerAction::Notify(Notice::Disconnected(user)));
                },
            }
            assert(followed(event)->Ok_0 =~= actions@);
            Ok(actions)
        },
        ServerMessage::PlayerUpdate(update) => {
            let mut actions = follow_time(&update);
            if let Some(factor) = update.state.speed {
                announce_speed(&update.cause, factor, &mut actions);
                actions.push(BrokerAction::Execute(MpvEvent::SpeedChange { factor }, 1));
            }
            assert(time_part(update) + speed_part(update) =~= actions@);
            Ok(actions)
        },
        ServerMessage::Disconnect(reason) => match reason {
            ServerDisconnect::IncorrectHash => Err(BrokerError::IncorrectHash),
        },
        ServerMessage::Init(_) => Err(BrokerError::Reinitialized),
    }
}

/// What the server is told of a change at the player.
pub open spec fn report(event: MpvEvent) -> ClientUpdate {
    match event {
        MpvEvent::Pause { time } => ClientUpdate::Pause { time },
        MpvEvent::Resume { time } => ClientUpdate::Resume { time },
        MpvEvent::Seek { time } => ClientUpdate::Seek { time },
        MpvEvent::SpeedChange { factor } => ClientUpdate::SpeedChange { factor },
    }
}

/// Turns a change at the player into the message for the server.
pub fn broker_handle_mpv_event(event: MpvEvent) -> (msg: ClientMessage)
    ensures
        msg == ClientMessage::Update(report(event)),
{
    let update = match event {
        MpvEvent::Pause { time } => ClientUpdate::Pause { time },
        MpvEvent::Resume { time } => ClientUpdate::Resume { time },
        MpvEvent::Seek { time } => ClientUpdate::Seek { time },
        MpvEvent::SpeedChange { factor } => ClientUpdate::SpeedChange { factor },
    };
    ClientMessage::from(update)
}

/// What is done about the first message of the server: it must set all of the player, and
/// then says who else is there.
pub open spec fn set_up(msg: Option<ServerMessage>) -> Result<Seq<BrokerAction>, BrokerError> {
    match msg {
        None => Err(BrokerError::MissingInit),
        Some(
            ServerMessage::Init(
                ServerInit {
                    player_state: PlayerState {
                        time: Some(time),
                        paused: Some(paused),
                        speed: Some(speed),
                    },
                    users,
                },
            ),
        ) => Ok(
            seq![
                BrokerAction::Execute(
                    if paused {
                        MpvEvent::Pause { time }
                    } else {
                        MpvEvent::Resume { time }
                    },
                    10,
                ),
                BrokerAction::Execute(MpvEvent::SpeedChange { factor: speed }, 1),
                BrokerAction::Notify(
                    if users@.len() == 0 {
                        Notice::Alone
                    } else {
                        Notice::Joined(users)
                    },
                ),
            ],
        ),
        Some(_) => Err(BrokerError::InvalidInit),
    }
}

/// Deals with the first message of the server, or with its absence.
fn broker_set_up(msg: Option<ServerMessage>) -> (r: Result<Vec<BrokerAction>, BrokerError>)
    ensures
        match r {
            Ok(actions) => set_up(msg) == Ok::<_, BrokerError>(actions@),
            Err(error) => set_up(msg) == Err::<Seq<BrokerAction>, _>(error),
        },
{
    match msg {
        None => Err(BrokerError::MissingInit),
        Some(ServerMessage::Init(ServerInit { player_state, users })) => {
            match (player_state.time, player_state.paused, player_state.speed) {
                (Some(time), Some(paused), Some(speed)) => {
                    let mut actions: Vec<BrokerAction> = Vec::new();
                    actions.push(BrokerAction::Execute(MpvEvent::new_paused(paused, time), 10));
                    actions.push(BrokerAction::Execute(MpvEvent::SpeedChange { factor: speed }, 1));
                    if users.len() == 0 {
                        actions.push(BrokerAction::Notify(Notice::Alone));
                    } else {
                        actions.push(BrokerAction::Notify(Notice::Joined(users)));
                    }
                    assert(set_up(msg)->Ok_0 =~= actions@);
                    Ok(actions)
                },
                _ => Err(BrokerError::InvalidInit),
            }
        },
        Some(_) => Err(BrokerError::InvalidInit),
    }
}

/// How long nothing must happen for the player to be asked for its time, in milliseconds.
pub const QUIET_MS: u64 = 2000;

/// What happens at the broker.
#[derive(Debug)]
pub enum BrokerEvent {
    /// A change at the player; nothing if there will be none any more.
    Mpv(Option<MpvEvent>),
    /// A message of the server; nothing if there will be none any more.
    Network(Option<ServerMessage>),
    /// Nothing has happened for [`QUIET_MS`].
    Quiet,
    /// The player has told its time.
    Time(Time),
}

/// What is done about an event: the first message of the server sets the client up, and
/// what comes after is passed on between the player, the server and the user.
pub open spec fn brokered(started: bool, event: BrokerEvent) -> Result<
    Seq<BrokerAction>,
    BrokerError,
> {
    match event {
        BrokerEvent::Network(msg) => if !started {
            set_up(msg)
        } else {
            match msg {
                Some(msg) => followed(msg),
                None => Ok(seq![]),
            }
        },
        BrokerEvent::Mpv(Some(event)) => Ok(
            seq![BrokerAction::Send(ClientMessage::Update(report(event)))],
        ),
        BrokerEvent::Mpv(None) => Ok(seq![]),
        BrokerEvent::Quiet => Ok(seq![BrokerAction::RequestTime]),
        BrokerEvent::Time(time) => Ok(
            seq![
                BrokerAction::Send(ClientMessage::Update(ClientUpdate::Timestamp { time })),
            ],
        ),
    }
}

/// The broker between the player, the server and the user.
#[derive(Debug)]
pub struct Broker {
    /// Whether the server has set the client up.
    pub started: bool,
}

impl Broker {
    /// A broker that waits for the first message of the server.
    pub fn new() -> (broker: Broker)
        ensures
            !broker.started,
    {
        Broker { started: false }
    }

    /// Deals with an event.  Before the server has set the client up, only its messages are
    /// looked at.  The actions are to be done in this order, up to the first that fails.
    pub fn handle(&mut self, event: BrokerEvent) -> (r: Result<Vec<BrokerAction>, BrokerError>)
        requires
            old(self).started || event is Network,
        ensures
            match r {
                Ok(actions) => brokered(old(self).started, event) == Ok::<_, BrokerError>(
                    actions@,
                ) && final(self).started,
                Err(error) => brokered(old(self).started, event) == Err::<Seq<BrokerAction>, _>(
                    error,
                ) && final(self).started == old(self).started,
            },
    {
        let mut actions: Vec<BrokerAction> = Vec::new();
        match event {
            BrokerEvent::Network(msg) => {
                if !self.started {
                    let r = broker_set_up(msg);
                    if r.is_ok() {
                        self.started = true;
                    }
                    return r;
                }
                if let Some(msg) = msg {
                    return broker_handle_network_event(msg);
                }
            },
            BrokerEvent::Mpv(event) => {
                if let Some(event) = event {
                    actions.push(BrokerAction::Send(broker_handle_mpv_event(event)));
                }
            },
            BrokerEvent::Quiet => {
                actions.push(BrokerAction::RequestTime);
            },
            BrokerEvent::Time(time) => {
                let update = ClientUpdate::Timestamp { time };
                actions.push(BrokerAction::Send(ClientMessage::from(update)));
            },
        }
        assert(brokered(old(self).started, event)->Ok_0 =~= actions@);
        Ok(actions)
    }
}

/// What the server relays, put as an update in the name of a user.  The server of this
/// library does not take that step: its messages name nobody.
pub open spec fn in_name_of(payload: crate::server::ServerUpdate, user: String) -> PlayerUpdate {
    PlayerUpdate {
        state: PlayerState {
            time: match payload.time {
                Some(t) => Some(Time::at(t)),
                None => None,
            },
            speed: payload.speed,
            paused: payload.paused,
        },
        cause: UpdateCause::UserAction(user),
    }
}

/// The notice of a change that a user has made.
pub open spec fn notice_of(event: MpvEvent, user: String) -> Notice {
    match event {
        MpvEvent::Pause { .. } => Notice::Paused(user),
        MpvEvent::Resume { .. } => Notice::Resumed(user),
        MpvEvent::Seek { time } => Notice::Sought(user, time),
        MpvEvent::SpeedChange { factor } => Notice::SpeedChanged(user, factor),
    }
}

/// What a user does at one player, the players of the others do: told to the server, relayed
/// by it, put in the name of the user, and followed, the change is the same, and announced
/// once.  Putting it in the name of the user is a step that the server of this library does
/// not take.
pub proof fn law_change_arrives_unchanged(event: MpvEvent, user: String)
    ensures
        crate::server::relayed(report(event)) matches Some(payload) && followed(
            ServerMessage::PlayerUpdate(in_name_of(payload, user)),
        ) == Ok::<_, BrokerError>(
            seq![
                BrokerAction::Notify(notice_of(event, user)),
                BrokerAction::Execute(event, 1),
            ],
        ),
{
    match event {
        MpvEvent::Pause { time } => crate::time::law_time_is_its_seconds(time, time.seconds()),
        MpvEvent::Resume { time } => crate::time::law_time_is_its_seconds(time, time.seconds()),
        MpvEvent::Seek { time } => crate::time::law_time_is_its_seconds(time, time.seconds()),
        MpvEvent::SpeedChange { .. } => {},
    }
    let update = in_name_of(crate::server::relayed(report(event))->0, user);
    assert(time_part(update) + speed_part(update) =~= seq![
        BrokerAction::Notify(notice_of(event, user)),
        BrokerAction::Execute(event, 1),
    ]);
}

/// A synchronization sends the player to the time that all are set to, and says so.
pub proof fn law_synchronization_is_followed(time: Time)
    ensures
        followed(
            ServerMessage::PlayerUpdate(
                PlayerUpdate {
                    state: PlayerState { time: Some(time), speed: None, paused: None },
                    cause: UpdateCause::Synchronize,
                },
            ),
        ) == Ok::<_, BrokerError>(
            seq![
                BrokerAction::Notify(Notice::Synchronized(time)),
                BrokerAction::Execute(MpvEvent::Seek { time }, 1),
            ],
        ),
{
    let update = PlayerUpdate {
        state: PlayerState { time: Some(time), speed: None, paused: None },
        cause: UpdateCause::Synchronize,
    };
    assert(time_part(update) + speed_part(update) =~= seq![
        BrokerAction::Notify(Notice::Synchronized(time)),
        BrokerAction::Execute(MpvEvent::Seek { time }, 1),
    ]);
}

/// Nothing that the server sends goes back to it: a change of another user is not reported
/// as one of this user's.
pub proof fn law_server_is_not_answered(started: bool, msg: Option<ServerMessage>, k: int)
    ensures
        brokered(started, BrokerEvent::Network(msg)) matches Ok(actions) ==> (0 <= k
            < actions.len() ==> actions[k] !is Send && actions[k] !is RequestTime),
{
}

/// The server sets the client up exactly once: a first message that does not is refused,
/// and so is a second one that does.
pub proof fn law_client_is_set_up_once(msg: ServerMessage)
    ensures
        brokered(false, BrokerEvent::Network(Some(msg))) is Ok ==> msg is Init && brokered(
            true,
            BrokerEvent::Network(Some(msg)),
        ) == Err::<Seq<BrokerAction>, _>(BrokerError::Reinitialized),
        msg !is Init ==> brokered(false, BrokerEvent::Network(Some(msg))) == Err::<
            Seq<BrokerAction>,
            _,
        >(BrokerError::InvalidInit),
{
}

/// How long a socket that is not there yet is left alone before the next attempt, in
/// milliseconds.
pub const CONNECT_DELAY_MS: u64 = 100;

/// How many failed attempts the client puts up with.
pub const CONNECT_ATTEMPTS: u32 = 20;

/// How an attempt to connect to the player has gone.
#[derive(Debug, Clone, Copy, PartialEq, Eq, Structural)]
pub enum Connecting {
    Connected,
    /// There is no socket, or nobody listens at it.
    NotReady,
    /// Anything else went wrong.
    Broken,
}

/// What comes after an attempt to connect to the player.
#[derive(Debug, Clone, Copy, PartialEq, Eq, Structural)]
pub enum ConnectVerdict {
    Done,
    TryAgain,
    /// The attempts are used up.
    GiveUp,
    /// The failure is passed on at once.
    Fail,
}

/// What comes after an attempt, when so many have failed before it.
pub open spec fn connect_verdict(failed: nat, outcome: Connecting) -> ConnectVerdict {
    match outcome {
        Connecting::Connected => ConnectVerdict::Done,
        Connecting::Broken => ConnectVerdict::Fail,
        Connecting::NotReady => if failed < CONNECT_ATTEMPTS {
            ConnectVerdict::TryAgain
        } else {
            ConnectVerdict::GiveUp
        },
    }
}

/// The attempts to connect to the player.
#[derive(Debug, Clone, Copy)]
pub struct Attempts {
    /// How many have failed.
    pub failed: u32,
}

impl Attempts {
    /// Before the first attempt.
    pub fn new() -> (attempts: Attempts)
        ensures
            attempts.failed == 0,
    {
        Attempts { failed: 0 }
    }

    /// Decides after an attempt.  Where the player was not ready it is given
    /// [`CONNECT_DELAY_MS`] first.
    pub fn after(&mut self, outcome: Connecting) -> (verdict: ConnectVerdict)
        requires
            old(self).failed <= CONNECT_ATTEMPTS,
        ensures
            verdict == connect_verdict(old(self).failed as nat, outcome),
            final(self).failed == old(self).failed + (if outcome == Connecting::NotReady {
                1int
            } else {
                0
            }),
    {
        match outcome {
            Connecting::Connected => ConnectVerdict::Done,
            Connecting::Broken => ConnectVerdict::Fail,
            Connecting::NotReady => {
                self.failed = self.failed + 1;
                if self.failed > CONNECT_ATTEMPTS {
                    ConnectVerdict::GiveUp
                } else {
                    ConnectVerdict::TryAgain
                }
            },
        }
    }
}

impl Attempts {
    /// The attempts after so many that all found the player not ready.
    pub open spec fn not_ready(failures: nat) -> Attempts
        decreases failures,
    {
        if failures == 0 {
            Attempts { failed: 0 }
        } else {
            Attempts { failed: (Attempts::not_ready((failures - 1) as nat).failed + 1) as u32 }
        }
    }
}

/// A player that is never ready is tried for once more than the failures that the client puts
/// up with, and then given up: another attempt is due after each failure up to the twentieth,
/// and the twenty-first is the last.
pub proof fn law_connecting_is_given_up(failures: nat)
    requires
        failures <= CONNECT_ATTEMPTS,
    ensures
        Attempts::not_ready(failures).failed == failures,
        connect_verdict(
            Attempts::not_ready(failures).failed as nat,
            Connecting::NotReady,
        ) == (if failures < 20 {
            ConnectVerdict::TryAgain
        } else {
            ConnectVerdict::GiveUp
        }),
    decreases failures,
{
    if failures > 0 {
        law_connecting_is_given_up((failures - 1) as nat);
    }
}

/// Every change at the player is sent to the server as that change, once, and nothing else is
/// done about it.
pub proof fn law_users_change_is_sent_as_it_is(event: MpvEvent, msg: ClientMessage)
    requires
        call_ensures(broker_handle_mpv_event, (event,), msg),
    ensures
        msg == ClientMessage::Update(
            match event {
                MpvEvent::Pause { time } => ClientUpdate::Pause { time },
                MpvEvent::Resume { time } => ClientUpdate::Resume { time },
                MpvEvent::Seek { time } => ClientUpdate::Seek { time },
                MpvEvent::SpeedChange { factor } => ClientUpdate::SpeedChange { factor },
            },
        ),
        brokered(true, BrokerEvent::Mpv(Some(event))) == Ok::<_, BrokerError>(
            seq![BrokerAction::Send(msg)],
        ),
{
}

/// When nothing happens the time is asked for, and what the player tells is sent as a
/// timestamp; a stream that has ended brings nothing.
pub proof fn law_time_is_sent_when_nothing_happens(time: Time)
    ensures
        brokered(true, BrokerEvent::Quiet) == Ok::<_, BrokerError>(
            seq![BrokerAction::RequestTime],
        ),
        brokered(true, BrokerEvent::Time(time)) == Ok::<_, BrokerError>(
            seq![BrokerAction::Send(ClientMessage::Update(ClientUpdate::Timestamp { time }))],
        ),
        brokered(true, BrokerEvent::Mpv(None)) == Ok::<_, BrokerError>(Seq::<BrokerAction>::empty()),
        brokered(true, BrokerEvent::Network(None)) == Ok::<_, BrokerError>(
            Seq::<BrokerAction>::empty(),
        ),
{
}

/// The first message sets the player to exactly the state that it holds, whoever else is
/// connected; the user is told who is.
pub proof fn law_first_message_sets_the_player(
    time: Time,
    paused: bool,
    speed: Double,
    users: Vec<String>,
)
    ensures
        brokered(
            false,
            BrokerEvent::Network(
                Some(
                    ServerMessage::Init(
                        ServerInit {
                            player_state: PlayerState {
                                time: Some(time),
                                paused: Some(paused),
                                speed: Some(speed),
                            },
                            users,
                        },
                    ),
                ),
            ),
        ) matches Ok(actions) && {
            &&& actions.len() == 3
            &&& paused ==> actions[0] == BrokerAction::Execute(MpvEvent::Pause { time }, 10)
            &&& !paused ==> actions[0] == BrokerAction::Execute(MpvEvent::Resume { time }, 10)
            &&& actions[1] == BrokerAction::Execute(MpvEvent::SpeedChange { factor: speed }, 1)
            &&& users@.len() == 0 ==> actions[2] == BrokerAction::Notify(Notice::Alone)
            &&& users@.len() > 0 ==> actions[2] == BrokerAction::Notify(Notice::Joined(users))
        },
{
}

/// A first message that leaves a part of the player's state open is refused, whatever else it
/// holds; so is any other message, and a stream that ends before it.
pub proof fn law_first_message_must_be_complete(msg: Option<ServerMessage>)
    ensures
        msg is None ==> brokered(false, BrokerEvent::Network(msg)) == Err::<
            Seq<BrokerAction>,
            _,
        >(BrokerError::MissingInit),
        msg matches Some(m) ==> (brokered(false, BrokerEvent::Network(msg)) is Ok <==> (
        m matches ServerMessage::Init(init) && init.player_state.time is Some
            && init.player_state.paused is Some && init.player_state.speed is Some)),
        msg is Some && brokered(false, BrokerEvent::Network(msg)) is Err ==> brokered(
            false,
            BrokerEvent::Network(msg),
        ) == Err::<Seq<BrokerAction>, _>(BrokerError::InvalidInit),
{
}

/// The user is told of everybody who comes and goes, and nothing else is done about it.
pub proof fn law_comings_and_goings_are_announced(user: String)
    ensures
        brokered(
            true,
            BrokerEvent::Network(Some(ServerMessage::UserUpdate(UserUpdate::Connected(user)))),
        ) == Ok::<_, BrokerError>(seq![BrokerAction::Notify(Notice::Connected(user))]),
        brokered(
            true,
            BrokerEvent::Network(Some(ServerMessage::UserUpdate(UserUpdate::Disconnected(user)))),
        ) == Ok::<_, BrokerError>(seq![BrokerAction::Notify(Notice::Disconnected(user))]),
{
}

/// The changes that are asked of the player, in turn.
pub open spec fn asked(actions: Seq<BrokerAction>) -> Seq<(MpvEvent, u32)>
    decreases actions.len(),
{
    if actions.len() == 0 {
        seq![]
    } else {
        match actions.last() {
            BrokerAction::Execute(event, attempts) => asked(actions.drop_last()).push(
                (event, attempts),
            ),
            _ => asked(actions.drop_last()),
        }
    }
}

/// What the user is told, in turn.
pub open spec fn told(actions: Seq<BrokerAction>) -> Seq<Notice>
    decreases actions.len(),
{
    if actions.len() == 0 {
        seq![]
    } else {
        match actions.last() {
            BrokerAction::Notify(notice) => told(actions.drop_last()).push(notice),
            _ => told(actions.drop_last()),
        }
    }
}

/// An update of the server is followed to the letter, whoever has caused it: the player is
/// asked for the pause, its end or the seek that it holds, at its time and once, and then for
/// its speed.  A pause without a time asks nothing.
pub proof fn law_server_update_is_followed(update: PlayerUpdate)
    ensures
        brokered(true, BrokerEvent::Network(Some(ServerMessage::PlayerUpdate(update)))) matches Ok(
            actions,
        ) && asked(actions) == (match (update.state.time, update.state.paused) {
            (Some(time), Some(true)) => seq![(MpvEvent::Pause { time }, 1u32)],
            (Some(time), Some(false)) => seq![(MpvEvent::Resume { time }, 1u32)],
            (Some(time), None) => seq![(MpvEvent::Seek { time }, 1u32)],
            (None, _) => seq![],
        }) + (match update.state.speed {
            Some(factor) => seq![(MpvEvent::SpeedChange { factor }, 1u32)],
            None => seq![],
        }),
{
    let all = time_part(update) + speed_part(update);
    lemma_asked_of_parts(time_part(update), speed_part(update));
    lemma_asked_of_part(time_part(update));
    lemma_asked_of_part(speed_part(update));
}

/// An update of the server is announced as what it is: in the name of the user who has caused
/// it, a pause, its end, a seek and a change of the speed; in nobody's name, a seek alone.
pub proof fn law_server_update_is_announced(update: PlayerUpdate)
    ensures
        brokered(true, BrokerEvent::Network(Some(ServerMessage::PlayerUpdate(update)))) matches Ok(
            actions,
        ) && told(actions) == (match (update.cause, update.state.time, update.state.paused) {
            (UpdateCause::UserAction(user), Some(_), Some(true)) => seq![Notice::Paused(user)],
            (UpdateCause::UserAction(user), Some(_), Some(false)) => seq![Notice::Resumed(user)],
            (UpdateCause::UserAction(user), Some(time), None) => seq![Notice::Sought(user, time)],
            (UpdateCause::Synchronize, Some(time), None) => seq![Notice::Synchronized(time)],
            _ => seq![],
        }) + (match (update.cause, update.state.speed) {
            (UpdateCause::UserAction(user), Some(factor)) => seq![
                Notice::SpeedChanged(user, factor),
            ],
            _ => seq![],
        }),
{
    lemma_asked_of_parts(time_part(update), speed_part(update));
    lemma_asked_of_part(time_part(update));
    lemma_asked_of_part(speed_part(update));
}

/// The user is told of a change before the player is asked for it.
pub proof fn law_announcement_comes_first(update: PlayerUpdate, k: int)
    requires
        brokered(true, BrokerEvent::Network(Some(ServerMessage::PlayerUpdate(update)))) is Ok,
    ensures
        ({
            let actions = brokered(
                true,
                BrokerEvent::Network(Some(ServerMessage::PlayerUpdate(update))),
            )->Ok_0;
            0 <= k < actions.len() && actions[k] is Notify ==> k + 1 < actions.len() && (
            actions[k + 1] matches BrokerAction::Execute(event, _) && match actions[k]->Notify_0 {
                Notice::Paused(_) => event is Pause,
                Notice::Resumed(_) => event is Resume,
                Notice::Sought(_, _) | Notice::Synchronized(_) => event is Seek,
                Notice::SpeedChanged(_, _) => event is SpeedChange,
                _ => false,
            })
        }),
{
}

/// What two parts ask and tell is what the one does and then the other.
proof fn lemma_asked_of_parts(a: Seq<BrokerAction>, b: Seq<BrokerAction>)
    ensures
        asked(a + b) == asked(a) + asked(b),
        told(a + b) == told(a) + told(b),
    decreases b.len(),
{
    if b.len() == 0 {
        assert(a + b =~= a);
    } else {
        let front = b.drop_last();
        lemma_asked_of_parts(a, front);
        assert((a + b).drop_last() =~= a + front);
    }
    assert(asked(a + b) =~= asked(a) + asked(b));
    assert(told(a + b) =~= told(a) + told(b));
}

/// What a part of at most two actions asks and tells.
proof fn lemma_asked_of_part(part: Seq<BrokerAction>)
    requires
        part.len() <= 2,
    ensures
        part.len() == 0 ==> asked(part) =~= seq![] && told(part) =~= seq![],
        part.len() == 1 ==> asked(part) =~= (match part[0] {
            BrokerAction::Execute(event, attempts) => seq![(event, attempts)],
            _ => seq![],
        }) && told(part) =~= (match part[0] {
            BrokerAction::Notify(notice) => seq![notice],
            _ => seq![],
        }),
        part.len() == 2 ==> asked(part) =~= (match part[0] {
            BrokerAction::Execute(event, attempts) => seq![(event, attempts)],
            _ => seq![],
        }) + (match part[1] {
            BrokerAction::Execute(event, attempts) => seq![(event, attempts)],
            _ => seq![],
        }) && told(part) =~= (match part[0] {
            BrokerAction::Notify(notice) => seq![notice],
            _ => seq![],
        }) + (match part[1] {
            BrokerAction::Notify(notice) => seq![notice],
            _ => seq![],
        }),
    decreases part.len(),
{
    if part.len() == 2 {
        let front = part.drop_last();
        lemma_asked_of_part(front);
        assert(front[0] == part[0]);
    } else if part.len() == 1 {
        let none = part.drop_last();
        assert(asked(none) =~= seq![]);
        assert(told(none) =~= seq![]);
    }
}

/// A refusal of the video ends the client with its own error, whatever came before.
pub proof fn law_refused_client_ends(event: ServerMessage, r: Result<Vec<BrokerAction>, BrokerError>)
    requires
        call_ensures(broker_handle_network_event, (event,), r),
    ensures
        r is Err <==> event is Disconnect || event is Init,
        event is Disconnect ==> r->Err_0 is IncorrectHash,
        event is Init ==> r->Err_0 is Reinitialized,
        brokered(true, BrokerEvent::Network(Some(event))) == (match r {
            Ok(actions) => Ok::<_, BrokerError>(actions@),
            Err(error) => Err::<Seq<BrokerAction>, _>(error),
        }),
{
}

/// A notice begins with whom it is about and goes on with what was done, and to which time or
/// speed.
pub proof fn law_notice_says_who_did_what(
    notice: &Notice,
    factor: &str,
    text: String,
    time: Time,
    shown: String,
    names: Vec<String>,
    list: String,
)
    requires
        call_ensures(Notice::text, (notice, factor), text),
        call_ensures(Time::to_string, (&time,), shown),
        call_ensures(list_names, (&names,), list),
    ensures
        *notice matches Notice::Connected(user) ==> text@ == user@ + " has connected!"@,
        *notice matches Notice::Disconnected(user) ==> text@ == user@ + " has disconnected!"@,
        *notice matches Notice::Paused(user) ==> text@ == user@ + " paused!"@,
        *notice matches Notice::Resumed(user) ==> text@ == user@ + " resumed!"@,
        *notice == Notice::Synchronized(time) ==> text@ == "Synchronization to "@ + shown@ + "!"@,
        *notice matches Notice::Sought(user, t) ==> t == time ==> text@ == user@ + " seeked to "@
            + shown@ + "!"@,
        *notice matches Notice::SpeedChanged(user, _) ==> text@ == user@ + " changed speed to "@
            + factor@ + "!"@,
        *notice is Alone ==> text@ == "Connected to server, no other users connected."@,
        *notice == Notice::Joined(names) ==> text@ == "Connected to server with "@ + list@,
{
}

/// A list of names is the first name with a comma, and then the list of the others.
pub proof fn law_names_are_listed_in_turn(names: Vec<String>, list: String)
    requires
        call_ensures(list_names, (&names,), list),
    ensures
        list@ == listed(names@),
        names@.len() == 0 ==> list@.len() == 0,
        names@.len() > 0 ==> list@ == names@[0]@ + ", "@ + listed(names@.drop_first()),
{
    if names@.len() > 0 {
        lemma_listed_from_front(names@);
    }
}

/// The list can be begun at the front.
proof fn lemma_listed_from_front(names: Seq<String>)
    requires
        names.len() > 0,
    ensures
        listed(names) == names[0]@ + ", "@ + listed(names.drop_first()),
    decreases names.len(),
{
    if names.len() == 1 {
        assert(names.drop_last() =~= seq![]);
        assert(names.drop_first() =~= seq![]);
        assert(listed(names) =~= names[0]@ + ", "@ + listed(names.drop_first()));
    } else {
        lemma_listed_from_front(names.drop_last());
        assert(names.drop_first().drop_last() =~= names.drop_last().drop_first());
        assert(names.drop_first().last() == names.last());
        assert(listed(names) =~= names[0]@ + ", "@ + listed(names.drop_first()));
    }
}

/// Each error reads as what went wrong.
pub proof fn law_broker_errors_say_what_went_wrong(error: &BrokerError, text: &'static str)
    requires
        call_ensures(BrokerError::text, (error,), text),
    ensures
        *error is IncorrectHash ==> text == "Incorrect video file.",
        *error is Reinitialized ==> text == "Server broke protocol by re-initialising.",
        *error is MissingInit ==> text == "Didn't receive init server message",
        *error is InvalidInit ==> text == "Invalid initial server message",
{
}

/// A connection ends the attempts at once, and so does any failure but that the player is not
/// ready, however many attempts there were.
pub proof fn law_attempts_end_at_once(failed: nat)
    ensures
        connect_verdict(failed, Connecting::Connected) is Done,
        connect_verdict(failed, Connecting::Broken) is Fail,
        failed < 20 <==> connect_verdict(failed, Connecting::NotReady) is TryAgain,
        failed >= 20 <==> connect_verdict(failed, Connecting::NotReady) is GiveUp,
{
}

/// An event takes the broker by the step that belongs to it.  The broker is started once a
/// step has succeeded, and stays as it was where one has not.
pub proof fn law_event_takes_its_step(
    event: BrokerEvent,
    r: Result<Vec<BrokerAction>, BrokerError>,
)
    ensures
        forall|broker: &mut Broker| #[trigger]
            call_ensures(Broker::handle, (broker, event), r) ==> {
                &&& brokered(broker.started, event) == (match r {
                    Ok(actions) => Ok::<_, BrokerError>(actions@),
                    Err(error) => Err::<Seq<BrokerAction>, _>(error),
                })
                &&& final(broker).started == (r is Ok || broker.started)
            },
{
}

/// Each attempt that finds the player not ready is counted, and no other is.
pub proof fn law_attempts_are_counted(outcome: Connecting, verdict: ConnectVerdict)
    ensures
        forall|attempts: &mut Attempts| #[trigger]
            call_ensures(Attempts::after, (attempts, outcome), verdict) ==> {
                &&& outcome is NotReady ==> final(attempts).failed == attempts.failed + 1
                &&& !(outcome is NotReady) ==> final(attempts).failed == attempts.failed
                &&& verdict is TryAgain <==> outcome is NotReady && attempts.failed < 20
                &&& verdict is GiveUp <==> outcome is NotReady && attempts.failed >= 20
                &&& verdict is Done <==> outcome is Connected
            },
{
}

/// Every event is dealt with once the client is set up, and every message of the server
/// before.  The time is asked for after two seconds in which nothing has happened, and a
/// player that is not ready is tried again after a tenth of a second.
pub proof fn law_every_event_is_dealt_with(event: BrokerEvent, outcome: Connecting)
    ensures
        forall|broker: &mut Broker|
            broker.started || event is Network ==> #[trigger] call_requires(
                Broker::handle,
                (broker, event),
            ),
        forall|attempts: &mut Attempts|
            attempts.failed <= 20 ==> #[trigger] call_requires(
                Attempts::after,
                (attempts, outcome),
            ),
        QUIET_MS == 2000,
        CONNECT_DELAY_MS == 100,
{
}

} // verus!
