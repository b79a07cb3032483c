//! The synchronization server: what it knows of its clients, and what it does about each
//! command.

use std::collections::HashMap;

use vstd::prelude::*;

use crate::double::Double;
use crate::protocol::{ClientInit, ClientMessage, ClientUpdate, ServerDisconnect};
use crate::text::push_decimal;

verus! {

/// What tells the connections apart.
pub type Id = usize;

/// How often the clients are brought back together, in seconds.
pub const SYNCHRONIZE_SECS: u64 = 3;

/// A time that a client has reported, and when (nanoseconds on the server's clock).
#[derive(Debug, Clone, Copy)]
pub struct Timestamp {
    pub value: Double,
    pub when: u128,
}

impl Timestamp {
    /// The timestamp for a value that is reported at `now`.
    pub fn now(value: Double, now: u128) -> (t: Timestamp)
        ensures
            t == (Timestamp { value, when: now }),
    {
        Timestamp { value, when: now }
    }
}

/// Whether a client has introduced itself.
#[derive(Debug, Clone, Copy, PartialEq, Eq, Structural)]
pub enum ConnectionState {
    Uninitialized,
    Initialized,
}

impl ConnectionState {
    /// Notes that the client has introduced itself.
    pub fn init(&mut self)
        ensures
            *final(self) == ConnectionState::Initialized,
    {
        *self = ConnectionState::Initialized;
    }
}

impl Default for ConnectionState {
    fn default() -> (state: ConnectionState)
        ensures
            state == ConnectionState::Uninitialized,
    {
        ConnectionState::Uninitialized
    }
}

/// What is known of a connected client.
#[derive(Debug)]
pub struct Connection {
    pub timestamp: Option<Timestamp>,
    pub peer: String,
    pub state: ConnectionState,
}

/// The numbering of the connections.
#[derive(Debug)]
pub struct Ids {
    /// The id that is handed out next.
    pub next: Id,
}

impl Ids {
    /// The numbering once another id has been handed out.
    pub open spec fn advanced(self) -> Ids {
        Ids { next: (self.next + 1) as Id }
    }

    /// The numbering once so many ids have been handed out.
    pub open spec fn after(self, count: nat) -> Ids
        decreases count,
    {
        if count == 0 {
            self
        } else {
            self.after((count - 1) as nat).advanced()
        }
    }

    /// All connections have ids that were handed out.
    pub open spec fn ahead_of(self, connections: Map<Id, Connection>) -> bool {
        forall|id: Id| #[trigger] connections.contains_key(id) ==> id < self.next
    }

    /// The first connection is number one.
    pub fn new() -> (ids: Ids)
        ensures
            ids.next == 1,
    {
        Ids { next: 1 }
    }

    /// Hands an id out.
    pub fn next(&mut self) -> (id: Id)
        requires
            old(self).next < usize::MAX,
        ensures
            id == old(self).next,
            *final(self) == old(self).advanced(),
            final(self).next == id + 1,
    {
        let id: Id = self.next;
        self.next = id + 1;
        id
    }
}

/// The ids rise by one, and one that was handed out is never handed out again.
pub proof fn law_ids_never_repeat(ids: Ids, i: nat, j: nat)
    requires
        i < j,
        ids.next + j <= usize::MAX,
    ensures
        ids.after(i).next == ids.next + i,
        ids.after(j).next == ids.next + j,
        ids.after(i).next != ids.after(j).next,
{
    lemma_ids_after(ids, i);
    lemma_ids_after(ids, j);
}

/// After so many ids the next one is so much greater.
proof fn lemma_ids_after(ids: Ids, count: nat)
    requires
        ids.next + count <= usize::MAX,
    ensures
        ids.after(count).next == ids.next + count,
    decreases count,
{
    if count > 0 {
        lemma_ids_after(ids, (count - 1) as nat);
    }
}

/// The state that all players are expected to be in.
/// The time is left out: it is kept for each client, in its `Connection`.
#[derive(Debug)]
pub struct PlayerState {
    pub speed: Double,
    pub paused: bool,
    pub video_hash: Option<String>,
}

impl PlayerState {
    /// Forgets which video is played.
    pub fn reset(&mut self)
        ensures
            *final(self) == (PlayerState { video_hash: None, ..*old(self) }),
    {
        self.video_hash = None;
    }
}

impl Default for PlayerState {
    fn default() -> (player: PlayerState)
        ensures
            player.speed.bits == 0x3FF0_0000_0000_0000,
            !player.paused,
            player.video_hash is None,
    {
        PlayerState { speed: Double::one(), paused: false, video_hash: None }
    }
}

/// What the players of some clients are to be set to.
#[derive(Debug, Clone, Copy)]
pub struct ServerUpdate {
    pub time: Option<Double>,
    pub speed: Option<Double>,
    pub paused: Option<bool>,
}

impl ServerUpdate {
    /// An update that sets nothing yet.
    pub fn new() -> (update: ServerUpdate)
        ensures
            update == (ServerUpdate { time: None, speed: None, paused: None }),
    {
        ServerUpdate { time: None, speed: None, paused: None }
    }

    /// The same update, which sets the time too.
    pub fn with_time(self, time: Double) -> (update: ServerUpdate)
        ensures
            update == (ServerUpdate { time: Some(time), ..self }),
    {
        ServerUpdate { time: Some(time), ..self }
    }

    /// The same update, which sets the speed too.
    pub fn with_speed(self, speed: Double) -> (update: ServerUpdate)
        ensures
            update == (ServerUpdate { speed: Some(speed), ..self }),
    {
        ServerUpdate { speed: Some(speed), ..self }
    }

    /// The same update, which pauses or resumes too.
    pub fn with_pause(self, paused: bool) -> (update: ServerUpdate)
        ensures
            update == (ServerUpdate { paused: Some(paused), ..self }),
    {
        ServerUpdate { paused: Some(paused), ..self }
    }
}

/// What the server sends.
#[derive(Debug, Clone, Copy)]
pub enum ServerMessage {
    Update(ServerUpdate),
    Disconnect(ServerDisconnect),
}

/// What is to be done at a connection.
#[derive(Debug, Clone, Copy)]
pub enum Action {
    Send(Id, ServerMessage),
    Shutdown(Id),
}

/// `actions` sends the message to each of the given connections once, in some order, and
/// does nothing else.
pub open spec fn reaches(actions: Seq<Action>, to: Set<Id>, message: ServerMessage) -> bool {
    &&& actions.no_duplicates()
    &&& forall|id: Id| #[trigger]
        to.contains(id) ==> actions.contains(Action::Send(id, message))
    &&& forall|k: int|
        0 <= k < actions.len() ==> (#[trigger] actions[k] matches Action::Send(id, m)
            && to.contains(id) && m == message)
}

/// How the expected state changes once an update has reached everybody.
#[derive(Debug, Clone, Copy)]
pub enum PlayerChange {
    Paused(bool),
    Speed(Double),
}

/// What is to be done about a command: the actions, in this order and up to the first that
/// fails, and a change that holds once all of them have succeeded.
#[derive(Debug)]
pub struct Plan {
    pub actions: Vec<Action>,
    pub change: Option<PlayerChange>,
}

/// What the server is asked to deal with.
#[derive(Debug)]
pub enum Command {
    /// A new connection, and the address of its peer where that could be had.
    NewConnection(Id, Option<String>),
    Disconnection(Id),
    Message(Id, ClientMessage),
    Synchronize,
}

/// Why a command has come to nothing.
#[derive(Debug)]
pub enum CommandError {
    PeerUnknown,
    ExistingConnection(Id),
    UnknownConnection(Id),
}

impl CommandError {
    /// How the error reads.
    pub open spec fn reads(self) -> Seq<char> {
        match self {
            CommandError::PeerUnknown => "Failed to extract peer addr."@,
            CommandError::ExistingConnection(id) => "Existing connection with id: "@
                + crate::text::decimal(id as nat),
            CommandError::UnknownConnection(id) => "ID: "@ + crate::text::decimal(id as nat)
                + " doesn't exist in connections."@,
        }
    }

    /// How the error reads.
    pub fn text(&self) -> (text: String)
        ensures
            text@ == self.reads(),
    {
        match self {
            CommandError::PeerUnknown => "Failed to extract peer addr.".to_string(),
            CommandError::ExistingConnection(id) => {
                let mut text = "Existing connection with id: ".to_string();
                push_decimal(&mut text, *id);
                text
            },
            CommandError::UnknownConnection(id) => {
                let mut text = "ID: ".to_string();
                push_decimal(&mut text, *id);
                text.append(" doesn't exist in connections.");
                text
            },
        }
    }
}

/// What is shared over all connections.
#[derive(Debug)]
pub struct GlobalState {
    pub connections: HashMap<Id, Connection>,
    pub player: PlayerState,
}

/// The shared state, as a value.
pub struct StateView {
    pub connections: Map<Id, Connection>,
    pub player: PlayerState,
}

impl View for GlobalState {
    type V = StateView;

    open spec fn view(&self) -> StateView {
        StateView { connections: self.connections@, player: self.player }
    }
}

impl StateView {
    /// While no video is agreed on, nobody has introduced itself.
    pub open spec fn well_formed(self) -> bool {
        self.player.video_hash is None ==> forall|id: Id| #[trigger]
            self.connections.contains_key(id) ==> self.connections[id].state
                == ConnectionState::Uninitialized
    }

    /// The client has reported a time that can be compared.
    pub open spec fn timed(self, id: Id) -> bool {
        &&& self.connections.contains_key(id)
        &&& self.connections[id].timestamp is Some
        &&& !self.connections[id].timestamp->0.value.nan()
    }

    /// No client has reported a time that can be compared.
    pub open spec fn untimed(self) -> bool {
        forall|id: Id| !#[trigger] self.timed(id)
    }

    /// The time that the client has reported.
    pub open spec fn time_of(self, id: Id) -> Double {
        self.connections[id].timestamp->0.value
    }

    /// The client has reported `t`, and no client has reported less.
    pub open spec fn least(self, id: Id, t: Double) -> bool {
        &&& self.timed(id)
        &&& t == self.time_of(id)
        &&& forall|other: Id| #[trigger]
            self.timed(other) ==> t.units() <= self.time_of(other).units()
    }

    /// The client has reported `t`, and no client has reported more.
    pub open spec fn greatest(self, id: Id, t: Double) -> bool {
        &&& self.timed(id)
        &&& t == self.time_of(id)
        &&& forall|other: Id| #[trigger]
            self.timed(other) ==> self.time_of(other).units() <= t.units()
    }

    /// All connections, or all but one.
    pub open spec fn recipients(self, except: Option<Id>) -> Set<Id> {
        match except {
            Some(sender) => self.connections.dom().remove(sender),
            None => self.connections.dom(),
        }
    }

    /// Some two clients are more than five seconds apart.
    pub open spec fn apart(self) -> bool {
        exists|lo: Id, hi: Id|
            #![trigger self.timed(lo), self.timed(hi)]
            self.timed(lo) && self.timed(hi) && Double::over_five_apart(
                self.time_of(hi),
                self.time_of(lo),
            )
    }
}

impl Default for GlobalState {
    fn default() -> (state: GlobalState)
        ensures
            state@.connections == Map::<Id, Connection>::empty(),
            state@.well_formed(),
            state@.player.speed.bits == 0x3FF0_0000_0000_0000,
            !state@.player.paused,
            state@.player.video_hash is None,
    {
        GlobalState { connections: HashMap::new(), player: PlayerState::default() }
    }
}

impl GlobalState {
    /// The ids of all connections, in the order in which the map is walked.
    fn ids(&self) -> (ids: Vec<Id>)
        ensures
            ids@.no_duplicates(),
            forall|id: Id| self@.connections.contains_key(id) <==> #[trigger] ids@.contains(id),
    {
        let ghost all = vstd::std_specs::iter::IteratorSpec::remaining(
            &vstd::std_specs::hash::spec_keys_iter(&self.connections),
        );
        let mut ids: Vec<Id> = Vec::new();
        for id in it: self.connections.keys()
            invariant
                it.seq() == all,
                ids@.len() == it.index(),
                forall|k: int| 0 <= k < ids@.len() ==> #[trigger] ids@[k] == *all[k],
        {
            ids.push(*id);
        }
        proof {
            assert forall|id: Id| self@.connections.contains_key(id) implies #[trigger]
            ids@.contains(id) by {
                assert(all.contains(&id));
                let k = choose|k: int| 0 <= k < all.len() && all[k] == &id;
                assert(ids@[k] == id);
            }
            assert forall|id: Id| #[trigger] ids@.contains(id) implies
                self@.connections.contains_key(id) by {
                let k = choose|k: int| 0 <= k < ids@.len() && ids@[k] == id;
                assert(all.unref()[k] == id);
                assert(all.unref().to_set().contains(id));
            }
        }
        ids
    }

    /// The least time of all connections and the id of a connection with it.
    /// `None` if no connection has reported a time.
    pub fn get_min_time(&self) -> (r: Option<(Id, Double)>)
        ensures
            match r {
                Some((id, t)) => self@.least(id, t),
                None => self@.untimed(),
            },
    {
        let ids = self.ids();
        let mut best: Option<(Id, Double)> = None;
        let mut i: usize = 0;
        while i < ids.len()
            invariant
                i <= ids@.len(),
                forall|id: Id| self@.connections.contains_key(id) <==> #[trigger] ids@.contains(id),
                forall|k: int|
                    0 <= k < i && self@.timed(#[trigger] ids@[k]) ==> (best matches Some((_, t))
                        && t.units() <= self@.time_of(ids@[k]).units()),
                best matches Some((id, t)) ==> self@.timed(id) && t == self@.time_of(id),
            decreases ids@.len() - i,
        {
            let id: Id = ids[i];
            assert(ids@.contains(id));
            let con = self.connections.get(&id).unwrap();
            if let Some(timestamp) = con.timestamp {
                if !timestamp.value.is_nan() {
                    let earlier: bool = match best {
                        Some((_, t)) => timestamp.value.lt(t),
                        None => true,
                    };
                    if earlier {
                        best = Some((id, timestamp.value));
                    }
                }
            }
            i = i + 1;
        }
        proof {
            assert forall|id: Id| #[trigger] self@.timed(id) implies (best matches Some((_, t))
                && t.units() <= self@.time_of(id).units()) by {
                assert(ids@.contains(id));
            }
        }
        best
    }

    /// The greatest time of all connections and the id of a connection with it.
    /// `None` if no connection has reported a time.
    pub fn get_max_time(&self) -> (r: Option<(Id, Double)>)
        ensures
            match r {
                Some((id, t)) => self@.greatest(id, t),
                None => self@.untimed(),
            },
    {
        let ids = self.ids();
        let mut best: Option<(Id, Double)> = None;
        let mut i: usize = 0;
        while i < ids.len()
            invariant
                i <= ids@.len(),
                forall|id: Id| self@.connections.contains_key(id) <==> #[trigger] ids@.contains(id),
                forall|k: int|
                    0 <= k < i && self@.timed(#[trigger] ids@[k]) ==> (best matches Some((_, t))
                        && self@.time_of(ids@[k]).units() <= t.units()),
                best matches Some((id, t)) ==> self@.timed(id) && t == self@.time_of(id),
            decreases ids@.len() - i,
        {
            let id: Id = ids[i];
            assert(ids@.contains(id));
            let con = self.connections.get(&id).unwrap();
            if let Some(timestamp) = con.timestamp {
                if !timestamp.value.is_nan() {
                    let later: bool = match best {
                        Some((_, t)) => !timestamp.value.lt(t),
                        None => true,
                    };
                    if later {
                        best = Some((id, timestamp.value));
                    }
                }
            }
            i = i + 1;
        }
        proof {
            assert forall|id: Id| #[trigger] self@.timed(id) implies (best matches Some((_, t))
                && self@.time_of(id).units() <= t.units()) by {
                assert(ids@.contains(id));
            }
        }
        best
    }

    /// The same update for every connection, or for every one but the sender.
    fn broadcast(&self, except: Option<Id>, update: ServerUpdate) -> (actions: Vec<Action>)
        ensures
            reaches(actions@, self@.recipients(except), ServerMessage::Update(update)),
    {
        let ids = self.ids();
        let ghost to = self@.recipients(except);
        let ghost message = ServerMessage::Update(update);
        let mut actions: Vec<Action> = Vec::new();
        let mut i: usize = 0;
        while i < ids.len()
            invariant
                i <= ids@.len(),
                ids@.no_duplicates(),
                to == self@.recipients(except),
                message == ServerMessage::Update(update),
                forall|id: Id| self@.connections.contains_key(id) <==> #[trigger] ids@.contains(id),
                forall|k: int|
                    0 <= k < i && to.contains(#[trigger] ids@[k]) ==> actions@.contains(
                        Action::Send(ids@[k], message),
                    ),
                forall|k: int|
                    0 <= k < actions@.len() ==> (#[trigger] actions@[k] matches Action::Send(id, m)
                        && to.contains(id) && m == message && ids@.take(i as int).contains(id)),
                actions@.no_duplicates(),
            decreases ids@.len() - i,
        {
            let id: Id = ids[i];
            assert(ids@.contains(id));
            let skipped: bool = match except {
                Some(sender) => id == sender,
                None => false,
            };
            let ghost before = actions@;
            let ghost seen = ids@.take(i as int);
            proof {
                assert(ids@.take(i + 1) =~= seen.push(id));
                assert forall|other: Id| seen.contains(other) implies ids@.take(i + 1).contains(
                    other,
                ) && other != id by {
                    let k = choose|k: int| 0 <= k < seen.len() && seen[k] == other;
                    assert(ids@.take(i + 1)[k] == other);
                }
                assert(ids@.take(i + 1)[i as int] == id);
            }
            if !skipped {
                actions.push(Action::Send(id, ServerMessage::Update(update)));
                proof {
                    assert(actions@[before.len() as int] == Action::Send(id, message));
                    assert forall|a: Action| before.contains(a) implies actions@.contains(a) by {
                        let k = choose|k: int| 0 <= k < before.len() && before[k] == a;
                        assert(actions@[k] == a);
                    }
                }
            }
            i = i + 1;
        }
        proof {
            assert forall|id: Id| #[trigger] to.contains(id) implies actions@.contains(
                Action::Send(id, message),
            ) by {
                assert(ids@.contains(id));
            }
        }
        actions
    }
}

/// What an update of one client tells the others; nothing for a mere timestamp.
pub open spec fn relayed(update: ClientUpdate) -> Option<ServerUpdate> {
    match update {
        ClientUpdate::Timestamp { .. } => None,
        ClientUpdate::Seek { time } => Some(
            ServerUpdate { time: Some(time.seconds()), speed: None, paused: None },
        ),
        ClientUpdate::Pause { time } => Some(
            ServerUpdate { time: Some(time.seconds()), speed: None, paused: Some(true) },
        ),
        ClientUpdate::Resume { time } => Some(
            ServerUpdate { time: Some(time.seconds()), speed: None, paused: Some(false) },
        ),
        ClientUpdate::SpeedChange { factor } => Some(
            ServerUpdate { time: None, speed: Some(factor), paused: None },
        ),
    }
}

/// What an update of a client changes in the state that all players are expected in.
pub open spec fn change_of(update: ClientUpdate) -> Option<PlayerChange> {
    match update {
        ClientUpdate::Pause { .. } => Some(PlayerChange::Paused(true)),
        ClientUpdate::Resume { .. } => Some(PlayerChange::Paused(false)),
        ClientUpdate::SpeedChange { factor } => Some(PlayerChange::Speed(factor)),
        _ => None,
    }
}

impl StateView {
    /// The time that a new client is to start at: the least that has been reported, or the
    /// start of the video.
    pub open spec fn starting_time(self, t: Double) -> bool {
        if exists|id: Id| self.timed(id) {
            exists|id: Id| self.least(id, t)
        } else {
            t.bits == 0
        }
    }

    /// The state with a change made.
    pub open spec fn changed(self, change: Option<PlayerChange>) -> StateView {
        match change {
            Some(PlayerChange::Paused(paused)) => StateView {
                player: PlayerState { paused, ..self.player },
                ..self
            },
            Some(PlayerChange::Speed(speed)) => StateView {
                player: PlayerState { speed, ..self.player },
                ..self
            },
            None => self,
        }
    }

    /// The state with a connection set.
    pub open spec fn with(self, id: Id, connection: Connection) -> StateView {
        StateView { connections: self.connections.insert(id, connection), ..self }
    }
}

/// `plan` does nothing at all.
pub open spec fn idle(plan: Plan) -> bool {
    plan.actions@.len() == 0 && plan.change is None
}

/// How the server deals with a command at `now`: the state before, the state after, and
/// what comes of it.
pub open spec fn step(
    pre: StateView,
    command: Command,
    now: u128,
    post: StateView,
    result: Result<Plan, CommandError>,
) -> bool {
    match command {
        Command::NewConnection(id, peer) => joined(pre, id, peer, post, result),
        Command::Disconnection(id) => left(pre, id, post, result),
        Command::Message(id, ClientMessage::Update(update)) => updated(
            pre,
            id,
            update,
            now,
            post,
            result,
        ),
        Command::Message(id, ClientMessage::Init(init)) => introduced(pre, id, init, post, result),
        Command::Synchronize => synchronized(pre, post, result),
    }
}

/// A new client is told the least time and the expected state, unless its id is taken or
/// its address cannot be had.
pub open spec fn joined(
    pre: StateView,
    id: Id,
    peer: Option<String>,
    post: StateView,
    result: Result<Plan, CommandError>,
) -> bool {
    if pre.connections.contains_key(id) {
        post == pre && result == Err::<Plan, _>(CommandError::ExistingConnection(id))
    } else {
        match peer {
            None => post == pre && result == Err::<Plan, _>(CommandError::PeerUnknown),
            Some(peer) => {
                &&& post == pre.with(
                    id,
                    Connection { timestamp: None, peer, state: ConnectionState::Uninitialized },
                )
                &&& result matches Ok(plan)
                &&& plan.change is None
                &&& plan.actions@.len() == 1
                &&& plan.actions@[0] matches Action::Send(to, ServerMessage::Update(update))
                &&& to == id
                &&& update.speed == Some(pre.player.speed)
                &&& update.paused == Some(pre.player.paused)
                &&& update.time matches Some(t)
                &&& pre.starting_time(t)
            },
        }
    }
}

/// A client that leaves is forgotten, and with the last one the video too.
pub open spec fn left(
    pre: StateView,
    id: Id,
    post: StateView,
    result: Result<Plan, CommandError>,
) -> bool {
    if !pre.connections.contains_key(id) {
        post == pre && result == Err::<Plan, _>(CommandError::UnknownConnection(id))
    } else {
        &&& post.connections == pre.connections.remove(id)
        &&& post.player == if pre.connections.remove(id).is_empty() {
            PlayerState { video_hash: None, ..pre.player }
        } else {
            pre.player
        }
        &&& result matches Ok(plan)
        &&& idle(plan)
    }
}

/// A timestamp is noted; anything else goes to all other clients, and then changes the
/// expected state.
pub open spec fn updated(
    pre: StateView,
    id: Id,
    update: ClientUpdate,
    now: u128,
    post: StateView,
    result: Result<Plan, CommandError>,
) -> bool {
    match relayed(update) {
        Some(payload) => {
            &&& post == pre
            &&& result matches Ok(plan)
            &&& reaches(
                plan.actions@,
                pre.recipients(Some(id)),
                ServerMessage::Update(payload),
            )
            &&& plan.change == change_of(update)
        },
        None => {
            &&& update matches ClientUpdate::Timestamp { time }
            &&& post == pre.with(
                id,
                Connection {
                    timestamp: Some(Timestamp { value: time.seconds(), when: now }),
                    ..pre.connections[id]
                },
            )
            &&& result matches Ok(plan)
            &&& idle(plan)
        },
    }
}

/// The first client to introduce itself sets the video; one with another video is told so
/// and cut off.
pub open spec fn introduced(
    pre: StateView,
    id: Id,
    init: ClientInit,
    post: StateView,
    result: Result<Plan, CommandError>,
) -> bool {
    let noted = pre.with(
        id,
        Connection { state: ConnectionState::Initialized, ..pre.connections[id] },
    );
    &&& result matches Ok(plan)
    &&& plan.change is None
    &&& match pre.player.video_hash {
        None => {
            &&& post == StateView {
                player: PlayerState { video_hash: Some(init.video_hash), ..pre.player },
                ..noted
            }
            &&& plan.actions@.len() == 0
        },
        Some(common) => {
            &&& post == noted
            &&& if common@ == init.video_hash@ {
                plan.actions@.len() == 0
            } else {
                plan.actions@ == seq![
                    Action::Send(id, ServerMessage::Disconnect(ServerDisconnect::IncorrectHash)),
                    Action::Shutdown(id),
                ]
            }
        },
    }
}

/// Where two clients are too far apart, all are set to the least time.
pub open spec fn synchronized(
    pre: StateView,
    post: StateView,
    result: Result<Plan, CommandError>,
) -> bool {
    &&& post == pre
    &&& result matches Ok(plan)
    &&& plan.change is None
    &&& if pre.apart() {
        exists|id: Id, t: Double|
            #[trigger] pre.least(id, t) && reaches(
                plan.actions@,
                pre.recipients(None),
                ServerMessage::Update(ServerUpdate { time: Some(t), speed: None, paused: None }),
            )
    } else {
        plan.actions@.len() == 0
    }
}

/// Deals with a command at `now`.
pub fn process_command(command: Command, state: &mut GlobalState, now: u128) -> (result: Result<
    Plan,
    CommandError,
>)
    requires
        old(state)@.well_formed(),
        command matches Command::Message(id, _) ==> old(state)@.connections.contains_key(id),
    ensures
        final(state)@.well_formed(),
        step(old(state)@, command, now, final(state)@, result),
{
    match command {
        Command::NewConnection(id, peer) => {
            let min_time: Double = match state.get_min_time() {
                Some((_, t)) => t,
                None => Double::zero(),
            };
            if state.connections.contains_key(&id) {
                return Err(CommandError::ExistingConnection(id));
            }
            match peer {
                None => Err(CommandError::PeerUnknown),
                Some(peer) => {
                    let connection = Connection {
                        timestamp: None,
                        peer,
                        state: ConnectionState::default(),
                    };
                    state.connections.insert(id, connection);
                    let update = ServerUpdate::new().with_time(min_time).with_speed(
                        state.player.speed,
                    ).with_pause(state.player.paused);
                    let mut actions: Vec<Action> = Vec::new();
                    actions.push(Action::Send(id, ServerMessage::Update(update)));
                    Ok(Plan { actions, change: None })
                },
            }
        },
        Command::Disconnection(id) => {
            if state.connections.remove(&id).is_none() {
                assert(state.connections@ =~= old(state).connections@);
                return Err(CommandError::UnknownConnection(id));
            }
            if state.connections.is_empty() {
                state.player.reset();
            }
            Ok(Plan { actions: Vec::new(), change: None })
        },
        Command::Message(id, ClientMessage::Update(update)) => {
            state.process_update(id, update, now)
        },
        Command::Message(id, ClientMessage::Init(init)) => state.process_init(id, init),
        Command::Synchronize => state.synchronize(),
    }
}

impl GlobalState {
    fn process_update(&mut self, id: Id, update: ClientUpdate, now: u128) -> (result: Result<
        Plan,
        CommandError,
    >)
        requires
            old(self)@.well_formed(),
            old(self)@.connections.contains_key(id),
        ensures
            final(self)@.well_formed(),
            updated(old(self)@, id, update, now, final(self)@, result),
    {
        let payload = ServerUpdate::new();
        let (payload, change): (ServerUpdate, Option<PlayerChange>) = match update {
            ClientUpdate::Timestamp { time } => {
                let mut connection = self.connections.remove(&id).unwrap();
                connection.timestamp = Some(Timestamp::now(time.as_seconds(), now));
                let ghost noted = connection;
                self.connections.insert(id, connection);
                assert(self.connections@ =~= old(self).connections@.insert(id, noted));
                return Ok(Plan { actions: Vec::new(), change: None });
            },
            ClientUpdate::Seek { time } => (payload.with_time(time.as_seconds()), None),
            ClientUpdate::Pause { time } => (
                payload.with_time(time.as_seconds()).with_pause(true),
                Some(PlayerChange::Paused(true)),
            ),
            ClientUpdate::Resume { time } => (
                payload.with_time(time.as_seconds()).with_pause(false),
                Some(PlayerChange::Paused(false)),
            ),
            ClientUpdate::SpeedChange { factor } => (
                payload.with_speed(factor),
                Some(PlayerChange::Speed(factor)),
            ),
        };
        Ok(Plan { actions: self.broadcast(Some(id), payload), change })
    }

    fn process_init(&mut self, id: Id, init: ClientInit) -> (result: Result<Plan, CommandError>)
        requires
            old(self)@.well_formed(),
            old(self)@.connections.contains_key(id),
        ensures
            final(self)@.well_formed(),
            introduced(old(self)@, id, init, final(self)@, result),
    {
        let mut connection = self.connections.remove(&id).unwrap();
        connection.state.init();
        let ghost noted = connection;
        self.connections.insert(id, connection);
        assert(self.connections@ =~= old(self).connections@.insert(id, noted));
        let mut actions: Vec<Action> = Vec::new();
        let refused: bool = match &self.player.video_hash {
            Some(common) => *common != init.video_hash,
            None => false,
        };
        if refused {
            actions.push(
                Action::Send(id, ServerMessage::Disconnect(ServerDisconnect::IncorrectHash)),
            );
            actions.push(Action::Shutdown(id));
            assert(actions@ =~= seq![
                Action::Send(id, ServerMessage::Disconnect(ServerDisconnect::IncorrectHash)),
                Action::Shutdown(id),
            ]);
        } else if self.player.video_hash.is_none() {
            self.player.video_hash = Some(init.video_hash);
        }
        Ok(Plan { actions, change: None })
    }

    fn synchronize(&self) -> (result: Result<Plan, CommandError>)
        ensures
            synchronized(self@, self@, result),
    {
        match (self.get_min_time(), self.get_max_time()) {
            (Some((min_id, min)), Some((max_id, max))) => {
                if max.exceeds_by_five(min) {
                    let actions = self.broadcast(None, ServerUpdate::new().with_time(min));
                    assert(self@.timed(min_id) && self@.timed(max_id));
                    assert(self@.least(min_id, min));
                    return Ok(Plan { actions, change: None });
                }
                proof {
                    if self@.apart() {
                        let (lo, hi) = choose|lo: Id, hi: Id|
                            #![trigger self@.timed(lo), self@.timed(hi)]
                            self@.timed(lo) && self@.timed(hi) && Double::over_five_apart(
                                self@.time_of(hi),
                                self@.time_of(lo),
                            );
                        crate::double::lemma_over_five_apart_widens(
                            self@.time_of(hi),
                            self@.time_of(lo),
                            max,
                            min,
                        );
                    }
                }
            },
            _ => {},
        }
        Ok(Plan { actions: Vec::new(), change: None })
    }

    /// Makes the change that a plan has announced, if all of its actions have succeeded.
    pub fn complete(&mut self, change: Option<PlayerChange>, delivered: bool)
        requires
            old(self)@.well_formed(),
        ensures
            final(self)@.well_formed(),
            final(self)@ == (if delivered {
                old(self)@.changed(change)
            } else {
                old(self)@
            }),
    {
        if delivered {
            match change {
                Some(PlayerChange::Paused(paused)) => {
                    self.player.paused = paused;
                },
                Some(PlayerChange::Speed(speed)) => {
                    self.player.speed = speed;
                },
                None => {},
            }
        }
    }
}

/// Every command keeps the state well formed.
pub proof fn law_steps_keep_well_formed(
    pre: StateView,
    command: Command,
    now: u128,
    post: StateView,
    result: Result<Plan, CommandError>,
)
    requires
        pre.well_formed(),
        command matches Command::Message(id, _) ==> pre.connections.contains_key(id),
        step(pre, command, now, post, result),
    ensures
        post.well_formed(),
{
    if post.player.video_hash is None {
        assert forall|id: Id| #[trigger] post.connections.contains_key(id) implies
            post.connections[id].state == ConnectionState::Uninitialized by {
            assert(pre.connections.contains_key(id) || (command matches Command::NewConnection(
                new,
                _,
            ) && new == id));
        }
    }
}

/// A change reaches every client but the one that it comes from, each once.
pub proof fn law_changes_reach_all_others(
    pre: StateView,
    sender: Id,
    update: ClientUpdate,
    now: u128,
    post: StateView,
    plan: Plan,
)
    requires
        updated(pre, sender, update, now, post, Ok(plan)),
        !(update is Timestamp),
    ensures
        forall|k: int|
            0 <= k < plan.actions@.len() ==> (#[trigger] plan.actions@[k] matches Action::Send(
                to,
                message,
            ) && to != sender && message == ServerMessage::Update(relayed(update)->0)),
        forall|id: Id| #[trigger]
            pre.connections.contains_key(id) && id != sender ==> exists|k: int|
                0 <= k < plan.actions@.len() && #[trigger] plan.actions@[k] == Action::Send(
                    id,
                    ServerMessage::Update(relayed(update)->0),
                ),
        plan.actions@.no_duplicates(),
{
    assert forall|id: Id| #[trigger]
        pre.connections.contains_key(id) && id != sender implies exists|k: int|
        0 <= k < plan.actions@.len() && #[trigger] plan.actions@[k] == Action::Send(
            id,
            ServerMessage::Update(relayed(update)->0),
        ) by {
        assert(pre.recipients(Some(sender)).contains(id));
    }
}

/// Who joins after a change has reached everybody is told to play as the change says.
pub proof fn law_joiner_hears_last_change(
    pre: StateView,
    sender: Id,
    update: ClientUpdate,
    now: u128,
    mid: StateView,
    plan: Plan,
    id: Id,
    peer: String,
    post: StateView,
    result: Result<Plan, CommandError>,
)
    requires
        updated(pre, sender, update, now, mid, Ok(plan)),
        !mid.connections.contains_key(id),
        joined(mid.changed(plan.change), id, Some(peer), post, result),
    ensures
        result matches Ok(p) && p.actions@.len() == 1 && (p.actions@[0] matches Action::Send(
            to,
            ServerMessage::Update(told),
        ) && {
            &&& to == id
            &&& update is Pause ==> told.paused == Some(true)
            &&& update is Resume ==> told.paused == Some(false)
            &&& update matches ClientUpdate::SpeedChange { factor } ==> told.speed == Some(factor)
        }),
{
}

/// A client that plays another video than the others is told so and cut off, and the
/// others keep their video.
pub proof fn law_other_video_is_refused(
    pre: StateView,
    id: Id,
    init: ClientInit,
    post: StateView,
    result: Result<Plan, CommandError>,
)
    requires
        introduced(pre, id, init, post, result),
        pre.player.video_hash is Some,
        pre.player.video_hash->0@ != init.video_hash@,
    ensures
        result matches Ok(plan) && plan.actions@ == seq![
            Action::Send(id, ServerMessage::Disconnect(ServerDisconnect::IncorrectHash)),
            Action::Shutdown(id),
        ],
        post.player == pre.player,
{
}

/// A client that plays the same video as the others is let in, and nothing changes for them.
pub proof fn law_same_video_is_let_in(
    pre: StateView,
    id: Id,
    init: ClientInit,
    post: StateView,
    result: Result<Plan, CommandError>,
)
    requires
        introduced(pre, id, init, post, result),
        pre.player.video_hash is Some,
        pre.player.video_hash->0@ == init.video_hash@,
    ensures
        result matches Ok(plan) && plan.actions@.len() == 0,
        post.player == pre.player,
        forall|other: Id| #[trigger]
            pre.connections.contains_key(other) && other != id ==> post.connections[other]
                == pre.connections[other],
{
}

/// The first client to introduce itself is then the only one that has, and sets the video
/// for all that follow.
pub proof fn law_first_introduction_sets_video(
    pre: StateView,
    id: Id,
    init: ClientInit,
    post: StateView,
    result: Result<Plan, CommandError>,
)
    requires
        pre.well_formed(),
        pre.connections.contains_key(id),
        introduced(pre, id, init, post, result),
        pre.player.video_hash is None,
    ensures
        result matches Ok(plan) && plan.actions@.len() == 0,
        post.player.video_hash == Some(init.video_hash),
        forall|other: Id| #[trigger]
            post.connections.contains_key(other) ==> (post.connections[other].state
                == ConnectionState::Initialized <==> other == id),
{
    assert forall|other: Id| #[trigger] post.connections.contains_key(other) implies (
    post.connections[other].state == ConnectionState::Initialized <==> other == id) by {
        assert(other == id || pre.connections.contains_key(other));
    }
}

/// Once the last client has left, the next one may bring any video.
pub proof fn law_video_is_free_after_last_client(
    s0: StateView,
    last: Id,
    s1: StateView,
    r1: Result<Plan, CommandError>,
    next: Id,
    peer: String,
    s2: StateView,
    r2: Result<Plan, CommandError>,
    init: ClientInit,
    s3: StateView,
    r3: Result<Plan, CommandError>,
)
    requires
        s0.connections.dom() == set![last],
        left(s0, last, s1, r1),
        joined(s1, next, Some(peer), s2, r2),
        introduced(s2, next, init, s3, r3),
    ensures
        r3 matches Ok(plan) && plan.actions@.len() == 0,
        s3.player.video_hash == Some(init.video_hash),
{
    assert(s0.connections.contains_key(last));
    assert(s0.connections.remove(last).dom() =~= Set::empty());
    assert(s0.connections.remove(last) =~= Map::empty());
}

/// Leaving undoes joining, save that with the last client the video is forgotten.
pub proof fn law_leaving_undoes_joining(
    pre: StateView,
    id: Id,
    peer: String,
    mid: StateView,
    r1: Result<Plan, CommandError>,
    post: StateView,
    r2: Result<Plan, CommandError>,
)
    requires
        !pre.connections.contains_key(id),
        joined(pre, id, Some(peer), mid, r1),
        left(mid, id, post, r2),
    ensures
        post.connections == pre.connections,
        post.player.speed == pre.player.speed,
        post.player.paused == pre.player.paused,
        !pre.connections.is_empty() ==> post.player == pre.player,
        pre.connections.is_empty() ==> post.player.video_hash is None,
{
    assert(mid.connections.remove(id) =~= pre.connections);
}

/// Clients that report the same time are left alone.
pub proof fn law_level_clients_are_left_alone(
    pre: StateView,
    post: StateView,
    result: Result<Plan, CommandError>,
)
    requires
        synchronized(pre, post, result),
        forall|a: Id, b: Id|
            #![trigger pre.timed(a), pre.timed(b)]
            pre.timed(a) && pre.timed(b) ==> pre.time_of(a).units() == pre.time_of(b).units(),
    ensures
        result matches Ok(plan) && plan.actions@.len() == 0,
{
    if pre.apart() {
        let (lo, hi) = choose|lo: Id, hi: Id|
            #![trigger pre.timed(lo), pre.timed(hi)]
            pre.timed(lo) && pre.timed(hi) && Double::over_five_apart(
                pre.time_of(hi),
                pre.time_of(lo),
            );
        crate::double::lemma_equal_not_apart(pre.time_of(hi), pre.time_of(lo));
    }
}

/// As soon as two clients are more than five seconds apart, and only then, a synchronization
/// sends everybody, the slowest client too, to one and the same time, which is the slowest
/// client's.
pub proof fn law_synchronization_is_to_the_slowest(
    pre: StateView,
    post: StateView,
    plan: Plan,
)
    requires
        synchronized(pre, post, Ok(plan)),
    ensures
        plan.actions@.len() > 0 <==> pre.apart(),
        pre.apart() ==> exists|slowest: Id, t: Double|
            #[trigger] pre.least(slowest, t) && forall|id: Id| #[trigger]
                pre.connections.contains_key(id) ==> plan.actions@.contains(
                    Action::Send(
                        id,
                        ServerMessage::Update(
                            ServerUpdate { time: Some(t), speed: None, paused: None },
                        ),
                    ),
                ),
{
    if pre.apart() {
        let (slowest, t) = choose|id: Id, t: Double|
            #[trigger] pre.least(id, t) && reaches(
                plan.actions@,
                pre.recipients(None),
                ServerMessage::Update(ServerUpdate { time: Some(t), speed: None, paused: None }),
            );
        assert(pre.least(slowest, t));
        assert forall|id: Id| #[trigger]
            pre.connections.contains_key(id) implies plan.actions@.contains(
            Action::Send(
                id,
                ServerMessage::Update(ServerUpdate { time: Some(t), speed: None, paused: None }),
            ),
        ) by {
            assert(pre.recipients(None).contains(id));
        }
        assert(pre.connections.contains_key(slowest));
    }
}

/// As long as new connections get their ids from the numbering, their ids are free: none is
/// refused for its id, and every connection keeps an id that was handed out.
pub proof fn law_numbered_connections_are_not_refused(
    ids: Ids,
    pre: StateView,
    command: Command,
    now: u128,
    post: StateView,
    result: Result<Plan, CommandError>,
)
    requires
        ids.next < usize::MAX,
        ids.ahead_of(pre.connections),
        command matches Command::NewConnection(id, _) ==> id == ids.next,
        command matches Command::Message(id, _) ==> pre.connections.contains_key(id),
        step(pre, command, now, post, result),
    ensures
        result matches Err(error) ==> !(error is ExistingConnection),
        (if command is NewConnection {
            ids.advanced()
        } else {
            ids
        }).ahead_of(post.connections),
{
    assert forall|id: Id| #[trigger] post.connections.contains_key(id) implies
        pre.connections.contains_key(id) || (command matches Command::NewConnection(new, _)
            && new == id) by {}
}

/// The client is connected and has last reported this time.
pub open spec fn is_at(state: StateView, id: Id, t: Double) -> bool {
    &&& state.connections.contains_key(id)
    &&& state.connections[id].timestamp matches Some(timestamp)
    &&& timestamp.value == t
    &&& !t.nan()
}

/// No client has reported a time before this one, and some client has reported it.
pub open spec fn slowest_at(state: StateView, t: Double) -> bool {
    &&& exists|id: Id| #[trigger] is_at(state, id, t)
    &&& forall|id: Id, other: Double| #[trigger]
        is_at(state, id, other) ==> t.units() <= other.units()
}

/// The least time is found, and so is the greatest; neither where nobody has reported one.
pub proof fn law_extremes_are_found(
    state: &GlobalState,
    min: Option<(Id, Double)>,
    max: Option<(Id, Double)>,
)
    requires
        call_ensures(GlobalState::get_min_time, (state,), min),
        call_ensures(GlobalState::get_max_time, (state,), max),
    ensures
        min is Some <==> exists|id: Id, t: Double| #[trigger] is_at(state@, id, t),
        max is Some <==> exists|id: Id, t: Double| #[trigger] is_at(state@, id, t),
        min matches Some((id, t)) ==> is_at(state@, id, t) && slowest_at(state@, t),
        max matches Some((id, t)) ==> is_at(state@, id, t) && forall|other: Id, u: Double|
            #[trigger] is_at(state@, other, u) ==> u.units() <= t.units(),
{
    assert forall|id: Id, t: Double| #[trigger] is_at(state@, id, t) implies state@.timed(id)
        && state@.time_of(id) == t by {}
    if min is None || max is None {
        assert forall|id: Id, t: Double| !(#[trigger] is_at(state@, id, t)) by {
            assert(!state@.timed(id));
        }
    }
    if let Some((id, t)) = min {
        assert(is_at(state@, id, t));
    }
    if let Some((id, t)) = max {
        assert(is_at(state@, id, t));
    }
}

/// Whoever joins is told the least time that anybody has reported, the start of the video
/// where nobody has, and the speed and the pause of the others, and is then connected; nothing
/// else changes.  Where the id is taken, or the address cannot be had, nothing happens.
pub proof fn law_joiner_is_told_where_the_others_are(
    pre: StateView,
    id: Id,
    peer: Option<String>,
    now: u128,
    post: StateView,
    result: Result<Plan, CommandError>,
)
    requires
        step(pre, Command::NewConnection(id, peer), now, post, result),
    ensures
        result is Ok <==> !pre.connections.contains_key(id) && peer is Some,
        result is Err ==> post == pre,
        pre.connections.contains_key(id) ==> result == Err::<Plan, _>(
            CommandError::ExistingConnection(id),
        ),
        !pre.connections.contains_key(id) && peer is None ==> result == Err::<Plan, _>(
            CommandError::PeerUnknown,
        ),
        result matches Ok(plan) ==> {
            &&& plan.change is None
            &&& plan.actions@.len() == 1
            &&& plan.actions@[0] matches Action::Send(to, ServerMessage::Update(told))
            &&& to == id
            &&& told.speed == Some(pre.player.speed)
            &&& told.paused == Some(pre.player.paused)
            &&& told.time is Some
            &&& (exists|other: Id, t: Double| #[trigger] is_at(pre, other, t)) ==> slowest_at(
                pre,
                told.time->0,
            )
            &&& !(exists|other: Id, t: Double| #[trigger] is_at(pre, other, t)) ==> told.time
                == Some((Double { bits: 0 }))
            &&& post.player == pre.player
            &&& post.connections.dom() == pre.connections.dom().insert(id)
            &&& post.connections[id].timestamp is None
            &&& post.connections[id].peer == peer->0
            &&& post.connections[id].state == ConnectionState::Uninitialized
            &&& forall|other: Id| #[trigger]
                pre.connections.contains_key(other) ==> post.connections[other]
                    == pre.connections[other]
        },
{
    if let Ok(plan) = result {
        assert(post.connections.dom() =~= pre.connections.dom().insert(id));
        assert forall|other: Id, t: Double| #[trigger] is_at(pre, other, t) implies pre.timed(
            other,
        ) && pre.time_of(other) == t by {}
        let told = plan.actions@[0]->Send_1->Update_0;
        let t = told.time->0;
        assert(pre.starting_time(t));
        if exists|other: Id, u: Double| #[trigger] is_at(pre, other, u) {
            let (other, u) = choose|other: Id, u: Double| #[trigger] is_at(pre, other, u);
            assert(pre.timed(other));
            let c = choose|c: Id| pre.least(c, t);
            assert(is_at(pre, c, t));
            assert(slowest_at(pre, t));
        } else {
            assert forall|other: Id| !pre.timed(other) by {
                if pre.timed(other) {
                    assert(is_at(pre, other, pre.time_of(other)));
                }
            }
        }
    }
}

/// Whoever leaves is forgotten, and the others stay as they are; with the last one the video
/// is forgotten, and not before.  Who is not connected cannot leave.
pub proof fn law_leaver_is_forgotten(
    pre: StateView,
    id: Id,
    now: u128,
    post: StateView,
    result: Result<Plan, CommandError>,
)
    requires
        step(pre, Command::Disconnection(id), now, post, result),
    ensures
        !pre.connections.contains_key(id) ==> post == pre && result == Err::<Plan, _>(
            CommandError::UnknownConnection(id),
        ),
        pre.connections.contains_key(id) ==> {
            &&& result matches Ok(plan)
            &&& plan.actions@.len() == 0 && plan.change is None
            &&& !post.connections.contains_key(id)
            &&& forall|other: Id|
                other != id ==> (#[trigger] post.connections.contains_key(other)
                    <==> pre.connections.contains_key(other))
            &&& forall|other: Id| #[trigger]
                post.connections.contains_key(other) ==> post.connections[other]
                    == pre.connections[other]
            &&& post.player.speed == pre.player.speed
            &&& post.player.paused == pre.player.paused
            &&& (exists|other: Id| other != id && #[trigger] pre.connections.contains_key(other))
                ==> post.player.video_hash == pre.player.video_hash
            &&& !(exists|other: Id|
                other != id && #[trigger] pre.connections.contains_key(other))
                ==> post.player.video_hash is None
        },
{
    let left = pre.connections.remove(id);
    if exists|other: Id| other != id && #[trigger] pre.connections.contains_key(other) {
        let other = choose|other: Id|
            other != id && #[trigger] pre.connections.contains_key(other);
        assert(left.contains_key(other));
    } else {
        assert(left =~= Map::empty());
    }
}

/// A report replaces whatever the client has reported before, and nothing else changes or is
/// sent.
pub proof fn law_report_replaces_the_last_one(
    pre: StateView,
    id: Id,
    time: crate::time::Time,
    now: u128,
    post: StateView,
    result: Result<Plan, CommandError>,
)
    requires
        pre.connections.contains_key(id),
        step(
            pre,
            Command::Message(id, ClientMessage::Update(ClientUpdate::Timestamp { time })),
            now,
            post,
            result,
        ),
    ensures
        result matches Ok(plan) && plan.actions@.len() == 0 && plan.change is None,
        post.player == pre.player,
        post.connections.dom() == pre.connections.dom(),
        post.connections[id].timestamp == Some(Timestamp { value: time.seconds(), when: now }),
        post.connections[id].peer == pre.connections[id].peer,
        post.connections[id].state == pre.connections[id].state,
        forall|other: Id|
            other != id && #[trigger] pre.connections.contains_key(other)
                ==> post.connections[other] == pre.connections[other],
{
    assert(post.connections.dom() =~= pre.connections.dom());
}

/// A change is sent as that change to everybody but the client that it comes from, each once.
/// Once all have it, the state that is expected of the players has changed as it says and in
/// nothing else.
pub proof fn law_change_is_passed_on_as_it_is(
    pre: StateView,
    sender: Id,
    update: ClientUpdate,
    now: u128,
    post: StateView,
    result: Result<Plan, CommandError>,
)
    requires
        step(pre, Command::Message(sender, ClientMessage::Update(update)), now, post, result),
        !(update is Timestamp),
    ensures
        post == pre,
        result matches Ok(plan) && {
            let payload = match update {
                ClientUpdate::Pause { time } => ServerUpdate {
                    time: Some(time.seconds()),
                    speed: None,
                    paused: Some(true),
                },
                ClientUpdate::Resume { time } => ServerUpdate {
                    time: Some(time.seconds()),
                    speed: None,
                    paused: Some(false),
                },
                ClientUpdate::SpeedChange { factor } => ServerUpdate {
                    time: None,
                    speed: Some(factor),
                    paused: None,
                },
                ClientUpdate::Seek { time } | ClientUpdate::Timestamp { time } => ServerUpdate {
                    time: Some(time.seconds()),
                    speed: None,
                    paused: None,
                },
            };
            let completed = pre.changed(plan.change);
            &&& plan.actions@.no_duplicates()
            &&& forall|id: Id|
                (pre.connections.contains_key(id) && id != sender)
                    <==> #[trigger] plan.actions@.contains(
                    Action::Send(id, ServerMessage::Update(payload)),
                )
            &&& forall|k: int|
                0 <= k < plan.actions@.len() ==> (#[trigger] plan.actions@[k] matches Action::Send(
                    id,
                    ServerMessage::Update(sent),
                ) && sent == payload)
            &&& completed.connections == pre.connections
            &&& completed.player.video_hash == pre.player.video_hash
            &&& completed.player.paused == (match update {
                ClientUpdate::Pause { .. } => true,
                ClientUpdate::Resume { .. } => false,
                _ => pre.player.paused,
            })
            &&& completed.player.speed == (match update {
                ClientUpdate::SpeedChange { factor } => factor,
                _ => pre.player.speed,
            })
        },
{
    let plan = result->Ok_0;
    let payload = relayed(update)->0;
    let message = ServerMessage::Update(payload);
    let to = pre.recipients(Some(sender));
    assert forall|id: Id|
        (pre.connections.contains_key(id) && id != sender)
            <==> #[trigger] plan.actions@.contains(Action::Send(id, message)) by {
        assert(to.contains(id) <==> pre.connections.contains_key(id) && id != sender);
        if plan.actions@.contains(Action::Send(id, message)) {
            let k = choose|k: int|
                0 <= k < plan.actions@.len() && plan.actions@[k] == Action::Send(id, message);
            assert(plan.actions@[k] is Send);
        }
    }
}

/// Whoever introduces itself is noted, and nobody else is touched.  The first video that is
/// named holds for all; who names another is told so and cut off, and who names the same is
/// sent nothing.
pub proof fn law_introduction_is_held_against_the_video(
    pre: StateView,
    id: Id,
    init: ClientInit,
    now: u128,
    post: StateView,
    result: Result<Plan, CommandError>,
)
    requires
        pre.connections.contains_key(id),
        step(pre, Command::Message(id, ClientMessage::Init(init)), now, post, result),
    ensures
        post.connections.dom() == pre.connections.dom(),
        post.connections[id].state == ConnectionState::Initialized,
        post.connections[id].timestamp == pre.connections[id].timestamp,
        post.connections[id].peer == pre.connections[id].peer,
        forall|other: Id|
            other != id && #[trigger] pre.connections.contains_key(other)
                ==> post.connections[other] == pre.connections[other],
        post.player.speed == pre.player.speed,
        post.player.paused == pre.player.paused,
        post.player.video_hash == (match pre.player.video_hash {
            Some(common) => Some(common),
            None => Some(init.video_hash),
        }),
        result matches Ok(plan) && plan.change is None && plan.actions@ == (
        if pre.player.video_hash matches Some(common) && common@ != init.video_hash@ {
            seq![
                Action::Send(id, ServerMessage::Disconnect(ServerDisconnect::IncorrectHash)),
                Action::Shutdown(id),
            ]
        } else {
            seq![]
        }),
{
    assert(post.connections.dom() =~= pre.connections.dom());
}

/// Where one client is ahead of another by more than five seconds, everybody is sent to the
/// time of the slowest client, each once, and to nothing else; the state stays as it is.
pub proof fn law_distant_clients_are_sent_to_the_slowest(
    pre: StateView,
    ahead: Id,
    a: Double,
    behind: Id,
    b: Double,
    now: u128,
    post: StateView,
    result: Result<Plan, CommandError>,
)
    requires
        step(pre, Command::Synchronize, now, post, result),
        is_at(pre, ahead, a) && a.finite(),
        is_at(pre, behind, b) && b.finite(),
        a.units() - b.units() > 5 * vstd::arithmetic::power2::pow2(1074)
            + vstd::arithmetic::power2::pow2(1023),
    ensures
        post == pre,
        result matches Ok(plan) && {
            &&& plan.change is None
            &&& plan.actions@.no_duplicates()
            &&& exists|t: Double|
                {
                    let update = ServerUpdate { time: Some(t), speed: None, paused: None };
                    &&& #[trigger] slowest_at(pre, t)
                    &&& forall|id: Id|
                        pre.connections.contains_key(id) <==> #[trigger] plan.actions@.contains(
                            Action::Send(id, ServerMessage::Update(update)),
                        )
                    &&& forall|k: int|
                        0 <= k < plan.actions@.len() ==> (
                        #[trigger] plan.actions@[k] matches Action::Send(
                            id,
                            ServerMessage::Update(sent),
                        ) && sent == update)
                }
        },
{
    assert(pre.timed(ahead) && pre.timed(behind));
    assert(pre.apart());
    let plan = result->Ok_0;
    let (c, t) = choose|id: Id, t: Double|
        #[trigger] pre.least(id, t) && reaches(
            plan.actions@,
            pre.recipients(None),
            ServerMessage::Update(ServerUpdate { time: Some(t), speed: None, paused: None }),
        );
    let update = ServerUpdate { time: Some(t), speed: None, paused: None };
    let message = ServerMessage::Update(update);
    assert(is_at(pre, c, t));
    assert forall|id: Id, other: Double| #[trigger] is_at(pre, id, other) implies t.units()
        <= other.units() by {
        assert(pre.timed(id));
    }
    assert(slowest_at(pre, t));
    assert forall|id: Id|
        pre.connections.contains_key(id) <==> #[trigger] plan.actions@.contains(
            Action::Send(id, message),
        ) by {
        assert(pre.recipients(None).contains(id) <==> pre.connections.contains_key(id));
        if plan.actions@.contains(Action::Send(id, message)) {
            let k = choose|k: int|
                0 <= k < plan.actions@.len() && plan.actions@[k] == Action::Send(id, message);
            assert(plan.actions@[k] is Send);
        }
    }
}

/// Where no client is ahead of another by more than five seconds, nobody is sent anything.
pub proof fn law_close_clients_are_left_alone(
    pre: StateView,
    now: u128,
    post: StateView,
    result: Result<Plan, CommandError>,
)
    requires
        step(pre, Command::Synchronize, now, post, result),
        forall|x: Id, a: Double, y: Id, b: Double|
            #![trigger is_at(pre, x, a), is_at(pre, y, b)]
            is_at(pre, x, a) && is_at(pre, y, b) ==> a.finite() && b.finite() && a.units()
                - b.units() <= 5 * vstd::arithmetic::power2::pow2(1074)
                + vstd::arithmetic::power2::pow2(1023),
    ensures
        post == pre,
        result matches Ok(plan) && plan.actions@.len() == 0 && plan.change is None,
{
    if pre.apart() {
        let (lo, hi) = choose|lo: Id, hi: Id|
            #![trigger pre.timed(lo), pre.timed(hi)]
            pre.timed(lo) && pre.timed(hi) && Double::over_five_apart(
                pre.time_of(hi),
                pre.time_of(lo),
            );
        assert(is_at(pre, lo, pre.time_of(lo)));
        assert(is_at(pre, hi, pre.time_of(hi)));
    }
}

/// A command that was dealt with: the state before, when it was, whether what came of it was
/// delivered, and the state after.
pub struct Served {
    pub pre: StateView,
    pub command: Command,
    pub now: u128,
    pub result: Result<Plan, CommandError>,
    pub delivered: bool,
    pub post: StateView,
}

/// The server has dealt with the command so.
pub open spec fn served(s: Served) -> bool {
    &&& s.command matches Command::Message(id, _) ==> s.pre.connections.contains_key(id)
    &&& exists|mid: StateView| #[trigger]
        step(s.pre, s.command, s.now, mid, s.result) && s.post == (match s.result {
            Ok(plan) => if s.delivered {
                mid.changed(plan.change)
            } else {
                mid
            },
            Err(_) => mid,
        })
}

/// The commands were dealt with one after the other.
pub open spec fn session(s: Seq<Served>) -> bool {
    &&& forall|k: int| 0 <= k < s.len() ==> served(#[trigger] s[k])
    &&& forall|k: int, l: int|
        #![trigger s[k], s[l]]
        0 <= k && l == k + 1 && l < s.len() ==> s[k].post == s[l].pre
}

/// The command does not change what is known of the client's time.
pub open spec fn leaves_time_alone(command: Command, id: Id) -> bool {
    match command {
        Command::Disconnection(left) => left != id,
        Command::Message(sender, ClientMessage::Update(ClientUpdate::Timestamp { .. })) => sender
            != id,
        _ => true,
    }
}

/// What is held of a client is the time that it has reported last, through whatever comes
/// after, until it reports again or leaves.
pub proof fn law_last_report_is_held(
    s: Seq<Served>,
    i: int,
    n: int,
    id: Id,
    time: crate::time::Time,
)
    requires
        session(s),
        0 <= i < n <= s.len(),
        s[i].command == Command::Message(
            id,
            ClientMessage::Update(ClientUpdate::Timestamp { time }),
        ),
        forall|k: int| i < k < n ==> leaves_time_alone((#[trigger] s[k]).command, id),
    ensures
        s[n - 1].post.connections.contains_key(id),
        s[n - 1].post.connections[id].timestamp == Some(
            Timestamp { value: time.seconds(), when: s[i].now },
        ),
    decreases n - i,
{
    let last = s[n - 1];
    assert(served(last));
    let mid = choose|mid: StateView| #[trigger]
        step(last.pre, last.command, last.now, mid, last.result) && last.post == (
        match last.result {
            Ok(plan) => if last.delivered {
                mid.changed(plan.change)
            } else {
                mid
            },
            Err(_) => mid,
        });
    assert(last.post.connections == mid.connections);
    if n - 1 == i {
        law_report_replaces_the_last_one(last.pre, id, time, last.now, mid, last.result);
        assert(mid.connections.dom().contains(id));
    } else {
        law_last_report_is_held(s, i, n - 1, id, time);
        assert(s[n - 2].post == s[n - 1].pre);
        assert(leaves_time_alone(s[n - 1].command, id));
        match last.command {
            Command::NewConnection(new, peer) => {
                law_joiner_is_told_where_the_others_are(
                    last.pre,
                    new,
                    peer,
                    last.now,
                    mid,
                    last.result,
                );
                assert(last.pre.connections.dom().contains(id));
                assert(mid.connections.dom().contains(id));
            },
            Command::Disconnection(gone) => {
                law_leaver_is_forgotten(last.pre, gone, last.now, mid, last.result);
                assert(mid.connections.contains_key(id));
            },
            Command::Message(sender, ClientMessage::Update(ClientUpdate::Timestamp { time: t })) => {
                law_report_replaces_the_last_one(
                    last.pre,
                    sender,
                    t,
                    last.now,
                    mid,
                    last.result,
                );
                assert(mid.connections.dom().contains(id));
            },
            Command::Message(sender, ClientMessage::Update(update)) => {
                law_change_is_passed_on_as_it_is(
                    last.pre,
                    sender,
                    update,
                    last.now,
                    mid,
                    last.result,
                );
            },
            Command::Message(sender, ClientMessage::Init(init)) => {
                law_introduction_is_held_against_the_video(
                    last.pre,
                    sender,
                    init,
                    last.now,
                    mid,
                    last.result,
                );
                assert(mid.connections.dom().contains(id));
            },
            Command::Synchronize => {},
        }
    }
}

/// Clients whose last reports are more than five seconds apart are brought back together,
/// with everybody else: the next synchronization sends all to the least time that is held,
/// which is no later than the lesser of the two reports.
pub proof fn law_drifting_clients_are_brought_back(
    s: Seq<Served>,
    i: int,
    a: Id,
    fast: crate::time::Time,
    j: int,
    b: Id,
    slow: crate::time::Time,
)
    requires
        session(s),
        0 <= i < s.len() - 1,
        0 <= j < s.len() - 1,
        fast.seconds().finite() && slow.seconds().finite(),
        s[i].command == Command::Message(
            a,
            ClientMessage::Update(ClientUpdate::Timestamp { time: fast }),
        ),
        s[j].command == Command::Message(
            b,
            ClientMessage::Update(ClientUpdate::Timestamp { time: slow }),
        ),
        forall|k: int| i < k < s.len() - 1 ==> leaves_time_alone((#[trigger] s[k]).command, a),
        forall|k: int| j < k < s.len() - 1 ==> leaves_time_alone((#[trigger] s[k]).command, b),
        s.last().command == Command::Synchronize,
        fast.seconds().units() - slow.seconds().units() > 5 * vstd::arithmetic::power2::pow2(1074)
            + vstd::arithmetic::power2::pow2(1023),
    ensures
        s.last().result matches Ok(plan) && exists|t: Double|
            #[trigger] slowest_at(s.last().pre, t) && t.units() <= slow.seconds().units() && (
            forall|id: Id|
                s.last().pre.connections.contains_key(id)
                    <==> #[trigger] plan.actions@.contains(
                    Action::Send(
                        id,
                        ServerMessage::Update(
                            ServerUpdate { time: Some(t), speed: None, paused: None },
                        ),
                    ),
                )),
        s.last().pre.connections.contains_key(a) && s.last().pre.connections.contains_key(b),
{
    let n = s.len() - 1;
    law_last_report_is_held(s, i, n, a, fast);
    law_last_report_is_held(s, j, n, b, slow);
    let last = s[n];
    assert(s[n - 1].post == s[n].pre);
    assert(served(last));
    let mid = choose|mid: StateView| #[trigger]
        step(last.pre, last.command, last.now, mid, last.result) && last.post == (
        match last.result {
            Ok(plan) => if last.delivered {
                mid.changed(plan.change)
            } else {
                mid
            },
            Err(_) => mid,
        });
    let x = fast.seconds();
    let y = slow.seconds();
    assert(is_at(last.pre, a, x) && is_at(last.pre, b, y));
    law_distant_clients_are_sent_to_the_slowest(
        last.pre,
        a,
        x,
        b,
        y,
        last.now,
        mid,
        last.result,
    );
    let plan = last.result->Ok_0;
    let t = choose|t: Double|
        {
            let update = ServerUpdate { time: Some(t), speed: None, paused: None };
            &&& #[trigger] slowest_at(last.pre, t)
            &&& forall|id: Id|
                last.pre.connections.contains_key(id) <==> #[trigger] plan.actions@.contains(
                    Action::Send(id, ServerMessage::Update(update)),
                )
            &&& forall|k: int|
                0 <= k < plan.actions@.len() ==> (
                #[trigger] plan.actions@[k] matches Action::Send(id, ServerMessage::Update(sent))
                    && sent == update)
        };
    assert(slowest_at(last.pre, t));
    assert(t.units() <= y.units());
}

/// An error reads as what went wrong, with the id in decimal digits.
pub proof fn law_errors_name_the_id(error: &CommandError, text: String)
    requires
        call_ensures(CommandError::text, (error,), text),
    ensures
        *error is PeerUnknown ==> text@ == "Failed to extract peer addr."@,
        *error matches CommandError::ExistingConnection(id) ==> text@
            == "Existing connection with id: "@ + crate::text::decimal(id as nat)
            && crate::text::reading(crate::text::decimal(id as nat)) == id,
        *error matches CommandError::UnknownConnection(id) ==> text@ == "ID: "@
            + crate::text::decimal(id as nat) + " doesn't exist in connections."@
            && crate::text::reading(crate::text::decimal(id as nat)) == id,
{
    match *error {
        CommandError::PeerUnknown => {},
        CommandError::ExistingConnection(id) | CommandError::UnknownConnection(id) => {
            crate::text::law_decimal_digits_read_as_the_number(id as nat);
        },
    }
}

/// A command takes the server by the step that belongs to it, and its state stays well formed.
pub proof fn law_command_takes_its_step(
    command: Command,
    now: u128,
    result: Result<Plan, CommandError>,
)
    ensures
        forall|state: &mut GlobalState| #[trigger]
            call_ensures(process_command, (command, state, now), result) ==> step(
                state@,
                command,
                now,
                final(state)@,
                result,
            ) && final(state)@.well_formed(),
{
}

/// A change that has not reached everybody is dropped; one that has is made, and touches
/// neither the connections nor the video.
pub proof fn law_only_delivered_changes_are_made(change: Option<PlayerChange>, delivered: bool)
    ensures
        forall|state: &mut GlobalState| #[trigger]
            call_ensures(GlobalState::complete, (state, change, delivered), ()) ==> {
                &&& !delivered || change is None ==> final(state)@ == state@
                &&& final(state)@.connections == state@.connections
                &&& final(state)@.player.video_hash == state@.player.video_hash
                &&& delivered && (change matches Some(PlayerChange::Paused(_))) ==> final(state)@.player.paused == change->0->Paused_0 && final(state)@.player.speed
                    == state@.player.speed
                &&& delivered && (change matches Some(PlayerChange::Speed(_))) ==> final(state)@.player.speed == change->0->Speed_0 && final(state)@.player.paused
                    == state@.player.paused
            },
{
}

/// A new server has no clients, plays at normal speed and knows no video; forgetting the video
/// forgets nothing else; and who introduces itself has.
pub proof fn law_small_steps_of_the_server(fresh: GlobalState, id: Id)
    requires
        call_ensures(<GlobalState as Default>::default, (), fresh),
    ensures
        fresh@.connections.len() == 0,
        fresh@.player.speed == (Double { bits: 0x3FF0_0000_0000_0000 }),
        !fresh@.player.paused,
        fresh@.player.video_hash is None,
        forall|player: &mut PlayerState| #[trigger]
            call_ensures(PlayerState::reset, (player,), ()) ==> final(player).video_hash is None
                && final(player).speed == player.speed && final(player).paused == player.paused,
        forall|state: &mut ConnectionState| #[trigger]
            call_ensures(ConnectionState::init, (state,), ()) ==> *final(state)
                == ConnectionState::Initialized,
        forall|ids: &mut Ids| #[trigger]
            call_ensures(Ids::next, (ids,), id) ==> id == ids.next && final(ids).next == id + 1,
{
}

/// Every command is dealt with, but for a message of a client that is not connected.  The
/// clients are brought back together every three seconds.
pub proof fn law_every_command_is_dealt_with(command: Command, now: u128)
    ensures
        forall|state: &mut GlobalState|
            state@.well_formed() && (command matches Command::Message(id, _)
                ==> state@.connections.contains_key(id)) ==> #[trigger] call_requires(
                process_command,
                (command, state, now),
            ),
        SYNCHRONIZE_SECS == 3,
{
}

} // verus!
