//! The blocking server: it passes changes on and brings clients back together.

use std::collections::HashMap;

use vstd::prelude::*;

use crate::blocking::network_data_model::ClientMessage;
use crate::double::Double;

verus! {

/// What tells the connections apart.
pub type Id = u64;

/// How often the clients are brought back together, in seconds.
pub const SYNCHRONIZE_SECS: u64 = 3;

/// A time that a client has reported, and when (nanoseconds on the server's clock).
#[derive(Debug, Clone, Copy)]
pub struct Timestamp {
    pub value: Double,
    pub when: u128,
}

impl Timestamp {
    /// The timestamp for a value that is reported at `now`.
    pub fn now(value: Double, now: u128) -> (t: Timestamp)
        ensures
            t == (Timestamp { value, when: now }),
    {
        Timestamp { value, when: now }
    }
}

/// What is known of a connected client.
#[derive(Debug, Clone, Copy)]
pub struct Connection {
    pub timestamp: Option<Timestamp>,
}

/// The numbering of the connections.
#[derive(Debug)]
pub struct Ids {
    /// The id that is handed out next.
    pub next: Id,
}

impl Ids {
    /// The numbering once another id has been handed out.
    pub open spec fn advanced(self) -> Ids {
        Ids { next: (self.next + 1) as Id }
    }

    /// The numbering once so many ids have been handed out.
    pub open spec fn after(self, count: nat) -> Ids
        decreases count,
    {
        if count == 0 {
            self
        } else {
            self.after((count - 1) as nat).advanced()
        }
    }

    /// All connections have ids that were handed out.
    pub open spec fn ahead_of(self, connections: Map<Id, Connection>) -> bool {
        forall|id: Id| #[trigger] connections.contains_key(id) ==> id < self.next
    }

    /// The first connection is number one.
    pub fn new() -> (ids: Ids)
        ensures
            ids.next == 1,
    {
        Ids { next: 1 }
    }

    /// Hands an id out.
    pub fn next(&mut self) -> (id: Id)
        requires
            old(self).next < u64::MAX,
        ensures
            id == old(self).next,
            *final(self) == old(self).advanced(),
            final(self).next == id + 1,
    {
        let id: Id = self.next;
        self.next = id + 1;
        id
    }
}

/// The ids rise by one, and one that was handed out is never handed out again.
pub proof fn law_ids_never_repeat(ids: Ids, i: nat, j: nat)
    requires
        i < j,
        ids.next + j <= u64::MAX,
    ensures
        ids.after(i).next == ids.next + i,
        ids.after(j).next == ids.next + j,
        ids.after(i).next != ids.after(j).next,
{
    lemma_ids_after(ids, i);
    lemma_ids_after(ids, j);
}

/// After so many ids the next one is so much greater.
proof fn lemma_ids_after(ids: Ids, count: nat)
    requires
        ids.next + count <= u64::MAX,
    ensures
        ids.after(count).next == ids.next + count,
    decreases count,
{
    if count > 0 {
        lemma_ids_after(ids, (count - 1) as nat);
    }
}

/// What the server is asked to deal with.
#[derive(Debug, Clone, Copy)]
pub enum Command {
    NewConnection(Id),
    Disconnection(Id),
    Message(Id, ClientMessage),
    Synchronize,
}

/// A message for one connection.
#[derive(Debug, Clone, Copy)]
pub struct Delivery {
    pub to: Id,
    pub message: ClientMessage,
}

/// The message goes to each of the given connections once, in some order, and to no others.
pub open spec fn reaches(deliveries: Seq<Delivery>, to: Set<Id>, message: ClientMessage) -> bool {
    &&& deliveries.no_duplicates()
    &&& forall|id: Id| #[trigger]
        to.contains(id) ==> deliveries.contains(Delivery { to: id, message })
    &&& forall|k: int|
        0 <= k < deliveries.len() ==> to.contains((#[trigger] deliveries[k]).to)
            && deliveries[k].message == message
}

/// The client has reported a time that can be compared.
pub open spec fn timed(connections: Map<Id, Connection>, id: Id) -> bool {
    &&& connections.contains_key(id)
    &&& connections[id].timestamp is Some
    &&& !connections[id].timestamp->0.value.nan()
}

/// The time that the client has reported.
pub open spec fn time_of(connections: Map<Id, Connection>, id: Id) -> Double {
    connections[id].timestamp->0.value
}

/// Some client has reported `t`, and none has reported less.
pub open spec fn least(connections: Map<Id, Connection>, t: Double) -> bool {
    &&& exists|id: Id| #[trigger] timed(connections, id) && t == time_of(connections, id)
    &&& forall|id: Id| #[trigger]
        timed(connections, id) ==> t.units() <= time_of(connections, id).units()
}

/// Some client has reported `t`, and none has reported more.
pub open spec fn greatest(connections: Map<Id, Connection>, t: Double) -> bool {
    &&& exists|id: Id| #[trigger] timed(connections, id) && t == time_of(connections, id)
    &&& forall|id: Id| #[trigger]
        timed(connections, id) ==> time_of(connections, id).units() <= t.units()
}

/// Some two clients are more than five seconds apart.
pub open spec fn apart(connections: Map<Id, Connection>) -> bool {
    exists|lo: Id, hi: Id|
        #![trigger timed(connections, lo), timed(connections, hi)]
        timed(connections, lo) && timed(connections, hi) && Double::over_five_apart(
            time_of(connections, hi),
            time_of(connections, lo),
        )
}

/// The command names a connection that it can be about.
pub open spec fn sensible(connections: Map<Id, Connection>, command: Command) -> bool {
    match command {
        Command::NewConnection(id) => !connections.contains_key(id),
        Command::Disconnection(id) => connections.contains_key(id),
        Command::Message(id, ClientMessage::Timestamp { .. }) => connections.contains_key(id),
        _ => true,
    }
}

/// How the server deals with a command at `now`: the connections before, those after, and
/// what is sent.
pub open spec fn step(
    pre: Map<Id, Connection>,
    command: Command,
    now: u128,
    post: Map<Id, Connection>,
    deliveries: Seq<Delivery>,
) -> bool {
    match command {
        Command::NewConnection(id) => {
            &&& post == pre.insert(id, Connection { timestamp: None })
            &&& deliveries.len() == 0
        },
        Command::Disconnection(id) => {
            &&& post == pre.remove(id)
            &&& deliveries.len() == 0
        },
        Command::Message(id, ClientMessage::Timestamp { time }) => {
            &&& post == pre.insert(
                id,
                Connection { timestamp: Some(Timestamp { value: time, when: now }) },
            )
            &&& deliveries.len() == 0
        },
        Command::Message(id, message) => {
            &&& post == pre
            &&& reaches(deliveries, pre.dom().remove(id), message)
        },
        Command::Synchronize => {
            &&& post == pre
            &&& if apart(pre) {
                exists|t: Double|
                    #[trigger] least(pre, t) && reaches(
                        deliveries,
                        pre.dom(),
                        ClientMessage::Seek { time: t },
                    )
            } else {
                deliveries.len() == 0
            }
        },
    }
}

/// The connections of the server.
#[derive(Debug)]
pub struct Connections {
    pub connections: HashMap<Id, Connection>,
}

impl View for Connections {
    type V = Map<Id, Connection>;

    open spec fn view(&self) -> Map<Id, Connection> {
        self.connections@
    }
}

impl Connections {
    /// No connections yet.
    pub fn new() -> (connections: Connections)
        ensures
            connections@ == Map::<Id, Connection>::empty(),
    {
        Connections { connections: HashMap::new() }
    }

    /// The ids of all connections, in the order in which the map is walked.
    fn ids(&self) -> (ids: Vec<Id>)
        ensures
            ids@.no_duplicates(),
            forall|id: Id| self@.contains_key(id) <==> #[trigger] ids@.contains(id),
    {
        let ghost all = vstd::std_specs::iter::IteratorSpec::remaining(
            &vstd::std_specs::hash::spec_keys_iter(&self.connections),
        );
        let mut ids: Vec<Id> = Vec::new();
        for id in it: self.connections.keys()
            invariant
                it.seq() == all,
                ids@.len() == it.index(),
                forall|k: int| 0 <= k < ids@.len() ==> #[trigger] ids@[k] == *all[k],
        {
            ids.push(*id);
        }
        proof {
            assert forall|id: Id| self@.contains_key(id) implies #[trigger] ids@.contains(id) by {
                assert(all.contains(&id));
                let k = choose|k: int| 0 <= k < all.len() && all[k] == &id;
                assert(ids@[k] == id);
            }
            assert forall|id: Id| #[trigger] ids@.contains(id) implies self@.contains_key(id) by {
                let k = choose|k: int| 0 <= k < ids@.len() && ids@[k] == id;
                assert(all.unref()[k] == id);
                assert(all.unref().to_set().contains(id));
            }
        }
        ids
    }

    /// The least and the greatest time that a client has reported, if any has.
    fn extremes(&self) -> (r: Option<(Double, Double)>)
        ensures
            match r {
                Some((min, max)) => least(self@, min) && greatest(self@, max),
                None => forall|id: Id| !#[trigger] timed(self@, id),
            },
    {
        let ids = self.ids();
        let mut found: Option<(Double, Double)> = None;
        let ghost mut min_id: Id = 0;
        let ghost mut max_id: Id = 0;
        let mut i: usize = 0;
        while i < ids.len()
            invariant
                i <= ids@.len(),
                forall|id: Id| self@.contains_key(id) <==> #[trigger] ids@.contains(id),
                forall|k: int|
                    0 <= k < i && timed(self@, #[trigger] ids@[k]) ==> (found matches Some(
                        (min, max),
                    ) && min.units() <= time_of(self@, ids@[k]).units() <= max.units()),
                found matches Some((min, max)) ==> timed(self@, min_id) && min == time_of(
                    self@,
                    min_id,
                ) && timed(self@, max_id) && max == time_of(self@, max_id),
            decreases ids@.len() - i,
        {
            let id: Id = ids[i];
            assert(ids@.contains(id));
            let connection = self.connections.get(&id).unwrap();
            if let Some(timestamp) = connection.timestamp {
                let value: Double = timestamp.value;
                if !value.is_nan() {
                    assert(timed(self@, id));
                    found = match found {
                        None => {
                            proof {
                                min_id = id;
                                max_id = id;
                            }
                            Some((value, value))
                        },
                        Some((min, max)) => {
                            let less: bool = value.lt(min);
                            let more: bool = !value.lt(max);
                            proof {
                                if less {
                                    min_id = id;
                                }
                                if more {
                                    max_id = id;
                                }
                            }
                            Some(
                                (
                                    if less {
                                        value
                                    } else {
                                        min
                                    },
                                    if more {
                                        value
                                    } else {
                                        max
                                    },
                                ),
                            )
                        },
                    };
                }
            }
            i = i + 1;
        }
        proof {
            assert forall|id: Id| #[trigger] timed(self@, id) implies (found matches Some(
                (min, max),
            ) && min.units() <= time_of(self@, id).units() <= max.units()) by {
                assert(ids@.contains(id));
            }
        }
        found
    }

    /// The same message for every connection, or for every one but the sender.
    fn broadcast(&self, except: Option<Id>, message: ClientMessage) -> (deliveries: Vec<Delivery>)
        ensures
            reaches(
                deliveries@,
                match except {
                    Some(sender) => self@.dom().remove(sender),
                    None => self@.dom(),
                },
                message,
            ),
    {
        let ids = self.ids();
        let ghost to = match except {
            Some(sender) => self@.dom().remove(sender),
            None => self@.dom(),
        };
        let mut deliveries: Vec<Delivery> = Vec::new();
        let mut i: usize = 0;
        while i < ids.len()
            invariant
                i <= ids@.len(),
                ids@.no_duplicates(),
                to == (match except {
                    Some(sender) => self@.dom().remove(sender),
                    None => self@.dom(),
                }),
                forall|id: Id| self@.contains_key(id) <==> #[trigger] ids@.contains(id),
                forall|k: int|
                    0 <= k < i && to.contains(#[trigger] ids@[k]) ==> deliveries@.contains(
                        Delivery { to: ids@[k], message },
                    ),
                forall|k: int|
                    0 <= k < deliveries@.len() ==> to.contains((#[trigger] deliveries@[k]).to)
                        && deliveries@[k].message == message && ids@.take(i as int).contains(
                        deliveries@[k].to,
                    ),
                deliveries@.no_duplicates(),
            decreases ids@.len() - i,
        {
            let id: Id = ids[i];
            assert(ids@.contains(id));
            let skipped: bool = match except {
                Some(sender) => id == sender,
                None => false,
            };
            let ghost before = deliveries@;
            let ghost seen = ids@.take(i as int);
            proof {
                assert(ids@.take(i + 1) =~= seen.push(id));
                assert forall|other: Id| seen.contains(other) implies ids@.take(i + 1).contains(
                    other,
                ) && other != id by {
                    let k = choose|k: int| 0 <= k < seen.len() && seen[k] == other;
                    assert(ids@.take(i + 1)[k] == other);
                }
                assert(ids@.take(i + 1)[i as int] == id);
            }
            if !skipped {
                deliveries.push(Delivery { to: id, message });
                proof {
                    assert(deliveries@[before.len() as int] == (Delivery { to: id, message }));
                    assert forall|d: Delivery| before.contains(d) implies deliveries@.contains(
                        d,
                    ) by {
                        let k = choose|k: int| 0 <= k < before.len() && before[k] == d;
                        assert(deliveries@[k] == d);
                    }
                }
            }
            i = i + 1;
        }
        proof {
            assert forall|id: Id| #[trigger] to.contains(id) implies deliveries@.contains(
                Delivery { to: id, message },
            ) by {
                assert(ids@.contains(id));
            }
        }
        deliveries
    }

    /// Deals with a command at `now`.  The messages are to be sent in this order, up to the
    /// first that cannot be.
    pub fn process_command(&mut self, command: Command, now: u128) -> (deliveries: Vec<Delivery>)
        requires
            sensible(old(self)@, command),
        ensures
            step(old(self)@, command, now, final(self)@, deliveries@),
    {
        match command {
            Command::NewConnection(id) => {
                self.connections.insert(id, Connection { timestamp: None });
                Vec::new()
            },
            Command::Disconnection(id) => {
                self.connections.remove(&id);
                Vec::new()
            },
            Command::Message(id, message) => match message {
                ClientMessage::Timestamp { time } => {
                    let timestamp = Some(Timestamp::now(time, now));
                    self.connections.insert(id, Connection { timestamp });
                    Vec::new()
                },
                _ => self.broadcast(Some(id), message),
            },
            Command::Synchronize => self.synchronize(),
        }
    }

    fn synchronize(&self) -> (deliveries: Vec<Delivery>)
        ensures
            step(self@, Command::Synchronize, 0, self@, deliveries@),
    {
        if let Some((min, max)) = self.extremes() {
            proof {
                if apart(self@) {
                    let (lo, hi) = choose|lo: Id, hi: Id|
                        #![trigger timed(self@, lo), timed(self@, hi)]
                        timed(self@, lo) && timed(self@, hi) && Double::over_five_apart(
                            time_of(self@, hi),
                            time_of(self@, lo),
                        );
                    crate::double::lemma_over_five_apart_widens(
                        time_of(self@, hi),
                        time_of(self@, lo),
                        max,
                        min,
                    );
                }
            }
            if max.exceeds_by_five(min) {
                return self.broadcast(None, ClientMessage::Seek { time: min });
            }
        }
        Vec::new()
    }
}

/// A change reaches every client but the one that it comes from, each once.
pub proof fn law_changes_reach_all_others(
    pre: Map<Id, Connection>,
    sender: Id,
    message: ClientMessage,
    now: u128,
    post: Map<Id, Connection>,
    deliveries: Seq<Delivery>,
)
    requires
        step(pre, Command::Message(sender, message), now, post, deliveries),
        !(message is Timestamp),
    ensures
        deliveries.no_duplicates(),
        forall|id: Id| #[trigger]
            pre.contains_key(id) && id != sender <==> deliveries.contains(
                Delivery { to: id, message },
            ),
        forall|k: int| 0 <= k < deliveries.len() ==> (#[trigger] deliveries[k]).message == message,
{
    assert forall|id: Id| #[trigger]
        pre.contains_key(id) && id != sender <==> deliveries.contains(
            Delivery { to: id, message },
        ) by {
        assert(pre.dom().remove(sender).contains(id) <==> pre.contains_key(id) && id != sender);
        if deliveries.contains(Delivery { to: id, message }) {
            let k = choose|k: int|
                0 <= k < deliveries.len() && deliveries[k] == (Delivery { to: id, message });
            assert(deliveries[k].to == id);
        }
    }
}

/// Leaving undoes joining.
pub proof fn law_leaving_undoes_joining(
    pre: Map<Id, Connection>,
    id: Id,
    now: u128,
    mid: Map<Id, Connection>,
    joining: Seq<Delivery>,
    post: Map<Id, Connection>,
    leaving: Seq<Delivery>,
)
    requires
        sensible(pre, Command::NewConnection(id)),
        step(pre, Command::NewConnection(id), now, mid, joining),
        step(mid, Command::Disconnection(id), now, post, leaving),
    ensures
        sensible(mid, Command::Disconnection(id)),
        post == pre,
{
    assert(mid.remove(id) =~= pre);
}

/// Clients that report the same time are left alone.
pub proof fn law_level_clients_are_left_alone(
    pre: Map<Id, Connection>,
    now: u128,
    post: Map<Id, Connection>,
    deliveries: Seq<Delivery>,
)
    requires
        step(pre, Command::Synchronize, now, post, deliveries),
        forall|a: Id, b: Id|
            #![trigger timed(pre, a), timed(pre, b)]
            timed(pre, a) && timed(pre, b) ==> time_of(pre, a).units() == time_of(
                pre,
                b,
            ).units(),
    ensures
        deliveries.len() == 0,
{
    if apart(pre) {
        let (lo, hi) = choose|lo: Id, hi: Id|
            #![trigger timed(pre, lo), timed(pre, hi)]
            timed(pre, lo) && timed(pre, hi) && Double::over_five_apart(
                time_of(pre, hi),
                time_of(pre, lo),
            );
        crate::double::lemma_equal_not_apart(time_of(pre, hi), time_of(pre, lo));
    }
}

/// As soon as two clients are more than five seconds apart, and only then, a synchronization
/// sends everybody to one and the same time, which is the slowest client's.
pub proof fn law_synchronization_is_to_the_slowest(
    pre: Map<Id, Connection>,
    now: u128,
    post: Map<Id, Connection>,
    deliveries: Seq<Delivery>,
)
    requires
        step(pre, Command::Synchronize, now, post, deliveries),
    ensures
        deliveries.len() > 0 <==> apart(pre),
        apart(pre) ==> exists|t: Double|
            #[trigger] least(pre, t) && forall|id: Id| #[trigger]
                pre.contains_key(id) ==> deliveries.contains(
                    Delivery { to: id, message: ClientMessage::Seek { time: t } },
                ),
{
    if apart(pre) {
        let t = choose|t: Double|
            #[trigger] least(pre, t) && reaches(
                deliveries,
                pre.dom(),
                ClientMessage::Seek { time: t },
            );
        assert forall|id: Id| #[trigger] pre.contains_key(id) implies deliveries.contains(
            Delivery { to: id, message: ClientMessage::Seek { time: t } },
        ) by {
            assert(pre.dom().contains(id));
        }
        let id = choose|id: Id| #[trigger] timed(pre, id) && t == time_of(pre, id);
        assert(pre.contains_key(id));
    }
}

/// As long as new connections get their ids from the numbering, their ids are free, and every
/// connection keeps an id that was handed out.
pub proof fn law_numbered_connections_are_free(
    ids: Ids,
    pre: Map<Id, Connection>,
    command: Command,
    now: u128,
    post: Map<Id, Connection>,
    deliveries: Seq<Delivery>,
)
    requires
        ids.next < u64::MAX,
        ids.ahead_of(pre),
        command matches Command::NewConnection(id) ==> id == ids.next,
        !(command is NewConnection) ==> sensible(pre, command),
        step(pre, command, now, post, deliveries),
    ensures
        sensible(pre, command),
        (if command is NewConnection {
            ids.advanced()
        } else {
            ids
        }).ahead_of(post),
{
}

/// The client is connected and has last reported this time.
pub open spec fn is_at(connections: Map<Id, Connection>, id: Id, t: Double) -> bool {
    &&& connections.contains_key(id)
    &&& connections[id].timestamp matches Some(timestamp)
    &&& timestamp.value == t
    &&& !t.nan()
}

/// No client has reported a time before this one, and some client has reported it.
pub open spec fn slowest_at(connections: Map<Id, Connection>, t: Double) -> bool {
    &&& exists|id: Id| #[trigger] is_at(connections, id, t)
    &&& forall|id: Id, other: Double| #[trigger]
        is_at(connections, id, other) ==> t.units() <= other.units()
}

/// Who comes is connected without a time, who goes is not connected any more, and nobody else
/// is touched or sent anything.
pub proof fn law_clients_come_and_go(
    pre: Map<Id, Connection>,
    id: Id,
    now: u128,
    came: Map<Id, Connection>,
    on_coming: Seq<Delivery>,
    gone: Map<Id, Connection>,
    on_going: Seq<Delivery>,
)
    requires
        step(pre, Command::NewConnection(id), now, came, on_coming),
        step(pre, Command::Disconnection(id), now, gone, on_going),
    ensures
        on_coming.len() == 0 && on_going.len() == 0,
        came.contains_key(id) && came[id].timestamp is None,
        !gone.contains_key(id),
        forall|other: Id|
            #![trigger pre.contains_key(other)]
            other != id ==> (came.contains_key(other) <==> pre.contains_key(other)) && (
            gone.contains_key(other) <==> pre.contains_key(other)),
        forall|other: Id|
            other != id && #[trigger] pre.contains_key(other) ==> came[other] == pre[other]
                && gone[other] == pre[other],
{
}

/// A report replaces whatever the client has reported before, and nothing else changes or is
/// sent.
pub proof fn law_report_replaces_the_last_one(
    pre: Map<Id, Connection>,
    id: Id,
    time: Double,
    now: u128,
    post: Map<Id, Connection>,
    deliveries: Seq<Delivery>,
)
    requires
        pre.contains_key(id),
        step(
            pre,
            Command::Message(id, ClientMessage::Timestamp { time }),
            now,
            post,
            deliveries,
        ),
    ensures
        deliveries.len() == 0,
        post.dom() == pre.dom(),
        post[id].timestamp == Some(Timestamp { value: time, when: now }),
        forall|other: Id|
            other != id && #[trigger] pre.contains_key(other) ==> post[other] == pre[other],
{
    assert(post.dom() =~= pre.dom());
}

/// A change leaves the connections as they are.
pub proof fn law_change_leaves_connections_alone(
    pre: Map<Id, Connection>,
    command: Command,
    now: u128,
    post: Map<Id, Connection>,
    deliveries: Seq<Delivery>,
)
    requires
        step(pre, command, now, post, deliveries),
        command is Synchronize || (command matches Command::Message(_, message)
            && !(message is Timestamp)),
    ensures
        post == pre,
{
}

/// Where one client is ahead of another by more than five seconds, everybody is sent to the
/// time of the slowest client, each once, and to nothing else.
pub proof fn law_distant_clients_are_sent_to_the_slowest(
    pre: Map<Id, Connection>,
    ahead: Id,
    a: Double,
    behind: Id,
    b: Double,
    now: u128,
    post: Map<Id, Connection>,
    deliveries: Seq<Delivery>,
)
    requires
        step(pre, Command::Synchronize, now, post, deliveries),
        is_at(pre, ahead, a) && a.finite(),
        is_at(pre, behind, b) && b.finite(),
        a.units() - b.units() > 5 * vstd::arithmetic::power2::pow2(1074)
            + vstd::arithmetic::power2::pow2(1023),
    ensures
        deliveries.no_duplicates(),
        exists|t: Double|
            {
                let message = ClientMessage::Seek { time: t };
                &&& #[trigger] slowest_at(pre, t)
                &&& forall|id: Id|
                    pre.contains_key(id) <==> #[trigger] deliveries.contains(
                        Delivery { to: id, message },
                    )
                &&& forall|k: int|
                    0 <= k < deliveries.len() ==> (#[trigger] deliveries[k]).message == message
            },
{
    assert(timed(pre, ahead) && timed(pre, behind));
    assert(apart(pre));
    let t = choose|t: Double|
        #[trigger] least(pre, t) && reaches(
            deliveries,
            pre.dom(),
            ClientMessage::Seek { time: t },
        );
    let message = ClientMessage::Seek { time: t };
    let c = choose|c: Id| #[trigger] timed(pre, c) && t == time_of(pre, c);
    assert(is_at(pre, c, t));
    assert forall|id: Id, other: Double| #[trigger] is_at(pre, id, other) implies t.units()
        <= other.units() by {
        assert(timed(pre, id));
    }
    assert(slowest_at(pre, t));
    assert forall|id: Id|
        pre.contains_key(id) <==> #[trigger] deliveries.contains(Delivery { to: id, message }) by {
        assert(pre.dom().contains(id) <==> pre.contains_key(id));
        if deliveries.contains(Delivery { to: id, message }) {
            let k = choose|k: int|
                0 <= k < deliveries.len() && deliveries[k] == (Delivery { to: id, message });
            assert(pre.dom().contains(deliveries[k].to));
        }
    }
}

/// Where no client is ahead of another by more than five seconds, nobody is sent anything.
pub proof fn law_close_clients_are_left_alone(
    pre: Map<Id, Connection>,
    now: u128,
    post: Map<Id, Connection>,
    deliveries: Seq<Delivery>,
)
    requires
        step(pre, Command::Synchronize, now, post, deliveries),
        forall|x: Id, a: Double, y: Id, b: Double|
            #![trigger is_at(pre, x, a), is_at(pre, y, b)]
            is_at(pre, x, a) && is_at(pre, y, b) ==> a.finite() && b.finite() && a.units()
                - b.units() <= 5 * vstd::arithmetic::power2::pow2(1074)
                + vstd::arithmetic::power2::pow2(1023),
    ensures
        deliveries.len() == 0,
{
    if apart(pre) {
        let (lo, hi) = choose|lo: Id, hi: Id|
            #![trigger timed(pre, lo), timed(pre, hi)]
            timed(pre, lo) && timed(pre, hi) && Double::over_five_apart(
                time_of(pre, hi),
                time_of(pre, lo),
            );
        assert(is_at(pre, lo, time_of(pre, lo)));
        assert(is_at(pre, hi, time_of(pre, hi)));
    }
}

/// A command that was dealt with: the connections before, when it was, what was sent, and the
/// connections after.
pub struct Served {
    pub pre: Map<Id, Connection>,
    pub command: Command,
    pub now: u128,
    pub deliveries: Seq<Delivery>,
    pub post: Map<Id, Connection>,
}

/// The commands were dealt with one after the other.
pub open spec fn session(s: Seq<Served>) -> bool {
    &&& forall|k: int|
        #![trigger s[k]]
        0 <= k < s.len() ==> sensible(s[k].pre, s[k].command) && step(
            s[k].pre,
            s[k].command,
            s[k].now,
            s[k].post,
            s[k].deliveries,
        )
    &&& forall|k: int, l: int|
        #![trigger s[k], s[l]]
        0 <= k && l == k + 1 && l < s.len() ==> s[k].post == s[l].pre
}

/// The command does not change what is known of the client's time.
pub open spec fn leaves_time_alone(command: Command, id: Id) -> bool {
    match command {
        Command::Disconnection(left) => left != id,
        Command::Message(sender, ClientMessage::Timestamp { .. }) => sender != id,
        _ => true,
    }
}

/// What is held of a client is the time that it has reported last, through whatever comes
/// after, until it reports again or leaves.
pub proof fn law_last_report_is_held(s: Seq<Served>, i: int, n: int, id: Id, time: Double)
    requires
        session(s),
        0 <= i < n <= s.len(),
        s[i].command == Command::Message(id, ClientMessage::Timestamp { time }),
        forall|k: int| i < k < n ==> leaves_time_alone((#[trigger] s[k]).command, id),
    ensures
        s[n - 1].post.contains_key(id),
        s[n - 1].post[id].timestamp == Some(Timestamp { value: time, when: s[i].now }),
    decreases n - i,
{
    let last = s[n - 1];
    assert(step(last.pre, last.command, last.now, last.post, last.deliveries));
    if n - 1 > i {
        law_last_report_is_held(s, i, n - 1, id, time);
        assert(s[n - 2].post == s[n - 1].pre);
        assert(leaves_time_alone(s[n - 1].command, id));
        assert(sensible(last.pre, last.command));
    }
}

/// A command takes the server by the step that belongs to it, and the ids rise by one.
pub proof fn law_command_takes_its_step(
    command: Command,
    now: u128,
    deliveries: Vec<Delivery>,
    id: Id,
)
    ensures
        forall|connections: &mut Connections| #[trigger]
            call_ensures(Connections::process_command, (connections, command, now), deliveries)
                ==> step(connections@, command, now, final(connections)@, deliveries@),
        forall|ids: &mut Ids| #[trigger]
            call_ensures(Ids::next, (ids,), id) ==> id == ids.next && final(ids).next == id + 1,
{
}

/// Every command is dealt with, but for a second connection of one id, and for the leaving or
/// the report of a client that is not connected.  The clients are brought back together every
/// three seconds.
pub proof fn law_every_command_is_dealt_with(command: Command, now: u128)
    ensures
        forall|connections: &mut Connections|
            (match command {
                Command::NewConnection(id) => !connections@.contains_key(id),
                Command::Disconnection(id) => connections@.contains_key(id),
                Command::Message(id, message) => message is Timestamp
                    ==> connections@.contains_key(id),
                Command::Synchronize => true,
            }) ==> #[trigger] call_requires(
                Connections::process_command,
                (connections, command, now),
            ),
        SYNCHRONIZE_SECS == 3,
{
}

} // verus!
