//! The broker: consumer connections, their subscriptions, and fan-out of device messages.
use vstd::prelude::*;
use crate::message::{DeviceLog, log_frame};
use crate::registry::{
    ConsumerId, Registry, RegistryModel, no_duplicate_entries, subscribed, subscribers_of, unsubscribed,
};

verus! {

/// What a connection's reader saw next.
pub enum Event {
    /// A text frame that decoded as a subscribe directive for this producer.
    Subscribe(String),
    /// A text frame that is not a valid subscribe directive.
    Malformed,
    /// A text frame whose text could not be decoded.
    Undecodable,
    /// The peer closed the connection.
    Close,
    /// Reading from the transport failed.
    ReadError,
    /// A binary, ping, pong or other frame.
    Ignored,
}

/// What the connection's reader does after an event.
#[derive(PartialEq, Eq, Structural, Clone, Copy, Debug)]
pub enum Action {
    Continue,
    Stop,
}

/// One consumer connection: the identity of its outbox and whether it has closed.
pub struct Connection {
    consumer: ConsumerId,
    closed: bool,
}

impl Connection {
    pub closed spec fn consumer_spec(&self) -> ConsumerId {
        self.consumer
    }

    pub closed spec fn closed_spec(&self) -> bool {
        self.closed
    }

    /// The identity of this connection's outbox.
    pub fn consumer(&self) -> (r: ConsumerId)
        ensures
            r == self.consumer_spec(),
    {
        self.consumer
    }

    pub fn is_closed(&self) -> (r: bool)
        ensures
            r == self.closed_spec(),
    {
        self.closed
    }
}

/// The registry after a connection in state (`c`, `closed`) handles `e`.
pub open spec fn registry_after(m: RegistryModel, c: ConsumerId, closed: bool, e: Event) -> RegistryModel {
    if closed {
        m
    } else {
        match e {
            Event::Subscribe(p) => subscribed(m, p@, c),
            Event::Close => unsubscribed(m, c),
            Event::ReadError => unsubscribed(m, c),
            _ => m,
        }
    }
}

/// Whether the connection is closed after it handles `e`.
pub open spec fn closed_after(closed: bool, e: Event) -> bool {
    closed || e is Close || e is ReadError
}

/// No producer lists `c`.
pub open spec fn absent(m: RegistryModel, c: ConsumerId) -> bool {
    forall|k: Seq<char>| #[trigger] m.contains_key(k) ==> !m[k].contains(c)
}

/// The frame and the consumers that one message goes to.
pub struct FanOut {
    pub frame: String,
    pub targets: Vec<ConsumerId>,
}

/// The shared state: the registry and the next outbox identity to hand out.
pub struct Broker {
    registry: Registry,
    next_id: u64,
}

impl View for Broker {
    type V = RegistryModel;

    closed spec fn view(&self) -> RegistryModel {
        self.registry@
    }
}

impl Broker {
    /// Identities below this one have been handed out.
    pub closed spec fn next_id_spec(&self) -> u64 {
        self.next_id
    }

    /// The registry is well formed and lists only identities already handed out.
    pub closed spec fn wf(&self) -> bool {
        &&& self.registry.wf()
        &&& forall|k: Seq<char>, i: int|
            self.registry@.contains_key(k) && 0 <= i < self.registry@[k].len()
                ==> #[trigger] self.registry@[k][i] < self.next_id
    }

    /// A well-formed broker lists no consumer twice under one producer.
    pub proof fn lemma_no_duplicate_entries(&self)
        requires
            self.wf(),
        ensures
            no_duplicate_entries(self@),
    {
        self.registry.lemma_no_duplicate_entries();
    }

    /// This connection was opened by this broker.
    pub open spec fn issued(&self, conn: &Connection) -> bool {
        conn.consumer_spec() < self.next_id_spec()
    }

    pub fn new() -> (r: Broker)
        ensures
            r.wf(),
            r@ == RegistryModel::empty(),
            r.next_id_spec() == 0,
    {
        Broker { registry: Registry::new(), next_id: 0 }
    }

    /// Opens a connection with a fresh outbox identity; `None` once identities run out.
    pub fn open_connection(&mut self) -> (r: Option<Connection>)
        requires
            old(self).wf(),
        ensures
            final(self).wf(),
            final(self)@ == old(self)@,
            match r {
                Some(conn) => {
                    &&& old(self).next_id_spec() < u64::MAX
                    &&& conn.consumer_spec() == old(self).next_id_spec()
                    &&& !conn.closed_spec()
                    &&& final(self).next_id_spec() == old(self).next_id_spec() + 1
                    &&& absent(final(self)@, conn.consumer_spec())
                    &&& final(self).issued(&conn)
                },
                None => old(self).next_id_spec() == u64::MAX && final(self).next_id_spec()
                    == old(self).next_id_spec(),
            },
    {
        if self.next_id == u64::MAX {
            return None;
        }
        let id = self.next_id;
        self.next_id = self.next_id + 1;
        proof {
            assert forall|k: Seq<char>| #[trigger] self.registry@.contains_key(k) implies !self.registry@[k].contains(id) by {
                if self.registry@[k].contains(id) {
                    let i = choose|i: int| 0 <= i < self.registry@[k].len() && self.registry@[k][i] == id;
                    assert(self.registry@[k][i] < id);
                }
            }
        }
        Some(Connection { consumer: id, closed: false })
    }

    /// Handles one event of a connection's reader: subscribes on a directive, removes the
    /// connection from every producer when it closes or fails, ignores everything else.
    pub fn handle_event(&mut self, conn: &mut Connection, event: Event) -> (r: Action)
        requires
            old(self).wf(),
            old(self).issued(old(conn)),
        ensures
            final(self).wf(),
            final(self).next_id_spec() == old(self).next_id_spec(),
            final(self)@ == registry_after(
                old(self)@,
                old(conn).consumer_spec(),
                old(conn).closed_spec(),
                event,
            ),
            final(conn).consumer_spec() == old(conn).consumer_spec(),
            final(conn).closed_spec() == closed_after(old(conn).closed_spec(), event),
            r == (if final(conn).closed_spec() { Action::Stop } else { Action::Continue }),
    {
        if conn.closed {
            return Action::Stop;
        }
        let ghost m = self.registry@;
        match event {
            Event::Subscribe(p) => {
                self.registry.subscribe(&p, conn.consumer);
                proof {
                    assert forall|k: Seq<char>, i: int|
                        self.registry@.contains_key(k) && 0 <= i < self.registry@[k].len()
                        implies #[trigger] self.registry@[k][i] < self.next_id by {
                        if k != p@ && m.contains_key(k) {
                            assert(m[k][i] < self.next_id);
                        } else if i < subscribers_of(m, p@).len() {
                            assert(m[p@][i] < self.next_id);
                        }
                    }
                }
                Action::Continue
            },
            Event::Close | Event::ReadError => {
                self.registry.unsubscribe(conn.consumer);
                proof {
                    broadcast use vstd::seq_lib::group_filter_ensures;
                    assert forall|k: Seq<char>, i: int|
                        self.registry@.contains_key(k) && 0 <= i < self.registry@[k].len()
                        implies #[trigger] self.registry@[k][i] < self.next_id by {
                        let x = self.registry@[k][i];
                        assert(m[k].filter(crate::registry::other_than(conn.consumer)).contains(x));
                        m[k].lemma_filter_contains_rev(crate::registry::other_than(conn.consumer), x);
                        let j = choose|j: int| 0 <= j < m[k].len() && m[k][j] == x;
                        assert(m[k][j] < self.next_id);
                    }
                }
                conn.closed = true;
                Action::Stop
            },
            _ => Action::Continue,
        }
    }

    /// The consumers that a message from `producer` is delivered to.
    pub fn targets(&self, producer: &String) -> (r: Vec<ConsumerId>)
        requires
            self.wf(),
        ensures
            r@ == subscribers_of(self@, producer@),
    {
        self.registry.subscribers(producer)
    }

    /// Fans a message out: its frame, and every consumer subscribed to its `device_id`.
    /// `None` where the frame cannot be encoded.
    pub fn fan_out(&self, log: &DeviceLog) -> (r: Option<FanOut>)
        requires
            self.wf(),
        ensures
            match r {
                Some(f) => {
                    &&& log_frame(log.device_id@, log.message@) == Some(f.frame@)
                    &&& f.targets@ == subscribers_of(self@, log.device_id@)
                },
                None => log_frame(log.device_id@, log.message@) is None,
            },
    {
        match log.to_frame() {
            Some(frame) => Some(FanOut { frame, targets: self.targets(&log.device_id) }),
            None => None,
        }
    }
}

} // verus!
