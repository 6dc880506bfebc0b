//! The connection session: the state of one client connection, the effect of each of its
//! commands, and what is left of it in the registry when it goes.
//!
//! A connection reads frames and decides; it never touches a socket. Each step hands back
//! the frames to queue, and the caller queues them in that order.

use crate::jwt_utils::{Claims, ClaimsView};
use crate::pairs::{as_set, distinct_pairs, pair_view, Pair, PairSet};
use crate::protocol::{
    command_of, decoded_envelope, parse_command, Command, CommandView, Envelope,
};
use crate::registry::{
    lemma_subscribed_routed, lemma_unsubscribed_routed, lemma_without_handle, mentions, routed,
    subscribed, unsubscribed, well_formed, without_handle, HandleId, Model, Registry,
};
use crate::router::{deliveries_view, publication, publish, Delivery, DeliveryView};
use vstd::prelude::*;

verus! {

/// Where a connection stands in its life.
#[derive(Clone, Copy, Debug, PartialEq, Eq, Structural)]
pub enum ConnectionState {
    /// The upgrade has not completed yet.
    Connecting,
    /// Commands are read and carried out.
    Active,
    /// The connection is going down; its subscriptions are still registered.
    Closing,
    /// Nothing of the connection is left in the registry.
    Closed,
}

/// What arrives from the inbound side of a connection.
#[derive(Clone, Debug, PartialEq, Eq)]
pub enum Inbound {
    /// A text frame.
    Text(String),
    /// A frame that is no text.
    NonText,
    /// The stream has ended.
    Ended,
    /// Reading the stream has failed.
    Failed,
}

/// The mathematical form of a [`Connection`].
pub ghost struct ConnectionView {
    pub handle: HandleId,
    pub client_name: Seq<char>,
    pub session_id: Seq<char>,
    pub identity_pinned: bool,
    pub session_pinned: bool,
    pub owned: Set<Pair>,
    pub state: ConnectionState,
}

/// A connection before its upgrade has completed: anonymous, in the default session,
/// subscribed to nothing.
pub open spec fn fresh(handle: HandleId) -> ConnectionView {
    ConnectionView {
        handle,
        client_name: "<unknown>"@,
        session_id: "default"@,
        identity_pinned: false,
        session_pinned: false,
        owned: Set::empty(),
        state: ConnectionState::Connecting,
    }
}

/// The connection once its upgrade has completed. Verified claims pin the name to their
/// subject, and pin the session where they name one. A connection that is not connecting
/// stays as it is.
pub open spec fn activated(c: ConnectionView, claims: Option<ClaimsView>) -> ConnectionView {
    if c.state != ConnectionState::Connecting {
        c
    } else {
        match claims {
            None => ConnectionView { state: ConnectionState::Active, ..c },
            Some(verified) => ConnectionView {
                client_name: verified.sub,
                identity_pinned: true,
                session_id: match verified.sid {
                    Some(sid) => sid,
                    None => c.session_id,
                },
                session_pinned: c.session_pinned || verified.sid is Some,
                state: ConnectionState::Active,
                ..c
            },
        }
    }
}

/// The session that a subscription command means: the one it names, else the current
/// session of the connection.
pub open spec fn effective_session(c: ConnectionView, named: Option<Seq<char>>) -> Seq<char> {
    match named {
        Some(session) => session,
        None => c.session_id,
    }
}

/// The connection after an active connection has carried out `command`.
pub open spec fn connection_after(c: ConnectionView, command: CommandView) -> ConnectionView {
    match command {
        CommandView::RegisterName { name } => if c.identity_pinned {
            c
        } else {
            ConnectionView { client_name: name, ..c }
        },
        CommandView::RegisterSession { session_id } => if c.session_pinned {
            c
        } else {
            ConnectionView { session_id, ..c }
        },
        CommandView::Subscribe { topic, session } => ConnectionView {
            owned: c.owned.insert((topic, effective_session(c, session))),
            ..c
        },
        CommandView::Unsubscribe { topic, session } => ConnectionView {
            owned: c.owned.remove((topic, effective_session(c, session))),
            ..c
        },
        _ => c,
    }
}

/// The registry after an active connection has carried out `command`.
pub open spec fn registry_after(c: ConnectionView, m: Model, command: CommandView) -> Model {
    match command {
        CommandView::Subscribe { topic, session } => subscribed(
            m,
            topic,
            effective_session(c, session),
            c.handle,
        ),
        CommandView::Unsubscribe { topic, session } => unsubscribed(
            m,
            topic,
            effective_session(c, session),
            c.handle,
        ),
        _ => m,
    }
}

/// The frames that an active connection queues when it carries out `command`: a
/// publication goes to the subscribers of the session that its body names, or of the
/// current session of the connection where it names none; a ping is answered on the
/// connection's own queue; a body that is not JSON queues nothing.
pub open spec fn queued_by(c: ConnectionView, m: Model, command: CommandView) -> Seq<
    DeliveryView,
> {
    match command {
        CommandView::PublishJson { body } => match decoded_envelope(body, c.session_id) {
            Some(envelope) => publication(m, envelope),
            None => Seq::empty(),
        },
        CommandView::Ping => seq![DeliveryView { handle: c.handle, frame: "pong"@ }],
        _ => Seq::empty(),
    }
}

/// Every bucket that holds the handle of the connection is among the subscriptions that
/// the connection has on record.
pub open spec fn tracks(c: ConnectionView, m: Model) -> bool {
    forall|topic: Seq<char>, session: Seq<char>| #[trigger]
        routed(m, topic, session).contains(c.handle) ==> c.owned.contains((topic, session))
}

/// `after` is `before` with `handle` taken out of every bucket in `owned`: such a bucket
/// has lost the handle and nothing else, every other bucket is as it was, and no empty
/// bucket, session or topic is left behind.
pub open spec fn released(owned: Set<Pair>, before: Model, after: Model, handle: HandleId) -> bool {
    &&& well_formed(after)
    &&& forall|topic: Seq<char>, session: Seq<char>| #[trigger]
        routed(after, topic, session) == if owned.contains((topic, session)) {
            without_handle(routed(before, topic, session), handle)
        } else {
            routed(before, topic, session)
        }
}

/// A well formed registry is determined by what it routes: two that route alike are equal.
pub proof fn lemma_routes_determine_registry(a: Model, b: Model)
    requires
        well_formed(a),
        well_formed(b),
        forall|topic: Seq<char>, session: Seq<char>|
            routed(a, topic, session) == routed(b, topic, session),
    ensures
        a == b,
{
    assert forall|topic: Seq<char>| a.contains_key(topic) <==> b.contains_key(topic) by {
        if a.contains_key(topic) {
            let session = choose|session: Seq<char>| a[topic].dom().contains(session);
            assert(routed(b, topic, session).len() > 0);
        }
        if b.contains_key(topic) {
            let session = choose|session: Seq<char>| b[topic].dom().contains(session);
            assert(routed(a, topic, session).len() > 0);
        }
    }
    assert forall|topic: Seq<char>| a.contains_key(topic) implies a[topic] == b[topic] by {
        assert forall|session: Seq<char>| a[topic].contains_key(session) <==> b[topic].contains_key(
            session,
        ) by {
            if a[topic].contains_key(session) {
                assert(routed(b, topic, session).len() > 0);
            }
            if b[topic].contains_key(session) {
                assert(routed(a, topic, session).len() > 0);
            }
        }
        assert forall|session: Seq<char>| a[topic].contains_key(session) implies a[topic][session]
            == b[topic][session] by {
            assert(routed(a, topic, session) == routed(b, topic, session));
        }
    }
}

/// A command of a connection keeps its record in step with the registry.
pub proof fn lemma_command_keeps_track(c: ConnectionView, m: Model, command: CommandView)
    requires
        well_formed(m),
        tracks(c, m),
    ensures
        tracks(connection_after(c, command), registry_after(c, m, command)),
{
    let c2 = connection_after(c, command);
    let m2 = registry_after(c, m, command);
    assert forall|topic: Seq<char>, session: Seq<char>| #[trigger]
        routed(m2, topic, session).contains(c2.handle) implies c2.owned.contains(
        (topic, session),
    ) by {
        match command {
            CommandView::Subscribe { topic: t, session: named } => {
                let s = effective_session(c, named);
                lemma_subscribed_routed(m, t, s, c.handle, topic, session);
            },
            CommandView::Unsubscribe { topic: t, session: named } => {
                let s = effective_session(c, named);
                lemma_unsubscribed_routed(m, t, s, c.handle, topic, session);
                lemma_without_handle(routed(m, t, s), c.handle);
            },
            _ => {},
        }
    }
}

/// A command of one connection never touches what the registry holds for another: every
/// bucket holds the other handle after the command exactly where it held it before.
pub proof fn lemma_command_spares_others(
    c: ConnectionView,
    m: Model,
    command: CommandView,
    other: HandleId,
    topic: Seq<char>,
    session: Seq<char>,
)
    requires
        well_formed(m),
        other != c.handle,
    ensures
        routed(registry_after(c, m, command), topic, session).contains(other) <==> routed(
            m,
            topic,
            session,
        ).contains(other),
{
    match command {
        CommandView::Subscribe { topic: t, session: named } => {
            let s = effective_session(c, named);
            lemma_subscribed_routed(m, t, s, c.handle, topic, session);
            let bucket = routed(m, t, s);
            if topic == t && session == s && !bucket.contains(c.handle) {
                let grown = bucket.push(c.handle);
                if bucket.contains(other) {
                    let i = choose|i: int| 0 <= i < bucket.len() && bucket[i] == other;
                    assert(grown[i] == other);
                }
            }
        },
        CommandView::Unsubscribe { topic: t, session: named } => {
            let s = effective_session(c, named);
            lemma_unsubscribed_routed(m, t, s, c.handle, topic, session);
            lemma_without_handle(routed(m, t, s), c.handle);
        },
        _ => {},
    }
}

/// A command of one connection keeps the record of every other connection in step with
/// the registry.
pub proof fn lemma_command_keeps_other_track(
    c: ConnectionView,
    m: Model,
    command: CommandView,
    other: ConnectionView,
)
    requires
        well_formed(m),
        other.handle != c.handle,
        tracks(other, m),
    ensures
        tracks(other, registry_after(c, m, command)),
{
    let m2 = registry_after(c, m, command);
    assert forall|topic: Seq<char>, session: Seq<char>| #[trigger]
        routed(m2, topic, session).contains(other.handle) implies other.owned.contains(
        (topic, session),
    ) by {
        lemma_command_spares_others(c, m, command, other.handle, topic, session);
    }
}

/// Cleanup completeness: once the handle has been taken out of every bucket that the
/// connection had on record, and the record was in step with the registry, no bucket
/// holds the handle any more.
pub proof fn lemma_released_leaves_nothing(c: ConnectionView, before: Model, after: Model)
    requires
        tracks(c, before),
        released(c.owned, before, after, c.handle),
    ensures
        !mentions(after, c.handle),
{
    assert forall|topic: Seq<char>, session: Seq<char>| !(#[trigger] routed(
        after,
        topic,
        session,
    ).contains(c.handle)) by {
        lemma_without_handle(routed(before, topic, session), c.handle);
    }
}

/// The cleanup of one connection keeps the record of every other connection in step with
/// the registry.
pub proof fn lemma_release_keeps_other_track(
    owned: Set<Pair>,
    before: Model,
    after: Model,
    handle: HandleId,
    other: ConnectionView,
)
    requires
        released(owned, before, after, handle),
        other.handle != handle,
        tracks(other, before),
    ensures
        tracks(other, after),
{
    assert forall|topic: Seq<char>, session: Seq<char>| #[trigger]
        routed(after, topic, session).contains(other.handle) implies other.owned.contains(
        (topic, session),
    ) by {
        lemma_without_handle(routed(before, topic, session), handle);
    }
}

/// A registry that does not hold a handle is in step with any record under that handle.
pub proof fn lemma_unmentioned_is_tracked(c: ConnectionView, m: Model)
    requires
        !mentions(m, c.handle),
    ensures
        tracks(c, m),
{
}

/// The state of one client connection.
pub struct Connection {
    handle: HandleId,
    client_name: String,
    session_id: String,
    identity_pinned: bool,
    session_pinned: bool,
    owned: PairSet,
    state: ConnectionState,
}

impl View for Connection {
    type V = ConnectionView;

    closed spec fn view(&self) -> ConnectionView {
        ConnectionView {
            handle: self.handle,
            client_name: self.client_name@,
            session_id: self.session_id@,
            identity_pinned: self.identity_pinned,
            session_pinned: self.session_pinned,
            owned: self.owned@,
            state: self.state,
        }
    }
}

impl Connection {
    /// A connection whose upgrade has not completed yet. `handle` names its outbound
    /// queue; no other live connection may have the same.
    pub fn new(handle: HandleId) -> (connection: Connection)
        ensures
            connection@ == fresh(handle),
    {
        Connection {
            handle,
            client_name: "<unknown>".to_owned(),
            session_id: "default".to_owned(),
            identity_pinned: false,
            session_pinned: false,
            owned: PairSet::new(),
            state: ConnectionState::Connecting,
        }
    }

    /// Completes the upgrade. `claims` are those of a token that was presented and
    /// verified; `None` stands for no token and for one that did not verify alike.
    pub fn activate(&mut self, claims: Option<&Claims>)
        ensures
            final(self)@ == activated(
                old(self)@,
                match claims {
                    Some(verified) => Some(verified@),
                    None => None,
                },
            ),
    {
        match self.state {
            ConnectionState::Connecting => {},
            _ => {
                return ;
            },
        }
        match claims {
            None => {},
            Some(verified) => {
                self.client_name = verified.sub.clone();
                self.identity_pinned = true;
                match &verified.sid {
                    Some(sid) => {
                        self.session_id = sid.clone();
                        self.session_pinned = true;
                    },
                    None => {},
                }
            },
        }
        self.state = ConnectionState::Active;
    }

    /// The handle of the outbound queue.
    pub fn handle(&self) -> (handle: HandleId)
        ensures
            handle == self@.handle,
    {
        self.handle
    }

    /// The name of the client.
    pub fn client_name(&self) -> (name: &str)
        ensures
            name@ == self@.client_name,
    {
        self.client_name.as_str()
    }

    /// The current session.
    pub fn session_id(&self) -> (session: &str)
        ensures
            session@ == self@.session_id,
    {
        self.session_id.as_str()
    }

    /// Whether the name came from verified claims and cannot be changed.
    pub fn identity_pinned(&self) -> (pinned: bool)
        ensures
            pinned == self@.identity_pinned,
    {
        self.identity_pinned
    }

    /// Whether the session came from verified claims and cannot be changed.
    pub fn session_pinned(&self) -> (pinned: bool)
        ensures
            pinned == self@.session_pinned,
    {
        self.session_pinned
    }

    /// Where the connection stands in its life.
    pub fn state(&self) -> (state: ConnectionState)
        ensures
            state == self@.state,
    {
        self.state
    }

    /// Whether the connection has a subscription to `(topic, session_id)` on record.
    pub fn owns(&self, topic: &str, session_id: &str) -> (owned: bool)
        ensures
            owned == self@.owned.contains((topic@, session_id@)),
    {
        self.owned.contains(topic, session_id)
    }

    /// The subscriptions on record, each once, in no particular order.
    pub fn owned_subscriptions(&self) -> (pairs: Vec<(String, String)>)
        ensures
            as_set(pairs@) == self@.owned,
            distinct_pairs(pairs@),
    {
        self.owned.to_vec()
    }

    /// The number of subscriptions on record.
    pub fn owned_count(&self) -> (count: usize)
        ensures
            self@.owned.finite(),
            count == self@.owned.len(),
    {
        self.owned.len()
    }

    /// Carries out one command. A connection that is not active ignores it.
    pub fn handle_command(&mut self, registry: &mut Registry, command: Command) -> (queued: Vec<
        Delivery,
    >)
        ensures
            old(self)@.state is Active ==> {
                &&& final(self)@ == connection_after(old(self)@, command@)
                &&& final(registry)@ == registry_after(old(self)@, old(registry)@, command@)
                &&& deliveries_view(queued@) == queued_by(old(self)@, old(registry)@, command@)
            },
            !(old(self)@.state is Active) ==> {
                &&& final(self)@ == old(self)@
                &&& final(registry)@ == old(registry)@
                &&& queued@.len() == 0
            },
            well_formed(final(registry)@),
            old(self)@.identity_pinned ==> final(self)@.client_name == old(self)@.client_name,
            old(self)@.session_pinned ==> final(self)@.session_id == old(self)@.session_id,
            tracks(old(self)@, old(registry)@) ==> tracks(final(self)@, final(registry)@),
    {
        registry.use_invariant();
        proof {
            if tracks(self@, registry@) {
                lemma_command_keeps_track(self@, registry@, command@);
            }
        }
        match self.state {
            ConnectionState::Active => {},
            _ => {
                return Vec::new();
            },
        }
        match command {
            Command::RegisterName { name } => {
                if !self.identity_pinned {
                    self.client_name = name;
                }
                Vec::new()
            },
            Command::RegisterSession { session_id } => {
                if !self.session_pinned {
                    self.session_id = session_id;
                }
                Vec::new()
            },
            Command::Subscribe { topic, session: named } => {
                let session = match named {
                    Some(given) => given,
                    None => self.session_id.clone(),
                };
                registry.subscribe(topic.as_str(), session.as_str(), self.handle);
                self.owned.insert(topic, session);
                Vec::new()
            },
            Command::Unsubscribe { topic, session: named } => {
                let session = match named {
                    Some(given) => given,
                    None => self.session_id.clone(),
                };
                registry.unsubscribe(topic.as_str(), session.as_str(), self.handle);
                self.owned.remove(topic.as_str(), session.as_str());
                Vec::new()
            },
            Command::PublishJson { body } => {
                match Envelope::decode(body.as_str(), self.session_id.as_str()) {
                    Some(envelope) => publish(registry, &envelope),
                    None => Vec::new(),
                }
            },
            Command::Ping => {
                let mut queued: Vec<Delivery> = Vec::new();
                queued.push(Delivery { handle: self.handle, frame: "pong".to_owned() });
                assert(deliveries_view(queued@) =~= seq![
                    DeliveryView { handle: self.handle, frame: "pong"@ },
                ]);
                queued
            },
            Command::Unknown => Vec::new(),
        }
    }

    /// Reads one text frame as a command and carries it out.
    pub fn handle_text(&mut self, registry: &mut Registry, text: &str) -> (queued: Vec<Delivery>)
        ensures
            old(self)@.state is Active ==> {
                &&& final(self)@ == connection_after(old(self)@, command_of(text@))
                &&& final(registry)@ == registry_after(
                    old(self)@,
                    old(registry)@,
                    command_of(text@),
                )
                &&& deliveries_view(queued@) == queued_by(
                    old(self)@,
                    old(registry)@,
                    command_of(text@),
                )
            },
            !(old(self)@.state is Active) ==> {
                &&& final(self)@ == old(self)@
                &&& final(registry)@ == old(registry)@
                &&& queued@.len() == 0
            },
            well_formed(final(registry)@),
            old(self)@.identity_pinned ==> final(self)@.client_name == old(self)@.client_name,
            old(self)@.session_pinned ==> final(self)@.session_id == old(self)@.session_id,
            tracks(old(self)@, old(registry)@) ==> tracks(final(self)@, final(registry)@),
    {
        let command = parse_command(text);
        self.handle_command(registry, command)
    }

    /// Takes the connection from active to closing: the inbound stream has ended or
    /// failed, the outbound queue can no longer be written, or one of the two activities
    /// has stopped. In any other state nothing changes.
    pub fn disconnect(&mut self)
        ensures
            final(self)@ == (if old(self)@.state is Active {
                ConnectionView { state: ConnectionState::Closing, ..old(self)@ }
            } else {
                old(self)@
            }),
    {
        match self.state {
            ConnectionState::Active => {
                self.state = ConnectionState::Closing;
            },
            _ => {},
        }
    }

    /// Takes one arrival from the inbound side: a text frame is carried out as a command,
    /// a frame that is no text is passed over, and the end or a failure of the stream
    /// takes the connection to closing.
    pub fn receive(&mut self, registry: &mut Registry, inbound: Inbound) -> (queued: Vec<Delivery>)
        ensures
            match inbound {
                Inbound::Text(text) => {
                    &&& old(self)@.state is Active ==> {
                        &&& final(self)@ == connection_after(old(self)@, command_of(text@))
                        &&& final(registry)@ == registry_after(
                            old(self)@,
                            old(registry)@,
                            command_of(text@),
                        )
                        &&& deliveries_view(queued@) == queued_by(
                            old(self)@,
                            old(registry)@,
                            command_of(text@),
                        )
                    }
                    &&& !(old(self)@.state is Active) ==> {
                        &&& final(self)@ == old(self)@
                        &&& final(registry)@ == old(registry)@
                        &&& queued@.len() == 0
                    }
                },
                Inbound::NonText => {
                    &&& final(self)@ == old(self)@
                    &&& final(registry)@ == old(registry)@
                    &&& queued@.len() == 0
                },
                _ => {
                    &&& final(self)@ == (if old(self)@.state is Active {
                        ConnectionView { state: ConnectionState::Closing, ..old(self)@ }
                    } else {
                        old(self)@
                    })
                    &&& final(registry)@ == old(registry)@
                    &&& queued@.len() == 0
                },
            },
            well_formed(final(registry)@),
            tracks(old(self)@, old(registry)@) ==> tracks(final(self)@, final(registry)@),
    {
        registry.use_invariant();
        match inbound {
            Inbound::Text(text) => self.handle_text(registry, text.as_str()),
            Inbound::NonText => Vec::new(),
            _ => {
                self.disconnect();
                Vec::new()
            },
        }
    }

    /// Takes the connection from closing to closed: every subscription on record is
    /// removed from the registry, and the record is emptied. To be called once both
    /// activities of the connection have come to an end. In any other state nothing
    /// changes.
    pub fn cleanup(&mut self, registry: &mut Registry)
        ensures
            old(self)@.state is Closing ==> {
                &&& final(self)@ == ConnectionView {
                    owned: Set::empty(),
                    state: ConnectionState::Closed,
                    ..old(self)@
                }
                &&& released(
                    old(self)@.owned,
                    old(registry)@,
                    final(registry)@,
                    old(self)@.handle,
                )
                &&& tracks(old(self)@, old(registry)@) ==> !mentions(
                    final(registry)@,
                    old(self)@.handle,
                )
            },
            !(old(self)@.state is Closing) ==> {
                &&& final(self)@ == old(self)@
                &&& final(registry)@ == old(registry)@
            },
            well_formed(final(registry)@),
    {
        registry.use_invariant();
        match self.state {
            ConnectionState::Closing => {},
            _ => {
                return ;
            },
        }
        let ghost start = self@;
        let ghost before = registry@;
        let handle = self.handle;
        loop
            invariant
                self@ == (ConnectionView { owned: self@.owned, ..start }),
                handle == start.handle,
                self@.owned.subset_of(start.owned),
                well_formed(registry@),
                forall|topic: Seq<char>, session: Seq<char>| #[trigger]
                    routed(registry@, topic, session) == if start.owned.contains((topic, session))
                        && !self@.owned.contains((topic, session)) {
                        without_handle(routed(before, topic, session), handle)
                    } else {
                        routed(before, topic, session)
                    },
            ensures
                self@ == (ConnectionView { owned: Set::empty(), ..start }),
                released(start.owned, before, registry@, handle),
            decreases self@.owned.len(),
        {
            let ghost middle = registry@;
            match self.owned.pop() {
                None => {
                    break ;
                },
                Some(entry) => {
                    registry.unsubscribe(entry.0.as_str(), entry.1.as_str(), handle);
                    proof {
                        let gone = pair_view(entry);
                        assert forall|topic: Seq<char>, session: Seq<char>| #[trigger]
                            routed(registry@, topic, session) == if start.owned.contains(
                                (topic, session),
                            ) && !self@.owned.contains((topic, session)) {
                                without_handle(routed(before, topic, session), handle)
                            } else {
                                routed(before, topic, session)
                            } by {
                            lemma_unsubscribed_routed(
                                middle,
                                gone.0,
                                gone.1,
                                handle,
                                topic,
                                session,
                            );
                            if topic == gone.0 && session == gone.1 {
                                assert(routed(middle, topic, session) == routed(
                                    before,
                                    topic,
                                    session,
                                ));
                            }
                        }
                    }
                },
            }
        }
        self.state = ConnectionState::Closed;
        proof {
            if tracks(start, before) {
                lemma_released_leaves_nothing(start, before, registry@);
            }
        }
    }
}

} // verus!
