//! The subscriber registry: topic, then session, then the handles subscribed there.
//!
//! The registry is the one value shared between connections. Its view is a map from topic to
//! a map from session to the ordered list of handles. Every contract is stated over that view.

use crate::strmap::StrMap;
use vstd::prelude::*;

verus! {

/// Identifies the outbound queue of one connection.
pub type HandleId = u64;

/// The handles subscribed under one topic, by session.
pub type Sessions = Map<Seq<char>, Seq<HandleId>>;

/// What a registry holds: topic, then session, then handles in order of subscription.
pub type Model = Map<Seq<char>, Sessions>;

/// The sessions recorded under `topic`; none where the topic is not recorded.
pub open spec fn sessions_of(m: Model, topic: Seq<char>) -> Sessions {
    if m.contains_key(topic) {
        m[topic]
    } else {
        Map::empty()
    }
}

/// The handles that a message for `(topic, session)` is delivered to, in order.
pub open spec fn routed(m: Model, topic: Seq<char>, session: Seq<char>) -> Seq<HandleId> {
    let sessions = sessions_of(m, topic);
    if sessions.contains_key(session) {
        sessions[session]
    } else {
        Seq::empty()
    }
}

/// The test that every handle but `handle` passes.
pub open spec fn other_than(handle: HandleId) -> spec_fn(HandleId) -> bool {
    |h: HandleId| h != handle
}

/// `bucket` with every occurrence of `handle` taken out.
pub open spec fn without_handle(bucket: Seq<HandleId>, handle: HandleId) -> Seq<HandleId> {
    bucket.filter(other_than(handle))
}

/// The invariant of a registry: finitely many entries, no topic without a session, no
/// session without a handle, and no handle twice in one bucket.
pub open spec fn well_formed(m: Model) -> bool {
    &&& m.dom().finite()
    &&& forall|topic: Seq<char>| #[trigger]
        m.contains_key(topic) ==> m[topic].dom().finite() && !m[topic].is_empty()
    &&& forall|topic: Seq<char>, session: Seq<char>|
        m.contains_key(topic) && #[trigger] m[topic].contains_key(session) ==> m[topic][session].len()
            > 0 && m[topic][session].no_duplicates()
}

/// The registry after `handle` has subscribed to `(topic, session)`.
pub open spec fn subscribed(
    m: Model,
    topic: Seq<char>,
    session: Seq<char>,
    handle: HandleId,
) -> Model {
    let bucket = routed(m, topic, session);
    if bucket.contains(handle) {
        m
    } else {
        m.insert(topic, sessions_of(m, topic).insert(session, bucket.push(handle)))
    }
}

/// The registry after `handle` has unsubscribed from `(topic, session)`.
pub open spec fn unsubscribed(
    m: Model,
    topic: Seq<char>,
    session: Seq<char>,
    handle: HandleId,
) -> Model {
    let bucket = routed(m, topic, session);
    if !bucket.contains(handle) {
        m
    } else {
        let rest = without_handle(bucket, handle);
        let sessions = if rest.len() > 0 {
            m[topic].insert(session, rest)
        } else {
            m[topic].remove(session)
        };
        if sessions.is_empty() {
            m.remove(topic)
        } else {
            m.insert(topic, sessions)
        }
    }
}

/// Whether any bucket of the registry holds `handle`.
pub open spec fn mentions(m: Model, handle: HandleId) -> bool {
    exists|topic: Seq<char>, session: Seq<char>| #[trigger]
        routed(m, topic, session).contains(handle)
}

/// Taking a handle out of a bucket leaves no occurrence of it, keeps every other member,
/// adds none, and keeps the bucket free of duplicates.
pub proof fn lemma_without_handle(bucket: Seq<HandleId>, handle: HandleId)
    ensures
        !without_handle(bucket, handle).contains(handle),
        forall|h: HandleId|
            h != handle ==> (#[trigger] without_handle(bucket, handle).contains(h)
                <==> bucket.contains(h)),
        without_handle(bucket, handle).len() <= bucket.len(),
        bucket.no_duplicates() ==> without_handle(bucket, handle).no_duplicates(),
        !bucket.contains(handle) ==> without_handle(bucket, handle) == bucket,
    decreases bucket.len(),
{
    reveal(Seq::filter);
    let keep = other_than(handle);
    let out = bucket.filter(keep);
    if bucket.len() > 0 {
        let front = bucket.drop_last();
        lemma_without_handle(front, handle);
        let sub = front.filter(keep);
        assert forall|h: HandleId| h != handle implies (#[trigger] out.contains(h)
            <==> bucket.contains(h)) by {
            if out.contains(h) {
                let i = choose|i: int| 0 <= i < out.len() && out[i] == h;
                if i < sub.len() {
                    assert(sub.contains(h));
                }
            }
            if bucket.contains(h) {
                let j = choose|j: int| 0 <= j < bucket.len() && bucket[j] == h;
                if j < front.len() {
                    assert(front[j] == h);
                }
            }
        }
        if bucket.no_duplicates() {
            assert forall|i: int, j: int| 0 <= i < out.len() && 0 <= j < out.len() && i
                != j implies out[i] != out[j] by {
                if i >= sub.len() || j >= sub.len() {
                    let low = if i < j { i } else { j };
                    assert(sub.contains(sub[low]));
                }
            }
        }
    }
}

/// Subscribing keeps the registry well formed.
pub proof fn lemma_subscribed_well_formed(
    m: Model,
    topic: Seq<char>,
    session: Seq<char>,
    handle: HandleId,
)
    requires
        well_formed(m),
    ensures
        well_formed(subscribed(m, topic, session, handle)),
{
    let bucket = routed(m, topic, session);
    if !bucket.contains(handle) {
        let grown = bucket.push(handle);
        assert(grown.no_duplicates());
    }
}

/// Unsubscribing keeps the registry well formed.
pub proof fn lemma_unsubscribed_well_formed(
    m: Model,
    topic: Seq<char>,
    session: Seq<char>,
    handle: HandleId,
)
    requires
        well_formed(m),
    ensures
        well_formed(unsubscribed(m, topic, session, handle)),
{
    let bucket = routed(m, topic, session);
    if bucket.contains(handle) {
        lemma_without_handle(bucket, handle);
    }
}

/// What a subscription does to each bucket: the handle joins the end of its own bucket
/// unless it is there already, and every other bucket stays as it was.
pub proof fn lemma_subscribed_routed(
    m: Model,
    topic: Seq<char>,
    session: Seq<char>,
    handle: HandleId,
    t: Seq<char>,
    s: Seq<char>,
)
    ensures
        routed(subscribed(m, topic, session, handle), t, s) == if t == topic && s == session {
            if routed(m, topic, session).contains(handle) {
                routed(m, topic, session)
            } else {
                routed(m, topic, session).push(handle)
            }
        } else {
            routed(m, t, s)
        },
{
}

/// What an unsubscription does to each bucket: the handle leaves its own bucket and every
/// other bucket stays as it was.
pub proof fn lemma_unsubscribed_routed(
    m: Model,
    topic: Seq<char>,
    session: Seq<char>,
    handle: HandleId,
    t: Seq<char>,
    s: Seq<char>,
)
    requires
        well_formed(m),
    ensures
        routed(unsubscribed(m, topic, session, handle), t, s) == if t == topic && s == session {
            without_handle(routed(m, topic, session), handle)
        } else {
            routed(m, t, s)
        },
{
    lemma_without_handle(routed(m, topic, session), handle);
    let bucket = routed(m, topic, session);
    if bucket.contains(handle) {
        let rest = without_handle(bucket, handle);
        let sessions = if rest.len() > 0 {
            m[topic].insert(session, rest)
        } else {
            m[topic].remove(session)
        };
        if sessions.is_empty() && t == topic && s == session {
            assert(!sessions.contains_key(session));
        }
    }
}

/// Subscribing a second time changes nothing.
pub proof fn lemma_subscribe_idempotent(
    m: Model,
    topic: Seq<char>,
    session: Seq<char>,
    handle: HandleId,
)
    ensures
        subscribed(subscribed(m, topic, session, handle), topic, session, handle) == subscribed(
            m,
            topic,
            session,
            handle,
        ),
{
    lemma_subscribed_routed(m, topic, session, handle, topic, session);
    let bucket = routed(m, topic, session);
    if !bucket.contains(handle) {
        assert(bucket.push(handle)[bucket.len() as int] == handle);
    }
}

/// However often a handle subscribed, one unsubscription takes it out of the bucket.
pub proof fn lemma_unsubscribe_after_subscribes(
    m: Model,
    topic: Seq<char>,
    session: Seq<char>,
    handle: HandleId,
)
    requires
        well_formed(m),
    ensures
        !routed(
            unsubscribed(
                subscribed(subscribed(m, topic, session, handle), topic, session, handle),
                topic,
                session,
                handle,
            ),
            topic,
            session,
        ).contains(handle),
        !routed(unsubscribed(m, topic, session, handle), topic, session).contains(handle),
{
    lemma_subscribe_idempotent(m, topic, session, handle);
    lemma_subscribed_well_formed(m, topic, session, handle);
    let once = subscribed(m, topic, session, handle);
    lemma_unsubscribed_routed(once, topic, session, handle, topic, session);
    lemma_without_handle(routed(once, topic, session), handle);
    lemma_unsubscribed_routed(m, topic, session, handle, topic, session);
    lemma_without_handle(routed(m, topic, session), handle);
}

/// Unsubscribing a handle that is not subscribed changes nothing.
pub proof fn lemma_unsubscribe_absent(
    m: Model,
    topic: Seq<char>,
    session: Seq<char>,
    handle: HandleId,
)
    requires
        !routed(m, topic, session).contains(handle),
    ensures
        unsubscribed(m, topic, session, handle) == m,
{
}

/// A subscription followed by the matching unsubscription restores the registry, where the
/// handle was not subscribed before.
pub proof fn lemma_subscribe_then_unsubscribe(
    m: Model,
    topic: Seq<char>,
    session: Seq<char>,
    handle: HandleId,
)
    requires
        well_formed(m),
        !routed(m, topic, session).contains(handle),
    ensures
        unsubscribed(subscribed(m, topic, session, handle), topic, session, handle) == m,
{
    let bucket = routed(m, topic, session);
    let grown = bucket.push(handle);
    let once = subscribed(m, topic, session, handle);
    reveal(Seq::filter);
    assert(grown.drop_last() =~= bucket);
    lemma_without_handle(bucket, handle);
    let rest = without_handle(grown, handle);
    if bucket.len() > 0 {
        assert(once[topic].insert(session, bucket) =~= m[topic]);
    } else {
        let others = once[topic].remove(session);
        assert(others =~= sessions_of(m, topic));
    }
}

/// Session isolation: what happens under one `(topic, session)` pair never changes what is
/// routed to a different pair.
pub proof fn lemma_buckets_independent(
    m: Model,
    topic: Seq<char>,
    session: Seq<char>,
    handle: HandleId,
    t: Seq<char>,
    s: Seq<char>,
)
    requires
        well_formed(m),
        t != topic || s != session,
    ensures
        routed(subscribed(m, topic, session, handle), t, s) == routed(m, t, s),
        routed(unsubscribed(m, topic, session, handle), t, s) == routed(m, t, s),
{
    lemma_subscribed_routed(m, topic, session, handle, t, s);
    lemma_unsubscribed_routed(m, topic, session, handle, t, s);
}

/// Hands out handles, each one once: the first is 0, and each later one is one more than
/// the one before it.
pub struct HandleSource {
    next: HandleId,
}

impl View for HandleSource {
    type V = nat;

    /// The number of handles handed out so far, which is also the next handle.
    closed spec fn view(&self) -> nat {
        self.next as nat
    }
}

impl HandleSource {
    /// A source that has handed out nothing yet.
    pub fn new() -> (source: Self)
        ensures
            source@ == 0,
    {
        HandleSource { next: 0 }
    }

    /// The next handle, which no earlier call has returned; `None` once all handles but
    /// the last have been handed out.
    pub fn issue(&mut self) -> (handle: Option<HandleId>)
        ensures
            match handle {
                Some(issued) => issued == old(self)@ && final(self)@ == issued + 1,
                None => old(self)@ == HandleId::MAX && final(self)@ == old(self)@,
            },
    {
        if self.next == HandleId::MAX {
            None
        } else {
            let issued = self.next;
            self.next = issued + 1;
            Some(issued)
        }
    }
}

/// The view of one topic's sessions as they are stored.
spec fn sessions_model(stored: StrMap<Vec<HandleId>>) -> Sessions {
    stored@.map_values(|bucket: Vec<HandleId>| bucket@)
}

/// The view of all topics as they are stored.
spec fn model_of(stored: Map<Seq<char>, StrMap<Vec<HandleId>>>) -> Model {
    stored.map_values(|sessions: StrMap<Vec<HandleId>>| sessions_model(sessions))
}

/// The shared registry of subscribers.
pub struct Registry {
    topics: StrMap<StrMap<Vec<HandleId>>>,
}

impl View for Registry {
    type V = Model;

    closed spec fn view(&self) -> Model {
        model_of(self.topics@)
    }
}

/// Whether `bucket` holds `handle`.
fn holds(bucket: &Vec<HandleId>, handle: HandleId) -> (found: bool)
    ensures
        found == bucket@.contains(handle),
{
    let mut i: usize = 0;
    while i < bucket.len()
        invariant
            i <= bucket.len(),
            forall|j: int| 0 <= j < i ==> bucket@[j] != handle,
        decreases bucket.len() - i,
    {
        if bucket[i] == handle {
            return true;
        }
        i += 1;
    }
    false
}

/// The members of `bucket` other than `handle`, in their order.
fn others(bucket: &Vec<HandleId>, handle: HandleId) -> (rest: Vec<HandleId>)
    ensures
        rest@ == without_handle(bucket@, handle),
{
    let mut rest: Vec<HandleId> = Vec::new();
    let mut i: usize = 0;
    while i < bucket.len()
        invariant
            i <= bucket.len(),
            rest@ == without_handle(bucket@.take(i as int), handle),
        decreases bucket.len() - i,
    {
        proof {
            reveal(Seq::filter);
            assert(bucket@.take(i + 1).drop_last() =~= bucket@.take(i as int));
        }
        if bucket[i] != handle {
            rest.push(bucket[i]);
        }
        i += 1;
    }
    assert(bucket@.take(bucket.len() as int) =~= bucket@);
    rest
}

/// A copy of `bucket`.
fn snapshot(bucket: &Vec<HandleId>) -> (copy: Vec<HandleId>)
    ensures
        copy@ == bucket@,
{
    let mut copy: Vec<HandleId> = Vec::new();
    let mut i: usize = 0;
    while i < bucket.len()
        invariant
            i <= bucket.len(),
            copy@ == bucket@.take(i as int),
        decreases bucket.len() - i,
    {
        copy.push(bucket[i]);
        i += 1;
    }
    copy
}

impl Registry {
    /// Every registry is well formed, at every point of its life.
    #[verifier::type_invariant]
    pub open spec fn inv(self) -> bool {
        well_formed(self@)
    }

    /// A registry without subscribers.
    pub fn new() -> (registry: Self)
        ensures
            registry@ == Map::<Seq<char>, Sessions>::empty(),
    {
        let topics = StrMap::new();
        assert(model_of(topics@) =~= Map::<Seq<char>, Sessions>::empty());
        Registry { topics }
    }

    /// Moves the stored topics out and leaves the registry empty.
    fn take_topics(&mut self) -> (topics: StrMap<StrMap<Vec<HandleId>>>)
        ensures
            topics == old(self).topics,
            final(self)@ == Map::<Seq<char>, Sessions>::empty(),
    {
        let mut topics = StrMap::new();
        assert(model_of(topics@) =~= Map::<Seq<char>, Sessions>::empty());
        core::mem::swap(&mut self.topics, &mut topics);
        topics
    }

    /// States the invariant for a caller that holds a registry. Does nothing when run.
    pub fn use_invariant(&self)
        ensures
            well_formed(self@),
    {
        proof {
            use_type_invariant(self);
        }
    }

    /// Adds `handle` to the bucket of `(topic, session_id)`, unless it is there already.
    pub fn subscribe(&mut self, topic: &str, session_id: &str, handle: HandleId)
        ensures
            final(self)@ == subscribed(old(self)@, topic@, session_id@, handle),
            well_formed(final(self)@),
    {
        proof {
            use_type_invariant(&*self);
            lemma_subscribed_well_formed(self@, topic@, session_id@, handle);
        }
        let ghost before = self@;
        let mut topics = self.take_topics();
        let mut sessions = match topics.remove(topic) {
            Some(found) => found,
            None => StrMap::new(),
        };
        let mut bucket = match sessions.remove(session_id) {
            Some(found) => found,
            None => Vec::new(),
        };
        if !holds(&bucket, handle) {
            bucket.push(handle);
        }
        sessions.insert(session_id.to_owned(), bucket);
        assert(sessions_model(sessions) =~= sessions_of(before, topic@).insert(
            session_id@,
            bucket@,
        ));
        topics.insert(topic.to_owned(), sessions);
        assert(model_of(topics@) =~= subscribed(before, topic@, session_id@, handle)) by {
            if routed(before, topic@, session_id@).contains(handle) {
                assert(sessions_model(sessions) =~= before[topic@]);
            }
        }
        self.topics = topics;
    }

    /// Takes `handle` out of the bucket of `(topic, session_id)` and drops the session and
    /// the topic where they are left empty. Nothing changes where the handle is not in
    /// that bucket.
    pub fn unsubscribe(&mut self, topic: &str, session_id: &str, handle: HandleId)
        ensures
            final(self)@ == unsubscribed(old(self)@, topic@, session_id@, handle),
            well_formed(final(self)@),
    {
        proof {
            use_type_invariant(&*self);
            lemma_unsubscribed_well_formed(self@, topic@, session_id@, handle);
            lemma_without_handle(routed(self@, topic@, session_id@), handle);
        }
        let ghost before = self@;
        let mut topics = self.take_topics();
        match topics.remove(topic) {
            None => {},
            Some(found) => {
                let mut sessions = found;
                let ghost all = sessions_model(sessions);
                match sessions.remove(session_id) {
                    None => {},
                    Some(bucket) => {
                        let rest = others(&bucket, handle);
                        if rest.len() > 0 {
                            sessions.insert(session_id.to_owned(), rest);
                            assert(sessions_model(sessions) =~= all.insert(session_id@, rest@));
                        } else {
                            assert(sessions_model(sessions) =~= all.remove(session_id@));
                            assert(bucket@.contains(handle));
                        }
                    },
                }
                let ghost left = sessions_model(sessions);
                if !sessions.is_empty() {
                    topics.insert(topic.to_owned(), sessions);
                    proof {
                        if !routed(before, topic@, session_id@).contains(handle) {
                            assert(left =~= before[topic@]);
                        }
                    }
                } else {
                    assert(routed(before, topic@, session_id@).contains(handle));
                }
            },
        }
        assert(model_of(topics@) == unsubscribed(before, topic@, session_id@, handle));
        self.topics = topics;
    }

    /// A snapshot of the handles subscribed to exactly `(topic, session_id)`, in order of
    /// subscription; empty where there are none.
    pub fn route(&self, topic: &str, session_id: &str) -> (handles: Vec<HandleId>)
        ensures
            handles@ == routed(self@, topic@, session_id@),
    {
        match self.topics.get(topic) {
            None => Vec::new(),
            Some(sessions) => match sessions.get(session_id) {
                None => Vec::new(),
                Some(bucket) => snapshot(bucket),
            },
        }
    }

    /// Whether `handle` is subscribed to `(topic, session_id)`.
    pub fn is_subscribed(&self, topic: &str, session_id: &str, handle: HandleId) -> (found: bool)
        ensures
            found == routed(self@, topic@, session_id@).contains(handle),
    {
        match self.topics.get(topic) {
            None => false,
            Some(sessions) => match sessions.get(session_id) {
                None => false,
                Some(bucket) => holds(bucket, handle),
            },
        }
    }

    /// The number of topics that have a subscriber.
    pub fn topic_count(&self) -> (count: usize)
        ensures
            count == self@.dom().len(),
    {
        let count = self.topics.len();
        assert(self@.dom() =~= self.topics@.dom());
        count
    }

    /// The number of sessions that have a subscriber to `topic`.
    pub fn session_count(&self, topic: &str) -> (count: usize)
        ensures
            count == sessions_of(self@, topic@).dom().len(),
    {
        match self.topics.get(topic) {
            None => 0,
            Some(sessions) => {
                let count = sessions.len();
                assert(sessions_of(self@, topic@).dom() =~= sessions@.dom());
                count
            },
        }
    }

    /// Whether the registry has no subscriber at all.
    pub fn is_empty(&self) -> (empty: bool)
        ensures
            empty == self@.is_empty(),
    {
        let empty = self.topics.is_empty();
        empty
    }
}

} // verus!
