//! The router: from a registry and an envelope to the frames that have to be queued, one
//! for each subscriber of exactly the envelope's topic and session.

use crate::protocol::{envelope_text, Envelope, EnvelopeView};
use crate::registry::{routed, well_formed, HandleId, Model, Registry};
use vstd::prelude::*;

verus! {

/// One frame to put on the outbound queue of one connection.
#[derive(Clone, Debug, PartialEq, Eq)]
pub struct Delivery {
    /// The connection whose queue the frame goes to.
    pub handle: HandleId,
    /// The text of the frame.
    pub frame: String,
}

/// The mathematical form of a [`Delivery`].
pub ghost struct DeliveryView {
    pub handle: HandleId,
    pub frame: Seq<char>,
}

impl View for Delivery {
    type V = DeliveryView;

    open spec fn view(&self) -> DeliveryView {
        DeliveryView { handle: self.handle, frame: self.frame@ }
    }
}

/// The mathematical form of a list of deliveries.
pub open spec fn deliveries_view(deliveries: Seq<Delivery>) -> Seq<DeliveryView> {
    Seq::new(deliveries.len(), |i: int| deliveries[i]@)
}

/// The same frame for each of `handles`, in their order.
pub open spec fn fan_out(handles: Seq<HandleId>, frame: Seq<char>) -> Seq<DeliveryView> {
    Seq::new(handles.len(), |i: int| DeliveryView { handle: handles[i], frame })
}

/// What publishing `envelope` queues: its text, once for every handle subscribed to its
/// topic under its session, in order of subscription.
pub open spec fn publication(m: Model, envelope: EnvelopeView) -> Seq<DeliveryView> {
    fan_out(routed(m, envelope.topic, envelope.session_id), envelope_text(envelope))
}

/// The frames that `deliveries` put on the queue of `handle`, in the order in which they
/// are put there.
pub open spec fn frames_for(deliveries: Seq<DeliveryView>, handle: HandleId) -> Seq<Seq<char>>
    decreases deliveries.len(),
{
    if deliveries.len() == 0 {
        Seq::empty()
    } else if deliveries.last().handle == handle {
        frames_for(deliveries.drop_last(), handle).push(deliveries.last().frame)
    } else {
        frames_for(deliveries.drop_last(), handle)
    }
}

/// What two batches of deliveries queue for a handle is what the first queues, followed by
/// what the second queues.
pub proof fn lemma_frames_for_concat(
    first: Seq<DeliveryView>,
    second: Seq<DeliveryView>,
    handle: HandleId,
)
    ensures
        frames_for(first + second, handle) == frames_for(first, handle) + frames_for(
            second,
            handle,
        ),
    decreases second.len(),
{
    if second.len() == 0 {
        assert(frames_for(first, handle) + frames_for(second, handle) =~= frames_for(
            first,
            handle,
        ));
    } else {
        assert((first + second).drop_last() =~= first + second.drop_last());
        lemma_frames_for_concat(first, second.drop_last(), handle);
        if second.last().handle == handle {
            assert(frames_for(first, handle) + frames_for(second.drop_last(), handle).push(
                second.last().frame,
            ) =~= (frames_for(first, handle) + frames_for(second.drop_last(), handle)).push(
                second.last().frame,
            ));
        }
    }
}

/// A fan-out queues the frame once for each occurrence of the handle among its targets:
/// not at all for a handle that is no target, and exactly once for a target that is not
/// repeated.
pub proof fn lemma_frames_for_fan_out(handles: Seq<HandleId>, frame: Seq<char>, handle: HandleId)
    ensures
        !handles.contains(handle) ==> frames_for(fan_out(handles, frame), handle) == Seq::<
            Seq<char>,
        >::empty(),
        handles.contains(handle) && handles.no_duplicates() ==> frames_for(
            fan_out(handles, frame),
            handle,
        ) == seq![frame],
    decreases handles.len(),
{
    if handles.len() > 0 {
        let front = handles.drop_last();
        let all = fan_out(handles, frame);
        assert(all.drop_last() =~= fan_out(front, frame));
        lemma_frames_for_fan_out(front, frame, handle);
        if handles.contains(handle) {
            let i = choose|i: int| 0 <= i < handles.len() && handles[i] == handle;
            if i < front.len() {
                assert(front[i] == handle);
            }
        }
    }
}

/// Session isolation: a publication queues nothing for a handle that is not subscribed to
/// exactly the topic and the session of the envelope, whatever else that handle is
/// subscribed to.
pub proof fn lemma_publication_isolated(m: Model, envelope: EnvelopeView, handle: HandleId)
    requires
        !routed(m, envelope.topic, envelope.session_id).contains(handle),
    ensures
        frames_for(publication(m, envelope), handle) == Seq::<Seq<char>>::empty(),
        forall|i: int|
            0 <= i < publication(m, envelope).len() ==> (#[trigger] publication(
                m,
                envelope,
            )[i]).handle != handle,
{
    let handles = routed(m, envelope.topic, envelope.session_id);
    lemma_frames_for_fan_out(handles, envelope_text(envelope), handle);
}

/// Session isolation, in the terms of two sessions of one topic: an envelope published
/// under one session queues nothing for a handle that is subscribed under another session
/// only.
pub proof fn lemma_session_isolation(
    m: Model,
    envelope: EnvelopeView,
    other_session: Seq<char>,
    handle: HandleId,
)
    requires
        envelope.session_id != other_session,
        forall|topic: Seq<char>, session: Seq<char>| #[trigger]
            routed(m, topic, session).contains(handle) ==> topic == envelope.topic && session
                == other_session,
    ensures
        frames_for(publication(m, envelope), handle) == Seq::<Seq<char>>::empty(),
{
    lemma_publication_isolated(m, envelope, handle);
}

/// A subscriber of the topic and session of an envelope is queued its text exactly once.
pub proof fn lemma_publication_delivered(m: Model, envelope: EnvelopeView, handle: HandleId)
    requires
        well_formed(m),
        routed(m, envelope.topic, envelope.session_id).contains(handle),
    ensures
        frames_for(publication(m, envelope), handle) == seq![envelope_text(envelope)],
{
    let handles = routed(m, envelope.topic, envelope.session_id);
    lemma_frames_for_fan_out(handles, envelope_text(envelope), handle);
}

/// Ordering: where one envelope is published and then another, a handle that is subscribed
/// at both times is queued the text of the first before the text of the second, whatever
/// happened to the registry in between.
pub proof fn lemma_publications_in_order(
    earlier: Model,
    later: Model,
    first: EnvelopeView,
    second: EnvelopeView,
    handle: HandleId,
)
    requires
        well_formed(earlier),
        well_formed(later),
        routed(earlier, first.topic, first.session_id).contains(handle),
        routed(later, second.topic, second.session_id).contains(handle),
    ensures
        frames_for(publication(earlier, first) + publication(later, second), handle) == seq![
            envelope_text(first),
            envelope_text(second),
        ],
{
    lemma_publication_delivered(earlier, first, handle);
    lemma_publication_delivered(later, second, handle);
    lemma_frames_for_concat(publication(earlier, first), publication(later, second), handle);
    assert(seq![envelope_text(first)] + seq![envelope_text(second)] =~= seq![
        envelope_text(first),
        envelope_text(second),
    ]);
}

/// The frame `frame` for each of `handles`.
pub fn fan_out_frames(handles: &Vec<HandleId>, frame: &str) -> (deliveries: Vec<Delivery>)
    ensures
        deliveries_view(deliveries@) == fan_out(handles@, frame@),
{
    let mut deliveries: Vec<Delivery> = Vec::new();
    let mut i: usize = 0;
    while i < handles.len()
        invariant
            i <= handles.len(),
            deliveries@.len() == i,
            forall|j: int|
                0 <= j < i ==> (#[trigger] deliveries@[j])@ == (DeliveryView {
                    handle: handles@[j],
                    frame: frame@,
                }),
        decreases handles.len() - i,
    {
        deliveries.push(Delivery { handle: handles[i], frame: frame.to_owned() });
        i += 1;
    }
    deliveries
}

/// Publishes `envelope`: looks up the subscribers of its topic under its session and
/// makes the frame for each of them. The registry is not changed, and the frames are for
/// the caller to queue, outside any lock on the registry.
pub fn publish(registry: &Registry, envelope: &Envelope) -> (deliveries: Vec<Delivery>)
    ensures
        deliveries_view(deliveries@) == publication(registry@, envelope@),
{
    let handles = registry.route(envelope.topic.as_str(), envelope.session_id.as_str());
    let frame = envelope.encode();
    fan_out_frames(&handles, frame.as_str())
}

} // verus!
