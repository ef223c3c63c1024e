//! From what a receiver needs to what a sender does about it.

use super::receiver::{EventView, ReceiverEvent};
use super::transport::{SenderView, UdpFrameSender};
use super::{MediaPacket, PacketView};
use crate::protocol::feedback::{FeedbackMessage, FeedbackView, FEEDBACK_HEADER_LEN, MAX_NACK_PACKET_INDICES};
use vstd::prelude::*;

verus! {

pub type MediaFeedback = FeedbackMessage;

pub const MAX_FEEDBACK_DATAGRAM: usize = FEEDBACK_HEADER_LEN + MAX_NACK_PACKET_INDICES * 2;

#[derive(Debug, Clone, Copy, PartialEq, Eq, Structural)]
pub struct FeedbackOutcome {
    pub retransmitted_packets: usize,
    pub keyframe_requested: bool,
}

impl Default for FeedbackOutcome {
    fn default() -> (outcome: Self)
        ensures
            outcome == (FeedbackOutcome { retransmitted_packets: 0, keyframe_requested: false }),
    {
        FeedbackOutcome { retransmitted_packets: 0, keyframe_requested: false }
    }
}

/// The message that an event calls for, if it calls for one.
pub open spec fn feedback_of(event: EventView) -> Option<FeedbackView> {
    match event {
        EventView::NeedNack { stream_id, frame_id, missing } => Some(
            FeedbackView::Nack { stream_id, frame_id, missing },
        ),
        EventView::NeedKeyframe { stream_id, after_frame_id } => Some(
            FeedbackView::RequestKeyframe { stream_id, after_frame_id },
        ),
        EventView::FrameReady(_) => None,
        EventView::DroppedStaleFrame { .. } => None,
    }
}

/// The messages that the events call for, in order.
pub open spec fn spec_from_events(events: Seq<EventView>) -> Seq<FeedbackView>
    decreases events.len(),
{
    if events.len() == 0 {
        Seq::empty()
    } else {
        let front = spec_from_events(events.drop_last());
        match feedback_of(events.last()) {
            Some(message) => front.push(message),
            None => front,
        }
    }
}

/// The messages as values, in order.
pub open spec fn feedback_views(messages: Seq<MediaFeedback>) -> Seq<FeedbackView> {
    Seq::new(messages.len(), |i: int| messages[i]@)
}

/// A copy of packet indices.
fn copy_indices(indices: &Vec<u16>) -> (copy: Vec<u16>)
    ensures
        copy@ == indices@,
{
    let mut copy: Vec<u16> = Vec::with_capacity(indices.len());
    let mut i: usize = 0;
    while i < indices.len()
        invariant
            i <= indices@.len(),
            copy@ == indices@.take(i as int),
        decreases indices@.len() - i,
    {
        copy.push(indices[i]);
        i += 1;
        proof {
            assert(copy@ =~= indices@.take(i as int));
        }
    }
    proof {
        assert(copy@ =~= indices@);
    }
    copy
}

/// Turns the events that the sender can do something about into messages.
#[must_use]
pub fn from_receiver_events(events: &[ReceiverEvent]) -> (messages: Vec<MediaFeedback>)
    ensures
        feedback_views(messages@) == spec_from_events(super::receiver::event_views(events@)),
{
    let mut messages: Vec<MediaFeedback> = Vec::new();
    let ghost views = super::receiver::event_views(events@);
    let mut i: usize = 0;
    proof {
        assert(views.take(0) =~= Seq::<EventView>::empty());
        assert(feedback_views(messages@) =~= Seq::<FeedbackView>::empty());
    }
    while i < events.len()
        invariant
            i <= events@.len(),
            views == super::receiver::event_views(events@),
            feedback_views(messages@) == spec_from_events(views.take(i as int)),
        decreases events@.len() - i,
    {
        let ghost before = messages@;
        proof {
            assert(views.take(i + 1).drop_last() =~= views.take(i as int));
            assert(views.take(i + 1).last() == events@[i as int]@);
        }
        match &events[i] {
            ReceiverEvent::NeedNack { stream_id, frame_id, missing_packet_indices } => {
                messages.push(
                    FeedbackMessage::Nack {
                        stream_id: *stream_id,
                        frame_id: *frame_id,
                        missing_packet_indices: copy_indices(missing_packet_indices),
                    },
                );
                proof {
                    assert(feedback_views(messages@) =~= feedback_views(before).push(
                        messages@.last()@,
                    ));
                }
            },
            ReceiverEvent::NeedKeyframe { stream_id, after_frame_id } => {
                messages.push(
                    FeedbackMessage::RequestKeyframe {
                        stream_id: *stream_id,
                        after_frame_id: *after_frame_id,
                    },
                );
                proof {
                    assert(feedback_views(messages@) =~= feedback_views(before).push(
                        messages@.last()@,
                    ));
                }
            },
            ReceiverEvent::FrameReady(_) => {},
            ReceiverEvent::DroppedStaleFrame { .. } => {},
        }
        i += 1;
    }
    proof {
        assert(views.take(i as int) =~= views);
    }
    messages
}

/// What a sender is about to do in answer to feedback.
#[derive(Debug)]
pub enum FeedbackPlan {
    /// Send again those of the asked packets that are still there.
    Retransmit(Vec<Option<MediaPacket>>),
    /// Ask the encoder for a keyframe.
    RequestKeyframe,
}

/// Decides what a sender does in answer to feedback.
///
/// NACKs are satisfied only from the short live retransmit cache. A keyframe request is surfaced to
/// the caller so the reliable control/encoder path can coalesce it with requests from other
/// receivers instead of directly coupling the UDP transport to a particular encoder backend.
pub fn plan_sender_feedback(
    sender: &mut UdpFrameSender,
    now_us: u64,
    feedback: &MediaFeedback,
) -> (plan: FeedbackPlan)
    requires
        old(sender).wf(),
    ensures
        final(sender).wf(),
        match feedback@ {
            FeedbackView::Nack { frame_id, missing, .. } => {
                &&& plan matches FeedbackPlan::Retransmit(packets)
                    && super::transport::found_views(packets@) == old(sender)@.spec_retransmit(
                    now_us,
                    frame_id,
                    missing,
                )
                &&& final(sender)@ == (SenderView {
                    retransmit: old(sender)@.retransmit.spec_prune(now_us),
                    ..old(sender)@
                })
            },
            FeedbackView::RequestKeyframe { .. } => plan is RequestKeyframe && final(sender)@
                == old(sender)@,
        },
{
    match feedback {
        FeedbackMessage::Nack { frame_id, missing_packet_indices, .. } => FeedbackPlan::Retransmit(
            sender.plan_retransmit(now_us, *frame_id, missing_packet_indices.as_slice()),
        ),
        FeedbackMessage::RequestKeyframe { .. } => FeedbackPlan::RequestKeyframe,
    }
}

/// Takes note of what was done of a plan: of a retransmission, its first `attempted` entries.
pub fn apply_sender_feedback(
    sender: &mut UdpFrameSender,
    plan: &FeedbackPlan,
    attempted: usize,
) -> (outcome: FeedbackOutcome)
    requires
        old(sender).wf(),
        plan matches FeedbackPlan::Retransmit(packets) ==> attempted <= packets@.len(),
    ensures
        final(sender).wf(),
        match *plan {
            FeedbackPlan::Retransmit(packets) => {
                &&& outcome.retransmitted_packets == super::transport::found_count(
                    super::transport::found_views(packets@).take(attempted as int),
                )
                &&& !outcome.keyframe_requested
                &&& final(sender)@ == old(sender)@.spec_finish_retransmit(
                    super::transport::found_views(packets@),
                    attempted as int,
                )
            },
            FeedbackPlan::RequestKeyframe => outcome == (FeedbackOutcome {
                retransmitted_packets: 0,
                keyframe_requested: true,
            }) && final(sender)@ == old(sender)@,
        },
{
    match plan {
        FeedbackPlan::Retransmit(packets) => FeedbackOutcome {
            retransmitted_packets: sender.finish_retransmit(packets, attempted),
            keyframe_requested: false,
        },
        FeedbackPlan::RequestKeyframe => FeedbackOutcome {
            retransmitted_packets: 0,
            keyframe_requested: true,
        },
    }
}

/// A packet that was just sent is what a request for it is answered with, as long as the
/// cache's age limit has not passed.
pub proof fn law_fresh_packet_is_retransmitted(
    sender: SenderView,
    packet: PacketView,
    sent_us: u64,
    now_us: u64,
)
    requires
        crate::counting::elapsed(now_us, sent_us) <= sender.retransmit.max_age_us,
    ensures
        (SenderView {
            retransmit: sender.retransmit.spec_insert(sent_us, packet),
            ..sender
        }).spec_retransmit(
            now_us,
            packet.header.frame_id,
            seq![packet.header.packet_index],
        ) == seq![Some(packet)],
{
    let stored = sender.retransmit.spec_insert(sent_us, packet);
    super::reliability::lemma_young_last_is_kept(stored.entries, stored.max_age_us, now_us);
    let answer = (SenderView { retransmit: stored, ..sender }).spec_retransmit(
        now_us,
        packet.header.frame_id,
        seq![packet.header.packet_index],
    );
    assert(answer =~= seq![Some(packet)]);
}

/// While a frame that was sent is fresh, every packet of it that is asked for is sent again, where
/// the whole frame fits into the cache.
pub proof fn law_fresh_frame_is_retransmitted(
    sender: SenderView,
    frame: crate::video::distributor::SharedEncodedFrame,
    payload_bytes: usize,
    sent_us: u64,
    now_us: u64,
    missing: Seq<u16>,
)
    requires
        sender.spec_sendable(frame) is Ok,
        sender.spec_frame_packets(frame).len() <= sender.retransmit.max_packets,
        crate::counting::elapsed(now_us, sent_us) <= sender.retransmit.max_age_us,
        forall|i: int|
            0 <= i < missing.len() ==> #[trigger] missing[i] < sender.spec_frame_packets(
                frame,
            ).len(),
    ensures
        ({
            let packets = sender.spec_frame_packets(frame);
            sender.spec_finish_frame(
                sent_us,
                packets,
                payload_bytes,
                packets.len() as int,
            ).spec_retransmit(now_us, frame.meta.frame_id, missing) == Seq::new(
                missing.len(),
                |i: int| Some(packets[missing[i] as int]),
            )
        }),
{
    let packets = sender.spec_frame_packets(frame);
    let sent = sender.spec_finish_frame(sent_us, packets, payload_bytes, packets.len() as int);
    assert(packets.take(packets.len() as int) =~= packets);
    let answer = sent.spec_retransmit(now_us, frame.meta.frame_id, missing);
    assert forall|i: int| 0 <= i < missing.len() implies #[trigger] answer[i] == Some(
        packets[missing[i] as int],
    ) by {
        super::reliability::law_packets_are_found_while_fresh(
            sender.retransmit,
            sent_us,
            packets,
            now_us,
            missing[i] as int,
        );
    }
    assert(answer =~= Seq::new(missing.len(), |i: int| Some(packets[missing[i] as int])));
}

/// Each event that asks for something becomes one message that asks for the same of the same
/// stream and frame; the others become none. The order stays.
pub proof fn law_requests_become_feedback(events: Seq<EventView>)
    ensures
        forall|event: EventView|
            #![trigger feedback_of(event)]
            (event is FrameReady || event is DroppedStaleFrame ==> feedback_of(event) is None) && (
            event matches EventView::NeedNack { stream_id, frame_id, missing } ==> feedback_of(
                event,
            ) == Some(FeedbackView::Nack { stream_id, frame_id, missing })) && (
            event matches EventView::NeedKeyframe { stream_id, after_frame_id } ==> feedback_of(
                event,
            ) == Some(FeedbackView::RequestKeyframe { stream_id, after_frame_id })),
        spec_from_events(events) == events.filter(
            |event: EventView| event is NeedNack || event is NeedKeyframe,
        ).map_values(|event: EventView| feedback_of(event)->Some_0),
    decreases events.len(),
{
    reveal(Seq::filter);
    let asks = |event: EventView| event is NeedNack || event is NeedKeyframe;
    let told = |event: EventView| feedback_of(event)->Some_0;
    if events.len() > 0 {
        let front = events.drop_last();
        law_requests_become_feedback(front);
        if asks(events.last()) {
            assert(front.filter(asks).push(events.last()).map_values(told) =~= front.filter(
                asks,
            ).map_values(told).push(told(events.last())));
        }
    } else {
        assert(events.filter(asks).map_values(told) =~= spec_from_events(events));
    }
}

} // verus!
