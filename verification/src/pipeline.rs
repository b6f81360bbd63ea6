//! The decision core of the tracking pipeline: the wrapped frame timestamp,
//! the dispatch rule of the capture loop's message queue, and the face
//! tracker's choice between tracking, detection and "no face".
//!
//! The webcam, the vision models and the worker threads live outside the
//! library; they feed these functions plain values and act on what comes
//! back.

use vstd::prelude::*;
use vstd::arithmetic::div_mod::lemma_add_mod_noop;
use crate::data::{FaceData, TrackingMessage};

verus! {

/// Offset added to every frame timestamp so that the 32-bit counter wraps
/// about ten seconds after startup: consumers exercise the wrap path early
/// instead of once per 71 minutes.
pub const TIMESTAMP_OFFSET: u32 = u32::MAX - 10_000_000;

/// The timestamp a frame is stamped with: the elapsed microseconds since the
/// pipeline's reference instant, shifted by [`TIMESTAMP_OFFSET`], wrapped to
/// 32 bits.
pub open spec fn spec_frame_timestamp(elapsed_micros: u64) -> u32 {
    (((elapsed_micros as int) + (TIMESTAMP_OFFSET as int)) % 0x1_0000_0000) as u32
}

/// Computes the wrapped 32-bit frame timestamp for the given elapsed
/// microseconds.
pub fn frame_timestamp(elapsed_micros: u64) -> (r: u32)
    ensures
        r == spec_frame_timestamp(elapsed_micros),
{
    let reduced: u64 = elapsed_micros % 0x1_0000_0000u64;
    let sum: u64 = reduced + (TIMESTAMP_OFFSET as u64);
    let wrapped: u64 = sum % 0x1_0000_0000u64;
    proof {
        lemma_add_mod_noop(elapsed_micros as int, TIMESTAMP_OFFSET as int, 0x1_0000_0000);
    }
    wrapped as u32
}

/// A message promise was dropped by the tracking stages: no face was in
/// view for that frame.
#[derive(Debug, Clone, Copy, PartialEq, Eq, Structural)]
pub struct PromiseDropped;

/// The message published for a frame without any face in view.
pub fn no_face_message(timestamp: u32) -> (r: TrackingMessage)
    ensures
        r.timestamp == timestamp,
        r.faces@ =~= Seq::<FaceData>::empty(),
{
    TrackingMessage { timestamp, faces: Vec::new() }
}

/// Re-stamps a message with the capture timestamp of its frame, which the
/// assembler left at zero.
pub fn stamped(m: TrackingMessage, timestamp: u32) -> (r: TrackingMessage)
    ensures
        r.timestamp == timestamp,
        r.faces == m.faces,
{
    TrackingMessage { timestamp, faces: m.faces }
}

/// What the capture loop does after inspecting the front of its message
/// queue.
#[derive(Debug, Clone, PartialEq)]
pub enum DispatchAction {
    /// The front promise settled: publish this message, stamped with the
    /// frame's capture timestamp.
    Publish(TrackingMessage),
    /// The queue is empty or its front promise is still being computed: do
    /// not block, go capture the next frame.
    Wait,
}

/// The dispatch rule of the capture loop. `front` is the settled front of
/// the message queue: absent while the queue is empty or its head would
/// still block, the assembled message once the head settled, and the dropped
/// mark when the tracking stages dropped the promise because no face was in
/// view. Messages are dequeued in arrival order, so published messages keep
/// capture order.
pub fn dispatch_step(front: Option<Result<TrackingMessage, PromiseDropped>>, timestamp: u32) -> (r:
    DispatchAction)
    ensures
        match front {
            None => r is Wait,
            Some(settled) => match r {
                DispatchAction::Publish(m) => m.timestamp == timestamp && (match settled {
                    Ok(assembled) => m.faces == assembled.faces,
                    Err(_) => m.faces@ =~= Seq::<FaceData>::empty(),
                }),
                DispatchAction::Wait => false,
            },
        },
{
    match front {
        None => DispatchAction::Wait,
        Some(Ok(assembled)) => DispatchAction::Publish(stamped(assembled, timestamp)),
        Some(Err(_)) => DispatchAction::Publish(no_face_message(timestamp)),
    }
}

/// The FIFO of in-flight message promises: frames enter at the back as they
/// are captured and leave at the front once settled, so published messages
/// keep capture order.
pub struct FrameQueue<T> {
    items: Vec<T>,
}

impl<T> FrameQueue<T> {
    /// What the queue holds, front first.
    pub closed spec fn view(&self) -> Seq<T> {
        self.items@
    }

    /// An empty queue.
    pub fn new() -> (r: FrameQueue<T>)
        ensures
            r@ =~= Seq::<T>::empty(),
    {
        FrameQueue { items: Vec::new() }
    }

    /// How many frames are in flight.
    pub fn len(&self) -> (r: usize)
        ensures
            r == self@.len(),
    {
        self.items.len()
    }

    /// Enqueues the newest frame's handle at the back.
    pub fn push_back(&mut self, item: T)
        ensures
            final(self)@ == old(self)@.push(item),
    {
        self.items.push(item);
    }

    /// The oldest in-flight handle, if any.
    pub fn front(&self) -> (r: Option<&T>)
        ensures
            match r {
                Some(item) => self@.len() > 0 && *item == self@[0],
                None => self@.len() == 0,
            },
    {
        if self.items.len() > 0 {
            Some(&self.items[0])
        } else {
            None
        }
    }

    /// Dequeues the oldest in-flight handle.
    pub fn pop_front(&mut self) -> (r: T)
        requires
            old(self)@.len() > 0,
        ensures
            r == old(self)@[0],
            final(self)@ == old(self)@.drop_first(),
    {
        let r = self.items.remove(0);
        proof {
            assert(self.items@ =~= old(self)@.drop_first());
        }
        r
    }

    /// Drops every in-flight frame, as the pipeline does when the last
    /// client disconnects.
    pub fn clear(&mut self)
        ensures
            final(self)@ =~= Seq::<T>::empty(),
    {
        self.items.clear();
    }
}

/// The queue is first-in-first-out: whatever it already holds, two newly
/// enqueued frames keep their order — the earlier one stands nearer the
/// front and everything already queued stays in place — so publication keeps
/// capture order.
pub proof fn lemma_queue_keeps_order<T>(q: Seq<T>, first: T, second: T)
    ensures
        ({
            let q2 = q.push(first).push(second);
            &&& q2[q.len() as int] == first
            &&& q2[q.len() as int + 1] == second
            &&& forall|k: int| 0 <= k < q.len() ==> q2[k] == q[k]
        }),
{
}

/// The index `max_by_key` picks over these confidence keys: the last index
/// holding the maximum.
pub open spec fn is_best_detection(keys: Seq<u32>, i: int) -> bool {
    &&& 0 <= i < keys.len()
    &&& forall|j: int| 0 <= j < keys.len() ==> keys[j] <= keys[i]
    &&& forall|j: int| i < j < keys.len() ==> keys[j] < keys[i]
}

/// Picks the detection with the highest confidence key, the last one on a
/// tie. The keys are the detections' confidence values mapped monotonically
/// to integers; absent exactly when there was no detection at all.
pub fn best_detection(keys: &Vec<u32>) -> (r: Option<usize>)
    ensures
        match r {
            Some(i) => is_best_detection(keys@, i as int),
            None => keys@.len() == 0,
        },
{
    if keys.len() == 0 {
        return None;
    }
    let mut best: usize = 0;
    let mut k: usize = 1;
    while k < keys.len()
        invariant
            keys@.len() > 0,
            best < k <= keys@.len(),
            forall|j: int| 0 <= j < k ==> keys@[j] <= keys@[best as int],
            forall|j: int| best < j < k ==> keys@[j] < keys@[best as int],
        decreases keys@.len() - k,
    {
        if keys[k] >= keys[best] {
            best = k;
        }
        k = k + 1;
    }
    Some(best)
}

/// What the face-track worker hands to the assembler for one frame.
#[derive(Debug, Clone, Copy, PartialEq, Eq, Structural)]
pub enum TrackOutcome {
    /// The tracker followed the face: full landmarks are available.
    Landmarks,
    /// Tracking was lost; the detector found faces and this index names the
    /// most confident detection, for degraded output.
    DetectedBest(usize),
    /// Neither tracking nor detection found a face: the output promise is
    /// dropped.
    NoFace,
}

/// The face-track worker's decision for one frame: landmarks when tracking
/// succeeded; otherwise the most confident detection, if any, as degraded
/// output; otherwise no face.
pub fn track_decision(landmarks_ready: bool, detection_keys: &Vec<u32>) -> (r: TrackOutcome)
    ensures
        match r {
            TrackOutcome::Landmarks => landmarks_ready,
            TrackOutcome::DetectedBest(i) => !landmarks_ready && is_best_detection(
                detection_keys@,
                i as int,
            ),
            TrackOutcome::NoFace => !landmarks_ready && detection_keys@.len() == 0,
        },
{
    if landmarks_ready {
        TrackOutcome::Landmarks
    } else {
        match best_detection(detection_keys) {
            Some(i) => TrackOutcome::DetectedBest(i),
            None => TrackOutcome::NoFace,
        }
    }
}

} // verus!
