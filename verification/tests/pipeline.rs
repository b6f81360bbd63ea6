use providence::data::{FaceData, PersistentId, QuatBits, TrackingMessage, Vec2Bits};
use providence::pipeline::{
    best_detection, dispatch_step, frame_timestamp, no_face_message, stamped, track_decision,
    DispatchAction, FrameQueue, PromiseDropped, TrackOutcome, TIMESTAMP_OFFSET,
};

#[test]
fn timestamp_wraps_early() {
    assert_eq!(TIMESTAMP_OFFSET, u32::MAX - 10_000_000);
    assert_eq!(frame_timestamp(0), TIMESTAMP_OFFSET);
    assert_eq!(frame_timestamp(10_000_000), u32::MAX);
    // ten seconds and one microsecond after startup the timestamp has wrapped
    assert_eq!(frame_timestamp(10_000_001), 0);
    assert_eq!(frame_timestamp(10_000_002), 1);
    assert_eq!(frame_timestamp(4_294_967_296 + 10_000_001), 0);
}

fn bare_face() -> FaceData {
    FaceData {
        ephemeral_id: 0,
        persistent_id: PersistentId::Unavailable,
        head_position: Vec2Bits { x: 0, y: 0 },
        head_rotation: QuatBits { x: 0, y: 0, z: 0, w: 0 },
        left_eye: None,
        right_eye: None,
    }
}

#[test]
fn dispatch_rules() {
    assert_eq!(dispatch_step(None, 5), DispatchAction::Wait);

    let assembled = TrackingMessage { timestamp: 0, faces: vec![bare_face()] };
    match dispatch_step(Some(Ok(assembled.clone())), 77) {
        DispatchAction::Publish(m) => {
            assert_eq!(m.timestamp, 77);
            assert_eq!(m.faces, assembled.faces);
        }
        DispatchAction::Wait => panic!("a settled promise must be published"),
    }

    match dispatch_step(Some(Err(PromiseDropped)), 99) {
        DispatchAction::Publish(m) => {
            assert_eq!(m.timestamp, 99);
            assert!(m.faces.is_empty());
        }
        DispatchAction::Wait => panic!("a dropped promise must publish an empty message"),
    }
}

#[test]
fn stamping() {
    let m = no_face_message(3);
    assert_eq!(m.timestamp, 3);
    assert!(m.faces.is_empty());
    let m2 = stamped(TrackingMessage { timestamp: 0, faces: vec![bare_face()] }, 12);
    assert_eq!(m2.timestamp, 12);
    assert_eq!(m2.faces.len(), 1);
}

#[test]
fn best_detection_is_last_max() {
    assert_eq!(best_detection(&vec![]), None);
    assert_eq!(best_detection(&vec![5]), Some(0));
    assert_eq!(best_detection(&vec![1, 3, 2]), Some(1));
    // on a tie the last maximum wins, as `max_by_key` picks it
    assert_eq!(best_detection(&vec![3, 1, 3]), Some(2));
    assert_eq!(best_detection(&vec![0, 0, 0]), Some(2));
    // confidences map to keys monotonically, e.g. through `to_bits` for
    // non-negative floats
    let keys = vec![0.25f32.to_bits(), 0.75f32.to_bits(), 0.5f32.to_bits()];
    assert_eq!(best_detection(&keys), Some(1));
}

#[test]
fn track_decision_modes() {
    assert_eq!(track_decision(true, &vec![1, 2]), TrackOutcome::Landmarks);
    assert_eq!(track_decision(false, &vec![1, 2]), TrackOutcome::DetectedBest(1));
    assert_eq!(track_decision(false, &vec![]), TrackOutcome::NoFace);
}

#[test]
fn frame_queue_fifo() {
    let mut q: FrameQueue<u32> = FrameQueue::new();
    assert_eq!(q.len(), 0);
    assert!(q.front().is_none());
    q.push_back(1);
    q.push_back(2);
    q.push_back(3);
    assert_eq!(q.len(), 3);
    assert_eq!(q.front(), Some(&1));
    assert_eq!(q.pop_front(), 1);
    assert_eq!(q.pop_front(), 2);
    q.push_back(4);
    assert_eq!(q.pop_front(), 3);
    assert_eq!(q.pop_front(), 4);
    assert_eq!(q.len(), 0);
    q.push_back(5);
    q.clear();
    assert_eq!(q.len(), 0);
    assert!(q.front().is_none());
}
