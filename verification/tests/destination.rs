use android_sender::nodes::destination::{DestinationNode, DestinationPipelineStage};
use android_sender::protocol::{DestinationFamily, NodeInfo, State};
use std::time::{SystemTime, UNIX_EPOCH};

const SECOND: i128 = 1_000_000_000;

fn now_nanos() -> i128 {
    SystemTime::now().duration_since(UNIX_EPOCH).unwrap().as_nanos() as i128
}

fn s(x: &str) -> String {
    x.to_string()
}

fn stage(node: &DestinationNode) -> Option<DestinationPipelineStage> {
    node.pipeline.as_ref().map(|profile| profile.stage)
}

#[test]
fn destination_schedule_without_gstreamer_init_or_runtime_available_is_handled() {
    let mut node = DestinationNode::new(s("destination-test"), DestinationFamily::LocalPlayback, false, true);

    node.connect_input(&s("link-video"), false, true).unwrap();
    if node.schedule(None, None).is_ok() {
        assert_eq!(node.state, State::Started);
        node.stop();
    } else {
        assert_eq!(node.state, State::Stopped);
        assert_eq!(stage(&node), Some(DestinationPipelineStage::Idle));
    }
    assert!(!node.live_pipeline);

    let cue = now_nanos() + 15 * SECOND;
    if node.schedule(Some(cue), None).is_ok() {
        assert_eq!(node.state, State::Initial);
        node.stop();
    } else {
        assert_eq!(node.state, State::Stopped);
        assert_eq!(stage(&node), Some(DestinationPipelineStage::Idle));
    }
    assert!(!node.live_pipeline);
}

#[test]
fn advance_schedule_starts_at_cue_time() {
    let mut node = DestinationNode::new(s("destination-test"), DestinationFamily::LocalPlayback, false, true);

    node.connect_input(&s("link-video"), false, true).unwrap();
    let cue = now_nanos() + 30 * SECOND;
    assert!(node.schedule(Some(cue), None).is_ok());
    assert_eq!(node.state, State::Initial);

    node.advance_schedule(cue + SECOND);
    assert_eq!(node.state, State::Started);
    assert_eq!(stage(&node), Some(DestinationPipelineStage::Playing));
}

#[test]
fn schedule_requires_connected_enabled_slots() {
    let mut node = DestinationNode::new(s("destination-test"), DestinationFamily::LocalPlayback, true, true);

    let err = node.schedule(None, None).unwrap_err();
    assert!(err.contains("audio slot connected"));

    node.connect_input(&s("audio-link"), true, false).unwrap();
    let err = node.schedule(None, None).unwrap_err();
    assert!(err.contains("video slot connected"));
}

#[test]
fn connect_input_rejects_duplicate_media_slots() {
    let mut node = DestinationNode::new(s("destination-test"), DestinationFamily::LocalPlayback, true, true);

    node.connect_input(&s("slot-1"), true, true).unwrap();
    let err = node.connect_input(&s("slot-2"), true, false).unwrap_err();
    assert!(err.contains("already has an audio input slot"));

    let err = node.connect_input(&s("slot-3"), false, true).unwrap_err();
    assert!(err.contains("already has a video input slot"));
}

#[test]
fn disconnect_input_clears_only_matching_slot() {
    let mut node = DestinationNode::new(s("destination-test"), DestinationFamily::LocalPlayback, true, true);

    node.connect_input(&s("slot-a"), true, false).unwrap();
    node.connect_input(&s("slot-v"), false, true).unwrap();

    node.disconnect_input(&s("slot-a"));
    assert!(node.audio_slot_id.is_none());
    assert_eq!(node.video_slot_id.as_deref(), Some("slot-v"));

    node.disconnect_input(&s("slot-v"));
    assert!(node.video_slot_id.is_none());
}

#[test]
fn as_info_reflects_current_slots_and_state() {
    let mut node = DestinationNode::new(s("destination-test"), DestinationFamily::Udp { host: s("127.0.0.1") }, true, false);

    node.connect_input(&s("slot-a"), true, false).unwrap();
    node.state = State::Started;

    let info = node.as_info();
    match info {
        NodeInfo::Destination(dest) => {
            assert_eq!(dest.audio_slot_id.as_deref(), Some("slot-a"));
            assert!(dest.video_slot_id.is_none());
            assert_eq!(dest.state, State::Started);
        },
        other => panic!("expected destination info, got {other:?}"),
    }
}

#[test]
fn destination_reaching_its_end_time_stops() {
    let mut node = DestinationNode::new(s("destination-test"), DestinationFamily::LocalPlayback, false, true);
    node.connect_input(&s("link-video"), false, true).unwrap();
    let cue = 2_000 * SECOND;
    node.schedule_at(Some(cue), Some(cue + 5 * SECOND), cue - SECOND).unwrap();
    assert_eq!(node.state, State::Initial);
    node.advance_schedule(cue);
    assert_eq!(node.state, State::Started);
    node.attach_live_pipeline();
    node.advance_schedule(cue + 5 * SECOND);
    assert_eq!(node.state, State::Stopped);
    assert!(!node.live_pipeline);
    assert_eq!(stage(&node), Some(DestinationPipelineStage::Idle));
}

#[test]
fn refused_schedule_changes_nothing() {
    let mut node = DestinationNode::new(s("destination-test"), DestinationFamily::LocalPlayback, true, false);
    assert_eq!(node.schedule(Some(5), Some(10)).unwrap_err(), "Destination destination-test must have its audio slot connected before starting");
    assert!(node.cue_time.is_none());
    assert!(node.pipeline.is_none());
    assert_eq!(node.state, State::Initial);
}
