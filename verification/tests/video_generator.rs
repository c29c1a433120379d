use android_sender::nodes::video_generator::{VideoGeneratorNode, VideoGeneratorStage};
use android_sender::protocol::{NodeInfo, State};
use std::time::{SystemTime, UNIX_EPOCH};

const SECOND: i128 = 1_000_000_000;

fn now_nanos() -> i128 {
    SystemTime::now().duration_since(UNIX_EPOCH).unwrap().as_nanos() as i128
}

fn s(x: &str) -> String {
    x.to_string()
}

#[test]
fn video_generator_schedule_without_gstreamer_init_or_runtime_available_is_handled() {
    let mut node = VideoGeneratorNode::new(s("video-gen-test"));

    if node.schedule(None, None).is_ok() {
        assert_eq!(node.state, State::Started);
        assert_eq!(node.pipeline.stage, VideoGeneratorStage::Playing);
        node.stop();
    } else {
        assert_eq!(node.state, State::Stopped);
        assert_eq!(node.pipeline.stage, VideoGeneratorStage::Idle);
    }
    assert!(!node.live_pipeline);

    let cue = now_nanos() + 30 * SECOND;
    if node.schedule(Some(cue), None).is_ok() {
        assert_eq!(node.state, State::Initial);
        assert_eq!(node.pipeline.stage, VideoGeneratorStage::Idle);
        node.stop();
    } else {
        assert_eq!(node.state, State::Stopped);
        assert_eq!(node.pipeline.stage, VideoGeneratorStage::Idle);
    }
    assert!(!node.live_pipeline);
}

#[test]
fn advance_schedule_transitions_through_preroll_play_and_stop() {
    let mut node = VideoGeneratorNode::new(s("video-gen-test"));
    let cue = now_nanos() + 20 * SECOND;
    let end = cue + 5 * SECOND;
    node.cue_time = Some(cue);
    node.end_time = Some(end);
    node.state = State::Initial;

    node.advance_schedule(cue - 11 * SECOND);
    assert_eq!(node.state, State::Initial);
    assert_eq!(node.pipeline.stage, VideoGeneratorStage::Idle);

    node.advance_schedule(cue - 9 * SECOND);
    assert_eq!(node.state, State::Starting);
    assert_eq!(node.pipeline.stage, VideoGeneratorStage::Prerolling);

    node.advance_schedule(cue + SECOND);
    assert_eq!(node.state, State::Started);
    assert_eq!(node.pipeline.stage, VideoGeneratorStage::Playing);

    node.advance_schedule(end + SECOND);
    assert_eq!(node.state, State::Stopped);
    assert_eq!(node.pipeline.stage, VideoGeneratorStage::Idle);
}

#[test]
fn consumer_link_bookkeeping_tracks_audio_and_video() {
    let mut node = VideoGeneratorNode::new(s("video-gen-test"));
    node.add_consumer_link(&s("slot-audio-video"), true, true);
    node.add_consumer_link(&s("slot-video"), false, true);

    assert!(node.audio_consumer_slot_ids.contains(&s("slot-audio-video")));
    assert!(node.video_consumer_slot_ids.contains(&s("slot-audio-video")));
    assert!(node.video_consumer_slot_ids.contains(&s("slot-video")));

    node.remove_consumer_link(&s("slot-audio-video"));
    assert!(!node.audio_consumer_slot_ids.contains(&s("slot-audio-video")));
    assert!(!node.video_consumer_slot_ids.contains(&s("slot-audio-video")));
    assert!(node.video_consumer_slot_ids.contains(&s("slot-video")));
}

#[test]
fn compatible_info_uses_source_shape_and_uri_scheme() {
    let mut node = VideoGeneratorNode::new(s("video-gen-test"));
    node.add_consumer_link(&s("slot-1"), false, true);
    node.state = State::Started;

    let info = node.as_compatible_source_info();
    match info {
        NodeInfo::Source(source) => {
            assert_eq!(source.uri, "videogenerator://video-gen-test");
            assert_eq!(source.state, State::Started);
            assert_eq!(source.video_consumer_slot_ids.unwrap_or_default(), vec![s("slot-1")]);
        },
        other => panic!("expected source node info, got {other:?}"),
    }
}

#[test]
fn consumers_are_listed_in_ascending_order() {
    let mut node = VideoGeneratorNode::new(s("video-gen-test"));
    node.add_consumer_link(&s("b"), false, true);
    node.add_consumer_link(&s("a"), false, true);
    node.add_consumer_link(&s("c"), false, true);
    node.add_consumer_link(&s("a"), false, true);
    match node.as_compatible_source_info() {
        NodeInfo::Source(source) => {
            assert_eq!(source.video_consumer_slot_ids.unwrap(), vec![s("a"), s("b"), s("c")]);
            assert_eq!(source.audio_consumer_slot_ids.unwrap(), Vec::<String>::new());
        },
        other => panic!("expected source node info, got {other:?}"),
    }
}
