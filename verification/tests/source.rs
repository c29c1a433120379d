use android_sender::nodes::source::{SourceNode, SourcePipelineStage};
use android_sender::protocol::{NodeInfo, State};
use std::time::{SystemTime, UNIX_EPOCH};

const SECOND: i128 = 1_000_000_000;

fn now_nanos() -> i128 {
    SystemTime::now().duration_since(UNIX_EPOCH).unwrap().as_nanos() as i128
}

fn s(x: &str) -> String {
    x.to_string()
}

fn new_source() -> SourceNode {
    SourceNode::new(s("source-test"), s("https://example.com/stream.mp4"), true, true)
}

#[test]
fn source_schedule_without_gstreamer_init_or_runtime_available_is_handled() {
    let mut node = new_source();

    if node.schedule(None, None).is_ok() {
        assert_eq!(node.state, State::Started);
        node.stop();
    } else {
        assert_eq!(node.state, State::Stopped);
        assert_eq!(node.pipeline.stage, SourcePipelineStage::Idle);
    }
    assert!(!node.live_pipeline);

    let cue = now_nanos() + 30 * SECOND;
    if node.schedule(Some(cue), None).is_ok() {
        assert_eq!(node.state, State::Initial);
        node.stop();
    } else {
        assert_eq!(node.state, State::Stopped);
        assert_eq!(node.pipeline.stage, SourcePipelineStage::Idle);
    }
    assert!(!node.live_pipeline);
}

#[test]
fn advance_schedule_transitions_to_stopped_after_end_time() {
    let mut node = new_source();

    let cue = now_nanos() - 20 * SECOND;
    let end = now_nanos() - SECOND;
    node.cue_time = Some(cue);
    node.end_time = Some(end);
    node.state = State::Initial;

    node.advance_schedule(now_nanos());

    assert_eq!(node.state, State::Stopped);
    assert_eq!(node.pipeline.stage, SourcePipelineStage::Idle);
}

#[test]
fn consumer_link_bookkeeping_tracks_audio_and_video_links() {
    let mut node = new_source();

    node.add_consumer_link(&s("slot-av"), true, true);
    node.add_consumer_link(&s("slot-a"), true, false);
    node.add_consumer_link(&s("slot-v"), false, true);

    assert!(node.audio_consumer_slot_ids.contains(&s("slot-av")));
    assert!(node.audio_consumer_slot_ids.contains(&s("slot-a")));
    assert!(node.video_consumer_slot_ids.contains(&s("slot-av")));
    assert!(node.video_consumer_slot_ids.contains(&s("slot-v")));

    node.remove_consumer_link(&s("slot-av"));
    assert!(!node.audio_consumer_slot_ids.contains(&s("slot-av")));
    assert!(!node.video_consumer_slot_ids.contains(&s("slot-av")));
}

#[test]
fn advance_schedule_enters_starting_during_preroll_window() {
    let mut node = new_source();

    let cue = now_nanos() + 20 * SECOND;
    node.cue_time = Some(cue);
    node.state = State::Initial;

    node.advance_schedule(cue - 15 * SECOND);
    assert_eq!(node.state, State::Initial);
    assert_eq!(node.pipeline.stage, SourcePipelineStage::Idle);

    node.advance_schedule(cue - 5 * SECOND);
    assert_eq!(node.state, State::Starting);
    assert_eq!(node.pipeline.stage, SourcePipelineStage::Prerolling);
}

#[test]
fn as_info_returns_current_state_and_slots() {
    let mut node = new_source();
    node.state = State::Started;
    node.add_consumer_link(&s("slot-a"), true, false);
    node.add_consumer_link(&s("slot-v"), false, true);

    let info = node.as_info();
    match info {
        NodeInfo::Source(source) => {
            assert_eq!(source.uri, "https://example.com/stream.mp4");
            assert_eq!(source.state, State::Started);
            assert!(source.audio_consumer_slot_ids.unwrap_or_default().contains(&s("slot-a")));
            assert!(source.video_consumer_slot_ids.unwrap_or_default().contains(&s("slot-v")));
        },
        other => panic!("expected source info, got {other:?}"),
    }
}

#[test]
fn source_preroll_window_is_ten_seconds_before_cue() {
    let mut node = new_source();
    let cue = 1_000 * SECOND;
    node.cue_time = Some(cue);
    assert!(!node.advance_schedule(cue - 10 * SECOND - 1));
    assert_eq!(node.state, State::Initial);
    assert!(node.advance_schedule(cue - 10 * SECOND));
    assert_eq!(node.state, State::Starting);
    assert!(node.advance_schedule(cue));
    assert_eq!(node.state, State::Started);
    assert_eq!(node.pipeline.stage, SourcePipelineStage::Playing);
}

#[test]
fn source_pipeline_failure_stops_and_records_the_error() {
    let mut node = new_source();
    node.schedule(None, None).unwrap();
    node.attach_live_pipeline();
    assert!(node.live_pipeline);
    node.pipeline_failed(s("boom"));
    assert_eq!(node.state, State::Stopped);
    assert_eq!(node.last_error.as_deref(), Some("boom"));
    assert!(!node.live_pipeline);
    node.schedule(None, None).unwrap();
    assert_eq!(node.state, State::Started);
    assert!(node.last_error.is_none());
}
