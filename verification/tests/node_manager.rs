use android_sender::live_media::{scheduled_node, MediaEvent};
use android_sender::node_manager::{NodeManager, NodeRecord};
use android_sender::pipeline::LiveStep;
use android_sender::protocol::{Command, CommandResult, ControlMode, ControlPoint, DestinationFamily, NodeInfo};
use android_sender::table::Table;
use android_sender::value::{JsonValue, Number};
use std::time::{SystemTime, UNIX_EPOCH};

const SECOND: i128 = 1_000_000_000;

fn now_nanos() -> i128 {
    SystemTime::now().duration_since(UNIX_EPOCH).unwrap().as_nanos() as i128
}

fn s(x: &str) -> String {
    x.to_string()
}

fn float_number(x: f64) -> Number {
    if x == 0.0 {
        return Number::Float { mantissa: 0, exponent: 0 };
    }
    let bits = x.to_bits();
    let sign: i64 = if bits >> 63 == 1 { -1 } else { 1 };
    let exp = ((bits >> 52) & 0x7ff) as i32;
    let frac = (bits & ((1u64 << 52) - 1)) as i64;
    if exp == 0 {
        Number::Float { mantissa: sign * frac, exponent: -1074 }
    } else {
        Number::Float { mantissa: sign * (frac | (1i64 << 52)), exponent: exp - 1075 }
    }
}

fn to_f64(n: &Number) -> f64 {
    match n {
        Number::PosInt(u) => *u as f64,
        Number::NegInt(i) => *i as f64,
        Number::Float { mantissa, exponent } => (*mantissa as f64) * 2f64.powi(*exponent),
    }
}

fn float(x: f64) -> JsonValue {
    JsonValue::Number(float_number(x))
}

fn integer(i: i64) -> JsonValue {
    if i >= 0 {
        JsonValue::Number(Number::PosInt(i as u64))
    } else {
        JsonValue::Number(Number::NegInt(i))
    }
}

fn lerp(a: Number, b: Number, elapsed: i64, total: i64) -> JsonValue {
    let ratio = (elapsed as f64 / total as f64).clamp(0.0, 1.0);
    let start = to_f64(&a);
    let end = to_f64(&b);
    float(start + (end - start) * ratio)
}

fn started_manager() -> NodeManager {
    let mut manager = NodeManager::new();
    manager.start(false, &lerp);
    manager
}

fn run(manager: &mut NodeManager, command: Command) -> CommandResult {
    manager.dispatch(command, false, &lerp)
}

fn expect_error(result: CommandResult, needle: &str) {
    match result {
        CommandResult::Error(err) => assert!(err.contains(needle), "expected error containing `{needle}`, got `{err}`"),
        other => panic!("expected error containing `{needle}`, got {other:?}"),
    }
}

fn source(id: &str, uri: &str, audio: bool, video: bool) -> Command {
    Command::CreateSource { id: s(id), uri: s(uri), audio, video }
}

fn destination(id: &str, audio: bool, video: bool) -> Command {
    Command::CreateDestination { id: s(id), family: DestinationFamily::LocalPlayback, audio, video }
}

fn connect(link: &str, src: &str, sink: &str, audio: bool, video: bool, config: Option<Table<JsonValue>>) -> Command {
    Command::Connect { link_id: s(link), src_id: s(src), sink_id: s(sink), audio, video, config }
}

#[test]
fn create_connect_and_get_info() {
    let mut manager = started_manager();

    assert!(matches!(run(&mut manager, source("source-1", "https://example.com/video.mp4", true, true)), CommandResult::Success));
    assert!(matches!(run(&mut manager, destination("dest-1", true, true)), CommandResult::Success));
    assert!(matches!(run(&mut manager, connect("link-1", "source-1", "dest-1", true, true, None)), CommandResult::Success));

    let result = run(&mut manager, Command::GetInfo { id: None });
    match result {
        CommandResult::Info(info) => {
            assert!(info.nodes.contains_key(&s("source-1")));
            assert!(info.nodes.contains_key(&s("dest-1")));
        },
        other => panic!("Expected info result, got {other:?}"),
    }
}

#[test]
fn create_video_generator_maps_to_compatible_source_info() {
    let mut manager = started_manager();
    assert!(matches!(run(&mut manager, Command::CreateVideoGenerator { id: s("gen-1") }), CommandResult::Success));

    let result = run(&mut manager, Command::GetInfo { id: Some(s("gen-1")) });
    match result {
        CommandResult::Info(info) => match info.nodes.get(&s("gen-1")) {
            Some(NodeInfo::Source(source)) => {
                assert_eq!(source.uri, "videogenerator://gen-1");
            },
            other => panic!("expected compatible source info, got {other:?}"),
        },
        other => panic!("expected info result, got {other:?}"),
    }
}

#[test]
fn create_commands_validate_flags_ids_and_config() {
    let mut manager = started_manager();

    expect_error(run(&mut manager, source("source-disabled", "https://example.com/video.mp4", false, false)), "must have either audio or video enabled");
    expect_error(run(&mut manager, destination("dest-disabled", false, false)), "must have either audio or video enabled");
    expect_error(
        run(&mut manager, Command::CreateMixer { id: s("mixer-disabled"), config: None, audio: false, video: false }),
        "must have either audio or video enabled",
    );

    assert!(matches!(run(&mut manager, source("dup-id", "https://example.com/video.mp4", true, true)), CommandResult::Success));
    expect_error(run(&mut manager, destination("dup-id", true, true)), "already exists with id dup-id");

    let mut config = Table::new();
    config.insert(s("bad"), integer(1));
    expect_error(
        run(&mut manager, Command::CreateMixer { id: s("mixer-invalid-config"), config: Some(config), audio: true, video: true }),
        "No setting with name bad",
    );
}

#[test]
fn connect_disconnect_validate_capabilities_and_link_ids() {
    let mut manager = started_manager();

    assert!(matches!(run(&mut manager, source("source-audio", "https://example.com/audio.mp3", true, false)), CommandResult::Success));
    assert!(matches!(run(&mut manager, destination("dest-video", false, true)), CommandResult::Success));
    assert!(matches!(run(&mut manager, destination("dest-audio", true, false)), CommandResult::Success));

    expect_error(run(&mut manager, connect("bad-link-media", "source-audio", "dest-video", true, false, None)), "capabilities do not match");
    expect_error(run(&mut manager, connect("missing-src", "missing", "dest-audio", true, false, None)), "No producer with id missing");
    expect_error(run(&mut manager, connect("missing-sink", "source-audio", "missing", true, false, None)), "No consumer with id missing");

    let mut link_config = Table::new();
    link_config.insert(s("audio::volume"), float(0.5));
    assert!(matches!(run(&mut manager, connect("link-1", "source-audio", "dest-audio", true, false, Some(link_config))), CommandResult::Success));
    let stored = manager.links.get(&s("link-1")).and_then(|link| link.config.as_ref()).unwrap();
    assert_eq!(stored.len(), 1);
    assert_eq!(stored.get(&s("audio::volume")), Some(&float(0.5)));

    expect_error(run(&mut manager, connect("link-1", "source-audio", "dest-audio", true, false, None)), "already exists with id link-1");

    assert!(matches!(run(&mut manager, Command::Disconnect { link_id: s("link-1") }), CommandResult::Success));
    expect_error(run(&mut manager, Command::Disconnect { link_id: s("link-1") }), "No link with id link-1");
}

#[test]
fn start_reschedule_and_remove_commands_work_for_nodes() {
    let mut manager = started_manager();
    assert!(matches!(run(&mut manager, source("source-1", "https://example.com/video.mp4", true, true)), CommandResult::Success));

    assert!(matches!(run(&mut manager, Command::Start { id: s("source-1"), cue_time: None, end_time: None }), CommandResult::Success));

    let cue = now_nanos() + 20 * SECOND;
    let end = cue + 5 * SECOND;
    assert!(matches!(
        run(&mut manager, Command::Reschedule { id: s("source-1"), cue_time: Some(cue), end_time: Some(end) }),
        CommandResult::Success
    ));

    assert!(matches!(run(&mut manager, Command::Remove { id: s("source-1") }), CommandResult::Success));
    expect_error(run(&mut manager, Command::Remove { id: s("source-1") }), "No node with id source-1");
}

#[test]
fn get_info_reports_missing_node_for_specific_id() {
    let mut manager = started_manager();
    expect_error(run(&mut manager, Command::GetInfo { id: Some(s("missing")) }), "No node with id missing");
}

#[test]
fn add_and_remove_control_point_supports_mixer_and_mixer_slots() {
    let mut manager = started_manager();

    assert!(matches!(run(&mut manager, source("source-1", "https://example.com/audio.mp3", true, false)), CommandResult::Success));
    assert!(matches!(
        run(&mut manager, Command::CreateMixer { id: s("mixer-1"), config: None, audio: true, video: false }),
        CommandResult::Success
    ));
    assert!(matches!(run(&mut manager, connect("slot-1", "source-1", "mixer-1", true, false, None)), CommandResult::Success));

    let mixer_cp = ControlPoint { id: s("cp-width"), time: now_nanos(), value: integer(1280), mode: ControlMode::Hold };
    assert!(matches!(
        run(&mut manager, Command::AddControlPoint { controllee_id: s("mixer-1"), property: s("width"), control_point: mixer_cp }),
        CommandResult::Success
    ));
    assert!(matches!(
        run(&mut manager, Command::RemoveControlPoint { id: s("cp-width"), controllee_id: s("mixer-1"), property: s("width") }),
        CommandResult::Success
    ));

    let slot_cp = ControlPoint { id: s("cp-slot"), time: now_nanos(), value: float(0.5), mode: ControlMode::Hold };
    assert!(matches!(
        run(&mut manager, Command::AddControlPoint { controllee_id: s("slot-1"), property: s("audio::volume"), control_point: slot_cp }),
        CommandResult::Success
    ));
    assert!(matches!(
        run(&mut manager, Command::RemoveControlPoint { id: s("cp-slot"), controllee_id: s("slot-1"), property: s("audio::volume") }),
        CommandResult::Success
    ));
}

#[test]
fn control_point_commands_return_errors_for_invalid_targets() {
    let mut manager = started_manager();

    assert!(matches!(run(&mut manager, source("source-1", "https://example.com/audio.mp3", true, false)), CommandResult::Success));
    assert!(matches!(run(&mut manager, destination("dest-1", true, false)), CommandResult::Success));
    assert!(matches!(run(&mut manager, connect("dest-link", "source-1", "dest-1", true, false, None)), CommandResult::Success));

    let cp = || ControlPoint { id: s("cp-1"), time: now_nanos(), value: float(0.5), mode: ControlMode::Hold };
    expect_error(
        run(&mut manager, Command::AddControlPoint { controllee_id: s("source-1"), property: s("width"), control_point: cp() }),
        "supported only for mixers",
    );
    expect_error(
        run(&mut manager, Command::AddControlPoint { controllee_id: s("dest-link"), property: s("audio::volume"), control_point: cp() }),
        "only supported for mixer links",
    );
    expect_error(
        run(&mut manager, Command::RemoveControlPoint { id: s("cp-1"), controllee_id: s("source-1"), property: s("width") }),
        "supported only for mixers",
    );
    expect_error(
        run(&mut manager, Command::RemoveControlPoint { id: s("cp-1"), controllee_id: s("missing"), property: s("width") }),
        "No node or slot with id missing",
    );
}

#[test]
fn shutdown_clears_runtime_state() {
    let mut manager = started_manager();
    assert!(matches!(run(&mut manager, source("source-1", "https://example.com/video.mp4", true, true)), CommandResult::Success));
    assert!(matches!(run(&mut manager, destination("dest-1", true, true)), CommandResult::Success));
    assert!(matches!(run(&mut manager, connect("link-1", "source-1", "dest-1", true, true, None)), CommandResult::Success));

    manager.shutdown();
    assert!(!manager.started);
    assert_eq!(manager.nodes.len(), 0);
    assert_eq!(manager.links.len(), 0);
    assert_eq!(manager.media_bridges.len(), 0);
}

#[test]
fn removing_a_node_disconnects_its_links() {
    let mut manager = started_manager();
    run(&mut manager, source("src", "file:///a.mp4", true, true));
    run(&mut manager, destination("dst", true, true));
    assert!(matches!(run(&mut manager, connect("l", "src", "dst", true, true, None)), CommandResult::Success));
    assert!(matches!(run(&mut manager, Command::Remove { id: s("dst") }), CommandResult::Success));
    assert_eq!(manager.links.len(), 0);
    match manager.nodes.get(&s("src")) {
        Some(NodeRecord::Source(node)) => {
            assert!(!node.audio_consumer_slot_ids.contains(&s("l")));
            assert!(!node.video_consumer_slot_ids.contains(&s("l")));
        },
        other => panic!("expected the source, got {other:?}"),
    }
}

#[test]
fn disconnect_after_connect_restores_links_and_consumers() {
    let mut manager = started_manager();
    run(&mut manager, source("src", "file:///a.mp4", true, false));
    run(&mut manager, destination("dst", true, false));
    assert!(matches!(run(&mut manager, connect("l", "src", "dst", true, false, None)), CommandResult::Success));
    match manager.nodes.get(&s("dst")) {
        Some(NodeRecord::Destination(node)) => assert_eq!(node.audio_slot_id.as_deref(), Some("l")),
        other => panic!("expected the destination, got {other:?}"),
    }
    assert!(matches!(run(&mut manager, Command::Disconnect { link_id: s("l") }), CommandResult::Success));
    assert_eq!(manager.links.len(), 0);
    match manager.nodes.get(&s("dst")) {
        Some(NodeRecord::Destination(node)) => assert!(node.audio_slot_id.is_none()),
        other => panic!("expected the destination, got {other:?}"),
    }
    match manager.nodes.get(&s("src")) {
        Some(NodeRecord::Source(node)) => assert!(!node.audio_consumer_slot_ids.contains(&s("l"))),
        other => panic!("expected the source, got {other:?}"),
    }
}

#[test]
fn refused_schedule_is_recorded_on_the_node() {
    let mut manager = started_manager();
    run(&mut manager, destination("dst", true, false));
    expect_error(run(&mut manager, Command::Start { id: s("dst"), cue_time: None, end_time: None }), "audio slot connected");
    match manager.nodes.get(&s("dst")) {
        Some(NodeRecord::Destination(node)) => {
            assert!(node.last_error.as_deref().unwrap().contains("audio slot connected"));
            assert!(node.cue_time.is_none());
            assert!(node.pipeline.is_none());
        },
        other => panic!("expected the destination, got {other:?}"),
    }
}

#[test]
fn bridges_follow_live_consumers_when_media_is_ready() {
    let mut manager = started_manager();
    run(&mut manager, source("src", "file:///a.mp4", true, true));
    run(&mut manager, destination("dst", true, true));
    run(&mut manager, connect("l", "src", "dst", true, true, None));
    manager.sync_media_links(true);
    assert_eq!(manager.media_bridges.len(), 0);
    if let Some(NodeRecord::Destination(node)) = manager.nodes.remove(&s("dst")) {
        let mut node = node;
        node.attach_live_pipeline();
        manager.nodes.insert(s("dst"), NodeRecord::Destination(node));
    }
    manager.sync_media_links(true);
    assert!(manager.media_bridges.get(&s("src:audio")).unwrap().contains(&s("l")));
    assert!(manager.media_bridges.get(&s("src:video")).unwrap().contains(&s("l")));
    run(&mut manager, Command::Disconnect { link_id: s("l") });
    assert_eq!(manager.media_bridges.len(), 0);
}

fn node_of<'a>(manager: &'a NodeManager, id: &str) -> &'a NodeRecord {
    manager.nodes.get(&s(id)).unwrap()
}

#[test]
fn media_reports_reach_the_node_they_name() {
    let mut manager = NodeManager::new();
    manager.create_video_generator(s("gen"));
    assert!(manager.report_media(&s("gen"), MediaEvent::Attached));
    match node_of(&manager, "gen") {
        NodeRecord::VideoGenerator(g) => assert!(g.live_pipeline),
        other => panic!("expected a video generator, got {other:?}"),
    }
    assert!(manager.report_media(&s("gen"), MediaEvent::Refused(s("could not pause"))));
    match node_of(&manager, "gen") {
        NodeRecord::VideoGenerator(g) => {
            assert!(g.live_pipeline);
            assert_eq!(g.last_error, Some(s("could not pause")));
        }
        other => panic!("expected a video generator, got {other:?}"),
    }
    assert!(manager.report_media(&s("gen"), MediaEvent::Failed(s("broken"))));
    match node_of(&manager, "gen") {
        NodeRecord::VideoGenerator(g) => {
            assert!(!g.live_pipeline);
            assert_eq!(g.state, android_sender::protocol::State::Stopped);
            assert_eq!(g.last_error, Some(s("broken")));
        }
        other => panic!("expected a video generator, got {other:?}"),
    }
    assert!(!manager.report_media(&s("missing"), MediaEvent::Ended));
    assert_eq!(node_of(&manager, "gen").live_step(&Vec::new(), false), LiveStep::Teardown);
    assert_eq!(node_of(&manager, "gen").live_plan().name, "migration-videogen-gen");
}

#[test]
fn removing_a_producer_releases_its_consumers_inputs() {
    let mut manager = started_manager();
    run(&mut manager, source("src", "file:///a.mp4", true, true));
    run(&mut manager, destination("dst", true, true));
    run(&mut manager, source("other", "file:///b.mp4", true, true));
    assert!(matches!(run(&mut manager, connect("l", "src", "dst", true, true, None)), CommandResult::Success));
    assert!(matches!(run(&mut manager, Command::Remove { id: s("src") }), CommandResult::Success));
    assert_eq!(manager.links.len(), 0);
    assert_eq!(manager.nodes.len(), 2);
    match manager.nodes.get(&s("dst")) {
        Some(NodeRecord::Destination(node)) => {
            assert_eq!(node.audio_slot_id, None);
            assert_eq!(node.video_slot_id, None);
        },
        other => panic!("expected the destination, got {other:?}"),
    }
}

#[test]
fn a_refused_start_stops_the_node_and_answers_the_refusal() {
    let mut manager = started_manager();
    assert!(matches!(run(&mut manager, Command::CreateVideoGenerator { id: s("gen") }), CommandResult::Success));
    let start = Command::Start { id: s("gen"), cue_time: None, end_time: None };
    assert_eq!(scheduled_node(&start), Some(s("gen")));
    let answer = run(&mut manager, start);
    assert!(matches!(answer, CommandResult::Success));
    manager.report_media(&s("gen"), MediaEvent::Attached);
    let answer = manager.settle_scheduled(&s("gen"), Err(s("no encoder")), answer);
    expect_error(answer, "no encoder");
    match node_of(&manager, "gen") {
        NodeRecord::VideoGenerator(g) => {
            assert!(!g.live_pipeline);
            assert_eq!(g.state, android_sender::protocol::State::Stopped);
            assert_eq!(g.pipeline.stage, android_sender::nodes::video_generator::VideoGeneratorStage::Idle);
            assert_eq!(g.last_error, Some(s("no encoder")));
        }
        other => panic!("expected a video generator, got {other:?}"),
    }
    assert_eq!(node_of(&manager, "gen").live_step(&Vec::new(), false), LiveStep::Teardown);
}

#[test]
fn a_start_brought_up_keeps_its_answer() {
    let mut manager = started_manager();
    run(&mut manager, Command::CreateVideoGenerator { id: s("gen") });
    let answer = run(&mut manager, Command::Start { id: s("gen"), cue_time: None, end_time: None });
    let answer = manager.settle_scheduled(&s("gen"), Ok(()), answer);
    assert!(matches!(answer, CommandResult::Success));
    match node_of(&manager, "gen") {
        NodeRecord::VideoGenerator(g) => assert_eq!(g.state, android_sender::protocol::State::Started),
        other => panic!("expected a video generator, got {other:?}"),
    }
    assert_eq!(scheduled_node(&Command::Remove { id: s("gen") }), None);
    assert_eq!(
        scheduled_node(&Command::Reschedule { id: s("gen"), cue_time: None, end_time: None }),
        Some(s("gen"))
    );
}

#[test]
fn a_tick_brings_bridges_in_line_only_when_media_is_ready() {
    let mut manager = started_manager();
    run(&mut manager, source("src", "file:///a.mp4", true, true));
    run(&mut manager, destination("dst", true, true));
    run(&mut manager, connect("l", "src", "dst", true, true, None));
    assert!(manager.report_media(&s("dst"), MediaEvent::Attached));
    manager.tick(false, &lerp);
    assert_eq!(manager.media_bridges.len(), 0);
    manager.tick(true, &lerp);
    assert!(manager.media_bridges.get(&s("src:audio")).unwrap().contains(&s("l")));
    assert!(manager.media_bridges.get(&s("src:video")).unwrap().contains(&s("l")));
}
