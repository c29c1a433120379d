use android_sender::nodes::destination::DestinationNode;
use android_sender::nodes::mixer::MixerNode;
use android_sender::nodes::mixer_pads::{
    pad_value, property_candidates, slot_pad_settings, trim_prefix_all, PadValue, PadValueKind,
};
use android_sender::nodes::source::SourceNode;
use android_sender::nodes::source_plan::pad_media;
use android_sender::nodes::video_generator::VideoGeneratorNode;
use android_sender::pipeline::{ElementKind, LiveStep, PadRef, PipelinePlan, PropValue, Role};
use android_sender::protocol::DestinationFamily;
use android_sender::table::Table;
use android_sender::value::{JsonValue, Number};

fn s(x: &str) -> String {
    x.to_string()
}

fn keys(plan: &PipelinePlan) -> Vec<&str> {
    plan.elements.iter().map(|e| e.key.as_str()).collect()
}

fn prop_of<'a>(plan: &'a PipelinePlan, target: &str, name: &str) -> Option<&'a PropValue<String>> {
    plan.props.iter().find(|p| p.target == target && p.name == name).map(|p| &p.value)
}

fn links(plan: &PipelinePlan) -> Vec<(&str, &str)> {
    plan.links.iter().map(|l| (l.from.as_str(), l.to.as_str())).collect()
}

#[test]
fn rtmp_destination_plan_muxes_both_media_into_the_stream() {
    let node = DestinationNode::new(s("out"), DestinationFamily::Rtmp { uri: s("rtmp://host/live") }, true, true);
    let plan = node.live_plan();
    assert_eq!(plan.name, "migration-destination-out");
    assert_eq!(
        keys(&plan),
        vec![
            "video-src",
            "audio-src",
            "mux",
            "mux-queue",
            "sink",
            "video-convert",
            "timecodestamper",
            "timeoverlay",
            "video-encoder",
            "video-parse",
            "video-queue",
            "audio-convert",
            "audio-resample",
            "audio-encoder",
            "audio-queue",
        ]
    );
    assert_eq!(plan.elements[0].name, Some(s("destination-video-appsrc-out")));
    assert_eq!(plan.elements[0].role, Role::VideoInput);
    assert_eq!(plan.elements[8].kind, ElementKind::VideoEncoder);
    assert_eq!(plan.elements[8].name, Some(s("destination-venc-out")));
    assert_eq!(prop_of(&plan, "sink", "location"), Some(&PropValue::Text(s("rtmp://host/live"))));
    assert_eq!(prop_of(&plan, "mux", "latency"), Some(&PropValue::UInt64(1_000_000_000)));
    assert_eq!(plan.links.last().map(|l| l.label.as_str()), Some("rtmp audio chain"));
    assert_eq!(links(&plan)[0], ("mux", "mux-queue"));
}

#[test]
fn udp_destination_plan_links_the_muxer_to_the_sink_last() {
    let node = DestinationNode::new(s("udp"), DestinationFamily::Udp { host: s("10.0.0.2") }, false, true);
    let plan = node.live_plan();
    assert_eq!(keys(&plan), vec!["video-src", "mux", "sink", "video-convert", "video-encoder", "video-parse"]);
    assert_eq!(prop_of(&plan, "sink", "host"), Some(&PropValue::Text(s("10.0.0.2"))));
    assert_eq!(prop_of(&plan, "sink", "port"), Some(&PropValue::Int(5005)));
    assert_eq!(links(&plan).last(), Some(&("mux", "sink")));
}

#[test]
fn local_file_destination_plan_splits_files_only_with_a_maximum() {
    let split = DestinationNode::new(
        s("file"),
        DestinationFamily::LocalFile { base_name: s("capture"), max_size_time: Some(5_000) },
        true,
        false,
    );
    let plan = split.live_plan();
    assert_eq!(prop_of(&plan, "sink", "max-size-time"), Some(&PropValue::UInt64(5_000_000_000)));
    assert_eq!(prop_of(&plan, "sink", "location"), Some(&PropValue::Text(s("capture%05d.mp4"))));
    let last = plan.links.last().unwrap();
    assert_eq!(last.from_pad, PadRef::Named(s("src_1")));
    assert_eq!(last.to_pad, PadRef::Named(s("audio_0")));

    let single = DestinationNode::new(
        s("file"),
        DestinationFamily::LocalFile { base_name: s("capture"), max_size_time: None },
        true,
        false,
    );
    let plan = single.live_plan();
    assert_eq!(prop_of(&plan, "sink", "max-size-time"), None);
    assert_eq!(prop_of(&plan, "sink", "location"), Some(&PropValue::Text(s("capture.mp4"))));
}

#[test]
fn local_playback_plan_ends_in_local_sinks() {
    let node = DestinationNode::new(s("play"), DestinationFamily::LocalPlayback, true, false);
    let plan = node.live_plan();
    assert_eq!(keys(&plan), vec!["audio-src", "audio-queue", "audio-convert", "audio-resample", "audio-sink"]);
    assert_eq!(plan.elements[4].kind, ElementKind::LocalAudioSink);
    assert_eq!(plan.elements[4].name, Some(s("destination-audio-sink-play")));
}

#[test]
fn mixer_plan_adds_a_branch_per_medium_of_each_slot() {
    let mut config = Table::new();
    config.insert(s("width"), JsonValue::Number(Number::PosInt(1280)));
    config.insert(s("height"), JsonValue::Number(Number::PosInt(720)));
    let mut node = MixerNode::new(s("mix"), Some(config), true, true).unwrap();
    node.connect_input_slot(&s("cam"), true, true, None).unwrap();
    let plan = node.live_plan();
    assert_eq!(plan.name, "migration-mixer-mix");
    assert_eq!(prop_of(&plan, "video-caps", "caps"), Some(&PropValue::VideoCaps { width: 1280, height: 720 }));
    assert_eq!(prop_of(&plan, "audio-caps", "caps"), Some(&PropValue::AudioCaps { rate: 48000 }));
    let k = keys(&plan);
    assert!(k.contains(&"slot-video-src-cam"));
    assert!(k.contains(&"slot-audio-caps-cam"));
    let slot_links: Vec<_> = plan.links.iter().filter(|l| l.slot.is_some()).collect();
    assert_eq!(slot_links.len(), 2);
    assert_eq!(slot_links[0].to, "video-mixer");
    assert_eq!(slot_links[0].label, "video slot `cam` to mixer");
    let base_audio = plan.links.iter().find(|l| l.from == "audio-base-queue").unwrap();
    assert!(base_audio.mute);
}

#[test]
fn mixer_sizes_cut_settings_to_32_bits() {
    let mut config = Table::new();
    config.insert(s("width"), JsonValue::Number(Number::Float { mantissa: 5, exponent: -1 }));
    config.insert(s("sample-rate"), JsonValue::Number(Number::PosInt(4_294_967_296 + 44_100)));
    let node = MixerNode::new(s("mix"), Some(config), true, true).unwrap();
    assert_eq!(node.current_width(), 2);
    assert_eq!(node.current_height(), 1080);
    assert_eq!(node.current_sample_rate(), 44_100);
}

#[test]
fn slot_pad_settings_strip_the_medium_and_skip_sizing_policy() {
    let mut settings = Table::new();
    settings.insert(s("video::xpos"), JsonValue::Number(Number::PosInt(10)));
    settings.insert(s("video::sizing-policy"), JsonValue::Text(s("keep-aspect-ratio")));
    settings.insert(s("audio::volume"), JsonValue::Number(Number::PosInt(1)));
    settings.insert(s("video::video::alpha"), JsonValue::Number(Number::PosInt(1)));
    let video = slot_pad_settings(&settings, true);
    let names: Vec<&str> = video.iter().map(|(n, _)| n.as_str()).collect();
    assert_eq!(names, vec!["xpos", "alpha"]);
    let audio = slot_pad_settings(&settings, false);
    assert_eq!(audio.len(), 1);
    assert_eq!(audio[0].0, "volume");
    assert_eq!(trim_prefix_all("audio::audio::x", "audio::"), "x");
}

#[test]
fn video_pad_positions_go_by_either_name() {
    assert_eq!(property_candidates(&s("x"), true), vec![s("x"), s("xpos")]);
    assert_eq!(property_candidates(&s("ypos"), true), vec![s("ypos"), s("y")]);
    assert_eq!(property_candidates(&s("x"), false), vec![s("x")]);
    assert_eq!(property_candidates(&s("alpha"), true), vec![s("alpha")]);
}

#[test]
fn pad_values_follow_the_property_type() {
    let p = s("zorder");
    let num = |n: Number| JsonValue::Number(n);
    assert_eq!(pad_value(&PadValueKind::UInt32, &p, &num(Number::PosInt(2))), Ok(PadValue::UInt32(2)));
    assert_eq!(
        pad_value(&PadValueKind::UInt32, &p, &num(Number::NegInt(-2))),
        Err(s("zorder expects an unsigned numeric value"))
    );
    assert_eq!(
        pad_value(&PadValueKind::UInt32, &p, &num(Number::PosInt(1 << 40))),
        Err(s("zorder is out of u32 range"))
    );
    assert_eq!(
        pad_value(&PadValueKind::Int32, &p, &num(Number::Float { mantissa: 7, exponent: -1 })),
        Ok(PadValue::Int32(3))
    );
    assert_eq!(
        pad_value(&PadValueKind::Int32, &p, &num(Number::NegInt(-(1 << 40)))),
        Err(s("zorder is out of i32 range"))
    );
    assert_eq!(pad_value(&PadValueKind::Int64, &p, &JsonValue::Null), Err(s("zorder expects a numeric value")));
    assert_eq!(
        pad_value(&PadValueKind::UInt64, &p, &num(Number::Float { mantissa: 3, exponent: 70 })),
        Ok(PadValue::UInt64(u64::MAX))
    );
    assert_eq!(pad_value(&PadValueKind::Bool, &p, &JsonValue::Bool(true)), Ok(PadValue::Bool(true)));
    assert_eq!(pad_value(&PadValueKind::Bool, &p, &num(Number::PosInt(1))), Err(s("zorder expects a boolean value")));
    assert_eq!(pad_value(&PadValueKind::Text, &p, &JsonValue::Null), Err(s("zorder expects a string value")));
    assert_eq!(
        pad_value(&PadValueKind::Choice, &p, &JsonValue::Text(s("keep-aspect-ratio"))),
        Ok(PadValue::Nick(s("keep-aspect-ratio")))
    );
    assert_eq!(
        pad_value(&PadValueKind::Choice, &p, &num(Number::PosInt(1))),
        Err(s("zorder expects a string enum/flag value"))
    );
    assert_eq!(
        pad_value(&PadValueKind::Float64, &s("alpha"), &num(Number::PosInt(1))),
        Ok(PadValue::Float64(Number::PosInt(1)))
    );
    assert_eq!(
        pad_value(&PadValueKind::Unsupported { value_type: s("GstCaps"), pad: s("sink_1") }, &p, &num(Number::PosInt(1))),
        Err(s("Unsupported value type `GstCaps` for pad property `zorder` on `sink_1`"))
    );
}

#[test]
fn source_pads_are_told_apart_by_caps_then_name() {
    assert_eq!(pad_media(Some("video/x-raw"), "src_0"), Some(true));
    assert_eq!(pad_media(Some("audio/x-raw"), "video_0"), Some(false));
    assert_eq!(pad_media(Some("text/x-raw"), "audio_1"), Some(false));
    assert_eq!(pad_media(None, "video_1"), Some(true));
    assert_eq!(pad_media(Some("text/x-raw"), "src_2"), None);
}

#[test]
fn source_plan_reads_through_fallbacksrc_or_uridecodebin() {
    let node = SourceNode::new(s("cam"), s("file:///a.mp4"), true, false);
    let plan = node.live_plan();
    assert_eq!(plan.name, "migration-source-cam");
    assert_eq!(
        plan.elements[0].kind,
        ElementKind::Either {
            first: s("fallbacksrc"),
            first_name: s("source-fallbacksrc-cam"),
            second: s("uridecodebin"),
            second_name: s("source-uridecodebin-cam"),
        }
    );
    assert_eq!(keys(&plan), vec!["source", "audio-out"]);
    assert_eq!(plan.elements[1].name, Some(s("source-audio-appsink-cam")));
    assert_eq!(prop_of(&plan, "source", "enable-video"), Some(&PropValue::Bool(false)));
}

#[test]
fn video_generator_plan_draws_its_pattern() {
    let node = VideoGeneratorNode::new(s("gen"));
    let plan = node.live_plan();
    assert_eq!(keys(&plan), vec!["source", "deinterlace", "video-out"]);
    assert_eq!(prop_of(&plan, "source", "pattern"), Some(&PropValue::Nick(s("ball"))));
    assert_eq!(links(&plan), vec![("source", "deinterlace"), ("deinterlace", "video-out")]);
}

#[test]
fn idle_nodes_have_no_live_pipeline() {
    let destination = DestinationNode::new(s("d"), DestinationFamily::LocalPlayback, true, true);
    assert_eq!(destination.live_step(), LiveStep::Teardown);
    let source = SourceNode::new(s("src"), s("file:///a.mp4"), true, true);
    assert_eq!(source.live_step(true), LiveStep::Teardown);
    let generator = VideoGeneratorNode::new(s("gen"));
    assert_eq!(generator.live_step(), LiveStep::Teardown);
    let mixer = MixerNode::new(s("m"), None, true, true).unwrap();
    assert_eq!(mixer.live_step(&Vec::new()), LiveStep::Teardown);
}

#[test]
fn mixer_rebuilds_when_its_live_slots_differ() {
    let mut mixer = MixerNode::new(s("m"), None, false, true).unwrap();
    mixer.connect_input_slot(&s("a"), false, true, None).unwrap();
    mixer.attach_live_pipeline();
    assert!(mixer.live_slots_match(&vec![s("a")]));
    assert!(!mixer.live_slots_match(&vec![s("b")]));
    assert!(!mixer.live_slots_match(&Vec::new()));
}

#[test]
fn a_playing_destination_builds_its_pipeline_once() {
    let mut node = DestinationNode::new(s("d"), DestinationFamily::LocalPlayback, false, true);
    node.connect_input(&s("link"), false, true).unwrap();
    node.schedule(None, None).unwrap();
    assert_eq!(node.live_step(), LiveStep::Run { build: true, playing: true });
    node.attach_live_pipeline();
    assert_eq!(node.live_step(), LiveStep::Run { build: false, playing: true });
    node.pipeline_ended();
    assert_eq!(node.live_step(), LiveStep::Teardown);
}

#[test]
fn a_prerolling_source_plays_only_behind_fallbacksrc() {
    let mut node = SourceNode::new(s("src"), s("file:///a.mp4"), true, true);
    let cue = std::time::SystemTime::now().duration_since(std::time::UNIX_EPOCH).unwrap().as_nanos() as i128
        + 5_000_000;
    node.schedule(Some(cue), None).unwrap();
    assert_eq!(node.live_step(false), LiveStep::Run { build: true, playing: false });
    assert_eq!(node.live_step(true), LiveStep::Run { build: true, playing: true });
}
