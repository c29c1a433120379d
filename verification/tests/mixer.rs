use android_sender::nodes::mixer::{parse_slot_config_key, MixerNode, MixerPipelineStage};
use android_sender::protocol::{ControlMode, ControlPoint, NodeInfo, State};
use android_sender::table::Table;
use android_sender::value::{JsonValue, Number};
use std::time::{SystemTime, UNIX_EPOCH};

const SECOND: i128 = 1_000_000_000;

fn now_nanos() -> i128 {
    SystemTime::now().duration_since(UNIX_EPOCH).unwrap().as_nanos() as i128
}

fn s(x: &str) -> String {
    x.to_string()
}

fn float_number(x: f64) -> Number {
    if x == 0.0 {
        return Number::Float { mantissa: 0, exponent: 0 };
    }
    let bits = x.to_bits();
    let sign: i64 = if bits >> 63 == 1 { -1 } else { 1 };
    let exp = ((bits >> 52) & 0x7ff) as i32;
    let frac = (bits & ((1u64 << 52) - 1)) as i64;
    if exp == 0 {
        Number::Float { mantissa: sign * frac, exponent: -1074 }
    } else {
        Number::Float { mantissa: sign * (frac | (1i64 << 52)), exponent: exp - 1075 }
    }
}

fn to_f64(n: &Number) -> f64 {
    match n {
        Number::PosInt(u) => *u as f64,
        Number::NegInt(i) => *i as f64,
        Number::Float { mantissa, exponent } => (*mantissa as f64) * 2f64.powi(*exponent),
    }
}

fn float(x: f64) -> JsonValue {
    JsonValue::Number(float_number(x))
}

fn integer(i: i64) -> JsonValue {
    if i >= 0 {
        JsonValue::Number(Number::PosInt(i as u64))
    } else {
        JsonValue::Number(Number::NegInt(i))
    }
}

fn lerp(a: Number, b: Number, elapsed: i64, total: i64) -> JsonValue {
    let ratio = (elapsed as f64 / total as f64).clamp(0.0, 1.0);
    let start = to_f64(&a);
    let end = to_f64(&b);
    float(start + (end - start) * ratio)
}

fn table(entries: Vec<(&str, JsonValue)>) -> Table<JsonValue> {
    let mut t = Table::new();
    for (k, v) in entries {
        t.insert(s(k), v);
    }
    t
}

#[test]
fn mixer_schedule_without_gstreamer_init_or_runtime_available_is_handled() {
    let mut node = MixerNode::new(s("mixer-test"), None, false, true).unwrap();
    node.connect_input_slot(&s("slot-video"), false, true, None).unwrap();

    if node.schedule(None, None, &lerp).is_ok() {
        assert_eq!(node.state, State::Started);
        node.stop();
    } else {
        assert_eq!(node.state, State::Stopped);
        assert_eq!(node.pipeline.stage, MixerPipelineStage::Idle);
    }
    assert!(!node.live_pipeline);

    let cue = now_nanos() + 20 * SECOND;
    if node.schedule(Some(cue), None, &lerp).is_ok() {
        assert_eq!(node.state, State::Initial);
        node.stop();
    } else {
        assert_eq!(node.state, State::Stopped);
        assert_eq!(node.pipeline.stage, MixerPipelineStage::Idle);
    }
    assert!(!node.live_pipeline);
}

#[test]
fn new_rejects_invalid_setting_types() {
    let config = table(vec![("width", JsonValue::Text(s("wide")))]);
    let err = MixerNode::new(s("mixer-test"), Some(config), true, true).unwrap_err();
    assert!(err.contains("expects a numeric value"));
}

#[test]
fn connect_input_slot_applies_defaults_and_custom_values() {
    let mut node = MixerNode::new(s("mixer-test"), None, true, true).unwrap();
    let slot_config = table(vec![("video::x", integer(20)), ("audio::volume", float(0.4))]);

    node.connect_input_slot(&s("slot-1"), true, true, Some(slot_config)).unwrap();

    let slot = node.slots.get(&s("slot-1")).unwrap();
    assert!((to_f64(&slot.volume) - 0.4).abs() < 0.0001);

    let settings = node.slot_settings.get(&s("slot-1")).unwrap();
    assert_eq!(settings.get(&s("video::x")), Some(&integer(20)));
    assert_eq!(settings.get(&s("audio::volume")), Some(&float(0.4)));
    assert!(settings.contains_key(&s("video::width")));
    assert!(settings.contains_key(&s("video::height")));
}

#[test]
fn connect_input_slot_validates_slot_config_keys_and_media() {
    let mut node = MixerNode::new(s("mixer-test"), None, true, true).unwrap();

    let bad_format = table(vec![("x", integer(10))]);
    let err = node.connect_input_slot(&s("slot-1"), true, true, Some(bad_format)).unwrap_err();
    assert!(err.contains("must be in form media-type::property-name"));

    let bad_media = table(vec![("video::x", integer(10))]);
    let err = node.connect_input_slot(&s("slot-2"), true, false, Some(bad_media)).unwrap_err();
    assert!(err.contains("video is not enabled"));

    let bad_value = table(vec![("audio::volume", JsonValue::Text(s("loud")))]);
    let err = node.connect_input_slot(&s("slot-3"), true, false, Some(bad_value)).unwrap_err();
    assert!(err.contains("expects a numeric value"));
}

#[test]
fn add_and_remove_control_point_updates_mixer_setting() {
    let mut node = MixerNode::new(s("mixer-test"), None, true, true).unwrap();
    let cp = ControlPoint { id: s("cp-width"), time: now_nanos() - SECOND, value: integer(1280), mode: ControlMode::Hold };

    node.add_control_point(&s("width"), cp, &lerp).unwrap();
    assert_eq!(node.settings.get(&s("width")), Some(&integer(1280)));
    assert_eq!(node.control_points.get(&s("width")).map(Vec::len), Some(1));

    node.remove_control_point(&s("cp-width"), &s("width"), &lerp);
    assert_eq!(node.control_points.get(&s("width")).map(Vec::len), Some(0));
}

#[test]
fn add_control_point_rejects_unknown_property() {
    let mut node = MixerNode::new(s("mixer-test"), None, true, true).unwrap();
    let cp = ControlPoint { id: s("cp-unknown"), time: now_nanos(), value: integer(1), mode: ControlMode::Hold };

    let err = node.add_control_point(&s("not-a-setting"), cp, &lerp).unwrap_err();
    assert!(err.contains("has no setting"));
}

#[test]
fn slot_control_points_update_slot_volume_and_can_be_removed() {
    let mut node = MixerNode::new(s("mixer-test"), None, true, false).unwrap();
    node.connect_input_slot(&s("slot-1"), true, false, None).unwrap();

    let cp = ControlPoint { id: s("cp-vol"), time: now_nanos() - SECOND, value: float(0.2), mode: ControlMode::Hold };
    node.add_slot_control_point(&s("slot-1"), &s("audio::volume"), cp, &lerp).unwrap();

    let slot = node.slots.get(&s("slot-1")).unwrap();
    assert!((to_f64(&slot.volume) - 0.2).abs() < 0.0001);
    assert_eq!(
        node.slot_control_points.get(&s("slot-1")).and_then(|entry| entry.get(&s("audio::volume"))).map(Vec::len),
        Some(1)
    );

    node.remove_slot_control_point(&s("cp-vol"), &s("slot-1"), &s("audio::volume"), &lerp);
    assert_eq!(
        node.slot_control_points.get(&s("slot-1")).and_then(|entry| entry.get(&s("audio::volume"))).map(Vec::len),
        Some(0)
    );
}

#[test]
fn output_consumer_bookkeeping_tracks_links() {
    let mut node = MixerNode::new(s("mixer-test"), None, true, true).unwrap();
    node.connect_output_consumer(&s("out-av"), true, true);
    node.connect_output_consumer(&s("out-a"), true, false);

    assert!(node.audio_consumer_slot_ids.contains(&s("out-av")));
    assert!(node.audio_consumer_slot_ids.contains(&s("out-a")));
    assert!(node.video_consumer_slot_ids.contains(&s("out-av")));

    node.disconnect_output_consumer(&s("out-av"));
    assert!(!node.audio_consumer_slot_ids.contains(&s("out-av")));
    assert!(!node.video_consumer_slot_ids.contains(&s("out-av")));
}

#[test]
fn disconnect_input_slot_removes_slot_models() {
    let mut node = MixerNode::new(s("mixer-test"), None, true, true).unwrap();
    node.connect_input_slot(&s("slot-1"), true, true, None).unwrap();
    assert!(node.slots.contains_key(&s("slot-1")));
    assert!(node.slot_settings.contains_key(&s("slot-1")));
    assert!(node.slot_control_points.contains_key(&s("slot-1")));

    node.disconnect_input_slot(&s("slot-1"));
    assert!(!node.slots.contains_key(&s("slot-1")));
    assert!(!node.slot_settings.contains_key(&s("slot-1")));
    assert!(!node.slot_control_points.contains_key(&s("slot-1")));
}

#[test]
fn as_info_contains_mixer_slots_and_control_maps() {
    let mut node = MixerNode::new(s("mixer-test"), None, true, true).unwrap();
    node.connect_input_slot(&s("slot-1"), true, true, None).unwrap();
    node.connect_output_consumer(&s("out-1"), true, true);
    node.state = State::Started;

    let info = node.as_info();
    match info {
        NodeInfo::Mixer(mixer) => {
            assert_eq!(mixer.state, State::Started);
            assert!(mixer.slots.contains_key(&s("slot-1")));
            assert!(mixer.slot_settings.contains_key(&s("slot-1")));
            assert!(mixer.audio_consumer_slot_ids.unwrap_or_default().contains(&s("out-1")));
        },
        other => panic!("expected mixer info, got {other:?}"),
    }
}

#[test]
fn new_mixer_has_default_settings_and_profile() {
    let node = MixerNode::new(s("m"), Some(table(vec![("height", integer(720))])), true, false).unwrap();
    assert_eq!(node.settings.get(&s("width")), Some(&integer(1920)));
    assert_eq!(node.settings.get(&s("height")), Some(&integer(720)));
    assert_eq!(node.settings.get(&s("sample-rate")), Some(&integer(48000)));
    assert_eq!(node.settings.get(&s("fallback-timeout")), Some(&integer(500)));
    assert_eq!(node.settings.get(&s("fallback-image")), Some(&JsonValue::Text(s(""))));
    assert_eq!(node.pipeline.height, 720);
    assert_eq!(node.pipeline.width, 1920);
    assert!(node.pipeline.video_branch_elements.is_empty());
    assert_eq!(node.pipeline.audio_branch_elements, vec![s("audiomixer"), s("audioconvert"), s("audioresample"), s("appsink")]);
    let err = MixerNode::new(s("m"), Some(table(vec![("bad", integer(1))])), true, true).unwrap_err();
    assert_eq!(err, "No setting with name bad on mixers");
    let err = MixerNode::new(s("m"), Some(table(vec![("fallback-image", integer(1))])), true, true).unwrap_err();
    assert_eq!(err, "Setting `fallback-image` expects a string value");
}

#[test]
fn slot_keys_split_at_the_first_separator() {
    assert_eq!(parse_slot_config_key(&s("video::x")).unwrap(), (true, s("x")));
    assert_eq!(parse_slot_config_key(&s("audio::a::b")).unwrap(), (false, s("a::b")));
    assert_eq!(parse_slot_config_key(&s("text::x")).unwrap_err(), "Slot property media type must be one of [audio, video]");
    assert_eq!(parse_slot_config_key(&s("video:x")).unwrap_err(), "Slot property name must be in form media-type::property-name");
}

#[test]
fn interpolated_width_moves_with_time_and_profile_follows_on_schedule() {
    let mut node = MixerNode::new(s("m"), None, false, true).unwrap();
    let start = 10_000 * SECOND;
    let a = ControlPoint { id: s("a"), time: start, value: integer(1000), mode: ControlMode::Interpolate };
    let b = ControlPoint { id: s("b"), time: start + 10 * SECOND, value: integer(2000), mode: ControlMode::Hold };
    node.add_control_point_at(&s("width"), b, start, &lerp).unwrap();
    node.add_control_point_at(&s("width"), a, start, &lerp).unwrap();
    assert_eq!(node.control_points.get(&s("width")).unwrap()[0].id, "a");
    node.refresh_at(start + 5 * SECOND, &lerp);
    match node.settings.get(&s("width")) {
        Some(JsonValue::Number(n)) => assert!((to_f64(n) - 1500.0).abs() < 0.001),
        other => panic!("expected a number, got {other:?}"),
    }
    node.schedule_at(None, None, start + 5 * SECOND, &lerp);
    assert_eq!(node.pipeline.width, 1500);
    assert_eq!(node.state, State::Started);
    assert_eq!(node.pipeline.stage, MixerPipelineStage::Playing);
}
