use android_sender::messages::{
    CommandMessage, ConsumerMessage, MessageResult, NodeStatusMessage, ScheduleMessage, StartMessage,
};
use android_sender::protocol::{
    Command, CommandResult, ControlMode, ControlPoint, MixerInfo, MixerSlotInfo, NodeInfo, State,
};
use android_sender::table::Table;
use android_sender::value::{JsonValue, Number};
use std::time::{SystemTime, UNIX_EPOCH};

const SECOND: i128 = 1_000_000_000;

fn now_nanos() -> i128 {
    SystemTime::now().duration_since(UNIX_EPOCH).unwrap().as_nanos() as i128
}

/// The exact binary value of a finite float, as mantissa and power of two.
fn float_number(x: f64) -> Number {
    if x == 0.0 {
        return Number::Float { mantissa: 0, exponent: 0 };
    }
    let bits = x.to_bits();
    let sign: i64 = if bits >> 63 == 1 { -1 } else { 1 };
    let exp = ((bits >> 52) & 0x7ff) as i32;
    let frac = (bits & ((1u64 << 52) - 1)) as i64;
    if exp == 0 {
        Number::Float { mantissa: sign * frac, exponent: -1074 }
    } else {
        Number::Float { mantissa: sign * (frac | (1i64 << 52)), exponent: exp - 1075 }
    }
}

fn sample_control_point() -> ControlPoint {
    ControlPoint {
        id: "cp-1".to_string(),
        time: now_nanos(),
        value: JsonValue::Number(float_number(0.75)),
        mode: ControlMode::Hold,
    }
}

#[test]
fn start_and_schedule_messages_store_times() {
    let cue = Some(now_nanos());
    let end = cue.map(|t| t + 10 * SECOND);

    let start = StartMessage { cue_time: cue, end_time: end };
    let schedule = ScheduleMessage { cue_time: cue, end_time: end };

    assert_eq!(start.cue_time, schedule.cue_time);
    assert_eq!(start.end_time, schedule.end_time);
}

#[test]
fn node_status_message_variants_preserve_payload() {
    let state_message = NodeStatusMessage::State { id: "node-1".to_string(), state: State::Started };
    match state_message {
        NodeStatusMessage::State { id, state } => {
            assert_eq!(id, "node-1");
            assert_eq!(state, State::Started);
        },
        other => panic!("unexpected variant: {other:?}"),
    }

    let error_message = NodeStatusMessage::Error { id: "node-2".to_string(), message: "boom".to_string() };
    match error_message {
        NodeStatusMessage::Error { id, message } => {
            assert_eq!(id, "node-2");
            assert_eq!(message, "boom");
        },
        other => panic!("unexpected variant: {other:?}"),
    }
}

#[test]
fn consumer_message_variants_preserve_payload() {
    let mut config = Table::new();
    config.insert("video::alpha".to_string(), JsonValue::Number(float_number(0.5)));

    let connect = ConsumerMessage::Connect {
        link_id: "slot-1".to_string(),
        has_video: true,
        has_audio: false,
        config: Some(config),
    };
    match connect {
        ConsumerMessage::Connect { link_id, has_video, has_audio, config: Some(cfg) } => {
            assert_eq!(link_id, "slot-1");
            assert!(has_video);
            assert!(!has_audio);
            assert_eq!(cfg.len(), 1);
            assert_eq!(cfg.get(&"video::alpha".to_string()), Some(&JsonValue::Number(float_number(0.5))));
        },
        other => panic!("unexpected variant: {other:?}"),
    }

    let add = ConsumerMessage::AddControlPoint {
        slot_id: "slot-1".to_string(),
        property: "audio::volume".to_string(),
        control_point: sample_control_point(),
    };
    match add {
        ConsumerMessage::AddControlPoint { slot_id, property, control_point } => {
            assert_eq!(slot_id, "slot-1");
            assert_eq!(property, "audio::volume");
            assert_eq!(control_point.id, "cp-1");
        },
        other => panic!("unexpected variant: {other:?}"),
    }

    let remove = ConsumerMessage::RemoveControlPoint {
        controller_id: "cp-1".to_string(),
        slot_id: "slot-1".to_string(),
        property: "audio::volume".to_string(),
    };
    match remove {
        ConsumerMessage::RemoveControlPoint { controller_id, slot_id, property } => {
            assert_eq!(controller_id, "cp-1");
            assert_eq!(slot_id, "slot-1");
            assert_eq!(property, "audio::volume");
        },
        other => panic!("unexpected variant: {other:?}"),
    }
}

#[test]
fn message_result_variants_store_command_and_node_info() {
    let command_message = MessageResult::Command(CommandResult::Success);
    assert!(matches!(command_message, MessageResult::Command(CommandResult::Success)));

    let mut slots = Table::new();
    slots.insert("slot-1".to_string(), MixerSlotInfo { volume: float_number(1.0) });
    let node_info = MessageResult::NodeInfo(NodeInfo::Mixer(MixerInfo {
        slots,
        video_consumer_slot_ids: Some(vec!["link-video".to_string()]),
        audio_consumer_slot_ids: Some(vec!["link-audio".to_string()]),
        cue_time: None,
        end_time: None,
        state: State::Initial,
        settings: Table::new(),
        control_points: Table::new(),
        slot_settings: Table::new(),
        slot_control_points: Table::new(),
    }));

    match node_info {
        MessageResult::NodeInfo(NodeInfo::Mixer(info)) => {
            assert!(info.slots.contains_key(&"slot-1".to_string()));
        },
        other => panic!("unexpected variant: {other:?}"),
    }

    let command_payload = CommandMessage { command: Command::GetInfo { id: None } };
    assert!(matches!(command_payload.command, Command::GetInfo { id: None }));
}
