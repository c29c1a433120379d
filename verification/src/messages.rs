use vstd::prelude::*;
use crate::protocol::{Command, CommandResult, ControlPoint, NodeInfo, State};
use crate::table::Table;
use crate::value::JsonValue;

verus! {

/// Asks a node to start, at its cue time if it has one.
#[derive(Debug)]
pub struct StartMessage {
    pub cue_time: Option<i128>,
    pub end_time: Option<i128>,
}

/// Asks a node to stop.
#[derive(Clone, Copy, Debug)]
pub struct StopMessage;

/// Gives a node new cue and end times.
#[derive(Debug)]
pub struct ScheduleMessage {
    pub cue_time: Option<i128>,
    pub end_time: Option<i128>,
}

/// Adds a control point to a property of a node.
#[derive(Debug)]
pub struct AddControlPointMessage {
    pub property: String,
    pub control_point: ControlPoint,
}

/// Drops the control points of a controller from a property of a node.
#[derive(Debug)]
pub struct RemoveControlPointMessage {
    pub controller_id: String,
    pub property: String,
}

/// Asks a node for its report.
#[derive(Clone, Copy, Debug)]
pub struct GetNodeInfoMessage;

/// A node stopped, with the media it was producing.
#[derive(Debug)]
pub struct StoppedMessage {
    pub id: String,
    pub has_video_producer: bool,
    pub has_audio_producer: bool,
}

/// A node's state changed, or it failed.
#[derive(Debug)]
pub enum NodeStatusMessage {
    State { id: String, state: State },
    Error { id: String, message: String },
}

/// A request to a consuming node about one of its input slots.
#[derive(Debug)]
pub enum ConsumerMessage {
    Connect { link_id: String, has_video: bool, has_audio: bool, config: Option<Table<JsonValue>> },
    Disconnect { slot_id: String },
    AddControlPoint { slot_id: String, property: String, control_point: ControlPoint },
    RemoveControlPoint { controller_id: String, slot_id: String, property: String },
}

/// Carries a command to the node graph.
#[derive(Debug)]
pub struct CommandMessage {
    pub command: Command,
}

/// Registers a listener of node status messages.
#[derive(Debug)]
pub struct RegisterListenerMessage {
    pub id: String,
}

/// What handling a message gives back.
#[derive(Debug)]
pub enum MessageResult {
    Command(CommandResult),
    NodeInfo(NodeInfo),
    Empty,
}

} // verus!
