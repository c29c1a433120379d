use vstd::prelude::*;
use crate::table::{Duplicate, Table};
use crate::value::JsonValue;
use crate::value::Number;

verus! {

/// The identifier of a request, carried from a controller message to the answer.
#[verifier::external_type_specification]
#[verifier::external_body]
pub struct ExUuid(uuid::Uuid);

/// The flags `audio` and `video` of a create or connect command default to
/// `true` when the payload omits them.
pub fn default_as_true() -> (b: bool)
    ensures
        b,
{
    true
}

/// How a control point's value is reached.
#[derive(Clone, Copy, Debug, PartialEq, Eq, Structural)]
pub enum ControlMode {
    /// The value holds from the point's time on (`set` on the wire).
    Hold,
    /// The value moves linearly towards the next point's value.
    Interpolate,
}

/// A value that a setting takes at a time (nanoseconds since the Unix epoch).
#[derive(Debug, PartialEq, Eq)]
pub struct ControlPoint {
    pub id: String,
    pub time: i128,
    pub value: JsonValue,
    pub mode: ControlMode,
}

impl View for ControlPoint {
    type V = ControlPoint;

    open spec fn view(&self) -> ControlPoint {
        *self
    }
}

impl Clone for ControlPoint {
    fn clone(&self) -> (r: Self)
        ensures
            r == *self,
    {
        ControlPoint {
            id: self.id.clone(),
            time: self.time,
            value: self.value.clone(),
            mode: self.mode,
        }
    }
}

impl ControlPoint {
    /// Control points are ordered by their time alone.
    pub fn cmp(&self, other: &Self) -> (r: core::cmp::Ordering)
        ensures
            r == (if self.time < other.time {
                core::cmp::Ordering::Less
            } else if self.time == other.time {
                core::cmp::Ordering::Equal
            } else {
                core::cmp::Ordering::Greater
            }),
    {
        if self.time < other.time {
            core::cmp::Ordering::Less
        } else if self.time == other.time {
            core::cmp::Ordering::Equal
        } else {
            core::cmp::Ordering::Greater
        }
    }

    /// The same order as `cmp`; every two control points are comparable.
    pub fn partial_cmp(&self, other: &Self) -> (r: Option<core::cmp::Ordering>)
        ensures
            r == Some(
                if self.time < other.time {
                    core::cmp::Ordering::Less
                } else if self.time == other.time {
                    core::cmp::Ordering::Equal
                } else {
                    core::cmp::Ordering::Greater
                },
            ),
    {
        Some(self.cmp(other))
    }
}

/// Lifecycle state of a graph node.
#[derive(Clone, Copy, Debug, PartialEq, Eq, Structural, Hash)]
pub enum State {
    Initial,
    Starting,
    Started,
    Stopping,
    Stopped,
}

/// Where a destination sends what it receives.
#[derive(Debug, PartialEq, Eq)]
pub enum DestinationFamily {
    Rtmp { uri: String },
    Udp { host: String },
    LocalFile { base_name: String, max_size_time: Option<u32> },
    LocalPlayback,
}

impl View for DestinationFamily {
    type V = DestinationFamily;

    open spec fn view(&self) -> DestinationFamily {
        *self
    }
}

impl Clone for DestinationFamily {
    fn clone(&self) -> (r: Self)
        ensures
            r == *self,
    {
        match self {
            DestinationFamily::Rtmp { uri } => DestinationFamily::Rtmp { uri: uri.clone() },
            DestinationFamily::Udp { host } => DestinationFamily::Udp { host: host.clone() },
            DestinationFamily::LocalFile { base_name, max_size_time } => DestinationFamily::LocalFile {
                base_name: base_name.clone(),
                max_size_time: *max_size_time,
            },
            DestinationFamily::LocalPlayback => DestinationFamily::LocalPlayback,
        }
    }
}

/// A request to the node graph.
#[derive(Debug)]
#[allow(inconsistent_fields)]
pub enum Command {
    CreateVideoGenerator { id: String },
    CreateSource { id: String, uri: String, audio: bool, video: bool },
    CreateDestination { id: String, family: DestinationFamily, audio: bool, video: bool },
    CreateMixer { id: String, config: Option<Table<JsonValue>>, audio: bool, video: bool },
    Connect {
        link_id: String,
        src_id: String,
        sink_id: String,
        audio: bool,
        video: bool,
        config: Option<Table<JsonValue>>,
    },
    Start { id: String, cue_time: Option<i128>, end_time: Option<i128> },
    Reschedule { id: String, cue_time: Option<i128>, end_time: Option<i128> },
    Remove { id: String },
    Disconnect { link_id: String },
    GetInfo { id: Option<String> },
    AddControlPoint { controllee_id: String, property: String, control_point: ControlPoint },
    RemoveControlPoint { id: String, controllee_id: String, property: String },
}

/// A command together with the identifier of the request that carries it.
#[derive(Debug)]
pub struct ControllerMessage {
    pub id: uuid::Uuid,
    pub command: Command,
}

/// What a source (or a video generator, in the same shape) reports of itself.
#[derive(Debug)]
pub struct SourceInfo {
    pub uri: String,
    pub video_consumer_slot_ids: Option<Vec<String>>,
    pub audio_consumer_slot_ids: Option<Vec<String>>,
    pub cue_time: Option<i128>,
    pub end_time: Option<i128>,
    pub state: State,
}

/// What a destination reports of itself.
#[derive(Debug)]
pub struct DestinationInfo {
    pub family: DestinationFamily,
    pub audio_slot_id: Option<String>,
    pub video_slot_id: Option<String>,
    pub cue_time: Option<i128>,
    pub end_time: Option<i128>,
    pub state: State,
}

/// The audio volume of one mixer input slot.
#[derive(Debug, PartialEq, Eq)]
pub struct MixerSlotInfo {
    pub volume: Number,
}

impl View for MixerSlotInfo {
    type V = MixerSlotInfo;

    open spec fn view(&self) -> MixerSlotInfo {
        *self
    }
}

impl Duplicate for MixerSlotInfo {
    fn duplicate(&self) -> (r: Self) {
        MixerSlotInfo { volume: self.volume.clone() }
    }
}

impl Duplicate for Vec<ControlPoint> {
    /// A copy of the points, in order.
    fn duplicate(&self) -> (r: Self) {
        let mut r: Vec<ControlPoint> = Vec::new();
        let mut i: usize = 0;
        while i < self.len()
            invariant
                i <= self@.len(),
                r@ == self@.take(i as int),
            decreases self@.len() - i,
        {
            r.push(self[i].clone());
            assert(self@.take(i + 1) =~= self@.take(i as int).push(self@[i as int]));
            i = i + 1;
        }
        assert(self@.take(self@.len() as int) =~= self@);
        r
    }
}

/// What a mixer reports of itself.
#[derive(Debug)]
pub struct MixerInfo {
    pub slots: Table<MixerSlotInfo>,
    pub video_consumer_slot_ids: Option<Vec<String>>,
    pub audio_consumer_slot_ids: Option<Vec<String>>,
    pub cue_time: Option<i128>,
    pub end_time: Option<i128>,
    pub state: State,
    pub settings: Table<JsonValue>,
    pub control_points: Table<Vec<ControlPoint>>,
    pub slot_settings: Table<Table<JsonValue>>,
    pub slot_control_points: Table<Table<Vec<ControlPoint>>>,
}

/// What a node reports of itself.
#[derive(Debug)]
pub enum NodeInfo {
    Source(SourceInfo),
    Destination(DestinationInfo),
    Mixer(MixerInfo),
}

impl View for NodeInfo {
    type V = NodeInfo;

    open spec fn view(&self) -> NodeInfo {
        *self
    }
}

/// The reports of a set of nodes, by node id.
#[derive(Debug)]
pub struct Info {
    pub nodes: Table<NodeInfo>,
}

/// The answer to a command.
#[derive(Debug)]
pub enum CommandResult {
    Error(String),
    Success,
    Info(Info),
}

/// The answer to a request, with the request's identifier when it had one.
#[derive(Debug)]
pub struct ServerMessage {
    pub id: Option<uuid::Uuid>,
    pub result: CommandResult,
}

} // verus!
