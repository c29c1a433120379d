use vstd::prelude::*;
use crate::control::interpolation_total;
use crate::nodes::destination::{destination_stage, destination_stops, msg_audio_slot_missing, msg_audio_slot_taken, msg_video_slot_missing, msg_video_slot_taken, with_stage, DestinationNode};
use crate::nodes::mixer::{config_checked, config_map, mixer_settings_from, mixer_stage, node_applied, point_added, point_error, point_removed, same_consumers, same_inputs, same_settings, slot_config_checked, slot_connected, slot_point_added, slot_point_error, slot_point_removed, MixerNode};
use crate::nodes::source::{source_stage, SourceNode};
use crate::nodes::video_generator::{generator_stage, VideoGeneratorNode};
use crate::protocol::{Command, CommandResult, ControlPoint, DestinationFamily, Info, MixerSlotInfo, NodeInfo, State};
use crate::schedule::{destination_settle, now_nanos, preroll_settle, rescheduled};
use crate::strset::{char_seqs, StrSet};
use crate::table::{entries_map, has_key, keys_unique, lemma_entries_push, lemma_entries_pointwise, lemma_key_index_unique, Duplicate, Table};
use crate::text::{concat2, concat3, fails_with, owned, starts_with};
use crate::value::{JsonValue, Number};

verus! {

/// A connection from the output of one node to the input of another.
#[derive(Debug)]
pub struct LinkRecord {
    pub src_id: String,
    pub sink_id: String,
    pub audio: bool,
    pub video: bool,
    pub config: Option<Table<JsonValue>>,
}

impl View for LinkRecord {
    type V = LinkRecord;

    open spec fn view(&self) -> LinkRecord {
        *self
    }
}

/// A node of the graph, of one of its four kinds.
#[derive(Debug)]
pub enum NodeRecord {
    Source(SourceNode),
    Destination(DestinationNode),
    Mixer(MixerNode),
    VideoGenerator(VideoGeneratorNode),
}

impl View for NodeRecord {
    type V = NodeRecord;

    open spec fn view(&self) -> NodeRecord {
        *self
    }
}

/// The node can send audio to a consumer.
pub open spec fn outputs_audio(n: NodeRecord) -> bool {
    match n {
        NodeRecord::Source(s) => s.audio_enabled,
        NodeRecord::Mixer(m) => m.audio_enabled,
        NodeRecord::VideoGenerator(g) => g.audio_enabled,
        NodeRecord::Destination(_) => false,
    }
}

/// The node can send video to a consumer.
pub open spec fn outputs_video(n: NodeRecord) -> bool {
    match n {
        NodeRecord::Source(s) => s.video_enabled,
        NodeRecord::Mixer(m) => m.video_enabled,
        NodeRecord::VideoGenerator(g) => g.video_enabled,
        NodeRecord::Destination(_) => false,
    }
}

/// The node can take audio from a producer.
pub open spec fn inputs_audio(n: NodeRecord) -> bool {
    match n {
        NodeRecord::Destination(d) => d.audio_enabled,
        NodeRecord::Mixer(m) => m.audio_enabled,
        _ => false,
    }
}

/// The node can take video from a producer.
pub open spec fn inputs_video(n: NodeRecord) -> bool {
    match n {
        NodeRecord::Destination(d) => d.video_enabled,
        NodeRecord::Mixer(m) => m.video_enabled,
        _ => false,
    }
}

/// The node's state.
pub open spec fn node_state(n: NodeRecord) -> State {
    match n {
        NodeRecord::Source(s) => s.state,
        NodeRecord::Destination(d) => d.state,
        NodeRecord::Mixer(m) => m.state,
        NodeRecord::VideoGenerator(g) => g.state,
    }
}

/// The node's cue and end times.
pub open spec fn node_times(n: NodeRecord) -> (Option<i128>, Option<i128>) {
    match n {
        NodeRecord::Source(s) => (s.cue_time, s.end_time),
        NodeRecord::Destination(d) => (d.cue_time, d.end_time),
        NodeRecord::Mixer(m) => (m.cue_time, m.end_time),
        NodeRecord::VideoGenerator(g) => (g.cue_time, g.end_time),
    }
}

/// The node's last recorded error.
pub open spec fn node_error(n: NodeRecord) -> Option<String> {
    match n {
        NodeRecord::Source(s) => s.last_error,
        NodeRecord::Destination(d) => d.last_error,
        NodeRecord::Mixer(m) => m.last_error,
        NodeRecord::VideoGenerator(g) => g.last_error,
    }
}

/// The node's id.
pub open spec fn node_id(n: NodeRecord) -> Seq<char> {
    match n {
        NodeRecord::Source(s) => s.id@,
        NodeRecord::Destination(d) => d.id@,
        NodeRecord::Mixer(m) => m.id@,
        NodeRecord::VideoGenerator(g) => g.id@,
    }
}

/// The node is sound: a mixer keeps its control points in time order.
pub open spec fn node_wf(n: NodeRecord) -> bool {
    match n {
        NodeRecord::Mixer(m) => m.wf(),
        _ => true,
    }
}

/// `info` is the node's report.
pub open spec fn reports(n: NodeRecord, info: NodeInfo) -> bool {
    match n {
        NodeRecord::Source(s) => info matches NodeInfo::Source(i) && {
            &&& i.uri@ == s.uri@
            &&& i.video_consumer_slot_ids matches Some(v) && char_seqs(v@) == s.video_consumer_slot_ids.listing()
            &&& i.audio_consumer_slot_ids matches Some(a) && char_seqs(a@) == s.audio_consumer_slot_ids.listing()
            &&& i.cue_time == s.cue_time
            &&& i.end_time == s.end_time
            &&& i.state == s.state
        },
        NodeRecord::VideoGenerator(g) => info matches NodeInfo::Source(i) && {
            &&& i.uri@ == "videogenerator://"@ + g.id@
            &&& i.video_consumer_slot_ids matches Some(v) && char_seqs(v@) == g.video_consumer_slot_ids.listing()
            &&& i.audio_consumer_slot_ids matches Some(a) && char_seqs(a@) == g.audio_consumer_slot_ids.listing()
            &&& i.cue_time == g.cue_time
            &&& i.end_time == g.end_time
            &&& i.state == g.state
        },
        NodeRecord::Destination(d) => info matches NodeInfo::Destination(i) && {
            &&& i.family == d.family
            &&& i.audio_slot_id == d.audio_slot_id
            &&& i.video_slot_id == d.video_slot_id
            &&& i.cue_time == d.cue_time
            &&& i.end_time == d.end_time
            &&& i.state == d.state
        },
        NodeRecord::Mixer(m) => info matches NodeInfo::Mixer(i) && {
            &&& i.slots@ == m.slots@
            &&& i.video_consumer_slot_ids matches Some(v) && char_seqs(v@) == m.video_consumer_slot_ids.listing()
            &&& i.audio_consumer_slot_ids matches Some(a) && char_seqs(a@) == m.audio_consumer_slot_ids.listing()
            &&& i.cue_time == m.cue_time
            &&& i.end_time == m.end_time
            &&& i.state == m.state
            &&& i.settings@ == m.settings@
            &&& i.control_points@ == m.control_points@
            &&& i.slot_settings@ == m.slot_settings@
            &&& i.slot_control_points@ == m.slot_control_points@
        },
    }
}

/// `b` is `a` with the transitions due at `now` taken (and, for a mixer, its
/// control points applied); nothing else of the node changes.
pub open spec fn node_refreshed<F: Fn(Number, Number, i64, i64) -> JsonValue>(
    a: NodeRecord,
    b: NodeRecord,
    now: i128,
    interpolate: F,
) -> bool {
    match (a, b) {
        (NodeRecord::Source(x), NodeRecord::Source(y)) => {
            &&& y.state == preroll_settle(x.state, x.cue_time, x.end_time, now)
            &&& y.pipeline.stage == source_stage(y.state)
            &&& y.pipeline.uri == x.pipeline.uri
            &&& y.pipeline.elements == x.pipeline.elements
            &&& y.pipeline.manual_unblock == x.pipeline.manual_unblock
            &&& y.pipeline.immediate_fallback == x.pipeline.immediate_fallback
            &&& y.id == x.id
            &&& y.uri == x.uri
            &&& y.audio_enabled == x.audio_enabled
            &&& y.video_enabled == x.video_enabled
            &&& y.audio_consumer_slot_ids == x.audio_consumer_slot_ids
            &&& y.video_consumer_slot_ids == x.video_consumer_slot_ids
            &&& y.cue_time == x.cue_time
            &&& y.end_time == x.end_time
            &&& y.live_pipeline == x.live_pipeline
            &&& y.last_error == x.last_error
        },
        (NodeRecord::VideoGenerator(x), NodeRecord::VideoGenerator(y)) => {
            &&& y.state == preroll_settle(x.state, x.cue_time, x.end_time, now)
            &&& y.pipeline.stage == generator_stage(y.state)
            &&& y.pipeline.elements == x.pipeline.elements
            &&& y.pipeline.pattern == x.pipeline.pattern
            &&& y.pipeline.is_live == x.pipeline.is_live
            &&& y.pipeline.flip == x.pipeline.flip
            &&& y.id == x.id
            &&& y.audio_enabled == x.audio_enabled
            &&& y.video_enabled == x.video_enabled
            &&& y.audio_consumer_slot_ids == x.audio_consumer_slot_ids
            &&& y.video_consumer_slot_ids == x.video_consumer_slot_ids
            &&& y.cue_time == x.cue_time
            &&& y.end_time == x.end_time
            &&& y.live_pipeline == x.live_pipeline
            &&& y.last_error == x.last_error
        },
        (NodeRecord::Destination(x), NodeRecord::Destination(y)) => {
            &&& y.state == destination_settle(x.state, x.cue_time, x.end_time, now)
            &&& y.pipeline == with_stage(x.pipeline, destination_stage(y.state))
            &&& y.live_pipeline == (x.live_pipeline && !destination_stops(x.state, x.cue_time, x.end_time, now))
            &&& y.id == x.id
            &&& y.family == x.family
            &&& y.audio_enabled == x.audio_enabled
            &&& y.video_enabled == x.video_enabled
            &&& y.audio_slot_id == x.audio_slot_id
            &&& y.video_slot_id == x.video_slot_id
            &&& y.cue_time == x.cue_time
            &&& y.end_time == x.end_time
            &&& y.last_error == x.last_error
        },
        (NodeRecord::Mixer(x), NodeRecord::Mixer(y)) => {
            &&& node_applied(x, y, now, interpolate)
            &&& y.control_points@ == x.control_points@
            &&& y.slot_control_points@ == x.slot_control_points@
            &&& y.state == preroll_settle(x.state, x.cue_time, x.end_time, now)
            &&& y.pipeline.stage == mixer_stage(y.state)
            &&& y.id@ == x.id@
            &&& y.audio_enabled == x.audio_enabled
            &&& y.video_enabled == x.video_enabled
            &&& y.video_consumer_slot_ids@ == x.video_consumer_slot_ids@
            &&& y.audio_consumer_slot_ids@ == x.audio_consumer_slot_ids@
            &&& y.cue_time == x.cue_time
            &&& y.end_time == x.end_time
            &&& y.live_pipeline == x.live_pipeline
            &&& y.last_error == x.last_error
        },
        _ => false,
    }
}

/// `b` is `a` after a stop: stopped, idle, with no live pipeline.
pub open spec fn node_stopped(a: NodeRecord, b: NodeRecord) -> bool {
    &&& node_state(b) == State::Stopped
    &&& node_times(b) == node_times(a)
    &&& node_id(b) == node_id(a)
    &&& node_error(b) == node_error(a)
    &&& outputs_audio(b) == outputs_audio(a)
    &&& outputs_video(b) == outputs_video(a)
    &&& inputs_audio(b) == inputs_audio(a)
    &&& inputs_video(b) == inputs_video(a)
    &&& node_wf(a) ==> node_wf(b)
}

/// The outcome of giving node `a` cue and end times at `now`: a destination
/// without an input for an enabled medium refuses and stays as it was; any
/// other node takes the times, forgets its last error, starts over if it was
/// starting or had stopped, and takes the transitions due.
pub open spec fn node_scheduled<F: Fn(Number, Number, i64, i64) -> JsonValue>(
    a: NodeRecord,
    b: NodeRecord,
    cue: Option<i128>,
    end: Option<i128>,
    now: i128,
    interpolate: F,
    r: Result<(), String>,
) -> bool {
    match (a, b) {
        (NodeRecord::Destination(x), NodeRecord::Destination(y)) => {
            let audio_missing = x.audio_enabled && x.audio_slot_id is None;
            let video_missing = x.video_enabled && x.video_slot_id is None;
            &&& audio_missing ==> fails_with(r, msg_audio_slot_missing(x.id@))
            &&& !audio_missing && video_missing ==> fails_with(r, msg_video_slot_missing(x.id@))
            &&& (audio_missing || video_missing) ==> y == x
            &&& !audio_missing && !video_missing ==> {
                &&& r is Ok
                &&& y.state == destination_settle(rescheduled(x.state), cue, end, now)
                &&& y.cue_time == cue
                &&& y.end_time == end
                &&& y.last_error is None
                &&& y.id == x.id
                &&& y.audio_enabled == x.audio_enabled
                &&& y.video_enabled == x.video_enabled
                &&& y.audio_slot_id == x.audio_slot_id
                &&& y.video_slot_id == x.video_slot_id
                &&& y.family == x.family
                &&& y.pipeline matches Some(p) && p.stage == destination_stage(y.state) && p.wait_for_eos_on_stop
                &&& y.live_pipeline == (x.live_pipeline && !destination_stops(rescheduled(x.state), cue, end, now))
            }
        },
        (NodeRecord::Source(x), NodeRecord::Source(y)) => {
            &&& r is Ok
            &&& y.state == preroll_settle(rescheduled(x.state), cue, end, now)
            &&& y.pipeline.stage == source_stage(y.state)
            &&& y.live_pipeline == x.live_pipeline
            &&& y.uri == x.uri
            &&& y.cue_time == cue
            &&& y.end_time == end
            &&& y.last_error is None
            &&& y.id == x.id
            &&& y.audio_enabled == x.audio_enabled
            &&& y.video_enabled == x.video_enabled
            &&& y.audio_consumer_slot_ids == x.audio_consumer_slot_ids
            &&& y.video_consumer_slot_ids == x.video_consumer_slot_ids
        },
        (NodeRecord::VideoGenerator(x), NodeRecord::VideoGenerator(y)) => {
            &&& r is Ok
            &&& y.state == preroll_settle(rescheduled(x.state), cue, end, now)
            &&& y.pipeline.stage == generator_stage(y.state)
            &&& y.live_pipeline == x.live_pipeline
            &&& y.cue_time == cue
            &&& y.end_time == end
            &&& y.last_error is None
            &&& y.id == x.id
            &&& y.audio_enabled == x.audio_enabled
            &&& y.video_enabled == x.video_enabled
            &&& y.audio_consumer_slot_ids == x.audio_consumer_slot_ids
            &&& y.video_consumer_slot_ids == x.video_consumer_slot_ids
        },
        (NodeRecord::Mixer(x), NodeRecord::Mixer(y)) => {
            &&& r is Ok
            &&& y.state == preroll_settle(rescheduled(x.state), cue, end, now)
            &&& y.pipeline.stage == mixer_stage(y.state)
            &&& y.live_pipeline == x.live_pipeline
            &&& y.cue_time == cue
            &&& y.end_time == end
            &&& y.last_error is None
            &&& node_applied(x, y, now, interpolate)
            &&& y.control_points@ == x.control_points@
            &&& y.slot_control_points@ == x.slot_control_points@
            &&& y.id@ == x.id@
            &&& y.audio_enabled == x.audio_enabled
            &&& y.video_enabled == x.video_enabled
            &&& y.video_consumer_slot_ids@ == x.video_consumer_slot_ids@
            &&& y.audio_consumer_slot_ids@ == x.audio_consumer_slot_ids@
        },
        _ => false,
    }
}

/// What stays of a node through a change to its links: its id, its media,
/// its state, times and last error, and its soundness.
pub open spec fn node_frame(a: NodeRecord, b: NodeRecord) -> bool {
    &&& node_id(b) == node_id(a)
    &&& outputs_audio(b) == outputs_audio(a)
    &&& outputs_video(b) == outputs_video(a)
    &&& inputs_audio(b) == inputs_audio(a)
    &&& inputs_video(b) == inputs_video(a)
    &&& node_state(b) == node_state(a)
    &&& node_times(b) == node_times(a)
    &&& node_error(b) == node_error(a)
    &&& node_wf(a) ==> node_wf(b)
}

/// `b` is producer `a` with the link added to the consumers of each medium it carries.
pub open spec fn src_linked(a: NodeRecord, b: NodeRecord, link: Seq<char>, audio: bool, video: bool) -> bool {
    &&& node_frame(a, b)
    &&& match (a, b) {
        (NodeRecord::Source(x), NodeRecord::Source(y)) => {
            &&& y.audio_consumer_slot_ids@ == (if audio { x.audio_consumer_slot_ids@.insert(link) } else { x.audio_consumer_slot_ids@ })
            &&& y.video_consumer_slot_ids@ == (if video { x.video_consumer_slot_ids@.insert(link) } else { x.video_consumer_slot_ids@ })
        },
        (NodeRecord::VideoGenerator(x), NodeRecord::VideoGenerator(y)) => {
            &&& y.audio_consumer_slot_ids@ == (if audio { x.audio_consumer_slot_ids@.insert(link) } else { x.audio_consumer_slot_ids@ })
            &&& y.video_consumer_slot_ids@ == (if video { x.video_consumer_slot_ids@.insert(link) } else { x.video_consumer_slot_ids@ })
        },
        (NodeRecord::Mixer(x), NodeRecord::Mixer(y)) => {
            &&& y.audio_consumer_slot_ids@ == (if audio { x.audio_consumer_slot_ids@.insert(link) } else { x.audio_consumer_slot_ids@ })
            &&& y.video_consumer_slot_ids@ == (if video { x.video_consumer_slot_ids@.insert(link) } else { x.video_consumer_slot_ids@ })
            &&& same_inputs(x, y)
            &&& same_settings(x, y)
        },
        (NodeRecord::Destination(x), NodeRecord::Destination(y)) => y == x,
        _ => false,
    }
}

/// `b` is producer `a` with the link dropped from its consumers.
pub open spec fn src_unlinked(a: NodeRecord, b: NodeRecord, link: Seq<char>) -> bool {
    &&& node_frame(a, b)
    &&& match (a, b) {
        (NodeRecord::Source(x), NodeRecord::Source(y)) => {
            &&& y.audio_consumer_slot_ids@ == x.audio_consumer_slot_ids@.remove(link)
            &&& y.video_consumer_slot_ids@ == x.video_consumer_slot_ids@.remove(link)
        },
        (NodeRecord::VideoGenerator(x), NodeRecord::VideoGenerator(y)) => {
            &&& y.audio_consumer_slot_ids@ == x.audio_consumer_slot_ids@.remove(link)
            &&& y.video_consumer_slot_ids@ == x.video_consumer_slot_ids@.remove(link)
        },
        (NodeRecord::Mixer(x), NodeRecord::Mixer(y)) => {
            &&& y.audio_consumer_slot_ids@ == x.audio_consumer_slot_ids@.remove(link)
            &&& y.video_consumer_slot_ids@ == x.video_consumer_slot_ids@.remove(link)
            &&& same_inputs(x, y)
            &&& same_settings(x, y)
        },
        (NodeRecord::Destination(x), NodeRecord::Destination(y)) => y == x,
        _ => false,
    }
}

/// The slot id a destination keeps after the link is released.
pub open spec fn released(slot: Option<String>, link: Seq<char>) -> Option<String> {
    match slot {
        Some(s) => if s@ == link {
            None
        } else {
            Some(s)
        },
        None => None,
    }
}

/// `b` is consumer `a` with the input of the link released.
pub open spec fn sink_detached(a: NodeRecord, b: NodeRecord, link: Seq<char>) -> bool {
    &&& node_frame(a, b)
    &&& match (a, b) {
        (NodeRecord::Destination(x), NodeRecord::Destination(y)) => {
            &&& y.audio_slot_id == released(x.audio_slot_id, link)
            &&& y.video_slot_id == released(x.video_slot_id, link)
        },
        (NodeRecord::Mixer(x), NodeRecord::Mixer(y)) => {
            &&& y.slots@ == x.slots@.remove(link)
            &&& y.slot_settings@ == x.slot_settings@.remove(link)
            &&& y.slot_control_points@ == x.slot_control_points@.remove(link)
            &&& same_consumers(x, y)
            &&& same_settings(x, y)
        },
        (NodeRecord::Source(x), NodeRecord::Source(y)) => y == x,
        (NodeRecord::VideoGenerator(x), NodeRecord::VideoGenerator(y)) => y == x,
        _ => false,
    }
}

/// What asking consumer `a` (with id `sink_id`) to take the link's input
/// does, with outcome `r`: a destination takes the link as the input of each
/// medium it carries, failing on a medium whose input is taken; a mixer opens
/// a slot for it; a producer refuses.
pub open spec fn sink_connected(
    a: NodeRecord,
    b: NodeRecord,
    sink_id: Seq<char>,
    link: String,
    audio: bool,
    video: bool,
    config: Option<Table<JsonValue>>,
    r: Result<(), String>,
) -> bool {
    &&& node_frame(a, b)
    &&& match (a, b) {
        (NodeRecord::Destination(x), NodeRecord::Destination(y)) => {
            let audio_taken = audio && x.audio_slot_id is Some;
            let video_taken = video && x.video_slot_id is Some;
            &&& r is Err <==> (audio_taken || video_taken)
            &&& audio_taken ==> fails_with(r, msg_audio_slot_taken(x.id@))
            &&& audio_taken ==> y.audio_slot_id == x.audio_slot_id
            &&& !audio_taken ==> y.audio_slot_id == (if audio { Some(link) } else { x.audio_slot_id })
            &&& !audio_taken && video_taken ==> fails_with(r, msg_video_slot_taken(x.id@))
            &&& (audio_taken || video_taken) ==> y.video_slot_id == x.video_slot_id
            &&& !audio_taken && !video_taken ==> y.video_slot_id == (if video { Some(link) } else { x.video_slot_id })
        },
        (NodeRecord::Mixer(x), NodeRecord::Mixer(y)) => {
            &&& slot_config_checked(link@, audio, video, config, r)
            &&& r is Err ==> y == x
            &&& r is Ok ==> slot_connected(x, y, link@, audio, video, config)
        },
        _ => fails_with(r, "Node "@ + sink_id + " is not a consumer"@) && b == a,
    }
}

impl NodeRecord {
    pub fn can_output_audio(&self) -> (b: bool)
        ensures
            b == outputs_audio(*self),
    {
        match self {
            NodeRecord::Source(node) => node.audio_enabled,
            NodeRecord::Mixer(node) => node.audio_enabled,
            NodeRecord::VideoGenerator(node) => node.audio_enabled,
            NodeRecord::Destination(_) => false,
        }
    }

    pub fn can_output_video(&self) -> (b: bool)
        ensures
            b == outputs_video(*self),
    {
        match self {
            NodeRecord::Source(node) => node.video_enabled,
            NodeRecord::Mixer(node) => node.video_enabled,
            NodeRecord::VideoGenerator(node) => node.video_enabled,
            NodeRecord::Destination(_) => false,
        }
    }

    pub fn can_input_audio(&self) -> (b: bool)
        ensures
            b == inputs_audio(*self),
    {
        match self {
            NodeRecord::Destination(node) => node.audio_enabled,
            NodeRecord::Mixer(node) => node.audio_enabled,
            NodeRecord::Source(_) | NodeRecord::VideoGenerator(_) => false,
        }
    }

    pub fn can_input_video(&self) -> (b: bool)
        ensures
            b == inputs_video(*self),
    {
        match self {
            NodeRecord::Destination(node) => node.video_enabled,
            NodeRecord::Mixer(node) => node.video_enabled,
            NodeRecord::Source(_) | NodeRecord::VideoGenerator(_) => false,
        }
    }

    /// The node's report; a video generator reports as a source would.
    pub fn to_info(&self) -> (info: NodeInfo)
        ensures
            reports(*self, info),
    {
        match self {
            NodeRecord::Source(node) => node.as_info(),
            NodeRecord::Destination(node) => node.as_info(),
            NodeRecord::Mixer(node) => node.as_info(),
            NodeRecord::VideoGenerator(node) => node.as_compatible_source_info(),
        }
    }

    /// Gives the node cue and end times at `now`.
    pub fn set_schedule_at<F: Fn(Number, Number, i64, i64) -> JsonValue>(
        &mut self,
        cue_time: Option<i128>,
        end_time: Option<i128>,
        now: i128,
        interpolate: &F,
    ) -> (r: Result<(), String>)
        requires
            interpolation_total(*interpolate),
        ensures
            node_scheduled(*old(self), *final(self), cue_time, end_time, now, *interpolate, r),
            node_id(*final(self)) == node_id(*old(self)),
            node_wf(*old(self)) ==> node_wf(*final(self)),
            outputs_audio(*final(self)) == outputs_audio(*old(self)),
            outputs_video(*final(self)) == outputs_video(*old(self)),
            inputs_audio(*final(self)) == inputs_audio(*old(self)),
            inputs_video(*final(self)) == inputs_video(*old(self)),
    {
        match self {
            NodeRecord::Source(node) => {
                node.schedule_at(cue_time, end_time, now);
                Ok(())
            },
            NodeRecord::Destination(node) => node.schedule_at(cue_time, end_time, now),
            NodeRecord::Mixer(node) => {
                node.schedule_at(cue_time, end_time, now, interpolate);
                Ok(())
            },
            NodeRecord::VideoGenerator(node) => {
                node.schedule_at(cue_time, end_time, now);
                Ok(())
            },
        }
    }

    /// Stops the node.
    pub fn stop(&mut self)
        ensures
            node_stopped(*old(self), *final(self)),
    {
        match self {
            NodeRecord::Source(node) => node.stop(),
            NodeRecord::Destination(node) => node.stop(),
            NodeRecord::Mixer(node) => node.stop(),
            NodeRecord::VideoGenerator(node) => node.stop(),
        }
    }

    /// Records an error on the node.
    pub fn mark_error(&mut self, message: String)
        ensures
            node_error(*final(self)) == Some(message),
            node_state(*final(self)) == node_state(*old(self)),
            node_times(*final(self)) == node_times(*old(self)),
            node_id(*final(self)) == node_id(*old(self)),
            node_wf(*old(self)) ==> node_wf(*final(self)),
            outputs_audio(*final(self)) == outputs_audio(*old(self)),
            outputs_video(*final(self)) == outputs_video(*old(self)),
            inputs_audio(*final(self)) == inputs_audio(*old(self)),
            inputs_video(*final(self)) == inputs_video(*old(self)),
    {
        match self {
            NodeRecord::Source(node) => node.mark_error(message),
            NodeRecord::Destination(node) => node.mark_error(message),
            NodeRecord::Mixer(node) => node.mark_error(message),
            NodeRecord::VideoGenerator(node) => node.mark_error(message),
        }
    }

    /// Whether a live pipeline of this consumer takes the medium of the link.
    pub fn accepts_live_input(&self, link_id: &String, audio_medium: bool) -> (b: bool)
        ensures
            b == live_input(*self, link_id@, audio_medium),
    {
        match self {
            NodeRecord::Destination(d) => d.live_pipeline && (if audio_medium {
                d.audio_enabled
            } else {
                d.video_enabled
            }),
            NodeRecord::Mixer(m) => {
                if !m.live_pipeline {
                    return false;
                }
                match m.slot_settings.get(link_id) {
                    None => false,
                    Some(settings) => if audio_medium {
                        m.audio_enabled && has_prefixed_key(settings, "audio::")
                    } else {
                        m.video_enabled && has_prefixed_key(settings, "video::")
                    },
                }
            },
            _ => false,
        }
    }

    /// Adds the link to the consumers of a producer.
    pub fn add_consumer_link(&mut self, link_id: &String, audio: bool, video: bool)
        ensures
            src_linked(*old(self), *final(self), link_id@, audio, video),
    {
        match self {
            NodeRecord::Source(node) => node.add_consumer_link(link_id, audio, video),
            NodeRecord::Mixer(node) => node.connect_output_consumer(link_id, audio, video),
            NodeRecord::VideoGenerator(node) => node.add_consumer_link(link_id, audio, video),
            NodeRecord::Destination(_) => {},
        }
    }

    /// Drops the link from the consumers of a producer.
    pub fn remove_consumer_link(&mut self, link_id: &String)
        ensures
            src_unlinked(*old(self), *final(self), link_id@),
    {
        match self {
            NodeRecord::Source(node) => node.remove_consumer_link(link_id),
            NodeRecord::Mixer(node) => node.disconnect_output_consumer(link_id),
            NodeRecord::VideoGenerator(node) => node.remove_consumer_link(link_id),
            NodeRecord::Destination(_) => {},
        }
    }

    /// Releases the input that a consumer gave the link.
    pub fn disconnect_input(&mut self, link_id: &String)
        requires
            node_wf(*old(self)),
        ensures
            sink_detached(*old(self), *final(self), link_id@),
    {
        match self {
            NodeRecord::Destination(node) => node.disconnect_input(link_id),
            NodeRecord::Mixer(node) => node.disconnect_input_slot(link_id),
            NodeRecord::Source(_) | NodeRecord::VideoGenerator(_) => {},
        }
    }

    /// Gives a consumer the input of a link.
    pub fn connect_input(&mut self, sink_id: &String, link_id: &String, audio: bool, video: bool, config: Option<Table<JsonValue>>) -> (r: Result<(), String>)
        requires
            node_wf(*old(self)),
        ensures
            sink_connected(*old(self), *final(self), sink_id@, *link_id, audio, video, config, r),
    {
        match self {
            NodeRecord::Destination(node) => node.connect_input(link_id, audio, video),
            NodeRecord::Mixer(node) => node.connect_input_slot(link_id, audio, video, config),
            NodeRecord::Source(_) | NodeRecord::VideoGenerator(_) => Err(concat3("Node ", sink_id.as_str(), " is not a consumer")),
        }
    }

    /// Takes the transitions due at `now`, and applies a mixer's control points.
    pub fn refresh_at<F: Fn(Number, Number, i64, i64) -> JsonValue>(&mut self, now: i128, interpolate: &F)
        requires
            interpolation_total(*interpolate),
        ensures
            node_refreshed(*old(self), *final(self), now, *interpolate),
            node_wf(*old(self)) ==> node_wf(*final(self)),
    {
        match self {
            NodeRecord::Source(node) => {
                node.advance_schedule(now);
            },
            NodeRecord::Destination(node) => {
                node.advance_schedule(now);
            },
            NodeRecord::Mixer(node) => {
                node.refresh_at(now, interpolate);
            },
            NodeRecord::VideoGenerator(node) => {
                node.advance_schedule(now);
            },
        }
    }
}

/// `r` is an error with message `msg`.
pub open spec fn errs_with(r: CommandResult, msg: Seq<char>) -> bool {
    r matches CommandResult::Error(e) && e@ == msg
}

/// The graph is sound: each node is sound and keyed by its own id, and each
/// link joins two nodes of the graph.
pub open spec fn graph_wf(nodes: Map<Seq<char>, NodeRecord>, links: Map<Seq<char>, LinkRecord>) -> bool {
    &&& forall|k: Seq<char>| #[trigger] nodes.contains_key(k) ==> node_wf(nodes[k]) && node_id(nodes[k]) == k
    &&& forall|l: Seq<char>|
        #[trigger] links.contains_key(l) ==> nodes.contains_key(links[l].src_id@) && nodes.contains_key(
            links[l].sink_id@,
        )
}

/// Every node of `a` is refreshed at `now` into the node of `b` with its id.
pub open spec fn all_refreshed<F: Fn(Number, Number, i64, i64) -> JsonValue>(
    a: Map<Seq<char>, NodeRecord>,
    b: Map<Seq<char>, NodeRecord>,
    now: i128,
    interpolate: F,
) -> bool {
    &&& a.dom() == b.dom()
    &&& forall|k: Seq<char>| #[trigger] a.contains_key(k) ==> node_refreshed(a[k], b[k], now, interpolate)
}

/// A new source node.
pub open spec fn new_source(n: NodeRecord, id: Seq<char>, uri: Seq<char>, audio: bool, video: bool) -> bool {
    n matches NodeRecord::Source(x) && {
        &&& x.id@ == id
        &&& x.uri@ == uri
        &&& x.audio_enabled == audio
        &&& x.video_enabled == video
        &&& x.audio_consumer_slot_ids@ == Set::<Seq<char>>::empty()
        &&& x.video_consumer_slot_ids@ == Set::<Seq<char>>::empty()
        &&& x.cue_time is None
        &&& x.end_time is None
        &&& x.state == State::Initial
        &&& !x.live_pipeline
        &&& x.last_error is None
    }
}

/// A new video generator node.
pub open spec fn new_video_generator(n: NodeRecord, id: Seq<char>) -> bool {
    n matches NodeRecord::VideoGenerator(x) && {
        &&& x.id@ == id
        &&& !x.audio_enabled
        &&& x.video_enabled
        &&& x.audio_consumer_slot_ids@ == Set::<Seq<char>>::empty()
        &&& x.video_consumer_slot_ids@ == Set::<Seq<char>>::empty()
        &&& x.cue_time is None
        &&& x.end_time is None
        &&& x.state == State::Initial
        &&& !x.live_pipeline
        &&& x.last_error is None
    }
}

/// A new destination node.
pub open spec fn new_destination(n: NodeRecord, id: Seq<char>, family: DestinationFamily, audio: bool, video: bool) -> bool {
    n matches NodeRecord::Destination(x) && {
        &&& x.id@ == id
        &&& x.family == family
        &&& x.audio_enabled == audio
        &&& x.video_enabled == video
        &&& x.audio_slot_id is None
        &&& x.video_slot_id is None
        &&& x.cue_time is None
        &&& x.end_time is None
        &&& x.state == State::Initial
        &&& x.pipeline is None
        &&& !x.live_pipeline
        &&& x.last_error is None
    }
}

/// A new mixer node with the given configuration.
pub open spec fn new_mixer(n: NodeRecord, id: Seq<char>, config: Option<Table<JsonValue>>, audio: bool, video: bool) -> bool {
    n matches NodeRecord::Mixer(x) && {
        &&& x.wf()
        &&& x.id@ == id
        &&& x.audio_enabled == audio
        &&& x.video_enabled == video
        &&& x.slots@ == Map::<Seq<char>, MixerSlotInfo>::empty()
        &&& x.video_consumer_slot_ids@ == Set::<Seq<char>>::empty()
        &&& x.audio_consumer_slot_ids@ == Set::<Seq<char>>::empty()
        &&& x.cue_time is None
        &&& x.end_time is None
        &&& x.state == State::Initial
        &&& mixer_settings_from(x.settings@, config_map(config))
        &&& x.control_points@ == Map::<Seq<char>, Seq<ControlPoint>>::empty()
        &&& x.slot_settings@ == Map::<Seq<char>, Map<Seq<char>, JsonValue>>::empty()
        &&& x.slot_control_points@ == Map::<Seq<char>, Map<Seq<char>, Seq<ControlPoint>>>::empty()
        &&& !x.live_pipeline
        &&& x.last_error is None
    }
}

pub open spec fn msg_duplicate_node(id: Seq<char>) -> Seq<char> {
    "A node already exists with id "@ + id
}

pub open spec fn msg_no_node(id: Seq<char>) -> Seq<char> {
    "No node with id "@ + id
}

/// The key of the bridge that carries medium `media` of producer `src`.
pub open spec fn bridge_key(src: Seq<char>, media: Seq<char>) -> Seq<char> {
    src + ":"@ + media
}

/// `b` with the link dropped from the consumers of bridge `key`; a bridge
/// left without consumers goes.
pub open spec fn bridge_dropped(b: Map<Seq<char>, Set<Seq<char>>>, key: Seq<char>, link: Seq<char>) -> Map<Seq<char>, Set<Seq<char>>> {
    if b.contains_key(key) {
        if b[key].remove(link) == Set::<Seq<char>>::empty() {
            b.remove(key)
        } else {
            b.insert(key, b[key].remove(link))
        }
    } else {
        b
    }
}

/// `b` with the link dropped from the bridges of each medium it carries from `src`.
pub open spec fn bridges_unlinked(b: Map<Seq<char>, Set<Seq<char>>>, src: Seq<char>, link: Seq<char>, audio: bool, video: bool) -> Map<Seq<char>, Set<Seq<char>>> {
    let b1 = if audio {
        bridge_dropped(b, bridge_key(src, "audio"@), link)
    } else {
        b
    };
    if video {
        bridge_dropped(b1, bridge_key(src, "video"@), link)
    } else {
        b1
    }
}

/// The error, if any, that a link request meets before any node changes.
pub open spec fn connect_error(
    nodes: Map<Seq<char>, NodeRecord>,
    links: Map<Seq<char>, LinkRecord>,
    link: Seq<char>,
    src: Seq<char>,
    sink: Seq<char>,
    audio: bool,
    video: bool,
) -> Option<Seq<char>> {
    if !audio && !video {
        Some("Link with id "@ + link + " must have either audio or video enabled"@)
    } else if links.contains_key(link) {
        Some("A link already exists with id "@ + link)
    } else if !nodes.contains_key(src) {
        Some("No producer with id "@ + src)
    } else if !nodes.contains_key(sink) {
        Some("No consumer with id "@ + sink)
    } else if audio && (!outputs_audio(nodes[src]) || !inputs_audio(nodes[sink])) {
        Some("Link "@ + link + " requested audio, but source/sink capabilities do not match"@)
    } else if video && (!outputs_video(nodes[src]) || !inputs_video(nodes[sink])) {
        Some("Link "@ + link + " requested video, but source/sink capabilities do not match"@)
    } else {
        None
    }
}

/// The link record joins `src` to `sink` for these media, with this configuration.
pub open spec fn link_is(rec: LinkRecord, src: Seq<char>, sink: Seq<char>, audio: bool, video: bool, config: Option<Table<JsonValue>>) -> bool {
    &&& rec.src_id@ == src
    &&& rec.sink_id@ == sink
    &&& rec.audio == audio
    &&& rec.video == video
    &&& config_map(rec.config) == config_map(config)
    &&& (rec.config is Some <==> config is Some)
}

/// `b` is `a` with the node at `k`, if there is one, dropping the link from its consumers.
pub open spec fn unlinked_at(a: Map<Seq<char>, NodeRecord>, b: Map<Seq<char>, NodeRecord>, k: Seq<char>, link: Seq<char>) -> bool {
    if a.contains_key(k) {
        b == a.insert(k, b[k]) && src_unlinked(a[k], b[k], link)
    } else {
        b == a
    }
}

/// `b` is `a` with the node at `k`, if there is one, releasing the input of the link.
pub open spec fn detached_at(a: Map<Seq<char>, NodeRecord>, b: Map<Seq<char>, NodeRecord>, k: Seq<char>, link: Seq<char>) -> bool {
    if a.contains_key(k) {
        b == a.insert(k, b[k]) && sink_detached(a[k], b[k], link)
    } else {
        b == a
    }
}

/// `r` succeeds when `err` is `None`, and otherwise is the error `err` holds.
pub open spec fn cmd_checked(r: CommandResult, err: Option<Seq<char>>) -> bool {
    match err {
        None => r is Success,
        Some(e) => errs_with(r, e),
    }
}

/// `b` is `a` with the error `msg` recorded.
pub open spec fn node_marked(a: NodeRecord, b: NodeRecord, msg: Seq<char>) -> bool {
    &&& node_error(b) matches Some(e) && e@ == msg
    &&& node_id(b) == node_id(a)
    &&& node_state(b) == node_state(a)
    &&& node_times(b) == node_times(a)
    &&& outputs_audio(b) == outputs_audio(a)
    &&& outputs_video(b) == outputs_video(a)
    &&& inputs_audio(b) == inputs_audio(a)
    &&& inputs_video(b) == inputs_video(a)
    &&& node_wf(a) ==> node_wf(b)
}

/// The link touches node `id` at either end.
pub open spec fn touches(rec: LinkRecord, id: Seq<char>) -> bool {
    rec.src_id@ == id || rec.sink_id@ == id
}

/// The links of `m` that do not touch node `id`.
pub open spec fn links_without_node(m: Map<Seq<char>, LinkRecord>, id: Seq<char>) -> Map<Seq<char>, LinkRecord> {
    Map::new(|l: Seq<char>| m.contains_key(l) && !touches(m[l], id), |l: Seq<char>| m[l])
}

pub proof fn lemma_disconnect_frames(
    a: Map<Seq<char>, NodeRecord>,
    mid: Map<Seq<char>, NodeRecord>,
    b: Map<Seq<char>, NodeRecord>,
    src: Seq<char>,
    sink: Seq<char>,
    link: Seq<char>,
)
    requires
        unlinked_at(a, mid, src, link),
        detached_at(mid, b, sink, link),
    ensures
        b.dom() == a.dom(),
        forall|k: Seq<char>| #[trigger] a.contains_key(k) ==> node_frame(a[k], b[k]),
{
    assert(mid.dom() =~= a.dom());
    assert(b.dom() =~= mid.dom());
    assert forall|k: Seq<char>| #[trigger] a.contains_key(k) implies node_frame(a[k], b[k]) by {
        assert(node_frame(a[k], mid[k]));
        assert(node_frame(mid[k], b[k]));
    }
}

/// Some key of `m` begins with `prefix`.
pub open spec fn has_key_with_prefix(m: Map<Seq<char>, JsonValue>, prefix: Seq<char>) -> bool {
    exists|k: Seq<char>| #[trigger] m.contains_key(k) && prefix.is_prefix_of(k)
}

/// A live pipeline of consumer `n` takes the medium (audio, else video) of
/// the link: a destination's does for each medium it takes, a mixer's for
/// each slot with settings of that medium.
pub open spec fn live_input(n: NodeRecord, link: Seq<char>, audio_medium: bool) -> bool {
    match n {
        NodeRecord::Destination(d) => d.live_pipeline && (if audio_medium {
            d.audio_enabled
        } else {
            d.video_enabled
        }),
        NodeRecord::Mixer(m) => m.live_pipeline && m.slot_settings@.contains_key(link) && (if audio_medium {
            m.audio_enabled && has_key_with_prefix(m.slot_settings@[link], "audio::"@)
        } else {
            m.video_enabled && has_key_with_prefix(m.slot_settings@[link], "video::"@)
        }),
        _ => false,
    }
}

/// Link `l` carries a medium over bridge `key`.
pub open spec fn carries(links: Map<Seq<char>, LinkRecord>, l: Seq<char>, key: Seq<char>) -> bool {
    links.contains_key(l) && ((links[l].audio && key == bridge_key(links[l].src_id@, "audio"@)) || (links[l].video
        && key == bridge_key(links[l].src_id@, "video"@)))
}

/// Link `l` feeds a live input over bridge `key`.
pub open spec fn feeds(nodes: Map<Seq<char>, NodeRecord>, links: Map<Seq<char>, LinkRecord>, l: Seq<char>, key: Seq<char>) -> bool {
    links.contains_key(l) && nodes.contains_key(links[l].sink_id@) && ((links[l].audio && key == bridge_key(
        links[l].src_id@,
        "audio"@,
    ) && live_input(nodes[links[l].sink_id@], l, true)) || (links[l].video && key == bridge_key(
        links[l].src_id@,
        "video"@,
    ) && live_input(nodes[links[l].sink_id@], l, false)))
}

/// The consumers of bridge `key` once the links are in line: those it had
/// that no link carries over it, and the links that feed a live input over it.
pub open spec fn bridge_members(
    before: Map<Seq<char>, Set<Seq<char>>>,
    nodes: Map<Seq<char>, NodeRecord>,
    links: Map<Seq<char>, LinkRecord>,
    key: Seq<char>,
) -> Set<Seq<char>> {
    Set::new(
        |c: Seq<char>|
            (before.contains_key(key) && before[key].contains(c) && !carries(links, c, key)) || feeds(
                nodes,
                links,
                c,
                key,
            ),
    )
}

/// `after` holds each bridge with consumers once the links are in line.
pub open spec fn bridges_synced(
    before: Map<Seq<char>, Set<Seq<char>>>,
    nodes: Map<Seq<char>, NodeRecord>,
    links: Map<Seq<char>, LinkRecord>,
    after: Map<Seq<char>, Set<Seq<char>>>,
) -> bool {
    forall|key: Seq<char>|
        #[trigger] after.contains_key(key) == (bridge_members(before, nodes, links, key) != Set::<Seq<char>>::empty())
            && (after.contains_key(key) ==> after[key] == bridge_members(before, nodes, links, key))
}

proof fn lemma_media_keys_differ(src: Seq<char>)
    ensures
        bridge_key(src, "audio"@) != bridge_key(src, "video"@),
{
    reveal_strlit("audio");
    reveal_strlit("video");
    reveal_strlit(":");
    let a = bridge_key(src, "audio"@);
    let v = bridge_key(src, "video"@);
    assert(a[src.len() as int + 1] == 'a');
    assert(v[src.len() as int + 1] == 'v');
}

/// Whether some key of the table begins with `prefix`.
pub fn has_prefixed_key(m: &Table<JsonValue>, prefix: &str) -> (r: bool)
    ensures
        r == has_key_with_prefix(m@, prefix@),
{
    let entries = m.entries();
    let mut i: usize = 0;
    while i < entries.len()
        invariant
            i <= entries@.len(),
            entries_map(entries@) == m@,
            keys_unique(entries@),
            forall|j: int| 0 <= j < i ==> !prefix@.is_prefix_of(#[trigger] entries@[j].0@),
        decreases entries@.len() - i,
    {
        if starts_with(entries[i].0.as_str(), prefix) {
            proof {
                lemma_key_index_unique(entries@, i as int);
                assert(m@.contains_key(entries@[i as int].0@));
            }
            return true;
        }
        i = i + 1;
    }
    proof {
        if has_key_with_prefix(m@, prefix@) {
            let k = choose|k: Seq<char>| #[trigger] m@.contains_key(k) && prefix@.is_prefix_of(k);
            let j = choose|j: int| 0 <= j < entries@.len() && #[trigger] entries@[j].0@ == k;
        }
    }
    false
}

/// Sets whether the link consumes bridge `key`, opening the bridge when needed.
fn set_bridge_consumer(bridges: &mut Table<StrSet>, key: String, link_id: &String, member: bool)
    ensures
        final(bridges)@ == old(bridges)@.insert(
            key@,
            if member {
                (if old(bridges)@.contains_key(key@) {
                    old(bridges)@[key@]
                } else {
                    Set::<Seq<char>>::empty()
                }).insert(link_id@)
            } else {
                (if old(bridges)@.contains_key(key@) {
                    old(bridges)@[key@]
                } else {
                    Set::<Seq<char>>::empty()
                }).remove(link_id@)
            },
        ),
{
    let mut bridge = match bridges.remove(&key) {
        Some(b) => b,
        None => StrSet::new(),
    };
    if member {
        bridge.insert(link_id.clone());
    } else {
        bridge.remove(link_id);
    }
    bridges.insert(key, bridge);
    assert(bridges@ =~= old(bridges)@.insert(key@, bridges@[key@]));
}

/// The bridges of `m` that have consumers.
pub open spec fn nonempty_bridges(m: Map<Seq<char>, Set<Seq<char>>>) -> Map<Seq<char>, Set<Seq<char>>> {
    Map::new(|k: Seq<char>| m.contains_key(k) && m[k] != Set::<Seq<char>>::empty(), |k: Seq<char>| m[k])
}

/// Drops the bridges that have no consumers.
fn drop_empty_bridges(bridges: &mut Table<StrSet>)
    ensures
        final(bridges)@ == nonempty_bridges(old(bridges)@),
{
    let ghost before = bridges@;
    let mut taken: Table<StrSet> = Table::new();
    std::mem::swap(&mut taken, bridges);
    let mut entries = taken.into_entries();
    let ghost s = entries@;
    let mut kept: Vec<(String, StrSet)> = Vec::new();
    let n = entries.len();
    let mut i: usize = 0;
    while i < n
        invariant
            n == s.len(),
            keys_unique(s),
            entries_map(s) == before,
            i <= n,
            entries@.len() == n - i,
            forall|j: int| 0 <= j < entries@.len() ==> #[trigger] entries@[j] == s[i + j],
            keys_unique(kept@),
            forall|j: int| 0 <= j < kept@.len() ==> exists|p: int| 0 <= p < i && #[trigger] s[p].0@ == (#[trigger] kept@[j]).0@ && kept@[j].1@ == s[p].1@,
            forall|p: int| 0 <= p < i && s[p].1@ != Set::<Seq<char>>::empty() ==> has_key(kept@, #[trigger] s[p].0@),
            forall|j: int| 0 <= j < kept@.len() ==> (#[trigger] kept@[j]).1@ != Set::<Seq<char>>::empty(),
        decreases n - i,
    {
        proof {
            lemma_key_index_unique(s, i as int);
        }
        let (k, b) = entries.remove(0);
        assert(k@ == s[i as int].0@ && b@ == s[i as int].1@);
        if !b.is_empty() {
            let ghost prev = kept@;
            proof {
                if has_key(prev, k@) {
                    let j = choose|j: int| 0 <= j < prev.len() && #[trigger] prev[j].0@ == k@;
                    let p = choose|p: int| 0 <= p < i && #[trigger] s[p].0@ == (#[trigger] prev[j]).0@ && prev[j].1@ == s[p].1@;
                    assert(s[p].0@ != s[i as int].0@);
                }
                lemma_entries_push(prev, k, b);
            }
            kept.push((k, b));
            proof {
                assert forall|j: int| 0 <= j < kept@.len() implies exists|p: int| 0 <= p < i + 1 && #[trigger] s[p].0@ == (#[trigger] kept@[j]).0@ && kept@[j].1@ == s[p].1@ by {
                    if j < prev.len() {
                        assert(kept@[j] == prev[j]);
                        let p = choose|p: int| 0 <= p < i && #[trigger] s[p].0@ == (#[trigger] prev[j]).0@ && prev[j].1@ == s[p].1@;
                        assert(0 <= p < i + 1);
                    } else {
                        assert(s[i as int].0@ == kept@[j].0@);
                    }
                }
                assert forall|p: int| 0 <= p < i + 1 && s[p].1@ != Set::<Seq<char>>::empty() implies has_key(kept@, #[trigger] s[p].0@) by {
                    if p < i {
                        let j = choose|j: int| 0 <= j < prev.len() && #[trigger] prev[j].0@ == s[p].0@;
                        assert(kept@[j] == prev[j]);
                    } else {
                        assert(kept@[prev.len() as int].0@ == s[p].0@);
                    }
                }
            }
        }
        i = i + 1;
    }
    proof {
        let m = entries_map(kept@);
        assert forall|k: Seq<char>| m.contains_key(k) == nonempty_bridges(before).contains_key(k) by {
            if m.contains_key(k) {
                let j = choose|j: int| 0 <= j < kept@.len() && #[trigger] kept@[j].0@ == k;
                let p = choose|p: int| 0 <= p < n && #[trigger] s[p].0@ == (#[trigger] kept@[j]).0@ && kept@[j].1@ == s[p].1@;
                lemma_key_index_unique(s, p);
            }
            if nonempty_bridges(before).contains_key(k) {
                let p = choose|p: int| 0 <= p < n && #[trigger] s[p].0@ == k;
                lemma_key_index_unique(s, p);
            }
        }
        assert forall|k: Seq<char>| #[trigger] m.contains_key(k) implies m[k] == before[k] by {
            let j = choose|j: int| 0 <= j < kept@.len() && #[trigger] kept@[j].0@ == k;
            lemma_key_index_unique(kept@, j);
            let p = choose|p: int| 0 <= p < n && #[trigger] s[p].0@ == (#[trigger] kept@[j]).0@ && kept@[j].1@ == s[p].1@;
            lemma_key_index_unique(s, p);
        }
        assert(m =~= nonempty_bridges(before));
    }
    *bridges = Table::from_entries(kept);
}

/// The string an optional reference points to, if any.
pub open spec fn opt_owned(id: Option<&String>) -> Option<String> {
    match id {
        Some(k) => Some(*k),
        None => None,
    }
}

pub open spec fn create_video_generator_done(before: NodeManager, after: NodeManager, id: String, r: CommandResult) -> bool {
    &&& after.links@ == before.links@
    &&& after.started == before.started
    &&& after.media_bridges@ == before.media_bridges@
    &&& before.nodes@.contains_key(id@) ==> errs_with(r, msg_duplicate_node(id@)) && after.nodes@
                == before.nodes@
    &&& !before.nodes@.contains_key(id@) ==> r is Success && after.nodes@ == before.nodes@.insert(
                id@,
                after.nodes@[id@],
            ) && new_video_generator(after.nodes@[id@], id@)
}

pub open spec fn create_source_done(before: NodeManager, after: NodeManager, id: String, uri: String, audio: bool, video: bool, r: CommandResult) -> bool {
    &&& after.links@ == before.links@
    &&& after.started == before.started
    &&& after.media_bridges@ == before.media_bridges@
    &&& before.nodes@.contains_key(id@) ==> errs_with(r, msg_duplicate_node(id@))
    &&& !before.nodes@.contains_key(id@) && !audio && !video ==> errs_with(
                r,
                "Source with id "@ + id@ + " must have either audio or video enabled"@,
            )
    &&& r is Error ==> after.nodes@ == before.nodes@
    &&& !before.nodes@.contains_key(id@) && (audio || video) ==> r is Success && after.nodes@
                == before.nodes@.insert(id@, after.nodes@[id@]) && new_source(
                after.nodes@[id@],
                id@,
                uri@,
                audio,
                video,
            )
}

pub open spec fn create_destination_done(before: NodeManager, after: NodeManager, id: String, family: DestinationFamily, audio: bool, video: bool, r: CommandResult) -> bool {
    &&& after.links@ == before.links@
    &&& after.started == before.started
    &&& after.media_bridges@ == before.media_bridges@
    &&& before.nodes@.contains_key(id@) ==> errs_with(r, msg_duplicate_node(id@))
    &&& !before.nodes@.contains_key(id@) && !audio && !video ==> errs_with(
                r,
                "Destination with id "@ + id@ + " must have either audio or video enabled"@,
            )
    &&& r is Error ==> after.nodes@ == before.nodes@
    &&& !before.nodes@.contains_key(id@) && (audio || video) ==> r is Success && after.nodes@
                == before.nodes@.insert(id@, after.nodes@[id@]) && new_destination(
                after.nodes@[id@],
                id@,
                family,
                audio,
                video,
            )
}

pub open spec fn create_mixer_done(before: NodeManager, after: NodeManager, id: String, config: Option<Table<JsonValue>>, audio: bool, video: bool, r: CommandResult) -> bool {
    &&& after.links@ == before.links@
    &&& after.started == before.started
    &&& after.media_bridges@ == before.media_bridges@
    &&& before.nodes@.contains_key(id@) ==> errs_with(r, msg_duplicate_node(id@))
    &&& !before.nodes@.contains_key(id@) && !audio && !video ==> errs_with(
                r,
                "Mixer with id "@ + id@ + " must have either audio or video enabled"@,
            )
    &&& r is Error ==> after.nodes@ == before.nodes@
    &&& !before.nodes@.contains_key(id@) && (audio || video) ==> match r {
                CommandResult::Error(e) => config_checked(config, Err::<(), String>(e)),
                CommandResult::Success => config_checked(config, Ok::<(), String>(())) && after.nodes@
                    == before.nodes@.insert(id@, after.nodes@[id@]) && new_mixer(
                    after.nodes@[id@],
                    id@,
                    config,
                    audio,
                    video,
                ),
                CommandResult::Info(_) => false,
            }
}

pub open spec fn get_info_done(before: NodeManager, id: Option<String>, r: CommandResult) -> bool {
    &&& match id {
                Some(k) => if before.nodes@.contains_key(k@) {
                    r matches CommandResult::Info(info) && info.nodes@.dom() == set![k@] && reports(
                        before.nodes@[k@],
                        info.nodes@[k@],
                    )
                } else {
                    errs_with(r, msg_no_node(k@))
                },
                None => r matches CommandResult::Info(info) && info.nodes@.dom() == before.nodes@.dom() && forall|
                    k: Seq<char>,
                | #[trigger] before.nodes@.contains_key(k) ==> reports(before.nodes@[k], info.nodes@[k]),
            }
}

pub open spec fn connect_done(before: NodeManager, after: NodeManager, link_id: String, src_id: String, sink_id: String, audio: bool, video: bool, config: Option<Table<JsonValue>>, r: CommandResult) -> bool {
    &&& after.started == before.started
    &&& after.media_bridges@ == before.media_bridges@
    &&& match connect_error(before.nodes@, before.links@, link_id@, src_id@, sink_id@, audio, video) {
                Some(e) => errs_with(r, e) && after.nodes@ == before.nodes@ && after.links@
                    == before.links@,
                None => exists|m: NodeRecord, res: Result<(), String>|
                    #![trigger sink_connected(before.nodes@[sink_id@], m, sink_id@, link_id, audio, video, config, res)]
                    sink_connected(before.nodes@[sink_id@], m, sink_id@, link_id, audio, video, config, res)
                        && match res {
                        Err(e) => errs_with(r, e@) && after.nodes@ == before.nodes@.insert(sink_id@, m)
                            && after.links@ == before.links@,
                        Ok(_) => {
                            let mid = before.nodes@.insert(sink_id@, m);
                            &&& r is Success
                            &&& src_linked(mid[src_id@], after.nodes@[src_id@], link_id@, audio, video)
                            &&& after.nodes@ == mid.insert(src_id@, after.nodes@[src_id@])
                            &&& after.links@ == before.links@.insert(link_id@, after.links@[link_id@])
                            &&& link_is(after.links@[link_id@], src_id@, sink_id@, audio, video, config)
                        },
                    },
            }
}

/// Every producer whose video is enabled (a source, a mixer or a video
/// generator) can feed a destination that takes video and has its video
/// input free: a video link between them, under a new id, is accepted, and
/// the destination's video input is then that link.
pub proof fn law_video_producer_feeds_free_destination(
    before: NodeManager,
    after: NodeManager,
    link_id: String,
    src_id: String,
    sink_id: String,
    config: Option<Table<JsonValue>>,
    r: CommandResult,
)
    requires
        connect_done(before, after, link_id, src_id, sink_id, false, true, config, r),
        !before.links@.contains_key(link_id@),
        before.nodes@.contains_key(src_id@),
        before.nodes@.contains_key(sink_id@),
        match before.nodes@[src_id@] {
            NodeRecord::Source(s) => s.video_enabled,
            NodeRecord::Mixer(m) => m.video_enabled,
            NodeRecord::VideoGenerator(g) => g.video_enabled,
            NodeRecord::Destination(_) => false,
        },
        before.nodes@[sink_id@] matches NodeRecord::Destination(d) && d.video_enabled && d.video_slot_id is None,
    ensures
        r is Success,
        after.nodes@[sink_id@] matches NodeRecord::Destination(d) && d.video_slot_id == Some(link_id),
        after.links@.contains_key(link_id@),
{
    assert(connect_error(before.nodes@, before.links@, link_id@, src_id@, sink_id@, false, true) is None);
    let (m, res) = choose|m: NodeRecord, res: Result<(), String>|
        #![trigger sink_connected(before.nodes@[sink_id@], m, sink_id@, link_id, false, true, config, res)]
        sink_connected(before.nodes@[sink_id@], m, sink_id@, link_id, false, true, config, res) && match res {
            Err(e) => errs_with(r, e@) && after.nodes@ == before.nodes@.insert(sink_id@, m) && after.links@ == before.links@,
            Ok(_) => {
                let mid = before.nodes@.insert(sink_id@, m);
                &&& r is Success
                &&& src_linked(mid[src_id@], after.nodes@[src_id@], link_id@, false, true)
                &&& after.nodes@ == mid.insert(src_id@, after.nodes@[src_id@])
                &&& after.links@ == before.links@.insert(link_id@, after.links@[link_id@])
                &&& link_is(after.links@[link_id@], src_id@, sink_id@, false, true, config)
            },
        };
    assert(src_id@ != sink_id@);
    assert(m is Destination);
    assert(res is Ok);
}

/// Every producer whose audio is enabled (a source, a mixer or a video
/// generator) can feed a destination that takes audio and has its audio
/// input free: an audio link between them, under a new id, is accepted, and
/// the destination's audio input is then that link.
pub proof fn law_audio_producer_feeds_free_destination(
    before: NodeManager,
    after: NodeManager,
    link_id: String,
    src_id: String,
    sink_id: String,
    config: Option<Table<JsonValue>>,
    r: CommandResult,
)
    requires
        connect_done(before, after, link_id, src_id, sink_id, true, false, config, r),
        !before.links@.contains_key(link_id@),
        before.nodes@.contains_key(src_id@),
        before.nodes@.contains_key(sink_id@),
        match before.nodes@[src_id@] {
            NodeRecord::Source(s) => s.audio_enabled,
            NodeRecord::Mixer(m) => m.audio_enabled,
            NodeRecord::VideoGenerator(g) => g.audio_enabled,
            NodeRecord::Destination(_) => false,
        },
        before.nodes@[sink_id@] matches NodeRecord::Destination(d) && d.audio_enabled && d.audio_slot_id is None,
    ensures
        r is Success,
        after.nodes@[sink_id@] matches NodeRecord::Destination(d) && d.audio_slot_id == Some(link_id),
        after.links@.contains_key(link_id@),
{
    assert(connect_error(before.nodes@, before.links@, link_id@, src_id@, sink_id@, true, false) is None);
    let (m, res) = choose|m: NodeRecord, res: Result<(), String>|
        #![trigger sink_connected(before.nodes@[sink_id@], m, sink_id@, link_id, true, false, config, res)]
        sink_connected(before.nodes@[sink_id@], m, sink_id@, link_id, true, false, config, res) && match res {
            Err(e) => errs_with(r, e@) && after.nodes@ == before.nodes@.insert(sink_id@, m) && after.links@ == before.links@,
            Ok(_) => {
                let mid = before.nodes@.insert(sink_id@, m);
                &&& r is Success
                &&& src_linked(mid[src_id@], after.nodes@[src_id@], link_id@, true, false)
                &&& after.nodes@ == mid.insert(src_id@, after.nodes@[src_id@])
                &&& after.links@ == before.links@.insert(link_id@, after.links@[link_id@])
                &&& link_is(after.links@[link_id@], src_id@, sink_id@, true, false, config)
            },
        };
    assert(src_id@ != sink_id@);
    assert(m is Destination);
    assert(res is Ok);
}

pub open spec fn disconnect_done(before: NodeManager, after: NodeManager, link_id: String, r: CommandResult) -> bool {
    &&& after.started == before.started
    &&& !before.links@.contains_key(link_id@) ==> errs_with(r, "No link with id "@ + link_id@) && after.nodes@
                == before.nodes@ && after.links@ == before.links@ && after.media_bridges@
                == before.media_bridges@
    &&& before.links@.contains_key(link_id@) ==> {
                let rec = before.links@[link_id@];
                &&& r is Success
                &&& after.links@ == before.links@.remove(link_id@)
                &&& after.media_bridges@ == bridges_unlinked(before.media_bridges@, rec.src_id@, link_id@, rec.audio, rec.video)
                &&& exists|mid: Map<Seq<char>, NodeRecord>|
                    #[trigger] unlinked_at(before.nodes@, mid, rec.src_id@, link_id@) && detached_at(
                        mid,
                        after.nodes@,
                        rec.sink_id@,
                        link_id@,
                    )
            }
}

pub open spec fn schedule_node_done<F: Fn(Number, Number, i64, i64) -> JsonValue>(before: NodeManager, after: NodeManager, id: String, cue_time: Option<i128>, end_time: Option<i128>, now: i128, interpolate: F, r: CommandResult) -> bool {
    &&& after.links@ == before.links@
    &&& after.started == before.started
    &&& after.media_bridges@ == before.media_bridges@
    &&& !before.nodes@.contains_key(id@) ==> errs_with(r, msg_no_node(id@)) && after.nodes@
                == before.nodes@
    &&& before.nodes@.contains_key(id@) ==> exists|m: NodeRecord, res: Result<(), String>|
                #![trigger node_scheduled(before.nodes@[id@], m, cue_time, end_time, now, interpolate, res)]
                node_scheduled(before.nodes@[id@], m, cue_time, end_time, now, interpolate, res)
                    && after.nodes@ == before.nodes@.insert(id@, after.nodes@[id@]) && match res {
                    Ok(_) => r is Success && after.nodes@[id@] == m,
                    Err(e) => errs_with(r, e@) && node_marked(m, after.nodes@[id@], e@),
                }
}

/// Link `l` of `links` carries a medium over bridge `key`.
pub open spec fn feeds_bridge(links: Map<Seq<char>, LinkRecord>, l: Seq<char>, key: Seq<char>) -> bool {
    (links[l].audio && key == bridge_key(links[l].src_id@, "audio"@)) || (links[l].video && key == bridge_key(
        links[l].src_id@,
        "video"@,
    ))
}

/// The bridges `b` once the links `dropped(key)` have left each bridge
/// `key`: a bridge that some link left goes when it has no consumer left.
pub open spec fn bridges_left(
    b: Map<Seq<char>, Set<Seq<char>>>,
    dropped: spec_fn(Seq<char>) -> Set<Seq<char>>,
) -> Map<Seq<char>, Set<Seq<char>>> {
    Map::new(
        |key: Seq<char>|
            b.contains_key(key) && (dropped(key) == Set::<Seq<char>>::empty() || b[key].difference(dropped(key))
                != Set::<Seq<char>>::empty()),
        |key: Seq<char>| b[key].difference(dropped(key)),
    )
}

/// The links of `links` that touch node `id` and feed bridge `key`.
pub open spec fn node_feeds(links: Map<Seq<char>, LinkRecord>, id: Seq<char>) -> spec_fn(Seq<char>) -> Set<Seq<char>> {
    |key: Seq<char>| Set::new(|l: Seq<char>| links.contains_key(l) && touches(links[l], id) && feeds_bridge(links, l, key))
}

/// The first `t` links of `touching` that feed bridge `key`.
pub open spec fn fed_among(touching: Seq<String>, t: int, links: Map<Seq<char>, LinkRecord>) -> spec_fn(Seq<char>) -> Set<Seq<char>> {
    |key: Seq<char>| Set::new(|l: Seq<char>| exists|j: int| 0 <= j < t && #[trigger] touching[j]@ == l && feeds_bridge(links, l, key))
}

proof fn lemma_bridges_left_ext(
    b: Map<Seq<char>, Set<Seq<char>>>,
    f: spec_fn(Seq<char>) -> Set<Seq<char>>,
    g: spec_fn(Seq<char>) -> Set<Seq<char>>,
)
    requires
        forall|key: Seq<char>| #[trigger] f(key) == g(key),
    ensures
        bridges_left(b, f) == bridges_left(b, g),
{
    assert(bridges_left(b, f) =~= bridges_left(b, g));
}

proof fn lemma_bridges_left_none(b: Map<Seq<char>, Set<Seq<char>>>, f: spec_fn(Seq<char>) -> Set<Seq<char>>)
    requires
        forall|key: Seq<char>| #[trigger] f(key) == Set::<Seq<char>>::empty(),
    ensures
        bridges_left(b, f) == b,
{
    assert forall|key: Seq<char>| #[trigger] b.contains_key(key) implies b[key].difference(f(key)) == b[key] by {
        assert(b[key].difference(f(key)) =~= b[key]);
    }
    assert(bridges_left(b, f) =~= b);
}

/// Dropping one more link from bridge `key0` is leaving it out of that bridge too.
proof fn lemma_bridges_left_drop(
    b: Map<Seq<char>, Set<Seq<char>>>,
    f: spec_fn(Seq<char>) -> Set<Seq<char>>,
    key0: Seq<char>,
    link: Seq<char>,
)
    ensures
        bridge_dropped(bridges_left(b, f), key0, link) == bridges_left(
            b,
            |key: Seq<char>| if key == key0 { f(key).insert(link) } else { f(key) },
        ),
{
    let g = |key: Seq<char>| if key == key0 { f(key).insert(link) } else { f(key) };
    let left = bridges_left(b, f);
    let after = bridges_left(b, g);
    assert(b.contains_key(key0) ==> b[key0].difference(f(key0)).remove(link) =~= b[key0].difference(g(key0)));
    if b.contains_key(key0) && f(key0) != Set::<Seq<char>>::empty() && b[key0].difference(f(key0)) == Set::<Seq<char>>::empty() {
        assert(b[key0].difference(g(key0)) =~= Set::<Seq<char>>::empty());
    }
    if b.contains_key(key0) {
        assert(g(key0).contains(link));
        assert(g(key0) != Set::<Seq<char>>::empty());
    }
    assert(bridge_dropped(left, key0, link) =~= after);
}

/// Disconnecting the next link of `touching` drops it from the bridges it feeds.
proof fn lemma_remove_bridges_step(
    start: Map<Seq<char>, Set<Seq<char>>>,
    links: Map<Seq<char>, LinkRecord>,
    prev: Map<Seq<char>, Set<Seq<char>>>,
    after: Map<Seq<char>, Set<Seq<char>>>,
    touching: Seq<String>,
    t: int,
)
    requires
        0 <= t < touching.len(),
        prev == bridges_left(start, fed_among(touching, t, links)),
        after == bridges_unlinked(
            prev,
            links[touching[t]@].src_id@,
            touching[t]@,
            links[touching[t]@].audio,
            links[touching[t]@].video,
        ),
    ensures
        after == bridges_left(start, fed_among(touching, t + 1, links)),
{
    let link = touching[t]@;
    let rec = links[link];
    let ka = bridge_key(rec.src_id@, "audio"@);
    let kv = bridge_key(rec.src_id@, "video"@);
    let f = fed_among(touching, t, links);
    let f1 = |key: Seq<char>| if key == ka { f(key).insert(link) } else { f(key) };
    let g1 = if rec.audio { f1 } else { f };
    let b1 = if rec.audio { bridge_dropped(prev, ka, link) } else { prev };
    if rec.audio {
        lemma_bridges_left_drop(start, f, ka, link);
    }
    assert(b1 == bridges_left(start, g1));
    let f2 = |key: Seq<char>| if key == kv { g1(key).insert(link) } else { g1(key) };
    let g2 = if rec.video { f2 } else { g1 };
    if rec.video {
        lemma_bridges_left_drop(start, g1, kv, link);
    }
    assert(after == bridges_left(start, g2));
    let h = fed_among(touching, t + 1, links);
    assert forall|key: Seq<char>| #[trigger] g2(key) == h(key) by {
        assert forall|l: Seq<char>| #[trigger] g2(key).contains(l) <==> h(key).contains(l) by {
            if h(key).contains(l) {
                let j = choose|j: int| 0 <= j < t + 1 && #[trigger] touching[j]@ == l && feeds_bridge(links, l, key);
                if j < t {
                    assert(f(key).contains(l));
                } else {
                    assert(l == link);
                }
            }
            if f(key).contains(l) {
                let j = choose|j: int| 0 <= j < t && #[trigger] touching[j]@ == l && feeds_bridge(links, l, key);
                assert(h(key).contains(l));
            }
            if l == link && feeds_bridge(links, l, key) {
                assert(touching[t]@ == l);
                assert(h(key).contains(l));
            }
        }
        assert(g2(key) =~= h(key));
    }
    lemma_bridges_left_ext(start, g2, h);
}

/// The first `t` links of `touching` that leave node `k`.
pub open spec fn sent_among(touching: Seq<String>, t: int, links: Map<Seq<char>, LinkRecord>, k: Seq<char>) -> Set<Seq<char>> {
    Set::new(|l: Seq<char>| exists|j: int| 0 <= j < t && #[trigger] touching[j]@ == l && links[l].src_id@ == k)
}

/// The first `t` links of `touching` that enter node `k`.
pub open spec fn taken_among(touching: Seq<String>, t: int, links: Map<Seq<char>, LinkRecord>, k: Seq<char>) -> Set<Seq<char>> {
    Set::new(|l: Seq<char>| exists|j: int| 0 <= j < t && #[trigger] touching[j]@ == l && links[l].sink_id@ == k)
}

/// Disconnecting the next link that touches node `id` cuts each other node
/// off from it on its side of the link.
proof fn lemma_remove_step(
    before_nodes: Map<Seq<char>, NodeRecord>,
    links: Map<Seq<char>, LinkRecord>,
    prev: Map<Seq<char>, NodeRecord>,
    mid: Map<Seq<char>, NodeRecord>,
    after: Map<Seq<char>, NodeRecord>,
    touching: Seq<String>,
    t: int,
    id: Seq<char>,
)
    requires
        0 <= t < touching.len(),
        links.contains_key(touching[t]@),
        touches(links[touching[t]@], id),
        forall|k: Seq<char>| #[trigger] prev.contains_key(k) && k != id ==> cut_off(
            before_nodes[k],
            prev[k],
            sent_among(touching, t, links, k),
            taken_among(touching, t, links, k),
        ),
        unlinked_at(prev, mid, links[touching[t]@].src_id@, touching[t]@),
        detached_at(mid, after, links[touching[t]@].sink_id@, touching[t]@),
    ensures
        after.dom() == prev.dom(),
        forall|k: Seq<char>| #[trigger] after.contains_key(k) && k != id ==> cut_off(
            before_nodes[k],
            after[k],
            sent_among(touching, t + 1, links, k),
            taken_among(touching, t + 1, links, k),
        ),
{
    let link = touching[t]@;
    let rec = links[link];
    assert(mid.dom() =~= prev.dom());
    assert(after.dom() =~= mid.dom());
    assert forall|k: Seq<char>| #[trigger] after.contains_key(k) && k != id implies cut_off(
        before_nodes[k],
        after[k],
        sent_among(touching, t + 1, links, k),
        taken_among(touching, t + 1, links, k),
    ) by {
        let outs = sent_among(touching, t, links, k);
        let ins = taken_among(touching, t, links, k);
        assert(prev.contains_key(k));
        if rec.src_id@ == k {
            assert(rec.sink_id@ == id);
            assert(mid[k] == after[k]);
            lemma_cut_off_unlinked(before_nodes[k], prev[k], mid[k], outs, ins, link);
            assert forall|l: Seq<char>| sent_among(touching, t + 1, links, k).contains(l) <==> outs.insert(link).contains(l) by {
                if sent_among(touching, t + 1, links, k).contains(l) {
                    let j = choose|j: int| 0 <= j < t + 1 && #[trigger] touching[j]@ == l && links[l].src_id@ == k;
                    if j < t {
                        assert(outs.contains(l));
                    }
                }
                if outs.contains(l) {
                    let j = choose|j: int| 0 <= j < t && #[trigger] touching[j]@ == l && links[l].src_id@ == k;
                    assert(sent_among(touching, t + 1, links, k).contains(l));
                }
                if l == link {
                    assert(touching[t]@ == l);
                    assert(sent_among(touching, t + 1, links, k).contains(l));
                }
            }
            assert(sent_among(touching, t + 1, links, k) =~= outs.insert(link));
            assert forall|l: Seq<char>| taken_among(touching, t + 1, links, k).contains(l) <==> ins.contains(l) by {
                if taken_among(touching, t + 1, links, k).contains(l) {
                    let j = choose|j: int| 0 <= j < t + 1 && #[trigger] touching[j]@ == l && links[l].sink_id@ == k;
                    if j == t {
                        assert(l == link);
                        assert(false);
                    }
                }
                if ins.contains(l) {
                    let j = choose|j: int| 0 <= j < t && #[trigger] touching[j]@ == l && links[l].sink_id@ == k;
                    assert(taken_among(touching, t + 1, links, k).contains(l));
                }
            }
            assert(taken_among(touching, t + 1, links, k) =~= ins);
        } else if rec.sink_id@ == k {
            assert(rec.src_id@ == id);
            assert(mid[k] == prev[k]);
            lemma_cut_off_detached(before_nodes[k], prev[k], after[k], outs, ins, link);
            assert forall|l: Seq<char>| taken_among(touching, t + 1, links, k).contains(l) <==> ins.insert(link).contains(l) by {
                if taken_among(touching, t + 1, links, k).contains(l) {
                    let j = choose|j: int| 0 <= j < t + 1 && #[trigger] touching[j]@ == l && links[l].sink_id@ == k;
                    if j < t {
                        assert(ins.contains(l));
                    }
                }
                if ins.contains(l) {
                    let j = choose|j: int| 0 <= j < t && #[trigger] touching[j]@ == l && links[l].sink_id@ == k;
                    assert(taken_among(touching, t + 1, links, k).contains(l));
                }
                if l == link {
                    assert(touching[t]@ == l);
                    assert(taken_among(touching, t + 1, links, k).contains(l));
                }
            }
            assert(taken_among(touching, t + 1, links, k) =~= ins.insert(link));
            assert forall|l: Seq<char>| sent_among(touching, t + 1, links, k).contains(l) <==> outs.contains(l) by {
                if sent_among(touching, t + 1, links, k).contains(l) {
                    let j = choose|j: int| 0 <= j < t + 1 && #[trigger] touching[j]@ == l && links[l].src_id@ == k;
                    if j == t {
                        assert(l == link);
                        assert(false);
                    }
                }
                if outs.contains(l) {
                    let j = choose|j: int| 0 <= j < t && #[trigger] touching[j]@ == l && links[l].src_id@ == k;
                    assert(sent_among(touching, t + 1, links, k).contains(l));
                }
            }
            assert(sent_among(touching, t + 1, links, k) =~= outs);
        } else {
            assert(after[k] == prev[k]);
            assert forall|l: Seq<char>| sent_among(touching, t + 1, links, k).contains(l) <==> outs.contains(l) by {
                if sent_among(touching, t + 1, links, k).contains(l) {
                    let j = choose|j: int| 0 <= j < t + 1 && #[trigger] touching[j]@ == l && links[l].src_id@ == k;
                    if j == t {
                        assert(l == link);
                        assert(false);
                    }
                }
                if outs.contains(l) {
                    let j = choose|j: int| 0 <= j < t && #[trigger] touching[j]@ == l && links[l].src_id@ == k;
                    assert(sent_among(touching, t + 1, links, k).contains(l));
                }
            }
            assert(sent_among(touching, t + 1, links, k) =~= outs);
            assert forall|l: Seq<char>| taken_among(touching, t + 1, links, k).contains(l) <==> ins.contains(l) by {
                if taken_among(touching, t + 1, links, k).contains(l) {
                    let j = choose|j: int| 0 <= j < t + 1 && #[trigger] touching[j]@ == l && links[l].sink_id@ == k;
                    if j == t {
                        assert(l == link);
                        assert(false);
                    }
                }
                if ins.contains(l) {
                    let j = choose|j: int| 0 <= j < t && #[trigger] touching[j]@ == l && links[l].sink_id@ == k;
                    assert(taken_among(touching, t + 1, links, k).contains(l));
                }
            }
            assert(taken_among(touching, t + 1, links, k) =~= ins);
        }
    }
}

/// The links of `links` from node `k` into node `id`.
pub open spec fn links_out_to(links: Map<Seq<char>, LinkRecord>, k: Seq<char>, id: Seq<char>) -> Set<Seq<char>> {
    Set::new(|l: Seq<char>| links.contains_key(l) && links[l].src_id@ == k && links[l].sink_id@ == id)
}

/// The links of `links` from node `id` into node `k`.
pub open spec fn links_in_from(links: Map<Seq<char>, LinkRecord>, k: Seq<char>, id: Seq<char>) -> Set<Seq<char>> {
    Set::new(|l: Seq<char>| links.contains_key(l) && links[l].sink_id@ == k && links[l].src_id@ == id)
}

/// The slot id a destination keeps once the links `gone` are released.
pub open spec fn released_all(slot: Option<String>, gone: Set<Seq<char>>) -> Option<String> {
    match slot {
        Some(s) => if gone.contains(s@) {
            None
        } else {
            Some(s)
        },
        None => None,
    }
}

/// `b` is node `a` with the links `outs` gone from its consumers and the
/// links `ins` gone from its inputs.
pub open spec fn cut_off(a: NodeRecord, b: NodeRecord, outs: Set<Seq<char>>, ins: Set<Seq<char>>) -> bool {
    &&& node_frame(a, b)
    &&& match (a, b) {
        (NodeRecord::Source(x), NodeRecord::Source(y)) => {
            &&& y.audio_consumer_slot_ids@ == x.audio_consumer_slot_ids@.difference(outs)
            &&& y.video_consumer_slot_ids@ == x.video_consumer_slot_ids@.difference(outs)
        },
        (NodeRecord::VideoGenerator(x), NodeRecord::VideoGenerator(y)) => {
            &&& y.audio_consumer_slot_ids@ == x.audio_consumer_slot_ids@.difference(outs)
            &&& y.video_consumer_slot_ids@ == x.video_consumer_slot_ids@.difference(outs)
        },
        (NodeRecord::Mixer(x), NodeRecord::Mixer(y)) => {
            &&& y.audio_consumer_slot_ids@ == x.audio_consumer_slot_ids@.difference(outs)
            &&& y.video_consumer_slot_ids@ == x.video_consumer_slot_ids@.difference(outs)
            &&& y.slots@ == x.slots@.remove_keys(ins)
            &&& y.slot_settings@ == x.slot_settings@.remove_keys(ins)
            &&& y.slot_control_points@ == x.slot_control_points@.remove_keys(ins)
            &&& same_settings(x, y)
        },
        (NodeRecord::Destination(x), NodeRecord::Destination(y)) => {
            &&& y.audio_slot_id == released_all(x.audio_slot_id, ins)
            &&& y.video_slot_id == released_all(x.video_slot_id, ins)
        },
        _ => false,
    }
}

/// A node cut off from no links is as it was.
pub proof fn lemma_cut_off_nothing(a: NodeRecord)
    ensures
        cut_off(a, a, Set::empty(), Set::empty()),
{
    match a {
        NodeRecord::Source(x) => {
            assert(x.audio_consumer_slot_ids@.difference(Set::empty()) =~= x.audio_consumer_slot_ids@);
            assert(x.video_consumer_slot_ids@.difference(Set::empty()) =~= x.video_consumer_slot_ids@);
        },
        NodeRecord::VideoGenerator(x) => {
            assert(x.audio_consumer_slot_ids@.difference(Set::empty()) =~= x.audio_consumer_slot_ids@);
            assert(x.video_consumer_slot_ids@.difference(Set::empty()) =~= x.video_consumer_slot_ids@);
        },
        NodeRecord::Mixer(x) => {
            assert(x.audio_consumer_slot_ids@.difference(Set::empty()) =~= x.audio_consumer_slot_ids@);
            assert(x.video_consumer_slot_ids@.difference(Set::empty()) =~= x.video_consumer_slot_ids@);
            assert(x.slots@.remove_keys(Set::empty()) =~= x.slots@);
            assert(x.slot_settings@.remove_keys(Set::empty()) =~= x.slot_settings@);
            assert(x.slot_control_points@.remove_keys(Set::empty()) =~= x.slot_control_points@);
        },
        NodeRecord::Destination(x) => {},
    }
}

/// Releasing one more link as a producer adds it to the links cut off from
/// the node's consumers.
pub proof fn lemma_cut_off_unlinked(a: NodeRecord, b: NodeRecord, c: NodeRecord, outs: Set<Seq<char>>, ins: Set<Seq<char>>, link: Seq<char>)
    requires
        cut_off(a, b, outs, ins),
        src_unlinked(b, c, link),
    ensures
        cut_off(a, c, outs.insert(link), ins),
{
    match (a, b, c) {
        (NodeRecord::Source(x), NodeRecord::Source(y), NodeRecord::Source(z)) => {
            assert(z.audio_consumer_slot_ids@ =~= x.audio_consumer_slot_ids@.difference(outs.insert(link)));
            assert(z.video_consumer_slot_ids@ =~= x.video_consumer_slot_ids@.difference(outs.insert(link)));
        },
        (NodeRecord::VideoGenerator(x), NodeRecord::VideoGenerator(y), NodeRecord::VideoGenerator(z)) => {
            assert(z.audio_consumer_slot_ids@ =~= x.audio_consumer_slot_ids@.difference(outs.insert(link)));
            assert(z.video_consumer_slot_ids@ =~= x.video_consumer_slot_ids@.difference(outs.insert(link)));
        },
        (NodeRecord::Mixer(x), NodeRecord::Mixer(y), NodeRecord::Mixer(z)) => {
            assert(z.audio_consumer_slot_ids@ =~= x.audio_consumer_slot_ids@.difference(outs.insert(link)));
            assert(z.video_consumer_slot_ids@ =~= x.video_consumer_slot_ids@.difference(outs.insert(link)));
        },
        _ => {},
    }
}

/// Releasing one more link as a consumer adds it to the links cut off from
/// the node's inputs.
pub proof fn lemma_cut_off_detached(a: NodeRecord, b: NodeRecord, c: NodeRecord, outs: Set<Seq<char>>, ins: Set<Seq<char>>, link: Seq<char>)
    requires
        cut_off(a, b, outs, ins),
        sink_detached(b, c, link),
    ensures
        cut_off(a, c, outs, ins.insert(link)),
{
    match (a, b, c) {
        (NodeRecord::Mixer(x), NodeRecord::Mixer(y), NodeRecord::Mixer(z)) => {
            assert(z.slots@ =~= x.slots@.remove_keys(ins.insert(link)));
            assert(z.slot_settings@ =~= x.slot_settings@.remove_keys(ins.insert(link)));
            assert(z.slot_control_points@ =~= x.slot_control_points@.remove_keys(ins.insert(link)));
        },
        _ => {},
    }
}


pub open spec fn remove_node_done(before: NodeManager, after: NodeManager, id: String, r: CommandResult) -> bool {
    &&& after.started == before.started
    &&& !before.nodes@.contains_key(id@) ==> errs_with(r, msg_no_node(id@)) && after.nodes@
                == before.nodes@ && after.links@ == before.links@ && after.media_bridges@
                == before.media_bridges@
    &&& before.nodes@.contains_key(id@) ==> {
                &&& r is Success
                &&& after.links@ == links_without_node(before.links@, id@)
                &&& after.media_bridges@ == bridges_left(before.media_bridges@, node_feeds(before.links@, id@))
                &&& after.nodes@.dom() == before.nodes@.dom().remove(id@)
                &&& forall|k: Seq<char>| #[trigger] after.nodes@.contains_key(k) ==> cut_off(
                    before.nodes@[k],
                    after.nodes@[k],
                    links_out_to(before.links@, k, id@),
                    links_in_from(before.links@, k, id@),
                )
            }
}

pub open spec fn add_control_point_done<F: Fn(Number, Number, i64, i64) -> JsonValue>(before: NodeManager, after: NodeManager, controllee_id: String, property: String, control_point: ControlPoint, now: i128, interpolate: F, r: CommandResult) -> bool {
    &&& after.links@ == before.links@
    &&& after.started == before.started
    &&& after.media_bridges@ == before.media_bridges@
    &&& ({
                let c = controllee_id@;
                let nodes = before.nodes@;
                if before.links@.contains_key(c) {
                    let sink = before.links@[c].sink_id@;
                    if !nodes.contains_key(sink) {
                        errs_with(r, "No sink node with id "@ + sink + " for link "@ + c) && after.nodes@ == nodes
                    } else {
                        match nodes[sink] {
                            NodeRecord::Mixer(x) => after.nodes@ == nodes.insert(sink, after.nodes@[sink])
                                && (after.nodes@[sink] matches NodeRecord::Mixer(y) && cmd_checked(
                                r,
                                slot_point_error(x, c, property@, control_point.value),
                            ) && (r is Error ==> y == x) && (r is Success ==> slot_point_added(
                                x,
                                y,
                                c,
                                property@,
                                control_point,
                                now,
                                interpolate,
                            ))),
                            _ => errs_with(
                                r,
                                "Slot control points are only supported for mixer links; "@ + sink + " is not a mixer"@,
                            ) && after.nodes@ == nodes,
                        }
                    }
                } else if !nodes.contains_key(c) {
                    errs_with(r, "No node or slot with id "@ + c) && after.nodes@ == nodes
                } else {
                    match nodes[c] {
                        NodeRecord::Mixer(x) => after.nodes@ == nodes.insert(c, after.nodes@[c])
                            && (after.nodes@[c] matches NodeRecord::Mixer(y) && cmd_checked(
                            r,
                            point_error(x, property@, control_point.value),
                        ) && (r is Error ==> y == x) && (r is Success ==> point_added(
                            x,
                            y,
                            property@,
                            control_point,
                            now,
                            interpolate,
                        ))),
                        _ => errs_with(
                            r,
                            "Node control points are currently supported only for mixers; "@ + c + " is not a mixer"@,
                        ) && after.nodes@ == nodes,
                    }
                }
            })
}

pub open spec fn remove_control_point_done<F: Fn(Number, Number, i64, i64) -> JsonValue>(before: NodeManager, after: NodeManager, controller_id: String, controllee_id: String, property: String, now: i128, interpolate: F, r: CommandResult) -> bool {
    &&& after.links@ == before.links@
    &&& after.started == before.started
    &&& after.media_bridges@ == before.media_bridges@
    &&& ({
                let c = controllee_id@;
                let nodes = before.nodes@;
                if before.links@.contains_key(c) {
                    let sink = before.links@[c].sink_id@;
                    if !nodes.contains_key(sink) {
                        errs_with(r, "No sink node with id "@ + sink + " for link "@ + c) && after.nodes@ == nodes
                    } else {
                        match nodes[sink] {
                            NodeRecord::Mixer(x) => r is Success && after.nodes@ == nodes.insert(sink, after.nodes@[sink])
                                && (after.nodes@[sink] matches NodeRecord::Mixer(y) && slot_point_removed(
                                x,
                                y,
                                controller_id@,
                                c,
                                property@,
                                now,
                                interpolate,
                            )),
                            _ => errs_with(
                                r,
                                "Slot control points are only supported for mixer links; "@ + sink + " is not a mixer"@,
                            ) && after.nodes@ == nodes,
                        }
                    }
                } else if !nodes.contains_key(c) {
                    errs_with(r, "No node or slot with id "@ + c) && after.nodes@ == nodes
                } else {
                    match nodes[c] {
                        NodeRecord::Mixer(x) => r is Success && after.nodes@ == nodes.insert(c, after.nodes@[c])
                            && (after.nodes@[c] matches NodeRecord::Mixer(y) && point_removed(
                            x,
                            y,
                            controller_id@,
                            property@,
                            now,
                            interpolate,
                        )),
                        _ => errs_with(
                            r,
                            "Node control points are currently supported only for mixers; "@ + c + " is not a mixer"@,
                        ) && after.nodes@ == nodes,
                    }
                }
            })
}

/// The command changes the graph, so the bridges are brought in line after it.
pub open spec fn syncs(command: Command) -> bool {
    !(command is GetInfo)
}

/// The graph parts of `b` are those of `a`.
pub open spec fn same_graph(a: NodeManager, b: NodeManager) -> bool {
    &&& b.nodes@ == a.nodes@
    &&& b.links@ == a.links@
    &&& b.media_bridges@ == a.media_bridges@
    &&& b.started == a.started
}

/// What carrying out `command` on graph `before` at `now` does, giving `r`.
pub open spec fn command_done<F: Fn(Number, Number, i64, i64) -> JsonValue>(
    before: NodeManager,
    command: Command,
    now: i128,
    interpolate: F,
    after: NodeManager,
    r: CommandResult,
) -> bool {
    match command {
        Command::CreateVideoGenerator { id } => create_video_generator_done(before, after, id, r),
        Command::CreateSource { id, uri, audio, video } => create_source_done(before, after, id, uri, audio, video, r),
        Command::CreateDestination { id, family, audio, video } => create_destination_done(
            before,
            after,
            id,
            family,
            audio,
            video,
            r,
        ),
        Command::CreateMixer { id, config, audio, video } => create_mixer_done(before, after, id, config, audio, video, r),
        Command::Connect { link_id, src_id, sink_id, audio, video, config } => connect_done(
            before,
            after,
            link_id,
            src_id,
            sink_id,
            audio,
            video,
            config,
            r,
        ),
        Command::Disconnect { link_id } => disconnect_done(before, after, link_id, r),
        Command::Start { id, cue_time, end_time } => schedule_node_done(
            before,
            after,
            id,
            cue_time,
            end_time,
            now,
            interpolate,
            r,
        ),
        Command::Reschedule { id, cue_time, end_time } => schedule_node_done(
            before,
            after,
            id,
            cue_time,
            end_time,
            now,
            interpolate,
            r,
        ),
        Command::Remove { id } => remove_node_done(before, after, id, r),
        Command::GetInfo { id } => get_info_done(before, id, r) && same_graph(before, after),
        Command::AddControlPoint { controllee_id, property, control_point } => add_control_point_done(
            before,
            after,
            controllee_id,
            property,
            control_point,
            now,
            interpolate,
            r,
        ),
        Command::RemoveControlPoint { id, controllee_id, property } => remove_control_point_done(
            before,
            after,
            id,
            controllee_id,
            property,
            now,
            interpolate,
            r,
        ),
    }
}

/// What handling `command` at `now` does to graph `before`, giving `r`: the
/// graph starts, every node is refreshed, the command is carried out, the
/// bridges are brought in line (when the command changes the graph and the
/// media layer is ready), and every node is refreshed again.
pub open spec fn dispatched<F: Fn(Number, Number, i64, i64) -> JsonValue>(
    before: NodeManager,
    command: Command,
    now: i128,
    media_ready: bool,
    interpolate: F,
    after: NodeManager,
    r: CommandResult,
) -> bool {
    exists|m1: NodeManager, m2: NodeManager|
        #[trigger] command_done(m1, command, now, interpolate, m2, r) && {
            &&& m1.started
            &&& all_refreshed(before.nodes@, m1.nodes@, now, interpolate)
            &&& m1.links@ == before.links@
            &&& m1.media_bridges@ == before.media_bridges@
            &&& (if syncs(command) && media_ready {
                bridges_synced(m2.media_bridges@, m2.nodes@, m2.links@, after.media_bridges@)
            } else {
                after.media_bridges@ == m2.media_bridges@
            })
            &&& all_refreshed(m2.nodes@, after.nodes@, now, interpolate)
            &&& after.links@ == m2.links@
            &&& after.started
        }
}

/// The graph of nodes and the links between them, as the command handler
/// keeps it.
#[derive(Debug)]
pub struct NodeManager {
    pub started: bool,
    pub nodes: Table<NodeRecord>,
    pub links: Table<LinkRecord>,
    /// The media bridges, keyed `source-id:medium`, each with the links that
    /// consume it.
    pub media_bridges: Table<StrSet>,
}

impl NodeManager {
    /// The graph is sound.
    pub open spec fn wf(&self) -> bool {
        graph_wf(self.nodes@, self.links@)
    }

    /// An empty graph that has not started.
    pub fn new() -> (m: Self)
        ensures
            m.wf(),
            !m.started,
            m.nodes@ == Map::<Seq<char>, NodeRecord>::empty(),
            m.links@ == Map::<Seq<char>, LinkRecord>::empty(),
            m.media_bridges@ == Map::<Seq<char>, Set<Seq<char>>>::empty(),
    {
        NodeManager { started: false, nodes: Table::new(), links: Table::new(), media_bridges: Table::new() }
    }

    /// Refreshes every node at `now`.
    pub fn refresh_nodes_at<F: Fn(Number, Number, i64, i64) -> JsonValue>(&mut self, now: i128, interpolate: &F)
        requires
            interpolation_total(*interpolate),
        ensures
            all_refreshed(old(self).nodes@, final(self).nodes@, now, *interpolate),
            old(self).wf() ==> final(self).wf(),
            final(self).links@ == old(self).links@,
            final(self).started == old(self).started,
            final(self).media_bridges@ == old(self).media_bridges@,
    {
        let ghost before = self.nodes@;
        let mut taken: Table<NodeRecord> = Table::new();
        std::mem::swap(&mut taken, &mut self.nodes);
        let mut entries = taken.into_entries();
        let ghost s = entries@;
        let n = entries.len();
        let mut out: Vec<(String, NodeRecord)> = Vec::new();
        while entries.len() > 0
            invariant
                interpolation_total(*interpolate),
                n == s.len(),
                out@.len() + entries@.len() == n,
                forall|j: int| 0 <= j < entries@.len() ==> #[trigger] entries@[j] == s[out@.len() + j],
                forall|i: int|
                    0 <= i < out@.len() ==> (#[trigger] out@[i]).0@ == s[i].0@ && node_refreshed(
                        s[i].1,
                        out@[i].1,
                        now,
                        *interpolate,
                    ) && (node_wf(s[i].1) ==> node_wf(out@[i].1)),
            decreases entries@.len(),
        {
            let (k, mut node) = entries.remove(0);
            node.refresh_at(now, interpolate);
            out.push((k, node));
        }
        proof {
            lemma_entries_pointwise(s, out@);
        }
        self.nodes = Table::from_entries(out);
        proof {
            assert forall|k: Seq<char>| #[trigger] before.contains_key(k) implies node_refreshed(
                before[k],
                self.nodes@[k],
                now,
                *interpolate,
            ) && (node_wf(before[k]) ==> node_wf(self.nodes@[k])) by {
                let i = choose|i: int| 0 <= i < s.len() && #[trigger] s[i].0@ == k;
            }
            if old(self).wf() {
                assert forall|k: Seq<char>| #[trigger] self.nodes@.contains_key(k) implies node_wf(self.nodes@[k])
                    && node_id(self.nodes@[k]) == k by {
                    assert(before.contains_key(k));
                    assert(node_refreshed(before[k], self.nodes@[k], now, *interpolate));
                }
                assert forall|l: Seq<char>| #[trigger] self.links@.contains_key(l) implies self.nodes@.contains_key(
                    self.links@[l].src_id@,
                ) && self.nodes@.contains_key(self.links@[l].sink_id@) by {
                    assert(before.contains_key(self.links@[l].src_id@));
                    assert(before.contains_key(self.links@[l].sink_id@));
                }
            }
        }
    }

    /// Refuses an id that a node already has.
    pub fn ensure_unique_id(&self, id: &String) -> (r: Result<(), String>)
        ensures
            r is Ok <==> !self.nodes@.contains_key(id@),
            r is Err ==> fails_with(r, msg_duplicate_node(id@)),
    {
        if self.nodes.contains_key(id) {
            return Err(concat2("A node already exists with id ", id.as_str()));
        }
        Ok(())
    }

    /// Brings the bridges in line with the links, when the media layer is
    /// ready: each link feeds the bridge of each medium it carries from its
    /// producer while its consumer has a live input for it, and bridges left
    /// without consumers go.
    pub fn sync_media_links(&mut self, media_ready: bool)
        requires
            old(self).wf(),
        ensures
            final(self).nodes@ == old(self).nodes@,
            final(self).links@ == old(self).links@,
            final(self).started == old(self).started,
            !media_ready ==> final(self).media_bridges@ == old(self).media_bridges@,
            media_ready ==> bridges_synced(old(self).media_bridges@, old(self).nodes@, old(self).links@, final(self).media_bridges@),
    {
        if !media_ready {
            return;
        }
        let ghost before = self.media_bridges@;
        let ghost nodes = self.nodes@;
        let ghost links = self.links@;
        let entries = self.links.entries();
        let ghost es = entries@;
        let mut i: usize = 0;
        while i < entries.len()
            invariant
                self.wf(),
                self.nodes@ == nodes,
                self.links@ == links,
                self.started == old(self).started,
                es == entries@,
                keys_unique(es),
                entries_map(es) == links,
                i <= es.len(),
                forall|key: Seq<char>| #[trigger] self.media_bridges@.contains_key(key) == (before.contains_key(key) || exists|j: int| 0 <= j < i && carries(links, #[trigger] es[j].0@, key)),
                forall|key: Seq<char>| #[trigger] self.media_bridges@.contains_key(key) ==> self.media_bridges@[key] == Set::new(
                    |c: Seq<char>|
                        (before.contains_key(key) && before[key].contains(c) && !(carries(links, c, key) && exists|j: int| 0 <= j < i && #[trigger] es[j].0@ == c))
                        || (feeds(nodes, links, c, key) && exists|j: int| 0 <= j < i && #[trigger] es[j].0@ == c),
                ),
            decreases es.len() - i,
        {
            proof {
                lemma_key_index_unique(es, i as int);
            }
            let link_id = &entries[i].0;
            let rec = &entries[i].1;
            let ghost l = link_id@;
            assert(links.contains_key(l) && links[l] == *rec);
            assert(nodes.contains_key(rec.src_id@) && nodes.contains_key(rec.sink_id@));
            let sink = match self.nodes.get(&rec.sink_id) {
                Some(n) => n,
                None => {
                    assert(false);
                    return;
                },
            };
            proof {
                lemma_media_keys_differ(rec.src_id@);
            }
            let ghost prev = self.media_bridges@;
            if rec.audio {
                let key = concat3(rec.src_id.as_str(), ":", "audio");
                let live = sink.accepts_live_input(link_id, true);
                set_bridge_consumer(&mut self.media_bridges, key, link_id, live);
            }
            let ghost mid = self.media_bridges@;
            if rec.video {
                let key = concat3(rec.src_id.as_str(), ":", "video");
                let live = sink.accepts_live_input(link_id, false);
                set_bridge_consumer(&mut self.media_bridges, key, link_id, live);
            }
            proof {
                let ka = bridge_key(rec.src_id@, "audio"@);
                let kv = bridge_key(rec.src_id@, "video"@);
                assert forall|key: Seq<char>| #[trigger] self.media_bridges@.contains_key(key) == (before.contains_key(key) || exists|j: int| 0 <= j < i + 1 && carries(links, #[trigger] es[j].0@, key)) by {
                    if exists|j: int| 0 <= j < i + 1 && carries(links, #[trigger] es[j].0@, key) {
                        let j = choose|j: int| 0 <= j < i + 1 && carries(links, #[trigger] es[j].0@, key);
                        if j < i {
                            assert(exists|j2: int| 0 <= j2 < i && carries(links, #[trigger] es[j2].0@, key));
                        }
                    }
                    if exists|j: int| 0 <= j < i && carries(links, #[trigger] es[j].0@, key) {
                        let j = choose|j: int| 0 <= j < i && carries(links, #[trigger] es[j].0@, key);
                        assert(0 <= j < i + 1 && carries(links, es[j].0@, key));
                    }
                    if (rec.audio && key == ka) || (rec.video && key == kv) {
                        assert(carries(links, es[i as int].0@, key));
                    }
                }
                assert forall|key: Seq<char>| #[trigger] self.media_bridges@.contains_key(key) implies self.media_bridges@[key] == Set::new(
                    |c: Seq<char>|
                        (before.contains_key(key) && before[key].contains(c) && !(carries(links, c, key) && exists|j: int| 0 <= j < i + 1 && #[trigger] es[j].0@ == c))
                        || (feeds(nodes, links, c, key) && exists|j: int| 0 <= j < i + 1 && #[trigger] es[j].0@ == c),
                ) by {
                    let target = Set::new(
                        |c: Seq<char>|
                            (before.contains_key(key) && before[key].contains(c) && !(carries(links, c, key) && exists|j: int| 0 <= j < i + 1 && #[trigger] es[j].0@ == c))
                            || (feeds(nodes, links, c, key) && exists|j: int| 0 <= j < i + 1 && #[trigger] es[j].0@ == c),
                    );
                    assert forall|c: Seq<char>| self.media_bridges@[key].contains(c) == target.contains(c) by {
                        let in_prefix = exists|j: int| 0 <= j < i && #[trigger] es[j].0@ == c;
                        let in_next = exists|j: int| 0 <= j < i + 1 && #[trigger] es[j].0@ == c;
                        if c == l {
                            assert(es[i as int].0@ == c);
                            assert(in_next);
                            if in_prefix {
                                let j = choose|j: int| 0 <= j < i && #[trigger] es[j].0@ == c;
                                assert(es[j].0@ != es[i as int].0@);
                            }
                        } else {
                            if in_next {
                                let j = choose|j: int| 0 <= j < i + 1 && #[trigger] es[j].0@ == c;
                                assert(j != i);
                                assert(in_prefix);
                            }
                            if in_prefix {
                                let j = choose|j: int| 0 <= j < i && #[trigger] es[j].0@ == c;
                                assert(0 <= j < i + 1);
                            }
                            if key == ka || key == kv {
                                if prev.contains_key(key) {
                                }
                            }
                        }
                    }
                    assert(self.media_bridges@[key] =~= target);
                }
            }
            i = i + 1;
        }
        let ghost cur0 = self.media_bridges@;
        proof {
            assert forall|key: Seq<char>| #[trigger] cur0.contains_key(key) implies cur0[key] == bridge_members(before, nodes, links, key) by {
                assert forall|c: Seq<char>| cur0[key].contains(c) == bridge_members(before, nodes, links, key).contains(c) by {
                    if carries(links, c, key) || feeds(nodes, links, c, key) {
                        let p = choose|p: int| 0 <= p < es.len() && #[trigger] es[p].0@ == c;
                        assert(exists|j: int| 0 <= j < i && #[trigger] es[j].0@ == c);
                    }
                }
                assert(cur0[key] =~= bridge_members(before, nodes, links, key));
            }
            assert forall|key: Seq<char>| !(#[trigger] cur0.contains_key(key)) implies bridge_members(before, nodes, links, key) == Set::<Seq<char>>::empty() by {
                assert forall|c: Seq<char>| !bridge_members(before, nodes, links, key).contains(c) by {
                    if feeds(nodes, links, c, key) {
                        let p = choose|p: int| 0 <= p < es.len() && #[trigger] es[p].0@ == c;
                        assert(carries(links, es[p].0@, key));
                    }
                }
                assert(bridge_members(before, nodes, links, key) =~= Set::<Seq<char>>::empty());
            }
        }
        drop_empty_bridges(&mut self.media_bridges);
    }

    /// Starts the graph at `now`: every node is refreshed and the bridges are
    /// brought in line.
    pub fn start_at<F: Fn(Number, Number, i64, i64) -> JsonValue>(&mut self, now: i128, media_ready: bool, interpolate: &F)
        requires
            old(self).wf(),
            interpolation_total(*interpolate),
        ensures
            final(self).wf(),
            final(self).started,
            all_refreshed(old(self).nodes@, final(self).nodes@, now, *interpolate),
            final(self).links@ == old(self).links@,
            media_ready ==> bridges_synced(old(self).media_bridges@, final(self).nodes@, old(self).links@, final(self).media_bridges@),
            !media_ready ==> final(self).media_bridges@ == old(self).media_bridges@,
    {
        self.started = true;
        self.refresh_nodes_at(now, interpolate);
        self.sync_media_links(media_ready);
    }

    /// Starts the graph at the current time; see `start_at`.
    pub fn start<F: Fn(Number, Number, i64, i64) -> JsonValue>(&mut self, media_ready: bool, interpolate: &F)
        requires
            old(self).wf(),
            interpolation_total(*interpolate),
        ensures
            final(self).wf(),
            final(self).started,
            exists|now: i128| #[trigger] all_refreshed(old(self).nodes@, final(self).nodes@, now, *interpolate),
            final(self).links@ == old(self).links@,
            media_ready ==> bridges_synced(old(self).media_bridges@, final(self).nodes@, old(self).links@, final(self).media_bridges@),
            !media_ready ==> final(self).media_bridges@ == old(self).media_bridges@,
    {
        let now = now_nanos();
        self.start_at(now, media_ready, interpolate);
    }

    /// A periodic step at `now`: a started graph refreshes its nodes and
    /// brings the bridges in line; a graph that has not started is left alone.
    pub fn tick_at<F: Fn(Number, Number, i64, i64) -> JsonValue>(&mut self, now: i128, media_ready: bool, interpolate: &F)
        requires
            old(self).wf(),
            interpolation_total(*interpolate),
        ensures
            final(self).wf(),
            final(self).started == old(self).started,
            final(self).links@ == old(self).links@,
            !old(self).started ==> final(self).nodes@ == old(self).nodes@ && final(self).media_bridges@
                == old(self).media_bridges@,
            old(self).started ==> all_refreshed(old(self).nodes@, final(self).nodes@, now, *interpolate),
            old(self).started && media_ready ==> bridges_synced(old(self).media_bridges@, final(self).nodes@, old(self).links@, final(self).media_bridges@),
            old(self).started && !media_ready ==> final(self).media_bridges@ == old(self).media_bridges@,
    {
        if !self.started {
            return;
        }
        self.refresh_nodes_at(now, interpolate);
        self.sync_media_links(media_ready);
    }

    /// A periodic step at the current time; see `tick_at`.
    pub fn tick<F: Fn(Number, Number, i64, i64) -> JsonValue>(&mut self, media_ready: bool, interpolate: &F)
        requires
            old(self).wf(),
            interpolation_total(*interpolate),
        ensures
            final(self).wf(),
            final(self).started == old(self).started,
            final(self).links@ == old(self).links@,
            !old(self).started ==> final(self).nodes@ == old(self).nodes@ && final(self).media_bridges@
                == old(self).media_bridges@,
            old(self).started ==> exists|now: i128| #[trigger] all_refreshed(old(self).nodes@, final(self).nodes@, now, *interpolate),
            old(self).started && media_ready ==> bridges_synced(old(self).media_bridges@, final(self).nodes@, old(self).links@, final(self).media_bridges@),
            old(self).started && !media_ready ==> final(self).media_bridges@ == old(self).media_bridges@,
    {
        let now = now_nanos();
        self.tick_at(now, media_ready, interpolate);
    }

    /// Handles a command at `now`; see `dispatched`.
    pub fn dispatch_at<F: Fn(Number, Number, i64, i64) -> JsonValue>(
        &mut self,
        command: Command,
        now: i128,
        media_ready: bool,
        interpolate: &F,
    ) -> (r: CommandResult)
        requires
            old(self).wf(),
            interpolation_total(*interpolate),
        ensures
            final(self).wf(),
            dispatched(*old(self), command, now, media_ready, *interpolate, *final(self), r),
    {
        self.started = true;
        self.refresh_nodes_at(now, interpolate);
        let ghost m1 = *self;
        let ghost cmd = command;
        let (result, should_sync) = match command {
            Command::CreateVideoGenerator { id } => (self.create_video_generator(id), true),
            Command::CreateSource { id, uri, audio, video } => (self.create_source(id, uri, audio, video), true),
            Command::CreateDestination { id, family, audio, video } => (
                self.create_destination(id, family, audio, video),
                true,
            ),
            Command::CreateMixer { id, config, audio, video } => (self.create_mixer(id, config, audio, video), true),
            Command::Connect { link_id, src_id, sink_id, audio, video, config } => (
                self.connect(link_id, src_id, sink_id, audio, video, config),
                true,
            ),
            Command::Disconnect { link_id } => (self.disconnect(&link_id), true),
            Command::Start { id, cue_time, end_time } => (
                self.schedule_node(&id, cue_time, end_time, now, interpolate),
                true,
            ),
            Command::Reschedule { id, cue_time, end_time } => (
                self.schedule_node(&id, cue_time, end_time, now, interpolate),
                true,
            ),
            Command::Remove { id } => (self.remove_node(&id), true),
            Command::GetInfo { id } => (self.get_info(id.as_ref()), false),
            Command::AddControlPoint { controllee_id, property, control_point } => (
                self.add_control_point(&controllee_id, &property, control_point, now, interpolate),
                true,
            ),
            Command::RemoveControlPoint { id, controllee_id, property } => (
                self.remove_control_point(&id, &controllee_id, &property, now, interpolate),
                true,
            ),
        };
        let ghost m2 = *self;
        let ghost r = result;
        assert(command_done(m1, cmd, now, *interpolate, m2, r));
        assert(should_sync == syncs(cmd));
        if should_sync {
            self.sync_media_links(media_ready);
        }
        self.refresh_nodes_at(now, interpolate);
        result
    }

    /// Handles a command at the current time; see `dispatched`.
    pub fn dispatch<F: Fn(Number, Number, i64, i64) -> JsonValue>(
        &mut self,
        command: Command,
        media_ready: bool,
        interpolate: &F,
    ) -> (r: CommandResult)
        requires
            old(self).wf(),
            interpolation_total(*interpolate),
        ensures
            final(self).wf(),
            exists|now: i128| #[trigger] dispatched(*old(self), command, now, media_ready, *interpolate, *final(self), r),
    {
        let now = now_nanos();
        self.dispatch_at(command, now, media_ready, interpolate)
    }

    /// Adds a video generator with a new id.
    pub fn create_video_generator(&mut self, id: String) -> (r: CommandResult)
        requires
            old(self).wf(),
        ensures
            final(self).wf(),
            create_video_generator_done(*old(self), *final(self), id, r),
    {
        match self.ensure_unique_id(&id) {
            Err(e) => {
                return CommandResult::Error(e);
            },
            Ok(()) => {},
        }
        let key = id.clone();
        self.nodes.insert(key, NodeRecord::VideoGenerator(VideoGeneratorNode::new(id)));
        proof {
            self.lemma_insert_keeps_wf(*old(self), id@);
        }
        CommandResult::Success
    }

    /// Adds a source with a new id that carries audio, video or both.
    pub fn create_source(&mut self, id: String, uri: String, audio: bool, video: bool) -> (r: CommandResult)
        requires
            old(self).wf(),
        ensures
            final(self).wf(),
            create_source_done(*old(self), *final(self), id, uri, audio, video, r),
    {
        match self.ensure_unique_id(&id) {
            Err(e) => {
                return CommandResult::Error(e);
            },
            Ok(()) => {},
        }
        if !audio && !video {
            return CommandResult::Error(concat3("Source with id ", id.as_str(), " must have either audio or video enabled"));
        }
        let key = id.clone();
        self.nodes.insert(key, NodeRecord::Source(SourceNode::new(id, uri, audio, video)));
        proof {
            self.lemma_insert_keeps_wf(*old(self), id@);
        }
        CommandResult::Success
    }

    /// Adds a destination with a new id that takes audio, video or both.
    pub fn create_destination(&mut self, id: String, family: DestinationFamily, audio: bool, video: bool) -> (r: CommandResult)
        requires
            old(self).wf(),
        ensures
            final(self).wf(),
            create_destination_done(*old(self), *final(self), id, family, audio, video, r),
    {
        match self.ensure_unique_id(&id) {
            Err(e) => {
                return CommandResult::Error(e);
            },
            Ok(()) => {},
        }
        if !audio && !video {
            return CommandResult::Error(concat3("Destination with id ", id.as_str(), " must have either audio or video enabled"));
        }
        let key = id.clone();
        self.nodes.insert(key, NodeRecord::Destination(DestinationNode::new(id, family, audio, video)));
        proof {
            self.lemma_insert_keeps_wf(*old(self), id@);
        }
        CommandResult::Success
    }

    /// Adds a mixer with a new id that mixes audio, video or both, with the
    /// settings of `config`; a bad configuration entry is refused.
    pub fn create_mixer(&mut self, id: String, config: Option<Table<JsonValue>>, audio: bool, video: bool) -> (r: CommandResult)
        requires
            old(self).wf(),
        ensures
            final(self).wf(),
            create_mixer_done(*old(self), *final(self), id, config, audio, video, r),
    {
        match self.ensure_unique_id(&id) {
            Err(e) => {
                return CommandResult::Error(e);
            },
            Ok(()) => {},
        }
        if !audio && !video {
            return CommandResult::Error(concat3("Mixer with id ", id.as_str(), " must have either audio or video enabled"));
        }
        let ghost cfg = config;
        let key = id.clone();
        match MixerNode::new(id, config, audio, video) {
            Ok(node) => {
                self.nodes.insert(key, NodeRecord::Mixer(node));
                proof {
                    self.lemma_insert_keeps_wf(*old(self), key@);
                }
                CommandResult::Success
            },
            Err(e) => CommandResult::Error(e),
        }
    }

    /// The reports of one node, or of all of them.
    pub fn get_info(&self, id: Option<&String>) -> (r: CommandResult)
        ensures
            get_info_done(*self, opt_owned(id), r),
    {
        match id {
            Some(k) => {
                match self.nodes.get(k) {
                    None => CommandResult::Error(concat2("No node with id ", k.as_str())),
                    Some(node) => {
                        let mut nodes: Table<NodeInfo> = Table::new();
                        nodes.insert(k.clone(), node.to_info());
                        assert(nodes@.dom() =~= set![k@]);
                        CommandResult::Info(Info { nodes })
                    },
                }
            },
            None => {
                let entries = self.nodes.entries();
                let ghost s = entries@;
                let mut out: Vec<(String, NodeInfo)> = Vec::new();
                let mut i: usize = 0;
                while i < entries.len()
                    invariant
                        s == entries@,
                        i <= s.len(),
                        out@.len() == i,
                        forall|j: int|
                            0 <= j < i ==> (#[trigger] out@[j]).0@ == s[j].0@ && reports(s[j].1, out@[j].1),
                    decreases s.len() - i,
                {
                    out.push((entries[i].0.clone(), entries[i].1.to_info()));
                    i = i + 1;
                }
                proof {
                    lemma_entries_pointwise(s, out@);
                }
                let nodes = Table::from_entries(out);
                proof {
                    assert forall|k: Seq<char>| #[trigger] self.nodes@.contains_key(k) implies reports(
                        self.nodes@[k],
                        nodes@[k],
                    ) by {
                        let j = choose|j: int| 0 <= j < s.len() && #[trigger] s[j].0@ == k;
                    }
                }
                CommandResult::Info(Info { nodes })
            },
        }
    }

    /// Links the output of one node to the input of another: the link must
    /// carry a medium, have a new id, join two nodes, and each medium must
    /// leave the producer and enter the consumer; the consumer then takes the
    /// input (and may refuse), and the producer counts the link among its
    /// consumers.
    pub fn connect(
        &mut self,
        link_id: String,
        src_id: String,
        sink_id: String,
        audio: bool,
        video: bool,
        config: Option<Table<JsonValue>>,
    ) -> (r: CommandResult)
        requires
            old(self).wf(),
        ensures
            final(self).wf(),
            connect_done(*old(self), *final(self), link_id, src_id, sink_id, audio, video, config, r),
    {
        if !audio && !video {
            return CommandResult::Error(concat3("Link with id ", link_id.as_str(), " must have either audio or video enabled"));
        }
        if self.links.contains_key(&link_id) {
            return CommandResult::Error(concat2("A link already exists with id ", link_id.as_str()));
        }
        let src_audio;
        let src_video;
        match self.nodes.get(&src_id) {
            None => {
                return CommandResult::Error(concat2("No producer with id ", src_id.as_str()));
            },
            Some(n) => {
                src_audio = n.can_output_audio();
                src_video = n.can_output_video();
            },
        }
        let sink_audio;
        let sink_video;
        match self.nodes.get(&sink_id) {
            None => {
                return CommandResult::Error(concat2("No consumer with id ", sink_id.as_str()));
            },
            Some(n) => {
                sink_audio = n.can_input_audio();
                sink_video = n.can_input_video();
            },
        }
        if audio && (!src_audio || !sink_audio) {
            return CommandResult::Error(concat3("Link ", link_id.as_str(), " requested audio, but source/sink capabilities do not match"));
        }
        if video && (!src_video || !sink_video) {
            return CommandResult::Error(concat3("Link ", link_id.as_str(), " requested video, but source/sink capabilities do not match"));
        }
        let ghost before = *self;
        let link_config = match &config {
            Some(c) => Some(c.duplicate()),
            None => None,
        };
        let mut sink = match self.nodes.remove(&sink_id) {
            Some(n) => n,
            None => {
                return CommandResult::Error(concat2("No consumer with id ", sink_id.as_str()));
            },
        };
        let ghost sink_before = sink;
        assert(node_wf(sink));
        let res = sink.connect_input(&sink_id, &link_id, audio, video, config);
        let ghost m = sink;
        let ghost gres = res;
        self.nodes.insert(sink_id.clone(), sink);
        assert(self.nodes@ =~= before.nodes@.insert(sink_id@, m));
        let ghost mid = self.nodes@;
        proof {
            assert forall|k: Seq<char>| #[trigger] self.nodes@.contains_key(k) implies node_wf(self.nodes@[k])
                && node_id(self.nodes@[k]) == k by {
                if k != sink_id@ {
                    assert(before.nodes@.contains_key(k));
                }
            }
        }
        match res {
            Err(e) => {
                assert(sink_connected(before.nodes@[sink_id@], m, sink_id@, link_id, audio, video, config, gres));
                return CommandResult::Error(e);
            },
            Ok(()) => {},
        }
        match self.nodes.remove(&src_id) {
            Some(mut src) => {
                let ghost src_before = src;
                src.add_consumer_link(&link_id, audio, video);
                self.nodes.insert(src_id.clone(), src);
                assert(self.nodes@ =~= mid.insert(src_id@, self.nodes@[src_id@]));
            },
            None => {},
        }
        let ghost lk = link_id;
        let key = link_id.clone();
        self.links.insert(key, LinkRecord { src_id, sink_id, audio, video, config: link_config });
        proof {
            assert(sink_connected(before.nodes@[sink_id@], m, sink_id@, lk, audio, video, config, gres));
            assert forall|k: Seq<char>| #[trigger] self.nodes@.contains_key(k) implies node_wf(self.nodes@[k])
                && node_id(self.nodes@[k]) == k by {
                assert(mid.contains_key(k));
            }
            assert forall|l: Seq<char>| #[trigger] self.links@.contains_key(l) implies self.nodes@.contains_key(
                self.links@[l].src_id@,
            ) && self.nodes@.contains_key(self.links@[l].sink_id@) by {
                if l != lk@ {
                    assert(before.links@.contains_key(l));
                    assert(before.nodes@.contains_key(self.links@[l].src_id@));
                    assert(before.nodes@.contains_key(self.links@[l].sink_id@));
                }
            }
        }
        CommandResult::Success
    }

    /// Drops the link from the bridges of each medium it carries from `src_id`.
    pub fn remove_media_bridge_link(&mut self, src_id: &String, link_id: &String, audio: bool, video: bool)
        ensures
            final(self).media_bridges@ == bridges_unlinked(old(self).media_bridges@, src_id@, link_id@, audio, video),
            final(self).nodes@ == old(self).nodes@,
            final(self).links@ == old(self).links@,
            final(self).started == old(self).started,
    {
        if audio {
            let key = concat3(src_id.as_str(), ":", "audio");
            self.drop_bridge_consumer(key, link_id);
        }
        if video {
            let key = concat3(src_id.as_str(), ":", "video");
            self.drop_bridge_consumer(key, link_id);
        }
    }

    fn drop_bridge_consumer(&mut self, key: String, link_id: &String)
        ensures
            final(self).media_bridges@ == bridge_dropped(old(self).media_bridges@, key@, link_id@),
            final(self).nodes@ == old(self).nodes@,
            final(self).links@ == old(self).links@,
            final(self).started == old(self).started,
    {
        match self.media_bridges.remove(&key) {
            Some(mut bridge) => {
                bridge.remove(link_id);
                if !bridge.is_empty() {
                    self.media_bridges.insert(key, bridge);
                }
            },
            None => {},
        }
    }

    /// Removes a link: its bridges let it go, its producer drops it from its
    /// consumers, and its consumer releases its input.
    pub fn disconnect(&mut self, link_id: &String) -> (r: CommandResult)
        requires
            old(self).wf(),
        ensures
            final(self).wf(),
            disconnect_done(*old(self), *final(self), *link_id, r),
    {
        let ghost before = *self;
        let rec = match self.links.remove(link_id) {
            None => {
                assert(self.links@ =~= before.links@);
                return CommandResult::Error(concat2("No link with id ", link_id.as_str()));
            },
            Some(rec) => rec,
        };
        self.remove_media_bridge_link(&rec.src_id, link_id, rec.audio, rec.video);
        let ghost start = self.nodes@;
        match self.nodes.remove(&rec.src_id) {
            Some(mut src) => {
                src.remove_consumer_link(link_id);
                self.nodes.insert(rec.src_id.clone(), src);
                assert(self.nodes@ =~= start.insert(rec.src_id@, self.nodes@[rec.src_id@]));
            },
            None => {
                assert(self.nodes@ =~= start);
            },
        }
        let ghost mid = self.nodes@;
        proof {
            assert(unlinked_at(before.nodes@, mid, rec.src_id@, link_id@));
            assert forall|k: Seq<char>| #[trigger] mid.contains_key(k) implies node_wf(mid[k]) && node_id(mid[k]) == k by {
                assert(before.nodes@.contains_key(k));
            }
        }
        match self.nodes.remove(&rec.sink_id) {
            Some(mut sink) => {
                sink.disconnect_input(link_id);
                self.nodes.insert(rec.sink_id.clone(), sink);
                assert(self.nodes@ =~= mid.insert(rec.sink_id@, self.nodes@[rec.sink_id@]));
            },
            None => {
                assert(self.nodes@ =~= mid);
            },
        }
        proof {
            assert(detached_at(mid, self.nodes@, rec.sink_id@, link_id@));
            assert forall|k: Seq<char>| #[trigger] self.nodes@.contains_key(k) implies node_wf(self.nodes@[k])
                && node_id(self.nodes@[k]) == k by {
                assert(mid.contains_key(k));
            }
            assert forall|l: Seq<char>| #[trigger] self.links@.contains_key(l) implies self.nodes@.contains_key(
                self.links@[l].src_id@,
            ) && self.nodes@.contains_key(self.links@[l].sink_id@) by {
                assert(before.links@.contains_key(l));
                assert(before.nodes@.contains_key(self.links@[l].src_id@));
                assert(before.nodes@.contains_key(self.links@[l].sink_id@));
            }
        }
        CommandResult::Success
    }

    /// Gives node `id` cue and end times at `now`; a refusal is recorded on
    /// the node as its last error.
    pub fn schedule_node<F: Fn(Number, Number, i64, i64) -> JsonValue>(
        &mut self,
        id: &String,
        cue_time: Option<i128>,
        end_time: Option<i128>,
        now: i128,
        interpolate: &F,
    ) -> (r: CommandResult)
        requires
            old(self).wf(),
            interpolation_total(*interpolate),
        ensures
            final(self).wf(),
            schedule_node_done(*old(self), *final(self), *id, cue_time, end_time, now, *interpolate, r),
    {
        let ghost before = *self;
        let mut node = match self.nodes.remove(id) {
            None => {
                assert(self.nodes@ =~= before.nodes@);
                return CommandResult::Error(concat2("No node with id ", id.as_str()));
            },
            Some(n) => n,
        };
        assert(node_wf(node) && node_id(node) == id@);
        let res = node.set_schedule_at(cue_time, end_time, now, interpolate);
        let ghost m = node;
        let ghost gres = res;
        let r = match res {
            Err(e) => {
                node.mark_error(e.clone());
                CommandResult::Error(e)
            },
            Ok(()) => CommandResult::Success,
        };
        self.nodes.insert(id.clone(), node);
        proof {
            assert(node_scheduled(before.nodes@[id@], m, cue_time, end_time, now, *interpolate, gres));
            assert(self.nodes@ =~= before.nodes@.insert(id@, self.nodes@[id@]));
            assert forall|k: Seq<char>| #[trigger] self.nodes@.contains_key(k) implies node_wf(self.nodes@[k])
                && node_id(self.nodes@[k]) == k by {
                if k != id@ {
                    assert(before.nodes@.contains_key(k));
                }
            }
            assert forall|l: Seq<char>| #[trigger] self.links@.contains_key(l) implies self.nodes@.contains_key(
                self.links@[l].src_id@,
            ) && self.nodes@.contains_key(self.links@[l].sink_id@) by {
                assert(before.nodes@.contains_key(self.links@[l].src_id@));
                assert(before.nodes@.contains_key(self.links@[l].sink_id@));
            }
        }
        r
    }

    /// Removes node `id`: it stops, every link that touches it is
    /// disconnected, and it leaves the graph.
    pub fn remove_node(&mut self, id: &String) -> (r: CommandResult)
        requires
            old(self).wf(),
        ensures
            final(self).wf(),
            remove_node_done(*old(self), *final(self), *id, r),
    {
        let ghost before = *self;
        let mut node = match self.nodes.remove(id) {
            None => {
                assert(self.nodes@ =~= before.nodes@);
                return CommandResult::Error(concat2("No node with id ", id.as_str()));
            },
            Some(n) => n,
        };
        node.stop();
        self.nodes.insert(id.clone(), node);
        let ghost stopped = self.nodes@;
        assert(stopped.dom() =~= before.nodes@.dom());
        proof {
            assert forall|k: Seq<char>| #[trigger] self.nodes@.contains_key(k) implies node_wf(self.nodes@[k])
                && node_id(self.nodes@[k]) == k by {
                if k != id@ {
                    assert(before.nodes@.contains_key(k));
                }
            }
        }
        let entries = self.links.entries();
        let ghost es = entries@;
        let mut touching: Vec<String> = Vec::new();
        let mut i: usize = 0;
        while i < entries.len()
            invariant
                es == entries@,
                keys_unique(es),
                entries_map(es) == before.links@,
                i <= es.len(),
                forall|j: int| 0 <= j < touching@.len() ==> before.links@.contains_key(#[trigger] touching@[j]@)
                    && touches(before.links@[touching@[j]@], id@),
                forall|a: int, b: int| 0 <= a < b < touching@.len() ==> #[trigger] touching@[a]@ != #[trigger] touching@[b]@,
                forall|j: int| #![trigger touching@[j]] 0 <= j < touching@.len() ==> exists|p: int| 0 <= p < i && #[trigger] es[p].0@ == touching@[j]@,
                forall|p: int| #![trigger es[p]] 0 <= p < i && touches(es[p].1, id@) ==> exists|j: int| 0 <= j < touching@.len() && #[trigger] touching@[j]@ == es[p].0@,
            decreases es.len() - i,
        {
            proof {
                lemma_key_index_unique(es, i as int);
            }
            let rec = &entries[i].1;
            if rec.src_id == *id || rec.sink_id == *id {
                let ghost prev = touching@;
                touching.push(entries[i].0.clone());
                proof {
                    assert forall|a: int, b: int| 0 <= a < b < touching@.len() implies #[trigger] touching@[a]@ != #[trigger] touching@[b]@ by {
                        if b == prev.len() {
                            let p = choose|p: int| 0 <= p < i && #[trigger] es[p].0@ == prev[a]@;
                            assert(es[p].0@ != es[i as int].0@);
                        }
                    }
                    assert forall|j: int| #![trigger touching@[j]] 0 <= j < touching@.len() implies exists|p: int| 0 <= p < i + 1 && #[trigger] es[p].0@ == touching@[j]@ by {
                        if j == prev.len() {
                            assert(es[i as int].0@ == touching@[j]@);
                        } else {
                            assert(touching@[j] == prev[j]);
                        }
                    }
                    assert forall|p: int| #![trigger es[p]] 0 <= p < i + 1 && touches(es[p].1, id@) implies exists|j: int| 0 <= j < touching@.len() && #[trigger] touching@[j]@ == es[p].0@ by {
                        if p == i {
                            assert(touching@[prev.len() as int]@ == es[p].0@);
                        } else {
                            let j = choose|j: int| 0 <= j < prev.len() && #[trigger] prev[j]@ == es[p].0@;
                            assert(touching@[j] == prev[j]);
                        }
                    }
                }
            }
            i = i + 1;
        }
        let mut t: usize = 0;
        proof {
            assert forall|k: Seq<char>| #[trigger] self.nodes@.contains_key(k) && k != id@ implies cut_off(
                before.nodes@[k],
                self.nodes@[k],
                sent_among(touching@, 0, before.links@, k),
                taken_among(touching@, 0, before.links@, k),
            ) by {
                assert(self.nodes@[k] == before.nodes@[k]);
                assert(sent_among(touching@, 0, before.links@, k) =~= Set::<Seq<char>>::empty());
                assert(taken_among(touching@, 0, before.links@, k) =~= Set::<Seq<char>>::empty());
                lemma_cut_off_nothing(before.nodes@[k]);
            }
            let f0 = fed_among(touching@, 0, before.links@);
            assert forall|key: Seq<char>| #[trigger] f0(key) == Set::<Seq<char>>::empty() by {
                assert(f0(key) =~= Set::<Seq<char>>::empty());
            }
            lemma_bridges_left_none(before.media_bridges@, f0);
        }
        while t < touching.len()
            invariant
                self.wf(),
                self.started == before.started,
                t <= touching@.len(),
                self.nodes@.dom() == stopped.dom(),
                stopped.contains_key(id@),
                forall|k: Seq<char>| #[trigger] self.nodes@.contains_key(k) && k != id@ ==> node_frame(before.nodes@[k], self.nodes@[k]),
                self.media_bridges@ == bridges_left(before.media_bridges@, fed_among(touching@, t as int, before.links@)),
                forall|k: Seq<char>| #[trigger] self.nodes@.contains_key(k) && k != id@ ==> cut_off(
                    before.nodes@[k],
                    self.nodes@[k],
                    sent_among(touching@, t as int, before.links@, k),
                    taken_among(touching@, t as int, before.links@, k),
                ),
                forall|j: int| 0 <= j < touching@.len() ==> before.links@.contains_key(#[trigger] touching@[j]@)
                    && touches(before.links@[touching@[j]@], id@),
                forall|a: int, b: int| 0 <= a < b < touching@.len() ==> #[trigger] touching@[a]@ != #[trigger] touching@[b]@,
                forall|l: Seq<char>| #[trigger] self.links@.contains_key(l) <==> (before.links@.contains_key(l) && !exists|j: int| 0 <= j < t && #[trigger] touching@[j]@ == l),
                forall|l: Seq<char>| #[trigger] self.links@.contains_key(l) ==> self.links@[l] == before.links@[l],
            decreases touching@.len() - t,
        {
            let ghost prev_nodes = self.nodes@;
            let ghost prev_links = self.links@;
            let ghost prev_bridges = self.media_bridges@;
            assert(self.links@.contains_key(touching@[t as int]@)) by {
                if exists|j: int| 0 <= j < t && #[trigger] touching@[j]@ == touching@[t as int]@ {
                    let j = choose|j: int| 0 <= j < t && #[trigger] touching@[j]@ == touching@[t as int]@;
                    assert(touching@[j]@ != touching@[t as int]@);
                }
            }
            let _ = self.disconnect(&touching[t]);
            proof {
                let link = touching@[t as int]@;
                let rec = prev_links[link];
                let mid = choose|mid: Map<Seq<char>, NodeRecord>|
                    #[trigger] unlinked_at(prev_nodes, mid, rec.src_id@, link) && detached_at(mid, self.nodes@, rec.sink_id@, link);
                lemma_disconnect_frames(prev_nodes, mid, self.nodes@, rec.src_id@, rec.sink_id@, link);
                assert(rec == before.links@[link]);
                lemma_remove_step(before.nodes@, before.links@, prev_nodes, mid, self.nodes@, touching@, t as int, id@);
                lemma_remove_bridges_step(before.media_bridges@, before.links@, prev_bridges, self.media_bridges@, touching@, t as int);
                assert forall|k: Seq<char>| #[trigger] self.nodes@.contains_key(k) && k != id@ implies node_frame(before.nodes@[k], self.nodes@[k]) by {
                    assert(prev_nodes.contains_key(k));
                    assert(node_frame(before.nodes@[k], prev_nodes[k]));
                    assert(node_frame(prev_nodes[k], self.nodes@[k]));
                }
                assert forall|l: Seq<char>| #[trigger] self.links@.contains_key(l) <==> (before.links@.contains_key(l) && !exists|j: int| 0 <= j < t + 1 && #[trigger] touching@[j]@ == l) by {
                    if before.links@.contains_key(l) && !exists|j: int| 0 <= j < t + 1 && #[trigger] touching@[j]@ == l {
                        assert(!exists|j: int| 0 <= j < t && #[trigger] touching@[j]@ == l);
                        assert(l != link);
                    }
                    if self.links@.contains_key(l) {
                        assert(prev_links.contains_key(l));
                        if exists|j: int| 0 <= j < t + 1 && #[trigger] touching@[j]@ == l {
                            let j = choose|j: int| 0 <= j < t + 1 && #[trigger] touching@[j]@ == l;
                            if j < t {
                            } else {
                                assert(l == link);
                            }
                        }
                    }
                }
            }
            t = t + 1;
        }
        self.nodes.remove(id);
        proof {
            assert(self.nodes@.dom() =~= before.nodes@.dom().remove(id@));
            assert forall|l: Seq<char>| self.links@.contains_key(l) <==> links_without_node(before.links@, id@).contains_key(l) by {
                if before.links@.contains_key(l) && touches(before.links@[l], id@) {
                    let p = choose|p: int| 0 <= p < es.len() && #[trigger] es[p].0@ == l;
                    lemma_key_index_unique(es, p);
                    assert(exists|j: int| 0 <= j < touching@.len() && #[trigger] touching@[j]@ == es[p].0@);
                }
            }
            assert(self.links@ =~= links_without_node(before.links@, id@));
            let n = touching@.len() as int;
            let fed = fed_among(touching@, n, before.links@);
            let feeds = node_feeds(before.links@, id@);
            assert forall|key: Seq<char>| #[trigger] fed(key) == feeds(key) by {
                assert forall|l: Seq<char>| #[trigger] fed(key).contains(l) <==> feeds(key).contains(l) by {
                    if fed(key).contains(l) {
                        let j = choose|j: int| 0 <= j < n && #[trigger] touching@[j]@ == l && feeds_bridge(before.links@, l, key);
                        assert(before.links@.contains_key(touching@[j]@) && touches(before.links@[touching@[j]@], id@));
                    }
                    if feeds(key).contains(l) {
                        let p = choose|p: int| 0 <= p < es.len() && #[trigger] es[p].0@ == l;
                        lemma_key_index_unique(es, p);
                        assert(exists|j: int| 0 <= j < touching@.len() && #[trigger] touching@[j]@ == es[p].0@);
                        let j = choose|j: int| 0 <= j < touching@.len() && #[trigger] touching@[j]@ == es[p].0@;
                        assert(touching@[j]@ == l);
                    }
                }
                assert(fed(key) =~= feeds(key));
            }
            lemma_bridges_left_ext(before.media_bridges@, fed, feeds);
            assert forall|k: Seq<char>| #[trigger] self.nodes@.contains_key(k) implies cut_off(
                before.nodes@[k],
                self.nodes@[k],
                links_out_to(before.links@, k, id@),
                links_in_from(before.links@, k, id@),
            ) by {
                let n = touching@.len() as int;
                assert forall|l: Seq<char>| sent_among(touching@, n, before.links@, k).contains(l) <==> links_out_to(
                    before.links@,
                    k,
                    id@,
                ).contains(l) by {
                    if sent_among(touching@, n, before.links@, k).contains(l) {
                        let j = choose|j: int| 0 <= j < n && #[trigger] touching@[j]@ == l && before.links@[l].src_id@ == k;
                        assert(before.links@.contains_key(touching@[j]@) && touches(before.links@[touching@[j]@], id@));
                    }
                    if links_out_to(before.links@, k, id@).contains(l) {
                        let p = choose|p: int| 0 <= p < es.len() && #[trigger] es[p].0@ == l;
                        lemma_key_index_unique(es, p);
                        assert(exists|j: int| 0 <= j < touching@.len() && #[trigger] touching@[j]@ == es[p].0@);
                        let j = choose|j: int| 0 <= j < touching@.len() && #[trigger] touching@[j]@ == es[p].0@;
                        assert(touching@[j]@ == l);
                    }
                }
                assert(sent_among(touching@, n, before.links@, k) =~= links_out_to(before.links@, k, id@));
                assert forall|l: Seq<char>| taken_among(touching@, n, before.links@, k).contains(l) <==> links_in_from(
                    before.links@,
                    k,
                    id@,
                ).contains(l) by {
                    if taken_among(touching@, n, before.links@, k).contains(l) {
                        let j = choose|j: int| 0 <= j < n && #[trigger] touching@[j]@ == l && before.links@[l].sink_id@ == k;
                        assert(before.links@.contains_key(touching@[j]@) && touches(before.links@[touching@[j]@], id@));
                    }
                    if links_in_from(before.links@, k, id@).contains(l) {
                        let p = choose|p: int| 0 <= p < es.len() && #[trigger] es[p].0@ == l;
                        lemma_key_index_unique(es, p);
                        assert(exists|j: int| 0 <= j < touching@.len() && #[trigger] touching@[j]@ == es[p].0@);
                        let j = choose|j: int| 0 <= j < touching@.len() && #[trigger] touching@[j]@ == es[p].0@;
                        assert(touching@[j]@ == l);
                    }
                }
                assert(taken_among(touching@, n, before.links@, k) =~= links_in_from(before.links@, k, id@));
            }
            assert forall|k: Seq<char>| #[trigger] self.nodes@.contains_key(k) implies node_wf(self.nodes@[k])
                && node_id(self.nodes@[k]) == k by {
            }
            assert forall|l: Seq<char>| #[trigger] self.links@.contains_key(l) implies self.nodes@.contains_key(
                self.links@[l].src_id@,
            ) && self.nodes@.contains_key(self.links@[l].sink_id@) by {
                assert(!touches(before.links@[l], id@));
            }
        }
        CommandResult::Success
    }

    /// Adds a control point: to a property of a mixer slot when
    /// `controllee_id` names a link into a mixer, else to a setting of the
    /// mixer that `controllee_id` names.
    pub fn add_control_point<F: Fn(Number, Number, i64, i64) -> JsonValue>(
        &mut self,
        controllee_id: &String,
        property: &String,
        control_point: ControlPoint,
        now: i128,
        interpolate: &F,
    ) -> (r: CommandResult)
        requires
            old(self).wf(),
            interpolation_total(*interpolate),
        ensures
            final(self).wf(),
            add_control_point_done(*old(self), *final(self), *controllee_id, *property, control_point, now, *interpolate, r),
    {
        let ghost before = *self;
        let target: String;
        let on_slot: bool;
        match self.links.get(controllee_id) {
            Some(link) => {
                if !self.nodes.contains_key(&link.sink_id) {
                    let first = concat3("No sink node with id ", link.sink_id.as_str(), " for link ");
                    return CommandResult::Error(concat2(first.as_str(), controllee_id.as_str()));
                }
                target = link.sink_id.clone();
                on_slot = true;
            },
            None => {
                if !self.nodes.contains_key(controllee_id) {
                    return CommandResult::Error(concat2("No node or slot with id ", controllee_id.as_str()));
                }
                target = controllee_id.clone();
                on_slot = false;
            },
        }
        let node = match self.nodes.remove(&target) {
            Some(n) => n,
            None => {
                return CommandResult::Error(concat2("No node or slot with id ", controllee_id.as_str()));
            },
        };
        let r = match node {
            NodeRecord::Mixer(mut mixer) => {
                let res = if on_slot {
                    mixer.add_slot_control_point_at(controllee_id, property, control_point, now, interpolate)
                } else {
                    mixer.add_control_point_at(property, control_point, now, interpolate)
                };
                self.nodes.insert(target.clone(), NodeRecord::Mixer(mixer));
                match res {
                    Ok(()) => CommandResult::Success,
                    Err(e) => CommandResult::Error(e),
                }
            },
            other => {
                self.nodes.insert(target.clone(), other);
                if on_slot {
                    let first = concat2("Slot control points are only supported for mixer links; ", target.as_str());
                    CommandResult::Error(concat2(first.as_str(), " is not a mixer"))
                } else {
                    let first = concat2("Node control points are currently supported only for mixers; ", target.as_str());
                    CommandResult::Error(concat2(first.as_str(), " is not a mixer"))
                }
            },
        };
        proof {
            assert(self.nodes@ =~= before.nodes@.insert(target@, self.nodes@[target@]));
            assert forall|k: Seq<char>| #[trigger] self.nodes@.contains_key(k) implies node_wf(self.nodes@[k])
                && node_id(self.nodes@[k]) == k by {
                if k != target@ {
                    assert(before.nodes@.contains_key(k));
                }
            }
            assert forall|l: Seq<char>| #[trigger] self.links@.contains_key(l) implies self.nodes@.contains_key(
                self.links@[l].src_id@,
            ) && self.nodes@.contains_key(self.links@[l].sink_id@) by {
                assert(before.nodes@.contains_key(self.links@[l].src_id@));
                assert(before.nodes@.contains_key(self.links@[l].sink_id@));
            }
            if !(before.nodes@[target@] is Mixer) {
                assert(self.nodes@ =~= before.nodes@);
            }
        }
        r
    }

    /// Drops the points of controller `controller_id`: from a property of a
    /// mixer slot when `controllee_id` names a link into a mixer, else from a
    /// setting of the mixer that `controllee_id` names.
    pub fn remove_control_point<F: Fn(Number, Number, i64, i64) -> JsonValue>(
        &mut self,
        controller_id: &String,
        controllee_id: &String,
        property: &String,
        now: i128,
        interpolate: &F,
    ) -> (r: CommandResult)
        requires
            old(self).wf(),
            interpolation_total(*interpolate),
        ensures
            final(self).wf(),
            remove_control_point_done(*old(self), *final(self), *controller_id, *controllee_id, *property, now, *interpolate, r),
    {
        let ghost before = *self;
        let target: String;
        let on_slot: bool;
        match self.links.get(controllee_id) {
            Some(link) => {
                if !self.nodes.contains_key(&link.sink_id) {
                    let first = concat3("No sink node with id ", link.sink_id.as_str(), " for link ");
                    return CommandResult::Error(concat2(first.as_str(), controllee_id.as_str()));
                }
                target = link.sink_id.clone();
                on_slot = true;
            },
            None => {
                if !self.nodes.contains_key(controllee_id) {
                    return CommandResult::Error(concat2("No node or slot with id ", controllee_id.as_str()));
                }
                target = controllee_id.clone();
                on_slot = false;
            },
        }
        let node = match self.nodes.remove(&target) {
            Some(n) => n,
            None => {
                return CommandResult::Error(concat2("No node or slot with id ", controllee_id.as_str()));
            },
        };
        let r = match node {
            NodeRecord::Mixer(mut mixer) => {
                if on_slot {
                    mixer.remove_slot_control_point_at(controller_id, controllee_id, property, now, interpolate);
                } else {
                    mixer.remove_control_point_at(controller_id, property, now, interpolate);
                }
                self.nodes.insert(target.clone(), NodeRecord::Mixer(mixer));
                CommandResult::Success
            },
            other => {
                self.nodes.insert(target.clone(), other);
                if on_slot {
                    let first = concat2("Slot control points are only supported for mixer links; ", target.as_str());
                    CommandResult::Error(concat2(first.as_str(), " is not a mixer"))
                } else {
                    let first = concat2("Node control points are currently supported only for mixers; ", target.as_str());
                    CommandResult::Error(concat2(first.as_str(), " is not a mixer"))
                }
            },
        };
        proof {
            assert(self.nodes@ =~= before.nodes@.insert(target@, self.nodes@[target@]));
            assert forall|k: Seq<char>| #[trigger] self.nodes@.contains_key(k) implies node_wf(self.nodes@[k])
                && node_id(self.nodes@[k]) == k by {
                if k != target@ {
                    assert(before.nodes@.contains_key(k));
                }
            }
            assert forall|l: Seq<char>| #[trigger] self.links@.contains_key(l) implies self.nodes@.contains_key(
                self.links@[l].src_id@,
            ) && self.nodes@.contains_key(self.links@[l].sink_id@) by {
                assert(before.nodes@.contains_key(self.links@[l].src_id@));
                assert(before.nodes@.contains_key(self.links@[l].sink_id@));
            }
            if !(before.nodes@[target@] is Mixer) {
                assert(self.nodes@ =~= before.nodes@);
            }
        }
        r
    }

    /// Stops every node and clears the graph: no nodes, links or bridges, and
    /// not started.
    pub fn shutdown(&mut self)
        ensures
            final(self).wf(),
            !final(self).started,
            final(self).nodes@ == Map::<Seq<char>, NodeRecord>::empty(),
            final(self).links@ == Map::<Seq<char>, LinkRecord>::empty(),
            final(self).media_bridges@ == Map::<Seq<char>, Set<Seq<char>>>::empty(),
    {
        self.started = false;
        let mut taken: Table<NodeRecord> = Table::new();
        std::mem::swap(&mut taken, &mut self.nodes);
        let mut entries = taken.into_entries();
        while entries.len() > 0
            decreases entries@.len(),
        {
            let (_, mut node) = entries.pop().unwrap();
            node.stop();
        }
        self.links = Table::new();
        self.media_bridges = Table::new();
    }

    /// The graph stays sound when a sound node joins it under its own id.
    proof fn lemma_insert_keeps_wf(&self, before: NodeManager, k: Seq<char>)
        requires
            before.wf(),
            self.links@ == before.links@,
            self.nodes@ == before.nodes@.insert(k, self.nodes@[k]),
            node_wf(self.nodes@[k]),
            node_id(self.nodes@[k]) == k,
        ensures
            self.wf(),
    {
        assert forall|j: Seq<char>| #[trigger] self.nodes@.contains_key(j) implies node_wf(self.nodes@[j])
            && node_id(self.nodes@[j]) == j by {
            if j != k {
                assert(before.nodes@.contains_key(j));
            }
        }
        assert forall|l: Seq<char>| #[trigger] self.links@.contains_key(l) implies self.nodes@.contains_key(
            self.links@[l].src_id@,
        ) && self.nodes@.contains_key(self.links@[l].sink_id@) by {
            assert(before.links@.contains_key(l));
        }
    }
}

/// Disconnecting a link right after connecting it gives back the links the
/// graph had before.
pub proof fn law_disconnect_undoes_connect(
    m0: NodeManager,
    m1: NodeManager,
    m2: NodeManager,
    link_id: String,
    src_id: String,
    sink_id: String,
    audio: bool,
    video: bool,
    config: Option<Table<JsonValue>>,
    r2: CommandResult,
)
    requires
        connect_done(m0, m1, link_id, src_id, sink_id, audio, video, config, CommandResult::Success),
        disconnect_done(m1, m2, link_id, r2),
    ensures
        r2 is Success,
        m2.links@ == m0.links@,
{
    assert(connect_error(m0.nodes@, m0.links@, link_id@, src_id@, sink_id@, audio, video) is None);
    assert(!m0.links@.contains_key(link_id@));
    assert(m1.links@.contains_key(link_id@));
    assert(m2.links@ =~= m0.links@);
}

} // verus!
