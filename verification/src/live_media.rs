use vstd::prelude::*;
use crate::node_manager::{
    inputs_audio, inputs_video, node_error, node_id, node_state, node_times, node_wf, outputs_audio, outputs_video,
    NodeManager, NodeRecord,
};
use crate::nodes::destination::DestinationPipelineStage;
use crate::nodes::destination_plan::destination_plan;
use crate::nodes::mixer::MixerPipelineStage;
use crate::nodes::source::SourcePipelineStage;
use crate::nodes::video_generator::VideoGeneratorStage;
use crate::nodes::live_steps::{destination_step, generator_step, mixer_step, source_step};
use crate::nodes::mixer_plan::{mixer_plan, slot_entries};
use crate::nodes::source_plan::{source_plan, video_generator_plan};
use crate::pipeline::{resolves, LiveStep, PipelinePlan, PlanView};
use crate::protocol::{Command, CommandResult, State};
use crate::strset::char_seqs;

verus! {

// The graph's side of the media layer: the plan and the step of each node's
// live pipeline, and what the graph makes of the media layer's reports.

/// What the media layer reports of a node's live pipeline.
#[derive(Debug)]
pub enum MediaEvent {
    /// A live pipeline was built for the node.
    Attached,
    /// The live pipeline reached the end of its stream.
    Ended,
    /// The live pipeline failed, with this message.
    Failed(String),
    /// A step on the live pipeline could not be carried out, for this reason.
    Refused(String),
    /// The live pipeline could not be brought in step with the node right
    /// after the node was scheduled, for this reason.
    StartRefused(String),
}

/// A live pipeline stands for the node.
pub open spec fn node_live(n: NodeRecord) -> bool {
    match n {
        NodeRecord::Source(s) => s.live_pipeline,
        NodeRecord::Destination(d) => d.live_pipeline,
        NodeRecord::Mixer(m) => m.live_pipeline,
        NodeRecord::VideoGenerator(g) => g.live_pipeline,
    }
}

/// The node's pipeline stage is idle (a destination without a profile counts as idle).
pub open spec fn node_idle(n: NodeRecord) -> bool {
    match n {
        NodeRecord::Source(s) => s.pipeline.stage == SourcePipelineStage::Idle,
        NodeRecord::Destination(d) => match d.pipeline {
            Some(p) => p.stage == DestinationPipelineStage::Idle,
            None => true,
        },
        NodeRecord::Mixer(m) => m.pipeline.stage == MixerPipelineStage::Idle,
        NodeRecord::VideoGenerator(g) => g.pipeline.stage == VideoGeneratorStage::Idle,
    }
}

/// What to do with node `n`'s live pipeline, given the slots of the live
/// pipeline (for a mixer) and whether the pipeline that is to run reads
/// through `fallbacksrc` (for a source).
pub open spec fn node_step(n: NodeRecord, live_slots: Seq<Seq<char>>, uses_fallbacksrc: bool) -> LiveStep {
    match n {
        NodeRecord::Source(s) => source_step(s, uses_fallbacksrc),
        NodeRecord::Destination(d) => destination_step(d),
        NodeRecord::Mixer(m) => mixer_step(m, live_slots),
        NodeRecord::VideoGenerator(g) => generator_step(g),
    }
}

/// `b` is node `a` after the media layer reported `e`: with a pipeline
/// attached the node goes on as it was; when the pipeline ends or fails the
/// node stops, idle and without one, a failure becoming its last error; so
/// does a node whose pipeline could not be brought up right after it was
/// scheduled; any other step that could not be carried out becomes the node's
/// last error and nothing else changes.
pub open spec fn media_reported(a: NodeRecord, b: NodeRecord, e: MediaEvent) -> bool {
    &&& node_id(b) == node_id(a)
    &&& outputs_audio(b) == outputs_audio(a)
    &&& outputs_video(b) == outputs_video(a)
    &&& inputs_audio(b) == inputs_audio(a)
    &&& inputs_video(b) == inputs_video(a)
    &&& node_times(b) == node_times(a)
    &&& node_wf(a) ==> node_wf(b)
    &&& match e {
        MediaEvent::Attached => node_live(b) && node_state(b) == node_state(a) && node_error(b) == node_error(a),
        MediaEvent::Ended => !node_live(b) && node_idle(b) && node_state(b) == State::Stopped && node_error(b) == node_error(a),
        MediaEvent::Failed(m) => !node_live(b) && node_idle(b) && node_state(b) == State::Stopped && node_error(b) == Some(m),
        MediaEvent::Refused(m) => node_live(b) == node_live(a) && node_state(b) == node_state(a) && node_error(b) == Some(m),
        MediaEvent::StartRefused(m) => !node_live(b) && node_idle(b) && node_state(b) == State::Stopped && node_error(b) == Some(m),
    }
}

/// The plan of node `n`'s live pipeline.
pub open spec fn node_plan(n: NodeRecord) -> PlanView {
    match n {
        NodeRecord::Source(s) => source_plan(
            s.id@,
            s.uri@,
            s.pipeline.manual_unblock,
            s.pipeline.immediate_fallback,
            s.audio_enabled,
            s.video_enabled,
        ),
        NodeRecord::Destination(d) => destination_plan(d.id@, d.family, d.audio_enabled, d.video_enabled),
        NodeRecord::Mixer(m) => mixer_plan(m.id@, m.audio_enabled, m.video_enabled, m.settings@, slot_entries(m.slot_settings)),
        NodeRecord::VideoGenerator(g) => video_generator_plan(g.id@, g.pipeline.pattern@, g.pipeline.is_live, g.pipeline.flip),
    }
}

impl NodeRecord {
    /// The plan of this node's live pipeline.
    pub fn live_plan(&self) -> (p: PipelinePlan)
        ensures
            p@ == node_plan(*self),
            resolves(p@),
    {
        match self {
            NodeRecord::Source(n) => n.live_plan(),
            NodeRecord::Destination(n) => n.live_plan(),
            NodeRecord::Mixer(n) => n.live_plan(),
            NodeRecord::VideoGenerator(n) => n.live_plan(),
        }
    }

    /// What to do with this node's live pipeline, given the slots of the
    /// live pipeline (for a mixer) and whether the pipeline that is to run
    /// reads through `fallbacksrc` (for a source).
    pub fn live_step(&self, live_slots: &Vec<String>, uses_fallbacksrc: bool) -> (r: LiveStep)
        ensures
            r == node_step(*self, char_seqs(live_slots@), uses_fallbacksrc),
    {
        match self {
            NodeRecord::Source(n) => n.live_step(uses_fallbacksrc),
            NodeRecord::Destination(n) => n.live_step(),
            NodeRecord::Mixer(n) => n.live_step(live_slots),
            NodeRecord::VideoGenerator(n) => n.live_step(),
        }
    }

    fn attached(&mut self)
        ensures
            media_reported(*old(self), *final(self), MediaEvent::Attached),
    {
        match self {
            NodeRecord::Source(n) => n.attach_live_pipeline(),
            NodeRecord::Destination(n) => n.attach_live_pipeline(),
            NodeRecord::Mixer(n) => n.attach_live_pipeline(),
            NodeRecord::VideoGenerator(n) => n.attach_live_pipeline(),
        }
    }

    fn ended(&mut self)
        ensures
            media_reported(*old(self), *final(self), MediaEvent::Ended),
    {
        match self {
            NodeRecord::Source(n) => n.pipeline_ended(),
            NodeRecord::Destination(n) => n.pipeline_ended(),
            NodeRecord::Mixer(n) => n.pipeline_ended(),
            NodeRecord::VideoGenerator(n) => n.pipeline_ended(),
        }
    }

    fn failed(&mut self, m: String)
        ensures
            media_reported(*old(self), *final(self), MediaEvent::Failed(m)),
    {
        match self {
            NodeRecord::Source(n) => n.pipeline_failed(m),
            NodeRecord::Destination(n) => n.pipeline_failed(m),
            NodeRecord::Mixer(n) => n.pipeline_failed(m),
            NodeRecord::VideoGenerator(n) => n.pipeline_failed(m),
        }
    }

    fn start_refused(&mut self, m: String)
        ensures
            media_reported(*old(self), *final(self), MediaEvent::StartRefused(m)),
    {
        match self {
            NodeRecord::Source(n) => n.pipeline_failed(m),
            NodeRecord::Destination(n) => n.pipeline_failed(m),
            NodeRecord::Mixer(n) => n.pipeline_failed(m),
            NodeRecord::VideoGenerator(n) => n.pipeline_failed(m),
        }
    }

    fn refused(&mut self, m: String)
        ensures
            media_reported(*old(self), *final(self), MediaEvent::Refused(m)),
    {
        match self {
            NodeRecord::Source(n) => n.mark_error(m),
            NodeRecord::Destination(n) => n.mark_error(m),
            NodeRecord::Mixer(n) => n.mark_error(m),
            NodeRecord::VideoGenerator(n) => n.mark_error(m),
        }
    }

    /// Takes a report of the media layer on this node's live pipeline.
    pub fn report_media(&mut self, e: MediaEvent)
        ensures
            media_reported(*old(self), *final(self), e),
    {
        match e {
            MediaEvent::Attached => self.attached(),
            MediaEvent::Ended => self.ended(),
            MediaEvent::Failed(m) => self.failed(m),
            MediaEvent::Refused(m) => self.refused(m),
            MediaEvent::StartRefused(m) => self.start_refused(m),
        }
    }
}

/// Once the media layer reports that a node's live pipeline ended or failed,
/// or could not be brought up when the node was scheduled, the node asks for no live pipeline any more: whatever the pipeline that
/// would run, the host is told to tear it down.
pub proof fn law_ended_pipeline_is_torn_down(a: NodeRecord, b: NodeRecord, e: MediaEvent, live_slots: Seq<Seq<char>>, uses_fallbacksrc: bool)
    requires
        media_reported(a, b, e),
        e is Ended || e is Failed || e is StartRefused,
    ensures
        node_step(b, live_slots, uses_fallbacksrc) == LiveStep::Teardown,
{
}

impl NodeManager {
    /// Hands a report of the media layer to node `id`, if there is one; every
    /// other node, the links and the media bridges stay as they are.
    pub fn report_media(&mut self, id: &String, e: MediaEvent) -> (found: bool)
        requires
            old(self).wf(),
        ensures
            final(self).wf(),
            found == old(self).nodes@.contains_key(id@),
            final(self).nodes@.dom() == old(self).nodes@.dom(),
            found ==> media_reported(old(self).nodes@[id@], final(self).nodes@[id@], e),
            forall|k: Seq<char>| k != id@ && #[trigger] old(self).nodes@.contains_key(k) ==> final(self).nodes@[k] == old(self).nodes@[k],
            final(self).links@ == old(self).links@,
            final(self).media_bridges@ == old(self).media_bridges@,
            final(self).started == old(self).started,
    {
        let ghost before = *self;
        let mut node = match self.nodes.remove(id) {
            None => {
                assert(self.nodes@ =~= before.nodes@);
                return false;
            },
            Some(n) => n,
        };
        node.report_media(e);
        self.nodes.insert(id.clone(), node);
        proof {
            assert(self.nodes@ =~= before.nodes@.insert(id@, self.nodes@[id@]));
            assert forall|k: Seq<char>| #[trigger] self.nodes@.contains_key(k) implies node_wf(self.nodes@[k])
                && node_id(self.nodes@[k]) == k by {
                if k != id@ {
                    assert(before.nodes@.contains_key(k));
                }
            }
            assert forall|l: Seq<char>| #[trigger] self.links@.contains_key(l) implies self.nodes@.contains_key(
                self.links@[l].src_id@,
            ) && self.nodes@.contains_key(self.links@[l].sink_id@) by {
                assert(before.nodes@.contains_key(self.links@[l].src_id@));
                assert(before.nodes@.contains_key(self.links@[l].sink_id@));
            }
            assert(self.nodes@.dom() =~= before.nodes@.dom());
        }
        true
    }

    /// Takes the outcome of bringing node `id`'s live pipeline in step right
    /// after a command scheduled it, with the command's answer. A refusal
    /// stops the node, idle and without a live pipeline, the refusal becoming
    /// its last error, and becomes the answer; otherwise the answer stands and
    /// the graph is unchanged.
    pub fn settle_scheduled(&mut self, id: &String, outcome: Result<(), String>, answer: CommandResult) -> (r:
        CommandResult)
        requires
            old(self).wf(),
        ensures
            final(self).wf(),
            final(self).nodes@.dom() == old(self).nodes@.dom(),
            final(self).links@ == old(self).links@,
            final(self).media_bridges@ == old(self).media_bridges@,
            final(self).started == old(self).started,
            outcome is Ok ==> r == answer && final(self).nodes@ == old(self).nodes@,
            outcome matches Err(m) ==> {
                &&& r == CommandResult::Error(m)
                &&& old(self).nodes@.contains_key(id@) ==> media_reported(
                    old(self).nodes@[id@],
                    final(self).nodes@[id@],
                    MediaEvent::StartRefused(m),
                )
                &&& forall|k: Seq<char>| k != id@ && #[trigger] old(self).nodes@.contains_key(k) ==> final(self).nodes@[k] == old(self).nodes@[k]
            },
    {
        match outcome {
            Ok(()) => answer,
            Err(m) => {
                self.report_media(id, MediaEvent::StartRefused(m.clone()));
                CommandResult::Error(m)
            },
        }
    }
}

/// The node that a command schedules: that of a start or a reschedule.
pub fn scheduled_node(command: &Command) -> (r: Option<String>)
    ensures
        r == match *command {
            Command::Start { id, .. } => Some(id),
            Command::Reschedule { id, .. } => Some(id),
            _ => None,
        },
{
    match command {
        Command::Start { id, .. } => Some(id.clone()),
        Command::Reschedule { id, .. } => Some(id.clone()),
        _ => None,
    }
}

} // verus!
