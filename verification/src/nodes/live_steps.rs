use vstd::prelude::*;
use crate::nodes::destination::{DestinationNode, DestinationPipelineStage};
use crate::nodes::mixer::{MixerNode, MixerPipelineStage};
use crate::nodes::source::{SourceNode, SourcePipelineStage};
use crate::nodes::video_generator::{VideoGeneratorNode, VideoGeneratorStage};
use crate::nodes::destination::destination_stage;
use crate::nodes::mixer::mixer_stage;
use crate::nodes::source::source_stage;
use crate::nodes::video_generator::generator_stage;
use crate::pipeline::LiveStep;
use crate::protocol::State;

verus! {

// At each refresh, once the media layer is up, the host brings each node's
// live pipeline in line with the node's pipeline stage: none while idle; one
// paused while the node prepares and playing once it plays.

/// What to do with destination `n`'s live pipeline: none without a profile
/// or while idle; paused while scheduled; playing once playing; built when
/// none stands.
pub open spec fn destination_step(n: DestinationNode) -> LiveStep {
    match n.pipeline {
        Some(p) => match p.stage {
            DestinationPipelineStage::Idle => LiveStep::Teardown,
            DestinationPipelineStage::Scheduled => LiveStep::Run { build: !n.live_pipeline, playing: false },
            DestinationPipelineStage::Playing => LiveStep::Run { build: !n.live_pipeline, playing: true },
        },
        None => LiveStep::Teardown,
    }
}

/// What to do with source `n`'s live pipeline: none while idle; paused while
/// prerolling, except that a `fallbacksrc` reader that waits to be unblocked
/// plays; playing once playing; built when none stands.
pub open spec fn source_step(n: SourceNode, uses_fallbacksrc: bool) -> LiveStep {
    match n.pipeline.stage {
        SourcePipelineStage::Idle => LiveStep::Teardown,
        SourcePipelineStage::Prerolling => LiveStep::Run {
            build: !n.live_pipeline,
            playing: uses_fallbacksrc && n.pipeline.manual_unblock,
        },
        SourcePipelineStage::Playing => LiveStep::Run { build: !n.live_pipeline, playing: true },
    }
}

/// What to do with video generator `n`'s live pipeline: none while idle;
/// paused while prerolling; playing once playing; built when none stands.
pub open spec fn generator_step(n: VideoGeneratorNode) -> LiveStep {
    match n.pipeline.stage {
        VideoGeneratorStage::Idle => LiveStep::Teardown,
        VideoGeneratorStage::Prerolling => LiveStep::Run { build: !n.live_pipeline, playing: false },
        VideoGeneratorStage::Playing => LiveStep::Run { build: !n.live_pipeline, playing: true },
    }
}

/// What to do with mixer `n`'s live pipeline, whose slots are `live_slots`:
/// none while idle; paused while starting; playing once playing; built when
/// none stands or its slots are not the mixer's.
pub open spec fn mixer_step(n: MixerNode, live_slots: Seq<Seq<char>>) -> LiveStep {
    let build = !n.live_pipeline || !slots_match(live_slots, n.slot_ids());
    match n.pipeline.stage {
        MixerPipelineStage::Idle => LiveStep::Teardown,
        MixerPipelineStage::Starting => LiveStep::Run { build, playing: false },
        MixerPipelineStage::Playing => LiveStep::Run { build, playing: true },
    }
}

/// A mixer whose stage goes with its state has a live pipeline only while it
/// starts or has started, and that pipeline plays only once the mixer has
/// started: while it starts (before its cue) the pipeline is held paused.
pub proof fn law_mixer_plays_only_once_started(m: MixerNode, live_slots: Seq<Seq<char>>)
    requires
        m.pipeline.stage == mixer_stage(m.state),
    ensures
        (mixer_step(m, live_slots) is Run) == (m.state == State::Starting || m.state == State::Started),
        mixer_step(m, live_slots) matches LiveStep::Run { playing, .. } ==> playing == (m.state == State::Started),
        m.state == State::Starting ==> mixer_step(m, live_slots) matches LiveStep::Run { playing: false, .. },
{
}

/// A video generator whose stage goes with its state has a live pipeline
/// only while it starts or has started, playing only once it has started.
pub proof fn law_generator_plays_only_once_started(g: VideoGeneratorNode)
    requires
        g.pipeline.stage == generator_stage(g.state),
    ensures
        (generator_step(g) is Run) == (g.state == State::Starting || g.state == State::Started),
        generator_step(g) matches LiveStep::Run { playing, .. } ==> playing == (g.state == State::Started),
{
}

/// A source whose stage goes with its state has a live pipeline only while it
/// starts or has started; it plays once started, and while it starts only
/// through a `fallbacksrc` reader that waits to be unblocked.
pub proof fn law_source_plays_only_once_started(n: SourceNode, uses_fallbacksrc: bool)
    requires
        n.pipeline.stage == source_stage(n.state),
    ensures
        (source_step(n, uses_fallbacksrc) is Run) == (n.state == State::Starting || n.state == State::Started),
        source_step(n, uses_fallbacksrc) matches LiveStep::Run { playing, .. } ==> playing == (n.state == State::Started
            || (uses_fallbacksrc && n.pipeline.manual_unblock)),
{
}

/// A destination with a profile whose stage goes with its state has a live
/// pipeline, playing, exactly while it starts or has started; without a
/// profile it has none.
pub proof fn law_destination_plays_while_active(d: DestinationNode)
    requires
        d.pipeline matches Some(p) ==> p.stage == destination_stage(d.state),
    ensures
        (destination_step(d) is Run) == (d.pipeline is Some && (d.state == State::Starting || d.state == State::Started)),
        destination_step(d) matches LiveStep::Run { playing, .. } ==> playing,
{
}

impl DestinationNode {
    /// What to do with this destination's live pipeline.
    pub fn live_step(&self) -> (r: LiveStep)
        ensures
            r == destination_step(*self),
    {
        match &self.pipeline {
            Some(p) => match p.stage {
                DestinationPipelineStage::Idle => LiveStep::Teardown,
                DestinationPipelineStage::Scheduled => LiveStep::Run { build: !self.live_pipeline, playing: false },
                DestinationPipelineStage::Playing => LiveStep::Run { build: !self.live_pipeline, playing: true },
            },
            None => LiveStep::Teardown,
        }
    }
}

impl SourceNode {
    /// What to do with this source's live pipeline; `uses_fallbacksrc` tells
    /// whether the pipeline that is to run reads through `fallbacksrc`.
    pub fn live_step(&self, uses_fallbacksrc: bool) -> (r: LiveStep)
        ensures
            r == source_step(*self, uses_fallbacksrc),
    {
        match self.pipeline.stage {
            SourcePipelineStage::Idle => LiveStep::Teardown,
            SourcePipelineStage::Prerolling => LiveStep::Run {
                build: !self.live_pipeline,
                playing: uses_fallbacksrc && self.pipeline.manual_unblock,
            },
            SourcePipelineStage::Playing => LiveStep::Run { build: !self.live_pipeline, playing: true },
        }
    }
}

impl VideoGeneratorNode {
    /// What to do with this generator's live pipeline.
    pub fn live_step(&self) -> (r: LiveStep)
        ensures
            r == generator_step(*self),
    {
        match self.pipeline.stage {
            VideoGeneratorStage::Idle => LiveStep::Teardown,
            VideoGeneratorStage::Prerolling => LiveStep::Run { build: !self.live_pipeline, playing: false },
            VideoGeneratorStage::Playing => LiveStep::Run { build: !self.live_pipeline, playing: true },
        }
    }
}

/// The live pipeline's slots are the mixer's: as many, and each slot of the
/// mixer among them.
pub open spec fn slots_match(live_slots: Seq<Seq<char>>, slots: Seq<Seq<char>>) -> bool {
    &&& live_slots.len() == slots.len()
    &&& forall|i: int| 0 <= i < slots.len() ==> live_slots.contains(#[trigger] slots[i])
}

impl MixerNode {
    /// The slots of this mixer, in their stored order.
    pub open spec fn slot_ids(&self) -> Seq<Seq<char>> {
        Seq::new(self.slot_settings.entries_seq().len(), |i: int| self.slot_settings.entries_seq()[i].0@)
    }

    /// Whether the slots of a live pipeline, `live_slots` (distinct), are
    /// this mixer's.
    pub fn live_slots_match(&self, live_slots: &Vec<String>) -> (r: bool)
        ensures
            r == slots_match(crate::strset::char_seqs(live_slots@), self.slot_ids()),
    {
        let entries = self.slot_settings.entries();
        let ghost live = crate::strset::char_seqs(live_slots@);
        if live_slots.len() != entries.len() {
            return false;
        }
        let mut i: usize = 0;
        while i < entries.len()
            invariant
                i <= entries@.len(),
                entries@ == self.slot_settings.entries_seq(),
                live == crate::strset::char_seqs(live_slots@),
                live.len() == entries@.len(),
                forall|j: int| 0 <= j < i ==> live.contains(#[trigger] self.slot_ids()[j]),
            decreases entries@.len() - i,
        {
            let mut found = false;
            let mut k: usize = 0;
            while k < live_slots.len()
                invariant
                    k <= live_slots@.len(),
                    i < entries@.len(),
                    live == crate::strset::char_seqs(live_slots@),
                    found ==> live.contains(entries@[i as int].0@),
                    !found ==> forall|m: int| 0 <= m < k ==> live[m] != entries@[i as int].0@,
                decreases live_slots@.len() - k,
            {
                if live_slots[k] == entries[i].0 {
                    assert(live[k as int] == entries@[i as int].0@);
                    found = true;
                }
                k = k + 1;
            }
            if !found {
                assert(self.slot_ids()[i as int] == entries@[i as int].0@);
                return false;
            }
            assert(self.slot_ids()[i as int] == entries@[i as int].0@);
            i = i + 1;
        }
        true
    }

    /// What to do with this mixer's live pipeline, whose slots are `live_slots`.
    pub fn live_step(&self, live_slots: &Vec<String>) -> (r: LiveStep)
        ensures
            r == mixer_step(*self, crate::strset::char_seqs(live_slots@)),
    {
        match self.pipeline.stage {
            MixerPipelineStage::Idle => LiveStep::Teardown,
            MixerPipelineStage::Starting => LiveStep::Run {
                build: !self.live_pipeline || !self.live_slots_match(live_slots),
                playing: false,
            },
            MixerPipelineStage::Playing => LiveStep::Run {
                build: !self.live_pipeline || !self.live_slots_match(live_slots),
                playing: true,
            },
        }
    }
}

} // verus!
