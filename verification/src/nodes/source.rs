use vstd::prelude::*;
use crate::protocol::{NodeInfo, SourceInfo, State};
use crate::schedule::{now_nanos, preroll_settle, rescheduled, settle_preroll};
use crate::strset::{char_seqs, StrSet};
use crate::text::owned;

verus! {

/// What the media pipeline of a source should be doing.
#[derive(Clone, Copy, Debug, PartialEq, Eq, Structural)]
pub enum SourcePipelineStage {
    Idle,
    Prerolling,
    Playing,
}

/// How a source's media pipeline is put together, and its stage.
#[derive(Debug)]
pub struct SourcePipelineProfile {
    pub uri: String,
    pub manual_unblock: bool,
    pub immediate_fallback: bool,
    pub elements: Vec<String>,
    pub stage: SourcePipelineStage,
}

/// The elements a source pipeline is built from.
pub open spec fn source_elements() -> Seq<Seq<char>> {
    seq!["fallbacksrc"@, "deinterlace"@, "audioconvert"@, "level"@, "appsink"@]
}

impl SourcePipelineProfile {
    pub fn new(uri: String) -> (p: Self)
        ensures
            p.uri@ == uri@,
            p.manual_unblock,
            p.immediate_fallback,
            char_seqs(p.elements@) == source_elements(),
            p.stage == SourcePipelineStage::Idle,
    {
        let mut elements: Vec<String> = Vec::new();
        elements.push(owned("fallbacksrc"));
        elements.push(owned("deinterlace"));
        elements.push(owned("audioconvert"));
        elements.push(owned("level"));
        elements.push(owned("appsink"));
        assert(char_seqs(elements@) =~= source_elements());
        SourcePipelineProfile {
            uri,
            manual_unblock: true,
            immediate_fallback: true,
            elements,
            stage: SourcePipelineStage::Idle,
        }
    }
}

/// The pipeline stage that goes with a source's state.
pub open spec fn source_stage(state: State) -> SourcePipelineStage {
    match state {
        State::Initial | State::Stopping | State::Stopped => SourcePipelineStage::Idle,
        State::Starting => SourcePipelineStage::Prerolling,
        State::Started => SourcePipelineStage::Playing,
    }
}

/// A node that plays a media URI and offers its audio and video to consumers.
#[derive(Debug)]
pub struct SourceNode {
    pub id: String,
    pub uri: String,
    pub audio_enabled: bool,
    pub video_enabled: bool,
    pub audio_consumer_slot_ids: StrSet,
    pub video_consumer_slot_ids: StrSet,
    pub cue_time: Option<i128>,
    pub end_time: Option<i128>,
    pub state: State,
    pub pipeline: SourcePipelineProfile,
    /// A live media pipeline currently stands for this node.
    pub live_pipeline: bool,
    pub last_error: Option<String>,
}

impl SourceNode {
    pub fn new(id: String, uri: String, audio_enabled: bool, video_enabled: bool) -> (n: Self)
        ensures
            n.id@ == id@,
            n.uri@ == uri@,
            n.audio_enabled == audio_enabled,
            n.video_enabled == video_enabled,
            n.audio_consumer_slot_ids@ == Set::<Seq<char>>::empty(),
            n.video_consumer_slot_ids@ == Set::<Seq<char>>::empty(),
            n.cue_time is None,
            n.end_time is None,
            n.state == State::Initial,
            n.pipeline.uri@ == uri@,
            n.pipeline.manual_unblock,
            n.pipeline.immediate_fallback,
            char_seqs(n.pipeline.elements@) == source_elements(),
            n.pipeline.stage == SourcePipelineStage::Idle,
            !n.live_pipeline,
            n.last_error is None,
    {
        let profile_uri = uri.clone();
        SourceNode {
            id,
            uri,
            audio_enabled,
            video_enabled,
            audio_consumer_slot_ids: StrSet::new(),
            video_consumer_slot_ids: StrSet::new(),
            cue_time: None,
            end_time: None,
            state: State::Initial,
            pipeline: SourcePipelineProfile::new(profile_uri),
            live_pipeline: false,
            last_error: None,
        }
    }

    /// The transition due at `now`, if any.
    pub fn schedule_transition_due(&self, now: i128) -> (r: Option<State>)
        ensures
            r == crate::schedule::preroll_transition(self.state, self.cue_time, self.end_time, now),
    {
        crate::schedule::preroll_next(self.state, self.cue_time, self.end_time, now)
    }

    /// Sets the pipeline stage that goes with the state.
    pub fn apply_state_to_stage(&mut self)
        ensures
            final(self).pipeline.stage == source_stage(old(self).state),
            final(self).state == old(self).state,
            final(self).pipeline.uri == old(self).pipeline.uri,
            final(self).pipeline.elements == old(self).pipeline.elements,
            final(self).pipeline.manual_unblock == old(self).pipeline.manual_unblock,
            final(self).pipeline.immediate_fallback == old(self).pipeline.immediate_fallback,
            final(self).id == old(self).id,
            final(self).uri == old(self).uri,
            final(self).audio_enabled == old(self).audio_enabled,
            final(self).video_enabled == old(self).video_enabled,
            final(self).audio_consumer_slot_ids == old(self).audio_consumer_slot_ids,
            final(self).video_consumer_slot_ids == old(self).video_consumer_slot_ids,
            final(self).cue_time == old(self).cue_time,
            final(self).end_time == old(self).end_time,
            final(self).live_pipeline == old(self).live_pipeline,
            final(self).last_error == old(self).last_error,
    {
        self.pipeline.stage = match self.state {
            State::Initial | State::Stopping | State::Stopped => SourcePipelineStage::Idle,
            State::Starting => SourcePipelineStage::Prerolling,
            State::Started => SourcePipelineStage::Playing,
        };
    }

    /// Takes every transition due at `now` and sets the stage that goes with
    /// the new state; tells whether the state or the stage changed.
    pub fn advance_schedule(&mut self, now: i128) -> (changed: bool)
        ensures
            final(self).state == preroll_settle(old(self).state, old(self).cue_time, old(self).end_time, now),
            final(self).pipeline.stage == source_stage(final(self).state),
            changed == (final(self).state != old(self).state || final(self).pipeline.stage != old(self).pipeline.stage),
            final(self).pipeline.uri == old(self).pipeline.uri,
            final(self).pipeline.elements == old(self).pipeline.elements,
            final(self).pipeline.manual_unblock == old(self).pipeline.manual_unblock,
            final(self).pipeline.immediate_fallback == old(self).pipeline.immediate_fallback,
            final(self).id == old(self).id,
            final(self).uri == old(self).uri,
            final(self).audio_enabled == old(self).audio_enabled,
            final(self).video_enabled == old(self).video_enabled,
            final(self).audio_consumer_slot_ids == old(self).audio_consumer_slot_ids,
            final(self).video_consumer_slot_ids == old(self).video_consumer_slot_ids,
            final(self).cue_time == old(self).cue_time,
            final(self).end_time == old(self).end_time,
            final(self).live_pipeline == old(self).live_pipeline,
            final(self).last_error == old(self).last_error,
    {
        let (s, state_changed) = settle_preroll(self.state, self.cue_time, self.end_time, now);
        self.state = s;
        let old_stage = self.pipeline.stage;
        self.apply_state_to_stage();
        state_changed || old_stage != self.pipeline.stage
    }

    /// Takes the transitions due at the current time.
    pub fn refresh(&mut self)
        ensures
            exists|now: i128|
                #![trigger preroll_settle(old(self).state, old(self).cue_time, old(self).end_time, now)]
                final(self).state == preroll_settle(old(self).state, old(self).cue_time, old(self).end_time, now),
            final(self).pipeline.stage == source_stage(final(self).state),
            final(self).pipeline.uri == old(self).pipeline.uri,
            final(self).pipeline.elements == old(self).pipeline.elements,
            final(self).pipeline.manual_unblock == old(self).pipeline.manual_unblock,
            final(self).pipeline.immediate_fallback == old(self).pipeline.immediate_fallback,
            final(self).id == old(self).id,
            final(self).uri == old(self).uri,
            final(self).audio_enabled == old(self).audio_enabled,
            final(self).video_enabled == old(self).video_enabled,
            final(self).cue_time == old(self).cue_time,
            final(self).end_time == old(self).end_time,
            final(self).audio_consumer_slot_ids == old(self).audio_consumer_slot_ids,
            final(self).video_consumer_slot_ids == old(self).video_consumer_slot_ids,
            final(self).live_pipeline == old(self).live_pipeline,
            final(self).last_error == old(self).last_error,
    {
        let now = now_nanos();
        self.advance_schedule(now);
    }

    /// Adds the link to the consumers of each medium it carries.
    pub fn add_consumer_link(&mut self, link_id: &String, audio: bool, video: bool)
        ensures
            final(self).id == old(self).id,
            final(self).uri == old(self).uri,
            final(self).audio_enabled == old(self).audio_enabled,
            final(self).video_enabled == old(self).video_enabled,
            final(self).audio_consumer_slot_ids@ == (if audio {
                old(self).audio_consumer_slot_ids@.insert(link_id@)
            } else {
                old(self).audio_consumer_slot_ids@
            }),
            final(self).video_consumer_slot_ids@ == (if video {
                old(self).video_consumer_slot_ids@.insert(link_id@)
            } else {
                old(self).video_consumer_slot_ids@
            }),
            final(self).state == old(self).state,
            final(self).pipeline.stage == old(self).pipeline.stage,
            final(self).cue_time == old(self).cue_time,
            final(self).end_time == old(self).end_time,
            final(self).live_pipeline == old(self).live_pipeline,
            final(self).last_error == old(self).last_error,
    {
        if audio {
            self.audio_consumer_slot_ids.insert(link_id.clone());
        }
        if video {
            self.video_consumer_slot_ids.insert(link_id.clone());
        }
    }

    /// Drops the link from the consumers of both media.
    pub fn remove_consumer_link(&mut self, link_id: &String)
        ensures
            final(self).id == old(self).id,
            final(self).uri == old(self).uri,
            final(self).audio_enabled == old(self).audio_enabled,
            final(self).video_enabled == old(self).video_enabled,
            final(self).audio_consumer_slot_ids@ == old(self).audio_consumer_slot_ids@.remove(link_id@),
            final(self).video_consumer_slot_ids@ == old(self).video_consumer_slot_ids@.remove(link_id@),
            final(self).state == old(self).state,
            final(self).pipeline.stage == old(self).pipeline.stage,
            final(self).cue_time == old(self).cue_time,
            final(self).end_time == old(self).end_time,
            final(self).live_pipeline == old(self).live_pipeline,
            final(self).last_error == old(self).last_error,
    {
        self.audio_consumer_slot_ids.remove(link_id);
        self.video_consumer_slot_ids.remove(link_id);
    }

    /// Sets the cue and end times at `now`: the source waits until ten seconds
    /// before the cue, prerolls until the cue, then plays until the end time.
    /// A source that was starting or had stopped starts over.
    pub fn schedule_at(&mut self, cue_time: Option<i128>, end_time: Option<i128>, now: i128)
        ensures
            final(self).cue_time == cue_time,
            final(self).end_time == end_time,
            final(self).last_error is None,
            final(self).state == preroll_settle(rescheduled(old(self).state), cue_time, end_time, now),
            final(self).pipeline.stage == source_stage(final(self).state),
            final(self).audio_consumer_slot_ids == old(self).audio_consumer_slot_ids,
            final(self).video_consumer_slot_ids == old(self).video_consumer_slot_ids,
            final(self).live_pipeline == old(self).live_pipeline,
            final(self).pipeline.uri == old(self).pipeline.uri,
            final(self).pipeline.elements == old(self).pipeline.elements,
            final(self).pipeline.manual_unblock == old(self).pipeline.manual_unblock,
            final(self).pipeline.immediate_fallback == old(self).pipeline.immediate_fallback,
            final(self).id == old(self).id,
            final(self).uri == old(self).uri,
            final(self).audio_enabled == old(self).audio_enabled,
            final(self).video_enabled == old(self).video_enabled,
    {
        self.cue_time = cue_time;
        self.end_time = end_time;
        self.last_error = None;
        match self.state {
            State::Starting | State::Stopping | State::Stopped => {
                self.state = State::Initial;
            },
            _ => {},
        }
        self.advance_schedule(now);
    }

    /// Sets the cue and end times at the current time; see `schedule_at`.
    pub fn schedule(&mut self, cue_time: Option<i128>, end_time: Option<i128>) -> (r: Result<(), String>)
        ensures
            r is Ok,
            final(self).cue_time == cue_time,
            final(self).end_time == end_time,
            final(self).last_error is None,
            exists|now: i128|
                #![trigger preroll_settle(rescheduled(old(self).state), cue_time, end_time, now)]
                final(self).state == preroll_settle(rescheduled(old(self).state), cue_time, end_time, now),
            final(self).pipeline.stage == source_stage(final(self).state),
            final(self).audio_consumer_slot_ids == old(self).audio_consumer_slot_ids,
            final(self).video_consumer_slot_ids == old(self).video_consumer_slot_ids,
            final(self).live_pipeline == old(self).live_pipeline,
            final(self).pipeline.uri == old(self).pipeline.uri,
            final(self).pipeline.elements == old(self).pipeline.elements,
            final(self).pipeline.manual_unblock == old(self).pipeline.manual_unblock,
            final(self).pipeline.immediate_fallback == old(self).pipeline.immediate_fallback,
            final(self).id == old(self).id,
            final(self).uri == old(self).uri,
            final(self).audio_enabled == old(self).audio_enabled,
            final(self).video_enabled == old(self).video_enabled,
    {
        let now = now_nanos();
        self.schedule_at(cue_time, end_time, now);
        Ok(())
    }

    /// Tears the live pipeline down and stops.
    pub fn stop(&mut self)
        ensures
            final(self).id == old(self).id,
            final(self).uri == old(self).uri,
            final(self).audio_enabled == old(self).audio_enabled,
            final(self).video_enabled == old(self).video_enabled,
            !final(self).live_pipeline,
            final(self).pipeline.stage == SourcePipelineStage::Idle,
            final(self).state == State::Stopped,
            final(self).cue_time == old(self).cue_time,
            final(self).end_time == old(self).end_time,
            final(self).audio_consumer_slot_ids == old(self).audio_consumer_slot_ids,
            final(self).video_consumer_slot_ids == old(self).video_consumer_slot_ids,
            final(self).last_error == old(self).last_error,
    {
        self.live_pipeline = false;
        self.pipeline.stage = SourcePipelineStage::Idle;
        self.state = State::Stopped;
    }

    /// Records an error.
    pub fn mark_error(&mut self, message: String)
        ensures
            final(self).id == old(self).id,
            final(self).uri == old(self).uri,
            final(self).audio_enabled == old(self).audio_enabled,
            final(self).video_enabled == old(self).video_enabled,
            final(self).last_error == Some(message),
            final(self).state == old(self).state,
            final(self).pipeline.stage == old(self).pipeline.stage,
            final(self).cue_time == old(self).cue_time,
            final(self).end_time == old(self).end_time,
            final(self).audio_consumer_slot_ids == old(self).audio_consumer_slot_ids,
            final(self).video_consumer_slot_ids == old(self).video_consumer_slot_ids,
            final(self).live_pipeline == old(self).live_pipeline,
    {
        self.last_error = Some(message);
    }

    /// The live pipeline reported an error: it is recorded, and the source
    /// stops and tears the pipeline down.
    pub fn pipeline_failed(&mut self, message: String)
        ensures
            final(self).id == old(self).id,
            final(self).uri == old(self).uri,
            final(self).audio_enabled == old(self).audio_enabled,
            final(self).video_enabled == old(self).video_enabled,
            final(self).last_error == Some(message),
            final(self).pipeline.stage == SourcePipelineStage::Idle,
            final(self).state == State::Stopped,
            !final(self).live_pipeline,
            final(self).cue_time == old(self).cue_time,
            final(self).end_time == old(self).end_time,
            final(self).audio_consumer_slot_ids == old(self).audio_consumer_slot_ids,
            final(self).video_consumer_slot_ids == old(self).video_consumer_slot_ids,
    {
        self.last_error = Some(message);
        self.pipeline.stage = SourcePipelineStage::Idle;
        self.state = State::Stopped;
        self.live_pipeline = false;
    }

    /// The live pipeline reached the end of its stream: the source stops and
    /// tears the pipeline down.
    pub fn pipeline_ended(&mut self)
        ensures
            final(self).id == old(self).id,
            final(self).uri == old(self).uri,
            final(self).audio_enabled == old(self).audio_enabled,
            final(self).video_enabled == old(self).video_enabled,
            final(self).pipeline.stage == SourcePipelineStage::Idle,
            final(self).state == State::Stopped,
            !final(self).live_pipeline,
            final(self).last_error == old(self).last_error,
            final(self).cue_time == old(self).cue_time,
            final(self).end_time == old(self).end_time,
            final(self).audio_consumer_slot_ids == old(self).audio_consumer_slot_ids,
            final(self).video_consumer_slot_ids == old(self).video_consumer_slot_ids,
    {
        self.pipeline.stage = SourcePipelineStage::Idle;
        self.state = State::Stopped;
        self.live_pipeline = false;
    }

    /// The media layer built a live pipeline for this source.
    pub fn attach_live_pipeline(&mut self)
        ensures
            final(self).id == old(self).id,
            final(self).uri == old(self).uri,
            final(self).audio_enabled == old(self).audio_enabled,
            final(self).video_enabled == old(self).video_enabled,
            final(self).live_pipeline,
            final(self).state == old(self).state,
            final(self).pipeline.stage == old(self).pipeline.stage,
            final(self).last_error == old(self).last_error,
            final(self).cue_time == old(self).cue_time,
            final(self).end_time == old(self).end_time,
            final(self).audio_consumer_slot_ids == old(self).audio_consumer_slot_ids,
            final(self).video_consumer_slot_ids == old(self).video_consumer_slot_ids,
    {
        self.live_pipeline = true;
    }

    /// The source's report: its URI, its consumers of each medium in
    /// ascending order, its times and its state.
    pub fn as_info(&self) -> (info: NodeInfo)
        ensures
            info matches NodeInfo::Source(s) && {
                &&& s.uri@ == self.uri@
                &&& s.video_consumer_slot_ids matches Some(v) && char_seqs(v@)
                    == self.video_consumer_slot_ids.listing()
                &&& s.audio_consumer_slot_ids matches Some(a) && char_seqs(a@)
                    == self.audio_consumer_slot_ids.listing()
                &&& s.cue_time == self.cue_time
                &&& s.end_time == self.end_time
                &&& s.state == self.state
            },
    {
        NodeInfo::Source(
            SourceInfo {
                uri: self.uri.clone(),
                video_consumer_slot_ids: Some(self.video_consumer_slot_ids.to_vec()),
                audio_consumer_slot_ids: Some(self.audio_consumer_slot_ids.to_vec()),
                cue_time: self.cue_time,
                end_time: self.end_time,
                state: self.state,
            },
        )
    }
}

} // verus!
