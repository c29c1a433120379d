use vstd::prelude::*;
use crate::protocol::{DestinationFamily, DestinationInfo, NodeInfo, State};
use crate::schedule::{destination_next, destination_settle, destination_transition, now_nanos, rank, rescheduled};
use crate::strset::char_seqs;
use crate::text::{concat3, contains_text, fails_with, mentions, owned};

verus! {

/// What the media pipeline of a destination should be doing.
#[derive(Clone, Copy, Debug, PartialEq, Eq, Structural)]
pub enum DestinationPipelineStage {
    Idle,
    Scheduled,
    Playing,
}

/// How a destination's media pipeline is put together, and its stage.
#[derive(Debug)]
pub struct DestinationPipelineProfile {
    pub family: DestinationFamily,
    pub elements: Vec<String>,
    pub wait_for_eos_on_stop: bool,
    pub stage: DestinationPipelineStage,
}

/// The elements a pipeline of each family is built from, with every medium.
pub open spec fn destination_base_elements(family: DestinationFamily) -> Seq<Seq<char>> {
    match family {
        DestinationFamily::Rtmp { .. } => seq![
            "flvmux"@,
            "queue"@,
            "rtmp2sink"@,
            "videoconvert"@,
            "timecodestamper"@,
            "timeoverlay"@,
            "h264enc"@,
            "h264parse"@,
            "audioconvert"@,
            "audioresample"@,
            "avenc_aac"@,
        ],
        DestinationFamily::Udp { .. } => seq![
            "mpegtsmux"@,
            "udpsink"@,
            "videoconvert"@,
            "h264enc"@,
            "h264parse"@,
            "audioconvert"@,
            "audioresample"@,
            "avenc_aac"@,
        ],
        DestinationFamily::LocalFile { .. } => seq![
            "splitmuxsink"@,
            "multiqueue"@,
            "videoconvert"@,
            "h264enc"@,
            "h264parse"@,
            "audioconvert"@,
            "audioresample"@,
            "avenc_aac"@,
        ],
        DestinationFamily::LocalPlayback => seq![
            "autovideosink"@,
            "autoaudiosink"@,
            "videoconvert"@,
            "audioconvert"@,
            "audioresample"@,
            "queue"@,
        ],
    }
}

/// An element stays in a pipeline unless it names a medium that is disabled:
/// `audio` for audio, `video` or `h264` for video.
pub open spec fn element_kept(e: Seq<char>, audio: bool, video: bool) -> bool {
    &&& (audio || !mentions(e, "audio"@))
    &&& (video || !(mentions(e, "video"@) || mentions(e, "h264"@)))
}

/// The elements of `s` that stay, in order.
pub open spec fn kept_elements(s: Seq<Seq<char>>, audio: bool, video: bool) -> Seq<Seq<char>>
    decreases s.len(),
{
    if s.len() == 0 {
        Seq::empty()
    } else if element_kept(s.last(), audio, video) {
        kept_elements(s.drop_last(), audio, video).push(s.last())
    } else {
        kept_elements(s.drop_last(), audio, video)
    }
}

fn push_all(v: &mut Vec<String>, items: &[&str])
    ensures
        char_seqs(final(v)@) == char_seqs(old(v)@) + items@.map_values(|s: &str| s@),
{
    let mut i: usize = 0;
    while i < items.len()
        invariant
            i <= items@.len(),
            char_seqs(v@) == char_seqs(old(v)@) + items@.take(i as int).map_values(|s: &str| s@),
        decreases items@.len() - i,
    {
        let ghost prev = v@;
        v.push(owned(items[i]));
        assert(char_seqs(v@) =~= char_seqs(prev).push(items@[i as int]@));
        assert(items@.take(i + 1).map_values(|s: &str| s@) =~= items@.take(i as int).map_values(
            |s: &str| s@,
        ).push(items@[i as int]@));
        i = i + 1;
    }
    assert(items@.take(i as int) =~= items@);
}

fn base_elements(family: &DestinationFamily) -> (v: Vec<String>)
    ensures
        char_seqs(v@) == destination_base_elements(*family),
{
    let mut v: Vec<String> = Vec::new();
    match family {
        DestinationFamily::Rtmp { .. } => {
            let items = [
                "flvmux",
                "queue",
                "rtmp2sink",
                "videoconvert",
                "timecodestamper",
                "timeoverlay",
                "h264enc",
                "h264parse",
                "audioconvert",
                "audioresample",
                "avenc_aac",
            ];
            push_all(&mut v, &items);
            assert(char_seqs(v@) =~= destination_base_elements(*family));
        },
        DestinationFamily::Udp { .. } => {
            let items = [
                "mpegtsmux",
                "udpsink",
                "videoconvert",
                "h264enc",
                "h264parse",
                "audioconvert",
                "audioresample",
                "avenc_aac",
            ];
            push_all(&mut v, &items);
            assert(char_seqs(v@) =~= destination_base_elements(*family));
        },
        DestinationFamily::LocalFile { .. } => {
            let items = [
                "splitmuxsink",
                "multiqueue",
                "videoconvert",
                "h264enc",
                "h264parse",
                "audioconvert",
                "audioresample",
                "avenc_aac",
            ];
            push_all(&mut v, &items);
            assert(char_seqs(v@) =~= destination_base_elements(*family));
        },
        DestinationFamily::LocalPlayback => {
            let items = [
                "autovideosink",
                "autoaudiosink",
                "videoconvert",
                "audioconvert",
                "audioresample",
                "queue",
            ];
            push_all(&mut v, &items);
            assert(char_seqs(v@) =~= destination_base_elements(*family));
        },
    }
    v
}

impl DestinationPipelineProfile {
    /// The profile of a pipeline of the given family, with the elements of the
    /// disabled media left out; idle, and waiting for the end of the stream
    /// when it stops.
    pub fn from_family(family: &DestinationFamily, audio: bool, video: bool) -> (p: Self)
        ensures
            p.family == *family,
            char_seqs(p.elements@) == kept_elements(destination_base_elements(*family), audio, video),
            p.wait_for_eos_on_stop,
            p.stage == DestinationPipelineStage::Idle,
    {
        let base = base_elements(family);
        let mut elements: Vec<String> = Vec::new();
        let mut i: usize = 0;
        while i < base.len()
            invariant
                i <= base@.len(),
                char_seqs(base@) == destination_base_elements(*family),
                char_seqs(elements@) == kept_elements(char_seqs(base@).take(i as int), audio, video),
            decreases base@.len() - i,
        {
            let e = &base[i];
            let keep_audio = audio || !contains_text(e.as_str(), "audio");
            let keep_video = video || !(contains_text(e.as_str(), "video") || contains_text(e.as_str(), "h264"));
            assert(char_seqs(base@).take(i + 1).drop_last() =~= char_seqs(base@).take(i as int));
            assert(char_seqs(base@).take(i + 1).last() == e@);
            if keep_audio && keep_video {
                let ghost prev = elements@;
                elements.push(e.clone());
                assert(char_seqs(elements@) =~= char_seqs(prev).push(e@));
            }
            i = i + 1;
        }
        assert(char_seqs(base@).take(i as int) =~= char_seqs(base@));
        DestinationPipelineProfile {
            family: family.clone(),
            elements,
            wait_for_eos_on_stop: true,
            stage: DestinationPipelineStage::Idle,
        }
    }
}

/// The pipeline stage that goes with a destination's state.
pub open spec fn destination_stage(state: State) -> DestinationPipelineStage {
    match state {
        State::Initial | State::Stopping | State::Stopped => DestinationPipelineStage::Idle,
        State::Starting | State::Started => DestinationPipelineStage::Playing,
    }
}

/// Settling at `now` passes a transition into `Stopping`, which stops the destination.
pub open spec fn destination_stops(state: State, cue: Option<i128>, end: Option<i128>, now: i128) -> bool
    decreases 4 - rank(state),
{
    match destination_transition(state, cue, end, now) {
        Some(next) => if next == State::Stopping {
            true
        } else if rank(next) > rank(state) {
            destination_stops(next, cue, end, now)
        } else {
            false
        },
        None => false,
    }
}

/// `p` with the stage that goes with `state`, when there is a profile.
pub open spec fn with_stage(p: Option<DestinationPipelineProfile>, stage: DestinationPipelineStage) -> Option<
    DestinationPipelineProfile,
> {
    match p {
        Some(profile) => Some(DestinationPipelineProfile { stage, ..profile }),
        None => None,
    }
}

pub open spec fn msg_audio_slot_taken(id: Seq<char>) -> Seq<char> {
    "Destination "@ + id + " already has an audio input slot"@
}

pub open spec fn msg_video_slot_taken(id: Seq<char>) -> Seq<char> {
    "Destination "@ + id + " already has a video input slot"@
}

pub open spec fn msg_audio_slot_missing(id: Seq<char>) -> Seq<char> {
    "Destination "@ + id + " must have its audio slot connected before starting"@
}

pub open spec fn msg_video_slot_missing(id: Seq<char>) -> Seq<char> {
    "Destination "@ + id + " must have its video slot connected before starting"@
}

/// A node that sends what it receives to a stream, a file or the local player.
#[derive(Debug)]
pub struct DestinationNode {
    pub id: String,
    pub family: DestinationFamily,
    pub audio_enabled: bool,
    pub video_enabled: bool,
    pub audio_slot_id: Option<String>,
    pub video_slot_id: Option<String>,
    pub cue_time: Option<i128>,
    pub end_time: Option<i128>,
    pub state: State,
    pub pipeline: Option<DestinationPipelineProfile>,
    /// A live media pipeline currently stands for this node.
    pub live_pipeline: bool,
    pub last_error: Option<String>,
}

impl DestinationNode {
    pub fn new(id: String, family: DestinationFamily, audio_enabled: bool, video_enabled: bool) -> (n: Self)
        ensures
            n.id@ == id@,
            n.family == family,
            n.audio_enabled == audio_enabled,
            n.video_enabled == video_enabled,
            n.audio_slot_id is None,
            n.video_slot_id is None,
            n.cue_time is None,
            n.end_time is None,
            n.state == State::Initial,
            n.pipeline is None,
            !n.live_pipeline,
            n.last_error is None,
    {
        DestinationNode {
            id,
            family,
            audio_enabled,
            video_enabled,
            audio_slot_id: None,
            video_slot_id: None,
            cue_time: None,
            end_time: None,
            state: State::Initial,
            pipeline: None,
            live_pipeline: false,
            last_error: None,
        }
    }

    /// The transition due at `now`, if any.
    pub fn schedule_transition_due(&self, now: i128) -> (r: Option<State>)
        ensures
            r == destination_transition(self.state, self.cue_time, self.end_time, now),
    {
        destination_next(self.state, self.cue_time, self.end_time, now)
    }

    /// Sets the stage that goes with the state, when there is a profile.
    pub fn apply_state_to_stage(&mut self)
        ensures
            final(self).pipeline == with_stage(old(self).pipeline, destination_stage(old(self).state)),
            final(self).state == old(self).state,
            final(self).id == old(self).id,
            final(self).family == old(self).family,
            final(self).audio_enabled == old(self).audio_enabled,
            final(self).video_enabled == old(self).video_enabled,
            final(self).audio_slot_id == old(self).audio_slot_id,
            final(self).video_slot_id == old(self).video_slot_id,
            final(self).cue_time == old(self).cue_time,
            final(self).end_time == old(self).end_time,
            final(self).live_pipeline == old(self).live_pipeline,
            final(self).last_error == old(self).last_error,
    {
        let stage = match self.state {
            State::Initial | State::Stopping | State::Stopped => DestinationPipelineStage::Idle,
            State::Starting | State::Started => DestinationPipelineStage::Playing,
        };
        match self.pipeline.take() {
            Some(profile) => {
                self.pipeline = Some(DestinationPipelineProfile { stage, ..profile });
            },
            None => {},
        }
    }

    /// Tears the live pipeline down and stops.
    pub fn stop(&mut self)
        ensures
            !final(self).live_pipeline,
            final(self).state == State::Stopped,
            final(self).pipeline == with_stage(old(self).pipeline, DestinationPipelineStage::Idle),
            final(self).id == old(self).id,
            final(self).family == old(self).family,
            final(self).audio_enabled == old(self).audio_enabled,
            final(self).video_enabled == old(self).video_enabled,
            final(self).audio_slot_id == old(self).audio_slot_id,
            final(self).video_slot_id == old(self).video_slot_id,
            final(self).cue_time == old(self).cue_time,
            final(self).end_time == old(self).end_time,
            final(self).last_error == old(self).last_error,
    {
        self.live_pipeline = false;
        self.state = State::Stopped;
        match self.pipeline.take() {
            Some(profile) => {
                self.pipeline = Some(DestinationPipelineProfile { stage: DestinationPipelineStage::Idle, ..profile });
            },
            None => {},
        }
    }

    /// Takes every transition due at `now`; reaching `Stopping` stops the
    /// destination. Sets the stage that goes with the new state and tells
    /// whether the state changed.
    pub fn advance_schedule(&mut self, now: i128) -> (changed: bool)
        ensures
            final(self).state == destination_settle(old(self).state, old(self).cue_time, old(self).end_time, now),
            final(self).pipeline == with_stage(old(self).pipeline, destination_stage(final(self).state)),
            final(self).live_pipeline == (old(self).live_pipeline && !destination_stops(
                old(self).state,
                old(self).cue_time,
                old(self).end_time,
                now,
            )),
            changed == (final(self).state != old(self).state),
            final(self).id == old(self).id,
            final(self).family == old(self).family,
            final(self).audio_enabled == old(self).audio_enabled,
            final(self).video_enabled == old(self).video_enabled,
            final(self).audio_slot_id == old(self).audio_slot_id,
            final(self).video_slot_id == old(self).video_slot_id,
            final(self).cue_time == old(self).cue_time,
            final(self).end_time == old(self).end_time,
            final(self).last_error == old(self).last_error,
    {
        let ghost start = self.state;
        let ghost cue = self.cue_time;
        let ghost end = self.end_time;
        let ghost live = self.live_pipeline;
        let ghost profile = self.pipeline;
        let mut changed = false;
        loop
            invariant_except_break
                destination_stops(self.state, cue, end, now) == destination_stops(start, cue, end, now),
                self.live_pipeline == live,
                self.pipeline == profile,
            invariant
                destination_settle(self.state, cue, end, now) == destination_settle(start, cue, end, now),
                changed == (self.state != start),
                rank(self.state) >= rank(start),
                self.cue_time == cue,
                self.end_time == end,
                self.id == old(self).id,
                self.family == old(self).family,
                self.audio_enabled == old(self).audio_enabled,
                self.video_enabled == old(self).video_enabled,
                self.audio_slot_id == old(self).audio_slot_id,
                self.video_slot_id == old(self).video_slot_id,
                self.last_error == old(self).last_error,
            ensures
                self.state == destination_settle(start, cue, end, now),
                self.live_pipeline == (live && !destination_stops(start, cue, end, now)),
                self.pipeline == with_stage(profile, DestinationPipelineStage::Idle)
                    || self.pipeline == profile,
                changed == (self.state != start),
                self.cue_time == cue,
                self.end_time == end,
                self.id == old(self).id,
                self.family == old(self).family,
                self.audio_enabled == old(self).audio_enabled,
                self.video_enabled == old(self).video_enabled,
                self.audio_slot_id == old(self).audio_slot_id,
                self.video_slot_id == old(self).video_slot_id,
                self.last_error == old(self).last_error,
            decreases 4 - rank(self.state),
        {
            let next = destination_next(self.state, self.cue_time, self.end_time, now);
            match next {
                None => {
                    break;
                },
                Some(n) => {
                    if n == self.state {
                        break;
                    }
                    if n == State::Stopping {
                        self.state = State::Stopping;
                        self.stop();
                        changed = true;
                        break;
                    }
                    self.state = n;
                    changed = true;
                },
            }
        }
        proof {
            match profile {
                Some(p) => {
                    assert(with_stage(with_stage(profile, DestinationPipelineStage::Idle), destination_stage(self.state))
                        == with_stage(profile, destination_stage(self.state)));
                },
                None => {},
            }
        }
        self.apply_state_to_stage();
        changed
    }

    /// Takes the transitions due at the current time.
    pub fn refresh(&mut self)
        ensures
            exists|now: i128|
                #![trigger destination_settle(old(self).state, old(self).cue_time, old(self).end_time, now)]
                {
                    &&& final(self).state == destination_settle(old(self).state, old(self).cue_time, old(self).end_time, now)
                    &&& final(self).live_pipeline == (old(self).live_pipeline && !destination_stops(
                        old(self).state,
                        old(self).cue_time,
                        old(self).end_time,
                        now,
                    ))
                },
            final(self).pipeline == with_stage(old(self).pipeline, destination_stage(final(self).state)),
            final(self).id == old(self).id,
            final(self).family == old(self).family,
            final(self).audio_enabled == old(self).audio_enabled,
            final(self).video_enabled == old(self).video_enabled,
            final(self).audio_slot_id == old(self).audio_slot_id,
            final(self).video_slot_id == old(self).video_slot_id,
            final(self).cue_time == old(self).cue_time,
            final(self).end_time == old(self).end_time,
            final(self).last_error == old(self).last_error,
    {
        let now = now_nanos();
        self.advance_schedule(now);
    }

    /// Takes the link as the input of each medium it carries, audio first;
    /// fails, keeping what it already took, when that input is already taken.
    pub fn connect_input(&mut self, link_id: &String, audio: bool, video: bool) -> (r: Result<(), String>)
        ensures
            ({
                let audio_taken = audio && old(self).audio_slot_id is Some;
                let video_taken = video && old(self).video_slot_id is Some;
                &&& r is Err <==> (audio_taken || video_taken)
                &&& audio_taken ==> fails_with(r, msg_audio_slot_taken(old(self).id@))
                &&& audio_taken ==> final(self).audio_slot_id == old(self).audio_slot_id
                &&& !audio_taken ==> final(self).audio_slot_id == (if audio {
                    Some(*link_id)
                } else {
                    old(self).audio_slot_id
                })
                &&& !audio_taken && video_taken ==> fails_with(r, msg_video_slot_taken(old(self).id@))
                &&& (audio_taken || video_taken) ==> final(self).video_slot_id == old(self).video_slot_id
                &&& !audio_taken && !video_taken ==> final(self).video_slot_id == (if video {
                    Some(*link_id)
                } else {
                    old(self).video_slot_id
                })
            }),
            final(self).id == old(self).id,
            final(self).family == old(self).family,
            final(self).audio_enabled == old(self).audio_enabled,
            final(self).video_enabled == old(self).video_enabled,
            final(self).cue_time == old(self).cue_time,
            final(self).end_time == old(self).end_time,
            final(self).state == old(self).state,
            final(self).pipeline == old(self).pipeline,
            final(self).live_pipeline == old(self).live_pipeline,
            final(self).last_error == old(self).last_error,
    {
        if audio {
            if self.audio_slot_id.is_some() {
                return Err(concat3("Destination ", self.id.as_str(), " already has an audio input slot"));
            }
            self.audio_slot_id = Some(link_id.clone());
        }
        if video {
            if self.video_slot_id.is_some() {
                return Err(concat3("Destination ", self.id.as_str(), " already has a video input slot"));
            }
            self.video_slot_id = Some(link_id.clone());
        }
        Ok(())
    }

    /// Releases every input that the link holds.
    pub fn disconnect_input(&mut self, link_id: &String)
        ensures
            final(self).audio_slot_id == (match old(self).audio_slot_id {
                Some(s) => if s@ == link_id@ {
                    None
                } else {
                    Some(s)
                },
                None => None,
            }),
            final(self).video_slot_id == (match old(self).video_slot_id {
                Some(s) => if s@ == link_id@ {
                    None
                } else {
                    Some(s)
                },
                None => None,
            }),
            final(self).id == old(self).id,
            final(self).family == old(self).family,
            final(self).audio_enabled == old(self).audio_enabled,
            final(self).video_enabled == old(self).video_enabled,
            final(self).cue_time == old(self).cue_time,
            final(self).end_time == old(self).end_time,
            final(self).state == old(self).state,
            final(self).pipeline == old(self).pipeline,
            final(self).live_pipeline == old(self).live_pipeline,
            final(self).last_error == old(self).last_error,
    {
        let clear_audio = match &self.audio_slot_id {
            Some(s) => *s == *link_id,
            None => false,
        };
        if clear_audio {
            self.audio_slot_id = None;
        }
        let clear_video = match &self.video_slot_id {
            Some(s) => *s == *link_id,
            None => false,
        };
        if clear_video {
            self.video_slot_id = None;
        }
    }

    /// A destination can start only with an input for each enabled medium.
    pub fn ensure_start_ready(&self) -> (r: Result<(), String>)
        ensures
            r is Ok <==> !(self.audio_enabled && self.audio_slot_id is None) && !(self.video_enabled
                && self.video_slot_id is None),
            self.audio_enabled && self.audio_slot_id is None ==> fails_with(r, msg_audio_slot_missing(self.id@)),
            !(self.audio_enabled && self.audio_slot_id is None) && self.video_enabled
                && self.video_slot_id is None ==> fails_with(r, msg_video_slot_missing(self.id@)),
    {
        if self.audio_enabled && self.audio_slot_id.is_none() {
            return Err(
                concat3("Destination ", self.id.as_str(), " must have its audio slot connected before starting"),
            );
        }
        if self.video_enabled && self.video_slot_id.is_none() {
            return Err(
                concat3("Destination ", self.id.as_str(), " must have its video slot connected before starting"),
            );
        }
        Ok(())
    }

    /// Sets the cue and end times at `now`, once every enabled medium has an
    /// input: the destination builds the profile of its family, starts at the
    /// cue (at once without one) and stops at the end time. A destination that
    /// was starting or had stopped starts over. Fails, changing nothing, when
    /// an enabled medium has no input.
    pub fn schedule_at(&mut self, cue_time: Option<i128>, end_time: Option<i128>, now: i128) -> (r: Result<(), String>)
        ensures
            r is Ok <==> !(old(self).audio_enabled && old(self).audio_slot_id is None) && !(
            old(self).video_enabled && old(self).video_slot_id is None),
            old(self).audio_enabled && old(self).audio_slot_id is None ==> fails_with(r, msg_audio_slot_missing(old(self).id@)),
            !(old(self).audio_enabled && old(self).audio_slot_id is None) && old(self).video_enabled
                && old(self).video_slot_id is None ==> fails_with(r, msg_video_slot_missing(old(self).id@)),
            r is Err ==> *final(self) == *old(self),
            r is Ok ==> {
                &&& final(self).cue_time == cue_time
                &&& final(self).end_time == end_time
                &&& final(self).last_error is None
                &&& final(self).state == destination_settle(rescheduled(old(self).state), cue_time, end_time, now)
                &&& final(self).live_pipeline == (old(self).live_pipeline && !destination_stops(
                    rescheduled(old(self).state),
                    cue_time,
                    end_time,
                    now,
                ))
                &&& final(self).pipeline matches Some(p) && {
                    &&& p.family == old(self).family
                    &&& char_seqs(p.elements@) == kept_elements(
                        destination_base_elements(old(self).family),
                        old(self).audio_enabled,
                        old(self).video_enabled,
                    )
                    &&& p.wait_for_eos_on_stop
                    &&& p.stage == destination_stage(final(self).state)
                }
                &&& final(self).audio_slot_id == old(self).audio_slot_id
                &&& final(self).video_slot_id == old(self).video_slot_id
                &&& final(self).id == old(self).id
                &&& final(self).family == old(self).family
                &&& final(self).audio_enabled == old(self).audio_enabled
                &&& final(self).video_enabled == old(self).video_enabled
            },
    {
        match self.ensure_start_ready() {
            Err(e) => {
                return Err(e);
            },
            Ok(()) => {},
        }
        self.cue_time = cue_time;
        self.end_time = end_time;
        self.last_error = None;
        match self.state {
            State::Starting | State::Stopping | State::Stopped => {
                self.state = State::Initial;
            },
            _ => {},
        }
        self.pipeline = Some(DestinationPipelineProfile::from_family(&self.family, self.audio_enabled, self.video_enabled));
        self.advance_schedule(now);
        Ok(())
    }

    /// Sets the cue and end times at the current time; see `schedule_at`.
    pub fn schedule(&mut self, cue_time: Option<i128>, end_time: Option<i128>) -> (r: Result<(), String>)
        ensures
            r is Ok <==> !(old(self).audio_enabled && old(self).audio_slot_id is None) && !(
            old(self).video_enabled && old(self).video_slot_id is None),
            old(self).audio_enabled && old(self).audio_slot_id is None ==> fails_with(r, msg_audio_slot_missing(old(self).id@)),
            !(old(self).audio_enabled && old(self).audio_slot_id is None) && old(self).video_enabled
                && old(self).video_slot_id is None ==> fails_with(r, msg_video_slot_missing(old(self).id@)),
            r is Err ==> *final(self) == *old(self),
            r is Ok ==> {
                &&& final(self).cue_time == cue_time
                &&& final(self).end_time == end_time
                &&& final(self).last_error is None
                &&& exists|now: i128|
                    #![trigger destination_settle(rescheduled(old(self).state), cue_time, end_time, now)]
                    {
                        &&& final(self).state == destination_settle(rescheduled(old(self).state), cue_time, end_time, now)
                        &&& final(self).live_pipeline == (old(self).live_pipeline && !destination_stops(
                            rescheduled(old(self).state),
                            cue_time,
                            end_time,
                            now,
                        ))
                    }
                &&& final(self).pipeline matches Some(p) && {
                    &&& p.family == old(self).family
                    &&& char_seqs(p.elements@) == kept_elements(
                        destination_base_elements(old(self).family),
                        old(self).audio_enabled,
                        old(self).video_enabled,
                    )
                    &&& p.wait_for_eos_on_stop
                    &&& p.stage == destination_stage(final(self).state)
                }
                &&& final(self).audio_slot_id == old(self).audio_slot_id
                &&& final(self).video_slot_id == old(self).video_slot_id
                &&& final(self).id == old(self).id
                &&& final(self).family == old(self).family
                &&& final(self).audio_enabled == old(self).audio_enabled
                &&& final(self).video_enabled == old(self).video_enabled
            },
    {
        let now = now_nanos();
        self.schedule_at(cue_time, end_time, now)
    }

    /// Records an error.
    pub fn mark_error(&mut self, message: String)
        ensures
            final(self).id == old(self).id,
            final(self).family == old(self).family,
            final(self).audio_enabled == old(self).audio_enabled,
            final(self).video_enabled == old(self).video_enabled,
            final(self).last_error == Some(message),
            final(self).state == old(self).state,
            final(self).pipeline == old(self).pipeline,
            final(self).live_pipeline == old(self).live_pipeline,
            final(self).audio_slot_id == old(self).audio_slot_id,
            final(self).video_slot_id == old(self).video_slot_id,
            final(self).cue_time == old(self).cue_time,
            final(self).end_time == old(self).end_time,
    {
        self.last_error = Some(message);
    }

    /// The live pipeline reported an error: it is recorded, and the
    /// destination stops and tears the pipeline down.
    pub fn pipeline_failed(&mut self, message: String)
        ensures
            final(self).id == old(self).id,
            final(self).family == old(self).family,
            final(self).audio_enabled == old(self).audio_enabled,
            final(self).video_enabled == old(self).video_enabled,
            final(self).last_error == Some(message),
            final(self).state == State::Stopped,
            final(self).pipeline == with_stage(old(self).pipeline, DestinationPipelineStage::Idle),
            !final(self).live_pipeline,
            final(self).audio_slot_id == old(self).audio_slot_id,
            final(self).video_slot_id == old(self).video_slot_id,
            final(self).cue_time == old(self).cue_time,
            final(self).end_time == old(self).end_time,
    {
        self.last_error = Some(message);
        self.stop();
    }

    /// The live pipeline reached the end of its stream: the destination stops
    /// and tears the pipeline down.
    pub fn pipeline_ended(&mut self)
        ensures
            final(self).id == old(self).id,
            final(self).family == old(self).family,
            final(self).audio_enabled == old(self).audio_enabled,
            final(self).video_enabled == old(self).video_enabled,
            final(self).state == State::Stopped,
            final(self).pipeline == with_stage(old(self).pipeline, DestinationPipelineStage::Idle),
            !final(self).live_pipeline,
            final(self).last_error == old(self).last_error,
            final(self).audio_slot_id == old(self).audio_slot_id,
            final(self).video_slot_id == old(self).video_slot_id,
            final(self).cue_time == old(self).cue_time,
            final(self).end_time == old(self).end_time,
    {
        self.stop();
    }

    /// The media layer built a live pipeline for this destination.
    pub fn attach_live_pipeline(&mut self)
        ensures
            final(self).id == old(self).id,
            final(self).family == old(self).family,
            final(self).audio_enabled == old(self).audio_enabled,
            final(self).video_enabled == old(self).video_enabled,
            final(self).live_pipeline,
            final(self).state == old(self).state,
            final(self).pipeline == old(self).pipeline,
            final(self).last_error == old(self).last_error,
            final(self).audio_slot_id == old(self).audio_slot_id,
            final(self).video_slot_id == old(self).video_slot_id,
            final(self).cue_time == old(self).cue_time,
            final(self).end_time == old(self).end_time,
    {
        self.live_pipeline = true;
    }

    /// The destination's report: its family, its inputs, its times and its state.
    pub fn as_info(&self) -> (info: NodeInfo)
        ensures
            info matches NodeInfo::Destination(d) && {
                &&& d.family == self.family
                &&& d.audio_slot_id == self.audio_slot_id
                &&& d.video_slot_id == self.video_slot_id
                &&& d.cue_time == self.cue_time
                &&& d.end_time == self.end_time
                &&& d.state == self.state
            },
    {
        NodeInfo::Destination(
            DestinationInfo {
                family: self.family.clone(),
                audio_slot_id: self.audio_slot_id.clone(),
                video_slot_id: self.video_slot_id.clone(),
                cue_time: self.cue_time,
                end_time: self.end_time,
                state: self.state,
            },
        )
    }
}

} // verus!
