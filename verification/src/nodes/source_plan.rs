use vstd::prelude::*;
use crate::nodes::source::SourceNode;
use crate::nodes::video_generator::VideoGeneratorNode;
use crate::pipeline::{
    declares, has_role, lemma_extend_nothing, lemma_extend_resolves, lemma_segment_declares, link, link_of, only_if, resolves, prop, prop_of, ElementKind, ElementPlan, PipelinePlan, PlanView, PropValue,
    Role, Segment,
};
use crate::text::{concat2, contains_text, mentions, owned, starts_with};

verus! {

// The live pipelines of the nodes that produce media: a source reads its URI
// into an app sink per enabled medium (the decoded streams reach the sinks as
// they appear, see `pad_media`); a video generator draws a test picture into
// an app sink.

/// The element that reads the source's URI: `fallbacksrc`, told which media
/// to give and how to fall back, or else a plain `uridecodebin`.
pub open spec fn source_reader(id: Seq<char>, uri: Seq<char>, manual_unblock: bool, immediate_fallback: bool, audio: bool, video: bool) -> Segment {
    Segment {
        elements: seq![
            ElementPlan {
                key: "source"@,
                kind: ElementKind::Either {
                    first: "fallbacksrc"@,
                    first_name: "source-fallbacksrc-"@ + id,
                    second: "uridecodebin"@,
                    second_name: "source-uridecodebin-"@ + id,
                },
                name: None,
                role: Role::Source,
                slot: None,
                label: "source element to source pipeline"@,
            },
        ],
        props: seq![
            prop_of("source"@, "uri"@, PropValue::Text(uri), false),
            prop_of("source"@, "manual-unblock"@, PropValue::Bool(manual_unblock), true),
            prop_of("source"@, "immediate-fallback"@, PropValue::Bool(immediate_fallback), true),
            prop_of("source"@, "enable-audio"@, PropValue::Bool(audio), true),
            prop_of("source"@, "enable-video"@, PropValue::Bool(video), true),
        ],
        links: seq![],
    }
}

/// The app sink of one medium of source `id`.
pub open spec fn source_sink(id: Seq<char>, video: bool) -> Segment {
    let media = if video { "video"@ } else { "audio"@ };
    Segment {
        elements: seq![
            ElementPlan {
                key: media + "-out"@,
                kind: ElementKind::Factory("appsink"@),
                name: Some("source-"@ + media + "-appsink-"@ + id),
                role: if video { Role::VideoOutput } else { Role::AudioOutput },
                slot: None,
                label: "source "@ + media + " appsink"@,
            },
        ],
        props: seq![],
        links: seq![],
    }
}

/// The live pipeline of source `id` reading `uri` with the given media.
pub open spec fn source_plan(id: Seq<char>, uri: Seq<char>, manual_unblock: bool, immediate_fallback: bool, audio: bool, video: bool) -> PlanView {
    PlanView { name: "migration-source-"@ + id, elements: seq![], props: seq![], links: seq![] }.extend(
        source_reader(id, uri, manual_unblock, immediate_fallback, audio, video),
    ).extend(only_if(audio, source_sink(id, false))).extend(only_if(video, source_sink(id, true)))
}

/// A source's plan gives out audio exactly when audio is enabled, and video
/// exactly when video is enabled: it has an element that plays the audio
/// output (resp. video output) role just then, and every such element is the
/// app sink `source-audio-appsink-<id>` (resp. `source-video-appsink-<id>`).
pub proof fn law_source_outputs_follow_media(
    id: Seq<char>,
    uri: Seq<char>,
    manual_unblock: bool,
    immediate_fallback: bool,
    audio: bool,
    video: bool,
)
    ensures
        has_role(source_plan(id, uri, manual_unblock, immediate_fallback, audio, video), Role::AudioOutput) == audio,
        has_role(source_plan(id, uri, manual_unblock, immediate_fallback, audio, video), Role::VideoOutput) == video,
        forall|i: int|
            0 <= i < source_plan(id, uri, manual_unblock, immediate_fallback, audio, video).elements.len() && (
            #[trigger] source_plan(id, uri, manual_unblock, immediate_fallback, audio, video).elements[i]).role
                == Role::AudioOutput ==> source_plan(id, uri, manual_unblock, immediate_fallback, audio, video).elements[i].name
                == Some("source-audio-appsink-"@ + id),
        forall|i: int|
            0 <= i < source_plan(id, uri, manual_unblock, immediate_fallback, audio, video).elements.len() && (
            #[trigger] source_plan(id, uri, manual_unblock, immediate_fallback, audio, video).elements[i]).role
                == Role::VideoOutput ==> source_plan(id, uri, manual_unblock, immediate_fallback, audio, video).elements[i].name
                == Some("source-video-appsink-"@ + id),
{
    let p = source_plan(id, uri, manual_unblock, immediate_fallback, audio, video);
    let r = source_reader(id, uri, manual_unblock, immediate_fallback, audio, video).elements;
    let a = only_if(audio, source_sink(id, false)).elements;
    let v = only_if(video, source_sink(id, true)).elements;
    let aout = source_sink(id, false).elements[0];
    let vout = source_sink(id, true).elements[0];
    reveal_strlit("source-");
    reveal_strlit("video");
    reveal_strlit("audio");
    reveal_strlit("-appsink-");
    reveal_strlit("source-video-appsink-");
    reveal_strlit("source-audio-appsink-");
    assert("source-"@ + "video"@ + "-appsink-"@ + id =~= "source-video-appsink-"@ + id);
    assert("source-"@ + "audio"@ + "-appsink-"@ + id =~= "source-audio-appsink-"@ + id);
    assert(p.elements =~= r + a + v);
    assert forall|i: int| 0 <= i < p.elements.len() && #[trigger] p.elements[i].role != Role::Source implies ((audio
        && i == 1 && p.elements[i] == aout) || (video && i == 1 + a.len() && p.elements[i] == vout)) by {
        if i < 1 {
            assert(p.elements[i] == r[i]);
        } else if i < 1 + a.len() {
            assert(p.elements[i] == a[i - 1]);
        } else {
            assert(p.elements[i] == v[i - 1 - a.len()]);
        }
    }
    if audio {
        assert(p.elements[1] == aout);
        assert(p.elements[1].role == Role::AudioOutput);
    }
    if video {
        assert(p.elements[1 + a.len() as int] == vout);
        assert(p.elements[1 + a.len() as int].role == Role::VideoOutput);
    }
}

fn add_source_sink(p: &mut PipelinePlan, id: &String, video: bool)
    ensures
        final(p)@ == old(p)@.extend(source_sink(id@, video)),
{
    let media = if video { "video" } else { "audio" };
    p.add_element(
        ElementPlan {
            key: concat2(media, "-out"),
            kind: ElementKind::Factory(owned("appsink")),
            name: Some(concat2(concat2(concat2("source-", media).as_str(), "-appsink-").as_str(), id.as_str())),
            role: if video { Role::VideoOutput } else { Role::AudioOutput },
            slot: None,
            label: concat2(concat2("source ", media).as_str(), " appsink"),
        },
    );
    let ghost seg = source_sink(id@, video);
    assert(p@.elements =~= old(p)@.elements + seg.elements);
    assert(p@.props =~= old(p)@.props + seg.props);
    assert(p@.links =~= old(p)@.links + seg.links);
}

impl SourceNode {
    /// The plan of this source's live pipeline: the element that reads its
    /// URI, then an app sink for its audio and one for its video, as enabled.
    pub fn live_plan(&self) -> (p: PipelinePlan)
        ensures
            p@ == source_plan(
                self.id@,
                self.uri@,
                self.pipeline.manual_unblock,
                self.pipeline.immediate_fallback,
                self.audio_enabled,
                self.video_enabled,
            ),
            resolves(p@),
    {
        proof {
            lemma_source_plan_resolves(
                self.id@,
                self.uri@,
                self.pipeline.manual_unblock,
                self.pipeline.immediate_fallback,
                self.audio_enabled,
                self.video_enabled,
            );
        }
        let id = &self.id;
        let mut p = PipelinePlan::new(concat2("migration-source-", id.as_str()));
        p.add_element(
            ElementPlan {
                key: owned("source"),
                kind: ElementKind::Either {
                    first: owned("fallbacksrc"),
                    first_name: concat2("source-fallbacksrc-", id.as_str()),
                    second: owned("uridecodebin"),
                    second_name: concat2("source-uridecodebin-", id.as_str()),
                },
                name: None,
                role: Role::Source,
                slot: None,
                label: owned("source element to source pipeline"),
            },
        );
        p.add_prop(prop("source", "uri", PropValue::Text(owned(self.uri.as_str())), false));
        p.add_prop(prop("source", "manual-unblock", PropValue::Bool(self.pipeline.manual_unblock), true));
        p.add_prop(prop("source", "immediate-fallback", PropValue::Bool(self.pipeline.immediate_fallback), true));
        p.add_prop(prop("source", "enable-audio", PropValue::Bool(self.audio_enabled), true));
        p.add_prop(prop("source", "enable-video", PropValue::Bool(self.video_enabled), true));
        proof {
            let start = PlanView { name: "migration-source-"@ + id@, elements: seq![], props: seq![], links: seq![] };
            let seg = source_reader(
                id@,
                self.uri@,
                self.pipeline.manual_unblock,
                self.pipeline.immediate_fallback,
                self.audio_enabled,
                self.video_enabled,
            );
            assert(p@.elements =~= start.elements + seg.elements);
            assert(p@.props =~= start.props + seg.props);
            assert(p@.links =~= start.links + seg.links);
        }
        if self.audio_enabled {
            add_source_sink(&mut p, id, false);
        } else {
            proof { lemma_extend_nothing(p@); }
        }
        if self.video_enabled {
            add_source_sink(&mut p, id, true);
        } else {
            proof { lemma_extend_nothing(p@); }
        }
        p
    }
}

/// The plan of every source names only its own elements.
pub proof fn lemma_source_plan_resolves(id: Seq<char>, uri: Seq<char>, manual_unblock: bool, immediate_fallback: bool, audio: bool, video: bool)
    ensures
        resolves(source_plan(id, uri, manual_unblock, immediate_fallback, audio, video)),
{
    let start = PlanView { name: "migration-source-"@ + id, elements: seq![], props: seq![], links: seq![] };
    let seg = source_reader(id, uri, manual_unblock, immediate_fallback, audio, video);
    let a = start.extend(seg);
    lemma_segment_declares(start, seg);
    assert(declares(a, seg.elements[0].key));
    assert forall|j: int| 0 <= j < seg.props.len() implies declares(a, #[trigger] seg.props[j].target) by {
        if j == 0 {} else if j == 1 {} else if j == 2 {} else if j == 3 {} else {}
    }
    lemma_extend_resolves(start, seg);
    let aseg = only_if(audio, source_sink(id, false));
    let b = a.extend(aseg);
    lemma_extend_resolves(a, aseg);
    let vseg = only_if(video, source_sink(id, true));
    lemma_extend_resolves(b, vseg);
}

/// Which medium a new pad of a source's reader carries, video (`true`) or
/// audio (`false`): by the name of the media type of its caps where that
/// begins with `video/` or `audio/`, else by whether its own name mentions
/// `video` or `audio`; none when neither tells.
pub open spec fn pad_media_of(caps_name: Option<Seq<char>>, pad_name: Seq<char>) -> Option<bool> {
    match caps_name {
        Some(c) if "video/"@.is_prefix_of(c) => Some(true),
        Some(c) if "audio/"@.is_prefix_of(c) => Some(false),
        _ => if mentions(pad_name, "video"@) {
            Some(true)
        } else if mentions(pad_name, "audio"@) {
            Some(false)
        } else {
            None
        },
    }
}

/// The medium a new pad of a source's reader carries, from the name of the
/// media type of its caps (when it has caps) and its own name.
pub fn pad_media(caps_name: Option<&str>, pad_name: &str) -> (r: Option<bool>)
    ensures
        r == pad_media_of(
            match caps_name {
                Some(c) => Some(c@),
                None => None,
            },
            pad_name@,
        ),
{
    match caps_name {
        Some(c) => {
            if starts_with(c, "video/") {
                return Some(true);
            }
            if starts_with(c, "audio/") {
                return Some(false);
            }
        },
        None => {},
    }
    if contains_text(pad_name, "video") {
        Some(true)
    } else if contains_text(pad_name, "audio") {
        Some(false)
    } else {
        None
    }
}

/// The live pipeline of video generator `id`: a test source drawing
/// `pattern`, deinterlaced into an app sink.
pub open spec fn video_generator_plan(id: Seq<char>, pattern: Seq<char>, is_live: bool, flip: bool) -> PlanView {
    PlanView {
        name: "migration-videogen-"@ + id,
        elements: seq![
            ElementPlan {
                key: "source"@,
                kind: ElementKind::Factory("videotestsrc"@),
                name: Some("videogen-src-"@ + id),
                role: Role::Source,
                slot: None,
                label: "videotestsrc to video generator pipeline"@,
            },
            ElementPlan {
                key: "deinterlace"@,
                kind: ElementKind::Factory("deinterlace"@),
                name: Some("videogen-deinterlace-"@ + id),
                role: Role::Plain,
                slot: None,
                label: "deinterlace to video generator pipeline"@,
            },
            ElementPlan {
                key: "video-out"@,
                kind: ElementKind::Factory("appsink"@),
                name: Some("videogen-appsink-"@ + id),
                role: Role::VideoOutput,
                slot: None,
                label: "appsink to video generator pipeline"@,
            },
        ],
        props: seq![
            prop_of("source"@, "flip"@, PropValue::Bool(flip), false),
            prop_of("source"@, "is-live"@, PropValue::Bool(is_live), false),
            prop_of("source"@, "pattern"@, PropValue::Nick(pattern), false),
        ],
        links: seq![
            link_of("source"@, "deinterlace"@, "videotestsrc->deinterlace"@),
            link_of("deinterlace"@, "video-out"@, "deinterlace->appsink"@),
        ],
    }
}

/// The plan of a video generator names only its own elements.
pub proof fn lemma_video_generator_plan_resolves(id: Seq<char>, pattern: Seq<char>, is_live: bool, flip: bool)
    ensures
        resolves(video_generator_plan(id, pattern, is_live, flip)),
{
    let p = video_generator_plan(id, pattern, is_live, flip);
    assert(p.elements[0].key == "source"@);
    assert(p.elements[1].key == "deinterlace"@);
    assert(p.elements[2].key == "video-out"@);
    assert forall|j: int| 0 <= j < p.links.len() implies declares(p, #[trigger] p.links[j].from) && declares(p, p.links[j].to) by {
        if j == 0 {
        } else {
        }
    }
    assert forall|j: int| 0 <= j < p.props.len() implies declares(p, #[trigger] p.props[j].target) by {
    }
}

impl VideoGeneratorNode {
    /// The plan of this generator's live pipeline, drawn as its profile says.
    pub fn live_plan(&self) -> (p: PipelinePlan)
        ensures
            p@ == video_generator_plan(self.id@, self.pipeline.pattern@, self.pipeline.is_live, self.pipeline.flip),
            resolves(p@),
    {
        proof {
            lemma_video_generator_plan_resolves(self.id@, self.pipeline.pattern@, self.pipeline.is_live, self.pipeline.flip);
        }
        let id = self.id.as_str();
        let mut p = PipelinePlan::new(concat2("migration-videogen-", id));
        p.add_element(
            ElementPlan {
                key: owned("source"),
                kind: ElementKind::Factory(owned("videotestsrc")),
                name: Some(concat2("videogen-src-", id)),
                role: Role::Source,
                slot: None,
                label: owned("videotestsrc to video generator pipeline"),
            },
        );
        p.add_element(
            ElementPlan {
                key: owned("deinterlace"),
                kind: ElementKind::Factory(owned("deinterlace")),
                name: Some(concat2("videogen-deinterlace-", id)),
                role: Role::Plain,
                slot: None,
                label: owned("deinterlace to video generator pipeline"),
            },
        );
        p.add_element(
            ElementPlan {
                key: owned("video-out"),
                kind: ElementKind::Factory(owned("appsink")),
                name: Some(concat2("videogen-appsink-", id)),
                role: Role::VideoOutput,
                slot: None,
                label: owned("appsink to video generator pipeline"),
            },
        );
        p.add_prop(prop("source", "flip", PropValue::Bool(self.pipeline.flip), false));
        p.add_prop(prop("source", "is-live", PropValue::Bool(self.pipeline.is_live), false));
        p.add_prop(prop("source", "pattern", PropValue::Nick(owned(self.pipeline.pattern.as_str())), false));
        p.add_link(link("source", "deinterlace", "videotestsrc->deinterlace"));
        p.add_link(link("deinterlace", "video-out", "deinterlace->appsink"));
        proof {
            let expected = video_generator_plan(id@, self.pipeline.pattern@, self.pipeline.is_live, self.pipeline.flip);
            assert(p@.elements =~= expected.elements);
            assert(p@.props =~= expected.props);
            assert(p@.links =~= expected.links);
        }
        p
    }
}

} // verus!
