use vstd::prelude::*;
use crate::nodes::destination::DestinationNode;
use crate::pipeline::{
    add_appsrc_props, appsrc_props, declares, has_role, lemma_declares_extend, lemma_extend_nothing, lemma_extend_resolves,
    lemma_segment_declares, resolves, link, link_of, plain, plain_el, prop, prop_of, only_if, ElementKind, ElementPlan, LinkPlan, PadRef, PipelinePlan,
    PlanView, PropValue, Role, Segment,
};
use crate::protocol::DestinationFamily;
use crate::text::{concat2, concat3, owned};

verus! {

// The live pipeline of a destination: an app source for each enabled medium,
// then the muxer and sink of its family, then, for each enabled medium, the
// chain from its app source to the muxer (or to a local sink).

/// The app source of one medium (`video` or `audio`) of destination `id`.
pub open spec fn input_segment(id: Seq<char>, video: bool) -> Segment {
    let media = if video { "video"@ } else { "audio"@ };
    let key = if video { "video-src"@ } else { "audio-src"@ };
    Segment {
        elements: seq![
            ElementPlan {
                key,
                kind: ElementKind::Factory("appsrc"@),
                name: Some("destination-"@ + media + "-appsrc-"@ + id),
                role: if video { Role::VideoInput } else { Role::AudioInput },
                slot: None,
                label: media + " appsrc to destination pipeline"@,
            },
        ],
        props: appsrc_props(key),
        links: seq![],
    }
}

/// The H.264 encoder of destination `id`, added for `purpose`.
pub open spec fn encoder_el(id: Seq<char>, purpose: Seq<char>) -> ElementPlan<Seq<char>> {
    ElementPlan {
        key: "video-encoder"@,
        kind: ElementKind::VideoEncoder,
        name: Some("destination-venc-"@ + id),
        role: Role::Plain,
        slot: None,
        label: purpose,
    }
}

/// A link between two named pads.
pub open spec fn pads_link(from: Seq<char>, from_pad: PadRef<Seq<char>>, to: Seq<char>, to_pad: PadRef<Seq<char>>, label: Seq<char>) -> LinkPlan<Seq<char>> {
    LinkPlan { from, from_pad, to, to_pad, label, mute: false, slot: None }
}

pub open spec fn rtmp_core(uri: Seq<char>) -> Segment {
    Segment {
        elements: seq![
            plain_el("mux"@, "flvmux"@, "flvmux to destination pipeline"@),
            plain_el("mux-queue"@, "queue"@, "mux queue to destination pipeline"@),
            plain_el("sink"@, "rtmp2sink"@, "rtmp2sink to destination pipeline"@),
        ],
        props: seq![
            prop_of("sink"@, "location"@, PropValue::Text(uri), false),
            prop_of("sink"@, "tls-validation-flags"@, PropValue::Nick("generic-error"@), true),
            prop_of("mux"@, "streamable"@, PropValue::Bool(true), true),
            prop_of("mux"@, "latency"@, PropValue::UInt64(1_000_000_000u64), true),
        ],
        links: seq![
            link_of("mux"@, "mux-queue"@, "rtmp mux chain"@),
            link_of("mux-queue"@, "sink"@, "rtmp mux chain"@),
        ],
    }
}

pub open spec fn rtmp_video(id: Seq<char>) -> Segment {
    Segment {
        elements: seq![
            plain_el("video-convert"@, "videoconvert"@, "videoconvert to rtmp pipeline"@),
            plain_el("timecodestamper"@, "timecodestamper"@, "timecodestamper to rtmp pipeline"@),
            plain_el("timeoverlay"@, "timeoverlay"@, "timeoverlay to rtmp pipeline"@),
            encoder_el(id, "rtmp pipeline"@),
            plain_el("video-parse"@, "h264parse"@, "h264parse to rtmp pipeline"@),
            plain_el("video-queue"@, "queue"@, "video queue to rtmp pipeline"@),
        ],
        props: seq![
            prop_of("video-parse"@, "config-interval"@, PropValue::Int(-1i32), true),
            prop_of("timecodestamper"@, "source"@, PropValue::Nick("rtc"@), true),
            prop_of("timeoverlay"@, "time-mode"@, PropValue::Nick("time-code"@), true),
        ],
        links: seq![
            link_of("video-src"@, "video-convert"@, "rtmp video preprocessing"@),
            link_of("video-convert"@, "timecodestamper"@, "rtmp video preprocessing"@),
            link_of("timecodestamper"@, "timeoverlay"@, "rtmp video preprocessing"@),
            link_of("timeoverlay"@, "video-encoder"@, "rtmp video encoder chain"@),
            link_of("video-encoder"@, "video-parse"@, "rtmp video encoder chain"@),
            link_of("video-parse"@, "video-queue"@, "rtmp video output"@),
            link_of("video-queue"@, "mux"@, "rtmp video output"@),
        ],
    }
}

pub open spec fn rtmp_audio() -> Segment {
    Segment {
        elements: seq![
            plain_el("audio-convert"@, "audioconvert"@, "audioconvert to rtmp pipeline"@),
            plain_el("audio-resample"@, "audioresample"@, "audioresample to rtmp pipeline"@),
            plain_el("audio-encoder"@, "avenc_aac"@, "avenc_aac to rtmp pipeline"@),
            plain_el("audio-queue"@, "queue"@, "audio queue to rtmp pipeline"@),
        ],
        props: seq![],
        links: seq![
            link_of("audio-src"@, "audio-convert"@, "rtmp audio chain"@),
            link_of("audio-convert"@, "audio-resample"@, "rtmp audio chain"@),
            link_of("audio-resample"@, "audio-encoder"@, "rtmp audio chain"@),
            link_of("audio-encoder"@, "audio-queue"@, "rtmp audio chain"@),
            link_of("audio-queue"@, "mux"@, "rtmp audio chain"@),
        ],
    }
}

pub open spec fn udp_core(host: Seq<char>) -> Segment {
    Segment {
        elements: seq![
            plain_el("mux"@, "mpegtsmux"@, "mpegtsmux to destination pipeline"@),
            plain_el("sink"@, "udpsink"@, "udpsink to destination pipeline"@),
        ],
        props: seq![
            prop_of("sink"@, "host"@, PropValue::Text(host), false),
            prop_of("sink"@, "port"@, PropValue::Int(5005i32), false),
            prop_of("mux"@, "alignment"@, PropValue::Int(7i32), true),
        ],
        links: seq![],
    }
}

pub open spec fn udp_video(id: Seq<char>) -> Segment {
    Segment {
        elements: seq![
            plain_el("video-convert"@, "videoconvert"@, "videoconvert to udp pipeline"@),
            encoder_el(id, "udp pipeline"@),
            plain_el("video-parse"@, "h264parse"@, "h264parse to udp pipeline"@),
        ],
        props: seq![],
        links: seq![
            link_of("video-src"@, "video-convert"@, "udp video preprocessing"@),
            link_of("video-convert"@, "video-encoder"@, "udp video encoder chain"@),
            link_of("video-encoder"@, "video-parse"@, "udp video encoder chain"@),
            link_of("video-parse"@, "mux"@, "udp video output"@),
        ],
    }
}

pub open spec fn udp_audio() -> Segment {
    Segment {
        elements: seq![
            plain_el("audio-convert"@, "audioconvert"@, "audioconvert to udp pipeline"@),
            plain_el("audio-resample"@, "audioresample"@, "audioresample to udp pipeline"@),
            plain_el("audio-encoder"@, "avenc_aac"@, "avenc_aac to udp pipeline"@),
        ],
        props: seq![],
        links: seq![
            link_of("audio-src"@, "audio-convert"@, "udp audio chain"@),
            link_of("audio-convert"@, "audio-resample"@, "udp audio chain"@),
            link_of("audio-resample"@, "audio-encoder"@, "udp audio chain"@),
            link_of("audio-encoder"@, "mux"@, "udp audio chain"@),
        ],
    }
}

pub open spec fn udp_tail() -> Segment {
    Segment { elements: seq![], props: seq![], links: seq![link_of("mux"@, "sink"@, "mpegtsmux to udpsink"@)] }
}

/// The split file sink writes `base%05d.mp4` files of at most `max` milliseconds
/// each, robustly muxed where it can; without a maximum, one file `base.mp4`.
pub open spec fn local_file_core(base: Seq<char>, max: Option<u32>) -> Segment {
    Segment {
        elements: seq![
            plain_el("multiqueue"@, "multiqueue"@, "multiqueue to local-file pipeline"@),
            plain_el("sink"@, "splitmuxsink"@, "splitmuxsink to local-file pipeline"@),
        ],
        props: match max {
            Some(ms) => seq![
                prop_of("sink"@, "max-size-time"@, PropValue::UInt64((ms * 1_000_000) as u64), false),
                prop_of("sink"@, "use-robust-muxing"@, PropValue::Bool(true), true),
                prop_of("sink"@, "location"@, PropValue::Text(base + "%05d.mp4"@), false),
            ],
            None => seq![prop_of("sink"@, "location"@, PropValue::Text(base + ".mp4"@), false)],
        },
        links: seq![],
    }
}

pub open spec fn local_file_video(id: Seq<char>) -> Segment {
    Segment {
        elements: seq![
            plain_el("video-convert"@, "videoconvert"@, "videoconvert to local-file pipeline"@),
            encoder_el(id, "local-file pipeline"@),
            plain_el("video-parse"@, "h264parse"@, "h264parse to local-file pipeline"@),
        ],
        props: seq![],
        links: seq![
            link_of("video-src"@, "video-convert"@, "local-file video preprocessing"@),
            link_of("video-convert"@, "video-encoder"@, "local-file video encoder chain"@),
            link_of("video-encoder"@, "video-parse"@, "local-file video encoder chain"@),
            pads_link("video-parse"@, PadRef::Any, "multiqueue"@, PadRef::Named("sink_0"@), "local-file video queue sink"@),
            pads_link("multiqueue"@, PadRef::Named("src_0"@), "sink"@, PadRef::Named("video"@), "local-file video queue source"@),
        ],
    }
}

pub open spec fn local_file_audio() -> Segment {
    Segment {
        elements: seq![
            plain_el("audio-convert"@, "audioconvert"@, "audioconvert to local-file pipeline"@),
            plain_el("audio-resample"@, "audioresample"@, "audioresample to local-file pipeline"@),
            plain_el("audio-encoder"@, "avenc_aac"@, "avenc_aac to local-file pipeline"@),
        ],
        props: seq![],
        links: seq![
            link_of("audio-src"@, "audio-convert"@, "local-file audio chain"@),
            link_of("audio-convert"@, "audio-resample"@, "local-file audio chain"@),
            link_of("audio-resample"@, "audio-encoder"@, "local-file audio chain"@),
            pads_link("audio-encoder"@, PadRef::Any, "multiqueue"@, PadRef::Named("sink_1"@), "local-file audio queue sink"@),
            pads_link("multiqueue"@, PadRef::Named("src_1"@), "sink"@, PadRef::Named("audio_0"@), "local-file audio queue source"@),
        ],
    }
}

pub open spec fn playback_video(id: Seq<char>) -> Segment {
    Segment {
        elements: seq![
            plain_el("video-queue"@, "queue"@, "video queue to local-playback pipeline"@),
            plain_el("video-convert"@, "videoconvert"@, "videoconvert to local-playback pipeline"@),
            ElementPlan {
                key: "video-sink"@,
                kind: ElementKind::LocalVideoSink,
                name: Some("destination-video-sink-"@ + id),
                role: Role::Plain,
                slot: None,
                label: "video sink to local-playback pipeline"@,
            },
        ],
        props: seq![],
        links: seq![
            link_of("video-src"@, "video-queue"@, "local-playback video chain"@),
            link_of("video-queue"@, "video-convert"@, "local-playback video chain"@),
            link_of("video-convert"@, "video-sink"@, "local-playback video chain"@),
        ],
    }
}

pub open spec fn playback_audio(id: Seq<char>) -> Segment {
    Segment {
        elements: seq![
            plain_el("audio-queue"@, "queue"@, "audio queue to local-playback pipeline"@),
            plain_el("audio-convert"@, "audioconvert"@, "audioconvert to local-playback pipeline"@),
            plain_el("audio-resample"@, "audioresample"@, "audioresample to local-playback pipeline"@),
            ElementPlan {
                key: "audio-sink"@,
                kind: ElementKind::LocalAudioSink,
                name: Some("destination-audio-sink-"@ + id),
                role: Role::Plain,
                slot: None,
                label: "audio sink to local-playback pipeline"@,
            },
        ],
        props: seq![],
        links: seq![
            link_of("audio-src"@, "audio-queue"@, "local-playback audio chain"@),
            link_of("audio-queue"@, "audio-convert"@, "local-playback audio chain"@),
            link_of("audio-convert"@, "audio-resample"@, "local-playback audio chain"@),
            link_of("audio-resample"@, "audio-sink"@, "local-playback audio chain"@),
        ],
    }
}

/// The live pipeline of destination `id` of `family` with the given media.
pub open spec fn destination_plan(id: Seq<char>, family: DestinationFamily, audio: bool, video: bool) -> PlanView {
    let start = PlanView { name: "migration-destination-"@ + id, elements: seq![], props: seq![], links: seq![] };
    let inputs = start.extend(only_if(video, input_segment(id, true))).extend(only_if(audio, input_segment(id, false)));
    match family {
        DestinationFamily::Rtmp { uri } => inputs.extend(rtmp_core(uri@)).extend(only_if(video, rtmp_video(id))).extend(
            only_if(audio, rtmp_audio()),
        ),
        DestinationFamily::Udp { host } => inputs.extend(udp_core(host@)).extend(only_if(video, udp_video(id))).extend(
            only_if(audio, udp_audio()),
        ).extend(udp_tail()),
        DestinationFamily::LocalFile { base_name, max_size_time } => inputs.extend(
            local_file_core(base_name@, max_size_time),
        ).extend(only_if(video, local_file_video(id))).extend(only_if(audio, local_file_audio())),
        DestinationFamily::LocalPlayback => inputs.extend(only_if(video, playback_video(id))).extend(
            only_if(audio, playback_audio(id)),
        ),
    }
}

/// Every element of `s` is plain.
pub open spec fn all_plain(s: Seq<ElementPlan<Seq<char>>>) -> bool {
    forall|i: int| 0 <= i < s.len() ==> #[trigger] s[i].role == Role::Plain
}

proof fn lemma_all_plain_concat(a: Seq<ElementPlan<Seq<char>>>, b: Seq<ElementPlan<Seq<char>>>)
    requires
        all_plain(a),
        all_plain(b),
    ensures
        all_plain(a + b),
{
    assert forall|i: int| 0 <= i < (a + b).len() implies #[trigger] (a + b)[i].role == Role::Plain by {
        if i < a.len() {
            assert((a + b)[i] == a[i]);
        } else {
            assert((a + b)[i] == b[i - a.len()]);
        }
    }
}

proof fn lemma_only_if_plain(c: bool, seg: Segment)
    requires
        all_plain(seg.elements),
    ensures
        all_plain(only_if(c, seg).elements),
{
}

/// After its app sources, every element of a destination's plan is plain.
proof fn lemma_destination_tail_plain(id: Seq<char>, family: DestinationFamily, audio: bool, video: bool) -> (tail: Seq<
    ElementPlan<Seq<char>>,
>)
    ensures
        all_plain(tail),
        destination_plan(id, family, audio, video).elements == only_if(video, input_segment(id, true)).elements
            + only_if(audio, input_segment(id, false)).elements + tail,
{
    let ins = only_if(video, input_segment(id, true)).elements + only_if(audio, input_segment(id, false)).elements;
    let e = encoder_el(id, ""@);
    assert(all_plain(rtmp_core(""@).elements));
    match family {
        DestinationFamily::Rtmp { uri } => {
            let a = rtmp_core(uri@).elements;
            let b = only_if(video, rtmp_video(id)).elements;
            let c = only_if(audio, rtmp_audio()).elements;
            assert(all_plain(rtmp_core(uri@).elements));
            assert(all_plain(rtmp_video(id).elements));
            assert(all_plain(rtmp_audio().elements));
            lemma_only_if_plain(video, rtmp_video(id));
            lemma_only_if_plain(audio, rtmp_audio());
            lemma_all_plain_concat(a, b);
            lemma_all_plain_concat(a + b, c);
            assert(destination_plan(id, family, audio, video).elements =~= ins + (a + b + c));
            a + b + c
        },
        DestinationFamily::Udp { host } => {
            let a = udp_core(host@).elements;
            let b = only_if(video, udp_video(id)).elements;
            let c = only_if(audio, udp_audio()).elements;
            assert(all_plain(udp_core(host@).elements));
            assert(all_plain(udp_video(id).elements));
            assert(all_plain(udp_audio().elements));
            lemma_only_if_plain(video, udp_video(id));
            lemma_only_if_plain(audio, udp_audio());
            lemma_all_plain_concat(a, b);
            lemma_all_plain_concat(a + b, c);
            assert(destination_plan(id, family, audio, video).elements =~= ins + (a + b + c));
            a + b + c
        },
        DestinationFamily::LocalFile { base_name, max_size_time } => {
            let a = local_file_core(base_name@, max_size_time).elements;
            let b = only_if(video, local_file_video(id)).elements;
            let c = only_if(audio, local_file_audio()).elements;
            assert(all_plain(local_file_core(base_name@, max_size_time).elements));
            assert(all_plain(local_file_video(id).elements));
            assert(all_plain(local_file_audio().elements));
            lemma_only_if_plain(video, local_file_video(id));
            lemma_only_if_plain(audio, local_file_audio());
            lemma_all_plain_concat(a, b);
            lemma_all_plain_concat(a + b, c);
            assert(destination_plan(id, family, audio, video).elements =~= ins + (a + b + c));
            a + b + c
        },
        DestinationFamily::LocalPlayback => {
            let b = only_if(video, playback_video(id)).elements;
            let c = only_if(audio, playback_audio(id)).elements;
            assert(all_plain(playback_video(id).elements));
            assert(all_plain(playback_audio(id).elements));
            lemma_only_if_plain(video, playback_video(id));
            lemma_only_if_plain(audio, playback_audio(id));
            lemma_all_plain_concat(b, c);
            assert(destination_plan(id, family, audio, video).elements =~= ins + (b + c));
            b + c
        },
    }
}

/// A destination's plan takes in audio exactly when audio is enabled, and
/// video exactly when video is enabled: it has an element that plays the
/// audio input (resp. video input) role just then, and every such element is
/// the app source `destination-audio-appsrc-<id>` (resp.
/// `destination-video-appsrc-<id>`) under the key `audio-src` (resp.
/// `video-src`).
pub proof fn law_destination_inputs_follow_media(id: Seq<char>, family: DestinationFamily, audio: bool, video: bool)
    ensures
        has_role(destination_plan(id, family, audio, video), Role::AudioInput) == audio,
        has_role(destination_plan(id, family, audio, video), Role::VideoInput) == video,
        forall|i: int|
            0 <= i < destination_plan(id, family, audio, video).elements.len() && (
            #[trigger] destination_plan(id, family, audio, video).elements[i]).role == Role::AudioInput ==> {
                &&& destination_plan(id, family, audio, video).elements[i].name == Some(
                    "destination-audio-appsrc-"@ + id,
                )
                &&& destination_plan(id, family, audio, video).elements[i].key == "audio-src"@
                &&& destination_plan(id, family, audio, video).elements[i].kind == ElementKind::Factory("appsrc"@)
            },
        forall|i: int|
            0 <= i < destination_plan(id, family, audio, video).elements.len() && (
            #[trigger] destination_plan(id, family, audio, video).elements[i]).role == Role::VideoInput ==> {
                &&& destination_plan(id, family, audio, video).elements[i].name == Some(
                    "destination-video-appsrc-"@ + id,
                )
                &&& destination_plan(id, family, audio, video).elements[i].key == "video-src"@
                &&& destination_plan(id, family, audio, video).elements[i].kind == ElementKind::Factory("appsrc"@)
            },
{
    let p = destination_plan(id, family, audio, video);
    let tail = lemma_destination_tail_plain(id, family, audio, video);
    let v = only_if(video, input_segment(id, true)).elements;
    let a = only_if(audio, input_segment(id, false)).elements;
    let vin = input_segment(id, true).elements[0];
    let ain = input_segment(id, false).elements[0];
    reveal_strlit("destination-");
    reveal_strlit("video");
    reveal_strlit("audio");
    reveal_strlit("-appsrc-");
    reveal_strlit("destination-video-appsrc-");
    reveal_strlit("destination-audio-appsrc-");
    assert("destination-"@ + "video"@ + "-appsrc-"@ + id =~= "destination-video-appsrc-"@ + id);
    assert("destination-"@ + "audio"@ + "-appsrc-"@ + id =~= "destination-audio-appsrc-"@ + id);
    assert(p.elements == v + a + tail);
    assert forall|i: int| 0 <= i < p.elements.len() && #[trigger] p.elements[i].role != Role::Plain implies (
        (video && i == 0 && p.elements[i] == vin) || (audio && i == v.len() && p.elements[i] == ain)) by {
        if i < v.len() {
            assert(p.elements[i] == v[i]);
        } else if i < v.len() + a.len() {
            assert(p.elements[i] == a[i - v.len()]);
        } else {
            assert(p.elements[i] == tail[i - v.len() - a.len()]);
        }
    }
    if video {
        assert(p.elements[0] == vin);
        assert(p.elements[0].role == Role::VideoInput);
    }
    if audio {
        assert(p.elements[v.len() as int] == ain);
        assert(p.elements[v.len() as int].role == Role::AudioInput);
    }
}

fn add_input(p: &mut PipelinePlan, id: &String, video: bool)
    ensures
        final(p)@ == old(p)@.extend(input_segment(id@, video)),
{
    let media = if video { "video" } else { "audio" };
    let key = if video { "video-src" } else { "audio-src" };
    p.add_element(
        ElementPlan {
            key: owned(key),
            kind: ElementKind::Factory(owned("appsrc")),
            name: Some(concat2(concat3("destination-", media, "-appsrc-").as_str(), id.as_str())),
            role: if video { Role::VideoInput } else { Role::AudioInput },
            slot: None,
            label: concat2(media, " appsrc to destination pipeline"),
        },
    );
    add_appsrc_props(p, key);
    let ghost seg = input_segment(id@, video);
    assert(p@.elements =~= old(p)@.elements + seg.elements);
    assert(p@.props =~= old(p)@.props + seg.props);
    assert(p@.links =~= old(p)@.links + seg.links);
}

fn add_encoder(p: &mut PipelinePlan, id: &String, purpose: &str)
    ensures
        final(p)@ == old(p)@.extend(Segment { elements: seq![encoder_el(id@, purpose@)], props: seq![], links: seq![] }),
{
    p.add_element(
        ElementPlan {
            key: owned("video-encoder"),
            kind: ElementKind::VideoEncoder,
            name: Some(concat2("destination-venc-", id.as_str())),
            role: Role::Plain,
            slot: None,
            label: owned(purpose),
        },
    );
}

fn add_rtmp_core(p: &mut PipelinePlan, uri: &String)
    ensures
        final(p)@ == old(p)@.extend(rtmp_core(uri@)),
{
    p.add_element(plain("mux", "flvmux", "flvmux to destination pipeline"));
    p.add_element(plain("mux-queue", "queue", "mux queue to destination pipeline"));
    p.add_element(plain("sink", "rtmp2sink", "rtmp2sink to destination pipeline"));
    p.add_prop(prop("sink", "location", PropValue::Text(owned(uri.as_str())), false));
    p.add_prop(prop("sink", "tls-validation-flags", PropValue::Nick(owned("generic-error")), true));
    p.add_prop(prop("mux", "streamable", PropValue::Bool(true), true));
    p.add_prop(prop("mux", "latency", PropValue::UInt64(1_000_000_000u64), true));
    p.add_link(link("mux", "mux-queue", "rtmp mux chain"));
    p.add_link(link("mux-queue", "sink", "rtmp mux chain"));
    let ghost seg = rtmp_core(uri@);
    assert(p@.elements =~= old(p)@.elements + seg.elements);
    assert(p@.props =~= old(p)@.props + seg.props);
    assert(p@.links =~= old(p)@.links + seg.links);
}

fn add_rtmp_video(p: &mut PipelinePlan, id: &String)
    ensures
        final(p)@ == old(p)@.extend(rtmp_video(id@)),
{
    p.add_element(plain("video-convert", "videoconvert", "videoconvert to rtmp pipeline"));
    p.add_element(plain("timecodestamper", "timecodestamper", "timecodestamper to rtmp pipeline"));
    p.add_element(plain("timeoverlay", "timeoverlay", "timeoverlay to rtmp pipeline"));
    add_encoder(p, id, "rtmp pipeline");
    p.add_element(plain("video-parse", "h264parse", "h264parse to rtmp pipeline"));
    p.add_element(plain("video-queue", "queue", "video queue to rtmp pipeline"));
    p.add_prop(prop("video-parse", "config-interval", PropValue::Int(-1i32), true));
    p.add_prop(prop("timecodestamper", "source", PropValue::Nick(owned("rtc")), true));
    p.add_prop(prop("timeoverlay", "time-mode", PropValue::Nick(owned("time-code")), true));
    p.add_link(link("video-src", "video-convert", "rtmp video preprocessing"));
    p.add_link(link("video-convert", "timecodestamper", "rtmp video preprocessing"));
    p.add_link(link("timecodestamper", "timeoverlay", "rtmp video preprocessing"));
    p.add_link(link("timeoverlay", "video-encoder", "rtmp video encoder chain"));
    p.add_link(link("video-encoder", "video-parse", "rtmp video encoder chain"));
    p.add_link(link("video-parse", "video-queue", "rtmp video output"));
    p.add_link(link("video-queue", "mux", "rtmp video output"));
    let ghost seg = rtmp_video(id@);
    assert(p@.elements =~= old(p)@.elements + seg.elements);
    assert(p@.props =~= old(p)@.props + seg.props);
    assert(p@.links =~= old(p)@.links + seg.links);
}

fn add_rtmp_audio(p: &mut PipelinePlan)
    ensures
        final(p)@ == old(p)@.extend(rtmp_audio()),
{
    p.add_element(plain("audio-convert", "audioconvert", "audioconvert to rtmp pipeline"));
    p.add_element(plain("audio-resample", "audioresample", "audioresample to rtmp pipeline"));
    p.add_element(plain("audio-encoder", "avenc_aac", "avenc_aac to rtmp pipeline"));
    p.add_element(plain("audio-queue", "queue", "audio queue to rtmp pipeline"));
    p.add_link(link("audio-src", "audio-convert", "rtmp audio chain"));
    p.add_link(link("audio-convert", "audio-resample", "rtmp audio chain"));
    p.add_link(link("audio-resample", "audio-encoder", "rtmp audio chain"));
    p.add_link(link("audio-encoder", "audio-queue", "rtmp audio chain"));
    p.add_link(link("audio-queue", "mux", "rtmp audio chain"));
    let ghost seg = rtmp_audio();
    assert(p@.elements =~= old(p)@.elements + seg.elements);
    assert(p@.props =~= old(p)@.props + seg.props);
    assert(p@.links =~= old(p)@.links + seg.links);
}

fn add_udp_core(p: &mut PipelinePlan, host: &String)
    ensures
        final(p)@ == old(p)@.extend(udp_core(host@)),
{
    p.add_element(plain("mux", "mpegtsmux", "mpegtsmux to destination pipeline"));
    p.add_element(plain("sink", "udpsink", "udpsink to destination pipeline"));
    p.add_prop(prop("sink", "host", PropValue::Text(owned(host.as_str())), false));
    p.add_prop(prop("sink", "port", PropValue::Int(5005i32), false));
    p.add_prop(prop("mux", "alignment", PropValue::Int(7i32), true));
    let ghost seg = udp_core(host@);
    assert(p@.elements =~= old(p)@.elements + seg.elements);
    assert(p@.props =~= old(p)@.props + seg.props);
    assert(p@.links =~= old(p)@.links + seg.links);
}

fn add_udp_video(p: &mut PipelinePlan, id: &String)
    ensures
        final(p)@ == old(p)@.extend(udp_video(id@)),
{
    p.add_element(plain("video-convert", "videoconvert", "videoconvert to udp pipeline"));
    add_encoder(p, id, "udp pipeline");
    p.add_element(plain("video-parse", "h264parse", "h264parse to udp pipeline"));
    p.add_link(link("video-src", "video-convert", "udp video preprocessing"));
    p.add_link(link("video-convert", "video-encoder", "udp video encoder chain"));
    p.add_link(link("video-encoder", "video-parse", "udp video encoder chain"));
    p.add_link(link("video-parse", "mux", "udp video output"));
    let ghost seg = udp_video(id@);
    assert(p@.elements =~= old(p)@.elements + seg.elements);
    assert(p@.props =~= old(p)@.props + seg.props);
    assert(p@.links =~= old(p)@.links + seg.links);
}

fn add_udp_audio(p: &mut PipelinePlan)
    ensures
        final(p)@ == old(p)@.extend(udp_audio()),
{
    p.add_element(plain("audio-convert", "audioconvert", "audioconvert to udp pipeline"));
    p.add_element(plain("audio-resample", "audioresample", "audioresample to udp pipeline"));
    p.add_element(plain("audio-encoder", "avenc_aac", "avenc_aac to udp pipeline"));
    p.add_link(link("audio-src", "audio-convert", "udp audio chain"));
    p.add_link(link("audio-convert", "audio-resample", "udp audio chain"));
    p.add_link(link("audio-resample", "audio-encoder", "udp audio chain"));
    p.add_link(link("audio-encoder", "mux", "udp audio chain"));
    let ghost seg = udp_audio();
    assert(p@.elements =~= old(p)@.elements + seg.elements);
    assert(p@.props =~= old(p)@.props + seg.props);
    assert(p@.links =~= old(p)@.links + seg.links);
}

fn add_udp_tail(p: &mut PipelinePlan)
    ensures
        final(p)@ == old(p)@.extend(udp_tail()),
{
    p.add_link(link("mux", "sink", "mpegtsmux to udpsink"));
}

fn add_local_file_core(p: &mut PipelinePlan, base: &String, max: Option<u32>)
    ensures
        final(p)@ == old(p)@.extend(local_file_core(base@, max)),
{
    p.add_element(plain("multiqueue", "multiqueue", "multiqueue to local-file pipeline"));
    p.add_element(plain("sink", "splitmuxsink", "splitmuxsink to local-file pipeline"));
    match max {
        Some(ms) => {
            let ns: u64 = (ms as u64) * 1_000_000;
            p.add_prop(prop("sink", "max-size-time", PropValue::UInt64(ns), false));
            p.add_prop(prop("sink", "use-robust-muxing", PropValue::Bool(true), true));
            p.add_prop(prop("sink", "location", PropValue::Text(concat2(base.as_str(), "%05d.mp4")), false));
        },
        None => {
            p.add_prop(prop("sink", "location", PropValue::Text(concat2(base.as_str(), ".mp4")), false));
        },
    }
    let ghost seg = local_file_core(base@, max);
    assert(p@.elements =~= old(p)@.elements + seg.elements);
    assert(p@.props =~= old(p)@.props + seg.props);
    assert(p@.links =~= old(p)@.links + seg.links);
}

fn pads(from: &str, from_pad: PadRef<String>, to: &str, to_pad: PadRef<String>, label: &str) -> (l: LinkPlan<String>)
    ensures
        l@ == pads_link(from@, from_pad@, to@, to_pad@, label@),
{
    LinkPlan { from: owned(from), from_pad, to: owned(to), to_pad, label: owned(label), mute: false, slot: None }
}

fn add_local_file_video(p: &mut PipelinePlan, id: &String)
    ensures
        final(p)@ == old(p)@.extend(local_file_video(id@)),
{
    p.add_element(plain("video-convert", "videoconvert", "videoconvert to local-file pipeline"));
    add_encoder(p, id, "local-file pipeline");
    p.add_element(plain("video-parse", "h264parse", "h264parse to local-file pipeline"));
    p.add_link(link("video-src", "video-convert", "local-file video preprocessing"));
    p.add_link(link("video-convert", "video-encoder", "local-file video encoder chain"));
    p.add_link(link("video-encoder", "video-parse", "local-file video encoder chain"));
    p.add_link(pads("video-parse", PadRef::Any, "multiqueue", PadRef::Named(owned("sink_0")), "local-file video queue sink"));
    p.add_link(
        pads(
            "multiqueue",
            PadRef::Named(owned("src_0")),
            "sink",
            PadRef::Named(owned("video")),
            "local-file video queue source",
        ),
    );
    let ghost seg = local_file_video(id@);
    assert(p@.elements =~= old(p)@.elements + seg.elements);
    assert(p@.props =~= old(p)@.props + seg.props);
    assert(p@.links =~= old(p)@.links + seg.links);
}

fn add_local_file_audio(p: &mut PipelinePlan)
    ensures
        final(p)@ == old(p)@.extend(local_file_audio()),
{
    p.add_element(plain("audio-convert", "audioconvert", "audioconvert to local-file pipeline"));
    p.add_element(plain("audio-resample", "audioresample", "audioresample to local-file pipeline"));
    p.add_element(plain("audio-encoder", "avenc_aac", "avenc_aac to local-file pipeline"));
    p.add_link(link("audio-src", "audio-convert", "local-file audio chain"));
    p.add_link(link("audio-convert", "audio-resample", "local-file audio chain"));
    p.add_link(link("audio-resample", "audio-encoder", "local-file audio chain"));
    p.add_link(pads("audio-encoder", PadRef::Any, "multiqueue", PadRef::Named(owned("sink_1")), "local-file audio queue sink"));
    p.add_link(
        pads(
            "multiqueue",
            PadRef::Named(owned("src_1")),
            "sink",
            PadRef::Named(owned("audio_0")),
            "local-file audio queue source",
        ),
    );
    let ghost seg = local_file_audio();
    assert(p@.elements =~= old(p)@.elements + seg.elements);
    assert(p@.props =~= old(p)@.props + seg.props);
    assert(p@.links =~= old(p)@.links + seg.links);
}

fn add_playback_video(p: &mut PipelinePlan, id: &String)
    ensures
        final(p)@ == old(p)@.extend(playback_video(id@)),
{
    p.add_element(plain("video-queue", "queue", "video queue to local-playback pipeline"));
    p.add_element(plain("video-convert", "videoconvert", "videoconvert to local-playback pipeline"));
    p.add_element(
        ElementPlan {
            key: owned("video-sink"),
            kind: ElementKind::LocalVideoSink,
            name: Some(concat2("destination-video-sink-", id.as_str())),
            role: Role::Plain,
            slot: None,
            label: owned("video sink to local-playback pipeline"),
        },
    );
    p.add_link(link("video-src", "video-queue", "local-playback video chain"));
    p.add_link(link("video-queue", "video-convert", "local-playback video chain"));
    p.add_link(link("video-convert", "video-sink", "local-playback video chain"));
    let ghost seg = playback_video(id@);
    assert(p@.elements =~= old(p)@.elements + seg.elements);
    assert(p@.props =~= old(p)@.props + seg.props);
    assert(p@.links =~= old(p)@.links + seg.links);
}

fn add_playback_audio(p: &mut PipelinePlan, id: &String)
    ensures
        final(p)@ == old(p)@.extend(playback_audio(id@)),
{
    p.add_element(plain("audio-queue", "queue", "audio queue to local-playback pipeline"));
    p.add_element(plain("audio-convert", "audioconvert", "audioconvert to local-playback pipeline"));
    p.add_element(plain("audio-resample", "audioresample", "audioresample to local-playback pipeline"));
    p.add_element(
        ElementPlan {
            key: owned("audio-sink"),
            kind: ElementKind::LocalAudioSink,
            name: Some(concat2("destination-audio-sink-", id.as_str())),
            role: Role::Plain,
            slot: None,
            label: owned("audio sink to local-playback pipeline"),
        },
    );
    p.add_link(link("audio-src", "audio-queue", "local-playback audio chain"));
    p.add_link(link("audio-queue", "audio-convert", "local-playback audio chain"));
    p.add_link(link("audio-convert", "audio-resample", "local-playback audio chain"));
    p.add_link(link("audio-resample", "audio-sink", "local-playback audio chain"));
    let ghost seg = playback_audio(id@);
    assert(p@.elements =~= old(p)@.elements + seg.elements);
    assert(p@.props =~= old(p)@.props + seg.props);
    assert(p@.links =~= old(p)@.links + seg.links);
}

proof fn lemma_input_resolves(p: PlanView, id: Seq<char>, video: bool)
    requires
        resolves(p),
    ensures
        resolves(p.extend(input_segment(id, video))),
        declares(p.extend(input_segment(id, video)), if video { "video-src"@ } else { "audio-src"@ }),
{
    let seg = input_segment(id, video);
    let q = p.extend(seg);
    lemma_segment_declares(p, seg);
    assert(declares(q, seg.elements[0].key));
    assert forall|j: int| 0 <= j < seg.props.len() implies declares(q, #[trigger] seg.props[j].target) by {
        if j == 0 {} else if j == 1 {} else if j == 2 {} else {}
    }
    lemma_extend_resolves(p, seg);
}

proof fn lemma_rtmp_core_resolves(p: PlanView, uri: Seq<char>)
    requires
        resolves(p),
    ensures
        resolves(p.extend(rtmp_core(uri))),
        declares(p.extend(rtmp_core(uri)), "mux"@),
        declares(p.extend(rtmp_core(uri)), "sink"@),
{
    let seg = rtmp_core(uri);
    let q = p.extend(seg);
    lemma_segment_declares(p, seg);
    assert(declares(q, seg.elements[0].key));
    assert(declares(q, seg.elements[1].key));
    assert(declares(q, seg.elements[2].key));
    assert forall|j: int| 0 <= j < seg.links.len() implies declares(q, #[trigger] seg.links[j].from) && declares(q, seg.links[j].to) by {
        if j == 0 {} else {}
    }
    assert forall|j: int| 0 <= j < seg.props.len() implies declares(q, #[trigger] seg.props[j].target) by {
        if j == 0 {} else if j == 1 {} else if j == 2 {} else {}
    }
    lemma_extend_resolves(p, seg);
}

proof fn lemma_rtmp_video_resolves(p: PlanView, id: Seq<char>)
    requires
        resolves(p),
        declares(p, "video-src"@),
        declares(p, "mux"@),
    ensures
        resolves(p.extend(rtmp_video(id))),
{
    let seg = rtmp_video(id);
    let q = p.extend(seg);
    lemma_segment_declares(p, seg);
    lemma_declares_extend(p, seg, "video-src"@);
    lemma_declares_extend(p, seg, "mux"@);
    assert(declares(q, seg.elements[0].key));
    assert(declares(q, seg.elements[1].key));
    assert(declares(q, seg.elements[2].key));
    assert(declares(q, seg.elements[3].key));
    assert(declares(q, seg.elements[4].key));
    assert(declares(q, seg.elements[5].key));
    assert forall|j: int| 0 <= j < seg.links.len() implies declares(q, #[trigger] seg.links[j].from) && declares(q, seg.links[j].to) by {
        if j == 0 {} else if j == 1 {} else if j == 2 {} else if j == 3 {} else if j == 4 {} else if j == 5 {} else {}
    }
    assert forall|j: int| 0 <= j < seg.props.len() implies declares(q, #[trigger] seg.props[j].target) by {
        if j == 0 {} else if j == 1 {} else {}
    }
    lemma_extend_resolves(p, seg);
}

proof fn lemma_rtmp_audio_resolves(p: PlanView)
    requires
        resolves(p),
        declares(p, "audio-src"@),
        declares(p, "mux"@),
    ensures
        resolves(p.extend(rtmp_audio())),
{
    let seg = rtmp_audio();
    let q = p.extend(seg);
    lemma_segment_declares(p, seg);
    lemma_declares_extend(p, seg, "audio-src"@);
    lemma_declares_extend(p, seg, "mux"@);
    assert(declares(q, seg.elements[0].key));
    assert(declares(q, seg.elements[1].key));
    assert(declares(q, seg.elements[2].key));
    assert(declares(q, seg.elements[3].key));
    assert forall|j: int| 0 <= j < seg.links.len() implies declares(q, #[trigger] seg.links[j].from) && declares(q, seg.links[j].to) by {
        if j == 0 {} else if j == 1 {} else if j == 2 {} else if j == 3 {} else {}
    }
    lemma_extend_resolves(p, seg);
}

proof fn lemma_udp_core_resolves(p: PlanView, host: Seq<char>)
    requires
        resolves(p),
    ensures
        resolves(p.extend(udp_core(host))),
        declares(p.extend(udp_core(host)), "mux"@),
        declares(p.extend(udp_core(host)), "sink"@),
{
    let seg = udp_core(host);
    let q = p.extend(seg);
    lemma_segment_declares(p, seg);
    assert(declares(q, seg.elements[0].key));
    assert(declares(q, seg.elements[1].key));
    assert forall|j: int| 0 <= j < seg.props.len() implies declares(q, #[trigger] seg.props[j].target) by {
        if j == 0 {} else if j == 1 {} else {}
    }
    lemma_extend_resolves(p, seg);
}

proof fn lemma_udp_video_resolves(p: PlanView, id: Seq<char>)
    requires
        resolves(p),
        declares(p, "video-src"@),
        declares(p, "mux"@),
    ensures
        resolves(p.extend(udp_video(id))),
{
    let seg = udp_video(id);
    let q = p.extend(seg);
    lemma_segment_declares(p, seg);
    lemma_declares_extend(p, seg, "video-src"@);
    lemma_declares_extend(p, seg, "mux"@);
    assert(declares(q, seg.elements[0].key));
    assert(declares(q, seg.elements[1].key));
    assert(declares(q, seg.elements[2].key));
    assert forall|j: int| 0 <= j < seg.links.len() implies declares(q, #[trigger] seg.links[j].from) && declares(q, seg.links[j].to) by {
        if j == 0 {} else if j == 1 {} else if j == 2 {} else {}
    }
    lemma_extend_resolves(p, seg);
}

proof fn lemma_udp_audio_resolves(p: PlanView)
    requires
        resolves(p),
        declares(p, "audio-src"@),
        declares(p, "mux"@),
    ensures
        resolves(p.extend(udp_audio())),
{
    let seg = udp_audio();
    let q = p.extend(seg);
    lemma_segment_declares(p, seg);
    lemma_declares_extend(p, seg, "audio-src"@);
    lemma_declares_extend(p, seg, "mux"@);
    assert(declares(q, seg.elements[0].key));
    assert(declares(q, seg.elements[1].key));
    assert(declares(q, seg.elements[2].key));
    assert forall|j: int| 0 <= j < seg.links.len() implies declares(q, #[trigger] seg.links[j].from) && declares(q, seg.links[j].to) by {
        if j == 0 {} else if j == 1 {} else if j == 2 {} else {}
    }
    lemma_extend_resolves(p, seg);
}

proof fn lemma_udp_tail_resolves(p: PlanView)
    requires
        resolves(p),
        declares(p, "mux"@),
        declares(p, "sink"@),
    ensures
        resolves(p.extend(udp_tail())),
{
    let seg = udp_tail();
    let q = p.extend(seg);
    lemma_segment_declares(p, seg);
    lemma_declares_extend(p, seg, "mux"@);
    lemma_declares_extend(p, seg, "sink"@);
    assert forall|j: int| 0 <= j < seg.links.len() implies declares(q, #[trigger] seg.links[j].from) && declares(q, seg.links[j].to) by {
        {}
    }
    lemma_extend_resolves(p, seg);
}

proof fn lemma_local_file_core_resolves(p: PlanView, base: Seq<char>, max: Option<u32>)
    requires
        resolves(p),
    ensures
        resolves(p.extend(local_file_core(base, max))),
        declares(p.extend(local_file_core(base, max)), "multiqueue"@),
        declares(p.extend(local_file_core(base, max)), "sink"@),
{
    let seg = local_file_core(base, max);
    let q = p.extend(seg);
    lemma_segment_declares(p, seg);
    assert(declares(q, seg.elements[0].key));
    assert(declares(q, seg.elements[1].key));
    assert forall|j: int| 0 <= j < seg.props.len() implies declares(q, #[trigger] seg.props[j].target) by {
        if j == 0 {} else if j == 1 {} else {}
    }
    lemma_extend_resolves(p, seg);
}

proof fn lemma_local_file_video_resolves(p: PlanView, id: Seq<char>)
    requires
        resolves(p),
        declares(p, "video-src"@),
        declares(p, "multiqueue"@),
        declares(p, "sink"@),
    ensures
        resolves(p.extend(local_file_video(id))),
{
    let seg = local_file_video(id);
    let q = p.extend(seg);
    lemma_segment_declares(p, seg);
    lemma_declares_extend(p, seg, "video-src"@);
    lemma_declares_extend(p, seg, "multiqueue"@);
    lemma_declares_extend(p, seg, "sink"@);
    assert(declares(q, seg.elements[0].key));
    assert(declares(q, seg.elements[1].key));
    assert(declares(q, seg.elements[2].key));
    assert forall|j: int| 0 <= j < seg.links.len() implies declares(q, #[trigger] seg.links[j].from) && declares(q, seg.links[j].to) by {
        if j == 0 {} else if j == 1 {} else if j == 2 {} else if j == 3 {} else {}
    }
    lemma_extend_resolves(p, seg);
}

proof fn lemma_local_file_audio_resolves(p: PlanView)
    requires
        resolves(p),
        declares(p, "audio-src"@),
        declares(p, "multiqueue"@),
        declares(p, "sink"@),
    ensures
        resolves(p.extend(local_file_audio())),
{
    let seg = local_file_audio();
    let q = p.extend(seg);
    lemma_segment_declares(p, seg);
    lemma_declares_extend(p, seg, "audio-src"@);
    lemma_declares_extend(p, seg, "multiqueue"@);
    lemma_declares_extend(p, seg, "sink"@);
    assert(declares(q, seg.elements[0].key));
    assert(declares(q, seg.elements[1].key));
    assert(declares(q, seg.elements[2].key));
    assert forall|j: int| 0 <= j < seg.links.len() implies declares(q, #[trigger] seg.links[j].from) && declares(q, seg.links[j].to) by {
        if j == 0 {} else if j == 1 {} else if j == 2 {} else if j == 3 {} else {}
    }
    lemma_extend_resolves(p, seg);
}

proof fn lemma_playback_video_resolves(p: PlanView, id: Seq<char>)
    requires
        resolves(p),
        declares(p, "video-src"@),
    ensures
        resolves(p.extend(playback_video(id))),
{
    let seg = playback_video(id);
    let q = p.extend(seg);
    lemma_segment_declares(p, seg);
    lemma_declares_extend(p, seg, "video-src"@);
    assert(declares(q, seg.elements[0].key));
    assert(declares(q, seg.elements[1].key));
    assert(declares(q, seg.elements[2].key));
    assert forall|j: int| 0 <= j < seg.links.len() implies declares(q, #[trigger] seg.links[j].from) && declares(q, seg.links[j].to) by {
        if j == 0 {} else if j == 1 {} else {}
    }
    lemma_extend_resolves(p, seg);
}

proof fn lemma_playback_audio_resolves(p: PlanView, id: Seq<char>)
    requires
        resolves(p),
        declares(p, "audio-src"@),
    ensures
        resolves(p.extend(playback_audio(id))),
{
    let seg = playback_audio(id);
    let q = p.extend(seg);
    lemma_segment_declares(p, seg);
    lemma_declares_extend(p, seg, "audio-src"@);
    assert(declares(q, seg.elements[0].key));
    assert(declares(q, seg.elements[1].key));
    assert(declares(q, seg.elements[2].key));
    assert(declares(q, seg.elements[3].key));
    assert forall|j: int| 0 <= j < seg.links.len() implies declares(q, #[trigger] seg.links[j].from) && declares(q, seg.links[j].to) by {
        if j == 0 {} else if j == 1 {} else if j == 2 {} else {}
    }
    lemma_extend_resolves(p, seg);
}
/// The plan of every destination names only its own elements: each link
/// joins elements of the plan and each property is set on one of them.
pub proof fn lemma_destination_plan_resolves(id: Seq<char>, family: DestinationFamily, audio: bool, video: bool)
    ensures
        resolves(destination_plan(id, family, audio, video)),
{
    let start = PlanView { name: "migration-destination-"@ + id, elements: seq![], props: seq![], links: seq![] };
    assert(resolves(start));
    let a = start.extend(only_if(video, input_segment(id, true)));
    if video {
        lemma_input_resolves(start, id, true);
    } else {
        lemma_extend_nothing(start);
    }
    let b = a.extend(only_if(audio, input_segment(id, false)));
    if audio {
        lemma_input_resolves(a, id, false);
        if video {
            lemma_declares_extend(a, input_segment(id, false), "video-src"@);
        }
    } else {
        lemma_extend_nothing(a);
    }
    assert(resolves(b));
    assert(video ==> declares(b, "video-src"@));
    assert(audio ==> declares(b, "audio-src"@));
    match family {
        DestinationFamily::Rtmp { uri } => {
            let core = rtmp_core(uri@);
            let c = b.extend(core);
            lemma_rtmp_core_resolves(b, uri@);
            if video {
                lemma_declares_extend(b, core, "video-src"@);
            }
            if audio {
                lemma_declares_extend(b, core, "audio-src"@);
            }
            let vseg = only_if(video, rtmp_video(id));
            let d = c.extend(vseg);
            if video {
                lemma_rtmp_video_resolves(c, id);
            } else {
                lemma_extend_nothing(c);
            }
            lemma_declares_extend(c, vseg, "mux"@);
            if audio {
                lemma_declares_extend(c, vseg, "audio-src"@);
                lemma_rtmp_audio_resolves(d);
            } else {
                lemma_extend_nothing(d);
            }
        },
        DestinationFamily::Udp { host } => {
            let core = udp_core(host@);
            let c = b.extend(core);
            lemma_udp_core_resolves(b, host@);
            if video {
                lemma_declares_extend(b, core, "video-src"@);
            }
            if audio {
                lemma_declares_extend(b, core, "audio-src"@);
            }
            let vseg = only_if(video, udp_video(id));
            let d = c.extend(vseg);
            if video {
                lemma_udp_video_resolves(c, id);
            } else {
                lemma_extend_nothing(c);
            }
            lemma_declares_extend(c, vseg, "mux"@);
            lemma_declares_extend(c, vseg, "sink"@);
            let aseg = only_if(audio, udp_audio());
            let e = d.extend(aseg);
            if audio {
                lemma_declares_extend(c, vseg, "audio-src"@);
                lemma_udp_audio_resolves(d);
            } else {
                lemma_extend_nothing(d);
            }
            lemma_declares_extend(d, aseg, "mux"@);
            lemma_declares_extend(d, aseg, "sink"@);
            lemma_udp_tail_resolves(e);
        },
        DestinationFamily::LocalFile { base_name, max_size_time } => {
            let core = local_file_core(base_name@, max_size_time);
            let c = b.extend(core);
            lemma_local_file_core_resolves(b, base_name@, max_size_time);
            if video {
                lemma_declares_extend(b, core, "video-src"@);
            }
            if audio {
                lemma_declares_extend(b, core, "audio-src"@);
            }
            let vseg = only_if(video, local_file_video(id));
            let d = c.extend(vseg);
            if video {
                lemma_local_file_video_resolves(c, id);
            } else {
                lemma_extend_nothing(c);
            }
            lemma_declares_extend(c, vseg, "multiqueue"@);
            lemma_declares_extend(c, vseg, "sink"@);
            if audio {
                lemma_declares_extend(c, vseg, "audio-src"@);
                lemma_local_file_audio_resolves(d);
            } else {
                lemma_extend_nothing(d);
            }
        },
        DestinationFamily::LocalPlayback => {
            let vseg = only_if(video, playback_video(id));
            let d = b.extend(vseg);
            if video {
                lemma_playback_video_resolves(b, id);
            } else {
                lemma_extend_nothing(b);
            }
            if audio {
                lemma_declares_extend(b, vseg, "audio-src"@);
                lemma_playback_audio_resolves(d, id);
            } else {
                lemma_extend_nothing(d);
            }
        },
    }
}

impl DestinationNode {
    /// The plan of this destination's live pipeline: an app source for each
    /// enabled medium, then its family's muxer and sink, then for each
    /// enabled medium the chain from its app source on.
    pub fn live_plan(&self) -> (p: PipelinePlan)
        ensures
            p@ == destination_plan(self.id@, self.family, self.audio_enabled, self.video_enabled),
            resolves(p@),
    {
        proof {
            lemma_destination_plan_resolves(self.id@, self.family, self.audio_enabled, self.video_enabled);
        }
        let id = &self.id;
        let mut p = PipelinePlan::new(concat2("migration-destination-", id.as_str()));
        let ghost start = p@;
        if self.video_enabled {
            add_input(&mut p, id, true);
        } else {
            proof { lemma_extend_nothing(p@); }
        }
        if self.audio_enabled {
            add_input(&mut p, id, false);
        } else {
            proof { lemma_extend_nothing(p@); }
        }
        let ghost inputs = p@;
        assert(inputs == start.extend(only_if(self.video_enabled, input_segment(id@, true))).extend(
            only_if(self.audio_enabled, input_segment(id@, false)),
        ));
        match &self.family {
            DestinationFamily::Rtmp { uri } => {
                add_rtmp_core(&mut p, uri);
                if self.video_enabled {
                    add_rtmp_video(&mut p, id);
                } else {
                    proof { lemma_extend_nothing(p@); }
                }
                if self.audio_enabled {
                    add_rtmp_audio(&mut p);
                } else {
                    proof { lemma_extend_nothing(p@); }
                }
            },
            DestinationFamily::Udp { host } => {
                add_udp_core(&mut p, host);
                if self.video_enabled {
                    add_udp_video(&mut p, id);
                } else {
                    proof { lemma_extend_nothing(p@); }
                }
                if self.audio_enabled {
                    add_udp_audio(&mut p);
                } else {
                    proof { lemma_extend_nothing(p@); }
                }
                add_udp_tail(&mut p);
            },
            DestinationFamily::LocalFile { base_name, max_size_time } => {
                add_local_file_core(&mut p, base_name, *max_size_time);
                if self.video_enabled {
                    add_local_file_video(&mut p, id);
                } else {
                    proof { lemma_extend_nothing(p@); }
                }
                if self.audio_enabled {
                    add_local_file_audio(&mut p);
                } else {
                    proof { lemma_extend_nothing(p@); }
                }
            },
            DestinationFamily::LocalPlayback => {
                if self.video_enabled {
                    add_playback_video(&mut p, id);
                } else {
                    proof { lemma_extend_nothing(p@); }
                }
                if self.audio_enabled {
                    add_playback_audio(&mut p, id);
                } else {
                    proof { lemma_extend_nothing(p@); }
                }
            },
        }
        p
    }
}

} // verus!
