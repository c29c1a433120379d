use vstd::prelude::*;
use crate::node_manager::{has_key_with_prefix, has_prefixed_key};
use crate::nodes::mixer::{int_setting, setting, setting_int, MixerNode};
use crate::pipeline::{
    add_appsrc_props, appsrc_props, declares, joined, lemma_declares_extend, lemma_extend_joined, lemma_extend_nothing,
    lemma_extend_resolves, lemma_segment_declares, resolves, link, link_of, nothing, only_if,
    prop, prop_of, ElementKind, ElementPlan, LinkPlan, PadRef, PipelinePlan, PlanView, PropValue, Role, Segment,
};
use crate::table::Table;
use crate::text::{concat2, concat3, owned};
use crate::value::{JsonValue, Number};

verus! {

// The live pipeline of a mixer: for each enabled medium a mixer element fed
// by a silent (or black) base source and followed by the output chain, then,
// for each slot that carries an enabled medium, the chain from the slot's app
// source into a new pad of that medium's mixer.

/// A size or rate setting as the caps take it: the integer setting cut to
/// 32 bits, or `default`.
pub open spec fn caps_setting(settings: Map<Seq<char>, JsonValue>, key: Seq<char>, default: i64) -> i32 {
    setting_int(setting(settings, key), default) as i32
}

/// The slots of `t` in their stored order, each with its settings.
pub open spec fn slot_entries(t: Table<Table<JsonValue>>) -> Seq<(Seq<char>, Map<Seq<char>, JsonValue>)> {
    Seq::new(t.entries_seq().len(), |i: int| (t.entries_seq()[i].0@, t.entries_seq()[i].1@))
}

/// An element of the mixer's pipeline under its own name.
pub open spec fn named_el(key: Seq<char>, factory: Seq<char>, name: Seq<char>, role: Role, label: Seq<char>) -> ElementPlan<
    Seq<char>,
> {
    ElementPlan { key, kind: ElementKind::Factory(factory), name: Some(name), role, slot: None, label }
}

/// The link from the always-present `src` pad of `from` into a new `sink_%u`
/// pad of `to`.
pub open spec fn into_request(
    from: Seq<char>,
    missing: Seq<char>,
    to: Seq<char>,
    failure: Seq<char>,
    label: Seq<char>,
    mute: bool,
    slot: Option<(Seq<char>, bool)>,
) -> LinkPlan<Seq<char>> {
    LinkPlan {
        from,
        from_pad: PadRef::Static { name: "src"@, missing },
        to,
        to_pad: PadRef::Request { template: "sink_%u"@, failure },
        label,
        mute,
        slot,
    }
}

pub open spec fn video_core(width: i32, height: i32) -> Segment {
    Segment {
        elements: seq![
            named_el("video-mixer"@, "compositor"@, "compositor"@, Role::VideoMixer, "compositor to mixer pipeline"@),
            named_el("video-caps"@, "capsfilter"@, "mixer-video-capsfilter"@, Role::VideoFormat, "video capsfilter to mixer pipeline"@),
            named_el("video-out"@, "appsink"@, "mixer-video-appsink"@, Role::VideoOutput, "video appsink to mixer pipeline"@),
            named_el("video-base"@, "videotestsrc"@, "mixer-video-base-src"@, Role::Plain, "video base source to mixer pipeline"@),
            named_el("video-base-queue"@, "queue"@, "mixer-video-base-queue"@, Role::Plain, "video base queue to mixer pipeline"@),
        ],
        props: seq![
            prop_of("video-base"@, "is-live"@, PropValue::Bool(true), false),
            prop_of("video-base"@, "pattern"@, PropValue::Nick("black"@), false),
            prop_of("video-mixer"@, "background"@, PropValue::Nick("black"@), true),
            prop_of("video-caps"@, "caps"@, PropValue::VideoCaps { width, height }, true),
        ],
        links: seq![
            link_of("video-base"@, "video-base-queue"@, "video base source to queue"@),
            into_request(
                "video-base-queue"@,
                "Video base queue is missing src pad"@,
                "video-mixer"@,
                "Failed to request base video pad on compositor"@,
                "video base queue to compositor"@,
                false,
                None,
            ),
            link_of("video-mixer"@, "video-caps"@, "mixer video output chain"@),
            link_of("video-caps"@, "video-out"@, "mixer video output chain"@),
        ],
    }
}

/// Zero, as a float.
pub open spec fn zero() -> Number {
    Number::Float { mantissa: 0, exponent: 0 }
}

pub open spec fn audio_core(rate: i32) -> Segment {
    Segment {
        elements: seq![
            named_el("audio-mixer"@, "audiomixer"@, "audiomixer"@, Role::AudioMixer, "audiomixer to mixer pipeline"@),
            named_el("audio-convert"@, "audioconvert"@, "mixer-audio-convert"@, Role::Plain, "audio convert to mixer pipeline"@),
            named_el("audio-resample"@, "audioresample"@, "mixer-audio-resample"@, Role::Plain, "audio resample to mixer pipeline"@),
            named_el("audio-caps"@, "capsfilter"@, "mixer-audio-capsfilter"@, Role::AudioFormat, "audio capsfilter to mixer pipeline"@),
            named_el("audio-out"@, "appsink"@, "mixer-audio-appsink"@, Role::AudioOutput, "audio appsink to mixer pipeline"@),
            named_el("audio-base"@, "audiotestsrc"@, "mixer-audio-base-src"@, Role::Plain, "audio base source to mixer pipeline"@),
            named_el("audio-base-queue"@, "queue"@, "mixer-audio-base-queue"@, Role::Plain, "audio base queue to mixer pipeline"@),
        ],
        props: seq![
            prop_of("audio-base"@, "is-live"@, PropValue::Bool(true), false),
            prop_of("audio-base"@, "volume"@, PropValue::Double(zero()), false),
            prop_of("audio-caps"@, "caps"@, PropValue::AudioCaps { rate }, true),
        ],
        links: seq![
            link_of("audio-base"@, "audio-base-queue"@, "audio base source to queue"@),
            into_request(
                "audio-base-queue"@,
                "Audio base queue is missing src pad"@,
                "audio-mixer"@,
                "Failed to request base audio pad on audiomixer"@,
                "audio base queue to audiomixer"@,
                true,
                None,
            ),
            link_of("audio-mixer"@, "audio-convert"@, "mixer audio output chain"@),
            link_of("audio-convert"@, "audio-resample"@, "mixer audio output chain"@),
            link_of("audio-resample"@, "audio-caps"@, "mixer audio output chain"@),
            link_of("audio-caps"@, "audio-out"@, "mixer audio output chain"@),
        ],
    }
}

/// `text` with the slot in backquotes after it, and `rest` after that.
pub open spec fn about_slot(text: Seq<char>, slot: Seq<char>, rest: Seq<char>) -> Seq<char> {
    text + slot + rest
}

/// The app source of a slot's video and its queue into the compositor.
pub open spec fn slot_video(id: Seq<char>, slot: Seq<char>) -> Segment {
    let src = "slot-video-src-"@ + slot;
    let queue = "slot-video-queue-"@ + slot;
    Segment {
        elements: seq![
            ElementPlan {
                key: src,
                kind: ElementKind::Factory("appsrc"@),
                name: Some("mixer-video-appsrc-"@ + id + "-"@ + slot),
                role: Role::SlotVideoInput,
                slot: Some(slot),
                label: about_slot("video slot appsrc `"@, slot, "`"@),
            },
            named_el(queue, "queue"@, "mixer-slot-video-queue-"@ + slot, Role::Plain, about_slot("video slot queue `"@, slot, "`"@)),
        ],
        props: appsrc_props(src),
        links: seq![
            link_of(src, queue, about_slot("video slot appsrc `"@, slot, "`"@)),
            into_request(
                queue,
                about_slot("Video queue for slot `"@, slot, "` has no src pad"@),
                "video-mixer"@,
                about_slot("Failed to request video mixer pad for slot `"@, slot, "`"@),
                about_slot("video slot `"@, slot, "` to mixer"@),
                false,
                Some((slot, true)),
            ),
        ],
    }
}

/// The app source of a slot's audio, its conversion to the mixer's format,
/// and its queue into the audio mixer.
pub open spec fn slot_audio(id: Seq<char>, slot: Seq<char>, rate: i32) -> Segment {
    let src = "slot-audio-src-"@ + slot;
    let queue = "slot-audio-queue-"@ + slot;
    let conv = "slot-audio-convert-"@ + slot;
    let resample = "slot-audio-resample-"@ + slot;
    let caps = "slot-audio-caps-"@ + slot;
    let chain = about_slot("audio slot `"@, slot, "` processing chain"@);
    Segment {
        elements: seq![
            ElementPlan {
                key: src,
                kind: ElementKind::Factory("appsrc"@),
                name: Some("mixer-audio-appsrc-"@ + id + "-"@ + slot),
                role: Role::SlotAudioInput,
                slot: Some(slot),
                label: about_slot("audio slot appsrc `"@, slot, "`"@),
            },
            named_el(queue, "queue"@, "mixer-slot-audio-queue-"@ + slot, Role::Plain, about_slot("audio slot queue `"@, slot, "`"@)),
            named_el(conv, "audioconvert"@, "mixer-slot-audio-conv-"@ + slot, Role::Plain, about_slot("audio slot convert `"@, slot, "`"@)),
            named_el(
                resample,
                "audioresample"@,
                "mixer-slot-audio-resample-"@ + slot,
                Role::Plain,
                about_slot("audio slot resample `"@, slot, "`"@),
            ),
            named_el(caps, "capsfilter"@, "mixer-slot-audio-caps-"@ + slot, Role::Plain, about_slot("audio slot capsfilter `"@, slot, "`"@)),
        ],
        props: appsrc_props(src).push(prop_of(caps, "caps"@, PropValue::AudioCaps { rate }, true)),
        links: seq![
            link_of(src, conv, chain),
            link_of(conv, resample, chain),
            link_of(resample, caps, chain),
            link_of(caps, queue, chain),
            into_request(
                queue,
                about_slot("Audio queue for slot `"@, slot, "` has no src pad"@),
                "audio-mixer"@,
                about_slot("Failed to request audio mixer pad for slot `"@, slot, "`"@),
                about_slot("audio slot `"@, slot, "` to mixer"@),
                false,
                Some((slot, false)),
            ),
        ],
    }
}

/// The part of the plan for one slot: its video when the slot has video
/// settings and the mixer takes video, then likewise its audio.
pub open spec fn slot_segment(id: Seq<char>, slot: (Seq<char>, Map<Seq<char>, JsonValue>), audio: bool, video: bool, rate: i32) -> Segment {
    joined(
        only_if(video && has_key_with_prefix(slot.1, "video::"@), slot_video(id, slot.0)),
        only_if(audio && has_key_with_prefix(slot.1, "audio::"@), slot_audio(id, slot.0, rate)),
    )
}

/// The parts of the plan for the slots, in order.
pub open spec fn slots_segment(
    id: Seq<char>,
    slots: Seq<(Seq<char>, Map<Seq<char>, JsonValue>)>,
    audio: bool,
    video: bool,
    rate: i32,
) -> Segment
    decreases slots.len(),
{
    if slots.len() == 0 {
        nothing()
    } else {
        joined(slots_segment(id, slots.drop_last(), audio, video, rate), slot_segment(id, slots.last(), audio, video, rate))
    }
}

/// The live pipeline of mixer `id` with the given media, settings and slots.
pub open spec fn mixer_plan(
    id: Seq<char>,
    audio: bool,
    video: bool,
    settings: Map<Seq<char>, JsonValue>,
    slots: Seq<(Seq<char>, Map<Seq<char>, JsonValue>)>,
) -> PlanView {
    let rate = caps_setting(settings, "sample-rate"@, 48000);
    PlanView { name: "migration-mixer-"@ + id, elements: seq![], props: seq![], links: seq![] }.extend(
        only_if(video, video_core(caps_setting(settings, "width"@, 1920), caps_setting(settings, "height"@, 1080))),
    ).extend(only_if(audio, audio_core(rate))).extend(slots_segment(id, slots, audio, video, rate))
}

fn named(key: &str, factory: &str, name: &str, role: Role, label: &str) -> (e: ElementPlan<String>)
    ensures
        e@ == named_el(key@, factory@, name@, role, label@),
{
    ElementPlan { key: owned(key), kind: ElementKind::Factory(owned(factory)), name: Some(owned(name)), role, slot: None, label: owned(label) }
}

fn request_link(
    from: &str,
    missing: &str,
    to: &str,
    failure: &str,
    label: &str,
    mute: bool,
    slot: Option<(String, bool)>,
) -> (l: LinkPlan<String>)
    ensures
        l@ == into_request(
            from@,
            missing@,
            to@,
            failure@,
            label@,
            mute,
            match slot {
                Some((s, v)) => Some((s@, v)),
                None => None,
            },
        ),
{
    LinkPlan {
        from: owned(from),
        from_pad: PadRef::Static { name: owned("src"), missing: owned(missing) },
        to: owned(to),
        to_pad: PadRef::Request { template: owned("sink_%u"), failure: owned(failure) },
        label: owned(label),
        mute,
        slot,
    }
}

fn add_video_core(p: &mut PipelinePlan, width: i32, height: i32)
    ensures
        final(p)@ == old(p)@.extend(video_core(width, height)),
{
    p.add_element(named("video-mixer", "compositor", "compositor", Role::VideoMixer, "compositor to mixer pipeline"));
    p.add_element(named("video-caps", "capsfilter", "mixer-video-capsfilter", Role::VideoFormat, "video capsfilter to mixer pipeline"));
    p.add_element(named("video-out", "appsink", "mixer-video-appsink", Role::VideoOutput, "video appsink to mixer pipeline"));
    p.add_element(named("video-base", "videotestsrc", "mixer-video-base-src", Role::Plain, "video base source to mixer pipeline"));
    p.add_element(named("video-base-queue", "queue", "mixer-video-base-queue", Role::Plain, "video base queue to mixer pipeline"));
    p.add_prop(prop("video-base", "is-live", PropValue::Bool(true), false));
    p.add_prop(prop("video-base", "pattern", PropValue::Nick(owned("black")), false));
    p.add_prop(prop("video-mixer", "background", PropValue::Nick(owned("black")), true));
    p.add_prop(prop("video-caps", "caps", PropValue::VideoCaps { width, height }, true));
    p.add_link(link("video-base", "video-base-queue", "video base source to queue"));
    p.add_link(
        request_link(
            "video-base-queue",
            "Video base queue is missing src pad",
            "video-mixer",
            "Failed to request base video pad on compositor",
            "video base queue to compositor",
            false,
            None,
        ),
    );
    p.add_link(link("video-mixer", "video-caps", "mixer video output chain"));
    p.add_link(link("video-caps", "video-out", "mixer video output chain"));
    let ghost seg = video_core(width, height);
    assert(p@.elements =~= old(p)@.elements + seg.elements);
    assert(p@.props =~= old(p)@.props + seg.props);
    assert(p@.links =~= old(p)@.links + seg.links);
}

fn add_audio_core(p: &mut PipelinePlan, rate: i32)
    ensures
        final(p)@ == old(p)@.extend(audio_core(rate)),
{
    p.add_element(named("audio-mixer", "audiomixer", "audiomixer", Role::AudioMixer, "audiomixer to mixer pipeline"));
    p.add_element(named("audio-convert", "audioconvert", "mixer-audio-convert", Role::Plain, "audio convert to mixer pipeline"));
    p.add_element(named("audio-resample", "audioresample", "mixer-audio-resample", Role::Plain, "audio resample to mixer pipeline"));
    p.add_element(named("audio-caps", "capsfilter", "mixer-audio-capsfilter", Role::AudioFormat, "audio capsfilter to mixer pipeline"));
    p.add_element(named("audio-out", "appsink", "mixer-audio-appsink", Role::AudioOutput, "audio appsink to mixer pipeline"));
    p.add_element(named("audio-base", "audiotestsrc", "mixer-audio-base-src", Role::Plain, "audio base source to mixer pipeline"));
    p.add_element(named("audio-base-queue", "queue", "mixer-audio-base-queue", Role::Plain, "audio base queue to mixer pipeline"));
    p.add_prop(prop("audio-base", "is-live", PropValue::Bool(true), false));
    p.add_prop(prop("audio-base", "volume", PropValue::Double(Number::Float { mantissa: 0, exponent: 0 }), false));
    p.add_prop(prop("audio-caps", "caps", PropValue::AudioCaps { rate }, true));
    p.add_link(link("audio-base", "audio-base-queue", "audio base source to queue"));
    p.add_link(
        request_link(
            "audio-base-queue",
            "Audio base queue is missing src pad",
            "audio-mixer",
            "Failed to request base audio pad on audiomixer",
            "audio base queue to audiomixer",
            true,
            None,
        ),
    );
    p.add_link(link("audio-mixer", "audio-convert", "mixer audio output chain"));
    p.add_link(link("audio-convert", "audio-resample", "mixer audio output chain"));
    p.add_link(link("audio-resample", "audio-caps", "mixer audio output chain"));
    p.add_link(link("audio-caps", "audio-out", "mixer audio output chain"));
    let ghost seg = audio_core(rate);
    assert(p@.elements =~= old(p)@.elements + seg.elements);
    assert(p@.props =~= old(p)@.props + seg.props);
    assert(p@.links =~= old(p)@.links + seg.links);
}

fn slot_text(text: &str, slot: &String, rest: &str) -> (r: String)
    ensures
        r@ == about_slot(text@, slot@, rest@),
{
    concat3(text, slot.as_str(), rest)
}

fn add_slot_video(p: &mut PipelinePlan, id: &String, slot: &String)
    ensures
        final(p)@ == old(p)@.extend(slot_video(id@, slot@)),
{
    let src = concat2("slot-video-src-", slot.as_str());
    let queue = concat2("slot-video-queue-", slot.as_str());
    p.add_element(
        ElementPlan {
            key: owned(src.as_str()),
            kind: ElementKind::Factory(owned("appsrc")),
            name: Some(concat2(concat3("mixer-video-appsrc-", id.as_str(), "-").as_str(), slot.as_str())),
            role: Role::SlotVideoInput,
            slot: Some(owned(slot.as_str())),
            label: slot_text("video slot appsrc `", slot, "`"),
        },
    );
    p.add_element(
        ElementPlan {
            key: owned(queue.as_str()),
            kind: ElementKind::Factory(owned("queue")),
            name: Some(concat2("mixer-slot-video-queue-", slot.as_str())),
            role: Role::Plain,
            slot: None,
            label: slot_text("video slot queue `", slot, "`"),
        },
    );
    add_appsrc_props(p, src.as_str());
    p.add_link(
        LinkPlan {
            from: owned(src.as_str()),
            from_pad: PadRef::Any,
            to: owned(queue.as_str()),
            to_pad: PadRef::Any,
            label: slot_text("video slot appsrc `", slot, "`"),
            mute: false,
            slot: None,
        },
    );
    p.add_link(
        LinkPlan {
            from: owned(queue.as_str()),
            from_pad: PadRef::Static { name: owned("src"), missing: slot_text("Video queue for slot `", slot, "` has no src pad") },
            to: owned("video-mixer"),
            to_pad: PadRef::Request {
                template: owned("sink_%u"),
                failure: slot_text("Failed to request video mixer pad for slot `", slot, "`"),
            },
            label: slot_text("video slot `", slot, "` to mixer"),
            mute: false,
            slot: Some((owned(slot.as_str()), true)),
        },
    );
    let ghost seg = slot_video(id@, slot@);
    assert(p@.elements =~= old(p)@.elements + seg.elements);
    assert(p@.props =~= old(p)@.props + seg.props);
    assert(p@.links =~= old(p)@.links + seg.links);
}

fn add_slot_audio(p: &mut PipelinePlan, id: &String, slot: &String, rate: i32)
    ensures
        final(p)@ == old(p)@.extend(slot_audio(id@, slot@, rate)),
{
    let src = concat2("slot-audio-src-", slot.as_str());
    let queue = concat2("slot-audio-queue-", slot.as_str());
    let conv = concat2("slot-audio-convert-", slot.as_str());
    let resample = concat2("slot-audio-resample-", slot.as_str());
    let caps = concat2("slot-audio-caps-", slot.as_str());
    p.add_element(
        ElementPlan {
            key: owned(src.as_str()),
            kind: ElementKind::Factory(owned("appsrc")),
            name: Some(concat2(concat3("mixer-audio-appsrc-", id.as_str(), "-").as_str(), slot.as_str())),
            role: Role::SlotAudioInput,
            slot: Some(owned(slot.as_str())),
            label: slot_text("audio slot appsrc `", slot, "`"),
        },
    );
    p.add_element(
        ElementPlan {
            key: owned(queue.as_str()),
            kind: ElementKind::Factory(owned("queue")),
            name: Some(concat2("mixer-slot-audio-queue-", slot.as_str())),
            role: Role::Plain,
            slot: None,
            label: slot_text("audio slot queue `", slot, "`"),
        },
    );
    p.add_element(
        ElementPlan {
            key: owned(conv.as_str()),
            kind: ElementKind::Factory(owned("audioconvert")),
            name: Some(concat2("mixer-slot-audio-conv-", slot.as_str())),
            role: Role::Plain,
            slot: None,
            label: slot_text("audio slot convert `", slot, "`"),
        },
    );
    p.add_element(
        ElementPlan {
            key: owned(resample.as_str()),
            kind: ElementKind::Factory(owned("audioresample")),
            name: Some(concat2("mixer-slot-audio-resample-", slot.as_str())),
            role: Role::Plain,
            slot: None,
            label: slot_text("audio slot resample `", slot, "`"),
        },
    );
    p.add_element(
        ElementPlan {
            key: owned(caps.as_str()),
            kind: ElementKind::Factory(owned("capsfilter")),
            name: Some(concat2("mixer-slot-audio-caps-", slot.as_str())),
            role: Role::Plain,
            slot: None,
            label: slot_text("audio slot capsfilter `", slot, "`"),
        },
    );
    add_appsrc_props(p, src.as_str());
    p.add_prop(prop(caps.as_str(), "caps", PropValue::AudioCaps { rate }, true));
    let ghost chain = about_slot("audio slot `"@, slot@, "` processing chain"@);
    p.add_link(
        LinkPlan {
            from: owned(src.as_str()),
            from_pad: PadRef::Any,
            to: owned(conv.as_str()),
            to_pad: PadRef::Any,
            label: slot_text("audio slot `", slot, "` processing chain"),
            mute: false,
            slot: None,
        },
    );
    p.add_link(
        LinkPlan {
            from: owned(conv.as_str()),
            from_pad: PadRef::Any,
            to: owned(resample.as_str()),
            to_pad: PadRef::Any,
            label: slot_text("audio slot `", slot, "` processing chain"),
            mute: false,
            slot: None,
        },
    );
    p.add_link(
        LinkPlan {
            from: owned(resample.as_str()),
            from_pad: PadRef::Any,
            to: owned(caps.as_str()),
            to_pad: PadRef::Any,
            label: slot_text("audio slot `", slot, "` processing chain"),
            mute: false,
            slot: None,
        },
    );
    p.add_link(
        LinkPlan {
            from: owned(caps.as_str()),
            from_pad: PadRef::Any,
            to: owned(queue.as_str()),
            to_pad: PadRef::Any,
            label: slot_text("audio slot `", slot, "` processing chain"),
            mute: false,
            slot: None,
        },
    );
    p.add_link(
        LinkPlan {
            from: owned(queue.as_str()),
            from_pad: PadRef::Static { name: owned("src"), missing: slot_text("Audio queue for slot `", slot, "` has no src pad") },
            to: owned("audio-mixer"),
            to_pad: PadRef::Request {
                template: owned("sink_%u"),
                failure: slot_text("Failed to request audio mixer pad for slot `", slot, "`"),
            },
            label: slot_text("audio slot `", slot, "` to mixer"),
            mute: false,
            slot: Some((owned(slot.as_str()), false)),
        },
    );
    let ghost seg = slot_audio(id@, slot@, rate);
    assert(p@.elements =~= old(p)@.elements + seg.elements);
    assert(p@.props =~= old(p)@.props + seg.props);
    assert(p@.links =~= old(p)@.links + seg.links);
}

proof fn lemma_video_core_resolves(p: PlanView, width: i32, height: i32)
    requires
        resolves(p),
    ensures
        resolves(p.extend(video_core(width, height))),
        declares(p.extend(video_core(width, height)), "video-mixer"@),
{
    let seg = video_core(width, height);
    let q = p.extend(seg);
    lemma_segment_declares(p, seg);
    assert(declares(q, seg.elements[0].key));
    assert(declares(q, seg.elements[1].key));
    assert(declares(q, seg.elements[2].key));
    assert(declares(q, seg.elements[3].key));
    assert(declares(q, seg.elements[4].key));
    assert forall|j: int| 0 <= j < seg.links.len() implies declares(q, #[trigger] seg.links[j].from) && declares(q, seg.links[j].to) by {
        if j == 0 {} else if j == 1 {} else if j == 2 {} else {}
    }
    assert forall|j: int| 0 <= j < seg.props.len() implies declares(q, #[trigger] seg.props[j].target) by {
        if j == 0 {} else if j == 1 {} else if j == 2 {} else {}
    }
    lemma_extend_resolves(p, seg);
}

proof fn lemma_audio_core_resolves(p: PlanView, rate: i32)
    requires
        resolves(p),
    ensures
        resolves(p.extend(audio_core(rate))),
        declares(p.extend(audio_core(rate)), "audio-mixer"@),
{
    let seg = audio_core(rate);
    let q = p.extend(seg);
    lemma_segment_declares(p, seg);
    assert(declares(q, seg.elements[0].key));
    assert(declares(q, seg.elements[1].key));
    assert(declares(q, seg.elements[2].key));
    assert(declares(q, seg.elements[3].key));
    assert(declares(q, seg.elements[4].key));
    assert(declares(q, seg.elements[5].key));
    assert(declares(q, seg.elements[6].key));
    assert forall|j: int| 0 <= j < seg.links.len() implies declares(q, #[trigger] seg.links[j].from) && declares(q, seg.links[j].to) by {
        if j == 0 {} else if j == 1 {} else if j == 2 {} else if j == 3 {} else if j == 4 {} else {}
    }
    assert forall|j: int| 0 <= j < seg.props.len() implies declares(q, #[trigger] seg.props[j].target) by {
        if j == 0 {} else if j == 1 {} else {}
    }
    lemma_extend_resolves(p, seg);
}

proof fn lemma_slot_video_resolves(p: PlanView, id: Seq<char>, slot: Seq<char>)
    requires
        resolves(p),
        declares(p, "video-mixer"@),
    ensures
        resolves(p.extend(slot_video(id, slot))),
{
    let seg = slot_video(id, slot);
    let q = p.extend(seg);
    lemma_segment_declares(p, seg);
    lemma_declares_extend(p, seg, "video-mixer"@);
    assert(declares(q, seg.elements[0].key));
    assert(declares(q, seg.elements[1].key));
    assert forall|j: int| 0 <= j < seg.links.len() implies declares(q, #[trigger] seg.links[j].from) && declares(q, seg.links[j].to) by {
        if j == 0 {} else {}
    }
    assert forall|j: int| 0 <= j < seg.props.len() implies declares(q, #[trigger] seg.props[j].target) by {
        if j == 0 {} else if j == 1 {} else if j == 2 {} else {}
    }
    lemma_extend_resolves(p, seg);
}

proof fn lemma_slot_audio_resolves(p: PlanView, id: Seq<char>, slot: Seq<char>, rate: i32)
    requires
        resolves(p),
        declares(p, "audio-mixer"@),
    ensures
        resolves(p.extend(slot_audio(id, slot, rate))),
{
    let seg = slot_audio(id, slot, rate);
    let q = p.extend(seg);
    lemma_segment_declares(p, seg);
    lemma_declares_extend(p, seg, "audio-mixer"@);
    assert(declares(q, seg.elements[0].key));
    assert(declares(q, seg.elements[1].key));
    assert(declares(q, seg.elements[2].key));
    assert(declares(q, seg.elements[3].key));
    assert(declares(q, seg.elements[4].key));
    assert forall|j: int| 0 <= j < seg.links.len() implies declares(q, #[trigger] seg.links[j].from) && declares(q, seg.links[j].to) by {
        if j == 0 {} else if j == 1 {} else if j == 2 {} else if j == 3 {} else {}
    }
    assert forall|j: int| 0 <= j < seg.props.len() implies declares(q, #[trigger] seg.props[j].target) by {
        if j == 0 {} else if j == 1 {} else if j == 2 {} else if j == 3 {} else {}
    }
    lemma_extend_resolves(p, seg);
}

proof fn lemma_slots_resolve(
    p: PlanView,
    id: Seq<char>,
    slots: Seq<(Seq<char>, Map<Seq<char>, JsonValue>)>,
    audio: bool,
    video: bool,
    rate: i32,
)
    requires
        resolves(p),
        video ==> declares(p, "video-mixer"@),
        audio ==> declares(p, "audio-mixer"@),
    ensures
        resolves(p.extend(slots_segment(id, slots, audio, video, rate))),
        video ==> declares(p.extend(slots_segment(id, slots, audio, video, rate)), "video-mixer"@),
        audio ==> declares(p.extend(slots_segment(id, slots, audio, video, rate)), "audio-mixer"@),
    decreases slots.len(),
{
    if slots.len() == 0 {
        lemma_extend_nothing(p);
    } else {
        let prev = slots_segment(id, slots.drop_last(), audio, video, rate);
        lemma_slots_resolve(p, id, slots.drop_last(), audio, video, rate);
        let a = p.extend(prev);
        let slot = slots.last();
        let vseg = only_if(video && has_key_with_prefix(slot.1, "video::"@), slot_video(id, slot.0));
        let aseg = only_if(audio && has_key_with_prefix(slot.1, "audio::"@), slot_audio(id, slot.0, rate));
        if video && has_key_with_prefix(slot.1, "video::"@) {
            lemma_slot_video_resolves(a, id, slot.0);
        } else {
            lemma_extend_nothing(a);
        }
        let b = a.extend(vseg);
        if video {
            lemma_declares_extend(a, vseg, "video-mixer"@);
        }
        if audio {
            lemma_declares_extend(a, vseg, "audio-mixer"@);
        }
        if audio && has_key_with_prefix(slot.1, "audio::"@) {
            lemma_slot_audio_resolves(b, id, slot.0, rate);
        } else {
            lemma_extend_nothing(b);
        }
        if video {
            lemma_declares_extend(b, aseg, "video-mixer"@);
        }
        if audio {
            lemma_declares_extend(b, aseg, "audio-mixer"@);
        }
        lemma_extend_joined(a, vseg, aseg);
        lemma_extend_joined(p, prev, joined(vseg, aseg));
    }
}

/// The plan of every mixer names only its own elements: each link joins
/// elements of the plan and each property is set on one of them.
pub proof fn lemma_mixer_plan_resolves(
    id: Seq<char>,
    audio: bool,
    video: bool,
    settings: Map<Seq<char>, JsonValue>,
    slots: Seq<(Seq<char>, Map<Seq<char>, JsonValue>)>,
)
    ensures
        resolves(mixer_plan(id, audio, video, settings, slots)),
{
    let rate = caps_setting(settings, "sample-rate"@, 48000);
    let start = PlanView { name: "migration-mixer-"@ + id, elements: seq![], props: seq![], links: seq![] };
    assert(resolves(start));
    let vseg = only_if(video, video_core(caps_setting(settings, "width"@, 1920), caps_setting(settings, "height"@, 1080)));
    let a = start.extend(vseg);
    if video {
        lemma_video_core_resolves(start, caps_setting(settings, "width"@, 1920), caps_setting(settings, "height"@, 1080));
    } else {
        lemma_extend_nothing(start);
    }
    let aseg = only_if(audio, audio_core(rate));
    let b = a.extend(aseg);
    if audio {
        lemma_audio_core_resolves(a, rate);
    } else {
        lemma_extend_nothing(a);
    }
    if video {
        lemma_declares_extend(a, aseg, "video-mixer"@);
    }
    lemma_slots_resolve(b, id, slots, audio, video, rate);
}

impl MixerNode {
    /// The output width: the `width` setting cut to 32 bits, else 1920.
    pub fn current_width(&self) -> (w: i32)
        ensures
            w == caps_setting(self.settings@, "width"@, 1920),
    {
        let v = int_setting(&self.settings, "width", 1920);
        #[verifier::truncate]
        (v as i32)
    }

    /// The output height: the `height` setting cut to 32 bits, else 1080.
    pub fn current_height(&self) -> (h: i32)
        ensures
            h == caps_setting(self.settings@, "height"@, 1080),
    {
        let v = int_setting(&self.settings, "height", 1080);
        #[verifier::truncate]
        (v as i32)
    }

    /// The output sample rate: the `sample-rate` setting cut to 32 bits, else 48000.
    pub fn current_sample_rate(&self) -> (r: i32)
        ensures
            r == caps_setting(self.settings@, "sample-rate"@, 48000),
    {
        let v = int_setting(&self.settings, "sample-rate", 48000);
        #[verifier::truncate]
        (v as i32)
    }

    /// The plan of this mixer's live pipeline: the video mixing branch when
    /// video is enabled, the audio one when audio is, then the inputs of the
    /// slots, in their stored order.
    pub fn live_plan(&self) -> (p: PipelinePlan)
        ensures
            p@ == mixer_plan(self.id@, self.audio_enabled, self.video_enabled, self.settings@, slot_entries(self.slot_settings)),
            resolves(p@),
    {
        proof {
            lemma_mixer_plan_resolves(
                self.id@,
                self.audio_enabled,
                self.video_enabled,
                self.settings@,
                slot_entries(self.slot_settings),
            );
        }
        let id = &self.id;
        let rate = self.current_sample_rate();
        let mut p = PipelinePlan::new(concat2("migration-mixer-", id.as_str()));
        if self.video_enabled {
            let w = self.current_width();
            let h = self.current_height();
            add_video_core(&mut p, w, h);
        } else {
            proof { lemma_extend_nothing(p@); }
        }
        if self.audio_enabled {
            add_audio_core(&mut p, rate);
        } else {
            proof { lemma_extend_nothing(p@); }
        }
        let ghost base = p@;
        let entries = self.slot_settings.entries();
        let ghost all = slot_entries(self.slot_settings);
        let mut i: usize = 0;
        proof {
            lemma_extend_nothing(base);
            assert(all.take(0).len() == 0);
        }
        while i < entries.len()
            invariant
                i <= entries@.len(),
                entries@ == self.slot_settings.entries_seq(),
                all == slot_entries(self.slot_settings),
                all.len() == entries@.len(),
                p@ == base.extend(slots_segment(id@, all.take(i as int), self.audio_enabled, self.video_enabled, rate)),
            decreases entries@.len() - i,
        {
            let slot = &entries[i].0;
            let settings = &entries[i].1;
            let ghost before = p@;
            let ghost entry = all[i as int];
            assert(entry == (slot@, settings@));
            let has_video = self.video_enabled && has_prefixed_key(settings, "video::");
            let has_audio = self.audio_enabled && has_prefixed_key(settings, "audio::");
            if has_video {
                add_slot_video(&mut p, id, slot);
            } else {
                proof { lemma_extend_nothing(p@); }
            }
            let ghost mid = p@;
            if has_audio {
                add_slot_audio(&mut p, id, slot, rate);
            } else {
                proof { lemma_extend_nothing(p@); }
            }
            proof {
                let seg = slot_segment(id@, entry, self.audio_enabled, self.video_enabled, rate);
                lemma_extend_joined(
                    before,
                    only_if(has_video, slot_video(id@, slot@)),
                    only_if(has_audio, slot_audio(id@, slot@, rate)),
                );
                assert(p@ == before.extend(seg));
                let prev = slots_segment(id@, all.take(i as int), self.audio_enabled, self.video_enabled, rate);
                lemma_extend_joined(base, prev, seg);
                assert(all.take(i + 1).drop_last() =~= all.take(i as int));
                assert(all.take(i + 1).last() == entry);
            }
            i = i + 1;
        }
        proof {
            assert(all.take(entries@.len() as int) =~= all);
        }
        p
    }
}

} // verus!
