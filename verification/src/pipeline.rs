use vstd::prelude::*;
use crate::text::owned;
use crate::value::Number;

verus! {

// A plan of a live media pipeline: the elements to create, in order, the
// properties to set on them and the links to make between them. Nodes decide
// their plans here; the host builds the pipeline from a plan. Each type is
// generic over its strings: `String` in a plan, `Seq<char>` in its view.

/// A value a plan sets a property to.
#[derive(Debug, PartialEq, Eq)]
pub enum PropValue<S> {
    Bool(bool),
    /// A 32-bit signed integer property.
    Int(i32),
    /// A 64-bit unsigned integer property.
    UInt64(u64),
    /// A string property.
    Text(S),
    /// An enum or flags property, by the nick of its value.
    Nick(S),
    /// A floating-point property, by the number's value.
    Double(Number),
    /// Raw video caps of this size at 30 frames per second.
    VideoCaps { width: i32, height: i32 },
    /// Raw two-channel audio caps at this rate.
    AudioCaps { rate: i32 },
}

/// How an element is made.
#[derive(Debug, PartialEq, Eq)]
pub enum ElementKind<S> {
    /// From the element factory of this name.
    Factory(S),
    /// The first local video sink that the platform offers.
    LocalVideoSink,
    /// The first local audio sink that the platform offers.
    LocalAudioSink,
    /// The H.264 encoder that the platform offers, with what it needs ahead of it.
    VideoEncoder,
    /// From the factory `first` under the name `first_name`, or failing
    /// that from `second` under `second_name`.
    Either { first: S, first_name: S, second: S, second_name: S },
}

/// What the node keeps an element for, once the pipeline stands.
#[derive(Clone, Copy, Debug, PartialEq, Eq, Structural)]
pub enum Role {
    Plain,
    /// The source that reads the node's media.
    Source,
    /// The app source that takes the node's video input.
    VideoInput,
    /// The app source that takes the node's audio input.
    AudioInput,
    /// The app sink that gives the node's video output.
    VideoOutput,
    /// The app sink that gives the node's audio output.
    AudioOutput,
    VideoMixer,
    AudioMixer,
    /// The caps filter that fixes the video output's format.
    VideoFormat,
    /// The caps filter that fixes the audio output's format.
    AudioFormat,
    /// The app source of a mixer slot's video.
    SlotVideoInput,
    /// The app source of a mixer slot's audio.
    SlotAudioInput,
}

/// An element of a plan: the key by which the plan refers to it, how it is
/// made, its name (else one is generated), its role, and what it is called
/// in the message of a failure to add it (`Failed to add <label>`).
#[derive(Debug, PartialEq, Eq)]
pub struct ElementPlan<S> {
    pub key: S,
    pub kind: ElementKind<S>,
    pub name: Option<S>,
    pub role: Role,
    /// The slot, for a slot's app source.
    pub slot: Option<S>,
    pub label: S,
}

/// A property to set on the element of key `target`; when `if_present`, only
/// where the element has such a property.
#[derive(Debug, PartialEq, Eq)]
pub struct PropPlan<S> {
    pub target: S,
    pub name: S,
    pub value: PropValue<S>,
    pub if_present: bool,
}

/// Which pad of an element a link uses.
#[derive(Debug, PartialEq, Eq)]
pub enum PadRef<S> {
    /// Whichever pad fits.
    Any,
    /// The pad of this name.
    Named(S),
    /// The always-present pad of this name; `missing` is the failure when it is not there.
    Static { name: S, missing: S },
    /// A new pad from this template; `failure` is the failure when none is given.
    Request { template: S, failure: S },
}

/// A link from an element to another; `label` names it in the message of a
/// failure (`Failed to link <label>`). A requested pad on the receiving side
/// is muted when `mute` (where it has a volume), and carries the properties of
/// a mixer slot's medium when `slot` names the slot.
#[derive(Debug, PartialEq, Eq)]
pub struct LinkPlan<S> {
    pub from: S,
    pub from_pad: PadRef<S>,
    pub to: S,
    pub to_pad: PadRef<S>,
    pub label: S,
    pub mute: bool,
    pub slot: Option<(S, bool)>,
}

impl<S: View<V = Seq<char>>> View for PropValue<S> {
    type V = PropValue<Seq<char>>;

    open spec fn view(&self) -> PropValue<Seq<char>> {
        match self {
            PropValue::Bool(b) => PropValue::Bool(*b),
            PropValue::Int(i) => PropValue::Int(*i),
            PropValue::UInt64(u) => PropValue::UInt64(*u),
            PropValue::Text(s) => PropValue::Text(s@),
            PropValue::Nick(s) => PropValue::Nick(s@),
            PropValue::Double(n) => PropValue::Double(*n),
            PropValue::VideoCaps { width, height } => PropValue::VideoCaps { width: *width, height: *height },
            PropValue::AudioCaps { rate } => PropValue::AudioCaps { rate: *rate },
        }
    }
}

impl<S: View<V = Seq<char>>> View for ElementKind<S> {
    type V = ElementKind<Seq<char>>;

    open spec fn view(&self) -> ElementKind<Seq<char>> {
        match self {
            ElementKind::Factory(s) => ElementKind::Factory(s@),
            ElementKind::LocalVideoSink => ElementKind::LocalVideoSink,
            ElementKind::LocalAudioSink => ElementKind::LocalAudioSink,
            ElementKind::VideoEncoder => ElementKind::VideoEncoder,
            ElementKind::Either { first, first_name, second, second_name } => ElementKind::Either {
                first: first@,
                first_name: first_name@,
                second: second@,
                second_name: second_name@,
            },
        }
    }
}

pub open spec fn opt_view<S: View<V = Seq<char>>>(o: Option<S>) -> Option<Seq<char>> {
    match o {
        Some(s) => Some(s@),
        None => None,
    }
}

impl<S: View<V = Seq<char>>> View for ElementPlan<S> {
    type V = ElementPlan<Seq<char>>;

    open spec fn view(&self) -> ElementPlan<Seq<char>> {
        ElementPlan {
            key: self.key@,
            kind: self.kind@,
            name: opt_view(self.name),
            role: self.role,
            slot: opt_view(self.slot),
            label: self.label@,
        }
    }
}

impl<S: View<V = Seq<char>>> View for PropPlan<S> {
    type V = PropPlan<Seq<char>>;

    open spec fn view(&self) -> PropPlan<Seq<char>> {
        PropPlan { target: self.target@, name: self.name@, value: self.value@, if_present: self.if_present }
    }
}

impl<S: View<V = Seq<char>>> View for PadRef<S> {
    type V = PadRef<Seq<char>>;

    open spec fn view(&self) -> PadRef<Seq<char>> {
        match self {
            PadRef::Any => PadRef::Any,
            PadRef::Named(s) => PadRef::Named(s@),
            PadRef::Static { name, missing } => PadRef::Static { name: name@, missing: missing@ },
            PadRef::Request { template, failure } => PadRef::Request { template: template@, failure: failure@ },
        }
    }
}

impl<S: View<V = Seq<char>>> View for LinkPlan<S> {
    type V = LinkPlan<Seq<char>>;

    open spec fn view(&self) -> LinkPlan<Seq<char>> {
        LinkPlan {
            from: self.from@,
            from_pad: self.from_pad@,
            to: self.to@,
            to_pad: self.to_pad@,
            label: self.label@,
            mute: self.mute,
            slot: match self.slot {
                Some((s, v)) => Some((s@, v)),
                None => None,
            },
        }
    }
}

/// What the host is to do with a node's live pipeline at a refresh.
#[derive(Clone, Copy, Debug, PartialEq, Eq, Structural)]
pub enum LiveStep {
    /// Tear the live pipeline down, if there is one.
    Teardown,
    /// Have a live pipeline (building it from the node's plan first, in place
    /// of any that stands, when `build`) and set it playing, or else paused.
    Run { build: bool, playing: bool },
}

/// A part of a plan: elements, properties and links to add to it.
pub struct Segment {
    pub elements: Seq<ElementPlan<Seq<char>>>,
    pub props: Seq<PropPlan<Seq<char>>>,
    pub links: Seq<LinkPlan<Seq<char>>>,
}

/// What a plan stands for: the pipeline's name, and its parts in order.
pub struct PlanView {
    pub name: Seq<char>,
    pub elements: Seq<ElementPlan<Seq<char>>>,
    pub props: Seq<PropPlan<Seq<char>>>,
    pub links: Seq<LinkPlan<Seq<char>>>,
}

impl PlanView {
    /// This plan with `seg` added after what it has.
    pub open spec fn extend(self, seg: Segment) -> PlanView {
        PlanView {
            name: self.name,
            elements: self.elements + seg.elements,
            props: self.props + seg.props,
            links: self.links + seg.links,
        }
    }
}

/// Plan `p` has an element that plays `role`.
pub open spec fn has_role(p: PlanView, role: Role) -> bool {
    exists|i: int| 0 <= i < p.elements.len() && #[trigger] p.elements[i].role == role
}

/// The plan has an element of key `key`.
pub open spec fn declares(p: PlanView, key: Seq<char>) -> bool {
    exists|i: int| 0 <= i < p.elements.len() && #[trigger] p.elements[i].key == key
}

/// Every link and every property of the plan names elements of the plan.
pub open spec fn resolves(p: PlanView) -> bool {
    &&& forall|j: int|
        0 <= j < p.links.len() ==> declares(p, #[trigger] p.links[j].from) && declares(p, p.links[j].to)
    &&& forall|j: int| 0 <= j < p.props.len() ==> declares(p, #[trigger] p.props[j].target)
}

/// An element a plan has stays in it when the plan is extended.
pub proof fn lemma_declares_extend(p: PlanView, seg: Segment, key: Seq<char>)
    requires
        declares(p, key),
    ensures
        declares(p.extend(seg), key),
{
    let i = choose|i: int| 0 <= i < p.elements.len() && #[trigger] p.elements[i].key == key;
    assert(p.extend(seg).elements[i] == p.elements[i]);
}

/// Each element of a segment is in the plan it extends.
pub proof fn lemma_segment_declares(p: PlanView, seg: Segment)
    ensures
        forall|k: int| 0 <= k < seg.elements.len() ==> declares(p.extend(seg), #[trigger] seg.elements[k].key),
{
    assert forall|k: int| 0 <= k < seg.elements.len() implies declares(p.extend(seg), #[trigger] seg.elements[k].key) by {
        assert(p.extend(seg).elements[p.elements.len() + k] == seg.elements[k]);
    }
}

/// A plan that resolves still does once extended by a segment whose links
/// and properties name elements of the extended plan.
pub proof fn lemma_extend_resolves(p: PlanView, seg: Segment)
    requires
        resolves(p),
        forall|j: int|
            0 <= j < seg.links.len() ==> declares(p.extend(seg), #[trigger] seg.links[j].from) && declares(
                p.extend(seg),
                seg.links[j].to,
            ),
        forall|j: int| 0 <= j < seg.props.len() ==> declares(p.extend(seg), #[trigger] seg.props[j].target),
    ensures
        resolves(p.extend(seg)),
{
    let q = p.extend(seg);
    assert forall|j: int| 0 <= j < q.links.len() implies declares(q, #[trigger] q.links[j].from) && declares(q, q.links[j].to) by {
        if j < p.links.len() {
            assert(q.links[j] == p.links[j]);
            assert(declares(p, p.links[j].from) && declares(p, p.links[j].to));
            lemma_declares_extend(p, seg, p.links[j].from);
            lemma_declares_extend(p, seg, p.links[j].to);
        } else {
            let k = j - p.links.len();
            assert(q.links[j] == seg.links[k]);
            assert(declares(q, seg.links[k].from) && declares(q, seg.links[k].to));
        }
    }
    assert forall|j: int| 0 <= j < q.props.len() implies declares(q, #[trigger] q.props[j].target) by {
        if j < p.props.len() {
            assert(q.props[j] == p.props[j]);
            assert(declares(p, p.props[j].target));
            lemma_declares_extend(p, seg, p.props[j].target);
        } else {
            let k = j - p.props.len();
            assert(q.props[j] == seg.props[k]);
            assert(declares(q, seg.props[k].target));
        }
    }
}

/// The segment with nothing in it.
pub open spec fn nothing() -> Segment {
    Segment { elements: seq![], props: seq![], links: seq![] }
}

/// `seg` when `cond`, else nothing.
pub open spec fn only_if(cond: bool, seg: Segment) -> Segment {
    if cond {
        seg
    } else {
        nothing()
    }
}

pub open spec fn views<T: View>(s: Seq<T>) -> Seq<T::V> {
    Seq::new(s.len(), |i: int| s[i]@)
}

/// A plan of a live media pipeline.
#[derive(Debug)]
pub struct PipelinePlan {
    pub name: String,
    pub elements: Vec<ElementPlan<String>>,
    pub props: Vec<PropPlan<String>>,
    pub links: Vec<LinkPlan<String>>,
}

impl View for PipelinePlan {
    type V = PlanView;

    open spec fn view(&self) -> PlanView {
        PlanView {
            name: self.name@,
            elements: views(self.elements@),
            props: views(self.props@),
            links: views(self.links@),
        }
    }
}

impl PipelinePlan {
    /// A plan of a pipeline of this name with nothing in it yet.
    pub fn new(name: String) -> (p: Self)
        ensures
            p@ == (PlanView { name: name@, elements: seq![], props: seq![], links: seq![] }),
    {
        let p = PipelinePlan { name, elements: Vec::new(), props: Vec::new(), links: Vec::new() };
        assert(p@.elements =~= Seq::<ElementPlan<Seq<char>>>::empty());
        assert(p@.props =~= Seq::<PropPlan<Seq<char>>>::empty());
        assert(p@.links =~= Seq::<LinkPlan<Seq<char>>>::empty());
        p
    }

    /// Adds an element.
    pub fn add_element(&mut self, e: ElementPlan<String>)
        ensures
            final(self)@ == old(self)@.extend(Segment { elements: seq![e@], props: seq![], links: seq![] }),
    {
        self.elements.push(e);
        assert(self@.elements =~= old(self)@.elements + seq![e@]);
        assert(self@.props =~= old(self)@.props + Seq::<PropPlan<Seq<char>>>::empty());
        assert(self@.links =~= old(self)@.links + Seq::<LinkPlan<Seq<char>>>::empty());
    }

    /// Adds a property setting.
    pub fn add_prop(&mut self, p: PropPlan<String>)
        ensures
            final(self)@ == old(self)@.extend(Segment { elements: seq![], props: seq![p@], links: seq![] }),
    {
        self.props.push(p);
        assert(self@.elements =~= old(self)@.elements + Seq::<ElementPlan<Seq<char>>>::empty());
        assert(self@.props =~= old(self)@.props + seq![p@]);
        assert(self@.links =~= old(self)@.links + Seq::<LinkPlan<Seq<char>>>::empty());
    }

    /// Adds a link.
    pub fn add_link(&mut self, l: LinkPlan<String>)
        ensures
            final(self)@ == old(self)@.extend(Segment { elements: seq![], props: seq![], links: seq![l@] }),
    {
        self.links.push(l);
        assert(self@.elements =~= old(self)@.elements + Seq::<ElementPlan<Seq<char>>>::empty());
        assert(self@.props =~= old(self)@.props + Seq::<PropPlan<Seq<char>>>::empty());
        assert(self@.links =~= old(self)@.links + seq![l@]);
    }
}

/// An element made from a factory, under a generated name.
pub fn plain(key: &str, factory: &str, label: &str) -> (e: ElementPlan<String>)
    ensures
        e@ == (ElementPlan {
            key: key@,
            kind: ElementKind::Factory(factory@),
            name: None,
            role: Role::Plain,
            slot: None,
            label: label@,
        }),
{
    ElementPlan {
        key: owned(key),
        kind: ElementKind::Factory(owned(factory)),
        name: None,
        role: Role::Plain,
        slot: None,
        label: owned(label),
    }
}

/// A link between the pads that fit.
pub fn link(from: &str, to: &str, label: &str) -> (l: LinkPlan<String>)
    ensures
        l@ == (LinkPlan {
            from: from@,
            from_pad: PadRef::Any,
            to: to@,
            to_pad: PadRef::Any,
            label: label@,
            mute: false,
            slot: None,
        }),
{
    LinkPlan {
        from: owned(from),
        from_pad: PadRef::Any,
        to: owned(to),
        to_pad: PadRef::Any,
        label: owned(label),
        mute: false,
        slot: None,
    }
}

/// A property setting.
pub fn prop(target: &str, name: &str, value: PropValue<String>, if_present: bool) -> (p: PropPlan<String>)
    ensures
        p@ == (PropPlan { target: target@, name: name@, value: value@, if_present }),
{
    PropPlan { target: owned(target), name: owned(name), value, if_present }
}

/// The settings every app source gets: live, timestamped, in time format and
/// never blocking.
pub open spec fn appsrc_props(key: Seq<char>) -> Seq<PropPlan<Seq<char>>> {
    seq![
        prop_of(key, "is-live"@, PropValue::Bool(true), false),
        prop_of(key, "do-timestamp"@, PropValue::Bool(true), false),
        prop_of(key, "format"@, PropValue::Nick("time"@), false),
        prop_of(key, "block"@, PropValue::Bool(false), false),
    ]
}

/// Adds the settings of an app source.
pub fn add_appsrc_props(p: &mut PipelinePlan, key: &str)
    ensures
        final(p)@ == old(p)@.extend(Segment { elements: seq![], props: appsrc_props(key@), links: seq![] }),
{
    p.add_prop(prop(key, "is-live", PropValue::Bool(true), false));
    p.add_prop(prop(key, "do-timestamp", PropValue::Bool(true), false));
    p.add_prop(prop(key, "format", PropValue::Nick(owned("time")), false));
    p.add_prop(prop(key, "block", PropValue::Bool(false), false));
    assert(final(p)@.elements =~= old(p)@.elements + Seq::<ElementPlan<Seq<char>>>::empty());
    assert(final(p)@.props =~= old(p)@.props + appsrc_props(key@));
    assert(final(p)@.links =~= old(p)@.links + Seq::<LinkPlan<Seq<char>>>::empty());
}

/// `a` followed by `b`.
pub open spec fn joined(a: Segment, b: Segment) -> Segment {
    Segment { elements: a.elements + b.elements, props: a.props + b.props, links: a.links + b.links }
}

/// Extending by two segments one after the other is extending by the two joined.
pub proof fn lemma_extend_joined(p: PlanView, a: Segment, b: Segment)
    ensures
        p.extend(a).extend(b) == p.extend(joined(a, b)),
{
    assert(p.extend(a).extend(b).elements =~= p.extend(joined(a, b)).elements);
    assert(p.extend(a).extend(b).props =~= p.extend(joined(a, b)).props);
    assert(p.extend(a).extend(b).links =~= p.extend(joined(a, b)).links);
}

/// Extending by nothing keeps the plan.
pub proof fn lemma_extend_nothing(p: PlanView)
    ensures
        p.extend(nothing()) == p,
{
    assert(p.extend(nothing()).elements =~= p.elements);
    assert(p.extend(nothing()).props =~= p.props);
    assert(p.extend(nothing()).links =~= p.links);
}

/// The spec of `plain`.
pub open spec fn plain_el(key: Seq<char>, factory: Seq<char>, label: Seq<char>) -> ElementPlan<Seq<char>> {
    ElementPlan { key, kind: ElementKind::Factory(factory), name: None, role: Role::Plain, slot: None, label }
}

/// The spec of `link`.
pub open spec fn link_of(from: Seq<char>, to: Seq<char>, label: Seq<char>) -> LinkPlan<Seq<char>> {
    LinkPlan { from, from_pad: PadRef::Any, to, to_pad: PadRef::Any, label, mute: false, slot: None }
}

/// The spec of `prop`.
pub open spec fn prop_of(target: Seq<char>, name: Seq<char>, value: PropValue<Seq<char>>, if_present: bool) -> PropPlan<
    Seq<char>,
> {
    PropPlan { target, name, value, if_present }
}

} // verus!
