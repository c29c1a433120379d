use vstd::prelude::*;
use crate::control::{evaluate_control_points, evaluates_to, insert_by_time, inserted_by_time, interpolation_total, remove_by_id, sorted_by_time, without_id};
use crate::protocol::{ControlPoint, MixerInfo, MixerSlotInfo, NodeInfo, State};
use crate::schedule::{now_nanos, preroll_settle, rescheduled, settle_preroll};
use crate::strset::{char_seqs, StrSet};
use crate::table::{entries_map, keys_unique, lemma_entries_all, lemma_entries_prefix, Duplicate, Table};
use crate::text::{char_text, chars_of, concat2, concat3, fails_with, owned};
use crate::value::{JsonValue, Number};

verus! {

/// What the media pipeline of a mixer should be doing.
#[derive(Clone, Copy, Debug, PartialEq, Eq, Structural)]
pub enum MixerPipelineStage {
    Idle,
    Starting,
    Playing,
}

/// How a mixer's media pipeline is put together, and its stage.
#[derive(Debug)]
pub struct MixerPipelineProfile {
    pub video_branch_elements: Vec<String>,
    pub audio_branch_elements: Vec<String>,
    pub width: i64,
    pub height: i64,
    pub sample_rate: i64,
    pub fallback_image: String,
    pub fallback_timeout_ms: i64,
    pub stage: MixerPipelineStage,
}

/// An integer setting: the number rounded toward zero and clamped to `i64`,
/// or `default` when the setting is absent or not a number.
pub open spec fn setting_int(v: Option<JsonValue>, default: i64) -> i64 {
    match v {
        Some(JsonValue::Number(n)) => n.spec_trunc_i64(),
        _ => default,
    }
}

/// The value of `key` in a map of settings, if any.
pub open spec fn setting(m: Map<Seq<char>, JsonValue>, key: Seq<char>) -> Option<JsonValue> {
    if m.contains_key(key) {
        Some(m[key])
    } else {
        None
    }
}

/// A string setting, or the empty string when it is absent or not a string.
pub open spec fn setting_text(v: Option<JsonValue>) -> Seq<char> {
    match v {
        Some(JsonValue::Text(s)) => s@,
        _ => Seq::empty(),
    }
}

pub(crate) fn int_setting(settings: &Table<JsonValue>, key: &str, default: i64) -> (r: i64)
    ensures
        r == setting_int(setting(settings@, key@), default),
{
    let k = owned(key);
    match settings.get(&k) {
        Some(JsonValue::Number(n)) => n.trunc_i64(),
        _ => default,
    }
}

pub open spec fn video_branch() -> Seq<Seq<char>> {
    seq!["compositor"@, "capsfilter"@, "queue"@, "appsink"@]
}

pub open spec fn audio_branch() -> Seq<Seq<char>> {
    seq!["audiomixer"@, "audioconvert"@, "audioresample"@, "appsink"@]
}

impl MixerPipelineProfile {
    /// The profile for the given settings: width, height, sample rate and
    /// fallback timeout as integers (1920, 1080, 48000 and 500 when absent),
    /// the fallback image (empty when absent), and a branch of elements for
    /// each enabled medium.
    pub fn from_settings(settings: &Table<JsonValue>, audio_enabled: bool, video_enabled: bool, stage: MixerPipelineStage) -> (p: Self)
        ensures
            p.width == setting_int(setting(settings@, "width"@), 1920),
            p.height == setting_int(setting(settings@, "height"@), 1080),
            p.sample_rate == setting_int(setting(settings@, "sample-rate"@), 48000),
            p.fallback_timeout_ms == setting_int(setting(settings@, "fallback-timeout"@), 500),
            p.fallback_image@ == setting_text(setting(settings@, "fallback-image"@)),
            char_seqs(p.video_branch_elements@) == (if video_enabled {
                video_branch()
            } else {
                Seq::empty()
            }),
            char_seqs(p.audio_branch_elements@) == (if audio_enabled {
                audio_branch()
            } else {
                Seq::empty()
            }),
            p.stage == stage,
    {
        let width = int_setting(settings, "width", 1920);
        let height = int_setting(settings, "height", 1080);
        let sample_rate = int_setting(settings, "sample-rate", 48000);
        let fallback_timeout_ms = int_setting(settings, "fallback-timeout", 500);
        let image_key = owned("fallback-image");
        let fallback_image = match settings.get(&image_key) {
            Some(JsonValue::Text(s)) => s.clone(),
            _ => String::new(),
        };
        let mut video_branch_elements: Vec<String> = Vec::new();
        if video_enabled {
            video_branch_elements.push(owned("compositor"));
            video_branch_elements.push(owned("capsfilter"));
            video_branch_elements.push(owned("queue"));
            video_branch_elements.push(owned("appsink"));
        }
        assert(char_seqs(video_branch_elements@) =~= (if video_enabled {
            video_branch()
        } else {
            Seq::empty()
        }));
        let mut audio_branch_elements: Vec<String> = Vec::new();
        if audio_enabled {
            audio_branch_elements.push(owned("audiomixer"));
            audio_branch_elements.push(owned("audioconvert"));
            audio_branch_elements.push(owned("audioresample"));
            audio_branch_elements.push(owned("appsink"));
        }
        assert(char_seqs(audio_branch_elements@) =~= (if audio_enabled {
            audio_branch()
        } else {
            Seq::empty()
        }));
        MixerPipelineProfile {
            video_branch_elements,
            audio_branch_elements,
            width,
            height,
            sample_rate,
            fallback_image,
            fallback_timeout_ms,
            stage,
        }
    }
}

/// The index of the first `::` of `s` at or after `i`, or -1 when there is none.
pub open spec fn find_separator(s: Seq<char>, i: int) -> int
    decreases s.len() - i,
{
    if i < 0 || i + 1 >= s.len() {
        -1
    } else if s[i] == ':' && s[i + 1] == ':' {
        i
    } else {
        find_separator(s, i + 1)
    }
}

pub open spec fn msg_slot_media() -> Seq<char> {
    "Slot property media type must be one of [audio, video]"@
}

pub open spec fn msg_slot_form() -> Seq<char> {
    "Slot property name must be in form media-type::property-name"@
}

/// What a slot property name `media::property` means, split at its first
/// `::`: whether it is a video property (else an audio one) and the property
/// name; or the message of the error it gives.
pub open spec fn slot_key(s: Seq<char>) -> Result<(bool, Seq<char>), Seq<char>> {
    let i = find_separator(s, 0);
    if i < 0 {
        Err(msg_slot_form())
    } else if s.take(i) == "video"@ {
        Ok((true, s.skip(i + 2)))
    } else if s.take(i) == "audio"@ {
        Ok((false, s.skip(i + 2)))
    } else {
        Err(msg_slot_media())
    }
}

/// `r` is what `slot_key` gives, with strings in place of their characters.
pub open spec fn parsed_as(r: Result<(bool, String), String>, expected: Result<(bool, Seq<char>), Seq<char>>) -> bool {
    match expected {
        Ok((v, p)) => r matches Ok((rv, rp)) && rv == v && rp@ == p,
        Err(e) => r matches Err(re) && re@ == e,
    }
}

/// Splits a slot property name of the form `media::property` at its first `::`.
pub fn parse_slot_config_key(property: &String) -> (r: Result<(bool, String), String>)
    ensures
        parsed_as(r, slot_key(property@)),
{
    let c = chars_of(property.as_str());
    let mut i: usize = 0;
    while c.len() > 0 && i < c.len() - 1 && !(c[i] == ':' && c[i + 1] == ':')
        invariant
            c@ == property@,
            i <= c@.len(),
            find_separator(property@, 0) == find_separator(property@, i as int),
        decreases c@.len() - i,
    {
        i = i + 1;
    }
    if c.len() == 0 || i >= c.len() - 1 {
        return Err(owned("Slot property name must be in form media-type::property-name"));
    }
    assert(find_separator(property@, 0) == i);
    let mut media = String::new();
    let mut rest = String::new();
    let mut k: usize = 0;
    while k < i
        invariant
            c@ == property@,
            k <= i,
            i + 1 < c@.len(),
            media@ == property@.take(k as int),
        decreases i - k,
    {
        media.append(char_text(c[k]).as_str());
        assert(property@.take(k + 1) =~= property@.take(k as int).push(c@[k as int]));
        k = k + 1;
    }
    k = i + 2;
    while k < c.len()
        invariant
            c@ == property@,
            i + 2 <= k <= c@.len(),
            rest@ == property@.subrange(i + 2, k as int),
        decreases c@.len() - k,
    {
        rest.append(char_text(c[k]).as_str());
        assert(property@.subrange(i + 2, k + 1) =~= property@.subrange(i + 2, k as int).push(c@[k as int]));
        k = k + 1;
    }
    assert(rest@ =~= property@.skip(i + 2));
    if media == owned("video") {
        Ok((true, rest))
    } else if media == owned("audio") {
        Ok((false, rest))
    } else {
        Err(owned("Slot property media type must be one of [audio, video]"))
    }
}

/// The settings whose values must be numbers.
pub open spec fn numeric_setting(name: Seq<char>) -> bool {
    name == "width"@ || name == "height"@ || name == "sample-rate"@ || name == "fallback-timeout"@
}

/// The error, if any, of giving the mixer setting `name` the value `v`.
pub open spec fn setting_error(name: Seq<char>, v: JsonValue) -> Option<Seq<char>> {
    if numeric_setting(name) {
        if v is Number {
            None
        } else {
            Some("Setting `"@ + name + "` expects a numeric value"@)
        }
    } else if name == "fallback-image"@ {
        if v is Text {
            None
        } else {
            Some("Setting `fallback-image` expects a string value"@)
        }
    } else {
        Some("No setting with name "@ + name + " on mixers"@)
    }
}

/// `r` is `Ok` when `err` is `None`, and otherwise fails with the message `err` holds.
pub open spec fn checked_as(r: Result<(), String>, err: Option<Seq<char>>) -> bool {
    match err {
        None => r is Ok,
        Some(e) => fails_with(r, e),
    }
}

/// Checks that a mixer setting exists and that `value` has its type.
pub fn validate_setting_value(name: &String, value: &JsonValue) -> (r: Result<(), String>)
    ensures
        checked_as(r, setting_error(name@, *value)),
{
    let is_numeric = *name == owned("width") || *name == owned("height") || *name == owned("sample-rate")
        || *name == owned("fallback-timeout");
    if is_numeric {
        if value.is_number() {
            Ok(())
        } else {
            Err(concat3("Setting `", name.as_str(), "` expects a numeric value"))
        }
    } else if *name == owned("fallback-image") {
        if value.is_string() {
            Ok(())
        } else {
            Err(owned("Setting `fallback-image` expects a string value"))
        }
    } else {
        Err(concat3("No setting with name ", name.as_str(), " on mixers"))
    }
}

/// The video slot properties whose values must be numbers.
pub open spec fn numeric_video_property(p: Seq<char>) -> bool {
    p == "x"@ || p == "y"@ || p == "width"@ || p == "height"@ || p == "zorder"@ || p == "alpha"@
}

/// The error, if any, of giving a slot property the value `v`; properties
/// not listed take any value.
pub open spec fn slot_value_error(is_video: bool, property: Seq<char>, v: JsonValue) -> Option<Seq<char>> {
    if is_video {
        if numeric_video_property(property) && !(v is Number) {
            Some("video::"@ + property + " expects a numeric value"@)
        } else {
            None
        }
    } else {
        if property == "volume"@ && !(v is Number) {
            Some("audio::volume expects a numeric value"@)
        } else {
            None
        }
    }
}

/// Checks that a slot property that must hold a number gets one.
pub fn validate_slot_value(is_video: bool, property: &String, value: &JsonValue) -> (r: Result<(), String>)
    ensures
        checked_as(r, slot_value_error(is_video, property@, *value)),
{
    let numeric = value.is_number();
    if is_video {
        let listed = *property == owned("x") || *property == owned("y") || *property == owned("width")
            || *property == owned("height") || *property == owned("zorder") || *property == owned("alpha");
        if listed && !numeric {
            Err(concat3("video::", property.as_str(), " expects a numeric value"))
        } else {
            Ok(())
        }
    } else {
        if *property == owned("volume") && !numeric {
            Err(owned("audio::volume expects a numeric value"))
        } else {
            Ok(())
        }
    }
}

/// Some key of `cps` has points, so evaluating them changes a setting.
pub open spec fn has_updates(cps: Map<Seq<char>, Seq<ControlPoint>>) -> bool {
    exists|k: Seq<char>| #[trigger] cps.contains_key(k) && cps[k].len() > 0
}

/// `after` is `before` with each setting that has control points set to what
/// its points evaluate to at `at`; the other settings are kept.
pub open spec fn applied<F: Fn(Number, Number, i64, i64) -> JsonValue>(
    before: Map<Seq<char>, JsonValue>,
    cps: Map<Seq<char>, Seq<ControlPoint>>,
    at: i128,
    interpolate: F,
    after: Map<Seq<char>, JsonValue>,
) -> bool {
    forall|k: Seq<char>|
        #![trigger after.contains_key(k)]
        #![trigger before.contains_key(k)]
        #![trigger cps.contains_key(k)]
        if cps.contains_key(k) && cps[k].len() > 0 {
            after.contains_key(k) && evaluates_to(cps[k], at, interpolate, Some(after[k]))
        } else {
            after.contains_key(k) == before.contains_key(k) && (before.contains_key(k) ==> after[k]
                == before[k])
        }
}

/// Sets each setting that has control points to their value at `at`, and
/// tells whether any setting had points.
pub fn apply_points<F: Fn(Number, Number, i64, i64) -> JsonValue>(
    settings: &mut Table<JsonValue>,
    cps: &Table<Vec<ControlPoint>>,
    at: i128,
    interpolate: &F,
) -> (updated: bool)
    requires
        interpolation_total(*interpolate),
    ensures
        applied(old(settings)@, cps@, at, *interpolate, final(settings)@),
        updated == has_updates(cps@),
{
    let es = cps.entries();
    let ghost before = settings@;
    let mut updated = false;
    let mut i: usize = 0;
    proof {
        lemma_entries_all(es@);
    }
    while i < es.len()
        invariant
            interpolation_total(*interpolate),
            i <= es@.len(),
            keys_unique(es@),
            entries_map(es@) == cps@,
            applied(before, entries_map(es@.take(i as int)), at, *interpolate, settings@),
            updated == has_updates(entries_map(es@.take(i as int))),
        decreases es@.len() - i,
    {
        proof {
            lemma_entries_prefix(es@, i as int);
        }
        let ghost prev = entries_map(es@.take(i as int));
        let ghost cur = settings@;
        let ghost key = es@[i as int].0@;
        let points = &es[i].1;
        if points.len() > 0 {
            let r = evaluate_control_points(points.as_slice(), at, interpolate);
            match r {
                Some(value) => {
                    settings.insert(es[i].0.clone(), value);
                },
                None => {
                    assert(false);
                },
            }
            updated = true;
        }
        let ghost next = entries_map(es@.take(i + 1));
        assert(next == prev.insert(key, points@));
        assert forall|k: Seq<char>|
            #![trigger settings@.contains_key(k)]
            #![trigger before.contains_key(k)]
            #![trigger next.contains_key(k)]
            if next.contains_key(k) && next[k].len() > 0 {
                settings@.contains_key(k) && evaluates_to(next[k], at, *interpolate, Some(settings@[k]))
            } else {
                settings@.contains_key(k) == before.contains_key(k) && (before.contains_key(k)
                    ==> settings@[k] == before[k])
            } by {
            if k != key {
                assert(prev.contains_key(k) == next.contains_key(k));
                assert(cur.contains_key(k) == settings@.contains_key(k));
                if prev.contains_key(k) {
                    assert(prev[k] == next[k]);
                }
            }
        }
        assert(updated == has_updates(next)) by {
            if has_updates(prev) {
                let w = choose|k: Seq<char>| #[trigger] prev.contains_key(k) && prev[k].len() > 0;
                assert(next.contains_key(w) && next[w].len() > 0);
            }
            if points@.len() > 0 {
                assert(next.contains_key(key) && next[key].len() > 0);
            }
            if has_updates(next) {
                let w = choose|k: Seq<char>| #[trigger] next.contains_key(k) && next[k].len() > 0;
                if w != key {
                    assert(prev.contains_key(w));
                }
            }
        }
        i = i + 1;
    }
    updated
}

/// The settings of slot `s`, or none when it has no entry.
pub open spec fn settings_or_empty(m: Map<Seq<char>, Map<Seq<char>, JsonValue>>, s: Seq<char>) -> Map<Seq<char>, JsonValue> {
    if m.contains_key(s) {
        m[s]
    } else {
        Map::empty()
    }
}

/// `after` is `before` with the control points of each slot applied to the
/// slot's settings; a slot gets an entry when one of its properties has points.
pub open spec fn slot_settings_applied<F: Fn(Number, Number, i64, i64) -> JsonValue>(
    before: Map<Seq<char>, Map<Seq<char>, JsonValue>>,
    cps: Map<Seq<char>, Map<Seq<char>, Seq<ControlPoint>>>,
    at: i128,
    interpolate: F,
    after: Map<Seq<char>, Map<Seq<char>, JsonValue>>,
) -> bool {
    forall|s: Seq<char>|
        #![trigger after.contains_key(s)]
        #![trigger before.contains_key(s)]
        #![trigger cps.contains_key(s)]
        if cps.contains_key(s) && has_updates(cps[s]) {
            after.contains_key(s) && applied(settings_or_empty(before, s), cps[s], at, interpolate, after[s])
        } else {
            after.contains_key(s) == before.contains_key(s) && (before.contains_key(s) ==> after[s]
                == before[s])
        }
}

/// The control points of a slot move its audio volume.
pub open spec fn volume_moves(cps: Map<Seq<char>, Seq<ControlPoint>>) -> bool {
    cps.contains_key("audio::volume"@) && cps["audio::volume"@].len() > 0
}

/// The number `v` holds, or `fallback` when it is no number.
pub open spec fn number_or(v: JsonValue, fallback: Number) -> Number {
    match v {
        JsonValue::Number(n) => n,
        _ => fallback,
    }
}

/// `after` is `before` with the volume of each slot whose volume has control
/// points set from the slot's new `audio::volume` setting.
pub open spec fn slots_applied(
    before: Map<Seq<char>, MixerSlotInfo>,
    cps: Map<Seq<char>, Map<Seq<char>, Seq<ControlPoint>>>,
    slot_settings: Map<Seq<char>, Map<Seq<char>, JsonValue>>,
    after: Map<Seq<char>, MixerSlotInfo>,
) -> bool {
    &&& after.dom() == before.dom()
    &&& forall|s: Seq<char>|
        #[trigger] after.contains_key(s) ==> after[s] == (if cps.contains_key(s) && volume_moves(cps[s]) {
            MixerSlotInfo { volume: number_or(slot_settings[s]["audio::volume"@], before[s].volume) }
        } else {
            before[s]
        })
}

/// Applies the control points of every slot at `at` to the slot settings,
/// and moves slot volumes with them.
pub fn apply_slot_points<F: Fn(Number, Number, i64, i64) -> JsonValue>(
    slot_settings: &mut Table<Table<JsonValue>>,
    slots: &mut Table<MixerSlotInfo>,
    cps: &Table<Table<Vec<ControlPoint>>>,
    at: i128,
    interpolate: &F,
)
    requires
        interpolation_total(*interpolate),
    ensures
        slot_settings_applied(old(slot_settings)@, cps@, at, *interpolate, final(slot_settings)@),
        slots_applied(old(slots)@, cps@, final(slot_settings)@, final(slots)@),
{
    let es = cps.entries();
    let ghost before = slot_settings@;
    let ghost slots_before = slots@;
    let vol_key = owned("audio::volume");
    let mut i: usize = 0;
    proof {
        lemma_entries_all(es@);
    }
    while i < es.len()
        invariant
            interpolation_total(*interpolate),
            i <= es@.len(),
            keys_unique(es@),
            entries_map(es@) == cps@,
            vol_key@ == "audio::volume"@,
            slot_settings_applied(before, entries_map(es@.take(i as int)), at, *interpolate, slot_settings@),
            slots_applied(slots_before, entries_map(es@.take(i as int)), slot_settings@, slots@),
        decreases es@.len() - i,
    {
        proof {
            lemma_entries_prefix(es@, i as int);
        }
        let ghost prev = entries_map(es@.take(i as int));
        let ghost cur = slot_settings@;
        let ghost cur_slots = slots@;
        let ghost key = es@[i as int].0@;
        let slot_id = &es[i].0;
        let table = &es[i].1;
        let existing = slot_settings.remove(slot_id);
        let existed = existing.is_some();
        let mut st = match existing {
            Some(t) => t,
            None => Table::new(),
        };
        assert(st@ == settings_or_empty(cur, key));
        let updated = apply_points(&mut st, table, at, interpolate);
        let moves = match table.get(&vol_key) {
            Some(points) => points.len() > 0,
            None => false,
        };
        if moves {
            match slots.remove(slot_id) {
                Some(slot) => {
                    let volume = match st.get(&vol_key) {
                        Some(JsonValue::Number(n)) => n.clone(),
                        _ => slot.volume,
                    };
                    slots.insert(slot_id.clone(), MixerSlotInfo { volume });
                },
                None => {},
            }
        }
        if existed || updated {
            slot_settings.insert(slot_id.clone(), st);
        }
        let ghost next = entries_map(es@.take(i + 1));
        assert(next == prev.insert(key, table@));
        assert forall|s: Seq<char>|
            #![trigger slot_settings@.contains_key(s)]
            #![trigger before.contains_key(s)]
            #![trigger next.contains_key(s)]
            if next.contains_key(s) && has_updates(next[s]) {
                slot_settings@.contains_key(s) && applied(settings_or_empty(before, s), next[s], at, *interpolate, slot_settings@[s])
            } else {
                slot_settings@.contains_key(s) == before.contains_key(s) && (before.contains_key(s)
                    ==> slot_settings@[s] == before[s])
            } by {
            if s != key {
                assert(prev.contains_key(s) == next.contains_key(s));
                assert(cur.contains_key(s) == slot_settings@.contains_key(s));
                if prev.contains_key(s) {
                    assert(prev[s] == next[s]);
                }
            } else {
                assert(!prev.contains_key(s));
                assert(cur.contains_key(s) == before.contains_key(s));
                if before.contains_key(s) {
                    assert(cur[s] == before[s]);
                }
            }
        }
        assert(slots@.dom() =~= slots_before.dom());
        assert forall|s: Seq<char>| #[trigger] slots@.contains_key(s) implies slots@[s] == (if next.contains_key(s)
            && volume_moves(next[s]) {
            MixerSlotInfo { volume: number_or(slot_settings@[s]["audio::volume"@], slots_before[s].volume) }
        } else {
            slots_before[s]
        }) by {
            if s != key {
                assert(prev.contains_key(s) == next.contains_key(s));
                assert(cur_slots.contains_key(s));
                if prev.contains_key(s) {
                    assert(prev[s] == next[s]);
                    if volume_moves(prev[s]) {
                        assert(has_updates(prev[s]));
                        assert(cur.contains_key(s));
                        assert(slot_settings@[s] == cur[s]);
                    }
                }
            } else {
                assert(!prev.contains_key(s));
                assert(cur_slots[s] == slots_before[s]);
                if volume_moves(table@) {
                    assert(has_updates(table@));
                    assert(st@.contains_key("audio::volume"@));
                }
            }
        }
        i = i + 1;
    }
}

/// The JSON value of an integer.
pub open spec fn int_value(i: i64) -> JsonValue {
    JsonValue::Number(
        if i >= 0 {
            Number::PosInt(i as u64)
        } else {
            Number::NegInt(i)
        },
    )
}

/// The JSON value `1.0`.
pub open spec fn float_one() -> JsonValue {
    JsonValue::Number(Number::Float { mantissa: 1, exponent: 0 })
}

/// The error of the `i`-th entry of a mixer configuration, if any.
pub open spec fn config_error(config: Option<Table<JsonValue>>, i: int) -> Option<Seq<char>> {
    setting_error(config_entries(config)[i].0@, config_entries(config)[i].1)
}

/// `r` is the outcome of checking a mixer configuration entry by entry: it
/// fails with the first error, and succeeds when there is none.
pub open spec fn config_checked<T>(config: Option<Table<JsonValue>>, r: Result<T, String>) -> bool {
    let n = config_entries(config).len();
    match r {
        Ok(_) => forall|i: int| 0 <= i < n ==> #[trigger] config_error(config, i) is None,
        Err(e) => exists|i: int|
            0 <= i < n && #[trigger] config_error(config, i) == Some(e@) && forall|j: int|
                0 <= j < i ==> #[trigger] config_error(config, j) is None,
    }
}

/// The settings every mixer has.
pub open spec fn mixer_setting_names() -> Set<Seq<char>> {
    set!["width"@, "height"@, "sample-rate"@, "fallback-image"@, "fallback-timeout"@]
}

/// `m` holds the mixer defaults (width 1920, height 1080, sample rate 48000,
/// an empty fallback image, fallback timeout 500) overridden by `cfg`.
pub open spec fn mixer_settings_from(m: Map<Seq<char>, JsonValue>, cfg: Map<Seq<char>, JsonValue>) -> bool {
    &&& m.dom() == mixer_setting_names().union(cfg.dom())
    &&& forall|k: Seq<char>| #[trigger] cfg.contains_key(k) ==> m[k] == cfg[k]
    &&& !cfg.contains_key("width"@) ==> m["width"@] == int_value(1920)
    &&& !cfg.contains_key("height"@) ==> m["height"@] == int_value(1080)
    &&& !cfg.contains_key("sample-rate"@) ==> m["sample-rate"@] == int_value(48000)
    &&& !cfg.contains_key("fallback-timeout"@) ==> m["fallback-timeout"@] == int_value(500)
    &&& !cfg.contains_key("fallback-image"@) ==> (m["fallback-image"@] matches JsonValue::Text(t) && t@.len() == 0)
}

/// `p` is the profile that `from_settings` makes of these settings.
pub open spec fn profile_for(
    p: MixerPipelineProfile,
    settings: Map<Seq<char>, JsonValue>,
    audio_enabled: bool,
    video_enabled: bool,
    stage: MixerPipelineStage,
) -> bool {
    &&& p.width == setting_int(setting(settings, "width"@), 1920)
    &&& p.height == setting_int(setting(settings, "height"@), 1080)
    &&& p.sample_rate == setting_int(setting(settings, "sample-rate"@), 48000)
    &&& p.fallback_timeout_ms == setting_int(setting(settings, "fallback-timeout"@), 500)
    &&& p.fallback_image@ == setting_text(setting(settings, "fallback-image"@))
    &&& char_seqs(p.video_branch_elements@) == (if video_enabled {
        video_branch()
    } else {
        Seq::empty()
    })
    &&& char_seqs(p.audio_branch_elements@) == (if audio_enabled {
        audio_branch()
    } else {
        Seq::empty()
    })
    &&& p.stage == stage
}

/// Every list of control points is in time order.
pub open spec fn points_sorted(m: Map<Seq<char>, Seq<ControlPoint>>) -> bool {
    forall|k: Seq<char>| #[trigger] m.contains_key(k) ==> sorted_by_time(m[k])
}

/// The entries of an optional configuration, in order.
pub open spec fn config_entries(config: Option<Table<JsonValue>>) -> Seq<(String, JsonValue)> {
    match config {
        Some(c) => c.entries_seq(),
        None => Seq::empty(),
    }
}

/// The map of an optional configuration.
pub open spec fn config_map(config: Option<Table<JsonValue>>) -> Map<Seq<char>, JsonValue> {
    match config {
        Some(c) => c@,
        None => Map::empty(),
    }
}

/// The pipeline stage that goes with a mixer's state.
pub open spec fn mixer_stage(state: State) -> MixerPipelineStage {
    match state {
        State::Initial | State::Stopping | State::Stopped => MixerPipelineStage::Idle,
        State::Starting => MixerPipelineStage::Starting,
        State::Started => MixerPipelineStage::Playing,
    }
}

/// A node that mixes the audio and the video of its input slots into one
/// output each, under settings that control points can move over time.
#[derive(Debug)]
pub struct MixerNode {
    pub id: String,
    pub audio_enabled: bool,
    pub video_enabled: bool,
    pub slots: Table<MixerSlotInfo>,
    pub video_consumer_slot_ids: StrSet,
    pub audio_consumer_slot_ids: StrSet,
    pub cue_time: Option<i128>,
    pub end_time: Option<i128>,
    pub state: State,
    pub settings: Table<JsonValue>,
    pub control_points: Table<Vec<ControlPoint>>,
    pub slot_settings: Table<Table<JsonValue>>,
    pub slot_control_points: Table<Table<Vec<ControlPoint>>>,
    pub pipeline: MixerPipelineProfile,
    /// A live media pipeline currently stands for this node.
    pub live_pipeline: bool,
    pub last_error: Option<String>,
}

/// The fields of a mixer that only scheduling and the media layer change.
pub open spec fn same_schedule(a: MixerNode, b: MixerNode) -> bool {
    &&& a.cue_time == b.cue_time
    &&& a.end_time == b.end_time
    &&& a.state == b.state
    &&& a.pipeline == b.pipeline
    &&& a.live_pipeline == b.live_pipeline
    &&& a.last_error == b.last_error
}

/// The id and the media of a mixer.
pub open spec fn same_identity(a: MixerNode, b: MixerNode) -> bool {
    &&& a.id@ == b.id@
    &&& a.audio_enabled == b.audio_enabled
    &&& a.video_enabled == b.video_enabled
}

/// The consumers of a mixer's outputs.
pub open spec fn same_consumers(a: MixerNode, b: MixerNode) -> bool {
    &&& a.video_consumer_slot_ids@ == b.video_consumer_slot_ids@
    &&& a.audio_consumer_slot_ids@ == b.audio_consumer_slot_ids@
}

/// The input slots of a mixer, their settings and their control points.
pub open spec fn same_inputs(a: MixerNode, b: MixerNode) -> bool {
    &&& a.slots@ == b.slots@
    &&& a.slot_settings@ == b.slot_settings@
    &&& a.slot_control_points@ == b.slot_control_points@
}

/// The mixer's own settings and their control points.
pub open spec fn same_settings(a: MixerNode, b: MixerNode) -> bool {
    &&& a.settings@ == b.settings@
    &&& a.control_points@ == b.control_points@
}

/// `after` holds the settings of `before` with every control point of
/// `after` applied at `at`: the mixer's settings, the slots' settings and the
/// slots' volumes.
pub open spec fn node_applied<F: Fn(Number, Number, i64, i64) -> JsonValue>(
    before: MixerNode,
    after: MixerNode,
    at: i128,
    interpolate: F,
) -> bool {
    &&& applied(before.settings@, after.control_points@, at, interpolate, after.settings@)
    &&& slot_settings_applied(before.slot_settings@, after.slot_control_points@, at, interpolate, after.slot_settings@)
    &&& slots_applied(before.slots@, after.slot_control_points@, after.slot_settings@, after.slots@)
}

/// The settings a new slot starts with: position, size (the mixer's),
/// opacity and stacking for video; full volume for audio.
pub open spec fn default_slot_map(settings: Map<Seq<char>, JsonValue>, audio: bool, video: bool) -> Map<Seq<char>, JsonValue> {
    let v = if video {
        map![
            "video::x"@ => int_value(0),
            "video::y"@ => int_value(0),
            "video::width"@ => int_value(setting_int(setting(settings, "width"@), 1920)),
            "video::height"@ => int_value(setting_int(setting(settings, "height"@), 1080)),
            "video::alpha"@ => float_one(),
            "video::zorder"@ => int_value(0),
        ]
    } else {
        Map::empty()
    };
    if audio {
        v.insert("audio::volume"@, float_one())
    } else {
        v
    }
}

/// The error of one entry `key: v` of the configuration of the slot of link `link`.
pub open spec fn slot_entry_error(link: Seq<char>, audio: bool, video: bool, key: Seq<char>, v: JsonValue) -> Option<Seq<char>> {
    match slot_key(key) {
        Err(e) => Some(e),
        Ok((is_video, p)) => if is_video && !video {
            Some("Cannot set "@ + key + " on link "@ + link + "; video is not enabled for this link"@)
        } else if !is_video && !audio {
            Some("Cannot set "@ + key + " on link "@ + link + "; audio is not enabled for this link"@)
        } else {
            slot_value_error(is_video, p, v)
        },
    }
}

/// The error of the `i`-th entry of a slot configuration, if any.
pub open spec fn slot_config_error(link: Seq<char>, audio: bool, video: bool, config: Option<Table<JsonValue>>, i: int) -> Option<Seq<char>> {
    slot_entry_error(link, audio, video, config_entries(config)[i].0@, config_entries(config)[i].1)
}

/// `r` is the outcome of checking a slot configuration entry by entry: it
/// fails with the first error, and succeeds when there is none.
pub open spec fn slot_config_checked(link: Seq<char>, audio: bool, video: bool, config: Option<Table<JsonValue>>, r: Result<(), String>) -> bool {
    let n = config_entries(config).len();
    match r {
        Ok(_) => forall|i: int| 0 <= i < n ==> #[trigger] slot_config_error(link, audio, video, config, i) is None,
        Err(e) => exists|i: int|
            0 <= i < n && #[trigger] slot_config_error(link, audio, video, config, i) == Some(e@) && forall|j: int|
                0 <= j < i ==> #[trigger] slot_config_error(link, audio, video, config, j) is None,
    }
}

/// The volume of a slot with these settings: its `audio::volume`, or 1.0.
pub open spec fn slot_volume(m: Map<Seq<char>, JsonValue>) -> Number {
    let one = Number::Float { mantissa: 1, exponent: 0 };
    if m.contains_key("audio::volume"@) {
        number_or(m["audio::volume"@], one)
    } else {
        one
    }
}

/// The points of `k` in `m`, or none.
pub open spec fn points_or_empty(m: Map<Seq<char>, Seq<ControlPoint>>, k: Seq<char>) -> Seq<ControlPoint> {
    if m.contains_key(k) {
        m[k]
    } else {
        Seq::empty()
    }
}

/// The control points of slot `s` in `m`, or none.
pub open spec fn slot_points_or_empty(m: Map<Seq<char>, Map<Seq<char>, Seq<ControlPoint>>>, s: Seq<char>) -> Map<Seq<char>, Seq<ControlPoint>> {
    if m.contains_key(s) {
        m[s]
    } else {
        Map::empty()
    }
}

/// The error, if any, of adding a control point with value `v` to the
/// property `property` of slot `slot` of a mixer.
pub open spec fn slot_point_error(node: MixerNode, slot: Seq<char>, property: Seq<char>, v: JsonValue) -> Option<Seq<char>> {
    if !node.slot_settings@.contains_key(slot) {
        Some("Mixer "@ + node.id@ + " has no slot with id "@ + slot)
    } else {
        match slot_key(property) {
            Err(e) => Some(e),
            Ok((is_video, p)) => slot_value_error(is_video, p, v),
        }
    }
}

/// The error, if any, of adding a control point with value `v` to the mixer
/// setting `property`.
pub open spec fn point_error(node: MixerNode, property: Seq<char>, v: JsonValue) -> Option<Seq<char>> {
    if !node.settings@.contains_key(property) {
        Some("Mixer "@ + node.id@ + " has no setting with name "@ + property)
    } else {
        setting_error(property, v)
    }
}

proof fn lemma_slot_keys_distinct()
    ensures
        "video::x"@ != "video::y"@,
        "video::x"@ != "video::width"@,
        "video::x"@ != "video::height"@,
        "video::x"@ != "video::alpha"@,
        "video::x"@ != "video::zorder"@,
        "video::y"@ != "video::width"@,
        "video::y"@ != "video::height"@,
        "video::y"@ != "video::alpha"@,
        "video::y"@ != "video::zorder"@,
        "video::width"@ != "video::height"@,
        "video::width"@ != "video::alpha"@,
        "video::width"@ != "video::zorder"@,
        "video::height"@ != "video::alpha"@,
        "video::height"@ != "video::zorder"@,
        "video::alpha"@ != "video::zorder"@,
        "audio::volume"@ != "video::x"@,
        "audio::volume"@ != "video::y"@,
        "audio::volume"@ != "video::width"@,
        "audio::volume"@ != "video::height"@,
        "audio::volume"@ != "video::alpha"@,
        "audio::volume"@ != "video::zorder"@,
{
    reveal_strlit("video::x");
    reveal_strlit("video::y");
    reveal_strlit("video::width");
    reveal_strlit("video::height");
    reveal_strlit("video::alpha");
    reveal_strlit("video::zorder");
    reveal_strlit("audio::volume");
    assert("video::x"@[7] != "video::y"@[7]);
    assert("video::x"@[7] != "video::width"@[7]);
    assert("video::x"@[7] != "video::height"@[7]);
    assert("video::x"@[7] != "video::alpha"@[7]);
    assert("video::x"@[7] != "video::zorder"@[7]);
    assert("video::y"@[7] != "video::width"@[7]);
    assert("video::y"@[7] != "video::height"@[7]);
    assert("video::y"@[7] != "video::alpha"@[7]);
    assert("video::y"@[7] != "video::zorder"@[7]);
    assert("video::width"@[7] != "video::height"@[7]);
    assert("video::width"@[7] != "video::alpha"@[7]);
    assert("video::width"@[7] != "video::zorder"@[7]);
    assert("video::height"@[7] != "video::alpha"@[7]);
    assert("video::height"@[7] != "video::zorder"@[7]);
    assert("video::alpha"@[7] != "video::zorder"@[7]);
    assert("audio::volume"@[0] != "video::x"@[0]);
    assert("audio::volume"@[0] != "video::y"@[0]);
    assert("audio::volume"@[0] != "video::width"@[0]);
    assert("audio::volume"@[0] != "video::height"@[0]);
    assert("audio::volume"@[0] != "video::alpha"@[0]);
    assert("audio::volume"@[0] != "video::zorder"@[0]);
}

/// What opening the slot of link `link` does to a mixer: the slot gets the
/// default settings for its media overridden by the configuration, control
/// points of its own (kept when it had some) and a volume.
pub open spec fn slot_connected(before: MixerNode, after: MixerNode, link: Seq<char>, audio: bool, video: bool, slot_config: Option<Table<JsonValue>>) -> bool {
    let merged = default_slot_map(before.settings@, audio, video).union_prefer_right(config_map(slot_config));
    &&& after.slot_settings@ == before.slot_settings@.insert(link, merged)
    &&& after.slot_control_points@ == (if before.slot_control_points@.contains_key(link) {
        before.slot_control_points@
    } else {
        before.slot_control_points@.insert(link, Map::empty())
    })
    &&& after.slots@ == (if audio || video || before.slots@.contains_key(link) {
        before.slots@.insert(link, MixerSlotInfo { volume: slot_volume(merged) })
    } else {
        before.slots@
    })
    &&& same_identity(before, after)
    &&& same_schedule(before, after)
    &&& same_consumers(before, after)
    &&& same_settings(before, after)
}

/// A new video slot starts at the mixer's own size: unless the link's
/// configuration sets them, its `video::width` is the mixer's `width` setting
/// (1920 without one) and its `video::height` the mixer's `height` setting
/// (1080 without one); it starts at the top left corner, lowest in the stack,
/// opaque, and an audio slot at full volume. A slot gets no defaults for a
/// medium that its link does not carry.
pub proof fn law_new_slot_takes_mixer_size(
    before: MixerNode,
    after: MixerNode,
    link: Seq<char>,
    audio: bool,
    video: bool,
    slot_config: Option<Table<JsonValue>>,
)
    requires
        slot_connected(before, after, link, audio, video, slot_config),
    ensures
        after.slot_settings@.contains_key(link),
        video && !config_map(slot_config).contains_key("video::width"@) ==> after.slot_settings@[link].contains_key(
            "video::width"@,
        ) && after.slot_settings@[link]["video::width"@] == int_value(setting_int(setting(before.settings@, "width"@), 1920)),
        video && !config_map(slot_config).contains_key("video::height"@) ==> after.slot_settings@[link].contains_key(
            "video::height"@,
        ) && after.slot_settings@[link]["video::height"@] == int_value(
            setting_int(setting(before.settings@, "height"@), 1080),
        ),
        video && !config_map(slot_config).contains_key("video::x"@) ==> after.slot_settings@[link].contains_key("video::x"@)
            && after.slot_settings@[link]["video::x"@] == int_value(0),
        video && !config_map(slot_config).contains_key("video::y"@) ==> after.slot_settings@[link].contains_key("video::y"@)
            && after.slot_settings@[link]["video::y"@] == int_value(0),
        video && !config_map(slot_config).contains_key("video::zorder"@) ==> after.slot_settings@[link].contains_key(
            "video::zorder"@,
        ) && after.slot_settings@[link]["video::zorder"@] == int_value(0),
        video && !config_map(slot_config).contains_key("video::alpha"@) ==> after.slot_settings@[link].contains_key(
            "video::alpha"@,
        ) && after.slot_settings@[link]["video::alpha"@] == float_one(),
        audio && !config_map(slot_config).contains_key("audio::volume"@) ==> after.slot_settings@[link].contains_key(
            "audio::volume"@,
        ) && after.slot_settings@[link]["audio::volume"@] == float_one(),
        !video ==> forall|k: Seq<char>|
            #![trigger after.slot_settings@[link].contains_key(k)]
            after.slot_settings@[link].contains_key(k) && (k == "video::x"@ || k == "video::y"@ || k == "video::width"@
                || k == "video::height"@ || k == "video::alpha"@ || k == "video::zorder"@) ==> config_map(
                slot_config,
            ).contains_key(k),
        !audio ==> (after.slot_settings@[link].contains_key("audio::volume"@) ==> config_map(slot_config).contains_key(
            "audio::volume"@,
        )),
{
    lemma_slot_keys_distinct();
}

/// What adding control point `cp` to the mixer setting `property` at `now`
/// does: the point joins the setting's points in time order and all points
/// are applied.
pub open spec fn point_added<F: Fn(Number, Number, i64, i64) -> JsonValue>(before: MixerNode, after: MixerNode, property: Seq<char>, cp: ControlPoint, now: i128, interpolate: F) -> bool {
    &&& inserted_by_time(
        points_or_empty(before.control_points@, property),
        cp,
        after.control_points@[property],
    )
    &&& after.control_points@ == before.control_points@.insert(
        property,
        after.control_points@[property],
    )
    &&& after.slot_control_points@ == before.slot_control_points@
    &&& node_applied(before, after, now, interpolate)
    &&& same_identity(before, after)
    &&& same_schedule(before, after)
    &&& same_consumers(before, after)
}

/// What adding control point `cp` to property `property` of slot `slot` at
/// `now` does: the point joins the property's points in time order and all
/// points are applied.
pub open spec fn slot_point_added<F: Fn(Number, Number, i64, i64) -> JsonValue>(before: MixerNode, after: MixerNode, slot: Seq<char>, property: Seq<char>, cp: ControlPoint, now: i128, interpolate: F) -> bool {
    let inner = slot_points_or_empty(before.slot_control_points@, slot);
    let new_inner = after.slot_control_points@[slot];
    &&& inserted_by_time(points_or_empty(inner, property), cp, new_inner[property])
    &&& new_inner == inner.insert(property, new_inner[property])
    &&& after.slot_control_points@ =~= before.slot_control_points@.insert(slot, new_inner)
    &&& after.control_points@ == before.control_points@
    &&& node_applied(before, after, now, interpolate)
    &&& same_identity(before, after)
    &&& same_schedule(before, after)
    &&& same_consumers(before, after)
}

/// What dropping the points of controller `controller` from the mixer
/// setting `property` at `now` does; all points are then applied.
pub open spec fn point_removed<F: Fn(Number, Number, i64, i64) -> JsonValue>(before: MixerNode, after: MixerNode, controller: Seq<char>, property: Seq<char>, now: i128, interpolate: F) -> bool {
    &&& after.control_points@ == (if before.control_points@.contains_key(property) {
                before.control_points@.insert(
                    property,
                    without_id(before.control_points@[property], controller),
                )
            } else {
                before.control_points@
            })
    &&& after.slot_control_points@ == before.slot_control_points@
    &&& node_applied(before, after, now, interpolate)
    &&& same_identity(before, after)
    &&& same_schedule(before, after)
    &&& same_consumers(before, after)
}

/// What dropping the points of controller `controller` from property
/// `property` of slot `slot` at `now` does; all points are then applied.
pub open spec fn slot_point_removed<F: Fn(Number, Number, i64, i64) -> JsonValue>(before: MixerNode, after: MixerNode, controller: Seq<char>, slot: Seq<char>, property: Seq<char>, now: i128, interpolate: F) -> bool {
    &&& after.slot_control_points@ =~= (if before.slot_control_points@.contains_key(slot)
                && before.slot_control_points@[slot].contains_key(property) {
                before.slot_control_points@.insert(
                    slot,
                    before.slot_control_points@[slot].insert(
                        property,
                        without_id(before.slot_control_points@[slot][property], controller),
                    ),
                )
            } else {
                before.slot_control_points@
            })
    &&& after.control_points@ == before.control_points@
    &&& node_applied(before, after, now, interpolate)
    &&& same_identity(before, after)
    &&& same_schedule(before, after)
    &&& same_consumers(before, after)
}

impl MixerNode {
    /// Every list of control points, of the mixer and of its slots, is in time order.
    pub open spec fn wf(&self) -> bool {
        &&& points_sorted(self.control_points@)
        &&& forall|s: Seq<char>| #[trigger] self.slot_control_points@.contains_key(s) ==> points_sorted(
            self.slot_control_points@[s],
        )
    }

    /// A mixer with the default settings overridden by `config`; the first
    /// configuration entry that names no setting, or gives one a value of the
    /// wrong type, is refused.
    pub fn new(id: String, config: Option<Table<JsonValue>>, audio_enabled: bool, video_enabled: bool) -> (r: Result<Self, String>)
        ensures
            config_checked(config, r),
            r matches Ok(n) ==> {
                &&& n.wf()
                &&& n.id@ == id@
                &&& n.audio_enabled == audio_enabled
                &&& n.video_enabled == video_enabled
                &&& n.slots@ == Map::<Seq<char>, MixerSlotInfo>::empty()
                &&& n.video_consumer_slot_ids@ == Set::<Seq<char>>::empty()
                &&& n.audio_consumer_slot_ids@ == Set::<Seq<char>>::empty()
                &&& n.cue_time is None
                &&& n.end_time is None
                &&& n.state == State::Initial
                &&& mixer_settings_from(n.settings@, config_map(config))
                &&& n.control_points@ == Map::<Seq<char>, Seq<ControlPoint>>::empty()
                &&& n.slot_settings@ == Map::<Seq<char>, Map<Seq<char>, JsonValue>>::empty()
                &&& n.slot_control_points@ == Map::<Seq<char>, Map<Seq<char>, Seq<ControlPoint>>>::empty()
                &&& profile_for(n.pipeline, n.settings@, audio_enabled, video_enabled, MixerPipelineStage::Idle)
                &&& !n.live_pipeline
                &&& n.last_error is None
            },
    {
        proof {
            reveal_strlit("width");
            reveal_strlit("height");
            reveal_strlit("sample-rate");
            reveal_strlit("fallback-image");
            reveal_strlit("fallback-timeout");
        }
        let mut settings: Table<JsonValue> = Table::new();
        settings.insert(owned("width"), JsonValue::integer(1920));
        settings.insert(owned("height"), JsonValue::integer(1080));
        settings.insert(owned("sample-rate"), JsonValue::integer(48000));
        settings.insert(owned("fallback-image"), JsonValue::Text(String::new()));
        settings.insert(owned("fallback-timeout"), JsonValue::integer(500));
        let ghost d = settings@;
        assert("width"@.len() == 5 && "height"@.len() == 6 && "sample-rate"@.len() == 11
            && "fallback-image"@.len() == 14 && "fallback-timeout"@.len() == 16);
        assert(d.dom() =~= mixer_setting_names());
        let ghost es = config_entries(config);
        let ghost cfg = config_map(config);
        match &config {
            Some(c) => {
                let entries = c.entries();
                let mut i: usize = 0;
                proof {
                    lemma_entries_all(entries@);
                }
                while i < entries.len()
                    invariant
                        entries@ == es,
                        es == config_entries(config),
                        keys_unique(es),
                        entries_map(es) == cfg,
                        i <= es.len(),
                        settings@ == d.union_prefer_right(entries_map(es.take(i as int))),
                        forall|j: int| 0 <= j < i ==> #[trigger] config_error(config, j) is None,
                    decreases es.len() - i,
                {
                    proof {
                        lemma_entries_prefix(es, i as int);
                    }
                    match validate_setting_value(&entries[i].0, &entries[i].1) {
                        Err(e) => {
                            let r: Result<Self, String> = Err(e);
                            assert(config_error(config, i as int) == Some(e@));
                            return r;
                        },
                        Ok(()) => {},
                    }
                    settings.insert(entries[i].0.clone(), entries[i].1.clone());
                    assert(settings@ =~= d.union_prefer_right(entries_map(es.take(i + 1))));
                    i = i + 1;
                }
            },
            None => {
                assert(d.union_prefer_right(cfg) =~= d);
            },
        }
        assert(settings@ == d.union_prefer_right(cfg));
        assert(settings@.dom() =~= mixer_setting_names().union(cfg.dom()));
        assert(d["width"@] == int_value(1920));
        assert(d["fallback-image"@] matches JsonValue::Text(t) && t@.len() == 0);
        assert(mixer_settings_from(settings@, cfg));
        let pipeline = MixerPipelineProfile::from_settings(&settings, audio_enabled, video_enabled, MixerPipelineStage::Idle);
        let n = MixerNode {
            id,
            audio_enabled,
            video_enabled,
            slots: Table::new(),
            video_consumer_slot_ids: StrSet::new(),
            audio_consumer_slot_ids: StrSet::new(),
            cue_time: None,
            end_time: None,
            state: State::Initial,
            settings,
            control_points: Table::new(),
            slot_settings: Table::new(),
            slot_control_points: Table::new(),
            pipeline,
            live_pipeline: false,
            last_error: None,
        };
        assert(n.wf());
        assert(profile_for(n.pipeline, n.settings@, audio_enabled, video_enabled, MixerPipelineStage::Idle));
        Ok(n)
    }

    /// The settings a new slot carrying the given media starts with.
    pub fn default_slot_settings(&self, audio: bool, video: bool) -> (r: Table<JsonValue>)
        ensures
            r@ == default_slot_map(self.settings@, audio, video),
    {
        proof {
            lemma_slot_keys_distinct();
        }
        let mut defaults: Table<JsonValue> = Table::new();
        if video {
            let width = int_setting(&self.settings, "width", 1920);
            let height = int_setting(&self.settings, "height", 1080);
            defaults.insert(owned("video::x"), JsonValue::integer(0));
            defaults.insert(owned("video::y"), JsonValue::integer(0));
            defaults.insert(owned("video::width"), JsonValue::integer(width));
            defaults.insert(owned("video::height"), JsonValue::integer(height));
            defaults.insert(owned("video::alpha"), JsonValue::one_point_zero());
            defaults.insert(owned("video::zorder"), JsonValue::integer(0));
        }
        if audio {
            defaults.insert(owned("audio::volume"), JsonValue::one_point_zero());
        }
        assert(defaults@ =~= default_slot_map(self.settings@, audio, video));
        defaults
    }

    /// Adds the link to the consumers of each medium it carries.
    pub fn connect_output_consumer(&mut self, link_id: &String, audio: bool, video: bool)
        ensures
            final(self).audio_consumer_slot_ids@ == (if audio {
                old(self).audio_consumer_slot_ids@.insert(link_id@)
            } else {
                old(self).audio_consumer_slot_ids@
            }),
            final(self).video_consumer_slot_ids@ == (if video {
                old(self).video_consumer_slot_ids@.insert(link_id@)
            } else {
                old(self).video_consumer_slot_ids@
            }),
            same_identity(*old(self), *final(self)),
            same_schedule(*old(self), *final(self)),
            same_inputs(*old(self), *final(self)),
            same_settings(*old(self), *final(self)),
    {
        if audio {
            self.audio_consumer_slot_ids.insert(link_id.clone());
        }
        if video {
            self.video_consumer_slot_ids.insert(link_id.clone());
        }
    }

    /// Drops the link from the consumers of both outputs.
    pub fn disconnect_output_consumer(&mut self, link_id: &String)
        ensures
            final(self).audio_consumer_slot_ids@ == old(self).audio_consumer_slot_ids@.remove(link_id@),
            final(self).video_consumer_slot_ids@ == old(self).video_consumer_slot_ids@.remove(link_id@),
            same_identity(*old(self), *final(self)),
            same_schedule(*old(self), *final(self)),
            same_inputs(*old(self), *final(self)),
            same_settings(*old(self), *final(self)),
    {
        self.audio_consumer_slot_ids.remove(link_id);
        self.video_consumer_slot_ids.remove(link_id);
    }

    /// Opens an input slot for the link: the default slot settings for its
    /// media, overridden by `slot_config`, whose entries are checked in order
    /// (the first bad one is refused and nothing changes). The slot's volume
    /// is its `audio::volume` setting.
    pub fn connect_input_slot(&mut self, link_id: &String, audio: bool, video: bool, slot_config: Option<Table<JsonValue>>) -> (r: Result<(), String>)
        requires
            old(self).wf(),
        ensures
            final(self).wf(),
            slot_config_checked(link_id@, audio, video, slot_config, r),
            r is Err ==> *final(self) == *old(self),
            r is Ok ==> slot_connected(*old(self), *final(self), link_id@, audio, video, slot_config),
            r is Ok && video && !config_map(slot_config).contains_key("video::width"@) ==> final(self).slot_settings@[link_id@]["video::width"@]
                == int_value(setting_int(setting(old(self).settings@, "width"@), 1920)),
            r is Ok && video && !config_map(slot_config).contains_key("video::height"@) ==> final(self).slot_settings@[link_id@]["video::height"@]
                == int_value(setting_int(setting(old(self).settings@, "height"@), 1080)),
    {
        let mut merged = self.default_slot_settings(audio, video);
        let ghost d = merged@;
        let ghost es = config_entries(slot_config);
        let ghost cfg = config_map(slot_config);
        match &slot_config {
            Some(c) => {
                let entries = c.entries();
                let mut i: usize = 0;
                proof {
                    lemma_entries_all(entries@);
                }
                while i < entries.len()
                    invariant
                        entries@ == es,
                        self.wf(),
                        es == config_entries(slot_config),
                        keys_unique(es),
                        entries_map(es) == cfg,
                        i <= es.len(),
                        merged@ == d.union_prefer_right(entries_map(es.take(i as int))),
                        forall|j: int| 0 <= j < i ==> #[trigger] slot_config_error(link_id@, audio, video, slot_config, j) is None,
                    decreases es.len() - i,
                {
                    proof {
                        lemma_entries_prefix(es, i as int);
                    }
                    let key = &entries[i].0;
                    let value = &entries[i].1;
                    match parse_slot_config_key(key) {
                        Err(e) => {
                            assert(slot_config_error(link_id@, audio, video, slot_config, i as int) == Some(e@));
                            return Err(e);
                        },
                        Ok((is_video, property)) => {
                            if is_video && !video {
                                let first = concat3("Cannot set ", key.as_str(), " on link ");
                                let e = concat3(first.as_str(), link_id.as_str(), "; video is not enabled for this link");
                                assert(slot_config_error(link_id@, audio, video, slot_config, i as int) == Some(e@));
                                return Err(e);
                            }
                            if !is_video && !audio {
                                let first = concat3("Cannot set ", key.as_str(), " on link ");
                                let e = concat3(first.as_str(), link_id.as_str(), "; audio is not enabled for this link");
                                assert(slot_config_error(link_id@, audio, video, slot_config, i as int) == Some(e@));
                                return Err(e);
                            }
                            match validate_slot_value(is_video, &property, value) {
                                Err(e) => {
                                    assert(slot_config_error(link_id@, audio, video, slot_config, i as int) == Some(e@));
                                    return Err(e);
                                },
                                Ok(()) => {},
                            }
                        },
                    }
                    merged.insert(key.clone(), value.clone());
                    assert(merged@ =~= d.union_prefer_right(entries_map(es.take(i + 1))));
                    i = i + 1;
                }
            },
            None => {
                assert(d.union_prefer_right(cfg) =~= d);
            },
        }
        assert(merged@ == d.union_prefer_right(cfg));
        let vol_key = owned("audio::volume");
        let volume = match merged.get(&vol_key) {
            Some(JsonValue::Number(n)) => n.clone(),
            _ => Number::Float { mantissa: 1, exponent: 0 },
        };
        if audio || video || self.slots.contains_key(link_id) {
            self.slots.insert(link_id.clone(), MixerSlotInfo { volume });
        }
        self.slot_settings.insert(link_id.clone(), merged);
        if !self.slot_control_points.contains_key(link_id) {
            self.slot_control_points.insert(link_id.clone(), Table::new());
        }
        proof {
            assert forall|sl: Seq<char>| #[trigger] self.slot_control_points@.contains_key(sl) implies points_sorted(
                self.slot_control_points@[sl],
            ) by {
                if sl != link_id@ || old(self).slot_control_points@.contains_key(link_id@) {
                    assert(old(self).slot_control_points@.contains_key(sl));
                }
            }
            assert(slot_connected(*old(self), *self, link_id@, audio, video, slot_config));
            law_new_slot_takes_mixer_size(*old(self), *self, link_id@, audio, video, slot_config);
        }
        Ok(())
    }

    /// Sets every setting that has control points, the mixer's and its
    /// slots', to the value the points give at `at`.
    pub fn apply_control_points<F: Fn(Number, Number, i64, i64) -> JsonValue>(&mut self, at: i128, interpolate: &F)
        requires
            interpolation_total(*interpolate),
        ensures
            node_applied(*old(self), *final(self), at, *interpolate),
            final(self).control_points@ == old(self).control_points@,
            final(self).slot_control_points@ == old(self).slot_control_points@,
            same_identity(*old(self), *final(self)),
            same_schedule(*old(self), *final(self)),
            same_consumers(*old(self), *final(self)),
    {
        apply_points(&mut self.settings, &self.control_points, at, interpolate);
        apply_slot_points(&mut self.slot_settings, &mut self.slots, &self.slot_control_points, at, interpolate);
    }

    /// Adds a control point to a mixer setting, keeping the points in time
    /// order, and applies all control points at `now`. Refused, with nothing
    /// changed, for a setting the mixer does not have or a value of the
    /// wrong type.
    pub fn add_control_point_at<F: Fn(Number, Number, i64, i64) -> JsonValue>(
        &mut self,
        property: &String,
        cp: ControlPoint,
        now: i128,
        interpolate: &F,
    ) -> (r: Result<(), String>)
        requires
            old(self).wf(),
            interpolation_total(*interpolate),
        ensures
            final(self).wf(),
            checked_as(r, point_error(*old(self), property@, cp.value)),
            r is Err ==> *final(self) == *old(self),
            r is Ok ==> point_added(*old(self), *final(self), property@, cp, now, *interpolate),
    {
        if !self.settings.contains_key(property) {
            return Err(concat3(concat2("Mixer ", self.id.as_str()).as_str(), " has no setting with name ", property.as_str()));
        }
        match validate_setting_value(property, &cp.value) {
            Err(e) => {
                return Err(e);
            },
            Ok(()) => {},
        }
        let ghost before = *self;
        let mut points = match self.control_points.remove(property) {
            Some(v) => v,
            None => Vec::new(),
        };
        assert(points@ == points_or_empty(before.control_points@, property@));
        insert_by_time(&mut points, cp);
        self.control_points.insert(property.clone(), points);
        assert(self.control_points@ =~= before.control_points@.insert(property@, self.control_points@[property@]));
        self.apply_control_points(now, interpolate);
        Ok(())
    }

    /// Adds a control point to a mixer setting at the current time; see
    /// `add_control_point_at`.
    pub fn add_control_point<F: Fn(Number, Number, i64, i64) -> JsonValue>(
        &mut self,
        property: &String,
        cp: ControlPoint,
        interpolate: &F,
    ) -> (r: Result<(), String>)
        requires
            old(self).wf(),
            interpolation_total(*interpolate),
        ensures
            final(self).wf(),
            checked_as(r, point_error(*old(self), property@, cp.value)),
            r is Err ==> *final(self) == *old(self),
            r is Ok ==> {
                &&& inserted_by_time(
                    points_or_empty(old(self).control_points@, property@),
                    cp,
                    final(self).control_points@[property@],
                )
                &&& final(self).control_points@ == old(self).control_points@.insert(
                    property@,
                    final(self).control_points@[property@],
                )
                &&& final(self).slot_control_points@ == old(self).slot_control_points@
                &&& exists|now: i128| #[trigger] node_applied(*old(self), *final(self), now, *interpolate)
                &&& same_identity(*old(self), *final(self))
                &&& same_schedule(*old(self), *final(self))
                &&& same_consumers(*old(self), *final(self))
            },
    {
        let now = now_nanos();
        self.add_control_point_at(property, cp, now, interpolate)
    }

    /// Drops the points of the controller from a mixer setting and applies
    /// all control points at `now`.
    pub fn remove_control_point_at<F: Fn(Number, Number, i64, i64) -> JsonValue>(
        &mut self,
        controller_id: &String,
        property: &String,
        now: i128,
        interpolate: &F,
    )
        requires
            old(self).wf(),
            interpolation_total(*interpolate),
        ensures
            final(self).wf(),
            point_removed(*old(self), *final(self), controller_id@, property@, now, *interpolate),

    {
        let ghost before = *self;
        match self.control_points.remove(property) {
            Some(mut points) => {
                remove_by_id(&mut points, controller_id);
                self.control_points.insert(property.clone(), points);
            },
            None => {},
        }
        proof {
            if before.control_points@.contains_key(property@) {
                assert(self.control_points@ =~= before.control_points@.insert(
                    property@,
                    without_id(before.control_points@[property@], controller_id@),
                ));
            } else {
                assert(self.control_points@ =~= before.control_points@);
            }
        }
        self.apply_control_points(now, interpolate);
    }

    /// Drops the points of the controller from a mixer setting at the
    /// current time; see `remove_control_point_at`.
    pub fn remove_control_point<F: Fn(Number, Number, i64, i64) -> JsonValue>(
        &mut self,
        controller_id: &String,
        property: &String,
        interpolate: &F,
    )
        requires
            old(self).wf(),
            interpolation_total(*interpolate),
        ensures
            final(self).wf(),
            final(self).control_points@ == (if old(self).control_points@.contains_key(property@) {
                old(self).control_points@.insert(
                    property@,
                    without_id(old(self).control_points@[property@], controller_id@),
                )
            } else {
                old(self).control_points@
            }),
            final(self).slot_control_points@ == old(self).slot_control_points@,
            exists|now: i128| #[trigger] node_applied(*old(self), *final(self), now, *interpolate),
            same_identity(*old(self), *final(self)),
            same_schedule(*old(self), *final(self)),
            same_consumers(*old(self), *final(self)),
    {
        let now = now_nanos();
        self.remove_control_point_at(controller_id, property, now, interpolate);
    }

    /// Adds a control point to a property of a slot, keeping the points in
    /// time order, and applies all control points at `now`. Refused, with
    /// nothing changed, for a slot the mixer does not have, a malformed
    /// property name, or a value of the wrong type.
    pub fn add_slot_control_point_at<F: Fn(Number, Number, i64, i64) -> JsonValue>(
        &mut self,
        slot_id: &String,
        property: &String,
        cp: ControlPoint,
        now: i128,
        interpolate: &F,
    ) -> (r: Result<(), String>)
        requires
            old(self).wf(),
            interpolation_total(*interpolate),
        ensures
            final(self).wf(),
            checked_as(r, slot_point_error(*old(self), slot_id@, property@, cp.value)),
            r is Err ==> *final(self) == *old(self),
            r is Ok ==> slot_point_added(*old(self), *final(self), slot_id@, property@, cp, now, *interpolate),
    {
        if !self.slot_settings.contains_key(slot_id) {
            return Err(concat3(concat2("Mixer ", self.id.as_str()).as_str(), " has no slot with id ", slot_id.as_str()));
        }
        match parse_slot_config_key(property) {
            Err(e) => {
                return Err(e);
            },
            Ok((is_video, name)) => {
                match validate_slot_value(is_video, &name, &cp.value) {
                    Err(e) => {
                        return Err(e);
                    },
                    Ok(()) => {},
                }
            },
        }
        let ghost before = *self;
        let mut inner = match self.slot_control_points.remove(slot_id) {
            Some(t) => t,
            None => Table::new(),
        };
        let ghost inner_before = inner@;
        assert(inner_before == slot_points_or_empty(before.slot_control_points@, slot_id@));
        let mut points = match inner.remove(property) {
            Some(v) => v,
            None => Vec::new(),
        };
        proof {
            if before.slot_control_points@.contains_key(slot_id@) {
                assert(points_sorted(before.slot_control_points@[slot_id@]));
                if inner_before.contains_key(property@) {
                    assert(sorted_by_time(inner_before[property@]));
                }
            }
        }
        assert(points@ == points_or_empty(inner_before, property@));
        insert_by_time(&mut points, cp);
        inner.insert(property.clone(), points);
        let ghost new_inner = inner@;
        assert(new_inner =~= inner_before.insert(property@, new_inner[property@]));
        self.slot_control_points.insert(slot_id.clone(), inner);
        proof {
            assert forall|sl: Seq<char>| #[trigger] self.slot_control_points@.contains_key(sl) implies points_sorted(
                self.slot_control_points@[sl],
            ) by {
                if sl != slot_id@ {
                    assert(before.slot_control_points@.contains_key(sl));
                } else {
                    assert forall|k: Seq<char>| #[trigger] new_inner.contains_key(k) implies sorted_by_time(new_inner[k]) by {
                        if k != property@ {
                            assert(before.slot_control_points@.contains_key(sl));
                            assert(inner_before.contains_key(k));
                        }
                    }
                }
            }
        }
        self.apply_control_points(now, interpolate);
        Ok(())
    }

    /// Adds a control point to a property of a slot at the current time; see
    /// `add_slot_control_point_at`.
    pub fn add_slot_control_point<F: Fn(Number, Number, i64, i64) -> JsonValue>(
        &mut self,
        slot_id: &String,
        property: &String,
        cp: ControlPoint,
        interpolate: &F,
    ) -> (r: Result<(), String>)
        requires
            old(self).wf(),
            interpolation_total(*interpolate),
        ensures
            final(self).wf(),
            checked_as(r, slot_point_error(*old(self), slot_id@, property@, cp.value)),
            r is Err ==> *final(self) == *old(self),
            r is Ok ==> {
                let inner = slot_points_or_empty(old(self).slot_control_points@, slot_id@);
                let new_inner = final(self).slot_control_points@[slot_id@];
                &&& inserted_by_time(points_or_empty(inner, property@), cp, new_inner[property@])
                &&& new_inner == inner.insert(property@, new_inner[property@])
                &&& final(self).slot_control_points@ == old(self).slot_control_points@.insert(slot_id@, new_inner)
                &&& final(self).control_points@ == old(self).control_points@
                &&& exists|now: i128| #[trigger] node_applied(*old(self), *final(self), now, *interpolate)
                &&& same_identity(*old(self), *final(self))
                &&& same_schedule(*old(self), *final(self))
                &&& same_consumers(*old(self), *final(self))
            },
    {
        let now = now_nanos();
        self.add_slot_control_point_at(slot_id, property, cp, now, interpolate)
    }

    /// Drops the points of the controller from a property of a slot and
    /// applies all control points at `now`.
    pub fn remove_slot_control_point_at<F: Fn(Number, Number, i64, i64) -> JsonValue>(
        &mut self,
        controller_id: &String,
        slot_id: &String,
        property: &String,
        now: i128,
        interpolate: &F,
    )
        requires
            old(self).wf(),
            interpolation_total(*interpolate),
        ensures
            final(self).wf(),
            slot_point_removed(*old(self), *final(self), controller_id@, slot_id@, property@, now, *interpolate),

    {
        let ghost before = *self;
        if self.slot_control_points.contains_key(slot_id) {
            let mut inner = match self.slot_control_points.remove(slot_id) {
                Some(t) => t,
                None => Table::new(),
            };
            let ghost inner_before = inner@;
            match inner.remove(property) {
                Some(mut points) => {
                    assert(sorted_by_time(points@));
                    remove_by_id(&mut points, controller_id);
                    inner.insert(property.clone(), points);
                },
                None => {},
            }
            let ghost new_inner = inner@;
            self.slot_control_points.insert(slot_id.clone(), inner);
            proof {
                if inner_before.contains_key(property@) {
                    assert(new_inner =~= inner_before.insert(
                        property@,
                        without_id(inner_before[property@], controller_id@),
                    ));
                } else {
                    assert(new_inner =~= inner_before);
                    assert(self.slot_control_points@ =~= before.slot_control_points@);
                }
                assert forall|sl: Seq<char>| #[trigger] self.slot_control_points@.contains_key(sl) implies points_sorted(
                    self.slot_control_points@[sl],
                ) by {
                    if sl != slot_id@ {
                        assert(before.slot_control_points@.contains_key(sl));
                    } else {
                        assert forall|k: Seq<char>| #[trigger] new_inner.contains_key(k) implies sorted_by_time(new_inner[k]) by {
                            assert(inner_before.contains_key(k));
                        }
                    }
                }
            }
        }
        self.apply_control_points(now, interpolate);
    }

    /// Drops the points of the controller from a property of a slot at the
    /// current time; see `remove_slot_control_point_at`.
    pub fn remove_slot_control_point<F: Fn(Number, Number, i64, i64) -> JsonValue>(
        &mut self,
        controller_id: &String,
        slot_id: &String,
        property: &String,
        interpolate: &F,
    )
        requires
            old(self).wf(),
            interpolation_total(*interpolate),
        ensures
            final(self).wf(),
            final(self).slot_control_points@ == (if old(self).slot_control_points@.contains_key(slot_id@)
                && old(self).slot_control_points@[slot_id@].contains_key(property@) {
                old(self).slot_control_points@.insert(
                    slot_id@,
                    old(self).slot_control_points@[slot_id@].insert(
                        property@,
                        without_id(old(self).slot_control_points@[slot_id@][property@], controller_id@),
                    ),
                )
            } else {
                old(self).slot_control_points@
            }),
            final(self).control_points@ == old(self).control_points@,
            exists|now: i128| #[trigger] node_applied(*old(self), *final(self), now, *interpolate),
            same_identity(*old(self), *final(self)),
            same_schedule(*old(self), *final(self)),
            same_consumers(*old(self), *final(self)),
    {
        let now = now_nanos();
        self.remove_slot_control_point_at(controller_id, slot_id, property, now, interpolate);
    }

    /// The transition due at `now`, if any: as a source's, the mixer starts
    /// ten seconds before its cue, plays from the cue and stops at the end time.
    pub fn schedule_transition_due(&self, now: i128) -> (r: Option<State>)
        ensures
            r == crate::schedule::preroll_transition(self.state, self.cue_time, self.end_time, now),
    {
        crate::schedule::preroll_next(self.state, self.cue_time, self.end_time, now)
    }

    /// Sets the pipeline stage that goes with the state.
    pub fn apply_state_to_stage(&mut self)
        ensures
            final(self).pipeline.stage == mixer_stage(old(self).state),
            final(self).pipeline.video_branch_elements == old(self).pipeline.video_branch_elements,
            final(self).pipeline.audio_branch_elements == old(self).pipeline.audio_branch_elements,
            final(self).pipeline.width == old(self).pipeline.width,
            final(self).pipeline.height == old(self).pipeline.height,
            final(self).pipeline.sample_rate == old(self).pipeline.sample_rate,
            final(self).pipeline.fallback_image == old(self).pipeline.fallback_image,
            final(self).pipeline.fallback_timeout_ms == old(self).pipeline.fallback_timeout_ms,
            final(self).state == old(self).state,
            final(self).cue_time == old(self).cue_time,
            final(self).end_time == old(self).end_time,
            final(self).live_pipeline == old(self).live_pipeline,
            final(self).last_error == old(self).last_error,
            same_identity(*old(self), *final(self)),
            same_consumers(*old(self), *final(self)),
            same_inputs(*old(self), *final(self)),
            same_settings(*old(self), *final(self)),
    {
        self.pipeline.stage = match self.state {
            State::Initial | State::Stopping | State::Stopped => MixerPipelineStage::Idle,
            State::Starting => MixerPipelineStage::Starting,
            State::Started => MixerPipelineStage::Playing,
        };
    }

    /// Takes every transition due at `now` and sets the stage that goes with
    /// the new state; tells whether the state or the stage changed.
    pub fn advance_schedule(&mut self, now: i128) -> (changed: bool)
        ensures
            final(self).state == preroll_settle(old(self).state, old(self).cue_time, old(self).end_time, now),
            final(self).pipeline.stage == mixer_stage(final(self).state),
            changed == (final(self).state != old(self).state || final(self).pipeline.stage != old(self).pipeline.stage),
            final(self).pipeline.video_branch_elements == old(self).pipeline.video_branch_elements,
            final(self).pipeline.audio_branch_elements == old(self).pipeline.audio_branch_elements,
            final(self).pipeline.width == old(self).pipeline.width,
            final(self).pipeline.height == old(self).pipeline.height,
            final(self).pipeline.sample_rate == old(self).pipeline.sample_rate,
            final(self).pipeline.fallback_image == old(self).pipeline.fallback_image,
            final(self).pipeline.fallback_timeout_ms == old(self).pipeline.fallback_timeout_ms,
            final(self).cue_time == old(self).cue_time,
            final(self).end_time == old(self).end_time,
            final(self).live_pipeline == old(self).live_pipeline,
            final(self).last_error == old(self).last_error,
            same_identity(*old(self), *final(self)),
            same_consumers(*old(self), *final(self)),
            same_inputs(*old(self), *final(self)),
            same_settings(*old(self), *final(self)),
    {
        let (st, state_changed) = settle_preroll(self.state, self.cue_time, self.end_time, now);
        self.state = st;
        let old_stage = self.pipeline.stage;
        self.apply_state_to_stage();
        state_changed || old_stage != self.pipeline.stage
    }

    /// Applies the control points and takes the transitions due at `now`.
    pub fn refresh_at<F: Fn(Number, Number, i64, i64) -> JsonValue>(&mut self, now: i128, interpolate: &F)
        requires
            interpolation_total(*interpolate),
        ensures
            node_applied(*old(self), *final(self), now, *interpolate),
            final(self).control_points@ == old(self).control_points@,
            final(self).slot_control_points@ == old(self).slot_control_points@,
            final(self).state == preroll_settle(old(self).state, old(self).cue_time, old(self).end_time, now),
            final(self).pipeline.stage == mixer_stage(final(self).state),
            final(self).cue_time == old(self).cue_time,
            final(self).end_time == old(self).end_time,
            final(self).live_pipeline == old(self).live_pipeline,
            final(self).last_error == old(self).last_error,
            same_identity(*old(self), *final(self)),
            same_consumers(*old(self), *final(self)),
    {
        self.apply_control_points(now, interpolate);
        self.advance_schedule(now);
    }

    /// Applies the control points and takes the transitions due at the
    /// current time; see `refresh_at`.
    pub fn refresh<F: Fn(Number, Number, i64, i64) -> JsonValue>(&mut self, interpolate: &F)
        requires
            interpolation_total(*interpolate),
        ensures
            exists|now: i128|
                #![trigger preroll_settle(old(self).state, old(self).cue_time, old(self).end_time, now)]
                node_applied(*old(self), *final(self), now, *interpolate) && final(self).state
                    == preroll_settle(old(self).state, old(self).cue_time, old(self).end_time, now),
            final(self).control_points@ == old(self).control_points@,
            final(self).slot_control_points@ == old(self).slot_control_points@,
            final(self).pipeline.stage == mixer_stage(final(self).state),
            final(self).cue_time == old(self).cue_time,
            final(self).end_time == old(self).end_time,
            final(self).live_pipeline == old(self).live_pipeline,
            final(self).last_error == old(self).last_error,
            same_identity(*old(self), *final(self)),
            same_consumers(*old(self), *final(self)),
    {
        let now = now_nanos();
        self.refresh_at(now, interpolate);
    }

    /// Sets the cue and end times at `now`: the control points are applied,
    /// a mixer that was starting or had stopped starts over, the transitions
    /// due are taken, and the pipeline profile is made anew from the settings.
    pub fn schedule_at<F: Fn(Number, Number, i64, i64) -> JsonValue>(
        &mut self,
        cue_time: Option<i128>,
        end_time: Option<i128>,
        now: i128,
        interpolate: &F,
    )
        requires
            interpolation_total(*interpolate),
        ensures
            final(self).cue_time == cue_time,
            final(self).end_time == end_time,
            final(self).last_error is None,
            node_applied(*old(self), *final(self), now, *interpolate),
            final(self).control_points@ == old(self).control_points@,
            final(self).slot_control_points@ == old(self).slot_control_points@,
            final(self).state == preroll_settle(rescheduled(old(self).state), cue_time, end_time, now),
            profile_for(
                final(self).pipeline,
                final(self).settings@,
                old(self).audio_enabled,
                old(self).video_enabled,
                mixer_stage(final(self).state),
            ),
            final(self).live_pipeline == old(self).live_pipeline,
            same_identity(*old(self), *final(self)),
            same_consumers(*old(self), *final(self)),
    {
        self.cue_time = cue_time;
        self.end_time = end_time;
        self.last_error = None;
        self.apply_control_points(now, interpolate);
        match self.state {
            State::Starting | State::Stopping | State::Stopped => {
                self.state = State::Initial;
            },
            _ => {},
        }
        self.advance_schedule(now);
        self.pipeline = MixerPipelineProfile::from_settings(&self.settings, self.audio_enabled, self.video_enabled, self.pipeline.stage);
    }

    /// Sets the cue and end times at the current time; see `schedule_at`.
    pub fn schedule<F: Fn(Number, Number, i64, i64) -> JsonValue>(
        &mut self,
        cue_time: Option<i128>,
        end_time: Option<i128>,
        interpolate: &F,
    ) -> (r: Result<(), String>)
        requires
            interpolation_total(*interpolate),
        ensures
            r is Ok,
            final(self).cue_time == cue_time,
            final(self).end_time == end_time,
            final(self).last_error is None,
            exists|now: i128|
                #![trigger preroll_settle(rescheduled(old(self).state), cue_time, end_time, now)]
                node_applied(*old(self), *final(self), now, *interpolate) && final(self).state
                    == preroll_settle(rescheduled(old(self).state), cue_time, end_time, now),
            final(self).control_points@ == old(self).control_points@,
            final(self).slot_control_points@ == old(self).slot_control_points@,
            profile_for(
                final(self).pipeline,
                final(self).settings@,
                old(self).audio_enabled,
                old(self).video_enabled,
                mixer_stage(final(self).state),
            ),
            final(self).live_pipeline == old(self).live_pipeline,
            same_identity(*old(self), *final(self)),
            same_consumers(*old(self), *final(self)),
    {
        let now = now_nanos();
        self.schedule_at(cue_time, end_time, now, interpolate);
        Ok(())
    }

    /// Tears the live pipeline down and stops.
    pub fn stop(&mut self)
        ensures
            !final(self).live_pipeline,
            final(self).pipeline.stage == MixerPipelineStage::Idle,
            final(self).state == State::Stopped,
            final(self).cue_time == old(self).cue_time,
            final(self).end_time == old(self).end_time,
            final(self).last_error == old(self).last_error,
            same_identity(*old(self), *final(self)),
            same_consumers(*old(self), *final(self)),
            same_inputs(*old(self), *final(self)),
            same_settings(*old(self), *final(self)),
    {
        self.live_pipeline = false;
        self.state = State::Stopped;
        self.pipeline.stage = MixerPipelineStage::Idle;
    }

    /// Records an error.
    pub fn mark_error(&mut self, message: String)
        ensures
            final(self).last_error == Some(message),
            final(self).cue_time == old(self).cue_time,
            final(self).end_time == old(self).end_time,
            final(self).state == old(self).state,
            final(self).pipeline == old(self).pipeline,
            final(self).live_pipeline == old(self).live_pipeline,
            same_identity(*old(self), *final(self)),
            same_consumers(*old(self), *final(self)),
            same_inputs(*old(self), *final(self)),
            same_settings(*old(self), *final(self)),
    {
        self.last_error = Some(message);
    }

    /// The live pipeline reported an error, or could not be brought in line
    /// with the model: it is recorded, and the mixer stops and tears the
    /// pipeline down.
    pub fn pipeline_failed(&mut self, message: String)
        ensures
            final(self).last_error == Some(message),
            final(self).pipeline.stage == MixerPipelineStage::Idle,
            final(self).state == State::Stopped,
            !final(self).live_pipeline,
            final(self).cue_time == old(self).cue_time,
            final(self).end_time == old(self).end_time,
            same_identity(*old(self), *final(self)),
            same_consumers(*old(self), *final(self)),
            same_inputs(*old(self), *final(self)),
            same_settings(*old(self), *final(self)),
    {
        self.last_error = Some(message);
        self.state = State::Stopped;
        self.pipeline.stage = MixerPipelineStage::Idle;
        self.live_pipeline = false;
    }

    /// The live pipeline reached the end of its stream: the mixer stops and
    /// tears the pipeline down.
    pub fn pipeline_ended(&mut self)
        ensures
            final(self).pipeline.stage == MixerPipelineStage::Idle,
            final(self).state == State::Stopped,
            !final(self).live_pipeline,
            final(self).last_error == old(self).last_error,
            final(self).cue_time == old(self).cue_time,
            final(self).end_time == old(self).end_time,
            same_identity(*old(self), *final(self)),
            same_consumers(*old(self), *final(self)),
            same_inputs(*old(self), *final(self)),
            same_settings(*old(self), *final(self)),
    {
        self.state = State::Stopped;
        self.pipeline.stage = MixerPipelineStage::Idle;
        self.live_pipeline = false;
    }

    /// The media layer built a live pipeline for this mixer.
    pub fn attach_live_pipeline(&mut self)
        ensures
            final(self).live_pipeline,
            final(self).state == old(self).state,
            final(self).pipeline == old(self).pipeline,
            final(self).last_error == old(self).last_error,
            final(self).cue_time == old(self).cue_time,
            final(self).end_time == old(self).end_time,
            same_identity(*old(self), *final(self)),
            same_consumers(*old(self), *final(self)),
            same_inputs(*old(self), *final(self)),
            same_settings(*old(self), *final(self)),
    {
        self.live_pipeline = true;
    }

    /// The mixer's report: its slots, its consumers of each output in
    /// ascending order, its times, its state, and its settings and control
    /// points, its own and its slots'.
    pub fn as_info(&self) -> (info: NodeInfo)
        ensures
            info matches NodeInfo::Mixer(m) && {
                &&& m.slots@ == self.slots@
                &&& m.video_consumer_slot_ids matches Some(v) && char_seqs(v@)
                    == self.video_consumer_slot_ids.listing()
                &&& m.audio_consumer_slot_ids matches Some(a) && char_seqs(a@)
                    == self.audio_consumer_slot_ids.listing()
                &&& m.cue_time == self.cue_time
                &&& m.end_time == self.end_time
                &&& m.state == self.state
                &&& m.settings@ == self.settings@
                &&& m.control_points@ == self.control_points@
                &&& m.slot_settings@ == self.slot_settings@
                &&& m.slot_control_points@ == self.slot_control_points@
            },
    {
        NodeInfo::Mixer(
            MixerInfo {
                slots: self.slots.duplicate(),
                video_consumer_slot_ids: Some(self.video_consumer_slot_ids.to_vec()),
                audio_consumer_slot_ids: Some(self.audio_consumer_slot_ids.to_vec()),
                cue_time: self.cue_time,
                end_time: self.end_time,
                state: self.state,
                settings: self.settings.duplicate(),
                control_points: self.control_points.duplicate(),
                slot_settings: self.slot_settings.duplicate(),
                slot_control_points: self.slot_control_points.duplicate(),
            },
        )
    }

    /// Closes the input slot of the link: its volume, settings and control
    /// points go.
    pub fn disconnect_input_slot(&mut self, link_id: &String)
        requires
            old(self).wf(),
        ensures
            final(self).wf(),
            final(self).slots@ == old(self).slots@.remove(link_id@),
            final(self).slot_settings@ == old(self).slot_settings@.remove(link_id@),
            final(self).slot_control_points@ == old(self).slot_control_points@.remove(link_id@),
            same_identity(*old(self), *final(self)),
            same_schedule(*old(self), *final(self)),
            same_consumers(*old(self), *final(self)),
            same_settings(*old(self), *final(self)),
    {
        self.slots.remove(link_id);
        self.slot_settings.remove(link_id);
        self.slot_control_points.remove(link_id);
        proof {
            assert forall|sl: Seq<char>| #[trigger] self.slot_control_points@.contains_key(sl) implies points_sorted(
                self.slot_control_points@[sl],
            ) by {
                assert(old(self).slot_control_points@.contains_key(sl));
            }
        }
    }
}

/// A string of one character.
///
/// Removing a controller's points from a mixer setting right after adding
/// one of them leaves the setting with the points it had, less any others of
/// that controller.
pub proof fn law_mixer_remove_undoes_add<F: Fn(Number, Number, i64, i64) -> JsonValue>(
    m0: MixerNode,
    m1: MixerNode,
    m2: MixerNode,
    property: Seq<char>,
    cp: ControlPoint,
    now1: i128,
    now2: i128,
    interpolate: F,
)
    requires
        point_added(m0, m1, property, cp, now1, interpolate),
        point_removed(m1, m2, cp.id@, property, now2, interpolate),
    ensures
        m2.control_points@ == m0.control_points@.insert(
            property,
            without_id(points_or_empty(m0.control_points@, property), cp.id@),
        ),
        m2.slot_control_points@ == m0.slot_control_points@,
{
    crate::control::law_remove_undoes_add(
        points_or_empty(m0.control_points@, property),
        cp,
        m1.control_points@[property],
    );
    assert(m2.control_points@ =~= m0.control_points@.insert(
        property,
        without_id(points_or_empty(m0.control_points@, property), cp.id@),
    ));
}

} // verus!
