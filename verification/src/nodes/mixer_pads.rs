use vstd::prelude::*;
use crate::table::Table;
use crate::text::{chars_of, concat2, concat3, owned, starts_with, text_from};
use crate::value::{JsonValue, Number};

verus! {

// How the settings of a mixer slot reach the pads that the slot's media enter
// the mixers by: which settings apply to a pad, under which property names,
// and what value each becomes for a property of a given type.

/// The prefix of the slot settings of a medium.
pub open spec fn medium_prefix(video: bool) -> Seq<char> {
    if video {
        "video::"@
    } else {
        "audio::"@
    }
}

/// `s` with every leading repetition of `prefix` taken off.
pub open spec fn trim_all(s: Seq<char>, prefix: Seq<char>) -> Seq<char>
    decreases s.len(),
{
    if prefix.len() > 0 && prefix.is_prefix_of(s) {
        trim_all(s.skip(prefix.len() as int), prefix)
    } else {
        s
    }
}

/// The pad properties that slot settings `entries` give a pad of the medium:
/// each setting of the medium, in order, under its name with the medium's
/// prefix taken off; the video `sizing-policy` setting is not a pad property.
pub open spec fn pad_settings(entries: Seq<(Seq<char>, JsonValue)>, video: bool) -> Seq<(Seq<char>, JsonValue)>
    decreases entries.len(),
{
    if entries.len() == 0 {
        seq![]
    } else {
        let rest = pad_settings(entries.drop_last(), video);
        let key = entries.last().0;
        let name = trim_all(key, medium_prefix(video));
        if medium_prefix(video).is_prefix_of(key) && !(video && name == "sizing-policy"@) {
            rest.push((name, entries.last().1))
        } else {
            rest
        }
    }
}

/// The entries of a table of settings, in their stored order.
pub open spec fn setting_entries(t: Table<JsonValue>) -> Seq<(Seq<char>, JsonValue)> {
    Seq::new(t.entries_seq().len(), |i: int| (t.entries_seq()[i].0@, t.entries_seq()[i].1))
}

/// Whether `p` occurs in `s` at `at`.
fn occurs_at(s: &Vec<char>, p: &Vec<char>, at: usize) -> (r: bool)
    requires
        at <= s@.len(),
    ensures
        r == p@.is_prefix_of(s@.skip(at as int)),
{
    if p.len() > s.len() - at {
        return false;
    }
    let mut j: usize = 0;
    while j < p.len()
        invariant
            j <= p@.len(),
            at + p.len() <= s.len(),
            at + p@.len() <= s@.len(),
            forall|k: int| 0 <= k < j ==> #[trigger] p@[k] == s@[at + k],
        decreases p@.len() - j,
    {
        if p[j] != s[at + j] {
            assert(s@.skip(at as int)[j as int] == s@[at + j]);
            return false;
        }
        j = j + 1;
    }
    assert(p@ =~= s@.skip(at as int).take(p@.len() as int));
    true
}

/// `s` with every leading repetition of `prefix` taken off.
pub fn trim_prefix_all(s: &str, prefix: &str) -> (r: String)
    ensures
        r@ == trim_all(s@, prefix@),
{
    let c = chars_of(s);
    let p = chars_of(prefix);
    if p.len() == 0 {
        return owned(s);
    }
    let mut at: usize = 0;
    let clen = c.len();
    let plen = p.len();
    assert(c@.skip(0) =~= c@);
    while occurs_at(&c, &p, at)
        invariant
            at <= c@.len(),
            clen == c@.len(),
            plen == p@.len(),
            c@ == s@,
            p@ == prefix@,
            p@.len() > 0,
            trim_all(s@, prefix@) == trim_all(c@.skip(at as int), prefix@),
        decreases c@.len() - at,
    {
        assert(p@.len() <= c@.skip(at as int).len());
        assert(c@.skip(at as int).skip(p@.len() as int) =~= c@.skip(at + p@.len()));
        at = at + plen;
    }
    text_from(&c, at)
}

/// The pad properties that a slot's settings give a pad of the medium, in
/// the order the settings are stored.
pub fn slot_pad_settings(settings: &Table<JsonValue>, video: bool) -> (r: Vec<(String, JsonValue)>)
    ensures
        r@.len() == pad_settings(setting_entries(*settings), video).len(),
        forall|i: int|
            0 <= i < r@.len() ==> (#[trigger] r@[i]).0@ == pad_settings(setting_entries(*settings), video)[i].0
                && r@[i].1 == pad_settings(setting_entries(*settings), video)[i].1,
{
    let prefix = if video { "video::" } else { "audio::" };
    let entries = settings.entries();
    let ghost all = setting_entries(*settings);
    let mut r: Vec<(String, JsonValue)> = Vec::new();
    let mut i: usize = 0;
    while i < entries.len()
        invariant
            i <= entries@.len(),
            entries@ == settings.entries_seq(),
            all == setting_entries(*settings),
            all.len() == entries@.len(),
            prefix@ == medium_prefix(video),
            r@.len() == pad_settings(all.take(i as int), video).len(),
            forall|j: int|
                0 <= j < r@.len() ==> (#[trigger] r@[j]).0@ == pad_settings(all.take(i as int), video)[j].0
                    && r@[j].1 == pad_settings(all.take(i as int), video)[j].1,
        decreases entries@.len() - i,
    {
        let key = &entries[i].0;
        assert(all.take(i + 1).drop_last() =~= all.take(i as int));
        assert(all.take(i + 1).last() == all[i as int]);
        assert(all[i as int] == (key@, entries@[i as int].1));
        if starts_with(key.as_str(), prefix) {
            let name = trim_prefix_all(key.as_str(), prefix);
            let skip = video && name == owned("sizing-policy");
            if !skip {
                r.push((name, entries[i].1.clone()));
            }
        }
        i = i + 1;
    }
    assert(all.take(entries@.len() as int) =~= all);
    r
}

/// The names a pad's property may go by: its own, and for a video pad the
/// other name of a position (`x` and `xpos`, `y` and `ypos`), in that order.
pub open spec fn property_names(property: Seq<char>, video: bool) -> Seq<Seq<char>> {
    if video && property == "x"@ {
        seq![property, "xpos"@]
    } else if video && property == "y"@ {
        seq![property, "ypos"@]
    } else if video && property == "xpos"@ {
        seq![property, "x"@]
    } else if video && property == "ypos"@ {
        seq![property, "y"@]
    } else {
        seq![property]
    }
}

/// The names to look a pad property up by, in the order to try them: the
/// first that the pad has is the one set.
pub fn property_candidates(property: &String, video: bool) -> (r: Vec<String>)
    ensures
        r@.len() == property_names(property@, video).len(),
        forall|i: int| 0 <= i < r@.len() ==> (#[trigger] r@[i])@ == property_names(property@, video)[i],
{
    let mut r: Vec<String> = Vec::new();
    r.push(owned(property.as_str()));
    if video {
        let alias = if *property == owned("x") {
            Some("xpos")
        } else if *property == owned("y") {
            Some("ypos")
        } else if *property == owned("xpos") {
            Some("x")
        } else if *property == owned("ypos") {
            Some("y")
        } else {
            None
        };
        match alias {
            Some(a) => r.push(owned(a)),
            None => {},
        }
    }
    r
}

/// The type of a pad property, as the value to set must have it.
#[derive(Debug)]
pub enum PadValueKind {
    Bool,
    Text,
    Int32,
    UInt32,
    Int64,
    UInt64,
    Float32,
    Float64,
    /// An enum or flags type, set by nick.
    Choice,
    /// Any other type: its name, and the name of the pad.
    Unsupported { value_type: String, pad: String },
}

/// A value ready to be set on a pad property of its type.
#[derive(Debug, PartialEq, Eq)]
pub enum PadValue {
    Bool(bool),
    Text(String),
    Int32(i32),
    UInt32(u32),
    Int64(i64),
    UInt64(u64),
    /// A 32-bit float property, set to the nearest float to the number.
    Float32(Number),
    /// A 64-bit float property, set to the number.
    Float64(Number),
    Nick(String),
}

/// A number read as a signed integer: rounded toward zero and clamped.
pub open spec fn signed_of(v: JsonValue) -> Option<i64> {
    match v {
        JsonValue::Number(n) => Some(n.spec_trunc_i64()),
        _ => None,
    }
}

/// A number read as an unsigned integer: nothing for a negative number.
pub open spec fn unsigned_of(v: JsonValue) -> Option<u64> {
    match v {
        JsonValue::Number(n) => n.spec_trunc_u64(),
        _ => None,
    }
}

/// What setting a pad property of kind `kind` called `property` to `v`
/// comes to: the value to set, or the message of the error.
pub open spec fn pad_value_of(kind: PadValueKind, property: Seq<char>, v: JsonValue) -> Result<PadValue, Seq<char>> {
    match kind {
        PadValueKind::Bool => match v {
            JsonValue::Bool(b) => Ok(PadValue::Bool(b)),
            _ => Err(property + " expects a boolean value"@),
        },
        PadValueKind::Text => match v {
            JsonValue::Text(s) => Ok(PadValue::Text(s)),
            _ => Err(property + " expects a string value"@),
        },
        PadValueKind::Int32 => match signed_of(v) {
            Some(i) => if i32::MIN <= i <= i32::MAX {
                Ok(PadValue::Int32(i as i32))
            } else {
                Err(property + " is out of i32 range"@)
            },
            None => Err(property + " expects a numeric value"@),
        },
        PadValueKind::UInt32 => match unsigned_of(v) {
            Some(u) => if u <= u32::MAX {
                Ok(PadValue::UInt32(u as u32))
            } else {
                Err(property + " is out of u32 range"@)
            },
            None => Err(property + " expects an unsigned numeric value"@),
        },
        PadValueKind::Int64 => match signed_of(v) {
            Some(i) => Ok(PadValue::Int64(i)),
            None => Err(property + " expects a numeric value"@),
        },
        PadValueKind::UInt64 => match unsigned_of(v) {
            Some(u) => Ok(PadValue::UInt64(u)),
            None => Err(property + " expects an unsigned numeric value"@),
        },
        PadValueKind::Float32 => match v {
            JsonValue::Number(n) => Ok(PadValue::Float32(n)),
            _ => Err(property + " expects a numeric value"@),
        },
        PadValueKind::Float64 => match v {
            JsonValue::Number(n) => Ok(PadValue::Float64(n)),
            _ => Err(property + " expects a numeric value"@),
        },
        PadValueKind::Choice => match v {
            JsonValue::Text(s) => Ok(PadValue::Nick(s)),
            _ => Err(property + " expects a string enum/flag value"@),
        },
        PadValueKind::Unsupported { value_type, pad } => Err(
            "Unsupported value type `"@ + value_type@ + "` for pad property `"@ + property + "` on `"@ + pad@ + "`"@,
        ),
    }
}

/// `r` is what `pad_value_of` gives, with strings in place of their characters.
pub open spec fn converted_as(r: Result<PadValue, String>, expected: Result<PadValue, Seq<char>>) -> bool {
    match expected {
        Ok(PadValue::Text(s)) => r matches Ok(PadValue::Text(t)) && t@ == s@,
        Ok(PadValue::Nick(s)) => r matches Ok(PadValue::Nick(t)) && t@ == s@,
        Ok(v) => r == Ok::<PadValue, String>(v),
        Err(e) => r matches Err(m) && m@ == e,
    }
}

/// The value to set a pad property of kind `kind` called `property` to, for
/// the slot setting `value`.
pub fn pad_value(kind: &PadValueKind, property: &String, value: &JsonValue) -> (r: Result<PadValue, String>)
    ensures
        converted_as(r, pad_value_of(*kind, property@, *value)),
{
    let p = property.as_str();
    match kind {
        PadValueKind::Bool => match value {
            JsonValue::Bool(b) => Ok(PadValue::Bool(*b)),
            _ => Err(concat2(p, " expects a boolean value")),
        },
        PadValueKind::Text => match value {
            JsonValue::Text(s) => Ok(PadValue::Text(owned(s.as_str()))),
            _ => Err(concat2(p, " expects a string value")),
        },
        PadValueKind::Int32 => match value {
            JsonValue::Number(n) => {
                let i = n.trunc_i64();
                if i32::MIN as i64 <= i && i <= i32::MAX as i64 {
                    Ok(PadValue::Int32(i as i32))
                } else {
                    Err(concat2(p, " is out of i32 range"))
                }
            },
            _ => Err(concat2(p, " expects a numeric value")),
        },
        PadValueKind::UInt32 => {
            let u = match value {
                JsonValue::Number(n) => n.trunc_u64(),
                _ => None,
            };
            match u {
                Some(u) => if u <= u32::MAX as u64 {
                    Ok(PadValue::UInt32(u as u32))
                } else {
                    Err(concat2(p, " is out of u32 range"))
                },
                None => Err(concat2(p, " expects an unsigned numeric value")),
            }
        },
        PadValueKind::Int64 => match value {
            JsonValue::Number(n) => Ok(PadValue::Int64(n.trunc_i64())),
            _ => Err(concat2(p, " expects a numeric value")),
        },
        PadValueKind::UInt64 => {
            let u = match value {
                JsonValue::Number(n) => n.trunc_u64(),
                _ => None,
            };
            match u {
                Some(u) => Ok(PadValue::UInt64(u)),
                None => Err(concat2(p, " expects an unsigned numeric value")),
            }
        },
        PadValueKind::Float32 => match value {
            JsonValue::Number(n) => Ok(PadValue::Float32(n.clone())),
            _ => Err(concat2(p, " expects a numeric value")),
        },
        PadValueKind::Float64 => match value {
            JsonValue::Number(n) => Ok(PadValue::Float64(n.clone())),
            _ => Err(concat2(p, " expects a numeric value")),
        },
        PadValueKind::Choice => match value {
            JsonValue::Text(s) => Ok(PadValue::Nick(owned(s.as_str()))),
            _ => Err(concat2(p, " expects a string enum/flag value")),
        },
        PadValueKind::Unsupported { value_type, pad } => {
            let head = concat3("Unsupported value type `", value_type.as_str(), "` for pad property `");
            let middle = concat3(head.as_str(), p, "` on `");
            Err(concat3(middle.as_str(), pad.as_str(), "`"))
        },
    }
}

} // verus!
