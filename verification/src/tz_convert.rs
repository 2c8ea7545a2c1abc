//! Timestamps in JSON values, told in the time zone of the user.
//!
//! Clients of the HTTP server thereby see times in their local zone instead of UTC.

use vstd::prelude::*;
use vstd::utf8::{encode_utf8, is_ascii_chars_encode_utf8};

use crate::json::{Json, JsonData};
use crate::text::{chars_of, is_digit, string_of};
use crate::time::{
    begins_like_rfc3339, can_be_told, can_be_told_everywhere, is_zone, parse_rfc3339, rfc3339_instant, text_in_zone,
    zone_exists, zoned_text, SecondsFormat, Timestamp,
};

verus! {

// ── Texts ────────────────────────────────────────────────────────

/// The least length of a timestamp, in bytes: `YYYY-MM-DDTHH:MM:SS`.
pub const TIMESTAMP_BYTES: usize = 19;

/// Whether a text could be a timestamp: it begins with a digit and is long enough.
pub open spec fn may_be_timestamp(s: Seq<char>) -> bool {
    s.len() > 0 && is_digit(s[0]) && encode_utf8(s).len() >= TIMESTAMP_BYTES
}

/// Whether a text has the length of a timestamp without a zone, with a `T` before the time or, as
/// SQLite writes it, a space.
pub open spec fn has_zoneless_form(s: Seq<char>) -> bool {
    encode_utf8(s).len() == TIMESTAMP_BYTES && (encode_utf8(s)[10] == 0x20 || encode_utf8(s)[10]
        == 0x54)
}

/// A text with `T` for each space.
pub open spec fn spaces_replaced(s: Seq<char>) -> Seq<char> {
    s.map_values(
        |c: char|
            if c == ' ' {
                'T'
            } else {
                c
            },
    )
}

/// The instant that a timestamp tells. Besides RFC 3339, a date and a time without a zone are one,
/// such as SQLite writes; they are in UTC.
pub open spec fn instant_told(s: Seq<char>) -> Option<Timestamp> {
    if !may_be_timestamp(s) {
        None
    } else if rfc3339_instant(s) is Some {
        rfc3339_instant(s)
    } else if has_zoneless_form(s) {
        rfc3339_instant(spaces_replaced(s) + "+00:00"@)
    } else {
        None
    }
}

/// The text in place of `s`, in a time zone: a timestamp is told anew, any other text stays.
pub open spec fn text_converted(s: Seq<char>, zone: Seq<char>) -> Seq<char> {
    match instant_told(s) {
        Some(t) => zoned_text(t, zone, SecondsFormat::AutoSi, false),
        None => s,
    }
}

fn replace_spaces(s: &str) -> (r: String)
    ensures
        r@ == spaces_replaced(s@),
{
    let v = chars_of(s);
    let mut out: Vec<char> = Vec::new();
    let mut i: usize = 0;
    while i < v.len()
        invariant
            i <= v.len(),
            v@ == s@,
            out@ == spaces_replaced(s@.take(i as int)),
        decreases v.len() - i,
    {
        if v[i] == ' ' {
            out.push('T');
        } else {
            out.push(v[i]);
        }
        i += 1;
        assert(out@ =~= spaces_replaced(s@.take(i as int)));
    }
    assert(s@.take(i as int) =~= s@);
    assert(out@.subrange(0, out@.len() as int) =~= out@);
    string_of(&out, 0, out.len())
}

/// Whether a text could be a timestamp.
pub fn looks_like_timestamp(s: &str) -> (r: bool)
    ensures
        r == may_be_timestamp(s@),
{
    let v = chars_of(s);
    v.len() > 0 && '0' <= v[0] && v[0] <= '9' && s.as_bytes().len() >= TIMESTAMP_BYTES
}

/// The RFC 3339 text for a text that has the form of a timestamp without a zone, which is in UTC.
/// `None` where the text does not have that form.
pub fn rfc3339_of_zoneless_time(s: &str) -> (r: Option<String>)
    ensures
        match r {
            Some(text) => has_zoneless_form(s@) && text@ == spaces_replaced(s@) + "+00:00"@,
            None => !has_zoneless_form(s@),
        },
{
    let bytes = s.as_bytes();
    if bytes.len() != TIMESTAMP_BYTES || (bytes[10] != 0x20 && bytes[10] != 0x54) {
        return None;
    }
    let mut text = replace_spaces(s);
    text.append("+00:00");
    Some(text)
}

/// The instant that a timestamp tells.
fn read_timestamp(s: &str) -> (r: Option<Timestamp>)
    ensures
        r == instant_told(s@),
        r matches Some(t) ==> t.valid(),
{
    if !looks_like_timestamp(s) {
        return None;
    }
    if let Some(t) = parse_rfc3339(s) {
        return Some(t);
    }
    match rfc3339_of_zoneless_time(s) {
        Some(text) => parse_rfc3339(text.as_str()),
        None => None,
    }
}

/// Tells a timestamp in a time zone. `None` where the text is no timestamp.
fn try_convert_timestamp(s: &str, tz_name: &str) -> (r: Option<String>)
    requires
        zone_exists(tz_name@),
    ensures
        match r {
            Some(text) => {
                &&& instant_told(s@) matches Some(t)
                &&& text@ == zoned_text(t, tz_name@, SecondsFormat::AutoSi, false)
                &&& can_be_told(t, tz_name@) ==> instant_told(text@) == Some(t)
                &&& can_be_told(t, tz_name@) ==> rfc3339_instant(text@) == Some(t)
            },
            None => instant_told(s@) is None,
        },
{
    match read_timestamp(s) {
        Some(t) => {
            let text = text_in_zone(t, tz_name, SecondsFormat::AutoSi, false);
            proof {
                if begins_like_rfc3339(text@) {
                    is_ascii_chars_encode_utf8(text@);
                }
            }
            Some(text)
        },
        None => None,
    }
}

// ── Values ───────────────────────────────────────────────────────

/// A JSON value with every text converted.
pub open spec fn texts_converted(data: JsonData, zone: Seq<char>) -> JsonData
    decreases data,
{
    match data {
        JsonData::Text(s) => JsonData::Text(text_converted(s, zone)),
        JsonData::Array(items) => JsonData::Array(
            Seq::new(
                items.len(),
                |i: int|
                    if 0 <= i < items.len() {
                        texts_converted(items[i], zone)
                    } else {
                        JsonData::Null
                    },
            ),
        ),
        JsonData::Object(members) => JsonData::Object(
            Seq::new(
                members.len(),
                |i: int|
                    if 0 <= i < members.len() {
                        (members[i].0, texts_converted(members[i].1, zone))
                    } else {
                        (Seq::empty(), JsonData::Null)
                    },
            ),
        ),
        other => other,
    }
}

/// Whether the timestamps of a JSON value tell the same instants after a conversion to a time zone
/// as before, wherever RFC 3339 can tell them there.
pub open spec fn instants_kept(before: JsonData, after: JsonData, zone: Seq<char>) -> bool
    decreases before,
{
    match (before, after) {
        (JsonData::Text(a), JsonData::Text(b)) => match instant_told(a) {
            Some(t) => can_be_told(t, zone) ==> instant_told(b) == Some(t),
            None => b == a,
        },
        (JsonData::Array(xs), JsonData::Array(ys)) => xs.len() == ys.len() && (forall|i: int|
            #![trigger xs[i]]
            0 <= i < xs.len() ==> instants_kept(xs[i], ys[i], zone)),
        (JsonData::Object(xs), JsonData::Object(ys)) => xs.len() == ys.len() && (forall|i: int|
            #![trigger xs[i]]
            0 <= i < xs.len() ==> instants_kept(xs[i].1, ys[i].1, zone)),
        _ => before == after,
    }
}

/// Whether the parser of RFC 3339 reads the same instants from the texts of a JSON value after a
/// conversion to a time zone as before, wherever RFC 3339 can tell them there. A text of nineteen
/// bytes without a zone is read in UTC. A text from which no instant is read stays as it is.
pub open spec fn rfc3339_kept(before: JsonData, after: JsonData, zone: Seq<char>) -> bool
    decreases before,
{
    match (before, after) {
        (JsonData::Text(a), JsonData::Text(b)) => {
            let read = if a.len() == 0 || a[0] < '0' || '9' < a[0] || encode_utf8(a).len() < 19 {
                None
            } else if rfc3339_instant(a) is Some {
                rfc3339_instant(a)
            } else if encode_utf8(a).len() == 19 && (encode_utf8(a)[10] == 0x20 || encode_utf8(
                a,
            )[10] == 0x54) {
                rfc3339_instant(
                    Seq::new(
                        a.len(),
                        |i: int|
                            if a[i] == ' ' {
                                'T'
                            } else {
                                a[i]
                            },
                    ) + "+00:00"@,
                )
            } else {
                None
            };
            match read {
                Some(t) => zone_exists(zone) && can_be_told(t, zone) ==> rfc3339_instant(b) == Some(
                    t,
                ),
                None => b == a,
            }
        },
        (JsonData::Array(xs), JsonData::Array(ys)) => xs.len() == ys.len() && (forall|i: int|
            #![trigger xs[i]]
            0 <= i < xs.len() ==> rfc3339_kept(xs[i], ys[i], zone)),
        (JsonData::Object(xs), JsonData::Object(ys)) => xs.len() == ys.len() && (forall|i: int|
            #![trigger xs[i]]
            0 <= i < xs.len() ==> xs[i].0 == ys[i].0 && rfc3339_kept(xs[i].1, ys[i].1, zone)),
        _ => before == after,
    }
}

/// Whether RFC 3339 can tell every timestamp of a JSON value in a time zone.
pub open spec fn can_all_be_told(data: JsonData, zone: Seq<char>) -> bool
    decreases data,
{
    match data {
        JsonData::Text(s) => match instant_told(s) {
            Some(t) => can_be_told(t, zone),
            None => true,
        },
        JsonData::Array(items) => forall|i: int|
            #![trigger items[i]]
            0 <= i < items.len() ==> can_all_be_told(items[i], zone),
        JsonData::Object(members) => forall|i: int|
            #![trigger members[i]]
            0 <= i < members.len() ==> can_all_be_told(members[i].1, zone),
        _ => true,
    }
}

/// Whether RFC 3339 can tell every timestamp of a JSON value in every time zone.
pub open spec fn can_all_be_told_everywhere(data: JsonData) -> bool
    decreases data,
{
    match data {
        JsonData::Text(s) => match instant_told(s) {
            Some(t) => can_be_told_everywhere(t),
            None => true,
        },
        JsonData::Array(items) => forall|i: int|
            #![trigger items[i]]
            0 <= i < items.len() ==> can_all_be_told_everywhere(items[i]),
        JsonData::Object(members) => forall|i: int|
            #![trigger members[i]]
            0 <= i < members.len() ==> can_all_be_told_everywhere(members[i].1),
        _ => true,
    }
}

/// Whether the texts of two JSON values tell the same instants, or none, one by one.
pub open spec fn same_instants(a: JsonData, b: JsonData) -> bool
    decreases a,
{
    match (a, b) {
        (JsonData::Text(s), JsonData::Text(t)) => instant_told(s) == instant_told(t),
        (JsonData::Array(xs), JsonData::Array(ys)) => xs.len() == ys.len() && (forall|i: int|
            #![trigger xs[i]]
            0 <= i < xs.len() ==> same_instants(xs[i], ys[i])),
        (JsonData::Object(xs), JsonData::Object(ys)) => xs.len() == ys.len() && (forall|i: int|
            #![trigger xs[i]]
            0 <= i < xs.len() ==> same_instants(xs[i].1, ys[i].1)),
        _ => a == b,
    }
}

/// Whether every timestamp of a JSON value tells the same instant once it is converted.
pub open spec fn instants_survive(data: JsonData, zone: Seq<char>) -> bool
    decreases data,
{
    match data {
        JsonData::Text(s) => instant_told(text_converted(s, zone)) == instant_told(s),
        JsonData::Array(items) => forall|i: int|
            #![trigger items[i]]
            0 <= i < items.len() ==> instants_survive(items[i], zone),
        JsonData::Object(members) => forall|i: int|
            #![trigger members[i]]
            0 <= i < members.len() ==> instants_survive(members[i].1, zone),
        _ => true,
    }
}

/// A JSON value with its timestamps in a time zone. Nothing changes where there is no such zone.
pub open spec fn localized(data: JsonData, zone: Seq<char>) -> JsonData {
    if zone_exists(zone) {
        texts_converted(data, zone)
    } else {
        data
    }
}

fn convert_texts(value: &mut Json, tz_name: &str)
    requires
        zone_exists(tz_name@),
    ensures
        final(value)@ == texts_converted(old(value)@, tz_name@),
        instants_kept(old(value)@, final(value)@, tz_name@),
        rfc3339_kept(old(value)@, final(value)@, tz_name@),
    decreases *old(value),
{
    match value {
        Json::Text(s) => {
            proof {
                let before = s@;
                assert(Seq::new(
                    before.len(),
                    |i: int|
                        if before[i] == ' ' {
                            'T'
                        } else {
                            before[i]
                        },
                ) =~= spaces_replaced(before));
            }
            if let Some(converted) = try_convert_timestamp(s.as_str(), tz_name) {
                *s = converted;
            }
        },
        Json::Array(items) => {
            convert_items(items, tz_name);
        },
        Json::Object(members) => {
            convert_members(members, tz_name);
        },
        _ => {},
    }
    assert(value@ == texts_converted(old(value)@, tz_name@)) by {
        match *old(value) {
            Json::Array(items) => {
                assert(value@->Array_0 =~= texts_converted(old(value)@, tz_name@)->Array_0);
            },
            Json::Object(members) => {
                assert(value@->Object_0 =~= texts_converted(old(value)@, tz_name@)->Object_0);
            },
            _ => {},
        }
    }
}

fn convert_items(items: &mut Vec<Json>, tz_name: &str)
    requires
        zone_exists(tz_name@),
    ensures
        final(items).len() == old(items).len(),
        forall|i: int|
            0 <= i < old(items).len() ==> (#[trigger] final(items)@[i])@ == texts_converted(
                old(items)@[i]@,
                tz_name@,
            ) && instants_kept(old(items)@[i]@, final(items)@[i]@, tz_name@) && rfc3339_kept(
                old(items)@[i]@,
                final(items)@[i]@,
                tz_name@,
            ),
    decreases *old(items),
{
    let mut i: usize = 0;
    while i < items.len()
        invariant
            i <= items.len(),
            zone_exists(tz_name@),
            items.len() == old(items).len(),
            forall|j: int|
                0 <= j < i ==> (#[trigger] items@[j])@ == texts_converted(
                    old(items)@[j]@,
                    tz_name@,
                ) && instants_kept(old(items)@[j]@, items@[j]@, tz_name@) && rfc3339_kept(
                    old(items)@[j]@,
                    items@[j]@,
                    tz_name@,
                ),
            forall|j: int| i <= j < items.len() ==> #[trigger] items@[j] == old(items)@[j],
        decreases items.len() - i,
    {
        assert(decreases_to!(*old(items) => old(items)@[i as int]));
        convert_texts(&mut items[i], tz_name);
        i += 1;
    }
}

fn convert_members(members: &mut Vec<(String, Json)>, tz_name: &str)
    requires
        zone_exists(tz_name@),
    ensures
        final(members).len() == old(members).len(),
        forall|i: int|
            0 <= i < old(members).len() ==> (#[trigger] final(members)@[i]).0@ == old(
                members,
            )@[i].0@ && final(members)@[i].1@ == texts_converted(
                old(members)@[i].1@,
                tz_name@,
            ) && instants_kept(old(members)@[i].1@, final(members)@[i].1@, tz_name@)
                && rfc3339_kept(old(members)@[i].1@, final(members)@[i].1@, tz_name@),
    decreases *old(members),
{
    let mut i: usize = 0;
    while i < members.len()
        invariant
            i <= members.len(),
            zone_exists(tz_name@),
            members.len() == old(members).len(),
            forall|j: int|
                0 <= j < i ==> (#[trigger] members@[j]).0@ == old(members)@[j].0@
                    && members@[j].1@ == texts_converted(old(members)@[j].1@, tz_name@)
                    && instants_kept(old(members)@[j].1@, members@[j].1@, tz_name@)
                    && rfc3339_kept(old(members)@[j].1@, members@[j].1@, tz_name@),
            forall|j: int| i <= j < members.len() ==> #[trigger] members@[j] == old(members)@[j],
        decreases members.len() - i,
    {
        assert(decreases_to!(*old(members) => old(members)@[i as int]));
        convert_texts(&mut members[i].1, tz_name);
        i += 1;
    }
}

/// Tells every timestamp in a JSON value in a time zone, by the name of the zone.
///
/// Timestamps are texts in RFC 3339, with or without a part of a second, and dates with times that
/// name no zone, `2026-06-27T01:30:00` or, as SQLite writes them, `2026-06-27 01:30:00`; these are
/// in UTC. Nothing else changes, and nothing at all where there is no such zone. A converted
/// timestamp tells the same instant, where RFC 3339 can tell it in the zone. Where it can tell all
/// of them, a second conversion changes nothing. It can from 1972 to the year 9999, in every zone.
pub fn convert_timestamps_to_local(value: &mut Json, tz_name: &str)
    ensures
        final(value)@ == localized(old(value)@, tz_name@),
        instants_kept(old(value)@, final(value)@, tz_name@),
        rfc3339_kept(old(value)@, final(value)@, tz_name@),
        can_all_be_told(old(value)@, tz_name@) ==> localized(final(value)@, tz_name@)
            == final(value)@,
        can_all_be_told_everywhere(old(value)@) ==> same_instants(old(value)@, final(value)@)
            && localized(final(value)@, tz_name@) == final(value)@,
{
    let ghost before = value@;
    if is_zone(tz_name) {
        convert_texts(value, tz_name);
    } else {
        proof {
            lemma_unchanged_keeps_instants(value@, tz_name@);
            lemma_unchanged_keeps_rfc3339(value@, tz_name@);
        }
    }
    proof {
        if can_all_be_told_everywhere(before) {
            lemma_told_everywhere(before, value@, tz_name@);
        }
        if zone_exists(tz_name@) && can_all_be_told(before, tz_name@) {
            lemma_told_instants_survive(before, tz_name@);
            second_conversion_changes_nothing(before, tz_name@);
        }
    }
}

proof fn lemma_unchanged_keeps_instants(data: JsonData, zone: Seq<char>)
    ensures
        instants_kept(data, data, zone),
    decreases data,
{
    match data {
        JsonData::Array(xs) => {
            assert forall|i: int|
                #![trigger xs[i]]
                0 <= i < xs.len() implies instants_kept(xs[i], xs[i], zone) by {
                lemma_unchanged_keeps_instants(xs[i], zone);
            }
        },
        JsonData::Object(xs) => {
            assert forall|i: int|
                #![trigger xs[i]]
                0 <= i < xs.len() implies instants_kept(xs[i].1, xs[i].1, zone) by {
                lemma_unchanged_keeps_instants(xs[i].1, zone);
            }
        },
        _ => {},
    }
}

proof fn lemma_unchanged_keeps_rfc3339(data: JsonData, zone: Seq<char>)
    requires
        !zone_exists(zone),
    ensures
        rfc3339_kept(data, data, zone),
    decreases data,
{
    match data {
        JsonData::Array(xs) => {
            assert forall|i: int|
                #![trigger xs[i]]
                0 <= i < xs.len() implies rfc3339_kept(xs[i], xs[i], zone) by {
                lemma_unchanged_keeps_rfc3339(xs[i], zone);
            }
        },
        JsonData::Object(xs) => {
            assert forall|i: int|
                #![trigger xs[i]]
                0 <= i < xs.len() implies rfc3339_kept(xs[i].1, xs[i].1, zone) by {
                lemma_unchanged_keeps_rfc3339(xs[i].1, zone);
            }
        },
        _ => {},
    }
}

// ── Laws ─────────────────────────────────────────────────────────

/// Whether two JSON values differ in nothing but what their texts say: they have the same arrays
/// and objects, the same names of members, and the same values that are no texts.
pub open spec fn same_but_for_texts(a: JsonData, b: JsonData) -> bool
    decreases a,
{
    match (a, b) {
        (JsonData::Text(_), JsonData::Text(_)) => true,
        (JsonData::Array(xs), JsonData::Array(ys)) => xs.len() == ys.len() && (forall|i: int|
            #![trigger xs[i]]
            0 <= i < xs.len() ==> same_but_for_texts(xs[i], ys[i])),
        (JsonData::Object(xs), JsonData::Object(ys)) => xs.len() == ys.len() && (forall|i: int|
            #![trigger xs[i]]
            0 <= i < xs.len() ==> xs[i].0 == ys[i].0 && same_but_for_texts(xs[i].1, ys[i].1)),
        _ => a == b,
    }
}

/// Converting timestamps changes nothing but texts.
pub proof fn only_texts_change(data: JsonData, zone: Seq<char>)
    ensures
        same_but_for_texts(data, texts_converted(data, zone)),
        same_but_for_texts(data, localized(data, zone)),
    decreases data,
{
    match data {
        JsonData::Array(xs) => {
            assert forall|i: int|
                #![trigger xs[i]]
                0 <= i < xs.len() implies same_but_for_texts(
                xs[i],
                texts_converted(data, zone)->Array_0[i],
            ) && same_but_for_texts(xs[i], xs[i]) by {
                only_texts_change(xs[i], zone);
                lemma_same_as_itself(xs[i]);
            }
        },
        JsonData::Object(xs) => {
            assert forall|i: int|
                #![trigger xs[i]]
                0 <= i < xs.len() implies same_but_for_texts(
                xs[i].1,
                texts_converted(data, zone)->Object_0[i].1,
            ) && same_but_for_texts(xs[i].1, xs[i].1) by {
                only_texts_change(xs[i].1, zone);
                lemma_same_as_itself(xs[i].1);
            }
        },
        _ => {},
    }
}

proof fn lemma_same_as_itself(data: JsonData)
    ensures
        same_but_for_texts(data, data),
    decreases data,
{
    match data {
        JsonData::Array(xs) => {
            assert forall|i: int|
                #![trigger xs[i]]
                0 <= i < xs.len() implies same_but_for_texts(xs[i], xs[i]) by {
                lemma_same_as_itself(xs[i]);
            }
        },
        JsonData::Object(xs) => {
            assert forall|i: int|
                #![trigger xs[i]]
                0 <= i < xs.len() implies same_but_for_texts(xs[i].1, xs[i].1) by {
                lemma_same_as_itself(xs[i].1);
            }
        },
        _ => {},
    }
}

/// Nothing changes where there is no such time zone.
pub proof fn unknown_zone_changes_nothing(data: JsonData, zone: Seq<char>)
    requires
        !zone_exists(zone),
    ensures
        localized(data, zone) == data,
{
}

/// A text that does not begin with a digit stays as it is, and so does one that is too short.
pub proof fn other_texts_stay(s: Seq<char>, zone: Seq<char>)
    requires
        s.len() == 0 || !is_digit(s[0]) || encode_utf8(s).len() < TIMESTAMP_BYTES,
    ensures
        localized(JsonData::Text(s), zone) == JsonData::Text(s),
{
}

proof fn lemma_replaced_is_as_long(s: Seq<char>, tail: Seq<char>)
    ensures
        encode_utf8(spaces_replaced(s) + tail).len() >= encode_utf8(s).len(),
    decreases s.len(),
{
    if s.len() > 0 {
        let rest = s.drop_first();
        let fixed = spaces_replaced(s) + tail;
        lemma_replaced_is_as_long(rest, tail);
        assert(fixed.drop_first() =~= spaces_replaced(rest) + tail);
        assert(fixed[0] == (if s[0] == ' ' {
            'T'
        } else {
            s[0]
        }));
    }
}

/// A time without a zone is converted as the RFC 3339 text of the same time in UTC.
pub proof fn zoneless_times_are_in_utc(s: Seq<char>, zone: Seq<char>)
    requires
        may_be_timestamp(s),
        has_zoneless_form(s),
        rfc3339_instant(s) is None,
        rfc3339_instant(spaces_replaced(s) + "+00:00"@) is Some,
    ensures
        text_converted(s, zone) == text_converted(spaces_replaced(s) + "+00:00"@, zone),
{
    lemma_replaced_is_as_long(s, "+00:00"@);
    let fixed = spaces_replaced(s) + "+00:00"@;
    assert(fixed[0] == s[0]);
}

/// What a timestamp becomes depends on the instant it tells alone, not on how it is written.
pub proof fn same_instants_become_the_same_text(a: Seq<char>, b: Seq<char>, zone: Seq<char>)
    requires
        instant_told(a) is Some,
        instant_told(a) == instant_told(b),
    ensures
        text_converted(a, zone) == text_converted(b, zone),
{
}

proof fn lemma_told_everywhere(before: JsonData, after: JsonData, zone: Seq<char>)
    requires
        can_all_be_told_everywhere(before),
        instants_kept(before, after, zone),
    ensures
        can_all_be_told(before, zone),
        same_instants(before, after),
    decreases before,
{
    match (before, after) {
        (JsonData::Array(xs), JsonData::Array(ys)) => {
            assert forall|i: int|
                #![trigger xs[i]]
                0 <= i < xs.len() implies can_all_be_told(xs[i], zone) && same_instants(
                xs[i],
                ys[i],
            ) by {
                lemma_told_everywhere(xs[i], ys[i], zone);
            }
        },
        (JsonData::Object(xs), JsonData::Object(ys)) => {
            assert forall|i: int|
                #![trigger xs[i]]
                0 <= i < xs.len() implies can_all_be_told(xs[i].1, zone) && same_instants(
                xs[i].1,
                ys[i].1,
            ) by {
                lemma_told_everywhere(xs[i].1, ys[i].1, zone);
            }
        },
        _ => {},
    }
}

proof fn lemma_told_instants_survive(data: JsonData, zone: Seq<char>)
    requires
        can_all_be_told(data, zone),
        instants_kept(data, texts_converted(data, zone), zone),
    ensures
        instants_survive(data, zone),
    decreases data,
{
    match data {
        JsonData::Array(xs) => {
            assert forall|i: int|
                #![trigger xs[i]]
                0 <= i < xs.len() implies instants_survive(xs[i], zone) by {
                lemma_told_instants_survive(xs[i], zone);
            }
        },
        JsonData::Object(xs) => {
            assert forall|i: int|
                #![trigger xs[i]]
                0 <= i < xs.len() implies instants_survive(xs[i].1, zone) by {
                lemma_told_instants_survive(xs[i].1, zone);
            }
        },
        _ => {},
    }
}

/// Converting a JSON value again changes nothing, where the first conversion kept the instants of
/// its timestamps.
pub proof fn second_conversion_changes_nothing(data: JsonData, zone: Seq<char>)
    requires
        instants_survive(data, zone),
    ensures
        texts_converted(texts_converted(data, zone), zone) == texts_converted(data, zone),
        localized(localized(data, zone), zone) == localized(data, zone),
    decreases data,
{
    let once = texts_converted(data, zone);
    let twice = texts_converted(once, zone);
    match data {
        JsonData::Array(xs) => {
            assert forall|i: int| 0 <= i < xs.len() implies #[trigger] twice->Array_0[i]
                == once->Array_0[i] by {
                second_conversion_changes_nothing(xs[i], zone);
            }
            assert(twice->Array_0 =~= once->Array_0);
        },
        JsonData::Object(xs) => {
            assert forall|i: int| 0 <= i < xs.len() implies #[trigger] twice->Object_0[i]
                == once->Object_0[i] by {
                second_conversion_changes_nothing(xs[i].1, zone);
            }
            assert(twice->Object_0 =~= once->Object_0);
        },
        _ => {},
    }
}

/// A text in RFC 3339 of nineteen bytes or more that begins with a digit is told anew: the instant
/// that its parser reads, whole, in the zone.
pub proof fn rfc3339_texts_are_told_in_the_zone(s: Seq<char>, t: Timestamp, zone: Seq<char>)
    requires
        s.len() > 0,
        '0' <= s[0] <= '9',
        encode_utf8(s).len() >= 19,
        rfc3339_instant(s) == Some(t),
    ensures
        text_converted(s, zone) == zoned_text(t, zone, SecondsFormat::AutoSi, false),
        zone_exists(zone) ==> localized(JsonData::Text(s), zone) == JsonData::Text(
            zoned_text(t, zone, SecondsFormat::AutoSi, false),
        ),
{
}

/// A text that is no RFC 3339 but is one of nineteen bytes with a `T` or a space before the time,
/// once it has `T` for each space and the offset of UTC behind it, is told anew as that instant.
pub proof fn zoneless_texts_are_told_in_the_zone(
    s: Seq<char>,
    fixed: Seq<char>,
    t: Timestamp,
    zone: Seq<char>,
)
    requires
        s.len() > 0,
        '0' <= s[0] <= '9',
        encode_utf8(s).len() == 19,
        encode_utf8(s)[10] == 0x20 || encode_utf8(s)[10] == 0x54,
        rfc3339_instant(s) is None,
        fixed.len() == s.len(),
        forall|i: int|
            0 <= i < s.len() ==> #[trigger] fixed[i] == (if s[i] == ' ' {
                'T'
            } else {
                s[i]
            }),
        rfc3339_instant(fixed + "+00:00"@) == Some(t),
    ensures
        text_converted(s, zone) == zoned_text(t, zone, SecondsFormat::AutoSi, false),
        zone_exists(zone) ==> localized(JsonData::Text(s), zone) == JsonData::Text(
            zoned_text(t, zone, SecondsFormat::AutoSi, false),
        ),
{
    assert(fixed =~= spaces_replaced(s));
}

/// A text that its parser does not read as RFC 3339 stays as it is, unless it has the length of a
/// time without a zone and a `T` or a space before the time.
pub proof fn texts_that_are_no_times_stay(s: Seq<char>, zone: Seq<char>)
    requires
        rfc3339_instant(s) is None,
        encode_utf8(s).len() != 19 || (encode_utf8(s)[10] != 0x20 && encode_utf8(s)[10] != 0x54),
    ensures
        text_converted(s, zone) == s,
{
}

/// So does one with that length and sign that is no RFC 3339 with the offset of UTC behind it.
pub proof fn texts_that_are_nearly_times_stay(s: Seq<char>, fixed: Seq<char>, zone: Seq<char>)
    requires
        rfc3339_instant(s) is None,
        fixed.len() == s.len(),
        forall|i: int|
            0 <= i < s.len() ==> #[trigger] fixed[i] == (if s[i] == ' ' {
                'T'
            } else {
                s[i]
            }),
        rfc3339_instant(fixed + "+00:00"@) is None,
    ensures
        text_converted(s, zone) == s,
{
    assert(fixed =~= spaces_replaced(s));
}

/// A text that does not begin with one of the ten digits, or is shorter than nineteen bytes, stays
/// as it is.
pub proof fn texts_that_cannot_be_times_stay(s: Seq<char>, zone: Seq<char>)
    requires
        s.len() == 0 || s[0] < '0' || '9' < s[0] || encode_utf8(s).len() < 19,
    ensures
        text_converted(s, zone) == s,
{
}

/// In a zone that exists every text of a JSON value is converted, however deep it stands in arrays
/// and objects, and names of members never are.
pub proof fn conversion_reaches_every_text(data: JsonData, zone: Seq<char>, i: int)
    requires
        zone_exists(zone),
    ensures
        data matches JsonData::Text(s) ==> localized(data, zone) == JsonData::Text(
            text_converted(s, zone),
        ),
        data matches JsonData::Array(items) ==> (localized(data, zone) matches JsonData::Array(
            after,
        ) && after.len() == items.len() && (0 <= i < items.len() ==> after[i] == localized(
            items[i],
            zone,
        ))),
        data matches JsonData::Object(members) ==> (localized(data, zone) matches JsonData::Object(
            after,
        ) && after.len() == members.len() && (0 <= i < members.len() ==> after[i].0 == members[i].0
            && after[i].1 == localized(members[i].1, zone))),
        !(data is Text) && !(data is Array) && !(data is Object) ==> localized(data, zone) == data,
{
}

} // verus!
