use std::path::PathBuf;
use time::error::ComponentRange;
use time::{OffsetDateTime, UtcOffset};
use vstd::prelude::*;

use crate::text::{
    chars_of, is_ascii_alnum, is_white_space, push_signed_decimal, push_str, signed_decimal_seq,
    string_from_chars, trim_end_seq, trim_seq, trim_start_seq, trim_str,
};

verus! {

/// `time::OffsetDateTime`, carried through as an opaque value.
#[verifier::external_type_specification]
#[verifier::external_body]
pub struct ExOffsetDateTime(OffsetDateTime);

/// `time::UtcOffset`, carried through as an opaque value.
#[verifier::external_type_specification]
#[verifier::external_body]
pub struct ExUtcOffset(UtcOffset);

/// `std::path::PathBuf`, carried through as an opaque value.
#[verifier::external_type_specification]
#[verifier::external_body]
pub struct ExPathBuf(PathBuf);

/// The camera id used when the configured one is blank.
pub const FALLBACK_CAMERA_ID: &'static str = "camera";

/// A character allowed in an object key segment as is; every other character
/// becomes `_`.
pub open spec fn key_char(c: char) -> char {
    if is_ascii_alnum(c) || c == '-' || c == '_' {
        c
    } else {
        '_'
    }
}

/// `c` may stand in a sanitized camera id.
pub open spec fn is_key_safe(c: char) -> bool {
    is_ascii_alnum(c) || c == '-' || c == '_'
}

/// Every character of `s` replaced by [`key_char`].
pub open spec fn key_chars(s: Seq<char>) -> Seq<char> {
    s.map_values(|c: char| key_char(c))
}

/// The camera id as it stands in object keys: trimmed, `camera` when blank,
/// every character outside `[A-Za-z0-9_-]` replaced by `_`.
pub open spec fn sanitized_camera_id(raw: Seq<char>) -> Seq<char> {
    let t = trim_seq(raw);
    key_chars(if t.len() == 0 { FALLBACK_CAMERA_ID@ } else { t })
}

/// The sanitized form of one character.
fn key_char_of(c: char) -> (r: char)
    ensures
        r == key_char(c),
{
    if ('0' <= c && c <= '9') || ('a' <= c && c <= 'z') || ('A' <= c && c <= 'Z') || c == '-' || c
        == '_' {
        c
    } else {
        '_'
    }
}

/// Appends the sanitized form of every character of `s` to `out`.
fn push_key_chars(out: &mut Vec<char>, s: &[char])
    ensures
        final(out)@ == old(out)@ + key_chars(s@),
{
    let mut i: usize = 0;
    while i < s.len()
        invariant
            0 <= i <= s@.len(),
            out@ == old(out)@ + key_chars(s@).take(i as int),
        decreases s@.len() - i,
    {
        out.push(key_char_of(s[i]));
        i += 1;
        assert(out@ =~= old(out)@ + key_chars(s@).take(i as int));
    }
    assert(key_chars(s@).take(s@.len() as int) =~= key_chars(s@));
}

/// Turns a configured camera id into a safe object key segment.
pub fn sanitize_camera_id(raw: &str) -> (r: String)
    ensures
        r@ == sanitized_camera_id(raw@),
{
    let trimmed = trim_str(raw);
    let candidate = if trimmed.is_empty() { FALLBACK_CAMERA_ID } else { trimmed };
    let chars = chars_of(candidate);
    let mut out: Vec<char> = Vec::new();
    push_key_chars(&mut out, chars.as_slice());
    assert(out@ =~= sanitized_camera_id(raw@));
    string_from_chars(out.as_slice())
}

/// The `time` format description of the date-and-hour part of an object key.
pub const HOUR_PATH_FORMAT: &'static str = "[year]/[month]/[day]/[hour]";

/// The text that `OffsetDateTime::format` gives for `t` under the format
/// description `description`; `None` where parsing the description or
/// formatting fails.
pub uninterp spec fn formatted_timestamp(t: OffsetDateTime, description: Seq<char>) -> Option<Seq<char>>;

/// Parses `description` with `time::format_description::parse_borrowed::<1>`
/// (the version-1 syntax that `format_description::parse` reads) and formats
/// `t` with it through `OffsetDateTime::format`; the outcome is determined by
/// `t` and the description alone. Under [`HOUR_PATH_FORMAT`] the text holds
/// exactly three `/`, its three literal separators: `time` writes the year,
/// month, day and hour components as an optional sign and digits.
#[verifier::external_body]
fn format_timestamp(t: &OffsetDateTime, description: &str) -> (r: Option<String>)
    ensures
        match r {
            Some(s) => formatted_timestamp(*t, description@) == Some(s@),
            None => formatted_timestamp(*t, description@) is None,
        },
        description@ == HOUR_PATH_FORMAT@ ==> (r matches Some(s) ==> count_char(s@, '/') == 3),
{
    match time::format_description::parse_borrowed::<1>(description) {
        Ok(items) => t.format(&items).ok(),
        Err(_) => None,
    }
}

/// The object key `<camera>/<hour path>.mp4`, with the camera id sanitized.
pub open spec fn object_key_text(camera_id: Seq<char>, hour_path: Seq<char>) -> Seq<char> {
    sanitized_camera_id(camera_id) + seq!['/'] + hour_path + seq!['.', 'm', 'p', '4']
}

/// The object key for a camera id and an already formatted hour path.
pub fn object_key_from_path(camera_id: &str, hour_path: &str) -> (r: String)
    ensures
        r@ == object_key_text(camera_id@, hour_path@),
{
    let camera = sanitize_camera_id(camera_id);
    let mut out = chars_of(camera.as_str());
    out.push('/');
    push_str(&mut out, hour_path);
    let ghost with_path = out@;
    out.push('.');
    out.push('m');
    out.push('p');
    out.push('4');
    assert(out@ =~= with_path + seq!['.', 'm', 'p', '4']);
    assert(out@ =~= object_key_text(camera_id@, hour_path@));
    string_from_chars(out.as_slice())
}

/// An object key's shape: it ends in `.mp4` and holds exactly four `/`.
pub open spec fn has_key_shape(k: Seq<char>) -> bool {
    &&& k.len() >= 4
    &&& k.subrange(k.len() - 4, k.len() as int) == seq!['.', 'm', 'p', '4']
    &&& count_char(k, '/') == 4
}

/// The object key `<camera>/YYYY/MM/DD/HH.mp4` for the hour of `timestamp`
/// in its own offset, for a timestamp that `time` can format.
pub fn build_object_key(camera_id: &str, timestamp: OffsetDateTime) -> (r: String)
    requires
        formatted_timestamp(timestamp, HOUR_PATH_FORMAT@) is Some,
    ensures
        r@ == object_key_text(camera_id@, formatted_timestamp(timestamp, HOUR_PATH_FORMAT@)->Some_0),
        has_key_shape(r@),
{
    match format_timestamp(&timestamp, HOUR_PATH_FORMAT) {
        Some(path) => {
            proof {
                lemma_object_key_shape(camera_id@, path@);
            }
            object_key_from_path(camera_id, path.as_str())
        },
        None => unreached(),
    }
}

/// The object key for `timestamp`, or `None` where `time` cannot format its
/// date and hour.
pub fn try_build_object_key(camera_id: &str, timestamp: OffsetDateTime) -> (r: Option<String>)
    ensures
        match formatted_timestamp(timestamp, HOUR_PATH_FORMAT@) {
            Some(path) => r matches Some(k) && k@ == object_key_text(camera_id@, path) && has_key_shape(k@),
            None => r is None,
        },
{
    match format_timestamp(&timestamp, HOUR_PATH_FORMAT) {
        Some(_) => Some(build_object_key(camera_id, timestamp)),
        None => None,
    }
}

/// The local file name for a recording: `/tmp/<id>-<unix seconds>.mp4`,
/// where every character of the id outside `[A-Za-z0-9_-]` becomes `_`.
pub open spec fn temp_mp4_path_text(camera_id: Seq<char>, unix_ts: int) -> Seq<char> {
    seq!['/', 't', 'm', 'p', '/'] + key_chars(camera_id) + seq!['-'] + signed_decimal_seq(unix_ts)
        + seq!['.', 'm', 'p', '4']
}

/// The path that `PathBuf::from` makes of a string.
pub uninterp spec fn path_of_text(s: Seq<char>) -> PathBuf;

/// Calls `PathBuf::from(String)`: the path is determined by the text alone.
#[verifier::external_body]
fn path_from_string(s: String) -> (r: PathBuf)
    ensures
        r == path_of_text(s@),
{
    PathBuf::from(s)
}

/// The local file name for a recording, as text.
pub fn temp_mp4_path_string(camera_id: &str, unix_ts: i64) -> (r: String)
    ensures
        r@ == temp_mp4_path_text(camera_id@, unix_ts as int),
{
    let mut out: Vec<char> = Vec::new();
    out.push('/');
    out.push('t');
    out.push('m');
    out.push('p');
    out.push('/');
    let id = chars_of(camera_id);
    push_key_chars(&mut out, id.as_slice());
    out.push('-');
    push_signed_decimal(&mut out, unix_ts);
    out.push('.');
    out.push('m');
    out.push('p');
    out.push('4');
    assert(out@ =~= temp_mp4_path_text(camera_id@, unix_ts as int));
    string_from_chars(out.as_slice())
}

/// The local file path for a recording.
pub fn temp_mp4_path(camera_id: &str, unix_ts: i64) -> (r: PathBuf)
    ensures
        r == path_of_text(temp_mp4_path_text(camera_id@, unix_ts as int)),
{
    path_from_string(temp_mp4_path_string(camera_id, unix_ts))
}


/// Offset of Japan Standard Time from UTC, in hours: object keys name the
/// hour of a recording in JST.
pub const JST_OFFSET_HOURS: i8 = 9;

/// The offset that `UtcOffset::from_hms(hours, 0, 0)` makes.
pub uninterp spec fn utc_offset_of_hours(hours: i8) -> UtcOffset;

/// The same instant as `t` expressed in `offset`, as
/// `OffsetDateTime::checked_to_offset` gives it; `None` where the result is
/// outside `time`'s range.
pub uninterp spec fn in_offset(t: OffsetDateTime, offset: UtcOffset) -> Option<OffsetDateTime>;

/// The Unix timestamp of `t`, as `OffsetDateTime::unix_timestamp` gives it.
pub uninterp spec fn unix_seconds_of(t: OffsetDateTime) -> i64;

/// Calls `UtcOffset::from_hms(hours, 0, 0)`, which the source accepts
/// exactly for hours in `-25..=25`.
#[verifier::external_body]
fn utc_offset_from_hours(hours: i8) -> (r: Result<UtcOffset, ComponentRange>)
    ensures
        (-25 <= hours <= 25) == (r is Ok),
        r matches Ok(o) ==> o == utc_offset_of_hours(hours),
{
    UtcOffset::from_hms(hours, 0, 0)
}

/// Calls `OffsetDateTime::checked_to_offset`.
#[verifier::external_body]
fn checked_to_offset(t: OffsetDateTime, offset: UtcOffset) -> (r: Option<OffsetDateTime>)
    ensures
        r == in_offset(t, offset),
{
    t.checked_to_offset(offset)
}

/// Calls `OffsetDateTime::unix_timestamp`.
#[verifier::external_body]
fn unix_timestamp(t: OffsetDateTime) -> (r: i64)
    ensures
        r == unix_seconds_of(t),
{
    t.unix_timestamp()
}

/// The offset of Japan Standard Time.
pub fn jst_offset() -> (r: UtcOffset)
    ensures
        r == utc_offset_of_hours(JST_OFFSET_HOURS),
{
    match utc_offset_from_hours(JST_OFFSET_HOURS) {
        Ok(o) => o,
        Err(_) => unreached(),
    }
}

/// The names of a recording started at `now`: the object key, for the hour
/// of `now` in JST, and the local file, for its Unix second. `None` where
/// `time` cannot express `now` in JST or format that hour.
pub fn recording_targets(camera_id: &str, now: OffsetDateTime) -> (r: Option<(String, PathBuf)>)
    ensures
        match in_offset(now, utc_offset_of_hours(JST_OFFSET_HOURS)) {
            None => r is None,
            Some(local) => match formatted_timestamp(local, HOUR_PATH_FORMAT@) {
                None => r is None,
                Some(hour_path) => r matches Some((key, path)) && key@ == object_key_text(camera_id@, hour_path)
                    && has_key_shape(key@) && path == path_of_text(
                    temp_mp4_path_text(camera_id@, unix_seconds_of(local) as int),
                ),
            },
        },
{
    let local = match checked_to_offset(now, jst_offset()) {
        Some(t) => t,
        None => return None,
    };
    let key = match try_build_object_key(camera_id, local) {
        Some(k) => k,
        None => return None,
    };
    Some((key, temp_mp4_path(camera_id, unix_timestamp(local))))
}

/// How many times `c` occurs in `s`.
pub open spec fn count_char(s: Seq<char>, c: char) -> nat
    decreases s.len(),
{
    if s.len() == 0 {
        0
    } else {
        count_char(s.drop_last(), c) + if s.last() == c { 1nat } else { 0nat }
    }
}

proof fn lemma_count_concat(a: Seq<char>, b: Seq<char>, c: char)
    ensures
        count_char(a + b, c) == count_char(a, c) + count_char(b, c),
    decreases b.len(),
{
    if b.len() == 0 {
        assert(a + b =~= a);
    } else {
        lemma_count_concat(a, b.drop_last(), c);
        assert((a + b).drop_last() =~= a + b.drop_last());
    }
}

proof fn lemma_count_absent(s: Seq<char>, c: char)
    requires
        forall|i: int| 0 <= i < s.len() ==> s[i] != c,
    ensures
        count_char(s, c) == 0,
    decreases s.len(),
{
    if s.len() > 0 {
        lemma_count_absent(s.drop_last(), c);
    }
}

/// A sanitized camera id is never empty and holds only characters of
/// `[A-Za-z0-9_-]`; in particular it holds no `/`.
pub proof fn lemma_sanitized_id_is_key_safe(raw: Seq<char>)
    ensures
        sanitized_camera_id(raw).len() > 0,
        forall|i: int|
            0 <= i < sanitized_camera_id(raw).len() ==> is_key_safe(
                #[trigger] sanitized_camera_id(raw)[i],
            ),
        count_char(sanitized_camera_id(raw), '/') == 0,
{
    reveal_strlit("camera");
    let s = sanitized_camera_id(raw);
    assert forall|i: int| 0 <= i < s.len() implies is_key_safe(#[trigger] s[i]) by {}
    lemma_count_absent(s, '/');
}

proof fn lemma_trim_keeps_key_safe(s: Seq<char>)
    requires
        s.len() > 0,
        forall|i: int| 0 <= i < s.len() ==> is_key_safe(#[trigger] s[i]),
    ensures
        trim_seq(s) == s,
{
    assert(!is_white_space(s[0]));
    assert(trim_start_seq(s) == s);
    assert(!is_white_space(s.last()));
    assert(trim_end_seq(s) == s);
}

/// Sanitizing keeps the id and only masks characters: a camera id that is
/// blank after trimming becomes `camera`; otherwise the result has one
/// character per character of the trimmed id, ASCII letters, digits, `-` and
/// `_` unchanged and every other character replaced by `_`.
pub proof fn lemma_sanitize_masks_characters(raw: Seq<char>)
    ensures
        ({
            let t = trim_seq(raw);
            let s = sanitized_camera_id(raw);
            &&& t.len() == 0 ==> s == seq!['c', 'a', 'm', 'e', 'r', 'a']
            &&& t.len() > 0 ==> s.len() == t.len() && forall|i: int|
                0 <= i < t.len() ==> #[trigger] s[i] == if ('0' <= t[i] <= '9') || ('a' <= t[i] <= 'z') || (
                'A' <= t[i] <= 'Z') || t[i] == '-' || t[i] == '_' {
                    t[i]
                } else {
                    '_'
                }
        }),
{
    reveal_strlit("camera");
    let t = trim_seq(raw);
    if t.len() == 0 {
        assert(sanitized_camera_id(raw) =~= seq!['c', 'a', 'm', 'e', 'r', 'a']);
    }
}

/// Sanitizing is idempotent: a sanitized camera id comes back unchanged.
pub proof fn lemma_sanitize_is_idempotent(raw: Seq<char>)
    ensures
        sanitized_camera_id(sanitized_camera_id(raw)) == sanitized_camera_id(raw),
{
    let s = sanitized_camera_id(raw);
    lemma_sanitized_id_is_key_safe(raw);
    lemma_trim_keeps_key_safe(s);
    assert(key_chars(s) =~= s);
}

/// Every object key ends in `.mp4`, and holds one `/` more than its hour
/// path: the one after the camera id, which holds none.
pub proof fn lemma_object_key_shape(camera_id: Seq<char>, hour_path: Seq<char>)
    ensures
        ({
            let k = object_key_text(camera_id, hour_path);
            &&& k.len() >= 4
            &&& k.subrange(k.len() - 4, k.len() as int) == seq!['.', 'm', 'p', '4']
            &&& count_char(k, '/') == count_char(hour_path, '/') + 1
        }),
{
    let cam = sanitized_camera_id(camera_id);
    let slash = seq!['/'];
    let ext = seq!['.', 'm', 'p', '4'];
    lemma_sanitized_id_is_key_safe(camera_id);
    assert(count_char(slash, '/') == 1) by {
        assert(slash.drop_last() =~= Seq::<char>::empty());
        assert(count_char(Seq::<char>::empty(), '/') == 0);
        assert(slash.last() == '/');
    }
    lemma_count_absent(ext, '/');
    lemma_count_concat(cam, slash, '/');
    lemma_count_concat(cam + slash, hour_path, '/');
    lemma_count_concat(cam + slash + hour_path, ext, '/');
    let k = object_key_text(camera_id, hour_path);
    assert(k.subrange(k.len() - 4, k.len() as int) =~= ext);
}

} // verus!
