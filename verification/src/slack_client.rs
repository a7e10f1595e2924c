use serde_json::Value;
use vstd::prelude::*;

use crate::text::{chars_of, push_str, string_from_chars};

verus! {

/// Where the Slack relay listens unless told otherwise.
pub const DEFAULT_SLACK_BASE_URL: &'static str = "http://slack:3000";

/// The path of the relay's message endpoint.
pub const SLACK_MESSAGE_PATH: &'static str = "/slack/message";

/// `s` without any trailing `/`.
pub open spec fn trim_trailing_slashes(s: Seq<char>) -> Seq<char>
    decreases s.len(),
{
    if s.len() > 0 && s.last() == '/' {
        trim_trailing_slashes(s.drop_last())
    } else {
        s
    }
}

/// The base URL without trailing slashes, as `str::trim_end_matches('/')`.
pub fn normalize_base_url(base_url: &str) -> (r: &str)
    ensures
        r@ == trim_trailing_slashes(base_url@),
{
    let chars = chars_of(base_url);
    let mut end: usize = chars.len();
    assert(chars@.take(end as int) =~= base_url@);
    while end > 0 && chars[end - 1] == '/'
        invariant
            chars@ == base_url@,
            0 <= end <= chars@.len(),
            trim_trailing_slashes(chars@.take(end as int)) == trim_trailing_slashes(base_url@),
        decreases end,
    {
        assert(chars@.take(end as int).drop_last() =~= chars@.take(end - 1));
        end -= 1;
    }
    assert(chars@.take(end as int) =~= base_url@.subrange(0, end as int));
    base_url.substring_char(0, end)
}

/// The URL of the relay's message endpoint under `base_url`.
pub fn slack_message_url(base_url: &str) -> (r: String)
    ensures
        r@ == trim_trailing_slashes(base_url@) + SLACK_MESSAGE_PATH@,
{
    let mut out = chars_of(normalize_base_url(base_url));
    push_str(&mut out, SLACK_MESSAGE_PATH);
    string_from_chars(out.as_slice())
}

/// `serde_json::Value`, carried as an opaque value.
#[verifier::external_type_specification]
#[verifier::external_body]
pub struct ExJsonValue(Value);

/// The JSON object whose members are the given names with string values, in
/// order.
pub uninterp spec fn json_text_object_of(fields: Seq<(Seq<char>, Seq<char>)>) -> Value;

/// The text of each name and value.
pub open spec fn text_pairs(fields: Seq<(String, String)>) -> Seq<(Seq<char>, Seq<char>)> {
    fields.map_values(|f: (String, String)| (f.0@, f.1@))
}

/// Collects name and value pairs into a `serde_json::Value::Object`, each
/// value a `serde_json::Value::String`.
#[verifier::external_body]
fn json_text_object(fields: Vec<(String, String)>) -> (r: Value)
    ensures
        r == json_text_object_of(text_pairs(fields@)),
{
    Value::Object(fields.into_iter().map(|(name, value)| (name, Value::String(value))).collect())
}

/// The JSON body of a message: `{"channel": channel, "text": text}`.
pub fn message_payload(channel: &str, text: &str) -> (r: Value)
    ensures
        r == json_text_object_of(seq![("channel"@, channel@), ("text"@, text@)]),
{
    let mut fields: Vec<(String, String)> = Vec::new();
    fields.push((String::from_str("channel"), String::from_str(channel)));
    fields.push((String::from_str("text"), String::from_str(text)));
    assert(text_pairs(fields@) =~= seq![("channel"@, channel@), ("text"@, text@)]);
    json_text_object(fields)
}

/// Normalizing is idempotent.
pub proof fn lemma_normalize_is_idempotent(s: Seq<char>)
    ensures
        trim_trailing_slashes(trim_trailing_slashes(s)) == trim_trailing_slashes(s),
    decreases s.len(),
{
    if s.len() > 0 && s.last() == '/' {
        lemma_normalize_is_idempotent(s.drop_last());
    }
}

/// A normalized base URL never ends in `/`, and the original is it followed
/// only by slashes.
pub proof fn lemma_normalize_strips_only_slashes(s: Seq<char>)
    ensures
        ({
            let t = trim_trailing_slashes(s);
            &&& t.len() <= s.len()
            &&& t.len() > 0 ==> t.last() != '/'
            &&& s.subrange(0, t.len() as int) == t
            &&& forall|i: int| t.len() <= i < s.len() ==> s[i] == '/'
        }),
    decreases s.len(),
{
    if s.len() > 0 && s.last() == '/' {
        lemma_normalize_strips_only_slashes(s.drop_last());
        let t = trim_trailing_slashes(s);
        assert(s.subrange(0, t.len() as int) =~= s.drop_last().subrange(0, t.len() as int));
        assert forall|i: int| t.len() <= i < s.len() implies s[i] == '/' by {
            if i < s.len() - 1 {
                assert(s.drop_last()[i] == s[i]);
            }
        }
    } else {
        assert(s.subrange(0, s.len() as int) =~= s);
    }
}

} // verus!
