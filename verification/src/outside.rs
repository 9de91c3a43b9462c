//! The calls into other crates that the logic makes. Their contracts are
//! believed, not proved.
use crate::meta;
use crate::meta::{ApiResource, GroupVersionKind};
use crate::text;
use crate::text::Text;
use crate::wire;
use vstd::prelude::*;
use k8s_openapi::chrono::{DateTime, SecondsFormat, Utc};

verus! {

/// Whether the character is a decimal digit.
pub open spec fn is_digit(c: char) -> bool {
    '0' as int <= c as int && c as int <= '9' as int
}

/// Whether the place, counted from the end of a time of the clock, holds what
/// parts the numbers there, or ends them.
pub open spec fn is_time_separator(from_end: int) -> bool {
    from_end == 1 || from_end == 4 || from_end == 7 || from_end == 10 || from_end == 13 || from_end
        == 16
}

/// What every time of the clock looks like as a text: a year, with a sign where
/// it does not take four digits, month and day, hour, minute and whole second of
/// two digits each, and `Z` for the offset of UTC.
pub open spec fn is_utc_time(time: Text) -> bool {
    let n = time.len() as int;
    &&& n >= 20
    &&& time[n - 16] == '-'
    &&& time[n - 13] == '-'
    &&& time[n - 10] == 'T'
    &&& time[n - 7] == ':'
    &&& time[n - 4] == ':'
    &&& time[n - 1] == 'Z'
    &&& forall|i: int| 0 < i < n && !is_time_separator(n - i) ==> is_digit(#[trigger] time[i])
    &&& is_digit(time[0]) || time[0] == '+' || time[0] == '-'
    &&& !time.contains('.')
}

/// The current time, to the second, in the form of RFC 3339.
///
/// Calls `chrono::Utc::now` and `chrono::DateTime::to_rfc3339_opts` with whole
/// seconds and `Z` for the offset. Nothing is claimed of which time it is, only
/// how it is written: see [`is_utc_time`]. A time up to the year 9999 takes twenty
/// characters, and a later one more.
#[verifier::external_body]
pub(crate) fn utc_now_rfc3339() -> (res: String)
    ensures
        is_utc_time(res@),
{
    Utc::now().to_rfc3339_opts(SecondsFormat::Secs, true)
}

/// The whole seconds that `chrono::DateTime::signed_duration_since` gives from one
/// time in the form of RFC 3339 to another, negative where the other one is
/// earlier, or none where one of the texts is no such time.
pub uninterp spec fn seconds_between(from: Text, to: Text) -> Option<i64>;

/// How many whole seconds before `now` the time was.
///
/// Calls `chrono::DateTime::parse_from_rfc3339` on both texts,
/// `chrono::DateTime::signed_duration_since` and `chrono::TimeDelta::num_seconds`:
/// the result is named [`seconds_between`].
#[verifier::external_body]
pub(crate) fn age_in_seconds(time: &str, now: &str) -> (res: Option<i64>)
    ensures
        res == seconds_between(time@, now@),
{
    let time = DateTime::parse_from_rfc3339(time).ok()?;
    let now = DateTime::parse_from_rfc3339(now).ok()?;
    Some(now.signed_duration_since(time).num_seconds())
}

/// A hexadecimal digit.
pub open spec fn hex_digit(d: int) -> char {
    if d < 10 {
        (0x30 + d) as char
    } else {
        (0x57 + d) as char
    }
}

/// A character within a JSON string: quotes, backslashes and control characters
/// are escaped.
pub open spec fn escaped_char(c: char) -> Text {
    if c == '"' || c == '\\' {
        seq!['\\', c]
    } else if c == '\u{8}' {
        seq!['\\', 'b']
    } else if c == '\u{c}' {
        seq!['\\', 'f']
    } else if c == '\n' {
        seq!['\\', 'n']
    } else if c == '\r' {
        seq!['\\', 'r']
    } else if c == '\t' {
        seq!['\\', 't']
    } else if c as int <= 0x1f {
        seq!['\\', 'u', '0', '0', hex_digit(c as int / 16), hex_digit(c as int % 16)]
    } else {
        seq![c]
    }
}

/// A text within a JSON string.
pub open spec fn escaped(s: Text) -> Text
    decreases s.len(),
{
    if s.len() == 0 {
        s
    } else {
        escaped(s.drop_last()) + escaped_char(s.last())
    }
}

/// A text as a JSON string.
pub open spec fn json_string(s: Text) -> Text {
    seq!['"'] + escaped(s) + seq!['"']
}

/// Writes `s` as a JSON string.
///
/// Calls `serde_json::to_string` on a string slice, which does not fail: it writes
/// the text in double quotes, with quotes, backslashes and control characters
/// escaped, and everything else as it is.
#[verifier::external_body]
pub(crate) fn quote_json(s: &str) -> (res: String)
    ensures
        res@ == json_string(s@),
{
    serde_json::to_string(s).unwrap()
}

/// The JSON patch operations, each as JSON text, that `json_patch::diff` gives
/// for two documents in JSON text, or the message of the parser where one of
/// the texts is no JSON document.
pub uninterp spec fn json_diff(from: Text, to: Text) -> Result<Seq<Text>, Text>;

/// The document that `json_patch::patch` makes of a document in JSON text with the
/// operations that `serde_json` writes as these texts. It is given as JSON text in
/// which equal documents are written alike: members by ascending key, no blanks,
/// and a zero without a sign.
pub uninterp spec fn json_patched(document: Text, operations: Seq<Text>) -> Text;

/// The document that a JSON text holds: no operation changes it. Texts that
/// differ may hold the same document.
pub open spec fn json_document(document: Text) -> Text {
    json_patched(document, Seq::empty())
}

/// A member of a JSON object.
pub open spec fn json_member(key: Text, value: Text) -> Text {
    json_string(key) + ":"@ + value
}

/// Whether the text is a member of a JSON object, with a value that is nested at
/// most `depth` deep.
pub open spec fn is_json_member(s: Text, depth: nat) -> bool
    decreases depth, 1int,
{
    exists|key: Text, value: Text|
        s == #[trigger] json_member(key, value) && is_json(value, depth)
}

/// Whether the text is a JSON value without fractions and blanks, nested at most
/// `depth` deep.
pub open spec fn is_json(s: Text, depth: nat) -> bool
    decreases depth, 0int,
{
    ||| s == "null"@
    ||| s == "true"@
    ||| s == "false"@
    ||| exists|t: Text| s == #[trigger] json_string(t)
    ||| exists|i: i64| s == #[trigger] text::signed_decimal(i as int)
    ||| depth > 0 && exists|elements: Seq<Text>|
        s == #[trigger] wire::array(elements) && forall|k: int|
            0 <= k < elements.len() ==> is_json(#[trigger] elements[k], (depth - 1) as nat)
    ||| depth > 0 && exists|members: Seq<Text>|
        s == #[trigger] wire::object(members) && forall|k: int|
            0 <= k < members.len() ==> is_json_member(#[trigger] members[k], (depth - 1) as nat)
}

/// How deep the documents may be nested that are compared.
pub open spec fn json_depth() -> nat {
    100
}

/// The operations that turn the document `from` into the document `to`.
///
/// Calls `json_patch::diff` on the two documents, which `serde_json::from_str`
/// reads, and writes each operation with `serde_json::to_string`: the result is
/// named [`json_diff`]. `json_patch::patch` with the operations makes a document
/// of `from` that equals `to`, and equal documents need no operation. It succeeds
/// on JSON values that are not too deep for the reader. Nothing is stated of
/// other texts, such as those with blanks or fractions.
#[verifier::external_body]
pub(crate) fn diff_json(from: &str, to: &str) -> (res: Result<Vec<String>, String>)
    ensures
        (match res {
            Ok(operations) => Ok(text::views(operations@)),
            Err(message) => Err(message@),
        }) == json_diff(from@, to@),
        res matches Ok(operations) ==> json_patched(from@, text::views(operations@))
            == json_document(to@),
        json_document(from@) == json_document(to@) ==> (res matches Ok(operations)
            ==> operations@.len() == 0),
        is_json(from@, json_depth()) && is_json(to@, json_depth()) ==> res is Ok,
{
    let from: serde_json::Value = serde_json::from_str(from).map_err(|e| e.to_string())?;
    let to: serde_json::Value = serde_json::from_str(to).map_err(|e| e.to_string())?;
    let operations = json_patch::diff(&from, &to).0;
    operations.iter().map(|o| serde_json::to_string(o).map_err(|e| e.to_string())).collect()
}

/// The plural that `kube::api::ApiResource::from_gvk` guesses for a kind.
pub uninterp spec fn guessed_plural(kind: Text) -> Text;

/// Where the API serves the objects of a kind, with a guessed plural.
///
/// Calls `kube::api::ApiResource::from_gvk`, which takes group, version and
/// kind over, writes the group in front of the version where there is one, and
/// guesses the plural from the kind alone: the guess is named
/// [`guessed_plural`]. The guess looks at the letter before a final `y`, so a
/// kind that is nothing but that letter is left out.
#[verifier::external_body]
pub(crate) fn guess_api_resource(gvk: &GroupVersionKind) -> (res: ApiResource)
    requires
        gvk@.kind != "y"@,
        gvk@.kind != "Y"@,
    ensures
        res@ == (meta::ApiResourceView {
            group: gvk@.group,
            version: gvk@.version,
            api_version: gvk@.api_version(),
            kind: gvk@.kind,
            plural: guessed_plural(gvk@.kind),
        }),
{
    let r = kube::api::ApiResource::from_gvk(
        &kube::api::GroupVersionKind::gvk(&gvk.group, &gvk.version, &gvk.kind),
    );
    let kube::api::ApiResource { group, version, api_version, kind, plural } = r;
    ApiResource { group, version, api_version, kind, plural }
}

} // verus!
