//! Looking into JSON texts.

use vstd::prelude::*;

verus! {

/// What a member of a JSON object is, as far as it is a plain value. A number that is a whole number
/// of 64 bits is so in `unsigned`; every number is so in `double`, as the bits of the nearest
/// double.
#[derive(Debug)]
pub struct Member {
    pub text: Option<String>,
    pub unsigned: Option<u64>,
    pub double: Option<u64>,
    pub boolean: Option<bool>,
}

/// What a member holds.
pub struct MemberView {
    pub text: Option<Seq<char>>,
    pub unsigned: Option<u64>,
    pub double: Option<u64>,
    pub boolean: Option<bool>,
}

/// What an optional string holds.
pub open spec fn held(o: Option<String>) -> Option<Seq<char>> {
    match o {
        Some(s) => Some(s@),
        None => None,
    }
}

impl View for Member {
    type V = MemberView;

    open spec fn view(&self) -> MemberView {
        MemberView {
            text: held(self.text),
            unsigned: self.unsigned,
            double: self.double,
            boolean: self.boolean,
        }
    }
}

/// Why a JSON text does not hold what is looked for.
#[derive(Debug)]
pub enum JsonError {
    /// It is no JSON.
    Malformed { reason: String },
    /// It has no object under the key.
    NoObject,
}

/// Texts of this length and more are not read: a number in one may have more digits than
/// `serde_json` can count.
pub const TOO_LONG: usize = 0x8000_0000;

/// Whether `serde_json` reads a text as one JSON value.
pub uninterp spec fn is_json(json: Seq<char>) -> bool;

/// Whether a text is JSON that is read.
pub open spec fn readable(json: Seq<char>) -> bool {
    json.len() < TOO_LONG && is_json(json)
}

/// The member of a JSON text's object under a key: what `serde_json` reads there.
pub uninterp spec fn member_of(json: Seq<char>, key: Seq<char>) -> MemberView;

/// Calls `serde_json::from_str` and reads the member under the key through `as_str`, `as_u64`,
/// `as_f64` and `as_bool`. It fails exactly on a text that is no JSON; a text that is no object, or
/// has no such member, gives one that holds nothing. Whether a text is JSON depends on it alone, and
/// what a member holds on the text and the key. The words of the reason are left unsaid. Digits are
/// counted in 32 bits with a sign, so there must be fewer.
#[verifier::external_body]
fn read_member(json: &str, key: &str) -> (r: Result<Member, JsonError>)
    requires
        json@.len() < TOO_LONG,
    ensures
        match r {
            Ok(m) => is_json(json@) && m@ == member_of(json@, key@),
            Err(e) => e is Malformed && !is_json(json@),
        },
{
    let parsed: serde_json::Value = match serde_json::from_str(json) {
        Ok(v) => v,
        Err(e) => return Err(JsonError::Malformed { reason: e.to_string() }),
    };
    let v = &parsed[key];
    Ok(Member {
        text: v.as_str().map(str::to_string),
        unsigned: v.as_u64(),
        double: v.as_f64().map(|x| x.to_bits()),
        boolean: v.as_bool(),
    })
}

/// The members of the object under a key of a JSON text, each as the text it is, if it is one: what
/// `serde_json` reads there. There are none where there is no such object.
pub uninterp spec fn texts_of(json: Seq<char>, key: Seq<char>) -> Option<Seq<Option<Seq<char>>>>;

/// What optional strings hold.
pub open spec fn all_held(s: Seq<Option<String>>) -> Seq<Option<Seq<char>>> {
    s.map_values(|o: Option<String>| held(o))
}

/// Calls `serde_json::from_str`, looks for the object under the key with `get` and `as_object`, and
/// lists its members with `values`, each through `as_str`. It fails exactly on a text that is no JSON
/// and on one without such an object. The words of the reason are left unsaid. Digits are counted in
/// 32 bits with a sign, so there must be fewer.
#[verifier::external_body]
fn read_texts(json: &str, key: &str) -> (r: Result<Vec<Option<String>>, JsonError>)
    requires
        json@.len() < TOO_LONG,
    ensures
        match r {
            Ok(v) => is_json(json@) && texts_of(json@, key@) == Some(all_held(v@)),
            Err(JsonError::NoObject) => is_json(json@) && texts_of(json@, key@) is None,
            Err(JsonError::Malformed { .. }) => !is_json(json@),
        },
{
    let parsed: serde_json::Value = match serde_json::from_str(json) {
        Ok(v) => v,
        Err(e) => return Err(JsonError::Malformed { reason: e.to_string() }),
    };
    match parsed.get(key).and_then(|m| m.as_object()) {
        Some(m) => Ok(m.values().map(|s| s.as_str().map(str::to_string)).collect()),
        None => Err(JsonError::NoObject),
    }
}

/// The member of a JSON text's object under a key.
pub fn member(json: &str, key: &str) -> (r: Result<Member, JsonError>)
    ensures
        match r {
            Ok(m) => readable(json@) && m@ == member_of(json@, key@),
            Err(e) => e is Malformed && !readable(json@),
        },
{
    if json.unicode_len() >= TOO_LONG {
        return Err(JsonError::Malformed { reason: "the text is too long".to_string() });
    }
    read_member(json, key)
}

/// The members of the object under a key of a JSON text, each as the text it is, if it is one.
pub fn texts_under(json: &str, key: &str) -> (r: Result<Vec<Option<String>>, JsonError>)
    ensures
        match r {
            Ok(v) => readable(json@) && texts_of(json@, key@) == Some(all_held(v@)),
            Err(JsonError::NoObject) => readable(json@) && texts_of(json@, key@) is None,
            Err(JsonError::Malformed { .. }) => !readable(json@),
        },
{
    if json.unicode_len() >= TOO_LONG {
        return Err(JsonError::Malformed { reason: "the text is too long".to_string() });
    }
    read_texts(json, key)
}

} // verus!
