//! Upstream payloads: JSON text kept verbatim, checked and read through serde_json.
use vstd::prelude::*;
use vstd::string::*;

verus! {

#[verifier::external_type_specification]
#[verifier::external_body]
pub struct ExJsonValue(serde_json::Value);

#[verifier::external_type_specification]
#[verifier::external_body]
pub struct ExJsonError(serde_json::Error);

/// Whether serde_json reads `text` as one JSON document.
pub uninterp spec fn json_accepts(text: Seq<char>) -> bool;

/// Relies on `serde_json::from_str::<Value>`: it succeeds exactly on the texts
/// it reads as one JSON document, and that depends on the text alone.
#[verifier::external_body]
fn parse_value(text: &str) -> (r: Result<serde_json::Value, serde_json::Error>)
    ensures
        r.is_ok() == json_accepts(text@),
{
    serde_json::from_str::<serde_json::Value>(text)
}

/// The string that the JSON pointer `pointer` names in the document `text`,
/// if `text` is a document and the pointer names a string there.
pub uninterp spec fn string_at(text: Seq<char>, pointer: Seq<char>) -> Option<Seq<char>>;

/// The length of the array that the JSON pointer `pointer` names in the
/// document `text`, if `text` is a document and the pointer names an array.
pub uninterp spec fn array_len_at(text: Seq<char>, pointer: Seq<char>) -> Option<nat>;

/// Relies on `serde_json::from_str::<Value>`, then `Value::pointer` and
/// `Value::as_str`: the string at a pointer, which depends on the two texts
/// alone; none where the text is no document.
#[verifier::external_body]
fn read_string_at(text: &str, pointer: &str) -> (r: Option<String>)
    ensures
        match r {
            Some(s) => string_at(text@, pointer@) == Some(s@),
            None => string_at(text@, pointer@).is_none(),
        },
        !json_accepts(text@) ==> r.is_none(),
{
    serde_json::from_str::<serde_json::Value>(text)
        .ok()
        .and_then(|v| v.pointer(pointer).and_then(|x| x.as_str()).map(|s| s.to_string()))
}

/// Relies on `serde_json::from_str::<Value>`, then `Value::pointer` and
/// `Value::as_array`: the length of the array at a pointer, which depends on
/// the two texts alone; none where the text is no document.
#[verifier::external_body]
fn read_array_len_at(text: &str, pointer: &str) -> (r: Option<usize>)
    ensures
        match r {
            Some(n) => array_len_at(text@, pointer@) == Some(n as nat),
            None => array_len_at(text@, pointer@).is_none(),
        },
        !json_accepts(text@) ==> r.is_none(),
{
    serde_json::from_str::<serde_json::Value>(text)
        .ok()
        .and_then(|v| v.pointer(pointer).and_then(|x| x.as_array()).map(|a| a.len()))
}

/// Whether `text` is a JSON document.
pub fn is_document(text: &str) -> (r: bool)
    ensures
        r == json_accepts(text@),
{
    match parse_value(text) {
        Ok(_) => true,
        Err(_) => false,
    }
}

/// Name and avatar that a profile summary gives its subject.
#[derive(Clone, Debug, PartialEq, Eq)]
pub struct ProfileIdentity {
    pub display_name: String,
    pub avatar_url: String,
}

pub open spec fn fallback_name() -> Seq<char> {
    seq!['U', 'n', 'k', 'n', 'o', 'w', 'n']
}

/// The identity from the fields found in the first player: a missing name
/// reads "Unknown", a missing avatar reads empty.
pub fn identity_from_fields(name: Option<&str>, avatar: Option<&str>) -> (r: ProfileIdentity)
    ensures
        r.display_name@ == match name {
            Some(n) => n@,
            None => fallback_name(),
        },
        r.avatar_url@ == match avatar {
            Some(a) => a@,
            None => Seq::<char>::empty(),
        },
{
    let display_name = match name {
        Some(n) => String::from_str(n),
        None => {
            let s = String::from_str("Unknown");
            proof {
                reveal_strlit("Unknown");
                assert(s@ =~= fallback_name());
            }
            s
        },
    };
    let avatar_url = match avatar {
        Some(a) => String::from_str(a),
        None => String::new(),
    };
    ProfileIdentity { display_name, avatar_url }
}

/// The identity that a profile summary gives: where `response.players` is a
/// non-empty array, the first player's `personaname` (else "Unknown") and
/// `avatarfull` (else empty); otherwise none.
pub open spec fn identity_spec(text: Seq<char>) -> Option<(Seq<char>, Seq<char>)> {
    if array_len_at(text, "/response/players"@) matches Some(n) && n > 0 {
        let name = match string_at(text, "/response/players/0/personaname"@) {
            Some(s) => s,
            None => fallback_name(),
        };
        let avatar = match string_at(text, "/response/players/0/avatarfull"@) {
            Some(s) => s,
            None => Seq::<char>::empty(),
        };
        Some((name, avatar))
    } else {
        None
    }
}

/// The identity in a profile summary, read from the first entry of
/// `response.players`; `None` where the text is no JSON document or lists no
/// player.
pub fn profile_identity(text: &str) -> (r: Option<ProfileIdentity>)
    ensures
        match identity_spec(text@) {
            Some((n, a)) => r matches Some(id) && id.display_name@ == n && id.avatar_url@ == a,
            None => r.is_none(),
        },
        !json_accepts(text@) ==> r.is_none(),
{
    match read_array_len_at(text, "/response/players") {
        Some(n) => {
            if n == 0 {
                return None;
            }
        },
        None => {
            return None;
        },
    }
    let name = read_string_at(text, "/response/players/0/personaname");
    let avatar = read_string_at(text, "/response/players/0/avatarfull");
    let name_ref = match &name {
        Some(s) => Some(s.as_str()),
        None => None,
    };
    let avatar_ref = match &avatar {
        Some(s) => Some(s.as_str()),
        None => None,
    };
    Some(identity_from_fields(name_ref, avatar_ref))
}

} // verus!
