//! The tag that marks generated output, read from the pass's JSON
//! configuration (`{"tag": "..."}`).

use serde_json::Value;
use vstd::prelude::*;
use vstd::string::StringExecFns;

verus! {

/// Whether a text parses as a JSON value.
pub uninterp spec fn is_json(text: Seq<char>) -> bool;

/// The tag used where the configuration gives none.
pub open spec fn default_tag() -> Seq<char> {
    "__atomic_generated"@
}

/// The string member `key` of the JSON object that a text holds, if the text
/// is JSON, holds an object, and that member is a string.
pub uninterp spec fn json_string_member(text: Seq<char>, key: Seq<char>) -> Option<Seq<char>>;

/// Relies on `serde_json::from_str::<Value>`, `Value::get` and
/// `Value::as_str`: parses the text and reads the string member `key`; the
/// result depends on the two texts alone, and there is none where the text is
/// not JSON.
#[verifier::external_body]
fn string_member(text: &str, key: &str) -> (r: Option<String>)
    ensures
        match r {
            Some(s) => is_json(text@) && json_string_member(text@, key@) == Some(s@),
            None => json_string_member(text@, key@) is None,
        },
        !is_json(text@) ==> r is None,
{
    serde_json::from_str::<Value>(text).ok().and_then(
        |v| v.get(key).and_then(|t| t.as_str()).map(|t| t.to_string()),
    )
}

/// The tag that a configuration names: the string member `tag` of its JSON
/// object, or the default.
pub open spec fn tag_of(config: Option<&str>) -> Seq<char> {
    match config {
        Some(c) => match json_string_member(c@, "tag"@) {
            Some(t) => t,
            None => default_tag(),
        },
        None => default_tag(),
    }
}

/// The tag: the one found, or the default where none was found.
pub fn tag_or_default(found: Option<&str>) -> (r: String)
    ensures
        r@ == match found {
            Some(t) => t@,
            None => default_tag(),
        },
{
    match found {
        Some(t) => String::from_str(t),
        None => String::from_str("__atomic_generated"),
    }
}

/// The tag named by a configuration: the string member `tag` of the JSON
/// object it holds. Where there is no configuration, it is not JSON, or it
/// has no string member `tag`, the default tag.
pub fn tag_from_config(config: Option<&str>) -> (r: String)
    ensures
        r@ == tag_of(config),
        config is None ==> r@ == default_tag(),
        config matches Some(c) && !is_json(c@) ==> r@ == default_tag(),
{
    proof {
        reveal_strlit("tag");
    }
    let found = match config {
        Some(c) => string_member(c, "tag"),
        None => None,
    };
    match found {
        Some(s) => tag_or_default(Some(s.as_str())),
        None => tag_or_default(None),
    }
}

} // verus!
