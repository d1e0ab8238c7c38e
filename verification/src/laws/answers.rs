//! Answers in JSON.

use vstd::prelude::*;
use vstd::utf8::encode_utf8;
use crate::http::ReplyModel;
use crate::json::{json_text, JsonModel};

verus! {

/// Whether a reply is JSON that any page may read, with the given status and value.
pub open spec fn answers(reply: ReplyModel, status: u16, value: JsonModel) -> bool {
    &&& reply.status == status
    &&& reply.headers == seq![
        ("content-type"@, "application/json"@),
        ("access-control-allow-origin"@, "*"@),
    ]
    &&& reply.body == encode_utf8(json_text(value))
}

/// The object that says what went wrong, and no more.
pub open spec fn error_value(error: Seq<char>) -> JsonModel {
    JsonModel::Object(map!["error"@ => JsonModel::Text(error)])
}

/// The value under a key of an object; null where there is none.
pub open spec fn under(value: JsonModel, key: Seq<char>) -> JsonModel {
    if value is Object && value->Object_0.contains_key(key) {
        value->Object_0[key]
    } else {
        JsonModel::Null
    }
}

pub(crate) proof fn lemma_json_headers()
    ensures
        Seq::empty().push(("content-type"@, "application/json"@)).push(
            ("access-control-allow-origin"@, "*"@),
        ) == seq![
            ("content-type"@, "application/json"@),
            ("access-control-allow-origin"@, "*"@),
        ],
{
    assert(Seq::empty().push(("content-type"@, "application/json"@)).push(
        ("access-control-allow-origin"@, "*"@),
    ) =~= seq![("content-type"@, "application/json"@), ("access-control-allow-origin"@, "*"@)]);
}

/// A text without its quotation marks and line breaks.
pub open spec fn cleaned(s: Seq<char>) -> Seq<char> {
    s.filter(|c: char| c != '"' && c != '\n' && c != '\r')
}

pub(crate) proof fn lemma_cleaned(s: Seq<char>)
    ensures
        crate::text::sanitized(s) == cleaned(s),
    decreases s.len(),
{
    reveal(Seq::filter);
    if s.len() > 0 {
        lemma_cleaned(s.drop_last());
    }
}

pub(crate) proof fn lemma_error_value(error: Seq<char>)
    ensures
        error_value(error) == JsonModel::empty().with(
            "error"@,
            JsonModel::Text(error),
        ),
{
    assert(map!["error"@ => JsonModel::Text(error)] =~= Map::empty().insert(
        "error"@,
        JsonModel::Text(error),
    ));
}

} // verus!
