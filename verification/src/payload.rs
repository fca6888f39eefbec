//! The payload of a record: the JSON text of an object, or the words that
//! stand in for it where the object could not be written as JSON.

use vstd::prelude::*;

verus! {

/// The error of the `serde_json` crate. Nothing of what it holds is read
/// here: that there is one is all that matters.
#[verifier::external_type_specification]
#[verifier::external_body]
pub struct ExJsonError(serde_json::Error);

/// The words that stand in for a payload that could not be serialized.
pub open spec fn failure_text() -> Seq<char> {
    seq![
        'S', 'e', 'r', 'i', 'a', 'l', 'i', 'z', 'a', 't', 'i', 'o', 'n', ' ', 'e', 'r', 'r', 'o',
        'r',
    ]
}

/// The text of a payload, given how its serialization came out.
pub open spec fn payload_text(outcome: Result<String, serde_json::Error>) -> Seq<char> {
    match outcome {
        Ok(json) => json@,
        Err(_) => failure_text(),
    }
}

/// The number that the payload line bears: a record has one payload.
pub open spec fn index_label() -> Seq<char> {
    seq!['[', '1', ']']
}

/// The text of a payload: its JSON, or "Serialization error" where there is
/// none. A failed serialization is never passed on as an error.
pub fn serialize(outcome: Result<String, serde_json::Error>) -> (text: String)
    ensures
        text@ == payload_text(outcome),
{
    match outcome {
        Ok(json) => json,
        Err(_) => {
            proof {
                reveal_strlit("Serialization error");
                assert("Serialization error"@ =~= failure_text());
            }
            "Serialization error".to_string()
        },
    }
}

} // verus!
