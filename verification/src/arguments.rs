//! The arguments of a call.
use crate::outside;
use vstd::prelude::*;

verus! {

/// The arguments that calls are steered by: the strings that the request's JSON
/// object holds under these names.
#[derive(Debug)]
pub struct CallArguments {
    pub path: Option<String>,
    pub uri: Option<String>,
    pub content: Option<String>,
    pub text: Option<String>,
}

/// What [`CallArguments`] say.
pub struct CallArgumentsModel {
    pub path: Option<Seq<char>>,
    pub uri: Option<Seq<char>>,
    pub content: Option<Seq<char>>,
    pub text: Option<Seq<char>>,
}

impl CallArguments {
    pub open spec fn model(self) -> CallArgumentsModel {
        CallArgumentsModel {
            path: optional_chars(self.path),
            uri: optional_chars(self.uri),
            content: optional_chars(self.content),
            text: optional_chars(self.text),
        }
    }
}

/// The string argument `key` of a request: none where the payload is empty, is
/// not a JSON object, or holds no string under `key`.
pub open spec fn string_argument(payload: Seq<u8>, key: Seq<char>) -> Option<Seq<char>> {
    if payload.len() == 0 {
        None
    } else {
        outside::json_string_field(payload, key)
    }
}

/// The characters of an optional text.
pub open spec fn optional_chars(s: Option<String>) -> Option<Seq<char>> {
    match s {
        Some(t) => Some(t@),
        None => None,
    }
}

fn argument(payload: &[u8], key: &str) -> (res: Option<String>)
    ensures
        optional_chars(res) == string_argument(payload@, key@),
{
    if payload.len() == 0 {
        None
    } else {
        outside::json_string(payload, key)
    }
}

/// What the arguments in a request's payload say.
pub open spec fn arguments_of(payload: Seq<u8>) -> CallArgumentsModel {
    CallArgumentsModel {
        path: string_argument(payload, "path"@),
        uri: string_argument(payload, "uri"@),
        content: string_argument(payload, "content"@),
        text: string_argument(payload, "text"@),
    }
}

/// Reads the arguments out of a request's payload.
pub fn parse_arguments(payload: &[u8]) -> (res: CallArguments)
    ensures
        res.model() == arguments_of(payload@),
{
    CallArguments {
        path: argument(payload, "path"),
        uri: argument(payload, "uri"),
        content: argument(payload, "content"),
        text: argument(payload, "text"),
    }
}

} // verus!
