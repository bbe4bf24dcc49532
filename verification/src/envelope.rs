//! The envelope that a call on the tool surface is answered with.
use crate::ftp;
use crate::json;
use crate::json::{Json, JsonModel, NumberModel};
use vstd::prelude::*;

verus! {

/// What a file operation that went well came to. Each operation fills its own
/// part.
#[derive(Debug)]
pub struct FtpOutcome {
    /// `list`: the entries.
    pub entries: Option<Vec<Json>>,
    /// `get`: the decoded content.
    pub content: Option<Json>,
    /// `get`: the number of bytes read.
    pub size: Option<usize>,
    /// `put`: the number of bytes written.
    pub written: Option<usize>,
}

impl FtpOutcome {
    /// What a listing came to.
    pub fn listed(entries: Vec<Json>) -> (res: FtpOutcome)
        ensures
            res == (FtpOutcome { entries: Some(entries), content: None, size: None, written: None }),
    {
        FtpOutcome { entries: Some(entries), content: None, size: None, written: None }
    }

    /// What a read came to.
    pub fn fetched(data: &[u8]) -> (res: FtpOutcome)
        ensures
            res.entries is None,
            res.content matches Some(content) && content.model() == ftp::content_model(data@)
                && ftp::content_bytes(content.model()) == Some(data@),
            res.size == Some(data@.len() as usize),
            res.written is None,
    {
        FtpOutcome {
            entries: None,
            content: Some(ftp::decode_content(data)),
            size: Some(data.len()),
            written: None,
        }
    }

    /// What a write came to.
    pub fn stored(written: usize) -> (res: FtpOutcome)
        ensures
            res == (FtpOutcome {
                entries: None,
                content: None,
                size: None,
                written: Some(written),
            }),
    {
        FtpOutcome { entries: None, content: None, size: None, written: Some(written) }
    }
}

/// A JSON integer, or null.
pub open spec fn optional_count(n: Option<usize>) -> JsonModel {
    match n {
        Some(n) => JsonModel::Number(NumberModel::Unsigned(n as u64)),
        None => JsonModel::Null,
    }
}

/// What was asked for.
pub open spec fn request_model(op: Seq<char>, host: Seq<char>, path: Seq<char>) -> JsonModel {
    JsonModel::Object(
        map![
            "op"@ => JsonModel::Str(op),
            "host"@ => JsonModel::Str(host),
            "path"@ => JsonModel::Str(path),
        ],
    )
}

/// What came of it: the part of the operation is filled, the others are null.
pub open spec fn response_model(outcome: Option<FtpOutcome>, duration_ms: u64) -> JsonModel {
    let (entries, count) = match outcome {
        Some(FtpOutcome { entries: Some(entries), .. }) => (
            JsonModel::Array(json::items_model(entries@)),
            JsonModel::Number(NumberModel::Unsigned(entries@.len() as u64)),
        ),
        _ => (JsonModel::Null, JsonModel::Null),
    };
    let content = match outcome {
        Some(FtpOutcome { content: Some(content), .. }) => content.model(),
        _ => JsonModel::Null,
    };
    let (size, written) = match outcome {
        Some(FtpOutcome { size, written, .. }) => (optional_count(size), optional_count(written)),
        None => (JsonModel::Null, JsonModel::Null),
    };
    JsonModel::Object(
        map![
            "entries"@ => entries,
            "count"@ => count,
            "content"@ => content,
            "size"@ => size,
            "written"@ => written,
            "durationMs"@ => JsonModel::Number(NumberModel::Unsigned(duration_ms)),
        ],
    )
}

/// A failure as it is reported: by its classification, or as an FTP error where
/// there is none.
pub open spec fn reported_failure(downstream: JsonModel) -> JsonModel {
    match downstream {
        JsonModel::Null => JsonModel::Object(map!["kind"@ => JsonModel::Str("ftp_error"@)]),
        _ => downstream,
    }
}

/// The whole envelope. `downstream` describes a failure of the file operation.
pub open spec fn envelope_model(
    tool_name: Seq<char>,
    backend_name: Seq<char>,
    request: JsonModel,
    response: JsonModel,
    downstream: Option<JsonModel>,
    error: Option<Seq<char>>,
) -> JsonModel {
    JsonModel::Object(
        map![
            "toolName"@ => JsonModel::Str(tool_name),
            "profile"@ => JsonModel::Str(backend_name),
            "request"@ => request,
            "response"@ => response,
            "downstreamError"@ => match downstream {
                Some(d) => reported_failure(d),
                None => JsonModel::Null,
            },
            "downstreamErrors"@ => JsonModel::Array(
                match downstream {
                    Some(d) => seq![reported_failure(d)],
                    None => Seq::empty(),
                },
            ),
            "error"@ => match error {
                Some(e) => JsonModel::Str(e),
                None => JsonModel::Null,
            },
        ],
    )
}

fn report_failure(downstream: &Json) -> (res: Json)
    ensures
        res.model() == reported_failure(downstream.model()),
{
    match downstream {
        Json::Null => {
            let mut fields: Vec<(String, Json)> = Vec::new();
            json::put(&mut fields, "kind", Json::text("ftp_error"));
            Json::Object(fields)
        },
        _ => downstream.clone(),
    }
}

fn count_json(n: Option<usize>) -> (res: Json)
    ensures
        res.model() == optional_count(n),
{
    match n {
        Some(n) => Json::unsigned(n as u64),
        None => Json::Null,
    }
}

fn build_request(op: &str, host: &str, path: &str) -> (res: Json)
    ensures
        res.model() == request_model(op@, host@, path@),
{
    let mut fields: Vec<(String, Json)> = Vec::new();
    json::put(&mut fields, "op", Json::text(op));
    json::put(&mut fields, "host", Json::text(host));
    json::put(&mut fields, "path", Json::text(path));
    Json::Object(fields)
}

fn build_response(outcome: Option<FtpOutcome>, duration_ms: u64) -> (res: Json)
    ensures
        res.model() == response_model(outcome, duration_ms),
{
    let (entries, content, size, written) = match outcome {
        Some(o) => (o.entries, o.content, o.size, o.written),
        None => (None, None, None, None),
    };
    let mut fields: Vec<(String, Json)> = Vec::new();
    match entries {
        Some(entries) => {
            let count: u64 = entries.len() as u64;
            json::put(&mut fields, "entries", Json::Array(entries));
            json::put(&mut fields, "count", Json::unsigned(count));
        },
        None => {
            json::put(&mut fields, "entries", Json::Null);
            json::put(&mut fields, "count", Json::Null);
        },
    }
    json::put(
        &mut fields,
        "content",
        match content {
            Some(content) => content,
            None => Json::Null,
        },
    );
    json::put(&mut fields, "size", count_json(size));
    json::put(&mut fields, "written", count_json(written));
    json::put(&mut fields, "durationMs", Json::unsigned(duration_ms));
    Json::Object(fields)
}

/// Builds the envelope of a call: `outcome` of one that went well, `downstream`
/// and `error` of one that did not.
pub fn build_result_envelope(
    tool_name: &str,
    backend_name: &str,
    op: &str,
    host: &str,
    path: &str,
    outcome: Option<FtpOutcome>,
    duration_ms: u64,
    downstream: Option<&Json>,
    error: Option<&str>,
) -> (res: Json)
    ensures
        res.model() == envelope_model(
            tool_name@,
            backend_name@,
            request_model(op@, host@, path@),
            response_model(outcome, duration_ms),
            match downstream {
                Some(d) => Some(d.model()),
                None => None,
            },
            match error {
                Some(e) => Some(e@),
                None => None,
            },
        ),
{
    let mut fields: Vec<(String, Json)> = Vec::new();
    json::put(&mut fields, "toolName", Json::text(tool_name));
    json::put(&mut fields, "profile", Json::text(backend_name));
    json::put(&mut fields, "request", build_request(op, host, path));
    json::put(&mut fields, "response", build_response(outcome, duration_ms));
    match downstream {
        Some(d) => {
            let reported = report_failure(d);
            json::put(&mut fields, "downstreamError", reported.clone());
            json::put(&mut fields, "downstreamErrors", json::array_of_one(reported));
        },
        None => {
            json::put(&mut fields, "downstreamError", Json::Null);
            json::put(&mut fields, "downstreamErrors", Json::Array(Vec::new()));
        },
    }
    json::put(&mut fields, "error", Json::optional_text(error));
    Json::Object(fields)
}

} // verus!
