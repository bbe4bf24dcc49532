//! A call to a binding: what is asked of the server, and what is answered.
use crate::arguments::{CallArguments, CallArgumentsModel};
use crate::audit;
use crate::envelope;
use crate::envelope::FtpOutcome;
use crate::ftp;
use crate::ftp::FtpConn;
use crate::json::{Json, JsonModel};
use crate::outside;
use crate::session::{FileOp, FileOpModel};
use crate::surface;
use crate::surface::Surface;
use crate::text;
use crate::types::FtpOp;
use vstd::prelude::*;

verus! {

/// A registered binding.
pub struct FtpProfile {
    pub op: FtpOp,
    pub conn: FtpConn,
    pub base_path: String,
    pub max_bytes: usize,
    pub timeout_ms: u64,
    pub surface: Surface,
    pub uri_template: String,
}

impl Clone for FtpProfile {
    fn clone(&self) -> (res: FtpProfile)
        ensures
            res == *self,
    {
        FtpProfile {
            op: self.op,
            conn: self.conn.clone(),
            base_path: self.base_path.clone(),
            max_bytes: self.max_bytes,
            timeout_ms: self.timeout_ms,
            surface: self.surface,
            uri_template: self.uri_template.clone(),
        }
    }
}

/// The name that a call goes by: the value of the first `mcpg-tool-name` header,
/// in whatever case it is written, or else the name of the binding.
pub open spec fn called_name(headers: Seq<(String, String)>, backend_name: Seq<char>) -> Seq<char>
    decreases headers.len(),
{
    if headers.len() == 0 {
        backend_name
    } else if text::ascii_lower(headers[0].0@) == "mcpg-tool-name"@ {
        headers[0].1@
    } else {
        called_name(headers.drop_first(), backend_name)
    }
}

/// The name that a call goes by.
pub fn tool_name(headers: &Vec<(String, String)>, backend_name: &str) -> (res: String)
    ensures
        res@ == called_name(headers@, backend_name@),
{
    let mut i: usize = 0;
    assert(headers@.skip(0) =~= headers@);
    while i < headers.len()
        invariant
            i <= headers.len(),
            called_name(headers@, backend_name@) == called_name(
                headers@.skip(i as int),
                backend_name@,
            ),
        decreases headers.len() - i,
    {
        let name = text::lowered(headers[i].0.as_str());
        if text::spells(&name, "mcpg-tool-name") {
            return headers[i].1.clone();
        }
        assert(headers@.skip(i as int).drop_first() =~= headers@.skip(i + 1));
        i += 1;
    }
    backend_name.to_owned()
}

/// The bytes that the arguments of a `put` ask to write, or why there are none.
pub open spec fn put_content(args: CallArgumentsModel) -> Result<Seq<u8>, Seq<char>> {
    match (args.content, args.text) {
        (Some(encoded), _) => match outside::base64_bytes(encoded) {
            Ok(bytes) => Ok(bytes),
            Err(reason) => Err("'content' is not valid base64: "@ + reason),
        },
        (None, Some(t)) => Ok(vstd::utf8::encode_utf8(t)),
        (None, None) => Err("put requires a 'content' (base64) or 'text' argument"@),
    }
}

/// The bytes to write for what [`outside::base64_decode`] made of the `content`
/// argument, where there is one, and the `text` argument.
pub fn chosen_content(decoded: Option<Result<Vec<u8>, String>>, text: Option<&str>) -> (res: Result<
    Vec<u8>,
    String,
>)
    ensures
        match (decoded, text) {
            (Some(Ok(bytes)), _) => res matches Ok(data) && data@ == bytes@,
            (Some(Err(reason)), _) => res matches Err(message) && message@
                == "'content' is not valid base64: "@ + reason@,
            (None, Some(t)) => res matches Ok(data) && data@ == vstd::utf8::encode_utf8(t@),
            (None, None) => res matches Err(message) && message@
                == "put requires a 'content' (base64) or 'text' argument"@,
        },
{
    match decoded {
        Some(Ok(bytes)) => Ok(bytes),
        Some(Err(reason)) => Err(text::joined("'content' is not valid base64: ", reason.as_str())),
        None => match text {
            Some(t) => Ok(t.as_bytes_vec()),
            None => Err("put requires a 'content' (base64) or 'text' argument".to_owned()),
        },
    }
}

/// The bytes that the arguments of a `put` ask to write: those that `content`
/// stands for in base64, or else the UTF-8 of `text`.
pub fn extract_put_content(args: &CallArguments) -> (res: Result<Vec<u8>, String>)
    ensures
        match put_content(args.model()) {
            Ok(bytes) => res matches Ok(data) && data@ == bytes,
            Err(problem) => res matches Err(message) && message@ == problem,
        },
{
    let text = match &args.text {
        Some(t) => Some(t.as_str()),
        None => None,
    };
    match &args.content {
        Some(encoded) => chosen_content(Some(outside::base64_decode(encoded.as_str())), text),
        None => chosen_content(None, text),
    }
}

/// The path that a call asks for, as it names it: empty where it names none.
pub open spec fn path_argument(profile: FtpProfile, args: CallArgumentsModel) -> Seq<char> {
    let named = match profile.surface {
        Surface::Tool => args.path,
        Surface::Resource => surface::read_path(profile.uri_template@, args),
    };
    match named {
        Some(path) => path,
        None => Seq::empty(),
    }
}

fn named_path(profile: &FtpProfile, args: &CallArguments) -> (res: String)
    ensures
        res@ == path_argument(*profile, args.model()),
{
    let named = match profile.surface {
        Surface::Tool => args.path.clone(),
        Surface::Resource => surface::resolve_read_path(profile.uri_template.as_str(), args),
    };
    match named {
        Some(path) => path,
        None => String::new(),
    }
}

/// What a binding does: the resource surface reads one file, whatever the
/// configured operation.
pub open spec fn performed_op(profile: FtpProfile) -> FtpOp {
    match profile.surface {
        Surface::Tool => profile.op,
        Surface::Resource => FtpOp::Get,
    }
}

/// The arguments name a file by its URI: one that the template recovers a path from
/// that is not blank.
pub open spec fn named_by_uri(template: Seq<char>, args: CallArgumentsModel) -> bool {
    args.uri matches Some(uri) && surface::recovered_path(template, uri) matches Some(path)
        && !text::is_blank(path)
}

fn is_named_by_uri(template: &str, args: &CallArguments) -> (res: bool)
    ensures
        res == named_by_uri(template@, args.model()),
{
    match &args.uri {
        Some(uri) => match surface::path_from_uri(template, uri.as_str()) {
            Some(path) => !text::blank(path.as_str()),
            None => false,
        },
        None => false,
    }
}

/// The remote path for the path that a call names: it is joined under the base. A
/// path recovered from a URI on the resource surface, where the URIs of listed files
/// spell the base out, is not joined under it once more.
pub open spec fn target_path(profile: FtpProfile, args: CallArgumentsModel) -> Seq<char> {
    let named = path_argument(profile, args);
    if profile.surface == Surface::Resource && named_by_uri(profile.uri_template@, args) {
        surface::read_target(profile.base_path@, named)
    } else {
        ftp::joined_under(profile.base_path@, named)
    }
}

/// What a call comes down to: one file operation, or the reason why there is
/// nothing to ask of the server.
pub open spec fn planned_work(profile: FtpProfile, args: CallArgumentsModel) -> Result<
    FileOpModel,
    Seq<char>,
> {
    let named = path_argument(profile, args);
    let path = target_path(profile, args);
    if profile.surface == Surface::Resource && text::is_blank(named) {
        Err("resource surface requires a resolvable `uri` (or `path`) to read"@)
    } else if performed_op(profile) != FtpOp::List && text::is_blank(named) {
        Err("op '"@ + profile.op.name() + "' requires a 'path' argument"@)
    } else if ftp::has_parent_segment(named) || (profile.surface == Surface::Resource
        && ftp::has_parent_segment(profile.base_path@)) {
        Err("path must not contain '..' segments"@)
    } else {
        match performed_op(profile) {
            FtpOp::List => Ok(FileOpModel::List { path }),
            FtpOp::Get => Ok(FileOpModel::Get { path, max_bytes: profile.max_bytes }),
            FtpOp::Put => match put_content(args) {
                Ok(content) => if content.len() <= profile.max_bytes {
                    Ok(FileOpModel::Put { path, content })
                } else {
                    Err(ftp::over_cap("content"@, profile.max_bytes as nat))
                },
                Err(problem) => Err(problem),
            },
        }
    }
}

/// A call, ready to be carried out.
pub struct CallPlan {
    pub profile: FtpProfile,
    pub backend_name: String,
    pub tool_name: String,
    /// The path that the call asks for, as it names it.
    pub path_arg: String,
    /// What to ask of the server, or why not to.
    pub work: Result<FileOp, String>,
}

/// `plan` is what a call with these headers and arguments to `profile`, under the
/// name `backend_name`, comes to.
pub open spec fn is_plan_for(
    plan: CallPlan,
    profile: FtpProfile,
    backend_name: Seq<char>,
    headers: Seq<(String, String)>,
    args: CallArgumentsModel,
) -> bool {
    &&& plan.profile == profile
    &&& plan.backend_name@ == backend_name
    &&& plan.tool_name@ == called_name(headers, backend_name)
    &&& plan.path_arg@ == path_argument(profile, args)
    &&& match planned_work(profile, args) {
        Ok(op) => plan.work matches Ok(work) && work.model() == op,
        Err(problem) => plan.work matches Err(message) && message@ == problem,
    }
}

fn plan_work(profile: &FtpProfile, args: &CallArguments, path_arg: &str) -> (res: Result<
    FileOp,
    String,
>)
    requires
        path_arg@ == path_argument(*profile, args.model()),
    ensures
        match planned_work(*profile, args.model()) {
            Ok(op) => res matches Ok(work) && work.model() == op,
            Err(problem) => res matches Err(message) && message@ == problem,
        },
{
    let blank = text::blank(path_arg);
    let op = match profile.surface {
        Surface::Tool => profile.op,
        Surface::Resource => {
            if blank {
                return Err(
                    "resource surface requires a resolvable `uri` (or `path`) to read".to_owned(),
                );
            }
            FtpOp::Get
        },
    };
    if blank && op != FtpOp::List {
        let mut message = text::joined("op '", profile.op.as_str());
        message.append("' requires a 'path' argument");
        return Err(message);
    }
    let base = profile.base_path.as_str();
    let resolved = match profile.surface {
        Surface::Tool => ftp::resolve_path(base, path_arg),
        Surface::Resource => if ftp::holds_parent_segment(base) {
            Err("path must not contain '..' segments".to_owned())
        } else if is_named_by_uri(profile.uri_template.as_str(), args) {
            surface::resolve_read_target(base, path_arg)
        } else {
            ftp::resolve_path(base, path_arg)
        },
    };
    let path = match resolved {
        Ok(path) => path,
        Err(message) => {
            return Err(message);
        },
    };
    match op {
        FtpOp::List => Ok(FileOp::List { path }),
        FtpOp::Get => Ok(FileOp::Get { path, max_bytes: profile.max_bytes }),
        FtpOp::Put => match extract_put_content(args) {
            Ok(content) => if content.len() > profile.max_bytes {
                Err(ftp::over_cap_text("content", profile.max_bytes))
            } else {
                Ok(FileOp::Put { path, content })
            },
            Err(message) => Err(message),
        },
    }
}

/// Plans a call to the binding `backend_name`.
pub fn plan_call(
    profile: FtpProfile,
    backend_name: &str,
    headers: &Vec<(String, String)>,
    args: &CallArguments,
) -> (res: CallPlan)
    ensures
        is_plan_for(res, profile, backend_name@, headers@, args.model()),
{
    let path_arg = named_path(&profile, args);
    let work = plan_work(&profile, args, path_arg.as_str());
    CallPlan {
        profile,
        backend_name: backend_name.to_owned(),
        tool_name: tool_name(headers, backend_name),
        path_arg,
        work,
    }
}

/// What an operation came to that was given a time limit.
pub fn within_timeout(reply: Option<Result<FtpOutcome, String>>) -> (res: Result<
    FtpOutcome,
    String,
>)
    ensures
        match reply {
            Some(result) => res == result,
            None => res matches Err(message) && message@ == "FTP operation timed out"@,
        },
{
    match reply {
        Some(result) => result,
        None => Err("FTP operation timed out".to_owned()),
    }
}

/// A call that failed: the message, and what the message is classified as.
#[derive(Debug)]
pub struct CallFailure {
    pub message: String,
    pub downstream: Json,
}

/// The answer to a call, and what the host is told of it.
#[derive(Debug)]
pub struct CallReport {
    pub envelope: Json,
    pub outcome_label: &'static str,
    pub audit_reason: Option<String>,
}

/// The outcome label of a call that failed with `message`.
pub open spec fn failure_label(message: Seq<char>, downstream: JsonModel) -> Seq<char> {
    let lower = text::ascii_lower(message);
    if text::contains(lower, "timed out"@) || text::contains(lower, "timeout"@) {
        "timeout"@
    } else if downstream.string_at("kind"@) == Some("transport_error"@) {
        "transport_error"@
    } else {
        "ftp_error"@
    }
}

fn label_of_failure(failure: &CallFailure) -> (res: &'static str)
    ensures
        res@ == failure_label(failure.message@, failure.downstream.model()),
{
    let lower = text::lowered(failure.message.as_str());
    if text::has(&lower, "timed out") || text::has(&lower, "timeout") {
        return "timeout";
    }
    match failure.downstream.str_at("kind") {
        Some(kind) => if text::same(kind, "transport_error") {
            "transport_error"
        } else {
            "ftp_error"
        },
        None => "ftp_error",
    }
}

/// What the content of a fetched file stands for: null where there is none.
pub open spec fn fetched_content(outcome: FtpOutcome) -> JsonModel {
    match outcome.content {
        Some(content) => content.model(),
        None => JsonModel::Null,
    }
}

/// The answer to a planned call, by what became of it. A file fetched on the
/// resource surface is answered with the body of a `resources/read`; anything
/// else with the tool envelope.
pub open spec fn answer(
    plan: CallPlan,
    result: Result<FtpOutcome, CallFailure>,
    duration_ms: u64,
) -> JsonModel {
    let request = envelope::request_model(
        plan.profile.op.name(),
        plan.profile.conn.host@,
        plan.path_arg@,
    );
    match result {
        Ok(outcome) => if plan.profile.surface == Surface::Resource {
            surface::contents_body(
                surface::filled_uri(plan.profile.uri_template@, plan.path_arg@),
                surface::media_type(surface::lower_extension(plan.path_arg@)),
                fetched_content(outcome),
            )
        } else {
            envelope::envelope_model(
                plan.tool_name@,
                plan.backend_name@,
                request,
                envelope::response_model(Some(outcome), duration_ms),
                None,
                None,
            )
        },
        Err(failure) => envelope::envelope_model(
            plan.tool_name@,
            plan.backend_name@,
            request,
            envelope::response_model(None, duration_ms),
            Some(failure.downstream.model()),
            Some(failure.message@),
        ),
    }
}

/// The outcome label of a call, by what became of it.
pub open spec fn outcome_label(result: Result<FtpOutcome, CallFailure>) -> Seq<char> {
    match result {
        Ok(_) => "ok"@,
        Err(failure) => failure_label(failure.message@, failure.downstream.model()),
    }
}

/// Answers a planned call, by what became of it.
pub fn finish_call(
    plan: &CallPlan,
    result: Result<FtpOutcome, CallFailure>,
    duration_ms: u64,
) -> (res: CallReport)
    ensures
        res.envelope.model() == answer(*plan, result, duration_ms),
        res.outcome_label@ == outcome_label(result),
        match result {
            Ok(_) => res.audit_reason is None,
            Err(failure) => res.audit_reason == Some(failure.message),
        },
{
    match result {
        Ok(outcome) => {
            let answered = match plan.profile.surface {
                Surface::Resource => {
                    let uri = surface::fill_uri_template(
                        plan.profile.uri_template.as_str(),
                        plan.path_arg.as_str(),
                    );
                    let mime = surface::mime_type_for(plan.path_arg.as_str());
                    let content = match outcome.content {
                        Some(content) => content,
                        None => Json::Null,
                    };
                    surface::resource_contents_body(uri.as_str(), mime, &content)
                },
                Surface::Tool => envelope::build_result_envelope(
                    plan.tool_name.as_str(),
                    plan.backend_name.as_str(),
                    plan.profile.op.as_str(),
                    plan.profile.conn.host.as_str(),
                    plan.path_arg.as_str(),
                    Some(outcome),
                    duration_ms,
                    None,
                    None,
                ),
            };
            CallReport { envelope: answered, outcome_label: "ok", audit_reason: None }
        },
        Err(failure) => {
            let answered = envelope::build_result_envelope(
                plan.tool_name.as_str(),
                plan.backend_name.as_str(),
                plan.profile.op.as_str(),
                plan.profile.conn.host.as_str(),
                plan.path_arg.as_str(),
                None,
                duration_ms,
                Some(&failure.downstream),
                Some(failure.message.as_str()),
            );
            CallReport {
                envelope: answered,
                outcome_label: label_of_failure(&failure),
                audit_reason: Some(failure.message),
            }
        },
    }
}

/// No call climbs out of the base. A path with a `..` segment is refused, and so is
/// every path on the resource surface where the base has one. What is asked of the
/// server is then, under a base that is not blank, the base, without its trailing
/// slashes, followed by nothing or by a `/` and a rest without `..` segments. Under
/// a blank base, and on the resource surface, it has no `..` segment at all.
pub proof fn law_calls_stay_under_base(profile: FtpProfile, args: CallArgumentsModel)
    ensures
        ({
            let named = path_argument(profile, args);
            let base = profile.base_path@;
            let root = text::trim_end(base, '/');
            &&& ftp::has_parent_segment(named) ==> planned_work(profile, args) is Err
            &&& profile.surface == Surface::Resource && ftp::has_parent_segment(base)
                ==> planned_work(profile, args) is Err
            &&& planned_work(profile, args) matches Ok(op) ==> {
                &&& op.path() == target_path(profile, args)
                &&& text::is_blank(base) || profile.surface == Surface::Resource
                    ==> !ftp::has_parent_segment(op.path())
                &&& !text::is_blank(base) ==> {
                    let below = op.path().skip(root.len() as int);
                    &&& text::has_prefix(op.path(), root)
                    &&& below.len() > 0 ==> below[0] == '/'
                    &&& !ftp::has_parent_segment(below)
                }
            }
        }),
{
    let named = path_argument(profile, args);
    let base = profile.base_path@;
    if planned_work(profile, args) is Ok {
        let rest = if profile.surface == Surface::Resource && named_by_uri(
            profile.uri_template@,
            args,
        ) {
            surface::lemma_read_target_is_joined(base, named)
        } else {
            named
        };
        if text::is_blank(base) {
            assert(ftp::joined_under(base, rest) == ftp::joined_under(Seq::empty(), rest));
            ftp::law_resolving_adds_no_parent_segment(Seq::empty(), rest);
        } else {
            ftp::law_resolved_path_stays_under_base(base, rest);
            if profile.surface == Surface::Resource {
                ftp::law_resolving_adds_no_parent_segment(base, rest);
            }
        }
    }
}

/// Only a `put` on the tool surface writes, and neither it nor a read passes the
/// cap: a binding whose operation is read-only, or that serves resources, never
/// asks the server to change a file.
pub proof fn law_only_put_writes_and_within_cap(profile: FtpProfile, args: CallArgumentsModel)
    ensures
        planned_work(profile, args) matches Ok(FileOpModel::Put { path, content }) ==> {
            &&& profile.surface == Surface::Tool
            &&& profile.op == FtpOp::Put
            &&& content.len() <= profile.max_bytes
        },
        planned_work(profile, args) matches Ok(FileOpModel::Get { path, max_bytes }) ==> max_bytes
            == profile.max_bytes,
        profile.surface == Surface::Resource && planned_work(profile, args) is Ok ==> planned_work(
            profile,
            args,
        )->Ok_0 is Get,
{
}

/// A listed resource is read by its URI: whatever the base, a read of the URI that a
/// listing gives for the file `name` asks for that file, and is answered under the
/// same URI.
///
/// Neither the base nor the name has a `..` segment, the path is not blank, and
/// filling the template leaves what follows its first placeholder as it is, which it
/// does in a template with one placeholder.
pub proof fn law_listed_resource_is_read_by_its_uri(
    profile: FtpProfile,
    name: Seq<char>,
    args: CallArgumentsModel,
)
    requires
        profile.surface == Surface::Resource,
        !ftp::has_parent_segment(profile.base_path@),
        !ftp::has_parent_segment(name),
        ({
            let template = profile.uri_template@;
            let path = surface::path_in_dir(profile.base_path@, name);
            let below = text::trim_start(path, '/');
            let suffix = (text::split_once(template, surface::placeholder())->0).1;
            &&& text::contains(template, surface::placeholder())
            &&& text::replace_all(suffix, surface::placeholder(), below) == suffix
            &&& !text::is_blank(below)
            &&& args.uri == Some(surface::filled_uri(template, path))
        }),
    ensures
        planned_work(profile, args) == Ok::<FileOpModel, Seq<char>>(
            FileOpModel::Get {
                path: ftp::joined_under(profile.base_path@, name),
                max_bytes: profile.max_bytes,
            },
        ),
        args.uri == Some(
            surface::filled_uri(profile.uri_template@, path_argument(profile, args)),
        ),
{
    let base = profile.base_path@;
    let path = surface::path_in_dir(base, name);
    let below = text::trim_start(path, '/');
    surface::law_filled_uri_gives_path_back(profile.uri_template@, path);
    text::lemma_trimmed_start(path, '/');
    assert(path_argument(profile, args) == below);
    assert(text::trim_start(below, '/') == below);
    surface::lemma_path_in_dir_has_no_parent_segment(base, name);
    ftp::lemma_trimmed_start_has_no_parent_segment(path);
    surface::law_listed_path_is_read_in_place(base, name);
}

/// What a read reports, a `put` can write back: handed in as the arguments that it
/// is reported as, it asks for the very bytes that it stands for.
pub proof fn law_reported_content_can_be_put_back(
    content: JsonModel,
    data: Seq<u8>,
    args: CallArgumentsModel,
)
    requires
        ftp::content_bytes(content) == Some(data),
        args.text == content.string_at("text"@),
        args.content == (if args.text is Some {
            None
        } else {
            content.string_at("base64"@)
        }),
    ensures
        put_content(args) == Ok::<Seq<u8>, Seq<char>>(data),
{
}

/// Every failure of a call is audited, and no success.
pub proof fn law_failures_are_audited(result: Result<FtpOutcome, CallFailure>)
    ensures
        audit::audit_action(outcome_label(result)) is Some <==> result is Err,
{
    reveal_strlit("ok");
    reveal_strlit("timeout");
    reveal_strlit("transport_error");
    reveal_strlit("ftp_error");
    reveal_strlit("invalid_spec");
    assert("ok"@.len() == 2);
}

/// The answer tells success from failure. A failure is answered with its message as
/// `error` and with a `downstreamError` that is not null, however it is classified,
/// on either surface. A success has neither: both are null on the tool surface, and
/// on the resource surface there are `contents` in their place.
pub proof fn law_answer_tells_success_from_failure(
    plan: CallPlan,
    result: Result<FtpOutcome, CallFailure>,
    duration_ms: u64,
)
    ensures
        ({
            let answered = answer(plan, result, duration_ms);
            match result {
                Err(failure) => {
                    &&& answered.at("downstreamError"@) is Some
                    &&& answered.at("downstreamError"@) != Some(JsonModel::Null)
                    &&& answered.string_at("error"@) == Some(failure.message@)
                    &&& answered.at("contents"@) is None
                },
                Ok(_) => if plan.profile.surface == Surface::Tool {
                    &&& answered.at("downstreamError"@) == Some(JsonModel::Null)
                    &&& answered.at("error"@) == Some(JsonModel::Null)
                } else {
                    &&& answered.at("downstreamError"@) is None
                    &&& answered.at("error"@) is None
                    &&& answered.at("contents"@) is Some
                },
            }
        }),
{
    reveal_strlit("toolName");
    reveal_strlit("profile");
    reveal_strlit("request");
    reveal_strlit("response");
    reveal_strlit("downstreamError");
    reveal_strlit("downstreamErrors");
    reveal_strlit("error");
    reveal_strlit("contents");
    assert("error"@.len() == 5 && "downstreamError"@.len() == 15 && "downstreamErrors"@.len()
        == 16);
    assert("toolName"@.len() == 8 && "profile"@.len() == 7 && "request"@.len() == 7
        && "response"@.len() == 8);
    assert("contents"@.len() == 8 && "contents"@[0] == 'c' && "toolName"@[0] == 't'
        && "response"@[0] == 'r');
}

} // verus!
