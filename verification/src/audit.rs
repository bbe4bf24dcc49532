//! What the host is told of a call that failed.
use crate::json;
use crate::json::{Json, JsonModel, NumberModel};
use crate::manifest::PLUGIN_ID;
use crate::text;
use vstd::prelude::*;

verus! {

/// Who an audit event is about.
#[derive(Debug)]
pub struct PluginIdentity {
    pub kind: String,
    pub trust_level: String,
    pub subject_id: Option<String>,
    pub auth_provider: Option<String>,
    pub issuer: Option<String>,
    pub roles: Vec<String>,
    pub groups: Vec<String>,
    pub scopes: Vec<String>,
    pub attributes: Vec<(String, Json)>,
}

/// How an audited call ended.
#[derive(Debug, Clone, Copy, PartialEq, Eq, Structural)]
pub enum AuditOutcome {
    Failure,
}

/// One audit event.
#[derive(Debug)]
pub struct AuditEvent {
    pub event_id: String,
    pub occurred_at: String,
    pub actor: PluginIdentity,
    pub action: String,
    pub resource: Option<String>,
    pub outcome: AuditOutcome,
    pub request_id: Option<String>,
    pub node_id: Option<String>,
    pub details: Json,
    pub prev_event_hash: Option<String>,
}

/// The audit action for the outcome `label`: none where the outcome is not
/// audited.
pub open spec fn audit_action(label: Seq<char>) -> Option<Seq<char>> {
    if label == "timeout"@ {
        Some("dev.mcpg.backend.ftp.request_timeout"@)
    } else if label == "transport_error"@ {
        Some("dev.mcpg.backend.ftp.request_failed"@)
    } else if label == "ftp_error"@ {
        Some("dev.mcpg.backend.ftp.operation_rejected"@)
    } else if label == "invalid_spec"@ {
        Some("dev.mcpg.backend.ftp.request_failed"@)
    } else {
        None
    }
}

/// The audit action for the outcome `label`: none where the outcome is not
/// audited.
pub fn audit_action_for_outcome(label: &str) -> (res: Option<&'static str>)
    ensures
        match audit_action(label@) {
            Some(action) => res matches Some(a) && a@ == action,
            None => res is None,
        },
{
    if text::same(label, "timeout") {
        Some("dev.mcpg.backend.ftp.request_timeout")
    } else if text::same(label, "transport_error") {
        Some("dev.mcpg.backend.ftp.request_failed")
    } else if text::same(label, "ftp_error") {
        Some("dev.mcpg.backend.ftp.operation_rejected")
    } else if text::same(label, "invalid_spec") {
        Some("dev.mcpg.backend.ftp.request_failed")
    } else {
        None
    }
}

/// The plugin itself, as the one an event is about.
pub open spec fn is_system_identity(identity: PluginIdentity) -> bool {
    &&& identity.kind@ == "system"@
    &&& identity.trust_level@ == "verified"@
    &&& identity.subject_id matches Some(id) && id@ == PLUGIN_ID@
    &&& identity.auth_provider is None
    &&& identity.issuer is None
    &&& identity.roles@.len() == 0
    &&& identity.groups@.len() == 0
    &&& identity.scopes@.len() == 0
    &&& identity.attributes@.len() == 0
}

/// The identity for calls that come without one.
pub fn synthetic_system_identity() -> (res: PluginIdentity)
    ensures
        is_system_identity(res),
{
    PluginIdentity {
        kind: "system".to_owned(),
        trust_level: "verified".to_owned(),
        subject_id: Some(PLUGIN_ID.to_owned()),
        auth_provider: None,
        issuer: None,
        roles: Vec::new(),
        groups: Vec::new(),
        scopes: Vec::new(),
        attributes: Vec::new(),
    }
}

/// Whole milliseconds of a duration, as far as 64 bits hold them.
pub open spec fn whole_millis(nanos: u128) -> u64 {
    ((nanos / 1_000_000) % 0x1_0000_0000_0000_0000) as u64
}

/// The details of an audit event.
pub open spec fn details_model(
    backend_name: Seq<char>,
    label: Seq<char>,
    reason: Option<Seq<char>>,
    alias: Seq<char>,
    nanos: u128,
) -> JsonModel {
    let base = map![
        "backend"@ => JsonModel::Str(backend_name),
        "duration_ms"@ => JsonModel::Number(NumberModel::Unsigned(whole_millis(nanos))),
        "outcome"@ => JsonModel::Str(label),
        "alias"@ => JsonModel::Str(alias),
    ];
    JsonModel::Object(
        match reason {
            Some(r) => base.insert("reason"@, JsonModel::Str(r)),
            None => base,
        },
    )
}

fn build_details(
    backend_name: &str,
    label: &str,
    reason: Option<&str>,
    alias: &str,
    nanos: u128,
) -> (res: Json)
    ensures
        res.model() == details_model(
            backend_name@,
            label@,
            match reason {
                Some(r) => Some(r@),
                None => None,
            },
            alias@,
            nanos,
        ),
{
    let millis: u128 = nanos / 1_000_000;
    assert(millis % 0x1_0000_0000_0000_0000u128 == #[verifier::truncate] (millis as u64)) by (bit_vector);
    let mut fields: Vec<(String, Json)> = Vec::new();
    json::put(&mut fields, "backend", Json::text(backend_name));
    json::put(&mut fields, "duration_ms", Json::unsigned(#[verifier::truncate] (millis as u64)));
    json::put(&mut fields, "outcome", Json::text(label));
    json::put(&mut fields, "alias", Json::text(alias));
    if let Some(r) = reason {
        json::put(&mut fields, "reason", Json::text(r));
    }
    Json::Object(fields)
}

/// The audit event of a call to `backend_name`, where its outcome is audited. The
/// duration is given in nanoseconds, and `occurred_at` is the current time.
pub fn audit_event_for(
    backend_name: &str,
    label: &str,
    reason: Option<&str>,
    identity: Option<PluginIdentity>,
    request_id: &str,
    nanos: u128,
    alias: &str,
    occurred_at: String,
) -> (res: Option<AuditEvent>)
    ensures
        match audit_action(label@) {
            Some(action) => res matches Some(event) && {
                &&& event.event_id@ == "ftp-"@ + request_id@ + "-"@ + text::decimal(nanos as nat)
                &&& event.occurred_at == occurred_at
                &&& match identity {
                    Some(who) => event.actor == who,
                    None => is_system_identity(event.actor),
                }
                &&& event.action@ == action
                &&& event.resource matches Some(r) && r@ == "ftp-binding://"@ + backend_name@
                &&& event.outcome == AuditOutcome::Failure
                &&& event.request_id matches Some(id) && id@ == request_id@
                &&& event.node_id is None
                &&& event.details.model() == details_model(
                    backend_name@,
                    label@,
                    match reason {
                        Some(r) => Some(r@),
                        None => None,
                    },
                    alias@,
                    nanos,
                )
                &&& event.prev_event_hash is None
            },
            None => res is None,
        },
{
    let action = match audit_action_for_outcome(label) {
        Some(action) => action,
        None => {
            return None;
        },
    };
    let actor = match identity {
        Some(who) => who,
        None => synthetic_system_identity(),
    };
    let mut event_id = text::joined("ftp-", request_id);
    event_id.append("-");
    event_id.append(text::decimal_text(nanos).as_str());
    Some(
        AuditEvent {
            event_id,
            occurred_at,
            actor,
            action: action.to_owned(),
            resource: Some(text::joined("ftp-binding://", backend_name)),
            outcome: AuditOutcome::Failure,
            request_id: Some(request_id.to_owned()),
            node_id: None,
            details: build_details(backend_name, label, reason, alias, nanos),
            prev_event_hash: None,
        },
    )
}

} // verus!
