use mcpg_plugin_backend_ftp::audit::{
    audit_action_for_outcome, audit_event_for, synthetic_system_identity, AuditOutcome,
};
use mcpg_plugin_backend_ftp::json::Json;

#[test]
fn actions_for_outcomes() {
    assert_eq!(
        audit_action_for_outcome("timeout"),
        Some("dev.mcpg.backend.ftp.request_timeout")
    );
    assert_eq!(
        audit_action_for_outcome("transport_error"),
        Some("dev.mcpg.backend.ftp.request_failed")
    );
    assert_eq!(
        audit_action_for_outcome("ftp_error"),
        Some("dev.mcpg.backend.ftp.operation_rejected")
    );
    assert_eq!(
        audit_action_for_outcome("invalid_spec"),
        Some("dev.mcpg.backend.ftp.request_failed")
    );
    assert_eq!(audit_action_for_outcome("ok"), None);
    assert_eq!(audit_action_for_outcome("profile_not_found"), None);
}

#[test]
fn event_of_a_failed_call() {
    let event = audit_event_for(
        "files",
        "ftp_error",
        Some("550"),
        None,
        "rq-1",
        1_234_567_890,
        "edge",
        "2024-01-01T00:00:00.000Z".to_owned(),
    )
    .unwrap();
    assert_eq!(event.event_id, "ftp-rq-1-1234567890");
    assert_eq!(event.occurred_at, "2024-01-01T00:00:00.000Z");
    assert_eq!(event.actor.kind, "system");
    assert_eq!(event.action, "dev.mcpg.backend.ftp.operation_rejected");
    assert_eq!(event.resource.as_deref(), Some("ftp-binding://files"));
    assert_eq!(event.outcome, AuditOutcome::Failure);
    assert_eq!(event.request_id.as_deref(), Some("rq-1"));
    assert_eq!(event.node_id, None);
    assert_eq!(event.prev_event_hash, None);
    assert_eq!(event.details.str_at("backend"), Some("files"));
    assert_eq!(event.details.get("duration_ms"), Some(&Json::unsigned(1234)));
    assert_eq!(event.details.str_at("outcome"), Some("ftp_error"));
    assert_eq!(event.details.str_at("alias"), Some("edge"));
    assert_eq!(event.details.str_at("reason"), Some("550"));
}

#[test]
fn event_keeps_the_callers_identity() {
    let mut who = synthetic_system_identity();
    who.kind = "user".to_owned();
    let event = audit_event_for(
        "b", "timeout", None, Some(who), "r", 0, "a", String::new(),
    )
    .unwrap();
    assert_eq!(event.actor.kind, "user");
    assert_eq!(event.details.get("reason"), None);
    assert!(audit_event_for("b", "ok", None, None, "r", 0, "a", String::new()).is_none());
}

#[test]
fn long_durations_wrap_in_milliseconds() {
    let event = audit_event_for(
        "b", "timeout", None, None, "r", u128::MAX, "a", String::new(),
    )
    .unwrap();
    assert_eq!(
        event.details.get("duration_ms"),
        Some(&Json::unsigned((u128::MAX / 1_000_000) as u64))
    );
    assert_eq!(event.event_id, format!("ftp-r-{}", u128::MAX));
}

#[test]
fn system_identity() {
    let who = synthetic_system_identity();
    assert_eq!(who.kind, "system");
    assert_eq!(who.trust_level, "verified");
    assert_eq!(who.subject_id.as_deref(), Some("dev.mcpg.backend.ftp"));
    assert!(who.auth_provider.is_none() && who.issuer.is_none());
    assert!(who.roles.is_empty() && who.groups.is_empty() && who.scopes.is_empty());
    assert!(who.attributes.is_empty());
}
