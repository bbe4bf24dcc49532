//! What is wrong with a connection's settings.
use crate::text;
use vstd::prelude::*;

verus! {

/// What is wrong with a host, a user and a password, if anything: the first of
/// the checks that fails.
pub open spec fn credential_problem(
    host: Seq<char>,
    user: Seq<char>,
    password: Seq<char>,
) -> Option<Seq<char>> {
    if text::is_blank(host) {
        Some("host must not be empty"@)
    } else if text::is_blank(user) {
        Some("user must not be empty"@)
    } else if password.len() == 0 {
        Some("password must not be empty"@)
    } else if text::has_prefix(password, "cred://"@) {
        Some(
            "password must not be a cred:// URI — per-caller credentials are unsupported; use ${env.X} / vault:// (resolved at config load)"@,
        )
    } else {
        None
    }
}

/// What is wrong with a host, a user and a password, if anything.
pub(crate) fn find_credential_problem(host: &str, user: &str, password: &str) -> (res: Option<
    &'static str,
>)
    ensures
        match credential_problem(host@, user@, password@) {
            Some(problem) => res matches Some(message) && message@ == problem,
            None => res is None,
        },
{
    if text::blank(host) {
        Some("host must not be empty")
    } else if text::blank(user) {
        Some("user must not be empty")
    } else if password.is_empty() {
        Some("password must not be empty")
    } else if text::starts_with(password, "cred://") {
        Some(
            "password must not be a cred:// URI — per-caller credentials are unsupported; use ${env.X} / vault:// (resolved at config load)",
        )
    } else {
        None
    }
}

} // verus!
