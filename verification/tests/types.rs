use mcpg_plugin_backend_ftp::types::{
    default_max_bytes, default_port, default_timeout_ms, default_tls, default_uri_template,
};
use mcpg_plugin_backend_ftp::FtpOp;

#[test]
fn op_defaults_to_list() {
    assert_eq!(FtpOp::default(), FtpOp::List);
}

#[test]
fn read_only_classification() {
    assert!(FtpOp::List.is_read_only());
    assert!(FtpOp::Get.is_read_only());
    assert!(!FtpOp::Put.is_read_only());
}

#[test]
fn op_names() {
    assert_eq!(FtpOp::List.as_str(), "list");
    assert_eq!(FtpOp::Get.as_str(), "get");
    assert_eq!(FtpOp::Put.as_str(), "put");
}

#[test]
fn defaults_of_a_binding() {
    assert_eq!(default_port(), 21);
    assert!(default_tls());
    assert_eq!(default_max_bytes(), 10 * 1024 * 1024);
    assert_eq!(default_timeout_ms(), 15_000);
    assert_eq!(default_uri_template(), "ftp://{path}");
}
