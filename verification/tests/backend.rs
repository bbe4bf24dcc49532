use mcpg_plugin_backend_ftp::arguments::{parse_arguments, CallArguments};
use mcpg_plugin_backend_ftp::audit::audit_action_for_outcome;
use mcpg_plugin_backend_ftp::backend::{
    completion_values, finalize_payload, resource_page, unreadable_spec, BackendError, ListingStep,
};
use mcpg_plugin_backend_ftp::call::{
    chosen_content, extract_put_content, finish_call, tool_name, within_timeout, CallFailure,
    CallPlan,
};
use mcpg_plugin_backend_ftp::envelope::FtpOutcome;
use mcpg_plugin_backend_ftp::ftp::decode_content;
use mcpg_plugin_backend_ftp::json::Json;
use mcpg_plugin_backend_ftp::manifest::PluginClass;
use mcpg_plugin_backend_ftp::session::FileOp;
use mcpg_plugin_backend_ftp::surface::Surface;
use mcpg_plugin_backend_ftp::types::{
    default_max_bytes, default_port, default_timeout_ms, default_tls, default_uri_template,
};
use mcpg_plugin_backend_ftp::{FtpBackendPlugin, FtpBackendSpec, FtpOp};

fn minimal_spec() -> FtpBackendSpec {
    FtpBackendSpec {
        op: FtpOp::List,
        host: "ftp.example.com".to_owned(),
        port: default_port(),
        user: "svc".to_owned(),
        password: "${env.FTP_PW}".to_owned(),
        path: String::new(),
        tls: default_tls(),
        max_bytes: default_max_bytes(),
        timeout_ms: default_timeout_ms(),
        surface: Surface::default(),
        uri: default_uri_template(),
    }
}

fn plugin_with(name: &str, spec: FtpBackendSpec) -> FtpBackendPlugin {
    let mut plugin = FtpBackendPlugin::new();
    plugin.register_profile(name, spec).expect("register");
    plugin
}

fn plan(spec: FtpBackendSpec, payload: &str) -> CallPlan {
    plugin_with("b", spec)
        .execute("b", &vec![], payload.as_bytes())
        .expect("plan")
}

fn spec(op: FtpOp, surface: Surface, path: &str) -> FtpBackendSpec {
    let mut spec = minimal_spec();
    spec.op = op;
    spec.surface = surface;
    spec.path = path.to_owned();
    spec
}

#[test]
fn kind_is_ftp() {
    assert_eq!(FtpBackendPlugin::new().kind(), "ftp");
}

#[test]
fn manifest_of_the_backend() {
    let plugin = FtpBackendPlugin::default();
    assert_eq!(plugin.manifest().id, "dev.mcpg.backend.ftp");
    assert_eq!(plugin.manifest().name, "FTP Binding");
    assert_eq!(plugin.manifest().plugin_class, PluginClass::Backend);
    assert_eq!(
        plugin.audit_metadata("b").str_at("ftp.transport"),
        Some("plugin")
    );
}

#[test]
fn register_accepts_minimal_spec() {
    let plugin = plugin_with("files", minimal_spec());
    let p = plugin.profile("files").unwrap();
    assert_eq!(p.op, FtpOp::List);
    // tls defaults to true → FTPS required.
    assert!(p.conn.tls);
}

#[test]
fn register_accepts_plaintext_opt_out() {
    let mut spec = minimal_spec();
    spec.tls = false;
    let plugin = plugin_with("plain", spec);
    assert!(!plugin.profile("plain").unwrap().conn.tls);
}

#[test]
fn register_rejects_cred_password() {
    let mut plugin = FtpBackendPlugin::new();
    let mut spec = minimal_spec();
    spec.password = "cred://vault/ftp".to_owned();
    let err = plugin.register_profile("x", spec).expect_err("cred password");
    assert!(matches!(err, BackendError::InvalidSpec { .. }));
}

#[test]
fn register_defaults_to_tool_surface() {
    let plugin = plugin_with("files", minimal_spec());
    let p = plugin.profile("files").unwrap();
    assert_eq!(p.surface, Surface::Tool);
    assert_eq!(p.uri_template, "ftp://{path}");
}

#[test]
fn register_parses_resource_surface() {
    let mut spec = minimal_spec();
    spec.op = FtpOp::Get;
    spec.surface = Surface::Resource;
    spec.uri = "file://partner/{path}".to_owned();
    let plugin = plugin_with("res", spec);
    let p = plugin.profile("res").unwrap();
    assert_eq!(p.surface, Surface::Resource);
    assert_eq!(p.uri_template, "file://partner/{path}");
}

#[test]
fn register_names_the_first_problem() {
    let mut plugin = plugin_with("kept", minimal_spec());
    let mut problem = |change: fn(&mut FtpBackendSpec)| {
        let mut spec = minimal_spec();
        change(&mut spec);
        match plugin.register_profile("kept", spec) {
            Err(BackendError::InvalidSpec { message }) => message,
            _ => panic!("accepted"),
        }
    };
    assert_eq!(problem(|s| s.host = " \n".to_owned()), "host must not be empty");
    assert_eq!(problem(|s| s.user = String::new()), "user must not be empty");
    assert_eq!(problem(|s| s.password = String::new()), "password must not be empty");
    assert!(problem(|s| s.password = "cred://a".to_owned()).starts_with("password must not be a cred:// URI"));
    assert_eq!(problem(|s| s.timeout_ms = 0), "timeout_ms must be greater than 0");
    assert_eq!(problem(|s| s.max_bytes = 0), "max_bytes must be greater than 0");
    assert_eq!(
        problem(|s| {
            s.max_bytes = 0;
            s.timeout_ms = 0;
        }),
        "timeout_ms must be greater than 0"
    );
    // What was refused changed nothing.
    assert_eq!(plugin.profile("kept").unwrap().conn.host, "ftp.example.com");
}

#[test]
fn later_registration_replaces_the_earlier() {
    let mut plugin = plugin_with("a", minimal_spec());
    for (name, port) in [("b", 1), ("a", 2), ("c", 3), ("b", 4)] {
        let mut spec = minimal_spec();
        spec.port = port;
        plugin.register_profile(name, spec).expect("register");
    }
    assert_eq!(plugin.profile("a").unwrap().conn.port, 2);
    assert_eq!(plugin.profile("b").unwrap().conn.port, 4);
    assert_eq!(plugin.profile("c").unwrap().conn.port, 3);
}

#[test]
fn list_resources_empty_on_tool_surface() {
    let plugin = plugin_with("files", minimal_spec());
    let step = plugin.list_resources("files", None).expect("list");
    match step {
        ListingStep::Answer(page) => {
            assert!(page.resources.is_empty());
            assert!(page.next_cursor.is_none());
        }
        ListingStep::List(_) => panic!("nothing to list"),
    }
}

#[test]
fn complete_empty_on_tool_surface() {
    let plugin = plugin_with("files", minimal_spec());
    let got = plugin
        .complete_template_variable("files", "path")
        .expect("complete");
    assert!(matches!(got, ListingStep::Answer(values) if values.is_empty()));
}

#[test]
fn execute_unknown_profile_is_profile_not_found() {
    let plugin = FtpBackendPlugin::new();
    let err = plugin.execute("missing", &vec![], &[]).err().expect("missing");
    assert!(matches!(err, BackendError::ProfileNotFound { .. }));
    assert!(matches!(
        plugin.list_resources("missing", None),
        Err(BackendError::ProfileNotFound { backend_name }) if backend_name == "missing"
    ));
    assert!(matches!(
        plugin.complete_template_variable("missing", "path"),
        Err(BackendError::ProfileNotFound { backend_name }) if backend_name == "missing"
    ));
}

#[test]
fn resource_surface_lists_its_base() {
    let plugin = plugin_with("res", spec(FtpOp::Get, Surface::Resource, "/outbound/"));
    let listing = match plugin.list_resources("res", Some("c")).unwrap() {
        ListingStep::List(listing) => listing,
        ListingStep::Answer(_) => panic!("has to list"),
    };
    assert_eq!(listing.path, "/outbound");
    assert_eq!(listing.profile.timeout_ms, 15_000);
    let entries = || {
        vec![mcpg_plugin_backend_ftp::ftp::line_to_json(
            "-rw-r--r-- 1 o g 5 Nov 5 2019 a.csv",
        )]
    };
    let page = resource_page(&listing, Some(Ok(entries()))).unwrap();
    assert_eq!(page.resources[0].uri, "ftp://outbound/a.csv");
    assert_eq!(page.resources[0].description.as_deref(), Some("5 bytes"));
    assert!(matches!(
        resource_page(&listing, None),
        Err(BackendError::Transport { message }) if message == "FTP list timed out"
    ));
    assert!(matches!(
        resource_page(&listing, Some(Err("e".to_owned()))),
        Err(BackendError::Transport { message }) if message == "e"
    ));
    assert!(matches!(
        plugin.complete_template_variable("res", "path").unwrap(),
        ListingStep::List(listing) if listing.path == "/outbound"
    ));
    assert_eq!(
        completion_values("a", Some(Ok(entries()))).unwrap(),
        vec!["a.csv".to_owned()]
    );
    assert!(matches!(
        completion_values("a", None),
        Err(BackendError::Transport { message }) if message == "FTP list timed out"
    ));
    assert!(matches!(
        completion_values("a", Some(Err("e".to_owned()))),
        Err(BackendError::Transport { message }) if message == "e"
    ));
}

#[test]
fn completion_stops_at_a_hundred() {
    let entries = (0..150)
        .map(|i| Json::Object(vec![("name".to_owned(), Json::text(&format!("f{i}")))]))
        .collect();
    let values = completion_values("f", Some(Ok(entries))).unwrap();
    assert_eq!(values.len(), 100);
    assert_eq!(values[99], "f99");
}

#[test]
fn listing_refuses_a_base_that_climbs() {
    let plugin = plugin_with("res", spec(FtpOp::Get, Surface::Resource, "/a/../b"));
    assert!(matches!(
        plugin.list_resources("res", None),
        Err(BackendError::InvalidSpec { message }) if message == "path must not contain '..' segments"
    ));
    assert!(matches!(
        plugin.complete_template_variable("res", "path"),
        Err(BackendError::InvalidSpec { message }) if message == "path must not contain '..' segments"
    ));
}

#[test]
fn tool_calls_run_the_configured_operation() {
    let list = plan(spec(FtpOp::List, Surface::Tool, "/d"), "");
    assert_eq!(list.path_arg, "");
    assert!(matches!(list.work, Ok(FileOp::List { path }) if path == "/d"));
    let get = plan(spec(FtpOp::Get, Surface::Tool, "/d"), r#"{"path":"/a"}"#);
    assert_eq!(get.path_arg, "/a");
    assert!(matches!(
        get.work,
        Ok(FileOp::Get { path, max_bytes: 10_485_760 }) if path == "/d/a"
    ));
    let put = plan(
        spec(FtpOp::Put, Surface::Tool, "/d"),
        r#"{"path":"a","content":"//4=","text":"ignored"}"#,
    );
    assert!(matches!(
        put.work,
        Ok(FileOp::Put { path, content }) if path == "/d/a" && content == vec![0xff, 0xfe]
    ));
}

#[test]
fn resource_calls_read_whatever_the_operation() {
    for op in [FtpOp::List, FtpOp::Get, FtpOp::Put] {
        let read = plan(
            spec(op, Surface::Resource, ""),
            r#"{"uri":"ftp://outbound/report.csv","text":"t"}"#,
        );
        assert_eq!(read.path_arg, "outbound/report.csv");
        assert!(matches!(
            read.work,
            Ok(FileOp::Get { path, max_bytes: 10_485_760 }) if path == "outbound/report.csv"
        ));
    }
}

#[test]
fn refused_calls_name_the_reason() {
    let reason = |s: FtpBackendSpec, payload: &str| plan(s, payload).work.unwrap_err();
    assert_eq!(
        reason(spec(FtpOp::Put, Surface::Resource, ""), "{}"),
        "resource surface requires a resolvable `uri` (or `path`) to read"
    );
    assert_eq!(
        reason(spec(FtpOp::Get, Surface::Tool, ""), r#"{"path":" "}"#),
        "op 'get' requires a 'path' argument"
    );
    assert_eq!(
        reason(spec(FtpOp::Put, Surface::Tool, ""), "[]"),
        "op 'put' requires a 'path' argument"
    );
    for (op, surface) in [
        (FtpOp::List, Surface::Tool),
        (FtpOp::Get, Surface::Tool),
        (FtpOp::Put, Surface::Tool),
        (FtpOp::List, Surface::Resource),
    ] {
        assert_eq!(
            reason(spec(op, surface, "/d"), r#"{"path":"a/../../b"}"#),
            "path must not contain '..' segments"
        );
    }
    assert_eq!(
        reason(spec(FtpOp::Put, Surface::Tool, ""), r#"{"path":"a"}"#),
        "put requires a 'content' (base64) or 'text' argument"
    );
    assert!(
        reason(spec(FtpOp::Put, Surface::Tool, ""), r#"{"path":"a","content":"*"}"#)
            .starts_with("'content' is not valid base64: ")
    );
    let mut small = spec(FtpOp::Put, Surface::Tool, "");
    small.max_bytes = 3;
    assert_eq!(
        reason(small, r#"{"path":"a","text":"grü"}"#),
        "content exceeds max_bytes (3)"
    );
}

#[test]
fn put_takes_content_up_to_the_cap() {
    let mut small = spec(FtpOp::Put, Surface::Tool, "");
    small.max_bytes = 3;
    assert!(matches!(
        plan(small, r#"{"path":"a","text":"abc"}"#).work,
        Ok(FileOp::Put { content, .. }) if content == b"abc"
    ));
}

#[test]
fn listed_resource_is_read_by_its_uri() {
    for base in ["", "/", ".", "./", "/outbound", "/a/b/", "outbound", "/.", " "] {
        let plugin = plugin_with("res", spec(FtpOp::Get, Surface::Resource, base));
        let listing = match plugin.list_resources("res", None).unwrap() {
            ListingStep::List(listing) => listing,
            ListingStep::Answer(_) => panic!("has to list"),
        };
        let line = "-rw-r--r-- 1 o g 5 Nov 5 2019 a.csv".to_owned();
        let entries = mcpg_plugin_backend_ftp::ftp::lines_to_json(&vec![line]);
        let page = resource_page(&listing, Some(Ok(entries))).unwrap();
        let uri = page.resources[0].uri.clone();
        let payload = format!("{{\"uri\":\"{uri}\"}}");
        let plan = plugin.execute("res", &vec![], payload.as_bytes()).unwrap();
        let direct = mcpg_plugin_backend_ftp::ftp::resolve_path(base, "a.csv").unwrap();
        assert!(matches!(&plan.work, Ok(FileOp::Get { path, .. }) if *path == direct));
        let report = finish_call(&plan, Ok(FtpOutcome::fetched(b"x")), 1);
        assert!(matches!(
            report.envelope.get("contents"),
            Some(Json::Array(items)) if items[0].str_at("uri") == Some(&uri)
        ));
    }
}

#[test]
fn read_of_a_listed_uri_spells_the_base_once() {
    let read = plan(
        spec(FtpOp::Get, Surface::Resource, "/outbound"),
        r#"{"uri":"ftp://outbound/report.csv"}"#,
    );
    assert_eq!(read.path_arg, "outbound/report.csv");
    assert!(matches!(
        read.work,
        Ok(FileOp::Get { path, .. }) if path == "/outbound/report.csv"
    ));
    // A directory of the same name below the base is spelled out again.
    for (uri, target) in [
        ("ftp://outbound/outbound/report.csv", "/outbound/outbound/report.csv"),
        ("ftp://report.csv", "/outbound/report.csv"),
        ("ftp://outbound.csv", "/outbound/outbound.csv"),
        ("ftp:///outbound/a", "/outbound/a"),
    ] {
        let read = plan(
            spec(FtpOp::Get, Surface::Resource, "/outbound"),
            &format!("{{\"uri\":\"{uri}\"}}"),
        );
        assert!(matches!(read.work, Ok(FileOp::Get { path, .. }) if path == target));
    }
    // A literal `path` is joined as it is given, on either surface.
    for payload in [
        r#"{"path":"outbound/report.csv"}"#,
        r#"{"uri":"https://elsewhere","path":"outbound/report.csv"}"#,
        r#"{"uri":"ftp:// ","path":"outbound/report.csv"}"#,
    ] {
        let read = plan(spec(FtpOp::Get, Surface::Resource, "/outbound"), payload);
        assert_eq!(read.path_arg, "outbound/report.csv");
        assert!(matches!(
            read.work,
            Ok(FileOp::Get { path, .. }) if path == "/outbound/outbound/report.csv"
        ));
    }
    let get = plan(
        spec(FtpOp::Get, Surface::Tool, "/outbound"),
        r#"{"path":"outbound/report.csv"}"#,
    );
    assert!(matches!(
        get.work,
        Ok(FileOp::Get { path, .. }) if path == "/outbound/outbound/report.csv"
    ));
}

#[test]
fn listed_then_read_gives_the_file() {
    let plugin = plugin_with("res", spec(FtpOp::List, Surface::Resource, "/outbound"));
    let read = plugin
        .execute("res", &vec![], br#"{"uri":"ftp://outbound/report.csv"}"#)
        .unwrap();
    assert!(matches!(
        &read.work,
        Ok(FileOp::Get { path, .. }) if path == "/outbound/report.csv"
    ));
    let report = finish_call(&read, Ok(FtpOutcome::fetched(b"a,b\n1,2\n")), 3);
    let item = match report.envelope.get("contents") {
        Some(Json::Array(items)) => items[0].clone(),
        _ => panic!("contents array"),
    };
    assert_eq!(item.str_at("uri"), Some("ftp://outbound/report.csv"));
    assert_eq!(item.str_at("mimeType"), Some("text/csv"));
    assert_eq!(item.str_at("text"), Some("a,b\n1,2\n"));
}

#[test]
fn read_refuses_a_base_that_climbs() {
    for base in ["../secret", "/a/../b", ".."] {
        let read = plan(
            spec(FtpOp::Get, Surface::Resource, base),
            r#"{"uri":"ftp://x"}"#,
        );
        assert_eq!(read.work.unwrap_err(), "path must not contain '..' segments");
        let read = plan(
            spec(FtpOp::Get, Surface::Resource, base),
            r#"{"path":"x"}"#,
        );
        assert_eq!(read.work.unwrap_err(), "path must not contain '..' segments");
        // The base is the operator's on the tool surface.
        let get = plan(spec(FtpOp::Get, Surface::Tool, base), r#"{"path":"x"}"#);
        assert!(matches!(
            get.work,
            Ok(FileOp::Get { path, .. }) if path == format!("{base}/x")
        ));
    }
}

#[test]
fn unclassified_failure_is_not_null() {
    for surface in [Surface::Tool, Surface::Resource] {
        let call = plan(spec(FtpOp::Get, surface, ""), r#"{"path":"a"}"#);
        let report = finish_call(
            &call,
            Err(CallFailure {
                message: "m".to_owned(),
                downstream: Json::Null,
            }),
            1,
        );
        assert_eq!(report.outcome_label, "ftp_error");
        let downstream = report.envelope.get("downstreamError").unwrap();
        assert_eq!(downstream.str_at("kind"), Some("ftp_error"));
        assert_eq!(
            report.envelope.get("downstreamErrors"),
            Some(&Json::Array(vec![downstream.clone()]))
        );
        assert_eq!(report.envelope.str_at("error"), Some("m"));
    }
}

#[test]
fn binding_is_found_exactly_if_registered() {
    let mut plugin = FtpBackendPlugin::new();
    let mut refused = minimal_spec();
    refused.max_bytes = 0;
    assert!(plugin.register_profile("a", refused.clone()).is_err());
    assert!(plugin.execute("a", &vec![], &[]).is_err());
    plugin.register_profile("a", minimal_spec()).expect("register");
    assert!(plugin.register_profile("a", refused).is_err());
    assert!(plugin.execute("a", &vec![], &[]).is_ok());
    assert!(plugin.execute("b", &vec![], &[]).is_err());
}

#[test]
fn tool_name_comes_from_the_header() {
    let header = |k: &str, v: &str| (k.to_owned(), v.to_owned());
    assert_eq!(tool_name(&vec![], "b"), "b");
    assert_eq!(
        tool_name(
            &vec![
                header("x", "1"),
                header("MCPG-Tool-Name", "first"),
                header("mcpg-tool-name", "second"),
            ],
            "b"
        ),
        "first"
    );
    assert_eq!(tool_name(&vec![header("mcpg-tool-names", "1")], "b"), "b");
}

#[test]
fn put_content_prefers_base64() {
    assert_eq!(
        extract_put_content(&parse_arguments(br#"{"content":"aGk=","text":"t"}"#)).unwrap(),
        b"hi"
    );
    assert_eq!(
        extract_put_content(&parse_arguments(r#"{"text":"ü"}"#.as_bytes())).unwrap(),
        "ü".as_bytes()
    );
    assert_eq!(chosen_content(Some(Ok(vec![1])), Some("t")).unwrap(), vec![1]);
    assert_eq!(
        chosen_content(Some(Err("e".to_owned())), Some("t")).unwrap_err(),
        "'content' is not valid base64: e"
    );
    assert!(chosen_content(None, None).is_err());
}

#[test]
fn reported_content_can_be_put_back() {
    for data in [&b"plain"[..], &[0xff, 0x00, 0xfe][..], &b""[..]] {
        let content = decode_content(data);
        let args = CallArguments {
            path: None,
            uri: None,
            content: content.str_at("base64").map(str::to_owned),
            text: content.str_at("text").map(str::to_owned),
        };
        assert_eq!(extract_put_content(&args).unwrap(), data);
    }
}

#[test]
fn answer_of_a_listing() {
    let mut call = plan(spec(FtpOp::List, Surface::Tool, "/d"), "{}");
    call.tool_name = "dropbox.list".to_owned();
    let entry = mcpg_plugin_backend_ftp::ftp::line_to_json(
        "-rw-r--r-- 1 o g 4096 Nov 5 2019 report.csv",
    );
    let report = finish_call(&call, Ok(FtpOutcome::listed(vec![entry.clone()])), 80);
    assert_eq!(report.outcome_label, "ok");
    assert_eq!(report.audit_reason, None);
    let envelope = report.envelope;
    assert_eq!(envelope.str_at("toolName"), Some("dropbox.list"));
    assert_eq!(envelope.str_at("profile"), Some("b"));
    let request = envelope.get("request").unwrap();
    assert_eq!(request.str_at("op"), Some("list"));
    assert_eq!(request.str_at("host"), Some("ftp.example.com"));
    assert_eq!(request.str_at("path"), Some(""));
    let response = envelope.get("response").unwrap();
    assert_eq!(response.get("entries"), Some(&Json::Array(vec![entry])));
    assert_eq!(response.get("count"), Some(&Json::unsigned(1)));
    assert_eq!(response.get("content"), Some(&Json::Null));
    assert_eq!(response.get("size"), Some(&Json::Null));
    assert_eq!(response.get("written"), Some(&Json::Null));
    assert_eq!(response.get("durationMs"), Some(&Json::unsigned(80)));
    assert_eq!(envelope.get("downstreamError"), Some(&Json::Null));
    assert_eq!(envelope.get("downstreamErrors"), Some(&Json::Array(vec![])));
    assert_eq!(envelope.get("error"), Some(&Json::Null));
}

#[test]
fn answers_of_a_read_and_a_write() {
    let get = plan(spec(FtpOp::Get, Surface::Tool, ""), r#"{"path":"a"}"#);
    let report = finish_call(&get, Ok(FtpOutcome::fetched(&[0xff])), 1);
    let response = report.envelope.get("response").unwrap();
    assert_eq!(response.get("content").unwrap().str_at("base64"), Some("/w=="));
    assert_eq!(response.get("size"), Some(&Json::unsigned(1)));
    assert_eq!(response.get("count"), Some(&Json::Null));
    let put = plan(spec(FtpOp::Put, Surface::Tool, ""), r#"{"path":"a","text":"t"}"#);
    let report = finish_call(&put, Ok(FtpOutcome::stored(1)), 1);
    let response = report.envelope.get("response").unwrap();
    assert_eq!(response.get("written"), Some(&Json::unsigned(1)));
    assert_eq!(response.get("entries"), Some(&Json::Null));
}

#[test]
fn answer_of_a_resource_read() {
    let read = plan(
        spec(FtpOp::Get, Surface::Resource, ""),
        r#"{"uri":"ftp://outbound/report.csv"}"#,
    );
    let report = finish_call(&read, Ok(FtpOutcome::fetched(b"a,b\n1,2\n")), 5);
    let item = match report.envelope.get("contents") {
        Some(Json::Array(items)) => items[0].clone(),
        _ => panic!("contents array"),
    };
    assert_eq!(item.str_at("uri"), Some("ftp://outbound/report.csv"));
    assert_eq!(item.str_at("mimeType"), Some("text/csv"));
    assert_eq!(item.str_at("text"), Some("a,b\n1,2\n"));
    assert!(report.envelope.get("response").is_none());
}

fn failure(message: &str, kind: &str) -> CallFailure {
    CallFailure {
        message: message.to_owned(),
        downstream: Json::Object(vec![("kind".to_owned(), Json::text(kind))]),
    }
}

#[test]
fn failures_are_labelled_and_answered() {
    for surface in [Surface::Tool, Surface::Resource] {
        let call = plan(spec(FtpOp::Get, surface, ""), r#"{"path":"a"}"#);
        for (message, kind, label) in [
            ("FTP operation timed out", "ftp_error", "timeout"),
            ("Connection TIMEOUT", "transport_error", "timeout"),
            ("FTP connect failed: x", "transport_error", "transport_error"),
            ("FTP retr 'a' failed: 550", "ftp_error", "ftp_error"),
            ("time out", "other", "ftp_error"),
        ] {
            let report = finish_call(&call, Err(failure(message, kind)), 2);
            assert_eq!(report.outcome_label, label);
            assert!(audit_action_for_outcome(label).is_some());
            assert_eq!(report.audit_reason.as_deref(), Some(message));
            let envelope = &report.envelope;
            assert_eq!(envelope.str_at("error"), Some(message));
            let downstream = failure(message, kind).downstream;
            assert_eq!(envelope.get("downstreamError"), Some(&downstream));
            assert_eq!(
                envelope.get("downstreamErrors"),
                Some(&Json::Array(vec![downstream]))
            );
            let response = envelope.get("response").unwrap();
            assert_eq!(response.get("content"), Some(&Json::Null));
            assert_eq!(response.get("durationMs"), Some(&Json::unsigned(2)));
            assert!(envelope.get("contents").is_none());
        }
    }
}

#[test]
fn timeout_has_its_message() {
    assert_eq!(within_timeout(None).unwrap_err(), "FTP operation timed out");
    assert_eq!(
        within_timeout(Some(Err("e".to_owned()))).unwrap_err(),
        "e"
    );
    assert_eq!(
        within_timeout(Some(Ok(FtpOutcome::stored(4)))).unwrap().written,
        Some(4)
    );
}

#[test]
fn payload_is_final() {
    let response = finalize_payload(Ok(vec![1, 2])).unwrap();
    assert_eq!(response.payload, vec![1, 2]);
    assert!(!response.truncated);
    assert!(matches!(
        finalize_payload(Err("e".to_owned())),
        Err(BackendError::Transport { message })
            if message == "FTP plugin envelope serialization failed: e"
    ));
    assert!(matches!(
        unreadable_spec("e"),
        BackendError::InvalidSpec { message } if message == "FTP binding spec: e"
    ));
}
