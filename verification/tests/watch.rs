use mcpg_plugin_backend_ftp::ftp::line_to_json;
use mcpg_plugin_backend_ftp::json::{Json, Number};
use mcpg_plugin_backend_ftp::manifest::PluginClass;
use mcpg_plugin_backend_ftp::watch::{
    default_interval_ms, default_port, default_timeout_ms, default_tls, fingerprint, no_runtime,
    polled, probed, unreadable_spec, FtpWatchCdylib, WatchError, WatchSpec, PLUGIN_ID, WATCH_KIND,
};

fn plugin() -> FtpWatchCdylib {
    FtpWatchCdylib::from_host_config("")
}

fn spec(host: &str, password: &str, path: &str) -> WatchSpec {
    WatchSpec {
        host: host.to_owned(),
        port: default_port(),
        user: "u".to_owned(),
        password: password.to_owned(),
        path: path.to_owned(),
        tls: default_tls(),
        interval_ms: default_interval_ms(),
        timeout_ms: default_timeout_ms(),
    }
}

fn entry(name: &str, size: Json) -> Json {
    Json::Object(vec![
        ("name".to_owned(), Json::text(name)),
        ("type".to_owned(), Json::text("file")),
        ("size".to_owned(), size),
    ])
}

fn file(name: &str, size: u64) -> Json {
    entry(name, Json::unsigned(size))
}

#[test]
fn manifest_and_kind_are_correct() {
    let p = plugin();
    let m = p.manifest();
    assert_eq!(m.id, PLUGIN_ID);
    assert_eq!(m.plugin_class, PluginClass::WatchStrategy);
    assert_eq!(p.kind(), WATCH_KIND);
}

#[test]
fn constants_and_defaults_of_a_watch() {
    assert_eq!(PLUGIN_ID, "dev.mcpg.backend.ftp");
    assert_eq!(WATCH_KIND, "ftp_dir_poll");
    assert_eq!(plugin().manifest().name, "FTP Directory Poll Watch Strategy");
    assert_eq!(default_port(), 21);
    assert!(default_tls());
    assert_eq!(default_interval_ms(), 60_000);
    assert_eq!(default_timeout_ms(), 10_000);
}

#[test]
fn traversal_path_is_invalid_spec() {
    let p = plugin();
    assert!(matches!(
        p.watch("ftp://inbox", spec("h", "p", "../etc")),
        Err(WatchError::InvalidSpec { .. })
    ));
}

#[test]
fn cred_password_is_invalid_spec() {
    let p = plugin();
    assert!(matches!(
        p.watch("ftp://inbox", spec("h", "cred://vault/ftp", "")),
        Err(WatchError::InvalidSpec { .. })
    ));
}

#[test]
fn empty_host_is_invalid_spec() {
    let p = plugin();
    assert!(matches!(
        p.watch("ftp://inbox", spec("  ", "p", "")),
        Err(WatchError::InvalidSpec { .. })
    ));
}

#[test]
fn watch_names_the_first_problem() {
    let problem = |s: WatchSpec| match plugin().watch("u", s) {
        Err(WatchError::InvalidSpec { message }) => message,
        _ => panic!("accepted"),
    };
    assert_eq!(problem(spec("", "", "..")), "host must not be empty");
    let mut no_user = spec("h", "", "..");
    no_user.user = "\t".to_owned();
    assert_eq!(problem(no_user), "user must not be empty");
    assert_eq!(problem(spec("h", "", "..")), "password must not be empty");
    assert_eq!(
        problem(spec("h", "cred://", "..")),
        "password must not be a cred:// URI — per-caller credentials are unsupported; \
         use ${env.X} / vault:// (resolved at config load)"
    );
    assert_eq!(
        problem(spec("h", " ", "a/..")),
        "path must not contain '..' segments"
    );
}

#[test]
fn accepted_watch_is_planned() {
    let mut s = spec("h", "p", "/inbox");
    s.port = 2121;
    s.tls = false;
    s.interval_ms = 30_000;
    s.timeout_ms = 5_000;
    let plan = plugin().watch("ftp://inbox", s).unwrap();
    assert_eq!(plan.resource_uri, "ftp://inbox");
    assert_eq!(plan.conn.host, "h");
    assert_eq!(plan.conn.port, 2121);
    assert_eq!(plan.conn.user, "u");
    assert_eq!(plan.conn.password, "p");
    assert!(!plan.conn.tls);
    assert_eq!(plan.dir, "/inbox");
    assert_eq!(plan.interval_ms, 30_000);
    assert_eq!(plan.timeout_ms, 5_000);
    let login = plugin().watch("u", spec("h", "p", "")).unwrap();
    assert_eq!(login.dir, ".");
    for path in ["/", "inbound", "/inbound", "a//b/", "..a"] {
        assert_eq!(plugin().watch("u", spec("h", "p", path)).unwrap().dir, path);
    }
}

#[test]
fn fingerprint_is_order_independent() {
    let a = vec![file("a.csv", 10), file("b.csv", 20)];
    let b = vec![file("b.csv", 20), file("a.csv", 10)];
    assert_eq!(fingerprint(&a), fingerprint(&b));
}

#[test]
fn fingerprint_changes_on_listing_change() {
    let base = vec![file("a.csv", 10)];
    // A new entry.
    let added = vec![file("a.csv", 10), file("c.csv", 5)];
    // Same name, different size.
    let resized = vec![file("a.csv", 11)];
    // A rename.
    let renamed = vec![file("z.csv", 10)];
    let fp = fingerprint(&base);
    assert_ne!(fp, fingerprint(&added));
    assert_ne!(fp, fingerprint(&resized));
    assert_ne!(fp, fingerprint(&renamed));
}

#[test]
fn fingerprint_is_sorted_names_and_sizes() {
    let entries = vec![
        file("b", 20),
        entry("a", Json::Null),
        file("B", 3),
        file("b", 10),
        entry("c", Json::Number(Number::Negative(-5))),
        entry("d", Json::Number(Number::Decimal("1.5".to_owned()))),
        Json::Null,
        file("ä", 1),
        file("z", 1),
    ];
    assert_eq!(fingerprint(&entries), "B|3\na|?\nb|10\nb|20\nc|-5\nd|1.5\nz|1\n|?\nä|1");
    assert_eq!(fingerprint(&[]), "");
}

#[test]
fn fingerprint_moves_with_decimal_sizes() {
    let decimal = |text: &str| entry("a", Json::Number(Number::Decimal(text.to_owned())));
    assert_ne!(fingerprint(&[decimal("1.5")]), fingerprint(&[decimal("1.25")]));
    assert_ne!(fingerprint(&[decimal("1.5")]), fingerprint(&[file("a", 1)]));
    assert_eq!(
        fingerprint(&[decimal("1.5"), file("b|1", 2)]),
        fingerprint(&[file("b|1", 2), decimal("1.5")])
    );
}

#[test]
fn fingerprint_keeps_still_on_overwrite_in_place() {
    let old = vec![line_to_json("-rw-r--r-- 1 o g 5 Nov 5 2019 a.csv")];
    let new = vec![line_to_json("-rw-r--r-- 1 o g 5 Nov 6 2019 a.csv")];
    assert_eq!(fingerprint(&old), fingerprint(&new));
    // A name with a newline can look like two entries.
    assert_eq!(
        fingerprint(&[file("a|1\nb", 2)]),
        fingerprint(&[file("a", 1), file("b", 2)])
    );
}

#[test]
fn poll_gives_the_fingerprint_or_the_reason() {
    assert_eq!(
        polled(Some(Ok(vec![file("a", 1)]))),
        Ok(Some("a|1".to_owned()))
    );
    assert_eq!(polled(Some(Err("x".to_owned()))), Err("x".to_owned()));
    assert_eq!(polled(None), Err("FTP connect/list timed out".to_owned()));
}

#[test]
fn probe_refuses_an_unreachable_directory() {
    let message = |r: Result<(), WatchError>| match r {
        Err(WatchError::Subscribe { message }) => message,
        _ => panic!("subscribed"),
    };
    assert!(probed(Some(Ok(vec![]))).is_ok());
    assert_eq!(
        message(probed(Some(Err("530".to_owned())))),
        "ftp_dir_poll: initial connect/list failed: 530"
    );
    assert_eq!(
        message(probed(None)),
        "ftp_dir_poll: initial connect/list failed: FTP connect/list timed out"
    );
    assert_eq!(
        message(Err(no_runtime("r"))),
        "ftp_dir_poll: tokio runtime init failed: r"
    );
    assert!(matches!(
        unreadable_spec("e"),
        WatchError::InvalidSpec { message } if message == "invalid ftp_dir_poll watch spec: e"
    ));
}
