use mcpg_plugin_backend_ftp::arguments::{parse_arguments, CallArguments};
use mcpg_plugin_backend_ftp::ftp::{decode_content, line_to_json};
use mcpg_plugin_backend_ftp::json::{Json, Number};
use mcpg_plugin_backend_ftp::surface::{
    entries_to_completion_values, entries_to_resource_page, fill_uri_template, join_dir,
    mime_type_for, path_from_uri, resolve_read_path, resource_contents_body, Surface,
};

fn object(fields: Vec<(&str, Json)>) -> Json {
    Json::Object(fields.into_iter().map(|(k, v)| (k.to_owned(), v)).collect())
}

fn entry(name: &str, kind: &str, size: Json) -> Json {
    object(vec![
        ("name", Json::text(name)),
        ("type", Json::text(kind)),
        ("size", size),
    ])
}

fn arguments(payload: &str) -> CallArguments {
    parse_arguments(payload.as_bytes())
}

#[test]
fn surface_default_is_tool() {
    assert_eq!(Surface::default(), Surface::Tool);
}

#[test]
fn surface_labels() {
    assert_eq!(Surface::Tool.as_str(), "tool");
    assert_eq!(Surface::Resource.as_str(), "resource");
}

#[test]
fn uri_template_fills_and_trims_leading_slash() {
    assert_eq!(
        fill_uri_template("ftp://{path}", "/inbox/a.csv"),
        "ftp://inbox/a.csv"
    );
    assert_eq!(fill_uri_template("ftp://{path}", "a.csv"), "ftp://a.csv");
    assert_eq!(
        fill_uri_template("file://partner/{path}", "/reports/q1.json"),
        "file://partner/reports/q1.json"
    );
}

#[test]
fn uri_template_fills_every_placeholder() {
    assert_eq!(fill_uri_template("{path}/{path}", "//a"), "a/a");
    assert_eq!(fill_uri_template("x{path}{path}y", "b"), "xbby");
    assert_eq!(fill_uri_template("{{path}}", "b"), "{b}");
}

#[test]
fn template_without_placeholder_is_kept() {
    assert_eq!(fill_uri_template("ftp://static", "/a"), "ftp://static");
    assert_eq!(fill_uri_template("", "/a"), "");
    assert_eq!(path_from_uri("ftp://static", "ftp://static/a"), None);
}

#[test]
fn path_recovered_from_uri() {
    assert_eq!(
        path_from_uri("ftp://{path}", "ftp://inbox/a.csv").as_deref(),
        Some("inbox/a.csv")
    );
    assert_eq!(
        path_from_uri("file://partner/{path}", "file://partner/reports/q1.json").as_deref(),
        Some("reports/q1.json")
    );
    // URI that doesn't match the template's fixed parts.
    assert_eq!(path_from_uri("ftp://{path}", "https://x/y"), None);
    // Template with no placeholder cannot recover a path.
    assert_eq!(path_from_uri("ftp://static", "ftp://static"), None);
}

#[test]
fn path_is_recovered_between_prefix_and_suffix() {
    assert_eq!(
        path_from_uri("ftp://{path}?raw", "ftp://a/b?raw").as_deref(),
        Some("a/b")
    );
    assert_eq!(path_from_uri("ftp://{path}?raw", "ftp://a/b"), None);
    assert_eq!(path_from_uri("ftp://{path}?raw", "ftp://?raw"), None);
    assert_eq!(path_from_uri("ftp://{path}", "ftp://"), None);
    // The fixed parts may not overlap.
    assert_eq!(path_from_uri("aa{path}aa", "aaa"), None);
    // What follows the first placeholder is taken as it stands.
    assert_eq!(
        path_from_uri("{path}/{path}", "x/{path}").as_deref(),
        Some("x")
    );
}

#[test]
fn filled_uri_gives_path_back() {
    for template in ["ftp://{path}", "file://partner/{path}", "x:{path}?v=1"] {
        for path in ["a", "/inbox/a.csv", "//ä/ö", "{path}"] {
            let uri = fill_uri_template(template, path);
            assert_eq!(
                path_from_uri(template, &uri).as_deref(),
                Some(path.trim_start_matches('/'))
            );
        }
        assert_eq!(path_from_uri(template, &fill_uri_template(template, "/")), None);
    }
    // With a second placeholder the URI is not taken apart again.
    let twice = fill_uri_template("{path}/{path}", "a");
    assert_eq!(path_from_uri("{path}/{path}", &twice), None);
}

#[test]
fn recovered_path_fills_uri_again() {
    for uri in ["ftp://a", "ftp://inbox/a.csv", "ftp://{path}"] {
        let path = path_from_uri("ftp://{path}", uri).unwrap();
        assert_eq!(fill_uri_template("ftp://{path}", &path), uri);
    }
    // A path with a leading slash loses it.
    let path = path_from_uri("ftp://{path}", "ftp:///a").unwrap();
    assert_eq!(path, "/a");
    assert_eq!(fill_uri_template("ftp://{path}", &path), "ftp://a");
}

#[test]
fn resolve_read_prefers_uri_then_path_argument() {
    let from_uri = arguments(r#"{ "uri": "ftp://inbox/a.csv" }"#);
    assert_eq!(
        resolve_read_path("ftp://{path}", &from_uri).as_deref(),
        Some("inbox/a.csv")
    );
    let from_arg = arguments(r#"{ "path": "inbox/b.csv" }"#);
    assert_eq!(
        resolve_read_path("ftp://{path}", &from_arg).as_deref(),
        Some("inbox/b.csv")
    );
    assert_eq!(resolve_read_path("ftp://{path}", &arguments("{}")), None);
    assert_eq!(
        resolve_read_path("ftp://{path}", &arguments(r#"{ "path": "  " }"#)),
        None
    );
}

#[test]
fn resolve_read_falls_back_to_path() {
    let both = arguments(r#"{ "uri": "ftp://a", "path": "b" }"#);
    assert_eq!(resolve_read_path("ftp://{path}", &both).as_deref(), Some("a"));
    let foreign = arguments(r#"{ "uri": "https://a", "path": "b" }"#);
    assert_eq!(resolve_read_path("ftp://{path}", &foreign).as_deref(), Some("b"));
    let blank = arguments(r#"{ "uri": "ftp:// ", "path": "b" }"#);
    assert_eq!(resolve_read_path("ftp://{path}", &blank).as_deref(), Some("b"));
}

#[test]
fn arguments_are_the_strings_of_the_payload() {
    let args = arguments(r#"{ "path": "p", "uri": 1, "content": "c\n", "text": null }"#);
    assert_eq!(args.path.as_deref(), Some("p"));
    assert_eq!(args.uri, None);
    assert_eq!(args.content.as_deref(), Some("c\n"));
    assert_eq!(args.text, None);
    for payload in ["", "not json", "[\"path\"]", "\"path\"", "{\"path\": {}}"] {
        assert_eq!(arguments(payload).path, None);
    }
}

#[test]
fn mime_type_from_extension() {
    assert_eq!(mime_type_for("report.csv"), "text/csv");
    assert_eq!(mime_type_for("notes.TXT"), "text/plain");
    assert_eq!(mime_type_for("data.json"), "application/json");
    assert_eq!(mime_type_for("archive.tar"), "application/octet-stream");
    assert_eq!(mime_type_for("noext"), "application/octet-stream");
}

#[test]
fn mime_type_of_every_known_extension() {
    for (extension, mime) in [
        ("txt", "text/plain"),
        ("log", "text/plain"),
        ("text", "text/plain"),
        ("csv", "text/csv"),
        ("tsv", "text/tab-separated-values"),
        ("json", "application/json"),
        ("ndjson", "application/x-ndjson"),
        ("jsonl", "application/x-ndjson"),
        ("xml", "application/xml"),
        ("yaml", "application/yaml"),
        ("yml", "application/yaml"),
        ("html", "text/html"),
        ("htm", "text/html"),
        ("md", "text/markdown"),
        ("markdown", "text/markdown"),
        ("pdf", "application/pdf"),
        ("zip", "application/zip"),
        ("gz", "application/gzip"),
        ("gzip", "application/gzip"),
        ("png", "image/png"),
        ("jpg", "image/jpeg"),
        ("jpeg", "image/jpeg"),
        ("gif", "image/gif"),
        ("parquet", "application/vnd.apache.parquet"),
    ] {
        assert_eq!(mime_type_for(&format!("a.b.{extension}")), mime);
        assert_eq!(mime_type_for(&format!("A.{}", extension.to_uppercase())), mime);
        assert_eq!(mime_type_for(extension), "application/octet-stream");
    }
    assert_eq!(mime_type_for("a."), "application/octet-stream");
}

fn listing() -> Vec<Json> {
    vec![
        entry("report.csv", "file", Json::unsigned(4096)),
        entry("notes.txt", "file", Json::unsigned(12)),
        entry("inbox", "dir", Json::Null),
        entry("link", "symlink", Json::Null),
    ]
}

#[test]
fn entries_map_to_file_resources_only() {
    let page = entries_to_resource_page(&listing(), "/outbound", "ftp://{path}");
    // Only the two files; dir + symlink skipped.
    assert_eq!(page.resources.len(), 2);
    assert!(page.next_cursor.is_none());

    let first = &page.resources[0];
    assert_eq!(first.uri, "ftp://outbound/report.csv");
    assert_eq!(first.name.as_deref(), Some("report.csv"));
    assert_eq!(first.mime_type.as_deref(), Some("text/csv"));
    assert_eq!(first.description.as_deref(), Some("4096 bytes"));
}

#[test]
fn entries_at_login_dir_use_bare_filename() {
    let page = entries_to_resource_page(&listing(), "", "ftp://{path}");
    assert_eq!(page.resources[0].uri, "ftp://report.csv");
}

#[test]
fn entries_without_a_name_or_a_size() {
    let entries = vec![
        Json::text("file"),
        entry("  ", "file", Json::unsigned(1)),
        object(vec![("type", Json::text("file"))]),
        entry("a", "unknown", Json::Null),
        entry("b", "file", Json::Null),
        entry("c", "file", Json::Number(Number::Negative(-1))),
    ];
    let page = entries_to_resource_page(&entries, ".", "ftp://{path}");
    let uris: Vec<_> = page.resources.iter().map(|r| r.uri.as_str()).collect();
    assert_eq!(uris, vec!["ftp://b", "ftp://c"]);
    assert!(page.resources.iter().all(|r| r.description.is_none()));
}

#[test]
fn only_listed_files_become_resources() {
    let entries = vec![
        line_to_json("-rw-r--r-- 1 o g 18446744073709551615 Nov 5 2019 big.bin"),
        line_to_json("drwxr-xr-x 2 o g 4096 Nov 5 2019 dir"),
        line_to_json("lrwxrwxrwx 1 o g 7 Nov 5 2019 link -> a"),
        line_to_json("no list line"),
    ];
    let page = entries_to_resource_page(&entries, "/d//", "ftp://{path}");
    assert_eq!(page.resources.len(), 1);
    assert_eq!(page.resources[0].uri, "ftp://d/big.bin");
    assert_eq!(
        page.resources[0].description.as_deref(),
        Some("18446744073709551615 bytes")
    );
}

#[test]
fn directories_join_with_one_slash() {
    assert_eq!(join_dir("/a/", "b"), "/a/b");
    assert_eq!(join_dir("a", "b"), "a/b");
    assert_eq!(join_dir(".", "b"), "b");
    assert_eq!(join_dir("./", "b"), "b");
    assert_eq!(join_dir("///", "b"), "b");
    assert_eq!(join_dir("..", "b"), "../b");
}

fn contents(body: &Json) -> &Vec<Json> {
    match body.get("contents") {
        Some(Json::Array(items)) => items,
        _ => panic!("contents array"),
    }
}

#[test]
fn read_body_text_satisfies_decoder_shape() {
    let content = object(vec![("text", Json::text("a,b\n1,2\n"))]);
    let body = resource_contents_body("ftp://outbound/report.csv", "text/csv", &content);
    let contents = contents(&body);
    assert_eq!(contents.len(), 1);
    assert_eq!(
        contents[0].get("uri"),
        Some(&Json::text("ftp://outbound/report.csv"))
    );
    assert_eq!(contents[0].get("mimeType"), Some(&Json::text("text/csv")));
    assert_eq!(contents[0].get("text"), Some(&Json::text("a,b\n1,2\n")));
    assert!(contents[0].get("blob").is_none());
}

#[test]
fn read_body_binary_uses_blob() {
    let content = object(vec![("base64", Json::text("//4="))]);
    let body = resource_contents_body("ftp://outbound/x.bin", "application/octet-stream", &content);
    let contents = contents(&body);
    assert_eq!(contents[0].get("blob"), Some(&Json::text("//4=")));
    assert!(contents[0].get("text").is_none());
}

#[test]
fn read_body_without_content_is_empty_text() {
    let body = resource_contents_body("u", "m", &Json::Null);
    assert_eq!(contents(&body)[0].str_at("text"), Some(""));
}

#[test]
fn read_body_is_text_or_blob() {
    let text = resource_contents_body("u", "m", &decode_content(b"a"));
    assert_eq!(contents(&text)[0].str_at("text"), Some("a"));
    assert!(contents(&text)[0].get("blob").is_none());
    let blob = resource_contents_body("u", "m", &decode_content(&[0xff]));
    assert_eq!(contents(&blob)[0].str_at("blob"), Some("/w=="));
    assert!(contents(&blob)[0].get("text").is_none());
}

#[test]
fn completion_filters_by_prefix_and_caps() {
    let entries = vec![
        entry("alpha.csv", "file", Json::unsigned(1)),
        entry("alphabet.csv", "file", Json::unsigned(2)),
        entry("beta.csv", "file", Json::unsigned(3)),
    ];
    let got = entries_to_completion_values(&entries, "alpha", 10);
    assert_eq!(got, vec!["alpha.csv".to_owned(), "alphabet.csv".to_owned()]);
    let capped = entries_to_completion_values(&entries, "alpha", 1);
    assert_eq!(capped, vec!["alpha.csv".to_owned()]);
    let none = entries_to_completion_values(&entries, "zzz", 10);
    assert!(none.is_empty());
}

#[test]
fn completion_takes_directories_too() {
    let entries = vec![
        entry("ab", "dir", Json::Null),
        Json::text("abc"),
        object(vec![("type", Json::text("file"))]),
        entry("a", "unknown", Json::Null),
    ];
    assert_eq!(
        entries_to_completion_values(&entries, "", 10),
        vec!["ab".to_owned(), "a".to_owned()]
    );
    assert!(entries_to_completion_values(&entries, "", 0).is_empty());
}
