use mcpg_plugin_backend_ftp::envelope::FtpOutcome;
use mcpg_plugin_backend_ftp::ftp::{
    decode_content, line_entry, line_to_json, lines_to_json, read_limit, resolve_path, retr_capped,
};
use mcpg_plugin_backend_ftp::json::Json;
use mcpg_plugin_backend_ftp::outside::ListedFile;

#[test]
fn resolve_rejects_traversal() {
    assert!(resolve_path("", "../etc/passwd").is_err());
    assert!(resolve_path("/home/svc", "a/../../b").is_err());
}

#[test]
fn resolve_joins_under_base() {
    assert_eq!(
        resolve_path("/upload", "report.csv").unwrap(),
        "/upload/report.csv"
    );
    assert_eq!(
        resolve_path("/upload/", "/report.csv").unwrap(),
        "/upload/report.csv"
    );
    assert_eq!(resolve_path("", "sub/file").unwrap(), "sub/file");
    assert_eq!(resolve_path("", "").unwrap(), ".");
    assert_eq!(resolve_path("/data", "").unwrap(), "/data");
}

#[test]
fn resolve_names_the_reason() {
    for path in ["..", "/..", "../", "a/..", "a/../b", "//..//"] {
        assert_eq!(
            resolve_path("/base", path).unwrap_err(),
            "path must not contain '..' segments"
        );
    }
}

#[test]
fn resolve_accepts_dots_that_are_no_parent_segment() {
    assert_eq!(resolve_path("/b", "...").unwrap(), "/b/...");
    assert_eq!(resolve_path("/b", "a..b/..c/d..").unwrap(), "/b/a..b/..c/d..");
    assert_eq!(resolve_path("/b", ".").unwrap(), "/b/.");
}

#[test]
fn resolve_takes_a_blank_base_for_the_login_directory() {
    assert_eq!(resolve_path(" \t", "//a").unwrap(), "a");
    assert_eq!(resolve_path("\u{2003}", "/").unwrap(), ".");
    assert_eq!(resolve_path("/", "a").unwrap(), "/a");
    assert_eq!(resolve_path("//", "").unwrap(), "");
}

#[test]
fn resolved_path_stays_under_the_base() {
    for path in ["", "a", "/a/b", "///x"] {
        let resolved = resolve_path("/home/svc/", path).unwrap();
        let below = resolved.strip_prefix("/home/svc").unwrap();
        assert!(below.is_empty() || below.starts_with('/'));
        assert!(!below.split('/').any(|segment| segment == ".."));
    }
}

#[test]
fn parse_posix_list_line() {
    let v = line_to_json("-rw-r--r-- 1 owner group 4096 Jan 12 10:11 report.csv");
    assert_eq!(v.get("name"), Some(&Json::text("report.csv")));
    assert_eq!(v.get("type"), Some(&Json::text("file")));
    assert_eq!(v.get("size"), Some(&Json::unsigned(4096)));
}

#[test]
fn parse_posix_dir_line() {
    let v = line_to_json("drwxr-xr-x 2 owner group 4096 Jan 12 10:11 inbox");
    assert_eq!(v.get("name"), Some(&Json::text("inbox")));
    assert_eq!(v.get("type"), Some(&Json::text("dir")));
}

#[test]
fn parse_posix_symlink_line() {
    let v = line_to_json("lrwxrwxrwx 1 owner group 7 Nov 5 2019 latest -> a.csv");
    assert_eq!(v.get("name"), Some(&Json::text("latest")));
    assert_eq!(v.get("type"), Some(&Json::text("symlink")));
    assert_eq!(v.get("size"), Some(&Json::unsigned(7)));
}

#[test]
fn parse_dos_lines() {
    let file = line_to_json("04-08-14  03:09PM 403   readme.txt");
    assert_eq!(file.get("name"), Some(&Json::text("readme.txt")));
    assert_eq!(file.get("type"), Some(&Json::text("file")));
    assert_eq!(file.get("size"), Some(&Json::unsigned(403)));
    let dir = line_to_json("10-19-20  03:19PM <DIR> pub");
    assert_eq!(dir.get("name"), Some(&Json::text("pub")));
    assert_eq!(dir.get("type"), Some(&Json::text("dir")));
    assert_eq!(dir.get("size"), Some(&Json::unsigned(0)));
}

#[test]
fn unparseable_line_falls_back_to_raw_name() {
    let v = line_to_json("totally not a list line");
    assert_eq!(v.get("name"), Some(&Json::text("totally not a list line")));
    assert_eq!(v.get("type"), Some(&Json::text("unknown")));
    assert_eq!(v.get("size"), Some(&Json::Null));
}

#[test]
fn posix_reading_goes_before_dos_reading() {
    let file = |name: &str, is_directory: bool, is_symlink: bool| ListedFile {
        name: name.to_owned(),
        is_directory,
        is_symlink,
        size: 3,
    };
    let both = line_entry("l", Some(file("p", false, true)), Some(file("d", true, false)));
    assert_eq!(both.str_at("name"), Some("p"));
    assert_eq!(both.str_at("type"), Some("symlink"));
    let dos = line_entry("l", None, Some(file("d", true, true)));
    assert_eq!(dos.str_at("name"), Some("d"));
    assert_eq!(dos.str_at("type"), Some("dir"));
    let neither = line_entry("l", None, None);
    assert_eq!(neither.str_at("name"), Some("l"));
    assert_eq!(neither.str_at("type"), Some("unknown"));
}

#[test]
fn lines_keep_their_order() {
    let entries = lines_to_json(&vec![
        "-rw-r--r-- 1 o g 1 Nov 5 2019 b".to_owned(),
        "??".to_owned(),
        "-rw-r--r-- 1 o g 2 Nov 5 2019 a".to_owned(),
    ]);
    let names: Vec<_> = entries.iter().map(|e| e.str_at("name").unwrap()).collect();
    assert_eq!(names, vec!["b", "??", "a"]);
}

#[test]
fn decode_text_vs_base64() {
    assert_eq!(decode_content(b"hello").get("text"), Some(&Json::text("hello")));
    assert_eq!(
        decode_content(&[0xff, 0xfe]).get("base64"),
        Some(&Json::text("//4="))
    );
}

#[test]
fn decode_reports_one_form_only() {
    let text = decode_content("grüße".as_bytes());
    assert_eq!(text.str_at("text"), Some("grüße"));
    assert_eq!(text.get("base64"), None);
    let binary = decode_content(&[0, 0x80]);
    assert_eq!(binary.get("text"), None);
    assert_eq!(binary.str_at("base64"), Some("AIA="));
    assert_eq!(decode_content(b"").str_at("text"), Some(""));
}

#[test]
fn capped_read_is_whole_or_refused() {
    assert_eq!(read_limit(3), 4);
    assert_eq!(read_limit(0), 1);
    assert_eq!(read_limit(usize::MAX), (usize::MAX as u64).saturating_add(1));
    assert_eq!(
        retr_capped(Ok(vec![7]), "f", usize::MAX),
        Ok(vec![7])
    );
    let file = vec![1u8, 2, 3, 4, 5];
    for max_bytes in 0..8usize {
        let read: Vec<u8> = file
            .iter()
            .copied()
            .take(read_limit(max_bytes) as usize)
            .collect();
        let kept = retr_capped(Ok(read), "f", max_bytes);
        if file.len() <= max_bytes {
            assert_eq!(kept.unwrap(), file);
        } else {
            assert_eq!(
                kept.unwrap_err(),
                format!("file exceeds max_bytes ({max_bytes})")
            );
        }
    }
}

#[test]
fn failed_retrieve_names_the_path() {
    assert_eq!(
        retr_capped(Err("550 no".to_owned()), "/a/b", 10).unwrap_err(),
        "FTP retr '/a/b' failed: 550 no"
    );
}

#[test]
fn outcomes_fill_their_own_part() {
    let fetched = FtpOutcome::fetched(b"abc");
    assert_eq!(fetched.size, Some(3));
    assert_eq!(fetched.content.unwrap().str_at("text"), Some("abc"));
    assert!(fetched.entries.is_none() && fetched.written.is_none());
    let stored = FtpOutcome::stored(7);
    assert_eq!(stored.written, Some(7));
    assert!(stored.entries.is_none() && stored.content.is_none() && stored.size.is_none());
    let listed = FtpOutcome::listed(vec![Json::Null]);
    assert_eq!(listed.entries, Some(vec![Json::Null]));
    assert!(listed.content.is_none() && listed.size.is_none() && listed.written.is_none());
}
