//! File operations: the path they act on, the entries of a listing, and the
//! contents of a file.
use crate::json;
use crate::json::{Json, JsonModel, NumberModel};
use crate::outside;
use crate::outside::{ListedFile, ListedFileModel, PosixReading};
use crate::text;
use vstd::prelude::*;

verus! {

/// Connection settings. They hold a password, and are not printed.
pub struct FtpConn {
    pub host: String,
    pub port: u16,
    pub user: String,
    pub password: String,
    /// Require explicit FTPS (AUTH TLS). When `false`, plaintext FTP is used.
    pub tls: bool,
}

impl Clone for FtpConn {
    fn clone(&self) -> (res: FtpConn)
        ensures
            res == *self,
    {
        FtpConn {
            host: self.host.clone(),
            port: self.port,
            user: self.user.clone(),
            password: self.password.clone(),
            tls: self.tls,
        }
    }
}

/// A `..` stands in `path` at `at`, with a `/` or an end of the path on either
/// side.
pub open spec fn parent_segment_at(path: Seq<char>, at: int) -> bool {
    &&& 0 <= at
    &&& at + 2 <= path.len()
    &&& path[at] == '.'
    &&& path[at + 1] == '.'
    &&& at == 0 || path[at - 1] == '/'
    &&& at + 2 == path.len() || path[at + 2] == '/'
}

/// One of the `/`-separated segments of `path` is `..`.
pub open spec fn has_parent_segment(path: Seq<char>) -> bool {
    exists|at: int| parent_segment_at(path, at)
}

/// `caller` joined under `base`: the login's default directory where `base` is
/// blank.
pub open spec fn joined_under(base: Seq<char>, caller: Seq<char>) -> Seq<char> {
    let below = text::trim_start(caller, '/');
    if text::is_blank(base) {
        if below.len() == 0 {
            seq!['.']
        } else {
            below
        }
    } else {
        let root = text::trim_end(base, '/');
        if below.len() == 0 {
            root
        } else {
            root + seq!['/'] + below
        }
    }
}

/// Whether one of the `/`-separated segments of `path` is `..`.
pub(crate) fn holds_parent_segment(path: &str) -> (res: bool)
    ensures
        res == has_parent_segment(path@),
{
    let chars = text::chars_of(path);
    let n = chars.len();
    let mut i: usize = 0;
    while i < n
        invariant
            i <= n,
            n == chars.len(),
            chars@ == path@,
            forall|j: int| 0 <= j < i ==> !parent_segment_at(path@, j),
        decreases n - i,
    {
        if n - i >= 2 && chars[i] == '.' && chars[i + 1] == '.' && (i == 0 || chars[i - 1] == '/')
            && (n - i == 2 || chars[i + 2] == '/') {
            assert(parent_segment_at(path@, i as int));
            return true;
        }
        i += 1;
    }
    false
}

/// Joins `caller` under `base`.
pub(crate) fn join_under(base: &str, caller: &str) -> (res: String)
    ensures
        res@ == joined_under(base@, caller@),
{
    let below = text::without_leading(caller, '/');
    if text::blank(base) {
        if below.is_empty() {
            proof {
                reveal_strlit(".");
                assert("."@ =~= seq!['.']);
            }
            ".".to_owned()
        } else {
            below.to_owned()
        }
    } else {
        let root = text::without_trailing(base, '/');
        if below.is_empty() {
            root.to_owned()
        } else {
            proof {
                reveal_strlit("/");
                assert("/"@ =~= seq!['/']);
            }
            let mut path = text::joined(root, "/");
            path.append(below);
            path
        }
    }
}

/// Joins the caller's path under `base`, rejecting `..` segments.
pub fn resolve_path(base: &str, caller: &str) -> (res: Result<String, String>)
    ensures
        match res {
            Ok(path) => !has_parent_segment(caller@) && path@ == joined_under(base@, caller@),
            Err(message) => has_parent_segment(caller@) && message@
                == "path must not contain '..' segments"@,
        },
{
    if holds_parent_segment(caller) {
        return Err("path must not contain '..' segments".to_owned());
    }
    Ok(join_under(base, caller))
}

/// A caller cannot climb out of the base: whatever path it names, the resolved
/// path is the base, without its trailing slashes, followed by nothing or by a
/// `/` and a rest that has no `..` segment.
pub proof fn law_resolved_path_stays_under_base(base: Seq<char>, caller: Seq<char>)
    requires
        !has_parent_segment(caller),
        !text::is_blank(base),
    ensures
        ({
            let root = text::trim_end(base, '/');
            let path = joined_under(base, caller);
            let below = path.skip(root.len() as int);
            &&& text::has_prefix(path, root)
            &&& below.len() > 0 ==> below[0] == '/'
            &&& !has_parent_segment(below)
        }),
{
    let root = text::trim_end(base, '/');
    let rest = text::trim_start(caller, '/');
    let path = joined_under(base, caller);
    let below = path.skip(root.len() as int);
    lemma_trimmed_start_has_no_parent_segment(caller);
    assert(path.subrange(0, root.len() as int) =~= root);
    if rest.len() > 0 {
        assert(below =~= seq!['/'] + rest);
        assert forall|at: int| !parent_segment_at(below, at) by {
            if parent_segment_at(below, at) {
                assert(parent_segment_at(rest, at - 1));
            }
        }
    }
}

/// Resolving adds no `..` segment: where neither the base nor the caller's path
/// has one, the resolved path has none.
pub proof fn law_resolving_adds_no_parent_segment(base: Seq<char>, caller: Seq<char>)
    requires
        !has_parent_segment(base),
        !has_parent_segment(caller),
    ensures
        !has_parent_segment(joined_under(base, caller)),
{
    let root = text::trim_end(base, '/');
    let rest = text::trim_start(caller, '/');
    let path = joined_under(base, caller);
    lemma_trimmed_start_has_no_parent_segment(caller);
    lemma_trimmed_end_has_no_parent_segment(base);
    if !text::is_blank(base) && rest.len() > 0 {
        assert forall|at: int| !parent_segment_at(path, at) by {
            if parent_segment_at(path, at) {
                if at + 2 <= root.len() {
                    assert(parent_segment_at(root, at));
                } else {
                    assert(at > root.len());
                    assert(parent_segment_at(rest, at - root.len() - 1));
                }
            }
        }
    }
}

/// Trimming leading slashes adds no `..` segment.
pub proof fn lemma_trimmed_start_has_no_parent_segment(path: Seq<char>)
    requires
        !has_parent_segment(path),
    ensures
        !has_parent_segment(text::trim_start(path, '/')),
    decreases path.len(),
{
    if path.len() > 0 && path[0] == '/' {
        let rest = path.drop_first();
        assert forall|at: int| !parent_segment_at(rest, at) by {
            if parent_segment_at(rest, at) {
                assert(parent_segment_at(path, at + 1));
            }
        }
        lemma_trimmed_start_has_no_parent_segment(rest);
    }
}

/// Trimming trailing slashes adds no `..` segment.
pub proof fn lemma_trimmed_end_has_no_parent_segment(path: Seq<char>)
    requires
        !has_parent_segment(path),
    ensures
        !has_parent_segment(text::trim_end(path, '/')),
    decreases path.len(),
{
    if path.len() > 0 && path.last() == '/' {
        let rest = path.drop_last();
        assert forall|at: int| !parent_segment_at(rest, at) by {
            if parent_segment_at(rest, at) {
                assert(parent_segment_at(path, at));
            }
        }
        lemma_trimmed_end_has_no_parent_segment(rest);
    }
}

/// How many bytes a capped read asks for: one more than the cap, so that a file
/// over the cap shows, as far as 64 bits count.
pub open spec fn bytes_asked_for(max_bytes: usize) -> nat {
    if max_bytes < u64::MAX {
        (max_bytes + 1) as nat
    } else {
        u64::MAX as nat
    }
}

/// How many bytes a capped read asks for.
pub fn read_limit(max_bytes: usize) -> (res: u64)
    ensures
        res == bytes_asked_for(max_bytes),
        max_bytes < u64::MAX ==> res == max_bytes + 1,
        max_bytes >= u64::MAX ==> res == u64::MAX,
{
    (max_bytes as u64).saturating_add(1)
}

/// What a failed `what` of `path` is reported as.
pub open spec fn transfer_failure(what: Seq<char>, path: Seq<char>, error: Seq<char>) -> Seq<char> {
    "FTP "@ + what + " '"@ + path + "' failed: "@ + error
}

pub(crate) fn transfer_failure_text(what: &str, path: &str, error: &str) -> (res: String)
    ensures
        res@ == transfer_failure(what@, path@, error@),
{
    let mut message = text::joined("FTP ", what);
    message.append(" '");
    message.append(path);
    message.append("' failed: ");
    message.append(error);
    message
}

/// What content over a cap of `max_bytes` is reported as.
pub open spec fn over_cap(subject: Seq<char>, max_bytes: nat) -> Seq<char> {
    subject + " exceeds max_bytes ("@ + text::decimal(max_bytes) + ")"@
}

pub(crate) fn over_cap_text(subject: &str, max_bytes: usize) -> (res: String)
    ensures
        res@ == over_cap(subject@, max_bytes as nat),
{
    let mut message = text::joined(subject, " exceeds max_bytes (");
    message.append(text::decimal_text(max_bytes as u128).as_str());
    message.append(")");
    message
}

/// What is kept of a buffer under a cap of `max_bytes`: all of it, or nothing.
pub open spec fn kept_under_cap(buffer: Seq<u8>, max_bytes: nat) -> Option<Seq<u8>> {
    if buffer.len() <= max_bytes {
        Some(buffer)
    } else {
        None
    }
}

/// Maps what a retrieve gave onto a buffer of at most `max_bytes`.
pub fn retr_capped(result: Result<Vec<u8>, String>, path: &str, max_bytes: usize) -> (res: Result<
    Vec<u8>,
    String,
>)
    ensures
        result matches Ok(buffer) ==> (buffer@.len() <= max_bytes ==> res is Ok && res->Ok_0@
            == buffer@),
        result matches Ok(buffer) ==> (buffer@.len() > max_bytes ==> res is Err),
        match result {
            Ok(buffer) => match kept_under_cap(buffer@, max_bytes as nat) {
                Some(kept) => res matches Ok(data) && data@ == kept,
                None => res matches Err(message) && message@ == over_cap(
                    "file"@,
                    max_bytes as nat,
                ),
            },
            Err(error) => res matches Err(message) && message@ == transfer_failure(
                "retr"@,
                path@,
                error@,
            ),
        },
{
    match result {
        Ok(buffer) => {
            if buffer.len() > max_bytes {
                return Err(over_cap_text("file", max_bytes));
            }
            Ok(buffer)
        },
        Err(error) => Err(transfer_failure_text("retr", path, error.as_str())),
    }
}

/// What a read of a file stops with after `limit` bytes.
pub open spec fn first_bytes(file: Seq<u8>, limit: nat) -> Seq<u8> {
    if file.len() <= limit {
        file
    } else {
        file.take(limit as int)
    }
}

/// Reading as far as a capped read asks for is enough to tell: of a file read that
/// far, the whole file is kept where it is within the cap, and nothing where it is
/// not. Under the largest cap, that is said of the files whose length 64 bits count.
pub proof fn law_capped_read_is_whole_or_refused(file: Seq<u8>, max_bytes: usize)
    requires
        max_bytes < u64::MAX || file.len() <= u64::MAX,
    ensures
        kept_under_cap(first_bytes(file, bytes_asked_for(max_bytes)), max_bytes as nat)
            == kept_under_cap(file, max_bytes as nat),
{
}

/// What a listing entry stands for.
pub open spec fn entry_model(name: Seq<char>, kind: Seq<char>, size: Option<u64>) -> JsonModel {
    JsonModel::Object(
        map![
            "name"@ => JsonModel::Str(name),
            "type"@ => JsonModel::Str(kind),
            "size"@ => match size {
                Some(n) => JsonModel::Number(NumberModel::Unsigned(n)),
                None => JsonModel::Null,
            },
        ],
    )
}

/// The entry for a line that a parser read.
pub open spec fn parsed_entry(file: ListedFileModel) -> JsonModel {
    entry_model(
        file.name,
        if file.is_directory {
            "dir"@
        } else if file.is_symlink {
            "symlink"@
        } else {
            "file"@
        },
        Some(file.size as u64),
    )
}

/// The entry for a line that no parser read: the line itself is the name.
pub open spec fn raw_entry(line: Seq<char>) -> JsonModel {
    entry_model(line, "unknown"@, None)
}

fn entry(name: &str, kind: &str, size: Option<u64>) -> (res: Json)
    ensures
        res.model() == entry_model(name@, kind@, size),
{
    let mut fields: Vec<(String, Json)> = Vec::new();
    json::put(&mut fields, "name", Json::text(name));
    json::put(&mut fields, "type", Json::text(kind));
    json::put(
        &mut fields,
        "size",
        match size {
            Some(n) => Json::unsigned(n),
            None => Json::Null,
        },
    );
    Json::Object(fields)
}

/// The entry for a `LIST` line, given what the POSIX and the DOS parser made of
/// it: the POSIX reading goes first, then the DOS reading, then the raw line.
pub fn line_entry(line: &str, posix: Option<ListedFile>, dos: Option<ListedFile>) -> (res: Json)
    ensures
        res.model() == match (posix, dos) {
            (Some(file), _) => parsed_entry(file.model()),
            (None, Some(file)) => parsed_entry(file.model()),
            (None, None) => raw_entry(line@),
        },
{
    let parsed = match posix {
        Some(file) => Some(file),
        None => dos,
    };
    match parsed {
        Some(file) => {
            let kind = if file.is_directory {
                "dir"
            } else if file.is_symlink {
                "symlink"
            } else {
                "file"
            };
            entry(file.name.as_str(), kind, Some(file.size as u64))
        },
        None => entry(line, "unknown", None),
    }
}

/// `entry` is what `line` is projected to where it is not read as POSIX: its DOS
/// reading, or the raw line.
pub open spec fn is_dos_or_raw(line: Seq<char>, entry: JsonModel) -> bool {
    match outside::dos_listing(line) {
        Some(file) => entry == parsed_entry(file) || (usize::BITS != 64 && entry == raw_entry(
            line,
        )),
        None => entry == raw_entry(line),
    }
}

/// `entry` is what `line` is projected to: its POSIX reading, or else its DOS
/// reading, or else the raw line.
///
/// On a 64-bit machine there is one such entry for a line, unless the line names a
/// day without a year that not every year has: then the POSIX reading depends on
/// the current year. On a smaller machine a size can be too large to be read.
pub open spec fn is_reading_of(line: Seq<char>, entry: JsonModel) -> bool {
    match outside::posix_reading(line) {
        PosixReading::Always(file) => entry == parsed_entry(file) || (usize::BITS != 64
            && is_dos_or_raw(line, entry)),
        PosixReading::AtTimes(file) => entry == parsed_entry(file) || is_dos_or_raw(line, entry),
        PosixReading::Never => is_dos_or_raw(line, entry),
    }
}

/// `entry` has a name that stands in `line`, and no size but an integer.
pub open spec fn is_entry_from(line: Seq<char>, entry: JsonModel) -> bool {
    &&& entry.string_at("name"@) matches Some(name) && text::contains(line, name)
    &&& !(entry.at("size"@) matches Some(JsonModel::Number(NumberModel::Decimal(_))))
}

/// Projects a raw `LIST` line to an entry, reading it as POSIX, then as DOS; when
/// neither fits, the raw line is the name.
pub fn line_to_json(line: &str) -> (res: Json)
    ensures
        is_reading_of(line@, res.model()),
        is_entry_from(line@, res.model()),
{
    proof {
        reveal_strlit("name");
        reveal_strlit("type");
        reveal_strlit("size");
        assert("name"@[0] != "type"@[0] && "name"@[0] != "size"@[0]);
        assert(line@.subrange(0, line@.len() as int) =~= line@);
        assert(text::occurs_at(line@, line@, 0));
    }
    match outside::parse_posix(line) {
        Some(file) => line_entry(line, Some(file), None),
        None => line_entry(line, None, outside::parse_dos(line)),
    }
}

/// Projects the lines of a listing to entries, in their order.
pub fn lines_to_json(lines: &Vec<String>) -> (res: Vec<Json>)
    ensures
        res@.len() == lines@.len(),
        forall|i: int|
            0 <= i < lines@.len() ==> is_reading_of(lines@[i]@, #[trigger] res@[i].model())
                && is_entry_from(lines@[i]@, res@[i].model()),
{
    let mut entries: Vec<Json> = Vec::new();
    let mut i: usize = 0;
    while i < lines.len()
        invariant
            i <= lines.len(),
            entries@.len() == i,
            forall|j: int|
                0 <= j < i ==> is_reading_of(lines@[j]@, #[trigger] entries@[j].model())
                    && is_entry_from(lines@[j]@, entries@[j].model()),
        decreases lines.len() - i,
    {
        entries.push(line_to_json(lines[i].as_str()));
        i += 1;
    }
    entries
}

/// The content of a file as it is reported: text where the bytes are UTF-8,
/// base64 otherwise.
pub open spec fn content_model(data: Seq<u8>) -> JsonModel {
    JsonModel::Object(
        if vstd::utf8::valid_utf8(data) {
            map!["text"@ => JsonModel::Str(vstd::utf8::decode_utf8(data))]
        } else {
            map!["base64"@ => JsonModel::Str(outside::base64_text(data))]
        },
    )
}

/// The bytes that reported content stands for.
pub open spec fn content_bytes(content: JsonModel) -> Option<Seq<u8>> {
    match (content.string_at("text"@), content.string_at("base64"@)) {
        (Some(t), _) => Some(vstd::utf8::encode_utf8(t)),
        (None, Some(b)) => match outside::base64_bytes(b) {
            Ok(bytes) => Some(bytes),
            Err(_) => None,
        },
        (None, None) => None,
    }
}

/// Decodes file bytes for a report: UTF-8 text when valid, else base64. Nothing
/// is lost: the reported content stands for the very bytes.
pub fn decode_content(data: &[u8]) -> (res: Json)
    ensures
        res.model() == content_model(data@),
        content_bytes(res.model()) == Some(data@),
{
    proof {
        reveal_strlit("text");
        reveal_strlit("base64");
        assert("text"@.len() != "base64"@.len());
    }
    let mut fields: Vec<(String, Json)> = Vec::new();
    match outside::utf8_text(data) {
        Some(t) => {
            proof {
                vstd::utf8::encode_utf8_decode_utf8(t@);
            }
            json::put(&mut fields, "text", Json::text(t));
        },
        None => {
            json::put(
                &mut fields,
                "base64",
                Json::text(outside::base64_encode(data).as_str()),
            );
        },
    }
    Json::Object(fields)
}

} // verus!
