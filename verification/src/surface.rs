//! MCP surface shaping: a binding as a tool, or its files as resources.
//!
//! On the resource surface a call names a file by its URI. This module recovers
//! the file path from that URI by the binding's `uri` template, lists a directory
//! into one resource per file, and wraps a fetched file into the body of a
//! `resources/read`.
use crate::arguments;
use crate::arguments::{CallArguments, CallArgumentsModel};
use crate::ftp;
use crate::json;
use crate::json::{Json, JsonModel};
use crate::outside;
use crate::outside::ListedFileModel;
use crate::text;
use vstd::prelude::*;

verus! {

/// Which MCP surface a binding serves. `Tool` keeps the tool envelope;
/// `Resource` exposes files as MCP resources.
#[derive(Debug, Clone, Copy, PartialEq, Eq, Structural)]
pub enum Surface {
    /// Tool surface.
    Tool,
    /// `resources/list` and `resources/read` over files.
    Resource,
}

impl Default for Surface {
    fn default() -> (res: Surface)
        ensures
            res == Surface::Tool,
    {
        Surface::Tool
    }
}

impl Surface {
    /// Stable label for diagnostics.
    pub fn as_str(self) -> (res: &'static str)
        ensures
            res@ == match self {
                Surface::Tool => "tool"@,
                Surface::Resource => "resource"@,
            },
    {
        match self {
            Surface::Tool => "tool",
            Surface::Resource => "resource",
        }
    }
}

/// The placeholder that a `uri` template has for the file path.
pub open spec fn placeholder() -> Seq<char> {
    "{path}"@
}

/// `template` with its placeholders filled by `path`, which loses its leading
/// slashes.
pub open spec fn filled_uri(template: Seq<char>, path: Seq<char>) -> Seq<char> {
    text::replace_all(template, placeholder(), text::trim_start(path, '/'))
}

/// Fills a `uri` template's `{path}` placeholder with `path`. Leading slashes of
/// the path are trimmed so that the URI stays clean (`ftp://a/b`, not
/// `ftp://a//b`). A template without a placeholder is returned as it is.
pub fn fill_uri_template(template: &str, path: &str) -> (res: String)
    ensures
        res@ == filled_uri(template@, path@),
{
    proof {
        reveal_strlit("{path}");
    }
    text::replaced(template, "{path}", text::without_leading(path, '/'))
}

/// The path in `uri`, by `template`: what stands between the template's fixed
/// parts, where the URI has both and something stands there.
pub open spec fn recovered_path(template: Seq<char>, uri: Seq<char>) -> Option<Seq<char>> {
    match text::split_once(template, placeholder()) {
        Some((prefix, suffix)) => if text::has_prefix(uri, prefix) {
            let body = uri.skip(prefix.len() as int);
            if text::has_suffix(body, suffix) && body.len() > suffix.len() {
                Some(body.take(body.len() - suffix.len()))
            } else {
                None
            }
        } else {
            None
        },
        None => None,
    }
}

/// Recovers the file path from a requested resource `uri`, given the binding's
/// `uri` template. A template without a placeholder, or a URI that does not have
/// the template's fixed parts, yields `None`.
pub fn path_from_uri(template: &str, uri: &str) -> (res: Option<String>)
    ensures
        arguments::optional_chars(res) == recovered_path(template@, uri@),
{
    let pattern = text::chars_of(template);
    let wanted = text::chars_of("{path}");
    let at = match text::find(&pattern, &wanted, 0) {
        Some(at) => at,
        None => {
            assert forall|i: int| !text::is_first_occurrence(template@, placeholder(), i) by {
                if 0 <= i {
                    assert(!text::occurs_at(template@, placeholder(), i));
                }
            }
            return None;
        },
    };
    proof {
        text::lemma_split_once_at(template@, placeholder(), at as int);
    }
    let prefix = template.substring_char(0, at);
    let suffix = template.substring_char(at + wanted.len(), pattern.len());
    if !text::starts_with(uri, prefix) {
        return None;
    }
    let body_len: usize = uri.unicode_len() - at;
    let suffix_len: usize = pattern.len() - at - wanted.len();
    let body = uri.substring_char(at, at + body_len);
    assert(body@ =~= uri@.skip(at as int));
    if body_len <= suffix_len {
        return None;
    }
    let body_chars = text::chars_of(body);
    let suffix_chars = text::chars_of(suffix);
    if !text::stands_at(&body_chars, &suffix_chars, body_len - suffix_len) {
        return None;
    }
    let path = body.substring_char(0, body_len - suffix_len);
    assert(path@ =~= body@.take(body_len - suffix_len));
    Some(path.to_owned())
}

/// What a template gives for a path, it gives back: the URI that the path fills
/// is recovered as the path (without its leading slashes) if and only if there is
/// a path to recover and filling leaves what follows the first placeholder as it
/// is, which it does in a template with one placeholder.
pub proof fn law_filled_uri_gives_path_back(template: Seq<char>, path: Seq<char>)
    requires
        text::contains(template, placeholder()),
    ensures
        ({
            let below = text::trim_start(path, '/');
            let suffix = (text::split_once(template, placeholder())->0).1;
            &&& text::split_once(template, placeholder()) is Some
            &&& recovered_path(template, filled_uri(template, path)) == Some(below)
                <==> below.len() > 0 && text::replace_all(suffix, placeholder(), below) == suffix
            &&& !text::contains(suffix, placeholder()) ==> text::replace_all(
                suffix,
                placeholder(),
                below,
            ) == suffix
        }),
{
    reveal_strlit("{path}");
    let below = text::trim_start(path, '/');
    text::lemma_first_occurrence_exists(template, placeholder());
    let at = choose|at: int| text::is_first_occurrence(template, placeholder(), at);
    text::lemma_split_once_at(template, placeholder(), at);
    let prefix = template.subrange(0, at);
    let suffix = template.subrange(at + placeholder().len(), template.len() as int);
    let filled_suffix = text::replace_all(suffix, placeholder(), below);
    let uri = filled_uri(template, path);
    assert(uri =~= prefix + below + filled_suffix);
    assert(uri.subrange(0, prefix.len() as int) =~= prefix);
    let body = uri.skip(prefix.len() as int);
    assert(body =~= below + filled_suffix);
    if below.len() > 0 && filled_suffix == suffix {
        assert(body.subrange(body.len() - suffix.len(), body.len() as int) =~= suffix);
        assert(body.take(body.len() - suffix.len()) =~= below);
    }
    if recovered_path(template, uri) == Some(below) {
        assert(body.len() - suffix.len() == below.len());
        assert(body.subrange(body.len() - suffix.len(), body.len() as int) =~= filled_suffix);
    }
    if !text::contains(suffix, placeholder()) {
        text::lemma_nothing_to_replace(suffix, placeholder(), below);
    }
}

/// A template gives back what was asked for: the path recovered from a URI fills
/// the URI again, where the template has one placeholder and the path does not
/// start with a slash.
pub proof fn law_recovered_path_fills_uri_again(template: Seq<char>, uri: Seq<char>)
    requires
        recovered_path(template, uri) matches Some(path) && path[0] != '/',
        !text::contains((text::split_once(template, placeholder())->0).1, placeholder()),
    ensures
        filled_uri(template, recovered_path(template, uri)->0) == uri,
{
    reveal_strlit("{path}");
    let path = recovered_path(template, uri)->0;
    let at = choose|at: int| text::is_first_occurrence(template, placeholder(), at);
    text::lemma_split_once_at(template, placeholder(), at);
    let prefix = template.subrange(0, at);
    let suffix = template.subrange(at + placeholder().len(), template.len() as int);
    text::lemma_nothing_to_replace(suffix, placeholder(), path);
    let body = uri.skip(prefix.len() as int);
    assert(body =~= path + suffix);
    assert(uri =~= uri.subrange(0, prefix.len() as int) + body);
    assert(filled_uri(template, path) =~= prefix + path + suffix);
}

/// A template without a placeholder stays as it is, and recovers no path.
pub proof fn law_template_without_placeholder_is_kept(
    template: Seq<char>,
    path: Seq<char>,
    uri: Seq<char>,
)
    requires
        !text::contains(template, placeholder()),
    ensures
        filled_uri(template, path) == template,
        recovered_path(template, uri) is None,
{
    text::lemma_nothing_to_replace(template, placeholder(), text::trim_start(path, '/'));
}

/// The file path for a `resources/read`: the one recovered from the `uri`
/// argument, or else the `path` argument, where they are not blank.
pub open spec fn read_path(template: Seq<char>, args: CallArgumentsModel) -> Option<Seq<char>> {
    let from_uri = match args.uri {
        Some(uri) => recovered_path(template, uri),
        None => None,
    };
    match (from_uri, args.path) {
        (Some(path), _) if !text::is_blank(path) => Some(path),
        (_, Some(path)) if !text::is_blank(path) => Some(path),
        _ => None,
    }
}

/// Resolves the file path for a `resources/read`: prefers recovering it from the
/// `uri` argument, then falls back to a literal `path` argument. `None` when
/// neither yields a path that is not blank.
pub fn resolve_read_path(template: &str, args: &CallArguments) -> (res: Option<String>)
    ensures
        arguments::optional_chars(res) == read_path(template@, args.model()),
{
    if let Some(uri) = &args.uri {
        if let Some(path) = path_from_uri(template, uri.as_str()) {
            if !text::blank(path.as_str()) {
                return Some(path);
            }
        }
    }
    match &args.path {
        Some(path) => if !text::blank(path.as_str()) {
            Some(path.clone())
        } else {
            None
        },
        None => None,
    }
}

/// The media type of files with a lower-case `extension`.
pub open spec fn media_type(extension: Seq<char>) -> Seq<char> {
    if extension == "txt"@ || extension == "log"@ || extension == "text"@ {
        "text/plain"@
    } else if extension == "csv"@ {
        "text/csv"@
    } else if extension == "tsv"@ {
        "text/tab-separated-values"@
    } else if extension == "json"@ {
        "application/json"@
    } else if extension == "ndjson"@ || extension == "jsonl"@ {
        "application/x-ndjson"@
    } else if extension == "xml"@ {
        "application/xml"@
    } else if extension == "yaml"@ || extension == "yml"@ {
        "application/yaml"@
    } else if extension == "html"@ || extension == "htm"@ {
        "text/html"@
    } else if extension == "md"@ || extension == "markdown"@ {
        "text/markdown"@
    } else if extension == "pdf"@ {
        "application/pdf"@
    } else if extension == "zip"@ {
        "application/zip"@
    } else if extension == "gz"@ || extension == "gzip"@ {
        "application/gzip"@
    } else if extension == "png"@ {
        "image/png"@
    } else if extension == "jpg"@ || extension == "jpeg"@ {
        "image/jpeg"@
    } else if extension == "gif"@ {
        "image/gif"@
    } else if extension == "parquet"@ {
        "application/vnd.apache.parquet"@
    } else {
        "application/octet-stream"@
    }
}

/// The extension of a file name, in lower case: empty where it has none.
pub open spec fn lower_extension(name: Seq<char>) -> Seq<char> {
    match text::after_last(name, '.') {
        Some(extension) => text::ascii_lower(extension),
        None => Seq::empty(),
    }
}

/// Maps a file's extension to an IANA media type, whatever its case. Unknown and
/// extension-less names yield `application/octet-stream`.
pub fn mime_type_for(name: &str) -> (res: &'static str)
    ensures
        res@ == media_type(lower_extension(name@)),
{
    let extension: Vec<char> = match text::behind_last(name, '.') {
        Some(extension) => text::lowered(extension),
        None => Vec::new(),
    };
    if text::spells(&extension, "txt") || text::spells(&extension, "log") || text::spells(&extension, "text") {
        "text/plain"
    } else if text::spells(&extension, "csv") {
        "text/csv"
    } else if text::spells(&extension, "tsv") {
        "text/tab-separated-values"
    } else if text::spells(&extension, "json") {
        "application/json"
    } else if text::spells(&extension, "ndjson") || text::spells(&extension, "jsonl") {
        "application/x-ndjson"
    } else if text::spells(&extension, "xml") {
        "application/xml"
    } else if text::spells(&extension, "yaml") || text::spells(&extension, "yml") {
        "application/yaml"
    } else if text::spells(&extension, "html") || text::spells(&extension, "htm") {
        "text/html"
    } else if text::spells(&extension, "md") || text::spells(&extension, "markdown") {
        "text/markdown"
    } else if text::spells(&extension, "pdf") {
        "application/pdf"
    } else if text::spells(&extension, "zip") {
        "application/zip"
    } else if text::spells(&extension, "gz") || text::spells(&extension, "gzip") {
        "application/gzip"
    } else if text::spells(&extension, "png") {
        "image/png"
    } else if text::spells(&extension, "jpg") || text::spells(&extension, "jpeg") {
        "image/jpeg"
    } else if text::spells(&extension, "gif") {
        "image/gif"
    } else if text::spells(&extension, "parquet") {
        "application/vnd.apache.parquet"
    } else {
        "application/octet-stream"
    }
}

/// The media type does not depend on the case of the extension: names that are the
/// same but for the case of ASCII letters have the same media type.
pub proof fn law_media_type_ignores_case(a: Seq<char>, b: Seq<char>)
    requires
        text::ascii_lower(a) == text::ascii_lower(b),
    ensures
        media_type(lower_extension(a)) == media_type(lower_extension(b)),
{
    text::lemma_after_last_ignores_case(a, b, '.');
}

/// The path of `name` in the directory `dir`: the bare name in the login's
/// default directory.
pub open spec fn path_in_dir(dir: Seq<char>, name: Seq<char>) -> Seq<char> {
    let dir = text::trim_end(dir, '/');
    if dir.len() == 0 || dir == seq!['.'] {
        name
    } else {
        dir + seq!['/'] + name
    }
}

/// Joining adds no `..` segment.
pub proof fn lemma_path_in_dir_has_no_parent_segment(dir: Seq<char>, name: Seq<char>)
    requires
        !ftp::has_parent_segment(dir),
        !ftp::has_parent_segment(name),
    ensures
        !ftp::has_parent_segment(path_in_dir(dir, name)),
{
    let root = text::trim_end(dir, '/');
    let path = path_in_dir(dir, name);
    ftp::lemma_trimmed_end_has_no_parent_segment(dir);
    if !(root.len() == 0 || root == seq!['.']) {
        assert forall|at: int| !ftp::parent_segment_at(path, at) by {
            if ftp::parent_segment_at(path, at) {
                if at + 2 <= root.len() {
                    assert(ftp::parent_segment_at(root, at));
                } else {
                    assert(at > root.len());
                    assert(ftp::parent_segment_at(name, at - root.len() - 1));
                }
            }
        }
    }
}

/// Joins a directory path and a filename into a single path, collapsing the
/// `/`-separator. An empty `dir` (the login's default directory) yields the bare
/// filename.
pub fn join_dir(dir: &str, name: &str) -> (res: String)
    ensures
        res@ == path_in_dir(dir@, name@),
{
    proof {
        reveal_strlit(".");
        reveal_strlit("/");
        assert("."@ =~= seq!['.']);
        assert("/"@ =~= seq!['/']);
    }
    let dir = text::without_trailing(dir, '/');
    if dir.is_empty() || text::same(dir, ".") {
        name.to_owned()
    } else {
        let mut path = text::joined(dir, "/");
        path.append(name);
        path
    }
}

/// The base as the path of a listed file spells it out, without its leading
/// slashes: empty for the login's default directory and for the root.
pub open spec fn spelled_base(base: Seq<char>) -> Seq<char> {
    let root = text::trim_end(base, '/');
    if root == seq!['.'] {
        Seq::empty()
    } else {
        text::trim_start(root, '/')
    }
}

/// The path that a read goes to whose URI was recovered as `named`: `named` joined
/// under the base, but that a path that spells the base out, as those of listed files
/// do, names it once and for all.
pub open spec fn read_target(base: Seq<char>, named: Seq<char>) -> Seq<char> {
    let spelled = spelled_base(base);
    let below = text::trim_start(named, '/');
    if spelled.len() > 0 && text::has_prefix(below, spelled + seq!['/']) {
        ftp::joined_under(base, below.skip(spelled.len() as int))
    } else {
        ftp::joined_under(base, named)
    }
}

/// Resolves the path that a read goes to whose URI was recovered as `named`, rejecting `..` segments in the
/// base and in the path.
pub fn resolve_read_target(base: &str, named: &str) -> (res: Result<String, String>)
    ensures
        if ftp::has_parent_segment(base@) || ftp::has_parent_segment(named@) {
            res matches Err(message) && message@ == "path must not contain '..' segments"@
        } else {
            res matches Ok(path) && path@ == read_target(base@, named@)
        },
{
    if ftp::holds_parent_segment(base) || ftp::holds_parent_segment(named) {
        return Err("path must not contain '..' segments".to_owned());
    }
    proof {
        reveal_strlit(".");
        reveal_strlit("/");
        reveal_strlit("");
        assert("."@ =~= seq!['.']);
        assert("/"@ =~= seq!['/']);
        assert(""@ =~= Seq::empty());
    }
    let root = text::without_trailing(base, '/');
    let spelled = if text::same(root, ".") {
        ""
    } else {
        text::without_leading(root, '/')
    };
    let below = text::without_leading(named, '/');
    let start = text::joined(spelled, "/");
    if !spelled.is_empty() && text::starts_with(below, start.as_str()) {
        let rest = below.substring_char(spelled.unicode_len(), below.unicode_len());
        assert(rest@ =~= below@.skip(spelled@.len() as int));
        Ok(ftp::join_under(base, rest))
    } else {
        Ok(ftp::join_under(base, named))
    }
}

/// A listed file is read where it stands: a read of the path that a listing of
/// `base` gives for the file `name` goes to `name` under the base, whatever the
/// base, and whether or not the path has its leading slashes.
pub proof fn law_listed_path_is_read_in_place(base: Seq<char>, name: Seq<char>)
    ensures
        read_target(base, path_in_dir(base, name)) == ftp::joined_under(base, name),
        read_target(base, text::trim_start(path_in_dir(base, name), '/')) == ftp::joined_under(
            base,
            name,
        ),
{
    let root = text::trim_end(base, '/');
    let path = path_in_dir(base, name);
    let below = text::trim_start(path, '/');
    text::lemma_trimmed_start(path, '/');
    assert(text::trim_start(below, '/') == below);
    if root.len() > 0 && root != seq!['.'] {
        let spelled = spelled_base(base);
        let rest = seq!['/'] + name;
        text::lemma_trimmed_end(base, '/');
        text::lemma_trimming_stops(root, rest, '/');
        assert(path =~= root + rest);
        assert(below == spelled + rest);
        assert(below.subrange(0, (spelled.len() + 1) as int) =~= spelled + seq!['/']);
        assert(below.skip(spelled.len() as int) =~= rest);
        assert(rest.drop_first() =~= name);
        assert(text::trim_start(rest, '/') == text::trim_start(name, '/'));
    }
}

/// What a read goes to lies under the base, as a path that is joined under it does:
/// it is some path without `..` segments joined under the base.
pub proof fn lemma_read_target_is_joined(base: Seq<char>, named: Seq<char>) -> (rest: Seq<char>)
    requires
        !ftp::has_parent_segment(named),
    ensures
        !ftp::has_parent_segment(rest),
        read_target(base, named) == ftp::joined_under(base, rest),
{
    let spelled = spelled_base(base);
    let below = text::trim_start(named, '/');
    if spelled.len() > 0 && text::has_prefix(below, spelled + seq!['/']) {
        let rest = below.skip(spelled.len() as int);
        ftp::lemma_trimmed_start_has_no_parent_segment(named);
        assert(rest[0] == below.subrange(0, (spelled.len() + 1) as int)[spelled.len() as int]);
        assert forall|at: int| !ftp::parent_segment_at(rest, at) by {
            if ftp::parent_segment_at(rest, at) {
                assert(ftp::parent_segment_at(below, at + spelled.len()));
            }
        }
        rest
    } else {
        named
    }
}

/// One listed resource.
#[derive(Debug)]
pub struct ListedResource {
    pub uri: String,
    pub name: Option<String>,
    pub description: Option<String>,
    pub mime_type: Option<String>,
}

/// One page of listed resources.
#[derive(Debug)]
pub struct ResourcePage {
    pub resources: Vec<ListedResource>,
    pub next_cursor: Option<String>,
}

/// What a [`ListedResource`] says.
pub struct ListedResourceModel {
    pub uri: Seq<char>,
    pub name: Option<Seq<char>>,
    pub description: Option<Seq<char>>,
    pub mime_type: Option<Seq<char>>,
}

impl ListedResource {
    pub open spec fn model(self) -> ListedResourceModel {
        ListedResourceModel {
            uri: self.uri@,
            name: arguments::optional_chars(self.name),
            description: arguments::optional_chars(self.description),
            mime_type: arguments::optional_chars(self.mime_type),
        }
    }
}

impl ResourcePage {
    /// What the resources of the page say, in order.
    pub open spec fn models(self) -> Seq<ListedResourceModel> {
        Seq::new(self.resources@.len(), |i: int| self.resources@[i].model())
    }

    /// A page without resources.
    pub fn empty() -> (res: ResourcePage)
        ensures
            res.models().len() == 0,
            res.next_cursor is None,
    {
        ResourcePage { resources: Vec::new(), next_cursor: None }
    }
}

/// The name of a listing entry that is a file with a name that is not blank.
pub open spec fn file_name(entry: JsonModel) -> Option<Seq<char>> {
    match (entry.string_at("type"@), entry.string_at("name"@)) {
        (Some(kind), Some(name)) => if kind == "file"@ && !text::is_blank(name) {
            Some(name)
        } else {
            None
        },
        _ => None,
    }
}

/// The resource for the file `name` of size `size` in the directory `dir`.
pub open spec fn file_resource(
    name: Seq<char>,
    size: Option<u64>,
    dir: Seq<char>,
    template: Seq<char>,
) -> ListedResourceModel {
    ListedResourceModel {
        uri: filled_uri(template, path_in_dir(dir, name)),
        name: Some(name),
        description: match size {
            Some(n) => Some(text::decimal(n as nat) + " bytes"@),
            None => None,
        },
        mime_type: Some(media_type(lower_extension(name))),
    }
}

/// The resources of a listing: one for each file, in the order of the entries.
pub open spec fn file_resources(
    entries: Seq<JsonModel>,
    dir: Seq<char>,
    template: Seq<char>,
) -> Seq<ListedResourceModel>
    decreases entries.len(),
{
    if entries.len() == 0 {
        Seq::empty()
    } else {
        let before = file_resources(entries.drop_last(), dir, template);
        match file_name(entries.last()) {
            Some(name) => before.push(
                file_resource(name, entries.last().unsigned_at("size"@), dir, template),
            ),
            None => before,
        }
    }
}

/// Only files become resources: of the entries that a `LIST` line is projected to,
/// a directory, a symlink and a line that no parser read have none, and a file has
/// one unless its name is blank.
pub proof fn law_only_files_become_resources(file: ListedFileModel, line: Seq<char>)
    ensures
        file_name(ftp::parsed_entry(file)) == (if file.is_directory || file.is_symlink
            || text::is_blank(file.name) {
            None
        } else {
            Some(file.name)
        }),
        file_name(ftp::raw_entry(line)) is None,
{
    reveal_strlit("name");
    reveal_strlit("type");
    reveal_strlit("size");
    reveal_strlit("file");
    reveal_strlit("dir");
    reveal_strlit("symlink");
    reveal_strlit("unknown");
    assert("name"@[0] != "type"@[0] && "name"@[0] != "size"@[0] && "type"@[0] != "size"@[0]);
    assert("file"@.len() != "dir"@.len() && "file"@.len() != "symlink"@.len() && "file"@.len()
        != "unknown"@.len());
}

fn resource_for(entry: &Json, dir_path: &str, uri_template: &str) -> (res: Option<ListedResource>)
    ensures
        match file_name(entry.model()) {
            Some(name) => res matches Some(r) && r.model() == file_resource(
                name,
                entry.model().unsigned_at("size"@),
                dir_path@,
                uri_template@,
            ),
            None => res is None,
        },
{
    match entry.str_at("type") {
        Some(kind) => {
            if !text::same(kind, "file") {
                return None;
            }
        },
        None => {
            return None;
        },
    }
    let name = match entry.str_at("name") {
        Some(name) => name,
        None => {
            return None;
        },
    };
    if text::blank(name) {
        return None;
    }
    let full_path = join_dir(dir_path, name);
    let description = match entry.get("size") {
        Some(size) => match size.as_u64() {
            Some(n) => {
                let mut described = text::decimal_text(n as u128);
                described.append(" bytes");
                Some(described)
            },
            None => None,
        },
        None => None,
    };
    Some(
        ListedResource {
            uri: fill_uri_template(uri_template, full_path.as_str()),
            name: Some(name.to_owned()),
            description,
            mime_type: Some(mime_type_for(name).to_owned()),
        },
    )
}

/// Projects a directory listing into a page of resources: one per file, in the
/// order of the listing; other entries are skipped. The `uri` fills
/// `uri_template` with the file's path under `dir_path`, `name` is the filename,
/// the media type follows the extension, and the size goes into the description.
pub fn entries_to_resource_page(entries: &[Json], dir_path: &str, uri_template: &str) -> (res:
    ResourcePage)
    ensures
        res.models() == file_resources(json::items_model(entries@), dir_path@, uri_template@),
        res.next_cursor is None,
{
    let mut page = ResourcePage::empty();
    let ghost all = json::items_model(entries@);
    proof {
        json::lemma_items_model(entries@);
        assert(page.models() =~= file_resources(all.take(0), dir_path@, uri_template@));
    }
    let mut i: usize = 0;
    while i < entries.len()
        invariant
            i <= entries.len(),
            all == json::items_model(entries@),
            all.len() == entries@.len(),
            forall|j: int| 0 <= j < entries@.len() ==> #[trigger] all[j] == entries@[j].model(),
            page.models() == file_resources(all.take(i as int), dir_path@, uri_template@),
            page.next_cursor is None,
        decreases entries.len() - i,
    {
        let ghost before = page.models();
        proof {
            assert(all.take(i + 1).drop_last() =~= all.take(i as int));
            assert(all.take(i + 1).last() == entries@[i as int].model());
        }
        if let Some(resource) = resource_for(&entries[i], dir_path, uri_template) {
            page.resources.push(resource);
            assert(page.models() =~= before.push(resource.model()));
        }
        i += 1;
    }
    assert(all.take(all.len() as int) =~= all);
    page
}

/// The body of a `resources/read` for fetched `content`.
pub open spec fn contents_body(
    uri: Seq<char>,
    mime_type: Seq<char>,
    content: JsonModel,
) -> JsonModel {
    let described = map![
        "uri"@ => JsonModel::Str(uri),
        "mimeType"@ => JsonModel::Str(mime_type),
    ];
    let entry = match (content.string_at("text"@), content.string_at("base64"@)) {
        (Some(t), _) => described.insert("text"@, JsonModel::Str(t)),
        (None, Some(b)) => described.insert("blob"@, JsonModel::Str(b)),
        (None, None) => described.insert("text"@, JsonModel::Str(Seq::empty())),
    };
    JsonModel::Object(map!["contents"@ => JsonModel::Array(seq![JsonModel::Object(entry)])])
}

/// Wraps a fetched file's decoded content into the `resources/read` body
/// `{contents:[{uri, text|blob, mimeType}]}`: UTF-8 becomes a `text`, base64 a
/// `blob`, and content that is neither an empty `text`.
pub fn resource_contents_body(uri: &str, mime_type: &str, content: &Json) -> (res: Json)
    ensures
        res.model() == contents_body(uri@, mime_type@, content.model()),
{
    let mut entry: Vec<(String, Json)> = Vec::new();
    json::put(&mut entry, "uri", Json::text(uri));
    json::put(&mut entry, "mimeType", Json::text(mime_type));
    match content.str_at("text") {
        Some(t) => json::put(&mut entry, "text", Json::text(t)),
        None => match content.str_at("base64") {
            Some(b) => json::put(&mut entry, "blob", Json::text(b)),
            None => {
                proof {
                    reveal_strlit("");
                    assert(""@ =~= Seq::empty());
                }
                json::put(&mut entry, "text", Json::text(""))
            },
        },
    }
    let mut body: Vec<(String, Json)> = Vec::new();
    json::put(&mut body, "contents", json::array_of_one(Json::Object(entry)));
    Json::Object(body)
}

/// A file is read as `text` where its bytes are UTF-8, and as a base64 `blob`
/// otherwise; never as both.
pub proof fn law_read_body_is_text_or_blob(uri: Seq<char>, mime_type: Seq<char>, data: Seq<u8>)
    ensures
        ({
            let body = contents_body(uri, mime_type, ftp::content_model(data));
            &&& body.at("contents"@) matches Some(JsonModel::Array(items)) && {
                &&& items.len() == 1
                &&& items[0].string_at("uri"@) == Some(uri)
                &&& items[0].string_at("mimeType"@) == Some(mime_type)
                &&& if vstd::utf8::valid_utf8(data) {
                    &&& items[0].string_at("text"@) == Some(vstd::utf8::decode_utf8(data))
                    &&& items[0].at("blob"@) is None
                } else {
                    &&& items[0].string_at("blob"@) == Some(outside::base64_text(data))
                    &&& items[0].at("text"@) is None
                }
            }
        }),
{
    reveal_strlit("uri");
    reveal_strlit("mimeType");
    reveal_strlit("text");
    reveal_strlit("base64");
    reveal_strlit("blob");
    assert("text"@[0] != "blob"@[0] && "text"@.len() != "base64"@.len());
    assert("uri"@.len() != "text"@.len() && "mimeType"@.len() != "text"@.len() && "uri"@.len()
        != "blob"@.len() && "mimeType"@.len() != "blob"@.len() && "uri"@.len()
        != "mimeType"@.len());
}

/// The names in a listing that start with `prefix`, in the order of the entries.
pub open spec fn names_with_prefix(entries: Seq<JsonModel>, prefix: Seq<char>) -> Seq<Seq<char>>
    decreases entries.len(),
{
    if entries.len() == 0 {
        Seq::empty()
    } else {
        let before = names_with_prefix(entries.drop_last(), prefix);
        match entries.last().string_at("name"@) {
            Some(name) => if text::has_prefix(name, prefix) {
                before.push(name)
            } else {
                before
            },
            None => before,
        }
    }
}

/// The first `max` items of `names`, or all where there are fewer.
pub open spec fn at_most(names: Seq<Seq<char>>, max: nat) -> Seq<Seq<char>> {
    if names.len() <= max {
        names
    } else {
        names.take(max as int)
    }
}

/// The characters of each text.
pub open spec fn texts(v: Seq<String>) -> Seq<Seq<char>> {
    Seq::new(v.len(), |i: int| v[i]@)
}

proof fn lemma_names_with_prefix_grow(entries: Seq<JsonModel>, prefix: Seq<char>, i: int)
    requires
        0 <= i <= entries.len(),
    ensures
        names_with_prefix(entries.take(i), prefix).len() <= names_with_prefix(
            entries,
            prefix,
        ).len(),
        names_with_prefix(entries, prefix).take(
            names_with_prefix(entries.take(i), prefix).len() as int,
        ) == names_with_prefix(entries.take(i), prefix),
    decreases entries.len(),
{
    if i == entries.len() {
        assert(entries.take(i) =~= entries);
    } else {
        lemma_names_with_prefix_grow(entries.drop_last(), prefix, i);
        assert(entries.drop_last().take(i) =~= entries.take(i));
        let n = names_with_prefix(entries.take(i), prefix).len() as int;
        assert(names_with_prefix(entries, prefix).take(n) =~= names_with_prefix(
            entries.drop_last(),
            prefix,
        ).take(n));
    }
}

/// Completion keeps its word: no more than `max` candidates, and each of them a
/// listed name that starts with the typed prefix.
pub proof fn law_completions_are_listed_names(entries: Seq<JsonModel>, prefix: Seq<char>, max: nat)
    ensures
        ({
            let values = at_most(names_with_prefix(entries, prefix), max);
            &&& values.len() <= max
            &&& forall|i: int|
                0 <= i < values.len() ==> text::has_prefix(#[trigger] values[i], prefix)
                    && exists|j: int|
                    0 <= j < entries.len() && (#[trigger] entries[j]).string_at("name"@) == Some(
                        values[i],
                    )
        }),
    decreases entries.len(),
{
    let names = names_with_prefix(entries, prefix);
    if entries.len() > 0 {
        let before = names_with_prefix(entries.drop_last(), prefix);
        law_completions_are_listed_names(entries.drop_last(), prefix, before.len());
        assert forall|i: int| 0 <= i < names.len() implies text::has_prefix(
            #[trigger] names[i],
            prefix,
        ) && exists|j: int|
            0 <= j < entries.len() && (#[trigger] entries[j]).string_at("name"@) == Some(
                names[i],
            ) by {
            if i < before.len() {
                assert(names[i] == before[i]);
                let j = choose|j: int|
                    0 <= j < entries.drop_last().len() && (#[trigger] entries.drop_last()[j]).string_at(
                        "name"@,
                    ) == Some(before[i]);
                assert(entries[j].string_at("name"@) == Some(names[i]));
            } else {
                assert(entries[entries.len() - 1].string_at("name"@) == Some(names[i]));
            }
        }
    }
}

/// Completion candidates for the `{path}` template variable: the names in a
/// listing that start with `prefix`, files and directories alike, at most `max`.
pub fn entries_to_completion_values(entries: &[Json], prefix: &str, max: usize) -> (res: Vec<
    String,
>)
    ensures
        texts(res@) == at_most(
            names_with_prefix(json::items_model(entries@), prefix@),
            max as nat,
        ),
{
    let mut out: Vec<String> = Vec::new();
    let ghost all = json::items_model(entries@);
    proof {
        json::lemma_items_model(entries@);
        assert(texts(out@) =~= names_with_prefix(all.take(0), prefix@));
    }
    let mut i: usize = 0;
    while i < entries.len()
        invariant
            i <= entries.len(),
            all == json::items_model(entries@),
            all.len() == entries@.len(),
            forall|j: int| 0 <= j < entries@.len() ==> #[trigger] all[j] == entries@[j].model(),
            texts(out@) == names_with_prefix(all.take(i as int), prefix@),
            out@.len() <= max,
        decreases entries.len() - i,
    {
        if out.len() >= max {
            proof {
                lemma_names_with_prefix_grow(all, prefix@, i as int);
            }
            return out;
        }
        let ghost before = texts(out@);
        proof {
            assert(all.take(i + 1).drop_last() =~= all.take(i as int));
            assert(all.take(i + 1).last() == entries@[i as int].model());
        }
        if let Some(name) = entries[i].str_at("name") {
            if text::starts_with(name, prefix) {
                out.push(name.to_owned());
                assert(texts(out@) =~= before.push(name@));
            }
        }
        i += 1;
    }
    assert(all.take(all.len() as int) =~= all);
    out
}

} // verus!
