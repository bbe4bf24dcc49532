//! What the operations are for, from what goes in to what comes out.
//!
//! Each law speaks of paths, bytes, names and JSON as they are handed in and handed
//! out, for all of them.
use crate::arguments;
use crate::arguments::{CallArguments, CallArgumentsModel};
use crate::audit;
use crate::audit::PluginIdentity;
use crate::backend;
use crate::backend::FtpBackendPlugin;
use crate::call;
use crate::call::{CallFailure, CallPlan, FtpProfile};
use crate::envelope::FtpOutcome;
use crate::ftp;
use crate::json;
use crate::json::{Json, JsonModel, Number, NumberModel};
use crate::lines;
use crate::manifest::PluginClass;
use crate::outside;
use crate::outside::{ListedFile, ListedFileModel, PosixReading};
use crate::session;
use crate::session::{FileOp, FileOpModel, Next, Step};
use crate::surface;
use crate::surface::{ListedResource, ListedResourceModel, ResourcePage, Surface};
use crate::text;
use crate::types::{FtpBackendSpec, FtpOp};
use crate::watch;
use crate::watch::WatchSpec;
use vstd::prelude::*;

verus! {

/// `n` slashes.
pub open spec fn slashes(n: nat) -> Seq<char> {
    text::repeated('/', n)
}

/// A `..` between the ends of a path or slashes is a parent segment, and there is no
/// other.
pub proof fn law_parent_segment_is_dots_between_slashes(
    path: Seq<char>,
    before: Seq<char>,
    after: Seq<char>,
)
    requires
        before.len() == 0 || before.last() == '/',
        after.len() == 0 || after[0] == '/',
    ensures
        ftp::has_parent_segment(before + seq!['.', '.'] + after),
        ftp::has_parent_segment(path) ==> exists|at: int|
            {
                &&& 0 <= at <= path.len() - 2
                &&& path == #[trigger] path.take(at) + seq!['.', '.'] + path.skip(at + 2)
                &&& at == 0 || path[at - 1] == '/'
                &&& at + 2 == path.len() || path[at + 2] == '/'
            },
{
    let whole = before + seq!['.', '.'] + after;
    let n = before.len() as int;
    assert(whole[n] == '.' && whole[n + 1] == '.');
    assert(n > 0 ==> whole[n - 1] == before.last());
    assert(after.len() > 0 ==> whole[n + 2] == after[0]);
    assert(ftp::parent_segment_at(whole, n));
    if ftp::has_parent_segment(path) {
        let at = choose|at: int| ftp::parent_segment_at(path, at);
        assert(path =~= path.take(at) + seq!['.', '.'] + path.skip(at + 2));
    }
}

/// A path is joined under a base with one slash between: trailing slashes of the base
/// and leading slashes of the path do not count. A blank base is no base at all, and
/// an empty path is the base itself.
pub proof fn law_path_is_joined_with_one_slash(
    root: Seq<char>,
    m: nat,
    n: nat,
    below: Seq<char>,
)
    requires
        root.len() == 0 || root.last() != '/',
        below.len() == 0 || below[0] != '/',
    ensures
        ({
            let base = root + slashes(m);
            let path = ftp::joined_under(base, slashes(n) + below);
            if text::is_blank(base) {
                path == if below.len() == 0 {
                    seq!['.']
                } else {
                    below
                }
            } else {
                path == if below.len() == 0 {
                    root
                } else {
                    root + seq!['/'] + below
                }
            }
        }),
{
    text::law_trim_end_takes_the_trailing('/', m, root);
    text::law_trim_start_takes_the_leading('/', n, below);
}

/// What a tool call asks of the server, whatever the operation, is the path that the
/// caller names under the base: the base, a slash, and the caller's path, or the
/// caller's path alone under a blank base. Where the caller names none, that is the
/// base.
pub proof fn law_tool_call_acts_on_the_named_path(
    profile: FtpProfile,
    args: CallArgumentsModel,
    root: Seq<char>,
    m: nat,
    n: nat,
    below: Seq<char>,
)
    requires
        profile.surface == Surface::Tool,
        profile.base_path@ == root + slashes(m),
        root.len() == 0 || root.last() != '/',
        below.len() == 0 || below[0] != '/',
        args.path == Some(slashes(n) + below) || (args.path is None && n == 0 && below.len() == 0),
        call::planned_work(profile, args) is Ok,
    ensures
        ({
            let asked = call::planned_work(profile, args)->Ok_0.path();
            if text::is_blank(profile.base_path@) {
                asked == if below.len() == 0 {
                    seq!['.']
                } else {
                    below
                }
            } else {
                asked == if below.len() == 0 {
                    root
                } else {
                    root + seq!['/'] + below
                }
            }
        }),
{
    law_path_is_joined_with_one_slash(root, m, n, below);
    if args.path is None {
        assert(slashes(n) + below =~= Seq::empty());
    }
}

/// A tool call is planned as its binding's operation: a listing, a read of at most the
/// cap, or a write of the very bytes that the arguments stand for. It is refused only
/// where a read or a write names no path, where the path has a `..` segment, and where
/// a write has nothing to write or more than the cap, and then for that reason.
pub proof fn law_tool_call_is_its_operation(profile: FtpProfile, args: CallArgumentsModel)
    requires
        profile.surface == Surface::Tool,
    ensures
        ({
            let named = match args.path {
                Some(path) => path,
                None => Seq::empty(),
            };
            let content = match (args.content, args.text) {
                (Some(encoded), _) => match outside::base64_bytes(encoded) {
                    Ok(bytes) => Some(bytes),
                    Err(_) => None,
                },
                (None, Some(t)) => Some(vstd::utf8::encode_utf8(t)),
                (None, None) => None,
            };
            let work = call::planned_work(profile, args);
            if profile.op != FtpOp::List && text::is_blank(named) {
                work == Err::<FileOpModel, Seq<char>>(
                    "op '"@ + (if profile.op == FtpOp::Get {
                        "get"@
                    } else {
                        "put"@
                    }) + "' requires a 'path' argument"@,
                )
            } else if ftp::has_parent_segment(named) {
                work == Err::<FileOpModel, Seq<char>>("path must not contain '..' segments"@)
            } else {
                match profile.op {
                    FtpOp::List => work matches Ok(FileOpModel::List { path }),
                    FtpOp::Get => work matches Ok(FileOpModel::Get { path, max_bytes })
                        && max_bytes == profile.max_bytes,
                    FtpOp::Put => match content {
                        Some(bytes) => if bytes.len() <= profile.max_bytes {
                            work matches Ok(FileOpModel::Put { path, content: written }) && written
                                == bytes
                        } else {
                            work == Err::<FileOpModel, Seq<char>>(
                                "content"@ + " exceeds max_bytes ("@ + text::decimal(
                                    profile.max_bytes as nat,
                                ) + ")"@,
                            )
                        },
                        None => work matches Err(problem) && call::put_content(args) == Err::<
                            Seq<u8>,
                            Seq<char>,
                        >(problem),
                    },
                }
            }
        }),
{
}

/// A planned write writes exactly the bytes that its arguments stand for: those that
/// `content` stands for in base64, or, with `text` alone, the UTF-8 of that text.
pub proof fn law_put_writes_the_bytes_handed_in(profile: FtpProfile, args: CallArgumentsModel)
    requires
        call::planned_work(profile, args) matches Ok(FileOpModel::Put { path, content }),
    ensures
        call::planned_work(profile, args) matches Ok(FileOpModel::Put { path, content }) && {
            &&& call::put_content(args) == Ok::<Seq<u8>, Seq<char>>(content)
            &&& args.content matches Some(encoded) ==> outside::base64_bytes(encoded) == Ok::<
                Seq<u8>,
                Seq<char>,
            >(content)
            &&& args.content is None ==> args.text is Some && content == vstd::utf8::encode_utf8(
                args.text->0,
            )
        },
{
}

/// Why there is nothing to write: the base64 is not valid, or nothing was handed in.
pub proof fn law_put_without_content_says_why(args: CallArgumentsModel)
    ensures
        args.content matches Some(encoded) ==> match outside::base64_bytes(encoded) {
            Ok(bytes) => call::put_content(args) == Ok::<Seq<u8>, Seq<char>>(bytes),
            Err(reason) => call::put_content(args) == Err::<Seq<u8>, Seq<char>>(
                "'content' is not valid base64: "@ + reason,
            ),
        },
        args.content is None && args.text is None ==> call::put_content(args) == Err::<
            Seq<u8>,
            Seq<char>,
        >("put requires a 'content' (base64) or 'text' argument"@),
{
}

/// A resource call reads the file that it names, by the URI before the path, and
/// nothing else: it is refused only where neither names a file, and where the path or
/// the base has a `..` segment.
pub proof fn law_resource_call_reads_the_named_file(
    profile: FtpProfile,
    args: CallArgumentsModel,
)
    requires
        profile.surface == Surface::Resource,
    ensures
        ({
            let work = call::planned_work(profile, args);
            let base = profile.base_path@;
            let by_uri = match args.uri {
                Some(uri) => surface::recovered_path(profile.uri_template@, uri),
                None => None,
            };
            if by_uri is Some && !text::is_blank(by_uri->0) {
                &&& call::path_argument(profile, args) == by_uri->0
                &&& ftp::has_parent_segment(base) || ftp::has_parent_segment(by_uri->0) ==> work
                    == Err::<FileOpModel, Seq<char>>("path must not contain '..' segments"@)
                &&& !ftp::has_parent_segment(base) && !ftp::has_parent_segment(by_uri->0) ==> work
                    == Ok::<FileOpModel, Seq<char>>(
                    FileOpModel::Get {
                        path: surface::read_target(base, by_uri->0),
                        max_bytes: profile.max_bytes,
                    },
                )
            } else if args.path is Some && !text::is_blank(args.path->0) {
                &&& call::path_argument(profile, args) == args.path->0
                &&& ftp::has_parent_segment(base) || ftp::has_parent_segment(args.path->0) ==> work
                    == Err::<FileOpModel, Seq<char>>("path must not contain '..' segments"@)
                &&& !ftp::has_parent_segment(base) && !ftp::has_parent_segment(args.path->0)
                    ==> work == Ok::<FileOpModel, Seq<char>>(
                    FileOpModel::Get {
                        path: ftp::joined_under(base, args.path->0),
                        max_bytes: profile.max_bytes,
                    },
                )
            } else {
                work == Err::<FileOpModel, Seq<char>>(
                    "resource surface requires a resolvable `uri` (or `path`) to read"@,
                )
            }
        }),
{
    let named = call::path_argument(profile, args);
    if named.len() > 0 {
    } else {
        assert(text::is_blank(named));
    }
}

/// A path recovered from a URI that spells the base out is read in that base, once;
/// one that does not is joined under the base.
pub proof fn law_recovered_path_names_the_base_once(
    lead: nat,
    spelled: Seq<char>,
    trail: nat,
    n: nat,
    below: Seq<char>,
    other: Seq<char>,
)
    requires
        spelled.len() > 0,
        spelled[0] != '/',
        spelled.last() != '/',
        lead > 0 || spelled != seq!['.'],
        !text::is_blank(slashes(lead) + spelled + slashes(trail)),
        below.len() > 0,
        below[0] != '/',
        other.len() > 0,
        other[0] != '/',
        !text::has_prefix(other, spelled + seq!['/']),
    ensures
        ({
            let base = slashes(lead) + spelled + slashes(trail);
            let root = slashes(lead) + spelled;
            &&& surface::read_target(base, slashes(n) + spelled + seq!['/'] + below) == root + seq![
                '/',
            ] + below
            &&& surface::read_target(base, slashes(n) + other) == root + seq!['/'] + other
        }),
{
    let base = slashes(lead) + spelled + slashes(trail);
    let root = slashes(lead) + spelled;
    assert(root.last() == spelled.last());
    text::law_trim_end_takes_the_trailing('/', trail, root);
    text::law_trim_start_takes_the_leading('/', lead, spelled);
    if lead > 0 {
        assert(root[0] == '/');
    } else {
        assert(root =~= spelled);
    }
    assert(root != seq!['.']) by {
        if root == seq!['.'] {
            assert(root[0] == '.');
        }
    }
    assert(surface::spelled_base(base) == spelled);
    let tail = spelled + seq!['/'] + below;
    assert(tail[0] == spelled[0]);
    text::law_trim_start_takes_the_leading('/', n, tail);
    assert(slashes(n) + spelled + seq!['/'] + below =~= slashes(n) + tail);
    assert(tail.subrange(0, (spelled.len() + 1) as int) =~= spelled + seq!['/']);
    assert(tail.skip(spelled.len() as int) =~= slashes(1) + below);
    law_path_is_joined_with_one_slash(root, trail, 1, below);
    text::law_trim_start_takes_the_leading('/', n, other);
    law_path_is_joined_with_one_slash(root, trail, n, other);
}

/// A read within the cap is the whole file, and one over the cap is none of it.
pub proof fn law_read_within_the_cap_is_whole(buffer: Seq<u8>, max_bytes: nat)
    ensures
        buffer.len() <= max_bytes ==> ftp::kept_under_cap(buffer, max_bytes) == Some(buffer),
        buffer.len() > max_bytes ==> ftp::kept_under_cap(buffer, max_bytes) is None,
{
}

/// A template with one placeholder stands around the path: filling it puts the path,
/// without its leading slashes, in the place of the placeholder, and the URI gives that
/// path back, unless it is empty.
pub proof fn law_template_stands_around_the_path(
    before: Seq<char>,
    after: Seq<char>,
    n: nat,
    path: Seq<char>,
)
    requires
        forall|j: int|
            0 <= j < before.len() ==> !text::occurs_at(
                before + "{path}"@ + after,
                "{path}"@,
                j,
            ),
        !text::contains(after, "{path}"@),
        path.len() == 0 || path[0] != '/',
    ensures
        ({
            let template = before + "{path}"@ + after;
            let uri = surface::filled_uri(template, slashes(n) + path);
            &&& uri == before + path + after
            &&& path.len() > 0 ==> surface::recovered_path(template, uri) == Some(path)
        }),
{
    text::lemma_nothing_to_replace(after, "{path}"@, path);
    law_uri_is_recovered_between_the_fixed_parts(before, after, n, path, path);
}

/// Whatever follows the first placeholder of a template, a URI is recovered as what
/// stands between the template's fixed parts, and filling fills every placeholder.
pub proof fn law_uri_is_recovered_between_the_fixed_parts(
    before: Seq<char>,
    after: Seq<char>,
    n: nat,
    path: Seq<char>,
    uri: Seq<char>,
)
    requires
        forall|j: int|
            0 <= j < before.len() ==> !text::occurs_at(
                before + "{path}"@ + after,
                "{path}"@,
                j,
            ),
        path.len() == 0 || path[0] != '/',
    ensures
        ({
            let template = before + "{path}"@ + after;
            &&& surface::filled_uri(template, slashes(n) + path) == before + path
                + text::replace_all(after, "{path}"@, path)
            &&& uri.len() > 0 ==> surface::recovered_path(template, before + uri + after) == Some(
                uri,
            )
            &&& surface::recovered_path(template, uri) matches Some(found) ==> found.len() > 0
                && uri == before + found + after
        }),
{
    reveal_strlit("{path}");
    let template = before + "{path}"@ + after;
    text::law_leftmost_is_split_and_replaced(before, "{path}"@, after, path);
    text::law_trim_start_takes_the_leading('/', n, path);
    let shaped = before + uri + after;
    text::law_prefix_is_what_it_starts_with(uri, before, uri + after);
    assert(shaped =~= before + (uri + after));
    let body = shaped.skip(before.len() as int);
    assert(body =~= uri + after);
    assert(body.subrange(body.len() - after.len(), body.len() as int) =~= after);
    assert(body.take(body.len() - after.len()) =~= uri);
    if surface::recovered_path(template, uri) is Some {
        let found = surface::recovered_path(template, uri)->0;
        assert(uri.skip(before.len() as int) =~= found + after);
        assert(uri =~= before + found + after);
    }
}

/// The file of a read is the one that its URI is recovered as, or else the one that the
/// `path` argument names, where they are not blank.
pub proof fn law_read_prefers_the_uri(template: Seq<char>, args: CallArgumentsModel)
    ensures
        ({
            let by_uri = match args.uri {
                Some(uri) => surface::recovered_path(template, uri),
                None => None,
            };
            surface::read_path(template, args) == if by_uri is Some && !text::is_blank(
                by_uri->0,
            ) {
                by_uri
            } else if args.path is Some && !text::is_blank(args.path->0) {
                args.path
            } else {
                None
            }
        }),
{
}

/// The path of a file in a listed directory: the directory without its trailing
/// slashes, a slash, and the name; the bare name where the directory is the login's
/// or the root.
pub proof fn law_listed_file_stands_in_its_directory(root: Seq<char>, n: nat, name: Seq<char>)
    requires
        root.len() == 0 || root.last() != '/',
    ensures
        surface::path_in_dir(root + slashes(n), name) == if root.len() == 0 || root == seq!['.'] {
            name
        } else {
            root + seq!['/'] + name
        },
{
    text::law_trim_end_takes_the_trailing('/', n, root);
}

/// The extension of a name is what follows its last dot, in small letters, and a name
/// without a dot has none.
pub proof fn law_extension_follows_the_last_dot(stem: Seq<char>, extension: Seq<char>)
    requires
        forall|i: int| 0 <= i < extension.len() ==> extension[i] != '.',
    ensures
        surface::lower_extension(stem + seq!['.'] + extension) == text::ascii_lower(extension),
        surface::lower_extension(extension) == Seq::<char>::empty(),
{
    text::law_behind_the_last(stem, '.', extension);
}

/// The media types, by extension, and no other.
pub proof fn law_media_types(e: Seq<char>)
    ensures
        e == "txt"@ || e == "log"@ || e == "text"@ ==> surface::media_type(e) == "text/plain"@,
        e == "csv"@ ==> surface::media_type(e) == "text/csv"@,
        e == "tsv"@ ==> surface::media_type(e) == "text/tab-separated-values"@,
        e == "json"@ ==> surface::media_type(e) == "application/json"@,
        e == "ndjson"@ || e == "jsonl"@ ==> surface::media_type(e) == "application/x-ndjson"@,
        e == "xml"@ ==> surface::media_type(e) == "application/xml"@,
        e == "yaml"@ || e == "yml"@ ==> surface::media_type(e) == "application/yaml"@,
        e == "html"@ || e == "htm"@ ==> surface::media_type(e) == "text/html"@,
        e == "md"@ || e == "markdown"@ ==> surface::media_type(e) == "text/markdown"@,
        e == "pdf"@ ==> surface::media_type(e) == "application/pdf"@,
        e == "zip"@ ==> surface::media_type(e) == "application/zip"@,
        e == "gz"@ || e == "gzip"@ ==> surface::media_type(e) == "application/gzip"@,
        e == "png"@ ==> surface::media_type(e) == "image/png"@,
        e == "jpg"@ || e == "jpeg"@ ==> surface::media_type(e) == "image/jpeg"@,
        e == "gif"@ ==> surface::media_type(e) == "image/gif"@,
        e == "parquet"@ ==> surface::media_type(e) == "application/vnd.apache.parquet"@,
        e != "txt"@ && e != "log"@ && e != "text"@ && e != "csv"@ && e != "tsv"@ && e != "json"@ && e
            != "ndjson"@ && e != "jsonl"@ && e != "xml"@ && e != "yaml"@ && e != "yml"@ && e
            != "html"@ && e != "htm"@ && e != "md"@ && e != "markdown"@ && e != "pdf"@ && e
            != "zip"@ && e != "gz"@ && e != "gzip"@ && e != "png"@ && e != "jpg"@ && e != "jpeg"@
            && e != "gif"@ && e != "parquet"@ ==> surface::media_type(e)
            == "application/octet-stream"@,
{
    reveal_strlit("txt");
    reveal_strlit("log");
    reveal_strlit("text");
    reveal_strlit("csv");
    reveal_strlit("tsv");
    reveal_strlit("json");
    reveal_strlit("ndjson");
    reveal_strlit("jsonl");
    reveal_strlit("xml");
    reveal_strlit("yaml");
    reveal_strlit("yml");
    reveal_strlit("html");
    reveal_strlit("htm");
    reveal_strlit("md");
    reveal_strlit("markdown");
    reveal_strlit("pdf");
    reveal_strlit("zip");
    reveal_strlit("gz");
    reveal_strlit("gzip");
    reveal_strlit("png");
    reveal_strlit("jpg");
    reveal_strlit("jpeg");
    reveal_strlit("gif");
    reveal_strlit("parquet");
    let (l, a, b, c) = (e.len(), e[0], e[1], e[2]);
    assert(e == "txt"@ ==> l == 3 && a == 't' && b == 'x');
    assert(e == "log"@ ==> l == 3 && a == 'l');
    assert(e == "text"@ ==> l == 4 && a == 't');
    assert(e == "csv"@ ==> l == 3 && a == 'c');
    assert(e == "tsv"@ ==> l == 3 && a == 't' && b == 's');
    assert(e == "json"@ ==> l == 4 && a == 'j' && b == 's');
    assert(e == "ndjson"@ ==> l == 6);
    assert(e == "jsonl"@ ==> l == 5);
    assert(e == "xml"@ ==> l == 3 && a == 'x');
    assert(e == "yaml"@ ==> l == 4 && a == 'y');
    assert(e == "yml"@ ==> l == 3 && a == 'y');
    assert(e == "html"@ ==> l == 4 && a == 'h');
    assert(e == "htm"@ ==> l == 3 && a == 'h');
    assert(e == "md"@ ==> l == 2 && a == 'm');
    assert(e == "markdown"@ ==> l == 8);
    assert(e == "pdf"@ ==> l == 3 && a == 'p' && b == 'd');
    assert(e == "zip"@ ==> l == 3 && a == 'z');
    assert(e == "gz"@ ==> l == 2 && a == 'g');
    assert(e == "gzip"@ ==> l == 4 && a == 'g');
    assert(e == "png"@ ==> l == 3 && a == 'p' && b == 'n');
    assert(e == "jpg"@ ==> l == 3 && a == 'j');
    assert(e == "jpeg"@ ==> l == 4 && a == 'j' && b == 'p');
    assert(e == "gif"@ ==> l == 3 && a == 'g');
    assert(e == "parquet"@ ==> l == 7);
}

/// A field is found under its key, and nothing is found in what is no object.
pub proof fn law_fields_are_found(fields: Map<Seq<char>, JsonModel>, key: Seq<char>, v: JsonModel)
    ensures
        ({
            let object = JsonModel::Object(fields);
            &&& fields.contains_key(key) ==> object.at(key) == Some(fields[key])
            &&& !fields.contains_key(key) ==> object.at(key) is None
            &&& object.string_at(key) == match object.at(key) {
                Some(JsonModel::Str(s)) => Some(s),
                _ => None,
            }
            &&& object.unsigned_at(key) == match object.at(key) {
                Some(JsonModel::Number(NumberModel::Unsigned(n))) => Some(n),
                _ => None,
            }
        }),
        !(v is Object) ==> v.at(key) is None && v.string_at(key) is None && v.unsigned_at(
            key,
        ) is None,
{
}

/// An object has the keys that it lists, each with the value that it lists last: one
/// more field puts its value under its key, and leaves the others.
pub proof fn law_last_field_counts(fields: Seq<(String, Json)>, field: (String, Json))
    ensures
        json::fields_model(Seq::empty()) == Map::<Seq<char>, JsonModel>::empty(),
        json::fields_model(fields.push(field)) == json::fields_model(fields).insert(
            field.0@,
            field.1.model(),
        ),
{
    assert(fields.push(field).drop_last() =~= fields);
}

/// A listing is made into resources piece by piece: the resources of two listings
/// together are those of the one followed by those of the other.
pub proof fn law_resources_of_a_listing_in_pieces(
    a: Seq<JsonModel>,
    b: Seq<JsonModel>,
    dir: Seq<char>,
    template: Seq<char>,
)
    ensures
        surface::file_resources(a + b, dir, template) == surface::file_resources(a, dir, template)
            + surface::file_resources(b, dir, template),
        surface::file_resources(Seq::empty(), dir, template) == Seq::<
            ListedResourceModel,
        >::empty(),
    decreases b.len(),
{
    if b.len() == 0 {
        assert(a + b =~= a);
        assert(surface::file_resources(a, dir, template) + surface::file_resources(
            b,
            dir,
            template,
        ) =~= surface::file_resources(a, dir, template));
    } else {
        law_resources_of_a_listing_in_pieces(a, b.drop_last(), dir, template);
        assert((a + b).drop_last() =~= a + b.drop_last());
        assert((a + b).last() == b.last());
        assert(surface::file_resources(a + b, dir, template) =~= surface::file_resources(
            a,
            dir,
            template,
        ) + surface::file_resources(b, dir, template));
    }
}

/// An entry that is a file with a name that is not blank has one resource: its URI is
/// the template filled with the file's path in the directory, its name the file's
/// name, its description the size where that is a whole number, and its media type
/// that of the extension. Any other entry has none.
pub proof fn law_resource_of_an_entry(entry: JsonModel, dir: Seq<char>, template: Seq<char>)
    ensures
        ({
            let resources = surface::file_resources(seq![entry], dir, template);
            match entry {
                JsonModel::Object(fields) => if fields.contains_key("type"@) && fields["type"@]
                    == JsonModel::Str("file"@) && fields.contains_key("name"@)
                    && fields["name"@] is Str && !text::is_blank(fields["name"@]->Str_0) {
                    let name = fields["name"@]->Str_0;
                    &&& resources.len() == 1
                    &&& resources[0].uri == surface::filled_uri(
                        template,
                        surface::path_in_dir(dir, name),
                    )
                    &&& resources[0].name == Some(name)
                    &&& resources[0].mime_type == Some(
                        surface::media_type(surface::lower_extension(name)),
                    )
                    &&& resources[0].description == match fields["size"@] {
                        JsonModel::Number(NumberModel::Unsigned(n)) => if fields.contains_key(
                            "size"@,
                        ) {
                            Some(text::decimal(n as nat) + " bytes"@)
                        } else {
                            None
                        },
                        _ => None,
                    }
                } else {
                    resources.len() == 0
                },
                _ => resources.len() == 0,
            }
        }),
{
    assert(seq![entry].drop_last() =~= Seq::empty());
    assert(seq![entry].last() == entry);
    reveal_with_fuel(surface::file_resources, 2);
}

/// Every listed file has its resource, in the order of the listing, and there are no
/// others: there are as many as there are files, and each file is among them under its
/// name and its own URI.
pub proof fn law_every_listed_file_has_its_resource(
    entries: Seq<JsonModel>,
    dir: Seq<char>,
    template: Seq<char>,
)
    ensures
        ({
            let resources = surface::file_resources(entries, dir, template);
            let files = entries.filter(|e: JsonModel| surface::file_name(e) is Some);
            &&& resources.len() == files.len()
            &&& forall|k: int|
                0 <= k < files.len() ==> {
                    let name = surface::file_name(files[k])->0;
                    &&& (#[trigger] resources[k]).name == Some(name)
                    &&& resources[k].uri == surface::filled_uri(
                        template,
                        surface::path_in_dir(dir, name),
                    )
                }
            &&& forall|j: int|
                0 <= j < entries.len() && surface::file_name(#[trigger] entries[j]) is Some
                    ==> exists|k: int|
                    0 <= k < resources.len() && (#[trigger] resources[k]).name
                        == surface::file_name(entries[j])
        }),
    decreases entries.len(),
{
    reveal(Seq::filter);
    let is_file = |e: JsonModel| surface::file_name(e) is Some;
    let resources = surface::file_resources(entries, dir, template);
    if entries.len() > 0 {
        let before = entries.drop_last();
        law_every_listed_file_has_its_resource(before, dir, template);
        let earlier = surface::file_resources(before, dir, template);
        assert forall|j: int|
            0 <= j < entries.len() && surface::file_name(
                #[trigger] entries[j],
            ) is Some implies exists|k: int|
            0 <= k < resources.len() && (#[trigger] resources[k]).name == surface::file_name(
                entries[j],
            ) by {
            if j < before.len() {
                assert(before[j] == entries[j]);
                let k = choose|k: int|
                    0 <= k < earlier.len() && (#[trigger] earlier[k]).name == surface::file_name(
                        before[j],
                    );
                assert(resources[k] == earlier[k]);
            } else {
                assert(resources[resources.len() - 1].name == surface::file_name(entries[j]));
            }
        }
    }
}

/// Completion goes through a listing piece by piece, and takes the name of an entry if
/// and only if it starts with the typed prefix.
pub proof fn law_completion_takes_every_match(
    a: Seq<JsonModel>,
    b: Seq<JsonModel>,
    entry: JsonModel,
    prefix: Seq<char>,
)
    ensures
        surface::names_with_prefix(a + b, prefix) == surface::names_with_prefix(a, prefix)
            + surface::names_with_prefix(b, prefix),
        surface::names_with_prefix(Seq::empty(), prefix) == Seq::<Seq<char>>::empty(),
        surface::names_with_prefix(seq![entry], prefix) == match entry.string_at("name"@) {
            Some(name) => if text::has_prefix(name, prefix) {
                seq![name]
            } else {
                Seq::empty()
            },
            None => Seq::empty(),
        },
    decreases b.len(),
{
    assert(seq![entry].drop_last() =~= Seq::empty());
    assert(seq![entry].last() == entry);
    reveal_with_fuel(surface::names_with_prefix, 2);
    if b.len() == 0 {
        assert(a + b =~= a);
        assert(surface::names_with_prefix(a, prefix) + surface::names_with_prefix(b, prefix)
            =~= surface::names_with_prefix(a, prefix));
    } else {
        law_completion_takes_every_match(a, b.drop_last(), entry, prefix);
        assert((a + b).drop_last() =~= a + b.drop_last());
        assert((a + b).last() == b.last());
        assert(surface::names_with_prefix(a + b, prefix) =~= surface::names_with_prefix(a, prefix)
            + surface::names_with_prefix(b, prefix));
    }
}

/// What is cut to a number of items is all of them, or the first that many.
pub proof fn law_cut_keeps_the_first(names: Seq<Seq<char>>, max: nat)
    ensures
        names.len() <= max ==> surface::at_most(names, max) == names,
        names.len() > max ==> surface::at_most(names, max).len() == max,
        forall|i: int|
            0 <= i < max && i < names.len() ==> #[trigger] surface::at_most(names, max)[i]
                == names[i],
{
}

/// The content of a file is its text where the bytes are UTF-8, and its base64
/// otherwise, and nothing besides; and it stands for those bytes.
pub proof fn law_content_is_text_or_base64(data: Seq<u8>, content: JsonModel)
    ensures
        vstd::utf8::valid_utf8(data) ==> ftp::content_model(data) == JsonModel::Object(
            map!["text"@ => JsonModel::Str(vstd::utf8::decode_utf8(data))],
        ),
        !vstd::utf8::valid_utf8(data) ==> ftp::content_model(data) == JsonModel::Object(
            map!["base64"@ => JsonModel::Str(outside::base64_text(data))],
        ),
        content.string_at("text"@) matches Some(t) ==> ftp::content_bytes(content) == Some(
            vstd::utf8::encode_utf8(t),
        ),
        content.string_at("text"@) is None ==> match content.string_at("base64"@) {
            Some(b) => match outside::base64_bytes(b) {
                Ok(bytes) => ftp::content_bytes(content) == Some(bytes),
                Err(_) => ftp::content_bytes(content) is None,
            },
            None => ftp::content_bytes(content) is None,
        },
{
}

/// A file that was fetched on the resource surface is answered with one item that
/// stands for exactly its bytes: as `text` where they are UTF-8, and as a base64
/// `blob` otherwise, never as both; under the URI that the template makes of the path
/// that was asked for, and with the media type of its extension.
pub proof fn law_resource_read_is_answered_with_the_file(
    plan: CallPlan,
    outcome: FtpOutcome,
    data: Seq<u8>,
    duration_ms: u64,
)
    requires
        plan.profile.surface == Surface::Resource,
        outcome.content is Some,
        outcome.content->0.model() == ftp::content_model(data),
    ensures
        ({
            let item = map![
                "uri"@ => JsonModel::Str(
                    surface::filled_uri(plan.profile.uri_template@, plan.path_arg@),
                ),
                "mimeType"@ => JsonModel::Str(
                    surface::media_type(surface::lower_extension(plan.path_arg@)),
                ),
            ];
            call::answer(plan, Ok::<FtpOutcome, CallFailure>(outcome), duration_ms)
                == JsonModel::Object(
                map![
                    "contents"@ => JsonModel::Array(
                        seq![
                            JsonModel::Object(
                                if vstd::utf8::valid_utf8(data) {
                                    item.insert(
                                        "text"@,
                                        JsonModel::Str(vstd::utf8::decode_utf8(data)),
                                    )
                                } else {
                                    item.insert(
                                        "blob"@,
                                        JsonModel::Str(outside::base64_text(data)),
                                    )
                                },
                            ),
                        ],
                    ),
                ],
            )
        }),
{
    reveal_strlit("text");
    reveal_strlit("base64");
    assert("text"@.len() != "base64"@.len());
}

/// What a tool call is answered with: who was asked for what, the entries and their
/// number, the content and its size, or the number of bytes written, each where the
/// operation gave it and null where it did not, how long it took, and no error.
pub proof fn law_tool_call_is_answered_with_its_outcome(
    plan: CallPlan,
    outcome: FtpOutcome,
    duration_ms: u64,
)
    requires
        plan.profile.surface == Surface::Tool,
    ensures
        call::answer(plan, Ok::<FtpOutcome, CallFailure>(outcome), duration_ms)
            == JsonModel::Object(
            map![
                "toolName"@ => JsonModel::Str(plan.tool_name@),
                "profile"@ => JsonModel::Str(plan.backend_name@),
                "request"@ => JsonModel::Object(
                    map![
                        "op"@ => JsonModel::Str(
                            match plan.profile.op {
                                FtpOp::List => "list"@,
                                FtpOp::Get => "get"@,
                                FtpOp::Put => "put"@,
                            },
                        ),
                        "host"@ => JsonModel::Str(plan.profile.conn.host@),
                        "path"@ => JsonModel::Str(plan.path_arg@),
                    ],
                ),
                "response"@ => JsonModel::Object(
                    map![
                        "entries"@ => match outcome.entries {
                            Some(entries) => JsonModel::Array(json::items_model(entries@)),
                            None => JsonModel::Null,
                        },
                        "count"@ => match outcome.entries {
                            Some(entries) => JsonModel::Number(
                                NumberModel::Unsigned(entries@.len() as u64),
                            ),
                            None => JsonModel::Null,
                        },
                        "content"@ => match outcome.content {
                            Some(content) => content.model(),
                            None => JsonModel::Null,
                        },
                        "size"@ => match outcome.size {
                            Some(n) => JsonModel::Number(NumberModel::Unsigned(n as u64)),
                            None => JsonModel::Null,
                        },
                        "written"@ => match outcome.written {
                            Some(n) => JsonModel::Number(NumberModel::Unsigned(n as u64)),
                            None => JsonModel::Null,
                        },
                        "durationMs"@ => JsonModel::Number(NumberModel::Unsigned(duration_ms)),
                    ],
                ),
                "downstreamError"@ => JsonModel::Null,
                "downstreamErrors"@ => JsonModel::Array(Seq::empty()),
                "error"@ => JsonModel::Null,
            ],
        ),
        call::outcome_label(Ok::<FtpOutcome, CallFailure>(outcome)) == "ok"@,
{
    assert(json::items_model(Seq::empty()) =~= Seq::empty());
}

/// What a failed call is answered with, on either surface: who was asked for what,
/// nothing but the time in the response, the message as the error, and what the
/// failure is classified as, as the one downstream error. A failure that is classified
/// as nothing is an FTP error.
pub proof fn law_failed_call_is_answered_with_the_failure(
    plan: CallPlan,
    failure: CallFailure,
    duration_ms: u64,
)
    ensures
        ({
            let downstream = if failure.downstream.model() is Null {
                JsonModel::Object(map!["kind"@ => JsonModel::Str("ftp_error"@)])
            } else {
                failure.downstream.model()
            };
            call::answer(plan, Err::<FtpOutcome, CallFailure>(failure), duration_ms)
                == JsonModel::Object(
                map![
                    "toolName"@ => JsonModel::Str(plan.tool_name@),
                    "profile"@ => JsonModel::Str(plan.backend_name@),
                    "request"@ => JsonModel::Object(
                        map![
                            "op"@ => JsonModel::Str(
                                match plan.profile.op {
                                    FtpOp::List => "list"@,
                                    FtpOp::Get => "get"@,
                                    FtpOp::Put => "put"@,
                                },
                            ),
                            "host"@ => JsonModel::Str(plan.profile.conn.host@),
                            "path"@ => JsonModel::Str(plan.path_arg@),
                        ],
                    ),
                    "response"@ => JsonModel::Object(
                        map![
                            "entries"@ => JsonModel::Null,
                            "count"@ => JsonModel::Null,
                            "content"@ => JsonModel::Null,
                            "size"@ => JsonModel::Null,
                            "written"@ => JsonModel::Null,
                            "durationMs"@ => JsonModel::Number(NumberModel::Unsigned(duration_ms)),
                        ],
                    ),
                    "downstreamError"@ => downstream,
                    "downstreamErrors"@ => JsonModel::Array(seq![downstream]),
                    "error"@ => JsonModel::Str(failure.message@),
                ],
            )
        }),
{
}

/// A failure is a timeout where its message speaks of one, in whatever case; else a
/// transport error where it is classified so; else an FTP error.
pub proof fn law_failures_are_labelled(failure: CallFailure)
    ensures
        ({
            let lower = text::ascii_lower(failure.message@);
            let label = call::outcome_label(Err::<FtpOutcome, CallFailure>(failure));
            let kind = failure.downstream.model().at("kind"@);
            if text::contains(lower, "timed out"@) || text::contains(lower, "timeout"@) {
                label == "timeout"@
            } else if kind == Some(JsonModel::Str("transport_error"@)) {
                label == "transport_error"@
            } else {
                label == "ftp_error"@
            }
        }),
{
}

/// The entry for a listed file has its name, its type and its size, and the entry for
/// a line that could not be read has the line as its name.
pub proof fn law_entry_says_name_type_and_size(file: ListedFileModel, line: Seq<char>)
    ensures
        ftp::parsed_entry(file) == JsonModel::Object(
            map![
                "name"@ => JsonModel::Str(file.name),
                "type"@ => JsonModel::Str(
                    if file.is_directory {
                        "dir"@
                    } else if file.is_symlink {
                        "symlink"@
                    } else {
                        "file"@
                    },
                ),
                "size"@ => JsonModel::Number(NumberModel::Unsigned(file.size as u64)),
            ],
        ),
        ftp::raw_entry(line) == JsonModel::Object(
            map![
                "name"@ => JsonModel::Str(line),
                "type"@ => JsonModel::Str("unknown"@),
                "size"@ => JsonModel::Null,
            ],
        ),
{
}

/// A line is read as POSIX before DOS, and surfaced as it stands where neither reads
/// it. Where the POSIX reading depends on the time, the entry is that reading or what
/// the line is otherwise.
pub proof fn law_line_is_read_as_posix_then_dos(line: Seq<char>, entry: JsonModel)
    requires
        ftp::is_reading_of(line, entry),
        usize::BITS == 64,
    ensures
        ({
            let otherwise = match outside::dos_listing(line) {
                Some(file) => ftp::parsed_entry(file),
                None => ftp::raw_entry(line),
            };
            match outside::posix_reading(line) {
                PosixReading::Always(file) => entry == ftp::parsed_entry(file),
                PosixReading::AtTimes(file) => entry == ftp::parsed_entry(file) || entry
                    == otherwise,
                PosixReading::Never => entry == otherwise,
            }
        }),
{
}

/// The name of a listing entry has to be a part of its line, and its size is no number
/// with a fraction.
pub proof fn law_entry_comes_from_its_line(line: Seq<char>, entry: JsonModel)
    requires
        ftp::is_entry_from(line, entry),
    ensures
        entry.string_at("name"@) is Some,
        text::contains(line, entry.string_at("name"@)->0),
        entry.at("size"@) is Some ==> !(entry.at("size"@)->0 is Number
            && entry.at("size"@)->0->Number_0 is Decimal),
{
}

/// The messages of failed transfers and of content over the cap.
pub proof fn law_messages(
    what: Seq<char>,
    path: Seq<char>,
    error: Seq<char>,
    max_bytes: nat,
    step: Step,
)
    ensures
        ftp::transfer_failure(what, path, error) == "FTP "@ + what + " '"@ + path + "' failed: "@
            + error,
        ftp::over_cap(what, max_bytes) == what + " exceeds max_bytes ("@ + text::decimal(max_bytes)
            + ")"@,
        session::step_failure(step, error) == match step {
            Step::Connect => "FTP connect failed: "@,
            Step::Secure => "FTPS AUTH TLS failed: "@,
            Step::Login => "FTP auth failed: "@,
            Step::Binary => "FTP type binary failed: "@,
        } + error,
{
}

/// A read asks for one byte more than the cap, as far as 64 bits count, and stops there.
pub proof fn law_read_asks_for_one_byte_more(max_bytes: usize, file: Seq<u8>, limit: nat)
    ensures
        max_bytes < u64::MAX ==> ftp::bytes_asked_for(max_bytes) == max_bytes + 1,
        max_bytes >= u64::MAX ==> ftp::bytes_asked_for(max_bytes) == u64::MAX,
        file.len() <= limit ==> ftp::first_bytes(file, limit) == file,
        file.len() > limit ==> ftp::first_bytes(file, limit) == file.subrange(0, limit as int),
{
}

/// After each step comes the next, by whether TLS is required and by what the session
/// is for.
pub proof fn law_steps_follow_one_another(tls: bool, listing: bool)
    ensures
        session::next_step(tls, listing, Step::Connect) == (if tls {
            Next::Perform(Step::Secure)
        } else {
            Next::Perform(Step::Login)
        }),
        session::next_step(tls, listing, Step::Secure) == Next::Perform(Step::Login),
        session::next_step(tls, listing, Step::Login) == (if listing {
            Next::Transfer
        } else {
            Next::Perform(Step::Binary)
        }),
        session::next_step(tls, listing, Step::Binary) == Next::Transfer,
{
}

/// A spec is accepted if and only if the host and the user are not blank, the password
/// is there and no per-caller reference, and there are a time and a number of bytes to
/// spend; and what it is refused for is the first of these that is amiss.
pub proof fn law_spec_is_accepted_or_told_why(spec: FtpBackendSpec)
    ensures
        backend::spec_problem(spec) == if text::is_blank(spec.host@) {
            Some("host must not be empty"@)
        } else if text::is_blank(spec.user@) {
            Some("user must not be empty"@)
        } else if spec.password@.len() == 0 {
            Some("password must not be empty"@)
        } else if text::has_prefix(spec.password@, "cred://"@) {
            Some(
                "password must not be a cred:// URI — per-caller credentials are unsupported; use ${env.X} / vault:// (resolved at config load)"@,
            )
        } else if spec.timeout_ms == 0 {
            Some("timeout_ms must be greater than 0"@)
        } else if spec.max_bytes == 0 {
            Some("max_bytes must be greater than 0"@)
        } else {
            None
        },
        backend::is_acceptable(backend::described_profile(spec)) <==> backend::spec_problem(
            spec,
        ) is None,
{
}

/// A registered binding is the one that its spec describes, field by field, and leaves
/// the other bindings as they were; one that is refused leaves all of them.
pub proof fn law_registered_binding_is_the_spec(
    profiles: Map<Seq<char>, FtpProfile>,
    name: Seq<char>,
    spec: FtpBackendSpec,
    other: Seq<char>,
)
    ensures
        ({
            let after = backend::after_registering(profiles, name, spec);
            &&& other != name ==> after.contains_key(other) == profiles.contains_key(other)
                && after[other] == profiles[other]
            &&& backend::spec_problem(spec) is Some ==> after == profiles
            &&& backend::spec_problem(spec) is None ==> {
                let bound = after[name];
                &&& after.contains_key(name)
                &&& bound.op == spec.op
                &&& bound.conn.host == spec.host
                &&& bound.conn.port == spec.port
                &&& bound.conn.user == spec.user
                &&& bound.conn.password == spec.password
                &&& bound.conn.tls == spec.tls
                &&& bound.base_path == spec.path
                &&& bound.max_bytes == spec.max_bytes
                &&& bound.timeout_ms == spec.timeout_ms
                &&& bound.surface == spec.surface
                &&& bound.uri_template == spec.uri
            }
        }),
{
}

/// Only the resource surface lists, and it lists the base, without its trailing
/// slashes; a blank base is the login's default directory, and a base with a `..`
/// segment is refused.
pub proof fn law_listing_is_of_the_base(profile: FtpProfile, root: Seq<char>, n: nat)
    requires
        profile.base_path@ == root + slashes(n),
        root.len() == 0 || root.last() != '/',
    ensures
        ({
            let target = backend::listing_target(profile);
            if profile.surface == Surface::Tool {
                target == Ok::<Option<Seq<char>>, Seq<char>>(None)
            } else if ftp::has_parent_segment(profile.base_path@) {
                target == Err::<Option<Seq<char>>, Seq<char>>(
                    "path must not contain '..' segments"@,
                )
            } else if text::is_blank(profile.base_path@) {
                target == Ok::<Option<Seq<char>>, Seq<char>>(Some(seq!['.']))
            } else {
                target == Ok::<Option<Seq<char>>, Seq<char>>(Some(root))
            }
        }),
{
    law_path_is_joined_with_one_slash(root, n, 0, Seq::empty());
    assert(slashes(0) + Seq::<char>::empty() =~= Seq::empty());
}

/// A call goes by the first header of that name, in whatever case it is written, and
/// by the binding's name where there is none.
pub proof fn law_call_goes_by_the_first_header(
    headers: Seq<(String, String)>,
    backend_name: Seq<char>,
    i: int,
)
    requires
        0 <= i <= headers.len(),
        forall|j: int|
            0 <= j < i ==> text::ascii_lower((#[trigger] headers[j]).0@) != "mcpg-tool-name"@,
        i < headers.len() ==> text::ascii_lower(headers[i].0@) == "mcpg-tool-name"@,
    ensures
        call::called_name(headers, backend_name) == if i < headers.len() {
            headers[i].1@
        } else {
            backend_name
        },
    decreases headers.len(),
{
    if headers.len() > 0 && i > 0 {
        let rest = headers.drop_first();
        assert forall|j: int| 0 <= j < i - 1 implies text::ascii_lower((#[trigger] rest[j]).0@)
            != "mcpg-tool-name"@ by {
            assert(rest[j] == headers[j + 1]);
        }
        assert(text::ascii_lower(headers[0].0@) != "mcpg-tool-name"@);
        law_call_goes_by_the_first_header(rest, backend_name, i - 1);
    }
}

/// A plan says whom it is for and what was asked: the binding, the names, the path as
/// the caller names it, and the work that comes of it. On the tool surface the path is
/// the `path` argument.
pub proof fn law_plan_is_for_the_call(
    plan: CallPlan,
    profile: FtpProfile,
    backend_name: Seq<char>,
    headers: Seq<(String, String)>,
    args: CallArgumentsModel,
)
    requires
        call::is_plan_for(plan, profile, backend_name, headers, args),
    ensures
        plan.profile == profile,
        plan.backend_name@ == backend_name,
        plan.tool_name@ == call::called_name(headers, backend_name),
        plan.path_arg@ == call::path_argument(profile, args),
        profile.surface == Surface::Tool ==> plan.path_arg@ == match args.path {
            Some(path) => path,
            None => Seq::empty(),
        },
        match call::planned_work(profile, args) {
            Ok(op) => plan.work is Ok && plan.work->Ok_0.model() == op,
            Err(problem) => plan.work is Err && plan.work->Err_0@ == problem,
        },
{
}

/// The arguments of a request are the strings that its JSON holds under their names,
/// and an empty payload holds none.
pub proof fn law_arguments_are_the_strings_of_the_payload(payload: Seq<u8>, key: Seq<char>)
    ensures
        payload.len() == 0 ==> arguments::string_argument(payload, key) is None,
        payload.len() > 0 ==> arguments::string_argument(payload, key)
            == outside::json_string_field(payload, key),
        arguments::arguments_of(payload).path == arguments::string_argument(payload, "path"@),
        arguments::arguments_of(payload).uri == arguments::string_argument(payload, "uri"@),
        arguments::arguments_of(payload).content == arguments::string_argument(
            payload,
            "content"@,
        ),
        arguments::arguments_of(payload).text == arguments::string_argument(payload, "text"@),
{
}

/// A watch is accepted if and only if its connection is and its directory has no `..`
/// segment.
pub proof fn law_watch_is_accepted_or_told_why(spec: WatchSpec)
    ensures
        watch::watch_problem(spec) == if text::is_blank(spec.host@) {
            Some("host must not be empty"@)
        } else if text::is_blank(spec.user@) {
            Some("user must not be empty"@)
        } else if spec.password@.len() == 0 {
            Some("password must not be empty"@)
        } else if text::has_prefix(spec.password@, "cred://"@) {
            Some(
                "password must not be a cred:// URI — per-caller credentials are unsupported; use ${env.X} / vault:// (resolved at config load)"@,
            )
        } else if ftp::has_parent_segment(spec.path@) {
            Some("path must not contain '..' segments"@)
        } else {
            None
        },
{
}

/// A fingerprint is a line for each entry, `name|size`, all in order and with a newline
/// between each and the next. An entry without a name counts under the empty one, and
/// one without a size as a number with a `?`.
pub proof fn law_fingerprint_is_lines_of_name_and_size(
    entries: Seq<JsonModel>,
    name: Seq<char>,
    size: NumberModel,
    entry: JsonModel,
)
    ensures
        watch::fingerprint_of(entries) == lines::joined(
            lines::sorted(Seq::new(entries.len(), |i: int| watch::entry_line(entries[i]))),
        ),
        entry.string_at("name"@) == Some(name) && entry.at("size"@) == Some(
            JsonModel::Number(size),
        ) ==> watch::entry_line(entry) == name + seq!['|'] + size.printed(),
        entry.string_at("name"@) == Some(name) && !(entry.at("size"@) is Some && entry.at(
            "size"@,
        )->0 is Number) ==> watch::entry_line(entry) == name + seq!['|', '?'],
        entry.string_at("name"@) is None ==> watch::counted_name(entry) == Seq::<char>::empty(),
        watch::entry_line(entry) == watch::counted_name(entry) + seq!['|'] + watch::printed_size(
            entry,
        ),
{
    assert(watch::entry_lines(entries) =~= Seq::new(
        entries.len(),
        |i: int| watch::entry_line(entries[i]),
    ));
    if entry.string_at("name"@) == Some(name) {
        assert(name + seq!['|'] + seq!['?'] =~= name + seq!['|', '?']);
    }
}

/// Lines are put in order: the same lines, each as often, none after one that comes
/// before it.
pub proof fn law_lines_are_put_in_order(l: Seq<Seq<char>>)
    ensures
        lines::sorted(l).to_multiset() == l.to_multiset(),
        forall|i: int, j: int|
            0 <= i <= j < lines::sorted(l).len() ==> lines::at_or_before(
                #[trigger] lines::sorted(l)[i],
                #[trigger] lines::sorted(l)[j],
            ),
{
    lines::lemma_line_order_total();
    l.lemma_sort_by_ensures(lines::line_order());
    let s = lines::sorted(l);
    assert forall|i: int, j: int| 0 <= i <= j < s.len() implies lines::at_or_before(
        #[trigger] s[i],
        #[trigger] s[j],
    ) by {
        let leq = lines::line_order();
        if i < j {
            assert(leq(s[i], s[j]));
        } else {
            assert(leq(s[i], s[i]));
        }
    }
}

/// One line comes before another where the first character in which they differ does,
/// or where it is the start of the other.
pub proof fn law_lines_are_ordered_by_their_first_difference(
    start: Seq<char>,
    a: Seq<char>,
    b: Seq<char>,
)
    requires
        a.len() == 0 || b.len() == 0 || a[0] != b[0],
    ensures
        lines::at_or_before(start + a, start + b) <==> a.len() == 0 || (b.len() > 0 && a[0] < b[0]),
    decreases start.len(),
{
    if start.len() == 0 {
        assert(start + a =~= a);
        assert(start + b =~= b);
    } else {
        law_lines_are_ordered_by_their_first_difference(start.drop_first(), a, b);
        assert((start + a).drop_first() =~= start.drop_first() + a);
        assert((start + b).drop_first() =~= start.drop_first() + b);
    }
}

/// Lines are joined with a newline between each and the next.
pub proof fn law_lines_are_joined_by_newlines(
    a: Seq<Seq<char>>,
    b: Seq<Seq<char>>,
    line: Seq<char>,
)
    requires
        a.len() > 0,
        b.len() > 0,
    ensures
        lines::joined(Seq::empty()) == Seq::<char>::empty(),
        lines::joined(seq![line]) == line,
        lines::joined(a + b) == lines::joined(a) + seq!['\n'] + lines::joined(b),
    decreases b.len(),
{
    assert((a + b).drop_last() =~= a + b.drop_last());
    assert((a + b).last() == b.last());
    if b.len() == 1 {
        assert(a + b.drop_last() =~= a);
        assert(b[0] == b.last());
    } else {
        law_lines_are_joined_by_newlines(a, b.drop_last(), line);
        let (x, y) = (lines::joined(a), lines::joined(b.drop_last()));
        assert(x + seq!['\n'] + y + seq!['\n'] + b.last() =~= x + seq!['\n'] + (y + seq!['\n']
            + b.last()));
    }
}

/// Each outcome that is audited has its action, and the others have none.
pub proof fn law_audit_actions(label: Seq<char>)
    ensures
        audit::audit_action(label) == if label == "timeout"@ {
            Some("dev.mcpg.backend.ftp.request_timeout"@)
        } else if label == "transport_error"@ || label == "invalid_spec"@ {
            Some("dev.mcpg.backend.ftp.request_failed"@)
        } else if label == "ftp_error"@ {
            Some("dev.mcpg.backend.ftp.operation_rejected"@)
        } else {
            None
        },
{
    reveal_strlit("timeout");
    reveal_strlit("transport_error");
    reveal_strlit("ftp_error");
    reveal_strlit("invalid_spec");
    assert("timeout"@.len() == 7 && "transport_error"@.len() == 15 && "ftp_error"@.len() == 9
        && "invalid_spec"@.len() == 12);
}

/// The details of an audit event: the binding, the outcome, the alias, the reason where
/// there is one, and the whole milliseconds that the call took, as far as 64 bits count.
pub proof fn law_audit_details(
    backend_name: Seq<char>,
    label: Seq<char>,
    reason: Option<Seq<char>>,
    alias: Seq<char>,
    nanos: u128,
)
    ensures
        ({
            let details = audit::details_model(backend_name, label, reason, alias, nanos);
            let base = map![
                "backend"@ => JsonModel::Str(backend_name),
                "duration_ms"@ => JsonModel::Number(
                    NumberModel::Unsigned(audit::whole_millis(nanos)),
                ),
                "outcome"@ => JsonModel::Str(label),
                "alias"@ => JsonModel::Str(alias),
            ];
            details == JsonModel::Object(
                match reason {
                    Some(r) => base.insert("reason"@, JsonModel::Str(r)),
                    None => base,
                },
            )
        }),
        nanos < 0x1_0000_0000_0000_0000 * 1_000_000 ==> audit::whole_millis(nanos) * 1_000_000
            <= nanos < (audit::whole_millis(nanos) + 1) * 1_000_000,
        audit::whole_millis(nanos) == (nanos / 1_000_000) % 0x1_0000_0000_0000_0000,
{
}

/// The identity of the plugin itself.
pub proof fn law_system_identity(identity: PluginIdentity)
    requires
        audit::is_system_identity(identity),
    ensures
        identity.kind@ == "system"@,
        identity.trust_level@ == "verified"@,
        identity.subject_id is Some && identity.subject_id->0@ == "dev.mcpg.backend.ftp"@,
        identity.auth_provider is None,
        identity.issuer is None,
        identity.roles@.len() == 0,
        identity.groups@.len() == 0,
        identity.scopes@.len() == 0,
        identity.attributes@.len() == 0,
{
}

/// A backend starts out declared and without bindings.
pub proof fn law_new_backend(plugin: FtpBackendPlugin, name: Seq<char>)
    requires
        plugin.is_new(),
    ensures
        plugin.declared().id@ == "dev.mcpg.backend.ftp"@,
        plugin.declared().name@ == "FTP Binding"@,
        plugin.declared().plugin_class == PluginClass::Backend,
        !plugin.profiles().contains_key(name),
{
}

/// In a well-formed backend every binding has a host and a user that are not blank, a
/// password that is no per-caller reference, and a time and a number of bytes to spend.
pub proof fn law_bindings_are_acceptable(plugin: FtpBackendPlugin, name: Seq<char>)
    requires
        plugin.well_formed(),
        plugin.profiles().contains_key(name),
    ensures
        ({
            let profile = plugin.profiles()[name];
            &&& !text::is_blank(profile.conn.host@)
            &&& !text::is_blank(profile.conn.user@)
            &&& profile.conn.password@.len() > 0
            &&& !text::has_prefix(profile.conn.password@, "cred://"@)
            &&& profile.timeout_ms > 0
            &&& profile.max_bytes > 0
        }),
{
}

/// What values stand for is what they hold, field by field.
pub proof fn law_values_stand_for_what_they_hold(
    args: CallArguments,
    file: ListedFile,
    resource: ListedResource,
    page: ResourcePage,
    op: FileOp,
    t: Option<String>,
    v: Seq<String>,
)
    ensures
        t is None ==> arguments::optional_chars(t) is None,
        t is Some ==> arguments::optional_chars(t) == Some(t->0@),
        args.model().path == arguments::optional_chars(args.path),
        args.model().uri == arguments::optional_chars(args.uri),
        args.model().content == arguments::optional_chars(args.content),
        args.model().text == arguments::optional_chars(args.text),
        file.model().name == file.name@,
        file.model().is_directory == file.is_directory,
        file.model().is_symlink == file.is_symlink,
        file.model().size == file.size,
        resource.model().uri == resource.uri@,
        resource.model().name == arguments::optional_chars(resource.name),
        resource.model().description == arguments::optional_chars(resource.description),
        resource.model().mime_type == arguments::optional_chars(resource.mime_type),
        page.models().len() == page.resources@.len(),
        forall|i: int|
            0 <= i < page.resources@.len() ==> #[trigger] page.models()[i]
                == page.resources@[i].model(),
        op.model() == match op {
            FileOp::List { path } => FileOpModel::List { path: path@ },
            FileOp::Get { path, max_bytes } => FileOpModel::Get { path: path@, max_bytes },
            FileOp::Put { path, content } => FileOpModel::Put { path: path@, content: content@ },
        },
        op.model().path() == match op {
            FileOp::List { path } => path@,
            FileOp::Get { path, .. } => path@,
            FileOp::Put { path, .. } => path@,
        },
        surface::texts(v).len() == v.len(),
        forall|i: int| 0 <= i < v.len() ==> #[trigger] surface::texts(v)[i] == v[i]@,
{
}

/// What JSON stands for: each value for itself, an array for its items in order.
pub proof fn law_json_stands_for_its_value(value: Json, items: Seq<Json>, n: NumberModel)
    ensures
        value is Null ==> value.model() is Null,
        value matches Json::Bool(b) ==> value.model() == JsonModel::Bool(b),
        value matches Json::String(s) ==> value.model() == JsonModel::Str(s@),
        value matches Json::Number(Number::Unsigned(u)) ==> value.model() == JsonModel::Number(
            NumberModel::Unsigned(u),
        ),
        value matches Json::Number(Number::Negative(i)) ==> value.model() == JsonModel::Number(
            NumberModel::Negative(i),
        ),
        value matches Json::Number(Number::Decimal(t)) ==> value.model() == JsonModel::Number(
            NumberModel::Decimal(t@),
        ),
        value matches Json::Array(a) ==> value.model() == JsonModel::Array(json::items_model(a@)),
        value matches Json::Object(f) ==> value.model() == JsonModel::Object(
            json::fields_model(f@),
        ),
        json::items_model(items).len() == items.len(),
        forall|i: int|
            0 <= i < items.len() ==> #[trigger] json::items_model(items)[i] == items[i].model(),
        n.printed() == match n {
            NumberModel::Unsigned(u) => text::decimal(u as nat),
            NumberModel::Negative(i) => text::signed_decimal(i as int),
            NumberModel::Decimal(t) => t,
        },
{
    json::lemma_items_model(items);
}

} // verus!
