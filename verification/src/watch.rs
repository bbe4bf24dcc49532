//! The `ftp_dir_poll` watch strategy: a directory is listed on a cadence, and a
//! change is signalled whenever the listing's fingerprint moves.
//!
//! FTP `LIST` exposes name, type and size but no reliable modification time, so
//! the fingerprint is made of names and sizes alone.
use crate::checks;
use crate::ftp;
use crate::ftp::FtpConn;
use crate::json;
use crate::json::{Json, JsonModel, NumberModel};
use crate::lines;
use crate::manifest::{PluginClass, PluginManifest};
pub use crate::manifest::PLUGIN_ID;
use crate::surface;
use crate::text;
use vstd::prelude::*;

verus! {

/// The strategy discriminator.
pub const WATCH_KIND: &'static str = "ftp_dir_poll";

/// Default poll cadence: one minute.
pub fn default_interval_ms() -> (res: u64)
    ensures
        res == 60_000,
{
    60_000
}

/// Default budget of a poll's connect and list: ten seconds.
pub fn default_timeout_ms() -> (res: u64)
    ensures
        res == 10_000,
{
    10_000
}

/// Default control port.
pub fn default_port() -> (res: u16)
    ensures
        res == 21,
{
    21
}

/// FTPS is required unless it is switched off.
pub fn default_tls() -> (res: bool)
    ensures
        res,
{
    true
}

/// Spec of one watch, defaults filled in: the connection, the directory and the
/// cadence.
#[derive(Debug)]
pub struct WatchSpec {
    pub host: String,
    pub port: u16,
    pub user: String,
    pub password: String,
    /// Directory to watch (`""` is the login's default directory).
    pub path: String,
    pub tls: bool,
    pub interval_ms: u64,
    pub timeout_ms: u64,
}

/// Why a watch could not be set up.
#[derive(Debug)]
pub enum WatchError {
    /// The spec is not acceptable.
    InvalidSpec { message: String },
    /// The directory could not be reached.
    Subscribe { message: String },
}

/// A watch that was accepted: what to list, how often, and for whom.
pub struct WatchPlan {
    pub resource_uri: String,
    pub conn: FtpConn,
    /// The directory to list.
    pub dir: String,
    pub timeout_ms: u64,
    pub interval_ms: u64,
}

/// What is wrong with the spec of a watch, if anything.
pub open spec fn watch_problem(spec: WatchSpec) -> Option<Seq<char>> {
    match checks::credential_problem(spec.host@, spec.user@, spec.password@) {
        Some(problem) => Some(problem),
        None => if ftp::has_parent_segment(spec.path@) {
            Some("path must not contain '..' segments"@)
        } else {
            None
        },
    }
}

/// The `watch_strategy` entity.
#[derive(Debug)]
pub struct FtpWatchCdylib {
    manifest: PluginManifest,
}

impl FtpWatchCdylib {
    pub closed spec fn declared(self) -> PluginManifest {
        self.manifest
    }

    /// Makes the entity. There is no plugin-level configuration: what a watch
    /// needs arrives with its spec.
    pub fn from_host_config(_config_json: &str) -> (res: Self)
        ensures
            res.declared().id@ == PLUGIN_ID@,
            res.declared().name@ == "FTP Directory Poll Watch Strategy"@,
            res.declared().plugin_class == PluginClass::WatchStrategy,
    {
        FtpWatchCdylib {
            manifest: PluginManifest {
                id: PLUGIN_ID.to_owned(),
                name: "FTP Directory Poll Watch Strategy".to_owned(),
                plugin_class: PluginClass::WatchStrategy,
            },
        }
    }

    /// What the entity declares of itself.
    pub fn manifest(&self) -> (res: &PluginManifest)
        ensures
            *res == self.declared(),
    {
        &self.manifest
    }

    /// The strategy discriminator that the entity handles.
    pub fn kind(&self) -> (res: &str)
        ensures
            res@ == WATCH_KIND@,
    {
        WATCH_KIND
    }

    /// Accepts the spec of a watch, or says what is wrong with it. The directory
    /// that is watched is the one of the spec, or the login directory where the spec
    /// has none; it may not climb by `..`.
    pub fn watch(&self, resource_uri: &str, spec: WatchSpec) -> (res: Result<WatchPlan, WatchError>)
        ensures
            match watch_problem(spec) {
                Some(problem) => res matches Err(WatchError::InvalidSpec { message }) && message@
                    == problem,
                None => res matches Ok(plan) && {
                    &&& plan.resource_uri@ == resource_uri@
                    &&& plan.conn == (FtpConn {
                        host: spec.host,
                        port: spec.port,
                        user: spec.user,
                        password: spec.password,
                        tls: spec.tls,
                    })
                    &&& plan.dir@ == (if spec.path@.len() == 0 {
                        seq!['.']
                    } else {
                        spec.path@
                    })
                    &&& !ftp::has_parent_segment(plan.dir@)
                    &&& plan.timeout_ms == spec.timeout_ms
                    &&& plan.interval_ms == spec.interval_ms
                },
            },
    {
        if let Some(problem) = checks::find_credential_problem(
            spec.host.as_str(),
            spec.user.as_str(),
            spec.password.as_str(),
        ) {
            return Err(WatchError::InvalidSpec { message: problem.to_owned() });
        }
        if ftp::holds_parent_segment(spec.path.as_str()) {
            return Err(
                WatchError::InvalidSpec {
                    message: "path must not contain '..' segments".to_owned(),
                },
            );
        }
        proof {
            reveal_strlit(".");
            assert("."@ =~= seq!['.']);
        }
        let dir = if spec.path.as_str().is_empty() {
            ".".to_owned()
        } else {
            spec.path
        };
        Ok(
            WatchPlan {
                resource_uri: resource_uri.to_owned(),
                conn: FtpConn {
                    host: spec.host,
                    port: spec.port,
                    user: spec.user,
                    password: spec.password,
                    tls: spec.tls,
                },
                dir,
                timeout_ms: spec.timeout_ms,
                interval_ms: spec.interval_ms,
            },
        )
    }
}

/// The name that an entry counts under: empty where it has none.
pub open spec fn counted_name(entry: JsonModel) -> Seq<char> {
    match entry.string_at("name"@) {
        Some(name) => name,
        None => Seq::empty(),
    }
}

/// The size that an entry counts with, in print.
pub open spec fn printed_size(entry: JsonModel) -> Seq<char> {
    match entry.at("size"@) {
        Some(JsonModel::Number(n)) => n.printed(),
        _ => seq!['?'],
    }
}

/// The line of an entry in a fingerprint.
pub open spec fn entry_line(entry: JsonModel) -> Seq<char> {
    counted_name(entry) + seq!['|'] + printed_size(entry)
}

/// The lines of a listing, in the order of the entries.
pub open spec fn entry_lines(entries: Seq<JsonModel>) -> Seq<Seq<char>> {
    entries.map_values(|entry: JsonModel| entry_line(entry))
}

/// The fingerprint of a listing.
pub open spec fn fingerprint_of(entries: Seq<JsonModel>) -> Seq<char> {
    lines::joined(lines::sorted(entry_lines(entries)))
}

fn line_of(entry: &Json) -> (res: String)
    ensures
        res@ == entry_line(entry.model()),
{
    proof {
        reveal_strlit("");
        reveal_strlit("|");
        reveal_strlit("?");
        assert(""@ =~= Seq::empty());
        assert("|"@ =~= seq!['|']);
        assert("?"@ =~= seq!['?']);
    }
    let name = match entry.str_at("name") {
        Some(name) => name,
        None => "",
    };
    let mut line = text::joined(name, "|");
    match entry.get("size") {
        Some(Json::Number(n)) => line.append(n.printed().as_str()),
        _ => line.append("?"),
    }
    line
}

/// Folds a directory listing into its fingerprint: each entry's `name|size`, in
/// order, joined by newlines.
pub fn fingerprint(entries: &[Json]) -> (res: String)
    ensures
        res@ == fingerprint_of(json::items_model(entries@)),
{
    let ghost all = json::items_model(entries@);
    let mut found: Vec<String> = Vec::new();
    let mut i: usize = 0;
    proof {
        json::lemma_items_model(entries@);
    }
    while i < entries.len()
        invariant
            i <= entries.len(),
            all.len() == entries@.len(),
            forall|j: int| 0 <= j < entries@.len() ==> #[trigger] all[j] == entries@[j].model(),
            surface::texts(found@) =~= entry_lines(all).take(i as int),
        decreases entries.len() - i,
    {
        let line = line_of(&entries[i]);
        proof {
            assert(all[i as int] == entries@[i as int].model());
            assert(entry_lines(all).take(i + 1) =~= entry_lines(all).take(i as int).push(line@));
        }
        found.push(line);
        i += 1;
    }
    assert(entry_lines(all).take(all.len() as int) =~= entry_lines(all));
    let found = lines::sort(found);
    lines::join(&found)
}

/// The entries of a listing that was given a time limit.
fn entries_within_timeout(reply: Option<Result<Vec<Json>, String>>) -> (res: Result<
    Vec<Json>,
    String,
>)
    ensures
        match reply {
            Some(result) => res == result,
            None => res matches Err(message) && message@ == "FTP connect/list timed out"@,
        },
{
    match reply {
        Some(result) => result,
        None => Err("FTP connect/list timed out".to_owned()),
    }
}

/// What a poll hands to the watch: the fingerprint of the listing, or why there is
/// none. No reply means that the time was up.
pub fn polled(reply: Option<Result<Vec<Json>, String>>) -> (res: Result<Option<String>, String>)
    ensures
        match reply {
            Some(Ok(entries)) => res matches Ok(Some(print)) && print@ == fingerprint_of(
                json::items_model(entries@),
            ),
            Some(Err(problem)) => res matches Err(message) && message == problem,
            None => res matches Err(message) && message@ == "FTP connect/list timed out"@,
        },
{
    match entries_within_timeout(reply) {
        Ok(entries) => Ok(Some(fingerprint(entries.as_slice()))),
        Err(message) => Err(message),
    }
}

/// What the first listing of a watch says of it: a directory that cannot be listed
/// is not watched. No reply means that the time was up.
pub fn probed(reply: Option<Result<Vec<Json>, String>>) -> (res: Result<(), WatchError>)
    ensures
        match reply {
            Some(Ok(_)) => res is Ok,
            Some(Err(problem)) => res matches Err(WatchError::Subscribe { message }) && message@
                == "ftp_dir_poll: initial connect/list failed: "@ + problem@,
            None => res matches Err(WatchError::Subscribe { message }) && message@
                == "ftp_dir_poll: initial connect/list failed: "@ + "FTP connect/list timed out"@,
        },
{
    match entries_within_timeout(reply) {
        Ok(_) => Ok(()),
        Err(problem) => Err(
            WatchError::Subscribe {
                message: text::joined(
                    "ftp_dir_poll: initial connect/list failed: ",
                    problem.as_str(),
                ),
            },
        ),
    }
}

/// What a watch without a runtime to poll on is reported as.
pub fn no_runtime(reason: &str) -> (res: WatchError)
    ensures
        res matches WatchError::Subscribe { message } && message@
            == "ftp_dir_poll: tokio runtime init failed: "@ + reason@,
{
    WatchError::Subscribe {
        message: text::joined("ftp_dir_poll: tokio runtime init failed: ", reason),
    }
}

/// What a spec that cannot be read is reported as.
pub fn unreadable_spec(reason: &str) -> (res: WatchError)
    ensures
        res matches WatchError::InvalidSpec { message } && message@
            == "invalid ftp_dir_poll watch spec: "@ + reason@,
{
    WatchError::InvalidSpec { message: text::joined("invalid ftp_dir_poll watch spec: ", reason) }
}

/// The fingerprint does not depend on the order in which the server returns the
/// entries.
pub proof fn law_fingerprint_ignores_order(a: Seq<JsonModel>, b: Seq<JsonModel>)
    requires
        a.to_multiset() == b.to_multiset(),
    ensures
        fingerprint_of(a) == fingerprint_of(b),
{
    lines::lemma_mapped_multiset(a, b, |entry: JsonModel| entry_line(entry));
    lines::lemma_sorted_same(entry_lines(a), entry_lines(b));
}

/// The size that an entry counts with: none where it has no number.
pub open spec fn counted_size(entry: JsonModel) -> Option<int> {
    match entry.at("size"@) {
        Some(JsonModel::Number(NumberModel::Unsigned(n))) => Some(n as int),
        Some(JsonModel::Number(NumberModel::Negative(n))) => Some(n as int),
        _ => None,
    }
}

/// The names and sizes of a listing, in the order of the entries.
pub open spec fn names_and_sizes(entries: Seq<JsonModel>) -> Seq<(Seq<char>, Option<int>)> {
    entries.map_values(|entry: JsonModel| (counted_name(entry), counted_size(entry)))
}

/// An entry as a `LIST` line gives it: the name has no newline, and the size is
/// an integer where it is a number.
pub open spec fn is_plain(entry: JsonModel) -> bool {
    &&& lines::is_one_line(counted_name(entry))
    &&& !(entry.at("size"@) matches Some(JsonModel::Number(NumberModel::Decimal(_))))
}

/// The entry that a `LIST` line without a newline is projected to is plain.
pub proof fn law_listed_entries_are_plain(line: Seq<char>, entry: JsonModel)
    requires
        lines::is_one_line(line),
        ftp::is_entry_from(line, entry),
    ensures
        is_plain(entry),
{
    let name = counted_name(entry);
    let at = choose|at: int| text::occurs_at(line, name, at);
    assert forall|i: int| 0 <= i < name.len() implies name[i] != '\n' by {
        assert(name[i] == line.subrange(at, at + name.len())[i]);
        assert(line[at + i] != '\n');
    }
}

/// What an entry counts as: its name and its size, in print.
pub open spec fn entry_key(entry: JsonModel) -> (Seq<char>, Seq<char>) {
    (counted_name(entry), printed_size(entry))
}

/// What the entries of a listing count as, in their order.
pub open spec fn entry_keys(entries: Seq<JsonModel>) -> Seq<(Seq<char>, Seq<char>)> {
    entries.map_values(|entry: JsonModel| entry_key(entry))
}

/// A name and a printed size that can be told apart in a fingerprint: neither has a
/// newline, and the size has no `|`, as no printed number has.
pub open spec fn is_separable(key: (Seq<char>, Seq<char>)) -> bool {
    &&& lines::is_one_line(key.0)
    &&& forall|i: int| 0 <= i < key.1.len() ==> #[trigger] key.1[i] != '|' && key.1[i] != '\n'
}

/// The fingerprint moves exactly when names or printed sizes do, whatever the numbers
/// are. Two listings have the same fingerprint if and only if they hold the same
/// names with the same printed sizes, each as often: the order of the entries, their
/// types and their other fields do not matter.
pub proof fn law_fingerprint_moves_with_names_and_printed_sizes(
    a: Seq<JsonModel>,
    b: Seq<JsonModel>,
)
    requires
        forall|i: int| 0 <= i < a.len() ==> is_separable(entry_key(#[trigger] a[i])),
        forall|i: int| 0 <= i < b.len() ==> is_separable(entry_key(#[trigger] b[i])),
    ensures
        fingerprint_of(a) == fingerprint_of(b) <==> entry_keys(a).to_multiset() == entry_keys(
            b,
        ).to_multiset(),
{
    let to_line = |key: (Seq<char>, Seq<char>)| key_line(key);
    let to_key = |line: Seq<char>|
        choose|key: (Seq<char>, Seq<char>)| is_separable(key) && #[trigger] key_line(key) == line;
    assert forall|key: (Seq<char>, Seq<char>)|
        is_separable(key) implies #[trigger] to_key(key_line(key)) == key by {
        lemma_key_line_injective(to_key(key_line(key)), key);
    }
    lemma_lines_of_keys(a);
    lemma_lines_of_keys(b);
    assert(entry_lines(a) =~= entry_keys(a).map_values(to_line));
    assert(entry_lines(b) =~= entry_keys(b).map_values(to_line));
    assert(entry_keys(a) =~= entry_lines(a).map_values(to_key));
    assert(entry_keys(b) =~= entry_lines(b).map_values(to_key));
    if entry_keys(a).to_multiset() == entry_keys(b).to_multiset() {
        lines::lemma_mapped_multiset(entry_keys(a), entry_keys(b), to_line);
    }
    if entry_lines(a).to_multiset() == entry_lines(b).to_multiset() {
        lines::lemma_mapped_multiset(entry_lines(a), entry_lines(b), to_key);
    }
    lines::lemma_sorted_same(entry_lines(a), entry_lines(b));
    if fingerprint_of(a) == fingerprint_of(b) {
        lemma_sorted_lines_are_single(a);
        lemma_sorted_lines_are_single(b);
        lines::lemma_joined_injective(
            lines::sorted(entry_lines(a)),
            lines::sorted(entry_lines(b)),
        );
    }
}

/// The fingerprint moves exactly when the names and sizes do. Two listings have
/// the same fingerprint if and only if they hold the same names with the same
/// sizes, each as often: so an entry that is added, removed, renamed or resized
/// moves it, and one that is overwritten in place at the same size does not.
pub proof fn law_fingerprint_moves_with_names_and_sizes(a: Seq<JsonModel>, b: Seq<JsonModel>)
    requires
        forall|i: int| 0 <= i < a.len() ==> is_plain(#[trigger] a[i]),
        forall|i: int| 0 <= i < b.len() ==> is_plain(#[trigger] b[i]),
    ensures
        fingerprint_of(a) == fingerprint_of(b) <==> names_and_sizes(a).to_multiset()
            == names_and_sizes(b).to_multiset(),
{
    let to_key = |pair: (Seq<char>, Option<int>)| (pair.0, size_text(pair.1));
    let to_pair = |key: (Seq<char>, Seq<char>)|
        choose|pair: (Seq<char>, Option<int>)| #[trigger] pair_key(pair) == key;
    assert forall|pair: (Seq<char>, Option<int>)| #[trigger] to_pair(pair_key(pair)) == pair by {
        lemma_pair_key_injective(to_pair(pair_key(pair)), pair);
    }
    lemma_keys_of_plain_entries(a);
    lemma_keys_of_plain_entries(b);
    assert(entry_keys(a) =~= names_and_sizes(a).map_values(to_key));
    assert(entry_keys(b) =~= names_and_sizes(b).map_values(to_key));
    assert(names_and_sizes(a) =~= entry_keys(a).map_values(to_pair));
    assert(names_and_sizes(b) =~= entry_keys(b).map_values(to_pair));
    if names_and_sizes(a).to_multiset() == names_and_sizes(b).to_multiset() {
        lines::lemma_mapped_multiset(names_and_sizes(a), names_and_sizes(b), to_key);
    }
    if entry_keys(a).to_multiset() == entry_keys(b).to_multiset() {
        lines::lemma_mapped_multiset(entry_keys(a), entry_keys(b), to_pair);
    }
    law_fingerprint_moves_with_names_and_printed_sizes(a, b);
}

/// The fingerprint line for a name and a printed size.
spec fn key_line(key: (Seq<char>, Seq<char>)) -> Seq<char> {
    key.0 + seq!['|'] + key.1
}

/// What a name with a size counts as.
spec fn pair_key(pair: (Seq<char>, Option<int>)) -> (Seq<char>, Seq<char>) {
    (pair.0, size_text(pair.1))
}

spec fn size_text(size: Option<int>) -> Seq<char> {
    match size {
        Some(n) => text::signed_decimal(n),
        None => seq!['?'],
    }
}

proof fn lemma_size_text(size: Option<int>)
    ensures
        forall|i: int|
            0 <= i < size_text(size).len() ==> #[trigger] size_text(size)[i] != '|'
                && size_text(size)[i] != '\n',
        size is Some ==> size_text(size)[0] != '?',
{
    if let Some(n) = size {
        text::lemma_decimal_digits(
            if n < 0 {
                (-n) as nat
            } else {
                n as nat
            },
        );
    }
}

proof fn lemma_pair_key_injective(p: (Seq<char>, Option<int>), q: (Seq<char>, Option<int>))
    requires
        pair_key(p) == pair_key(q),
    ensures
        p == q,
{
    lemma_size_text(p.1);
    lemma_size_text(q.1);
    if p.1 is Some && q.1 is Some {
        text::lemma_signed_decimal_injective(p.1->0, q.1->0);
    }
}

proof fn lemma_keys_of_plain_entries(entries: Seq<JsonModel>)
    requires
        forall|i: int| 0 <= i < entries.len() ==> is_plain(#[trigger] entries[i]),
    ensures
        forall|i: int|
            0 <= i < entries.len() ==> is_separable(entry_key(#[trigger] entries[i])) && entry_key(
                entries[i],
            ) == pair_key(names_and_sizes(entries)[i]),
{
    assert forall|i: int| 0 <= i < entries.len() implies is_separable(
        entry_key(#[trigger] entries[i]),
    ) && entry_key(entries[i]) == pair_key(names_and_sizes(entries)[i]) by {
        assert(is_plain(entries[i]));
        lemma_size_text(counted_size(entries[i]));
        assert(printed_size(entries[i]) == size_text(counted_size(entries[i])));
    }
}

proof fn lemma_lines_of_keys(entries: Seq<JsonModel>)
    ensures
        entry_keys(entries).len() == entries.len(),
        entry_lines(entries).len() == entries.len(),
        forall|i: int|
            0 <= i < entries.len() ==> #[trigger] entry_lines(entries)[i] == key_line(
                entry_key(entries[i]),
            ),
{
}

proof fn lemma_key_line_injective(p: (Seq<char>, Seq<char>), q: (Seq<char>, Seq<char>))
    requires
        is_separable(p),
        is_separable(q),
        key_line(p) == key_line(q),
    ensures
        p == q,
{
    let line = key_line(p);
    let (m, n) = (p.0.len() as int, q.0.len() as int);
    assert(line.len() == m + 1 + p.1.len());
    assert(line.len() == n + 1 + q.1.len());
    assert(line[m] == '|');
    assert(key_line(q)[n] == '|');
    if m < n {
        assert(line[n] == p.1[n - m - 1]);
    } else if n < m {
        assert(key_line(q)[m] == q.1[m - n - 1]);
    }
    assert(p.0 =~= line.take(m));
    assert(q.0 =~= line.take(m));
    assert(p.1 =~= line.skip(m + 1));
    assert(q.1 =~= line.skip(m + 1));
}

proof fn lemma_sorted_lines_are_single(entries: Seq<JsonModel>)
    requires
        forall|i: int| 0 <= i < entries.len() ==> is_separable(entry_key(#[trigger] entries[i])),
    ensures
        forall|i: int|
            0 <= i < lines::sorted(entry_lines(entries)).len() ==> lines::is_one_line(
                #[trigger] lines::sorted(entry_lines(entries))[i],
            ) && lines::sorted(entry_lines(entries))[i].len() > 0,
{
    let found = entry_lines(entries);
    let ordered = lines::sorted(found);
    lines::lemma_sorted_members(found);
    assert forall|i: int| 0 <= i < ordered.len() implies lines::is_one_line(#[trigger] ordered[i])
        && ordered[i].len() > 0 by {
        assert(ordered.contains(ordered[i]));
        assert(found.contains(ordered[i]));
        let k = choose|k: int| 0 <= k < found.len() && found[k] == ordered[i];
        let key = entry_key(entries[k]);
        assert(is_separable(key));
        assert(found[k] == key_line(key));
        assert forall|j: int| 0 <= j < key_line(key).len() implies key_line(key)[j] != '\n' by {
            if j < key.0.len() {
                assert(key_line(key)[j] == key.0[j]);
            } else if j > key.0.len() {
                assert(key_line(key)[j] == key.1[j - key.0.len() - 1]);
            }
        }
    }
}

} // verus!
