//! The backend: the bindings that are registered, and what each request to one of
//! them comes to.
use crate::arguments;
use crate::call;
use crate::call::{CallPlan, FtpProfile};
use crate::checks;
use crate::ftp;
use crate::ftp::FtpConn;
use crate::json;
use crate::json::{Json, JsonModel};
use crate::manifest::{PluginClass, PluginManifest, PLUGIN_ID};
use crate::surface;
use crate::surface::{ResourcePage, Surface};
use crate::text;
use crate::types::FtpBackendSpec;
use vstd::prelude::*;

verus! {

/// Why a request to the backend failed.
#[derive(Debug)]
pub enum BackendError {
    /// A binding's spec is not acceptable.
    InvalidSpec { message: String },
    /// No binding of that name is registered.
    ProfileNotFound { backend_name: String },
    /// The server could not be used.
    Transport { message: String },
}

/// The answer to a request, as it is sent.
#[derive(Debug)]
pub struct BackendResponse {
    pub payload: Vec<u8>,
    pub truncated: bool,
}

/// What is wrong with the spec of a binding, if anything: the first of the checks
/// that fails.
pub open spec fn spec_problem(spec: FtpBackendSpec) -> Option<Seq<char>> {
    match checks::credential_problem(spec.host@, spec.user@, spec.password@) {
        Some(problem) => Some(problem),
        None => if spec.timeout_ms == 0 {
            Some("timeout_ms must be greater than 0"@)
        } else if spec.max_bytes == 0 {
            Some("max_bytes must be greater than 0"@)
        } else {
            None
        },
    }
}

/// The binding that a spec describes.
pub open spec fn described_profile(spec: FtpBackendSpec) -> FtpProfile {
    FtpProfile {
        op: spec.op,
        conn: FtpConn {
            host: spec.host,
            port: spec.port,
            user: spec.user,
            password: spec.password,
            tls: spec.tls,
        },
        base_path: spec.path,
        max_bytes: spec.max_bytes,
        timeout_ms: spec.timeout_ms,
        surface: spec.surface,
        uri_template: spec.uri,
    }
}

/// A binding as it may be registered: with a host, a user and a password that is
/// no per-caller reference, and with a time and a number of bytes to spend.
pub open spec fn is_acceptable(profile: FtpProfile) -> bool {
    &&& checks::credential_problem(
        profile.conn.host@,
        profile.conn.user@,
        profile.conn.password@,
    ) is None
    &&& profile.timeout_ms > 0
    &&& profile.max_bytes > 0
}

/// A directory that has to be listed before a request can be answered.
pub struct ListingPlan {
    pub profile: FtpProfile,
    /// The directory.
    pub path: String,
}

/// How a request that may need a listing goes on.
pub enum ListingStep<T> {
    /// It is answered as it stands.
    Answer(T),
    /// The directory has to be listed first.
    List(ListingPlan),
}

/// How a request for a listing of `profile` goes on: only the resource surface
/// lists, and only a base without `..` segments.
pub open spec fn listing_target(profile: FtpProfile) -> Result<Option<Seq<char>>, Seq<char>> {
    if profile.surface != Surface::Resource {
        Ok(None)
    } else if ftp::has_parent_segment(profile.base_path@) {
        Err("path must not contain '..' segments"@)
    } else {
        Ok(Some(ftp::joined_under(profile.base_path@, Seq::empty())))
    }
}

/// What a map from names to bindings holds, written as a list in which a later
/// entry counts.
pub open spec fn listed_profiles(entries: Seq<(String, FtpProfile)>) -> Map<Seq<char>, FtpProfile>
    decreases entries.len(),
{
    if entries.len() == 0 {
        Map::empty()
    } else {
        listed_profiles(entries.drop_last()).insert(entries.last().0@, entries.last().1)
    }
}

/// The bindings after an attempt to register `spec` under `name`.
pub open spec fn after_registering(
    profiles: Map<Seq<char>, FtpProfile>,
    name: Seq<char>,
    spec: FtpBackendSpec,
) -> Map<Seq<char>, FtpProfile> {
    match spec_problem(spec) {
        Some(_) => profiles,
        None => profiles.insert(name, described_profile(spec)),
    }
}

/// The bindings of a backend that started out with none, after these attempts to
/// register.
pub open spec fn after_all(attempts: Seq<(Seq<char>, FtpBackendSpec)>) -> Map<
    Seq<char>,
    FtpProfile,
>
    decreases attempts.len(),
{
    if attempts.len() == 0 {
        Map::empty()
    } else {
        after_registering(
            after_all(attempts.drop_last()),
            attempts.last().0,
            attempts.last().1,
        )
    }
}

/// A binding is found exactly where one was registered: a name is known if and only
/// if some attempt to register it was accepted, whatever came before and after it.
pub proof fn law_found_exactly_if_registered(
    attempts: Seq<(Seq<char>, FtpBackendSpec)>,
    name: Seq<char>,
)
    ensures
        after_all(attempts).contains_key(name) <==> exists|i: int|
            0 <= i < attempts.len() && (#[trigger] attempts[i]).0 == name && spec_problem(
                attempts[i].1,
            ) is None,
    decreases attempts.len(),
{
    if attempts.len() > 0 {
        let before = attempts.drop_last();
        law_found_exactly_if_registered(before, name);
        if after_all(before).contains_key(name) {
            let i = choose|i: int|
                0 <= i < before.len() && (#[trigger] before[i]).0 == name && spec_problem(
                    before[i].1,
                ) is None;
            assert(attempts[i].0 == name);
        }
        if exists|i: int|
            0 <= i < attempts.len() && (#[trigger] attempts[i]).0 == name && spec_problem(
                attempts[i].1,
            ) is None {
            let i = choose|i: int|
                0 <= i < attempts.len() && (#[trigger] attempts[i]).0 == name && spec_problem(
                    attempts[i].1,
                ) is None;
            if i < before.len() {
                assert(before[i] == attempts[i]);
            }
        }
        assert(attempts[attempts.len() - 1] == attempts.last());
    }
}

/// The backend for `kind: "ftp"`.
pub struct FtpBackendPlugin {
    manifest: PluginManifest,
    profiles: Vec<(String, FtpProfile)>,
}

impl Default for FtpBackendPlugin {
    fn default() -> (res: FtpBackendPlugin)
        ensures
            res.is_new(),
            res.well_formed(),
    {
        FtpBackendPlugin::new()
    }
}

impl FtpBackendPlugin {
    /// The registered bindings.
    pub closed spec fn profiles(self) -> Map<Seq<char>, FtpProfile> {
        listed_profiles(self.profiles@)
    }

    /// What the backend declares of itself.
    pub closed spec fn declared(self) -> PluginManifest {
        self.manifest
    }

    /// Every registered binding is acceptable.
    pub open spec fn well_formed(self) -> bool {
        forall|name: Seq<char>|
            self.profiles().contains_key(name) ==> is_acceptable(#[trigger] self.profiles()[name])
    }

    /// A backend as it starts out: declared, and without bindings.
    pub open spec fn is_new(self) -> bool {
        &&& self.declared().id@ == PLUGIN_ID@
        &&& self.declared().name@ == "FTP Binding"@
        &&& self.declared().plugin_class == PluginClass::Backend
        &&& self.profiles() == Map::<Seq<char>, FtpProfile>::empty()
    }

    /// A backend without bindings.
    #[must_use]
    pub fn new() -> (res: Self)
        ensures
            res.is_new(),
            res.well_formed(),
    {
        FtpBackendPlugin {
            manifest: PluginManifest {
                id: PLUGIN_ID.to_owned(),
                name: "FTP Binding".to_owned(),
                plugin_class: PluginClass::Backend,
            },
            profiles: Vec::new(),
        }
    }

    /// What the backend declares of itself.
    pub fn manifest(&self) -> (res: &PluginManifest)
        ensures
            *res == self.declared(),
    {
        &self.manifest
    }

    /// The kind of bindings that the backend serves.
    pub fn kind(&self) -> (res: &str)
        ensures
            res@ == "ftp"@,
    {
        "ftp"
    }

    /// What audit records say of any binding.
    pub fn audit_metadata(&self, _backend_name: &str) -> (res: Json)
        ensures
            res.model() == JsonModel::Object(map!["ftp.transport"@ => JsonModel::Str("plugin"@)]),
    {
        let mut fields: Vec<(String, Json)> = Vec::new();
        json::put(&mut fields, "ftp.transport", Json::text("plugin"));
        Json::Object(fields)
    }

    /// Registers a binding under `backend_name`, in place of the one that had the
    /// name. A spec that is not acceptable changes nothing.
    pub fn register_profile(&mut self, backend_name: &str, spec: FtpBackendSpec) -> (res: Result<
        (),
        BackendError,
    >)
        ensures
            final(self).declared() == old(self).declared(),
            old(self).well_formed() ==> final(self).well_formed(),
            final(self).profiles() == after_registering(
                old(self).profiles(),
                backend_name@,
                spec,
            ),
            match spec_problem(spec) {
                Some(problem) => res matches Err(BackendError::InvalidSpec { message }) && message@
                    == problem,
                None => res is Ok,
            },
    {
        if let Some(problem) = checks::find_credential_problem(
            spec.host.as_str(),
            spec.user.as_str(),
            spec.password.as_str(),
        ) {
            return Err(BackendError::InvalidSpec { message: problem.to_owned() });
        }
        if spec.timeout_ms == 0 {
            return Err(
                BackendError::InvalidSpec { message: "timeout_ms must be greater than 0".to_owned() },
            );
        }
        if spec.max_bytes == 0 {
            return Err(
                BackendError::InvalidSpec { message: "max_bytes must be greater than 0".to_owned() },
            );
        }
        let profile = FtpProfile {
            op: spec.op,
            conn: FtpConn {
                host: spec.host,
                port: spec.port,
                user: spec.user,
                password: spec.password,
                tls: spec.tls,
            },
            base_path: spec.path,
            max_bytes: spec.max_bytes,
            timeout_ms: spec.timeout_ms,
            surface: spec.surface,
            uri_template: spec.uri,
        };
        match self.position(backend_name) {
            Some(at) => {
                proof {
                    lemma_removed_and_listed_again(
                        self.profiles@,
                        at as int,
                        (self.profiles@[at as int].0, profile),
                    );
                }
                let (name, _) = self.profiles.remove(at);
                self.profiles.push((name, profile));
            },
            None => {
                self.profiles.push((backend_name.to_owned(), profile));
                assert(self.profiles@.drop_last() =~= old(self).profiles@);
            },
        }
        Ok(())
    }

    fn position(&self, backend_name: &str) -> (res: Option<usize>)
        ensures
            match res {
                Some(at) => {
                    &&& at < self.profiles@.len()
                    &&& self.profiles@[at as int].0@ == backend_name@
                    &&& self.profiles().contains_key(backend_name@)
                    &&& self.profiles()[backend_name@] == self.profiles@[at as int].1
                },
                None => !self.profiles().contains_key(backend_name@),
            },
    {
        let mut i: usize = self.profiles.len();
        assert(self.profiles@.take(i as int) =~= self.profiles@);
        while i > 0
            invariant
                i <= self.profiles@.len(),
                self.profiles().contains_key(backend_name@) == listed_profiles(
                    self.profiles@.take(i as int),
                ).contains_key(backend_name@),
                self.profiles().contains_key(backend_name@) ==> self.profiles()[backend_name@]
                    == listed_profiles(self.profiles@.take(i as int))[backend_name@],
            decreases i,
        {
            assert(self.profiles@.take(i as int).drop_last() =~= self.profiles@.take(i - 1));
            if text::same(self.profiles[i - 1].0.as_str(), backend_name) {
                return Some(i - 1);
            }
            i -= 1;
        }
        None
    }

    /// The binding of that name.
    pub fn profile(&self, backend_name: &str) -> (res: Result<FtpProfile, BackendError>)
        ensures
            if self.profiles().contains_key(backend_name@) {
                res matches Ok(profile) && profile == self.profiles()[backend_name@]
            } else {
                res matches Err(BackendError::ProfileNotFound { backend_name: name }) && name@
                    == backend_name@
            },
    {
        match self.position(backend_name) {
            Some(at) => Ok(self.profiles[at].1.clone()),
            None => Err(BackendError::ProfileNotFound { backend_name: backend_name.to_owned() }),
        }
    }

    /// Plans a call: reads the request's arguments, and works out what they ask of
    /// the binding. The answer is then up to [`call::finish_call`].
    pub fn execute(
        &self,
        backend_name: &str,
        headers: &Vec<(String, String)>,
        payload: &[u8],
    ) -> (res: Result<CallPlan, BackendError>)
        ensures
            if self.profiles().contains_key(backend_name@) {
                res matches Ok(plan) && call::is_plan_for(
                    plan,
                    self.profiles()[backend_name@],
                    backend_name@,
                    headers@,
                    arguments::arguments_of(payload@),
                )
            } else {
                res matches Err(BackendError::ProfileNotFound { backend_name: name }) && name@
                    == backend_name@
            },
    {
        let profile = match self.profile(backend_name) {
            Ok(profile) => profile,
            Err(error) => {
                return Err(error);
            },
        };
        let args = arguments::parse_arguments(payload);
        Ok(call::plan_call(profile, backend_name, headers, &args))
    }

    fn plan_listing(&self, backend_name: &str) -> (res: Result<Option<ListingPlan>, BackendError>)
        ensures
            if self.profiles().contains_key(backend_name@) {
                let profile = self.profiles()[backend_name@];
                match listing_target(profile) {
                    Ok(Some(dir)) => res matches Ok(Some(plan)) && plan.profile == profile
                        && plan.path@ == dir,
                    Ok(None) => res matches Ok(None),
                    Err(problem) => res matches Err(BackendError::InvalidSpec { message })
                        && message@ == problem,
                }
            } else {
                res matches Err(BackendError::ProfileNotFound { backend_name: name }) && name@
                    == backend_name@
            },
    {
        let profile = match self.profile(backend_name) {
            Ok(profile) => profile,
            Err(error) => {
                return Err(error);
            },
        };
        match profile.surface {
            Surface::Resource => {},
            Surface::Tool => {
                return Ok(None);
            },
        }
        proof {
            reveal_strlit("");
            assert(""@ =~= Seq::empty());
        }
        if let Err(message) = ftp::resolve_path("", profile.base_path.as_str()) {
            return Err(BackendError::InvalidSpec { message });
        }
        match ftp::resolve_path(profile.base_path.as_str(), "") {
            Ok(path) => Ok(Some(ListingPlan { profile, path })),
            Err(message) => Err(BackendError::InvalidSpec { message }),
        }
    }

    /// Starts a `resources/list`. A binding on the tool surface has no resources;
    /// one on the resource surface lists its base directory, all of it in one page,
    /// and [`resource_page`] then makes the page.
    pub fn list_resources(&self, backend_name: &str, _cursor: Option<&str>) -> (res: Result<
        ListingStep<ResourcePage>,
        BackendError,
    >)
        ensures
            if self.profiles().contains_key(backend_name@) {
                let profile = self.profiles()[backend_name@];
                match listing_target(profile) {
                    Ok(Some(dir)) => res matches Ok(ListingStep::List(plan)) && plan.profile
                        == profile && plan.path@ == dir,
                    Ok(None) => res matches Ok(ListingStep::Answer(page)) && page.models().len()
                        == 0 && page.next_cursor is None,
                    Err(problem) => res matches Err(BackendError::InvalidSpec { message })
                        && message@ == problem,
                }
            } else {
                res matches Err(BackendError::ProfileNotFound { backend_name: name }) && name@
                    == backend_name@
            },
    {
        match self.plan_listing(backend_name) {
            Ok(Some(plan)) => Ok(ListingStep::List(plan)),
            Ok(None) => Ok(ListingStep::Answer(ResourcePage::empty())),
            Err(error) => Err(error),
        }
    }

    /// Starts the completion of the `{path}` template variable. A binding on the
    /// tool surface completes nothing; one on the resource surface lists its base
    /// directory, and [`completion_values`] then picks the candidates.
    pub fn complete_template_variable(&self, backend_name: &str, _variable_name: &str) -> (res:
        Result<ListingStep<Vec<String>>, BackendError>)
        ensures
            if self.profiles().contains_key(backend_name@) {
                let profile = self.profiles()[backend_name@];
                match listing_target(profile) {
                    Ok(Some(dir)) => res matches Ok(ListingStep::List(plan)) && plan.profile
                        == profile && plan.path@ == dir,
                    Ok(None) => res matches Ok(ListingStep::Answer(values)) && values@.len() == 0,
                    Err(problem) => res matches Err(BackendError::InvalidSpec { message })
                        && message@ == problem,
                }
            } else {
                res matches Err(BackendError::ProfileNotFound { backend_name: name }) && name@
                    == backend_name@
            },
    {
        match self.plan_listing(backend_name) {
            Ok(Some(plan)) => Ok(ListingStep::List(plan)),
            Ok(None) => Ok(ListingStep::Answer(Vec::new())),
            Err(error) => Err(error),
        }
    }
}

proof fn lemma_removed_and_listed_again(
    entries: Seq<(String, FtpProfile)>,
    at: int,
    entry: (String, FtpProfile),
)
    requires
        0 <= at < entries.len(),
        entries[at].0@ == entry.0@,
    ensures
        listed_profiles(entries.remove(at).push(entry)) == listed_profiles(entries).insert(
            entry.0@,
            entry.1,
        ),
    decreases entries.len(),
{
    let rest = entries.remove(at);
    assert(rest.push(entry).drop_last() =~= rest);
    assert(listed_profiles(rest.push(entry)) == listed_profiles(rest).insert(entry.0@, entry.1));
    let before = entries.drop_last();
    let last = entries.last();
    if at == entries.len() - 1 {
        assert(rest =~= before);
        assert(listed_profiles(entries).insert(entry.0@, entry.1) =~= listed_profiles(
            before,
        ).insert(entry.0@, entry.1));
    } else {
        lemma_removed_and_listed_again(before, at, entry);
        let kept = before.remove(at);
        assert(kept.push(entry).drop_last() =~= kept);
        assert(rest.drop_last() =~= kept);
        assert(listed_profiles(rest) == listed_profiles(kept).insert(last.0@, last.1));
        assert(listed_profiles(kept).insert(entry.0@, entry.1) == listed_profiles(before).insert(
            entry.0@,
            entry.1,
        ));
        assert(listed_profiles(rest).insert(entry.0@, entry.1) =~= listed_profiles(kept).insert(
            entry.0@,
            entry.1,
        ).insert(last.0@, last.1).insert(entry.0@, entry.1));
        assert(listed_profiles(entries).insert(entry.0@, entry.1) =~= listed_profiles(
            before,
        ).insert(entry.0@, entry.1).insert(last.0@, last.1).insert(entry.0@, entry.1));
    }
}

/// The entries of a listing that was given a time limit.
fn entries_within_timeout(reply: Option<Result<Vec<Json>, String>>) -> (res: Result<
    Vec<Json>,
    BackendError,
>)
    ensures
        match reply {
            Some(Ok(entries)) => res matches Ok(listed) && listed == entries,
            Some(Err(problem)) => res matches Err(BackendError::Transport { message }) && message
                == problem,
            None => res matches Err(BackendError::Transport { message }) && message@
                == "FTP list timed out"@,
        },
{
    match reply {
        Some(Ok(entries)) => Ok(entries),
        Some(Err(message)) => Err(BackendError::Transport { message }),
        None => Err(BackendError::Transport { message: "FTP list timed out".to_owned() }),
    }
}

/// Ends a `resources/list`: one resource per listed file. No reply means that the
/// time was up.
pub fn resource_page(plan: &ListingPlan, reply: Option<Result<Vec<Json>, String>>) -> (res: Result<
    ResourcePage,
    BackendError,
>)
    ensures
        match reply {
            Some(Ok(entries)) => res matches Ok(page) && page.models() == surface::file_resources(
                json::items_model(entries@),
                plan.profile.base_path@,
                plan.profile.uri_template@,
            ) && page.next_cursor is None,
            Some(Err(problem)) => res matches Err(BackendError::Transport { message }) && message
                == problem,
            None => res matches Err(BackendError::Transport { message }) && message@
                == "FTP list timed out"@,
        },
{
    match entries_within_timeout(reply) {
        Ok(entries) => Ok(
            surface::entries_to_resource_page(
                entries.as_slice(),
                plan.profile.base_path.as_str(),
                plan.profile.uri_template.as_str(),
            ),
        ),
        Err(error) => Err(error),
    }
}

/// Ends a completion: the listed names that start with `prefix`, at most 100. No
/// reply means that the time was up.
pub fn completion_values(prefix: &str, reply: Option<Result<Vec<Json>, String>>) -> (res: Result<
    Vec<String>,
    BackendError,
>)
    ensures
        match reply {
            Some(Ok(entries)) => res matches Ok(values) && surface::texts(values@)
                == surface::at_most(
                surface::names_with_prefix(json::items_model(entries@), prefix@),
                100,
            ),
            Some(Err(problem)) => res matches Err(BackendError::Transport { message }) && message
                == problem,
            None => res matches Err(BackendError::Transport { message }) && message@
                == "FTP list timed out"@,
        },
{
    match entries_within_timeout(reply) {
        Ok(entries) => Ok(surface::entries_to_completion_values(entries.as_slice(), prefix, 100)),
        Err(error) => Err(error),
    }
}

/// What a spec that cannot be read is reported as.
pub fn unreadable_spec(reason: &str) -> (res: BackendError)
    ensures
        res matches BackendError::InvalidSpec { message } && message@ == "FTP binding spec: "@
            + reason@,
{
    BackendError::InvalidSpec { message: text::joined("FTP binding spec: ", reason) }
}

/// Makes the response out of a rendered envelope.
pub fn finalize_payload(rendered: Result<Vec<u8>, String>) -> (res: Result<
    BackendResponse,
    BackendError,
>)
    ensures
        match rendered {
            Ok(bytes) => res matches Ok(response) && response.payload == bytes
                && !response.truncated,
            Err(reason) => res matches Err(BackendError::Transport { message }) && message@
                == "FTP plugin envelope serialization failed: "@ + reason@,
        },
{
    match rendered {
        Ok(payload) => Ok(BackendResponse { payload, truncated: false }),
        Err(reason) => Err(
            BackendError::Transport {
                message: text::joined(
                    "FTP plugin envelope serialization failed: ",
                    reason.as_str(),
                ),
            },
        ),
    }
}

} // verus!
