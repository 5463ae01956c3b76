//! Mirror configuration: the body that configures a repository as a mirror
//! of an image held by another registry.

use crate::actions::{quoted_note, repository_url};
use crate::credentials::{mirror_login, mirror_password};
use crate::desired::{
    MirrorParams, MirrorParamsView, OrganizationView, OrganizationYaml, Repository, RepositoryView,
};
use crate::executor::{ActionResult, QuayFnArguments, QuayFnArgumentsView};
use crate::principal::{mangle_robot_name, wire_robot_name};
use crate::request::{
    Field, FieldView, Method, Request, RequestBody, RequestBodyView, RequestView,
};
use crate::views::{optional_view, views};
use vstd::prelude::*;

verus! {

/// Proxy settings of a mirror.
#[derive(Debug, PartialEq, Eq)]
pub struct QuayMirrorProxy {
    pub http_proxy: Option<String>,
    pub https_proxy: Option<String>,
    pub no_proxy: Option<String>,
}

/// The view of [`QuayMirrorProxy`].
pub struct QuayMirrorProxyView {
    pub http_proxy: Option<Seq<char>>,
    pub https_proxy: Option<Seq<char>>,
    pub no_proxy: Option<Seq<char>>,
}

impl View for QuayMirrorProxy {
    type V = QuayMirrorProxyView;

    open spec fn view(&self) -> QuayMirrorProxyView {
        QuayMirrorProxyView {
            http_proxy: optional_view(self.http_proxy),
            https_proxy: optional_view(self.https_proxy),
            no_proxy: optional_view(self.no_proxy),
        }
    }
}

impl Clone for QuayMirrorProxy {
    fn clone(&self) -> (copy: Self)
        ensures
            copy@ == self@,
    {
        QuayMirrorProxy {
            http_proxy: self.http_proxy.clone(),
            https_proxy: self.https_proxy.clone(),
            no_proxy: self.no_proxy.clone(),
        }
    }
}

/// How the registry is to reach the external registry.
#[derive(Debug, PartialEq, Eq)]
pub struct ExternalRegistryConfig {
    pub verify_tls: bool,
    pub unsigned_images: bool,
    pub proxy: QuayMirrorProxy,
}

/// The view of [`ExternalRegistryConfig`].
pub struct ExternalRegistryConfigView {
    pub verify_tls: bool,
    pub unsigned_images: bool,
    pub proxy: QuayMirrorProxyView,
}

impl View for ExternalRegistryConfig {
    type V = ExternalRegistryConfigView;

    open spec fn view(&self) -> ExternalRegistryConfigView {
        ExternalRegistryConfigView {
            verify_tls: self.verify_tls,
            unsigned_images: self.unsigned_images,
            proxy: self.proxy@,
        }
    }
}

impl Clone for ExternalRegistryConfig {
    fn clone(&self) -> (copy: Self)
        ensures
            copy@ == self@,
    {
        ExternalRegistryConfig {
            verify_tls: self.verify_tls,
            unsigned_images: self.unsigned_images,
            proxy: self.proxy.clone(),
        }
    }
}

/// The rule that selects what is mirrored.
#[derive(Debug, PartialEq, Eq)]
pub struct RootRule {
    pub rule_kind: String,
    pub rule_value: Vec<String>,
}

/// The view of [`RootRule`].
pub struct RootRuleView {
    pub rule_kind: Seq<char>,
    pub rule_value: Seq<Seq<char>>,
}

impl View for RootRule {
    type V = RootRuleView;

    open spec fn view(&self) -> RootRuleView {
        RootRuleView { rule_kind: self.rule_kind@, rule_value: views(self.rule_value@) }
    }
}

impl Clone for RootRule {
    fn clone(&self) -> (copy: Self)
        ensures
            copy@ == self@,
    {
        let rule_value = self.rule_value.clone();
        assert(views(rule_value@) =~= views(self.rule_value@));
        RootRule { rule_kind: self.rule_kind.clone(), rule_value }
    }
}

/// The body of a mirror configuration request.
#[derive(Debug, PartialEq, Eq)]
pub struct MirrorConfig {
    pub external_reference: String,
    pub external_registry_username: Option<String>,
    pub external_registry_password: Option<String>,
    pub sync_interval: i64,
    pub sync_start_date: String,
    pub robot_username: String,
    pub external_registry_config: ExternalRegistryConfig,
    pub root_rule: RootRule,
}

/// The view of [`MirrorConfig`].
pub struct MirrorConfigView {
    pub external_reference: Seq<char>,
    pub external_registry_username: Option<Seq<char>>,
    pub external_registry_password: Option<Seq<char>>,
    pub sync_interval: i64,
    pub sync_start_date: Seq<char>,
    pub robot_username: Seq<char>,
    pub external_registry_config: ExternalRegistryConfigView,
    pub root_rule: RootRuleView,
}

impl View for MirrorConfig {
    type V = MirrorConfigView;

    open spec fn view(&self) -> MirrorConfigView {
        MirrorConfigView {
            external_reference: self.external_reference@,
            external_registry_username: optional_view(self.external_registry_username),
            external_registry_password: optional_view(self.external_registry_password),
            sync_interval: self.sync_interval,
            sync_start_date: self.sync_start_date@,
            robot_username: self.robot_username@,
            external_registry_config: self.external_registry_config@,
            root_rule: self.root_rule@,
        }
    }
}

impl Clone for MirrorConfig {
    fn clone(&self) -> (copy: Self)
        ensures
            copy@ == self@,
    {
        MirrorConfig {
            external_reference: self.external_reference.clone(),
            external_registry_username: self.external_registry_username.clone(),
            external_registry_password: self.external_registry_password.clone(),
            sync_interval: self.sync_interval,
            sync_start_date: self.sync_start_date.clone(),
            robot_username: self.robot_username.clone(),
            external_registry_config: self.external_registry_config.clone(),
            root_rule: self.root_rule.clone(),
        }
    }
}

/// The text that `chrono` writes for the instant `seconds` after the Unix
/// epoch, in UTC, under the format `pattern`; nothing where `chrono` cannot
/// represent the instant or refuses the format.
pub uninterp spec fn utc_text(seconds: i64, pattern: Seq<char>) -> Option<Seq<char>>;

/// Calls `chrono::DateTime::from_timestamp` with `seconds` and no
/// nanoseconds, then `DateTime::format` with `pattern`, and writes the
/// result with `DelayedFormat::write_to`. The first returns nothing for an
/// instant out of range and the last fails on a format it does not know;
/// neither panics. What is written depends on the two arguments alone.
#[verifier::external_body]
fn format_utc(seconds: i64, pattern: &str) -> (text: Option<String>)
    ensures
        optional_view(text) == utc_text(seconds, pattern@),
{
    let instant = chrono::DateTime::from_timestamp(seconds, 0)?;
    let mut text = String::new();
    match instant.format(pattern).write_to(&mut text) {
        Ok(()) => Some(text),
        Err(_) => None,
    }
}

/// The date from which a mirror synchronizes, for a run that starts
/// `seconds` after the Unix epoch: year, month and day, a `T`, the time of
/// day, and a `z`.
pub open spec fn sync_start_text(seconds: i64) -> Option<Seq<char>> {
    utc_text(seconds, "%Y-%m-%dT%H:%M:%Sz"@)
}

/// Writes the date from which a mirror synchronizes, for a run that starts
/// `seconds` after the Unix epoch.
pub fn sync_start_date(seconds: i64) -> (text: Option<String>)
    ensures
        optional_view(text) == sync_start_text(seconds),
{
    format_utc(seconds, "%Y-%m-%dT%H:%M:%Sz")
}

/// The password of the external registry of a mirror, looked up in the
/// logins that the context carries.
pub open spec fn context_password(
    arguments: QuayFnArgumentsView,
    organization: Seq<char>,
    repository: Seq<char>,
    username: Option<Seq<char>>,
) -> Option<Seq<char>> {
    match arguments.mirror_login {
        Some(logins) => mirror_password(logins, organization, repository, username),
        None => None,
    }
}

/// The mirror configuration that `params` ask for, in `organization`.
pub open spec fn mirror_config(
    organization: Seq<char>,
    params: MirrorParamsView,
    password: Option<Seq<char>>,
    sync_start_date: Seq<char>,
) -> MirrorConfigView {
    MirrorConfigView {
        external_reference: params.src_registry + "/"@ + params.src_image,
        external_registry_username: params.ext_registry_username,
        external_registry_password: password,
        sync_interval: params.sync_interval,
        sync_start_date,
        robot_username: wire_robot_name(organization, params.robot_username),
        external_registry_config: ExternalRegistryConfigView {
            verify_tls: params.ext_registry_verify_tls,
            unsigned_images: match params.ext_registry_unsigned_image {
                Some(unsigned) => unsigned,
                None => false,
            },
            proxy: QuayMirrorProxyView {
                http_proxy: params.http_proxy,
                https_proxy: params.https_proxy,
                no_proxy: params.no_proxy,
            },
        },
        root_rule: RootRuleView { rule_kind: "tag_glob_csv"@, rule_value: params.src_image_tags },
    }
}

/// The description under which the requests of a mirror are reported.
pub open spec fn mirror_note(org: OrganizationView, repository: Seq<char>) -> Seq<char> {
    quoted_note("Configuring mirror for repository '"@, repository, org.quay_organization)
}

/// The request that turns a repository into a mirror.
pub open spec fn change_state_request(org: OrganizationView, repository: Seq<char>) -> RequestView {
    RequestView {
        method: Method::Put,
        endpoint: repository_url(org, repository) + "/changestate"@,
        body: RequestBodyView::Fields(seq![FieldView { name: "state"@, value: "MIRROR"@ }]),
        description: mirror_note(org, repository),
    }
}

/// The request that creates the mirror configuration of a repository.
pub open spec fn configure_mirror_request(
    org: OrganizationView,
    repository: Seq<char>,
    config: MirrorConfigView,
) -> RequestView {
    RequestView {
        method: Method::Post,
        endpoint: repository_url(org, repository) + "/mirror"@,
        body: RequestBodyView::Mirror(config),
        description: mirror_note(org, repository),
    }
}

/// The request that replaces a mirror configuration that exists already:
/// `configure` again, with the method that updates.
pub open spec fn update_request(configure: RequestView) -> RequestView {
    RequestView { method: Method::Put, ..configure }
}

/// The requests that configure one repository as a mirror.
#[derive(Debug, PartialEq, Eq)]
pub struct MirrorSequence {
    /// Turns the repository into a mirror.
    pub change_state: Request,
    /// Creates the mirror configuration.
    pub configure: Request,
}

/// The view of [`MirrorSequence`].
pub struct MirrorSequenceView {
    pub change_state: RequestView,
    pub configure: RequestView,
}

impl View for MirrorSequence {
    type V = MirrorSequenceView;

    open spec fn view(&self) -> MirrorSequenceView {
        MirrorSequenceView { change_state: self.change_state@, configure: self.configure@ }
    }
}

impl Clone for MirrorSequence {
    fn clone(&self) -> (copy: Self)
        ensures
            copy@ == self@,
    {
        MirrorSequence {
            change_state: self.change_state.clone(),
            configure: self.configure.clone(),
        }
    }
}

/// The sequence that configures `repository` as a mirror: none where the
/// repository declares no mirror.
pub open spec fn mirror_sequence(
    org: OrganizationView,
    repository: RepositoryView,
    arguments: QuayFnArgumentsView,
    sync_start_date: Seq<char>,
) -> Option<MirrorSequenceView> {
    match repository.mirror_params {
        Some(params) => Some(
            MirrorSequenceView {
                change_state: change_state_request(org, repository.name),
                configure: configure_mirror_request(
                    org,
                    repository.name,
                    mirror_config(
                        org.quay_organization,
                        params,
                        context_password(
                            arguments,
                            org.quay_organization,
                            repository.name,
                            params.ext_registry_username,
                        ),
                        sync_start_date,
                    ),
                ),
            },
        ),
        None => None,
    }
}

/// Looks up the password of the external registry of a mirror: that of the
/// last of `logins` with this organization, repository and username.
pub fn resolve_mirror_password(
    logins: &Vec<mirror_login>,
    organization: &String,
    repository: &String,
    username: &Option<String>,
) -> (password: Option<String>)
    ensures
        optional_view(password) == mirror_password(
            views(logins@),
            organization@,
            repository@,
            optional_view(*username),
        ),
{
    let ghost all = views(logins@);
    let mut password: Option<String> = None;
    let mut i: usize = 0;
    assert(all.take(0) =~= Seq::empty());
    while i < logins.len()
        invariant
            i <= logins.len(),
            all == views(logins@),
            optional_view(password) == mirror_password(
                all.take(i as int),
                organization@,
                repository@,
                optional_view(*username),
            ),
        decreases logins.len() - i,
    {
        let entry = &logins[i];
        proof {
            let upto = all.take(i + 1);
            assert(upto.last() == entry@);
            assert(upto.drop_last() =~= all.take(i as int));
        }
        let same_user = match username {
            Some(name) => entry.ext_registry_username == *name,
            None => false,
        };
        if same_user && entry.repository == *repository && entry.organization == *organization {
            password = Some(entry.ext_registry_password.clone());
        }
        i += 1;
    }
    assert(all.take(i as int) =~= all);
    password
}

impl OrganizationYaml {
    /// The mirror configuration of a repository whose mirror is described
    /// by `params`.
    pub fn mirror_config(
        &self,
        params: &MirrorParams,
        password: Option<String>,
        sync_start_date: &str,
    ) -> (config: MirrorConfig)
        ensures
            config@ == mirror_config(
                self@.quay_organization,
                params@,
                optional_view(password),
                sync_start_date@,
            ),
    {
        let mut external_reference = params.src_registry.clone();
        external_reference.append("/");
        external_reference.append(params.src_image.as_str());
        let rule_value = params.src_image_tags.clone();
        assert(views(rule_value@) =~= views(params.src_image_tags@));
        MirrorConfig {
            external_reference,
            external_registry_username: params.ext_registry_username.clone(),
            external_registry_password: password,
            sync_interval: params.sync_interval,
            sync_start_date: String::from_str(sync_start_date),
            robot_username: mangle_robot_name(
                self.quay_organization.as_str(),
                params.robot_username.as_str(),
            ),
            external_registry_config: ExternalRegistryConfig {
                verify_tls: params.ext_registry_verify_tls,
                unsigned_images: match params.ext_registry_unsigned_image {
                    Some(unsigned) => unsigned,
                    None => false,
                },
                proxy: QuayMirrorProxy {
                    http_proxy: params.http_proxy.clone(),
                    https_proxy: params.https_proxy.clone(),
                    no_proxy: params.no_proxy.clone(),
                },
            },
            root_rule: RootRule { rule_kind: String::from_str("tag_glob_csv"), rule_value },
        }
    }

    /// The requests that configure a repository as a mirror that
    /// synchronizes from `sync_start_date` on; none where the repository
    /// declares no mirror.
    pub fn create_repository_mirror(
        &self,
        repo: &Repository,
        arguments: &QuayFnArguments,
        sync_start_date: &str,
    ) -> (sequence: Option<MirrorSequence>)
        ensures
            optional_view(sequence) == mirror_sequence(self@, repo@, arguments@, sync_start_date@),
    {
        let params = match &repo.mirror_params {
            Some(params) => params,
            None => {
                return None;
            },
        };
        let password = match &arguments.mirror_login {
            Some(logins) => resolve_mirror_password(
                logins,
                &self.quay_organization,
                &repo.name,
                &params.ext_registry_username,
            ),
            None => None,
        };
        let config = self.mirror_config(params, password, sync_start_date);
        let mut state_fields: Vec<Field> = Vec::new();
        state_fields.push(Field::new("state", "MIRROR"));
        assert(views(state_fields@) =~= seq![FieldView { name: "state"@, value: "MIRROR"@ }]);
        let mut state_endpoint = self.repository_address(repo.name.as_str());
        state_endpoint.append("/changestate");
        let mut mirror_endpoint = self.repository_address(repo.name.as_str());
        mirror_endpoint.append("/mirror");
        Some(
            MirrorSequence {
                change_state: Request {
                    method: Method::Put,
                    endpoint: state_endpoint,
                    body: RequestBody::Fields(state_fields),
                    description: self.mirror_note(repo.name.as_str()),
                },
                configure: Request {
                    method: Method::Post,
                    endpoint: mirror_endpoint,
                    body: RequestBody::Mirror(config),
                    description: self.mirror_note(repo.name.as_str()),
                },
            },
        )
    }

    fn mirror_note(&self, repository: &str) -> (text: String)
        ensures
            text@ == mirror_note(self@, repository@),
    {
        let mut text = String::from_str("Configuring mirror for repository '");
        text.append(repository);
        text.append("' for organization '");
        text.append(self.quay_organization.as_str());
        text.append("'");
        text
    }
}

/// Where the configuration of one mirror stands.
#[derive(Debug, Clone, Copy, PartialEq, Eq, Structural)]
pub enum MirrorState {
    /// The request that turns the repository into a mirror is under way.
    Init,
    /// The repository is a mirror; the request that creates the
    /// configuration is under way.
    StateSet,
    /// The registry holds a configuration already; the request that
    /// replaces it is under way.
    ConfigAttempted,
    /// The registry answered the request that creates the configuration.
    Created,
    /// The registry answered the request that replaces the configuration.
    Updated,
    /// A request got no usable answer.
    Failed,
}

/// Whether nothing more is sent in `state`.
pub open spec fn is_terminal(state: MirrorState) -> bool {
    state == MirrorState::Created || state == MirrorState::Updated || state == MirrorState::Failed
}

/// The state that follows `state` once the request under way has ended
/// with `outcome`. Only the answer to the request that creates the
/// configuration is looked at: a conflict leads on to the update, any other
/// answer ends the sequence.
pub open spec fn mirror_transition(state: MirrorState, outcome: ActionResult) -> MirrorState {
    match (state, outcome) {
        (MirrorState::Init, Ok(_)) => MirrorState::StateSet,
        (MirrorState::StateSet, Ok(response)) => if response.status_code == 409 {
            MirrorState::ConfigAttempted
        } else {
            MirrorState::Created
        },
        (MirrorState::ConfigAttempted, Ok(_)) => MirrorState::Updated,
        (MirrorState::Init, Err(_)) => MirrorState::Failed,
        (MirrorState::StateSet, Err(_)) => MirrorState::Failed,
        (MirrorState::ConfigAttempted, Err(_)) => MirrorState::Failed,
        (MirrorState::Created, _) => MirrorState::Created,
        (MirrorState::Updated, _) => MirrorState::Updated,
        (MirrorState::Failed, _) => MirrorState::Failed,
    }
}

/// The request to send next, once the request under way in `state` has
/// ended with `outcome`.
pub open spec fn mirror_next(
    sequence: MirrorSequenceView,
    state: MirrorState,
    outcome: ActionResult,
) -> Option<RequestView> {
    match (state, mirror_transition(state, outcome)) {
        (MirrorState::Init, MirrorState::StateSet) => Some(sequence.configure),
        (MirrorState::StateSet, MirrorState::ConfigAttempted) => Some(
            update_request(sequence.configure),
        ),
        _ => None,
    }
}

/// Whether `outcome`, which ends the request under way in `state`, is the
/// result of the whole sequence: it is the one that ends the sequence.
pub open spec fn mirror_reports(state: MirrorState, outcome: ActionResult) -> bool {
    !is_terminal(state) && is_terminal(mirror_transition(state, outcome))
}

/// One step of the configuration of a mirror.
#[derive(Debug, PartialEq, Eq)]
pub struct MirrorStep {
    /// The state reached.
    pub state: MirrorState,
    /// The request to send next, if the sequence goes on.
    pub next: Option<Request>,
    /// The result of the sequence, if this step ends it.
    pub report: Option<ActionResult>,
}

impl MirrorSequence {
    /// The first request of the sequence, sent in the state `Init`.
    pub fn start(&self) -> (first: (MirrorState, Request))
        ensures
            first.0 == MirrorState::Init,
            first.1@ == self@.change_state,
    {
        (MirrorState::Init, self.change_state.clone())
    }

    /// The request that replaces a configuration that exists already: the
    /// same endpoint, body and description as the request that creates it.
    pub fn update(&self) -> (request: Request)
        ensures
            request@ == update_request(self@.configure),
    {
        Request {
            method: Method::Put,
            endpoint: self.configure.endpoint.clone(),
            body: self.configure.body.clone(),
            description: self.configure.description.clone(),
        }
    }

    /// Takes the outcome of the request under way in `state` and says how
    /// the sequence goes on.
    pub fn step(&self, state: MirrorState, outcome: ActionResult) -> (step: MirrorStep)
        ensures
            step.state == mirror_transition(state, outcome),
            optional_view(step.next) == mirror_next(self@, state, outcome),
            step.report == if mirror_reports(state, outcome) {
                Some(outcome)
            } else {
                None
            },
    {
        match state {
            MirrorState::Init => match outcome {
                Ok(_) => MirrorStep {
                    state: MirrorState::StateSet,
                    next: Some(self.configure.clone()),
                    report: None,
                },
                Err(_) => MirrorStep {
                    state: MirrorState::Failed,
                    next: None,
                    report: Some(outcome),
                },
            },
            MirrorState::StateSet => {
                let conflict = match &outcome {
                    Ok(response) => response.status_code == 409,
                    Err(_) => false,
                };
                if conflict {
                    MirrorStep {
                        state: MirrorState::ConfigAttempted,
                        next: Some(self.update()),
                        report: None,
                    }
                } else {
                    let reached = match &outcome {
                        Ok(_) => MirrorState::Created,
                        Err(_) => MirrorState::Failed,
                    };
                    MirrorStep { state: reached, next: None, report: Some(outcome) }
                }
            },
            MirrorState::ConfigAttempted => {
                let reached = match &outcome {
                    Ok(_) => MirrorState::Updated,
                    Err(_) => MirrorState::Failed,
                };
                MirrorStep { state: reached, next: None, report: Some(outcome) }
            },
            MirrorState::Created => MirrorStep { state, next: None, report: None },
            MirrorState::Updated => MirrorStep { state, next: None, report: None },
            MirrorState::Failed => MirrorStep { state, next: None, report: None },
        }
    }
}

/// When the registry answers the request that creates a mirror
/// configuration with a conflict, exactly one request follows: the update,
/// with the same endpoint and body. The answer with the conflict is not
/// reported; whatever becomes of the update is the result of the sequence,
/// and nothing is sent after it.
pub proof fn lemma_conflict_fallback(
    sequence: MirrorSequenceView,
    conflict: ActionResult,
    updated: ActionResult,
)
    requires
        conflict matches Ok(response) && response.status_code == 409,
    ensures
        mirror_transition(MirrorState::StateSet, conflict) == MirrorState::ConfigAttempted,
        mirror_next(sequence, MirrorState::StateSet, conflict) == Some(
            update_request(sequence.configure),
        ),
        update_request(sequence.configure).method == Method::Put,
        update_request(sequence.configure).endpoint == sequence.configure.endpoint,
        update_request(sequence.configure).body == sequence.configure.body,
        !mirror_reports(MirrorState::StateSet, conflict),
        mirror_reports(MirrorState::ConfigAttempted, updated),
        mirror_next(sequence, MirrorState::ConfigAttempted, updated) is None,
        is_terminal(mirror_transition(MirrorState::ConfigAttempted, updated)),
        forall|later: ActionResult|
            mirror_next(
                sequence,
                mirror_transition(MirrorState::ConfigAttempted, updated),
                later,
            ) is None,
{
}

} // verus!
