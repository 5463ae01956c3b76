//! The plan of a run: for each phase, the actions that the store asks for.
//!
//! An organization whose endpoint has no token is left out of every phase
//! and listed as skipped; the other organizations are planned as if it were
//! not there.

use crate::actions::{
    create_organization_request, delete_organization_request, get_team_permission_request,
    get_user_permission_request,
};
use crate::batch::{
    grant_requests, member_requests, repository_requests, robot_requests, team_requests,
};
use crate::credentials::token_for;
use crate::desired::{OrganizationView, OrganizationYaml};
use crate::executor::{QuayFnArguments, QuayFnArgumentsView};
use crate::mirror::{mirror_sequence, MirrorSequence, MirrorSequenceView};
use crate::request::{Request, RequestView};
use crate::store::{QuayXmlConfig, QuayXmlConfigView};
use crate::views::{lemma_views_add, lemma_views_push, views};
use vstd::prelude::*;

verus! {

/// One request together with the context it is sent in.
#[derive(Debug, PartialEq, Eq)]
pub struct Action {
    pub request: Request,
    pub arguments: QuayFnArguments,
}

/// The view of [`Action`].
pub struct ActionView {
    pub request: RequestView,
    pub arguments: QuayFnArgumentsView,
}

impl View for Action {
    type V = ActionView;

    open spec fn view(&self) -> ActionView {
        ActionView { request: self.request@, arguments: self.arguments@ }
    }
}

impl Clone for Action {
    fn clone(&self) -> (copy: Self)
        ensures
            copy@ == self@,
    {
        Action { request: self.request.clone(), arguments: self.arguments.clone() }
    }
}

/// The listing of the permissions of one repository, with the place of the
/// repository in the store: which organization, and which of its
/// repositories.
#[derive(Debug, Clone, PartialEq, Eq)]
pub struct PermissionFetch {
    pub action: Action,
    pub organization: usize,
    pub repository: usize,
}

/// The view of [`PermissionFetch`].
pub struct PermissionFetchView {
    pub action: ActionView,
    pub organization: int,
    pub repository: int,
}

impl View for PermissionFetch {
    type V = PermissionFetchView;

    open spec fn view(&self) -> PermissionFetchView {
        PermissionFetchView {
            action: self.action@,
            organization: self.organization as int,
            repository: self.repository as int,
        }
    }
}

/// The configuration of one mirror, with the context its requests are sent
/// in.
#[derive(Debug, Clone, PartialEq, Eq)]
pub struct MirrorAction {
    pub sequence: MirrorSequence,
    pub arguments: QuayFnArguments,
}

/// The view of [`MirrorAction`].
pub struct MirrorActionView {
    pub sequence: MirrorSequenceView,
    pub arguments: QuayFnArgumentsView,
}

impl View for MirrorAction {
    type V = MirrorActionView;

    open spec fn view(&self) -> MirrorActionView {
        MirrorActionView { sequence: self.sequence@, arguments: self.arguments@ }
    }
}

/// The context of the actions of an organization whose endpoint has the
/// token `token`.
pub open spec fn context(config: QuayXmlConfigView, token: Seq<char>) -> QuayFnArgumentsView {
    QuayFnArgumentsView {
        token,
        log_level: config.log_level,
        log_verbosity: config.log_verbosity,
        timeout: config.timeout,
        tls_verify: config.tls_verify,
        mirror_login: Some(config.quay_login_configs.quay_mirror_login),
    }
}

/// Each of `requests`, in the context `arguments`.
pub open spec fn actions_for(requests: Seq<RequestView>, arguments: QuayFnArgumentsView) -> Seq<
    ActionView,
> {
    Seq::new(requests.len(), |i: int| ActionView { request: requests[i], arguments })
}

/// The listings of the user permissions of the repositories of the
/// organization at place `index` of the store.
pub open spec fn user_fetches(
    index: int,
    org: OrganizationView,
    arguments: QuayFnArgumentsView,
) -> Seq<PermissionFetchView> {
    Seq::new(
        org.repositories.len(),
        |j: int|
            PermissionFetchView {
                action: ActionView {
                    request: get_user_permission_request(org, org.repositories[j].name),
                    arguments,
                },
                organization: index,
                repository: j,
            },
    )
}

/// The listings of the team permissions of the repositories of the
/// organization at place `index` of the store.
pub open spec fn team_fetches(
    index: int,
    org: OrganizationView,
    arguments: QuayFnArgumentsView,
) -> Seq<PermissionFetchView> {
    Seq::new(
        org.repositories.len(),
        |j: int|
            PermissionFetchView {
                action: ActionView {
                    request: get_team_permission_request(org, org.repositories[j].name),
                    arguments,
                },
                organization: index,
                repository: j,
            },
    )
}

/// The mirrors of the first `n` repositories of the organization: one for
/// each repository that declares a mirror.
pub open spec fn mirror_actions_upto(
    org: OrganizationView,
    arguments: QuayFnArgumentsView,
    sync_start_date: Seq<char>,
    n: nat,
) -> Seq<MirrorActionView>
    decreases n,
{
    if n == 0 {
        Seq::empty()
    } else {
        let before = mirror_actions_upto(org, arguments, sync_start_date, (n - 1) as nat);
        match mirror_sequence(org, org.repositories[n - 1], arguments, sync_start_date) {
            Some(sequence) => before.push(MirrorActionView { sequence, arguments }),
            None => before,
        }
    }
}

/// The mirrors of the organization.
pub open spec fn mirror_actions(
    org: OrganizationView,
    arguments: QuayFnArgumentsView,
    sync_start_date: Seq<char>,
) -> Seq<MirrorActionView> {
    mirror_actions_upto(org, arguments, sync_start_date, org.repositories.len())
}

/// What a run that creates is to do, phase by phase.
#[derive(Debug, Clone, PartialEq, Eq)]
pub struct CreatePlan {
    /// One action for each organization.
    pub organizations: Vec<Action>,
    /// One action for each robot of each organization.
    pub robots: Vec<Action>,
    /// One action for each team of each organization.
    pub teams: Vec<Action>,
    /// One action for each member of each team.
    pub team_members: Vec<Action>,
    /// One action for each repository of each organization.
    pub repositories: Vec<Action>,
    /// The listing of the user permissions of each repository.
    pub user_permissions: Vec<PermissionFetch>,
    /// The listing of the team permissions of each repository.
    pub team_permissions: Vec<PermissionFetch>,
    /// One action for each permission entry that is wanted.
    pub grants: Vec<Action>,
    /// One sequence for each repository that declares a mirror.
    pub mirrors: Vec<MirrorAction>,
    /// The places in the store of the organizations without a token.
    pub skipped: Vec<usize>,
}

/// The view of [`CreatePlan`].
pub struct CreatePlanView {
    pub organizations: Seq<ActionView>,
    pub robots: Seq<ActionView>,
    pub teams: Seq<ActionView>,
    pub team_members: Seq<ActionView>,
    pub repositories: Seq<ActionView>,
    pub user_permissions: Seq<PermissionFetchView>,
    pub team_permissions: Seq<PermissionFetchView>,
    pub grants: Seq<ActionView>,
    pub mirrors: Seq<MirrorActionView>,
    pub skipped: Seq<int>,
}

impl View for CreatePlan {
    type V = CreatePlanView;

    open spec fn view(&self) -> CreatePlanView {
        CreatePlanView {
            organizations: views(self.organizations@),
            robots: views(self.robots@),
            teams: views(self.teams@),
            team_members: views(self.team_members@),
            repositories: views(self.repositories@),
            user_permissions: views(self.user_permissions@),
            team_permissions: views(self.team_permissions@),
            grants: views(self.grants@),
            mirrors: views(self.mirrors@),
            skipped: self.skipped@.map_values(|place: usize| place as int),
        }
    }
}

/// A plan without actions.
pub open spec fn empty_create_plan() -> CreatePlanView {
    CreatePlanView {
        organizations: Seq::empty(),
        robots: Seq::empty(),
        teams: Seq::empty(),
        team_members: Seq::empty(),
        repositories: Seq::empty(),
        user_permissions: Seq::empty(),
        team_permissions: Seq::empty(),
        grants: Seq::empty(),
        mirrors: Seq::empty(),
        skipped: Seq::empty(),
    }
}

/// `plan`, extended by what the organization at place `index` of the store
/// asks for in the context `arguments`.
pub open spec fn with_organization(
    plan: CreatePlanView,
    index: int,
    org: OrganizationView,
    arguments: QuayFnArgumentsView,
    sync_start_date: Seq<char>,
) -> CreatePlanView {
    CreatePlanView {
        organizations: plan.organizations.push(
            ActionView { request: create_organization_request(org), arguments },
        ),
        robots: plan.robots + actions_for(robot_requests(org), arguments),
        teams: plan.teams + actions_for(team_requests(org), arguments),
        team_members: plan.team_members + actions_for(member_requests(org), arguments),
        repositories: plan.repositories + actions_for(repository_requests(org), arguments),
        user_permissions: plan.user_permissions + user_fetches(index, org, arguments),
        team_permissions: plan.team_permissions + team_fetches(index, org, arguments),
        grants: plan.grants + actions_for(grant_requests(org), arguments),
        mirrors: plan.mirrors + mirror_actions(org, arguments, sync_start_date),
        skipped: plan.skipped,
    }
}

/// The plan for the first `n` organizations of the store. An organization
/// whose endpoint has a token adds its actions to each phase; one without
/// is skipped.
pub open spec fn create_plan_upto(
    config: QuayXmlConfigView,
    sync_start_date: Seq<char>,
    n: nat,
) -> CreatePlanView
    decreases n,
{
    if n == 0 {
        empty_create_plan()
    } else {
        let before = create_plan_upto(config, sync_start_date, (n - 1) as nat);
        let org = config.organization[n - 1];
        match token_for(config.quay_login_configs.quay_endpoint_login, org.quay_endpoint) {
            Some(token) => with_organization(
                before,
                n - 1,
                org,
                context(config, token),
                sync_start_date,
            ),
            None => CreatePlanView { skipped: before.skipped.push(n - 1), ..before },
        }
    }
}

/// The plan of a run that creates what the store declares, with mirrors
/// that synchronize from `sync_start_date` on.
pub open spec fn create_plan(
    config: QuayXmlConfigView,
    sync_start_date: Seq<char>,
) -> CreatePlanView {
    create_plan_upto(config, sync_start_date, config.organization.len())
}

/// Every organization of the store is planned or skipped: a plan creates
/// as many organizations as have a token, and lists the others.
pub proof fn lemma_create_plan_accounts_for_all(
    config: QuayXmlConfigView,
    sync_start_date: Seq<char>,
    n: nat,
)
    ensures
        create_plan_upto(config, sync_start_date, n).organizations.len() + create_plan_upto(
            config,
            sync_start_date,
            n,
        ).skipped.len() == n,
        forall|k: int|
            0 <= k < create_plan_upto(config, sync_start_date, n).skipped.len() ==> {
                let place = #[trigger] create_plan_upto(config, sync_start_date, n).skipped[k];
                &&& 0 <= place < n
                &&& token_for(
                    config.quay_login_configs.quay_endpoint_login,
                    config.organization[place].quay_endpoint,
                ) is None
            },
    decreases n,
{
    if n > 0 {
        lemma_create_plan_accounts_for_all(config, sync_start_date, (n - 1) as nat);
    }
}

/// Where no endpoint has a token nothing is planned: every phase is empty
/// and every organization is skipped.
pub proof fn lemma_nothing_planned_without_tokens(
    config: QuayXmlConfigView,
    sync_start_date: Seq<char>,
    n: nat,
)
    requires
        config.quay_login_configs.quay_endpoint_login.len() == 0,
    ensures
        create_plan_upto(config, sync_start_date, n) == (CreatePlanView {
            skipped: create_plan_upto(config, sync_start_date, n).skipped,
            ..empty_create_plan()
        }),
        create_plan_upto(config, sync_start_date, n).skipped.len() == n,
    decreases n,
{
    if n > 0 {
        lemma_nothing_planned_without_tokens(config, sync_start_date, (n - 1) as nat);
    }
}

/// What a run that deletes is to do.
#[derive(Debug, Clone, PartialEq, Eq)]
pub struct DeletePlan {
    /// One action for each organization.
    pub organizations: Vec<Action>,
    /// The places in the store of the organizations without a token.
    pub skipped: Vec<usize>,
}

/// The view of [`DeletePlan`].
pub struct DeletePlanView {
    pub organizations: Seq<ActionView>,
    pub skipped: Seq<int>,
}

impl View for DeletePlan {
    type V = DeletePlanView;

    open spec fn view(&self) -> DeletePlanView {
        DeletePlanView {
            organizations: views(self.organizations@),
            skipped: self.skipped@.map_values(|place: usize| place as int),
        }
    }
}

/// The plan that deletes the first `n` organizations of the store.
pub open spec fn delete_plan_upto(config: QuayXmlConfigView, n: nat) -> DeletePlanView
    decreases n,
{
    if n == 0 {
        DeletePlanView { organizations: Seq::empty(), skipped: Seq::empty() }
    } else {
        let before = delete_plan_upto(config, (n - 1) as nat);
        let org = config.organization[n - 1];
        match token_for(config.quay_login_configs.quay_endpoint_login, org.quay_endpoint) {
            Some(token) => DeletePlanView {
                organizations: before.organizations.push(
                    ActionView {
                        request: delete_organization_request(org),
                        arguments: context(config, token),
                    },
                ),
                ..before
            },
            None => DeletePlanView { skipped: before.skipped.push(n - 1), ..before },
        }
    }
}

/// The plan of a run that deletes every organization of the store.
pub open spec fn delete_plan(config: QuayXmlConfigView) -> DeletePlanView {
    delete_plan_upto(config, config.organization.len())
}

/// Puts each of `requests` into the context `arguments`.
fn in_context(requests: &Vec<Request>, arguments: &QuayFnArguments) -> (actions: Vec<Action>)
    ensures
        views(actions@) == actions_for(views(requests@), arguments@),
{
    let ghost wanted = actions_for(views(requests@), arguments@);
    let mut actions: Vec<Action> = Vec::new();
    assert(views(actions@) =~= wanted.take(0));
    let mut i: usize = 0;
    while i < requests.len()
        invariant
            i <= requests.len(),
            wanted == actions_for(views(requests@), arguments@),
            views(actions@) == wanted.take(i as int),
        decreases requests.len() - i,
    {
        let ghost before = actions@;
        let action = Action { request: requests[i].clone(), arguments: arguments.clone() };
        actions.push(action);
        proof {
            lemma_views_push(before, action);
            assert(wanted.take(i + 1) =~= wanted.take(i as int).push(action@));
        }
        i += 1;
    }
    assert(wanted.take(i as int) =~= wanted);
    actions
}

/// Appends `more` to `actions`.
fn extend(actions: &mut Vec<Action>, more: Vec<Action>)
    ensures
        views(final(actions)@) == views(old(actions)@) + views(more@),
{
    let mut more = more;
    proof {
        lemma_views_add(actions@, more@);
    }
    actions.append(&mut more);
}

impl QuayXmlConfig {
    /// The context of the actions of an organization whose endpoint has the
    /// token `token`: the settings of the run, and the mirror logins of the
    /// credential store.
    pub fn context(&self, token: String) -> (arguments: QuayFnArguments)
        ensures
            arguments@ == context(self@, token@),
    {
        let mirror_login = self.quay_login_configs.quay_mirror_login.mirror_repository.clone();
        assert(views(mirror_login@) =~= self@.quay_login_configs.quay_mirror_login);
        QuayFnArguments {
            token,
            log_level: self.log_level,
            log_verbosity: self.log_verbosity,
            timeout: self.timeout,
            tls_verify: self.tls_verify,
            mirror_login: Some(mirror_login),
        }
    }

    /// The listings of the permissions of the repositories of one
    /// organization: those of the users, and those of the teams.
    fn fetches(&self, index: usize, arguments: &QuayFnArguments) -> (found: (
        Vec<PermissionFetch>,
        Vec<PermissionFetch>,
    ))
        requires
            index < self.organization.len(),
        ensures
            views(found.0@) == user_fetches(
                index as int,
                self@.organization[index as int],
                arguments@,
            ),
            views(found.1@) == team_fetches(
                index as int,
                self@.organization[index as int],
                arguments@,
            ),
    {
        let org = &self.organization[index];
        let ghost users = user_fetches(index as int, org@, arguments@);
        let ghost teams = team_fetches(index as int, org@, arguments@);
        let mut of_users: Vec<PermissionFetch> = Vec::new();
        let mut of_teams: Vec<PermissionFetch> = Vec::new();
        assert(views(of_users@) =~= users.take(0));
        assert(views(of_teams@) =~= teams.take(0));
        let mut j: usize = 0;
        while j < org.repositories.len()
            invariant
                j <= org.repositories.len(),
                index < self.organization.len(),
                *org == self.organization[index as int],
                users == user_fetches(index as int, org@, arguments@),
                teams == team_fetches(index as int, org@, arguments@),
                views(of_users@) == users.take(j as int),
                views(of_teams@) == teams.take(j as int),
            decreases org.repositories.len() - j,
        {
            let ghost users_before = of_users@;
            let ghost teams_before = of_teams@;
            let of_user = PermissionFetch {
                action: Action {
                    request: org.get_user_permission_from_repository(&org.repositories[j]),
                    arguments: arguments.clone(),
                },
                organization: index,
                repository: j,
            };
            let of_team = PermissionFetch {
                action: Action {
                    request: org.get_team_permission_from_repository(&org.repositories[j]),
                    arguments: arguments.clone(),
                },
                organization: index,
                repository: j,
            };
            of_users.push(of_user);
            of_teams.push(of_team);
            proof {
                lemma_views_push(users_before, of_user);
                lemma_views_push(teams_before, of_team);
                assert(users.take(j + 1) =~= users.take(j as int).push(of_user@));
                assert(teams.take(j + 1) =~= teams.take(j as int).push(of_team@));
            }
            j += 1;
        }
        assert(users.take(j as int) =~= users);
        assert(teams.take(j as int) =~= teams);
        (of_users, of_teams)
    }

    /// The mirrors of one organization.
    fn mirrors(
        org: &OrganizationYaml,
        arguments: &QuayFnArguments,
        sync_start_date: &str,
    ) -> (found: Vec<MirrorAction>)
        ensures
            views(found@) == mirror_actions(org@, arguments@, sync_start_date@),
    {
        let mut found: Vec<MirrorAction> = Vec::new();
        assert(views(found@) =~= Seq::empty());
        let mut j: usize = 0;
        while j < org.repositories.len()
            invariant
                j <= org.repositories.len(),
                views(found@) == mirror_actions_upto(
                    org@,
                    arguments@,
                    sync_start_date@,
                    j as nat,
                ),
            decreases org.repositories.len() - j,
        {
            match org.create_repository_mirror(&org.repositories[j], arguments, sync_start_date) {
                Some(sequence) => {
                    let ghost before = found@;
                    let mirror = MirrorAction { sequence, arguments: arguments.clone() };
                    found.push(mirror);
                    proof {
                        lemma_views_push(before, mirror);
                    }
                },
                None => {},
            }
            j += 1;
        }
        found
    }

    /// Plans the run that creates what the store declares: each
    /// organization whose endpoint has a token contributes to every phase,
    /// in the order of the store. Mirrors are configured to synchronize from
    /// `sync_start_date` on.
    pub fn create_all(&self, sync_start_date: &str) -> (plan: CreatePlan)
        ensures
            plan@ == create_plan(self@, sync_start_date@),
    {
        let mut plan = CreatePlan {
            organizations: Vec::new(),
            robots: Vec::new(),
            teams: Vec::new(),
            team_members: Vec::new(),
            repositories: Vec::new(),
            user_permissions: Vec::new(),
            team_permissions: Vec::new(),
            grants: Vec::new(),
            mirrors: Vec::new(),
            skipped: Vec::new(),
        };
        proof {
            assert(plan@.organizations =~= Seq::empty());
            assert(plan@.robots =~= Seq::empty());
            assert(plan@.teams =~= Seq::empty());
            assert(plan@.team_members =~= Seq::empty());
            assert(plan@.repositories =~= Seq::empty());
            assert(plan@.user_permissions =~= Seq::empty());
            assert(plan@.team_permissions =~= Seq::empty());
            assert(plan@.grants =~= Seq::empty());
            assert(plan@.mirrors =~= Seq::empty());
            assert(plan@.skipped =~= Seq::empty());
        }
        let mut i: usize = 0;
        while i < self.organization.len()
            invariant
                i <= self.organization.len(),
                plan@ == create_plan_upto(self@, sync_start_date@, i as nat),
            decreases self.organization.len() - i,
        {
            let org = &self.organization[i];
            let ghost before = plan@;
            match self.quay_login_configs.get_token_from_quay_endopoint(org.get_quay_endpoint()) {
                Some(token) => {
                    let arguments = self.context(token);
                    let ghost organizations_before = plan.organizations@;
                    let first = Action {
                        request: org.create_organization(),
                        arguments: arguments.clone(),
                    };
                    plan.organizations.push(first);
                    proof {
                        lemma_views_push(organizations_before, first);
                    }
                    extend(&mut plan.robots, in_context(&org.robot_requests(), &arguments));
                    extend(&mut plan.teams, in_context(&org.team_requests(), &arguments));
                    extend(&mut plan.team_members, in_context(&org.member_requests(), &arguments));
                    extend(
                        &mut plan.repositories,
                        in_context(&org.repository_requests(), &arguments),
                    );
                    let (mut of_users, mut of_teams) = self.fetches(i, &arguments);
                    proof {
                        lemma_views_add(plan.user_permissions@, of_users@);
                        lemma_views_add(plan.team_permissions@, of_teams@);
                    }
                    plan.user_permissions.append(&mut of_users);
                    plan.team_permissions.append(&mut of_teams);
                    extend(&mut plan.grants, in_context(&org.grant_requests(), &arguments));
                    let mut mirrors = Self::mirrors(org, &arguments, sync_start_date);
                    proof {
                        lemma_views_add(plan.mirrors@, mirrors@);
                    }
                    plan.mirrors.append(&mut mirrors);
                    assert(plan@.skipped == before.skipped);
                    assert(plan@ == with_organization(
                        before,
                        i as int,
                        org@,
                        arguments@,
                        sync_start_date@,
                    ));
                },
                None => {
                    plan.skipped.push(i);
                    assert(plan@.skipped =~= before.skipped.push(i as int));
                },
            }
            i += 1;
        }
        plan
    }

    /// Plans the run that deletes every organization of the store whose
    /// endpoint has a token.
    pub fn delete_all(&self) -> (plan: DeletePlan)
        ensures
            plan@ == delete_plan(self@),
    {
        let mut plan = DeletePlan { organizations: Vec::new(), skipped: Vec::new() };
        proof {
            assert(plan@.organizations =~= Seq::empty());
            assert(plan@.skipped =~= Seq::empty());
        }
        let mut i: usize = 0;
        while i < self.organization.len()
            invariant
                i <= self.organization.len(),
                plan@ == delete_plan_upto(self@, i as nat),
            decreases self.organization.len() - i,
        {
            let org = &self.organization[i];
            let ghost before = plan@;
            match self.quay_login_configs.get_token_from_quay_endopoint(org.get_quay_endpoint()) {
                Some(token) => {
                    let ghost organizations_before = plan.organizations@;
                    let action = Action {
                        request: org.delete_organization(),
                        arguments: self.context(token),
                    };
                    plan.organizations.push(action);
                    proof {
                        lemma_views_push(organizations_before, action);
                    }
                    assert(plan@.skipped == before.skipped);
                },
                None => {
                    plan.skipped.push(i);
                    assert(plan@.skipped =~= before.skipped.push(i as int));
                },
            }
            i += 1;
        }
        plan
    }
}

} // verus!
