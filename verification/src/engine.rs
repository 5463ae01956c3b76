//! The reconciliation engine: the phases of a run, and what follows from
//! each outcome.
//!
//! The engine decides; it sends nothing. A run starts with the actions of
//! its first wave. Whoever performs them hands each outcome back, and is
//! told what to send next. The actions of a wave are sent together; the next
//! wave starts when every action of the wave, and everything that followed
//! from it, has an outcome. What an outcome is, a result or a failure, never
//! holds back another action.

use crate::desired::OrganizationView;
use crate::differ::{team_permission_deletes, user_permission_deletes};
use crate::executor::{ActionResult, QuayFnArguments};
use crate::mirror::{mirror_next, mirror_reports, mirror_transition, MirrorState};
use crate::plan::{
    actions_for, Action, ActionView, CreatePlan, CreatePlanView, MirrorAction, MirrorActionView,
    PermissionFetch, PermissionFetchView,
};
use crate::request::Request;
use crate::store::{QuayXmlConfig, QuayXmlConfigView};
use crate::views::{lemma_views_add, lemma_views_push, views};
use vstd::prelude::*;

verus! {

/// The phases of a run that creates, in order.
#[derive(Debug, Clone, Copy, PartialEq, Eq, Structural)]
pub enum Phase {
    CreateOrganizations,
    CreateRobots,
    CreateTeams,
    CreateRepositories,
    ReconcilePermissions,
    GrantPermissions,
    ConfigureMirrors,
    Done,
}

/// The waves of a run that creates, in order. A wave is what is sent
/// together. Each phase is one wave, but for the phase of the teams: the
/// teams are created first, and their members added once that is done.
#[derive(Debug, Clone, Copy, PartialEq, Eq, Structural)]
pub enum Wave {
    Organizations,
    Robots,
    Teams,
    TeamMembers,
    Repositories,
    Permissions,
    Grants,
    Mirrors,
    Done,
}

/// The phase that a wave belongs to.
pub open spec fn phase_of(wave: Wave) -> Phase {
    match wave {
        Wave::Organizations => Phase::CreateOrganizations,
        Wave::Robots => Phase::CreateRobots,
        Wave::Teams => Phase::CreateTeams,
        Wave::TeamMembers => Phase::CreateTeams,
        Wave::Repositories => Phase::CreateRepositories,
        Wave::Permissions => Phase::ReconcilePermissions,
        Wave::Grants => Phase::GrantPermissions,
        Wave::Mirrors => Phase::ConfigureMirrors,
        Wave::Done => Phase::Done,
    }
}

/// The wave that follows; nothing follows the end.
pub open spec fn next_wave(wave: Wave) -> Wave {
    match wave {
        Wave::Organizations => Wave::Robots,
        Wave::Robots => Wave::Teams,
        Wave::Teams => Wave::TeamMembers,
        Wave::TeamMembers => Wave::Repositories,
        Wave::Repositories => Wave::Permissions,
        Wave::Permissions => Wave::Grants,
        Wave::Grants => Wave::Mirrors,
        Wave::Mirrors => Wave::Done,
        Wave::Done => Wave::Done,
    }
}

/// How many waves come before a wave.
pub open spec fn rank(wave: Wave) -> nat {
    match wave {
        Wave::Organizations => 0,
        Wave::Robots => 1,
        Wave::Teams => 2,
        Wave::TeamMembers => 3,
        Wave::Repositories => 4,
        Wave::Permissions => 5,
        Wave::Grants => 6,
        Wave::Mirrors => 7,
        Wave::Done => 8,
    }
}

impl Wave {
    /// The phase that the wave belongs to.
    pub fn phase(self) -> (phase: Phase)
        ensures
            phase == phase_of(self),
    {
        match self {
            Wave::Organizations => Phase::CreateOrganizations,
            Wave::Robots => Phase::CreateRobots,
            Wave::Teams => Phase::CreateTeams,
            Wave::TeamMembers => Phase::CreateTeams,
            Wave::Repositories => Phase::CreateRepositories,
            Wave::Permissions => Phase::ReconcilePermissions,
            Wave::Grants => Phase::GrantPermissions,
            Wave::Mirrors => Phase::ConfigureMirrors,
            Wave::Done => Phase::Done,
        }
    }

    /// The wave that follows.
    pub fn next(self) -> (next: Wave)
        ensures
            next == next_wave(self),
    {
        match self {
            Wave::Organizations => Wave::Robots,
            Wave::Robots => Wave::Teams,
            Wave::Teams => Wave::TeamMembers,
            Wave::TeamMembers => Wave::Repositories,
            Wave::Repositories => Wave::Permissions,
            Wave::Permissions => Wave::Grants,
            Wave::Grants => Wave::Mirrors,
            Wave::Mirrors => Wave::Done,
            Wave::Done => Wave::Done,
        }
    }
}

/// What an action is, as far as its outcome matters to the engine.
#[derive(Debug, Clone, Copy, PartialEq, Eq, Structural)]
pub enum Ticket {
    /// An action whose outcome is reported and has no consequence.
    Plain,
    /// The listing of the user permissions of a repository, with the place
    /// of the repository in the store.
    UserListing { organization: usize, repository: usize },
    /// The listing of the team permissions of a repository.
    TeamListing { organization: usize, repository: usize },
    /// The request of a mirror that is under way in `state`; `index` is the
    /// place of the mirror in the plan.
    Mirror { index: usize, state: MirrorState },
}

/// An action to send, with its ticket. The ticket comes back with the
/// outcome.
#[derive(Debug, Clone, PartialEq, Eq)]
pub struct Dispatch {
    pub ticket: Ticket,
    pub action: Action,
}

/// The view of [`Dispatch`].
pub struct DispatchView {
    pub ticket: Ticket,
    pub action: ActionView,
}

impl View for Dispatch {
    type V = DispatchView;

    open spec fn view(&self) -> DispatchView {
        DispatchView { ticket: self.ticket, action: self.action@ }
    }
}

/// Each of `actions` as a plain action.
pub open spec fn plain(actions: Seq<ActionView>) -> Seq<DispatchView> {
    Seq::new(actions.len(), |i: int| DispatchView { ticket: Ticket::Plain, action: actions[i] })
}

/// Each of `fetches` as a listing of user permissions.
pub open spec fn user_listings(fetches: Seq<PermissionFetchView>) -> Seq<DispatchView> {
    Seq::new(
        fetches.len(),
        |i: int|
            DispatchView {
                ticket: Ticket::UserListing {
                    organization: fetches[i].organization as usize,
                    repository: fetches[i].repository as usize,
                },
                action: fetches[i].action,
            },
    )
}

/// Each of `fetches` as a listing of team permissions.
pub open spec fn team_listings(fetches: Seq<PermissionFetchView>) -> Seq<DispatchView> {
    Seq::new(
        fetches.len(),
        |i: int|
            DispatchView {
                ticket: Ticket::TeamListing {
                    organization: fetches[i].organization as usize,
                    repository: fetches[i].repository as usize,
                },
                action: fetches[i].action,
            },
    )
}

/// The first request of each of `mirrors`.
pub open spec fn mirror_starts(mirrors: Seq<MirrorActionView>) -> Seq<DispatchView> {
    Seq::new(
        mirrors.len(),
        |i: int|
            DispatchView {
                ticket: Ticket::Mirror { index: i as usize, state: MirrorState::Init },
                action: ActionView {
                    request: mirrors[i].sequence.change_state,
                    arguments: mirrors[i].arguments,
                },
            },
    )
}

/// The actions that a wave starts with.
pub open spec fn wave_dispatches(plan: CreatePlanView, wave: Wave) -> Seq<DispatchView> {
    match wave {
        Wave::Organizations => plain(plan.organizations),
        Wave::Robots => plain(plan.robots),
        Wave::Teams => plain(plan.teams),
        Wave::TeamMembers => plain(plan.team_members),
        Wave::Repositories => plain(plan.repositories),
        Wave::Permissions => user_listings(plan.user_permissions) + team_listings(
            plan.team_permissions,
        ),
        Wave::Grants => plain(plan.grants),
        Wave::Mirrors => mirror_starts(plan.mirrors),
        Wave::Done => Seq::empty(),
    }
}

/// The first wave, from `wave` on, that has an action to send; the end
/// where there is none.
pub open spec fn first_busy(plan: CreatePlanView, wave: Wave) -> Wave
    decreases 8 - rank(wave),
{
    if wave == Wave::Done || wave_dispatches(plan, wave).len() > 0 {
        wave
    } else {
        first_busy(plan, next_wave(wave))
    }
}

/// Where a run stands: the wave under way, and how many of its actions
/// have no outcome yet.
#[derive(Debug, Clone, Copy, PartialEq, Eq, Structural)]
pub struct Run {
    pub wave: Wave,
    pub outstanding: usize,
}

impl Run {
    /// Whether the run is consistent: it is over exactly when no action is
    /// under way.
    pub open spec fn well_formed(self) -> bool {
        (self.wave == Wave::Done) == (self.outstanding == 0)
    }
}

/// Why an outcome was not taken.
#[derive(Debug, Clone, Copy, PartialEq, Eq, Structural)]
pub enum RunError {
    /// No action is under way.
    NothingOutstanding,
    /// More actions would be under way than can be counted.
    TooManyActions,
}

/// A run in the wave `wave`, with the actions that the wave starts with
/// under way.
pub open spec fn entering(plan: CreatePlanView, wave: Wave) -> Run {
    Run { wave, outstanding: wave_dispatches(plan, wave).len() as usize }
}

/// The organization at the place `organization` of the store, and the name
/// of its repository at the place `repository`; nothing where the store has
/// no such place.
pub open spec fn place(config: QuayXmlConfigView, organization: usize, repository: usize) -> Option<
    (OrganizationView, Seq<char>),
> {
    if organization < config.organization.len() && repository
        < config.organization[organization as int].repositories.len() {
        Some(
            (
                config.organization[organization as int],
                config.organization[organization as int].repositories[repository as int].name,
            ),
        )
    } else {
        None
    }
}

/// What follows from the outcome of an action.
///
/// Nothing follows from a plain action. From the answer to a listing follow
/// the requests that revoke what is not wanted, in the context of the
/// listing. From the outcome of a request of a mirror follows the next
/// request of the mirror, if it has one.
pub open spec fn follow_ups(
    config: QuayXmlConfigView,
    plan: CreatePlanView,
    resolved: DispatchView,
    outcome: ActionResult,
) -> Seq<DispatchView> {
    match resolved.ticket {
        Ticket::Plain => Seq::empty(),
        Ticket::UserListing { organization, repository } => match (
            outcome,
            place(config, organization, repository),
        ) {
            (Ok(response), Some((org, name))) => plain(
                actions_for(
                    user_permission_deletes(org, name, response.status_code, response.response),
                    resolved.action.arguments,
                ),
            ),
            _ => Seq::empty(),
        },
        Ticket::TeamListing { organization, repository } => match (
            outcome,
            place(config, organization, repository),
        ) {
            (Ok(response), Some((org, name))) => plain(
                actions_for(
                    team_permission_deletes(org, name, response.status_code, response.response),
                    resolved.action.arguments,
                ),
            ),
            _ => Seq::empty(),
        },
        Ticket::Mirror { index, state } => if index < plan.mirrors.len() {
            match mirror_next(plan.mirrors[index as int].sequence, state, outcome) {
                Some(request) => seq![
                    DispatchView {
                        ticket: Ticket::Mirror { index, state: mirror_transition(state, outcome) },
                        action: ActionView {
                            request,
                            arguments: plan.mirrors[index as int].arguments,
                        },
                    },
                ],
                None => Seq::empty(),
            }
        } else {
            Seq::empty()
        },
    }
}

/// Whether the outcome of an action is reported. Every outcome is, but
/// those of the requests of a mirror that do not end its sequence.
pub open spec fn reports(
    plan: CreatePlanView,
    resolved: DispatchView,
    outcome: ActionResult,
) -> bool {
    match resolved.ticket {
        Ticket::Mirror { index, state } => index < plan.mirrors.len() ==> mirror_reports(
            state,
            outcome,
        ),
        _ => true,
    }
}

/// What taking an outcome leads to.
pub struct Resolved {
    /// Where the run stands afterwards.
    pub run: Run,
    /// What is to be sent now.
    pub dispatch: Seq<DispatchView>,
}

/// What taking the outcome of `resolved` leads to, for a run with an
/// action under way.
///
/// The action no longer counts as under way; what follows from its outcome
/// does. While the wave has actions under way, only what follows is sent.
/// Once it has none, the run enters the next wave that has actions, and
/// sends them.
pub open spec fn resolve(
    run: Run,
    config: QuayXmlConfigView,
    plan: CreatePlanView,
    resolved: DispatchView,
    outcome: ActionResult,
) -> Resolved {
    let follow = follow_ups(config, plan, resolved, outcome);
    let left = run.outstanding - 1 + follow.len();
    if left > 0 {
        Resolved { run: Run { wave: run.wave, outstanding: left as usize }, dispatch: follow }
    } else {
        let wave = first_busy(plan, next_wave(run.wave));
        Resolved { run: entering(plan, wave), dispatch: wave_dispatches(plan, wave) }
    }
}

/// The outcome of taking an outcome: what is to be sent now, and what is
/// to be reported.
#[derive(Debug, PartialEq, Eq)]
pub struct Resolution {
    pub dispatch: Vec<Dispatch>,
    pub report: Option<ActionResult>,
}

/// Each of `actions` as a plain action.
fn plain_dispatches(actions: &Vec<Action>) -> (dispatches: Vec<Dispatch>)
    ensures
        views(dispatches@) == plain(views(actions@)),
{
    let ghost wanted = plain(views(actions@));
    let mut dispatches: Vec<Dispatch> = Vec::new();
    assert(views(dispatches@) =~= wanted.take(0));
    let mut i: usize = 0;
    while i < actions.len()
        invariant
            i <= actions.len(),
            wanted == plain(views(actions@)),
            views(dispatches@) == wanted.take(i as int),
        decreases actions.len() - i,
    {
        let ghost before = dispatches@;
        let dispatch = Dispatch { ticket: Ticket::Plain, action: actions[i].clone() };
        dispatches.push(dispatch);
        proof {
            lemma_views_push(before, dispatch);
            assert(wanted.take(i + 1) =~= wanted.take(i as int).push(dispatch@));
        }
        i += 1;
    }
    assert(wanted.take(i as int) =~= wanted);
    dispatches
}

/// Each of `requests` as a plain action in the context `arguments`.
fn plain_requests(requests: &Vec<Request>, arguments: &QuayFnArguments) -> (dispatches: Vec<
    Dispatch,
>)
    ensures
        views(dispatches@) == plain(actions_for(views(requests@), arguments@)),
{
    let ghost wanted = plain(actions_for(views(requests@), arguments@));
    let mut dispatches: Vec<Dispatch> = Vec::new();
    assert(views(dispatches@) =~= wanted.take(0));
    let mut i: usize = 0;
    while i < requests.len()
        invariant
            i <= requests.len(),
            wanted == plain(actions_for(views(requests@), arguments@)),
            views(dispatches@) == wanted.take(i as int),
        decreases requests.len() - i,
    {
        let ghost before = dispatches@;
        let dispatch = Dispatch {
            ticket: Ticket::Plain,
            action: Action { request: requests[i].clone(), arguments: arguments.clone() },
        };
        dispatches.push(dispatch);
        proof {
            lemma_views_push(before, dispatch);
            assert(wanted.take(i + 1) =~= wanted.take(i as int).push(dispatch@));
        }
        i += 1;
    }
    assert(wanted.take(i as int) =~= wanted);
    dispatches
}

/// Each of `fetches` as a listing, of user permissions or of team
/// permissions.
fn listing_dispatches(fetches: &Vec<PermissionFetch>, of_users: bool) -> (dispatches: Vec<Dispatch>)
    ensures
        views(dispatches@) == if of_users {
            user_listings(views(fetches@))
        } else {
            team_listings(views(fetches@))
        },
{
    let ghost wanted = if of_users {
        user_listings(views(fetches@))
    } else {
        team_listings(views(fetches@))
    };
    let mut dispatches: Vec<Dispatch> = Vec::new();
    assert(views(dispatches@) =~= wanted.take(0));
    let mut i: usize = 0;
    while i < fetches.len()
        invariant
            i <= fetches.len(),
            wanted == if of_users {
                user_listings(views(fetches@))
            } else {
                team_listings(views(fetches@))
            },
            views(dispatches@) == wanted.take(i as int),
        decreases fetches.len() - i,
    {
        let ghost before = dispatches@;
        let fetch = &fetches[i];
        let ticket = if of_users {
            Ticket::UserListing { organization: fetch.organization, repository: fetch.repository }
        } else {
            Ticket::TeamListing { organization: fetch.organization, repository: fetch.repository }
        };
        let dispatch = Dispatch { ticket, action: fetch.action.clone() };
        dispatches.push(dispatch);
        proof {
            lemma_views_push(before, dispatch);
            assert(wanted.take(i + 1) =~= wanted.take(i as int).push(dispatch@));
        }
        i += 1;
    }
    assert(wanted.take(i as int) =~= wanted);
    dispatches
}

/// The first request of each of `mirrors`.
fn mirror_dispatches(mirrors: &Vec<MirrorAction>) -> (dispatches: Vec<Dispatch>)
    ensures
        views(dispatches@) == mirror_starts(views(mirrors@)),
{
    let ghost wanted = mirror_starts(views(mirrors@));
    let mut dispatches: Vec<Dispatch> = Vec::new();
    assert(views(dispatches@) =~= wanted.take(0));
    let mut i: usize = 0;
    while i < mirrors.len()
        invariant
            i <= mirrors.len(),
            wanted == mirror_starts(views(mirrors@)),
            views(dispatches@) == wanted.take(i as int),
        decreases mirrors.len() - i,
    {
        let ghost before = dispatches@;
        let (state, request) = mirrors[i].sequence.start();
        let dispatch = Dispatch {
            ticket: Ticket::Mirror { index: i, state },
            action: Action { request, arguments: mirrors[i].arguments.clone() },
        };
        dispatches.push(dispatch);
        proof {
            lemma_views_push(before, dispatch);
            assert(wanted.take(i + 1) =~= wanted.take(i as int).push(dispatch@));
        }
        i += 1;
    }
    assert(wanted.take(i as int) =~= wanted);
    dispatches
}

impl CreatePlan {
    /// The actions that a wave starts with.
    pub fn dispatches(&self, wave: Wave) -> (dispatches: Vec<Dispatch>)
        ensures
            views(dispatches@) == wave_dispatches(self@, wave),
    {
        match wave {
            Wave::Organizations => plain_dispatches(&self.organizations),
            Wave::Robots => plain_dispatches(&self.robots),
            Wave::Teams => plain_dispatches(&self.teams),
            Wave::TeamMembers => plain_dispatches(&self.team_members),
            Wave::Repositories => plain_dispatches(&self.repositories),
            Wave::Permissions => {
                let mut dispatches = listing_dispatches(&self.user_permissions, true);
                let mut of_teams = listing_dispatches(&self.team_permissions, false);
                proof {
                    lemma_views_add(dispatches@, of_teams@);
                }
                dispatches.append(&mut of_teams);
                dispatches
            },
            Wave::Grants => plain_dispatches(&self.grants),
            Wave::Mirrors => mirror_dispatches(&self.mirrors),
            Wave::Done => {
                let dispatches: Vec<Dispatch> = Vec::new();
                assert(views(dispatches@) =~= Seq::empty());
                dispatches
            },
        }
    }

    /// Enters the first wave, from `wave` on, that has an action to send.
    fn enter(&self, wave: Wave) -> (entered: (Run, Vec<Dispatch>))
        ensures
            entered.0 == entering(self@, first_busy(self@, wave)),
            views(entered.1@) == wave_dispatches(self@, first_busy(self@, wave)),
            entered.0.outstanding == entered.1@.len(),
            entered.0.well_formed(),
    {
        let ghost from = wave;
        let mut wave = wave;
        let mut dispatches = self.dispatches(wave);
        while wave != Wave::Done && dispatches.len() == 0
            invariant
                views(dispatches@) == wave_dispatches(self@, wave),
                first_busy(self@, wave) == first_busy(self@, from),
            decreases 8 - rank(wave),
        {
            wave = wave.next();
            dispatches = self.dispatches(wave);
        }
        (Run { wave, outstanding: dispatches.len() }, dispatches)
    }

    /// Starts the run: the first wave that has an action to send, and its
    /// actions.
    pub fn begin(&self) -> (started: (Run, Vec<Dispatch>))
        ensures
            started.0 == entering(self@, first_busy(self@, Wave::Organizations)),
            views(started.1@) == wave_dispatches(self@, first_busy(self@, Wave::Organizations)),
            started.0.outstanding == started.1@.len(),
            started.0.well_formed(),
    {
        self.enter(Wave::Organizations)
    }
}

/// No action that follows, as a list.
fn nothing() -> (dispatches: Vec<Dispatch>)
    ensures
        views(dispatches@) == Seq::<DispatchView>::empty(),
{
    let dispatches: Vec<Dispatch> = Vec::new();
    assert(views(dispatches@) =~= Seq::empty());
    dispatches
}

/// What follows from the outcome of `resolved`, and what is reported.
fn consequences(
    config: &QuayXmlConfig,
    plan: &CreatePlan,
    resolved: &Dispatch,
    outcome: ActionResult,
) -> (found: (Vec<Dispatch>, Option<ActionResult>))
    ensures
        views(found.0@) == follow_ups(config@, plan@, resolved@, outcome),
        found.1 == if reports(plan@, resolved@, outcome) {
            Some(outcome)
        } else {
            None
        },
{
    match resolved.ticket {
        Ticket::Plain => (nothing(), Some(outcome)),
        Ticket::UserListing { organization, repository } => {
            let follow = match &outcome {
                Ok(response) => {
                    if organization < config.organization.len() && repository
                        < config.organization[organization].repositories.len() {
                        let org = &config.organization[organization];
                        let deletes = org.revoke_user_permissions(
                            &org.repositories[repository],
                            response,
                        );
                        plain_requests(&deletes, &resolved.action.arguments)
                    } else {
                        nothing()
                    }
                },
                Err(_) => nothing(),
            };
            (follow, Some(outcome))
        },
        Ticket::TeamListing { organization, repository } => {
            let follow = match &outcome {
                Ok(response) => {
                    if organization < config.organization.len() && repository
                        < config.organization[organization].repositories.len() {
                        let org = &config.organization[organization];
                        let deletes = org.revoke_team_permissions(
                            &org.repositories[repository],
                            response,
                        );
                        plain_requests(&deletes, &resolved.action.arguments)
                    } else {
                        nothing()
                    }
                },
                Err(_) => nothing(),
            };
            (follow, Some(outcome))
        },
        Ticket::Mirror { index, state } => {
            if index < plan.mirrors.len() {
                let mirror = &plan.mirrors[index];
                let step = mirror.sequence.step(state, outcome);
                match step.next {
                    Some(request) => {
                        let mut follow: Vec<Dispatch> = Vec::new();
                        let dispatch = Dispatch {
                            ticket: Ticket::Mirror { index, state: step.state },
                            action: Action { request, arguments: mirror.arguments.clone() },
                        };
                        follow.push(dispatch);
                        assert(views(follow@) =~= seq![dispatch@]);
                        (follow, step.report)
                    },
                    None => (nothing(), step.report),
                }
            } else {
                (nothing(), Some(outcome))
            }
        },
    }
}

impl Run {
    /// Whether the run is over.
    pub fn is_done(&self) -> (done: bool)
        ensures
            done == (self.wave == Wave::Done),
    {
        self.wave == Wave::Done
    }

    /// Takes the outcome of the action `resolved`, which was under way, and
    /// says what to send next and what to report.
    ///
    /// The run moves as `resolve` says. An outcome is refused, and the run
    /// left as it is, where no action is under way, or where more actions
    /// would be under way than can be counted.
    pub fn resolve(
        &mut self,
        config: &QuayXmlConfig,
        plan: &CreatePlan,
        resolved: &Dispatch,
        outcome: ActionResult,
    ) -> (taken: Result<Resolution, RunError>)
        ensures
            old(self).outstanding == 0 ==> taken is Err && taken->Err_0
                == RunError::NothingOutstanding && *final(self) == *old(self),
            old(self).outstanding > 0 && old(self).outstanding - 1 + follow_ups(
                config@,
                plan@,
                resolved@,
                outcome,
            ).len() > usize::MAX ==> taken is Err && taken->Err_0 == RunError::TooManyActions
                && *final(self) == *old(self),
            old(self).outstanding > 0 && old(self).outstanding - 1 + follow_ups(
                config@,
                plan@,
                resolved@,
                outcome,
            ).len() <= usize::MAX ==> {
                &&& taken is Ok
                &&& *final(self) == resolve(*old(self), config@, plan@, resolved@, outcome).run
                &&& views(taken->Ok_0.dispatch@) == resolve(
                    *old(self),
                    config@,
                    plan@,
                    resolved@,
                    outcome,
                ).dispatch
                &&& taken->Ok_0.report == if reports(plan@, resolved@, outcome) {
                    Some(outcome)
                } else {
                    None
                }
            },
            old(self).well_formed() ==> final(self).well_formed(),
    {
        if self.outstanding == 0 {
            return Err(RunError::NothingOutstanding);
        }
        let (follow, report) = consequences(config, plan, resolved, outcome);
        let left = match (self.outstanding - 1).checked_add(follow.len()) {
            Some(left) => left,
            None => {
                return Err(RunError::TooManyActions);
            },
        };
        if left > 0 {
            self.outstanding = left;
            Ok(Resolution { dispatch: follow, report })
        } else {
            let (run, dispatch) = plan.enter(self.wave.next());
            *self = run;
            Ok(Resolution { dispatch, report })
        }
    }
}

/// Whether every action that a wave starts with is plain: all waves but
/// those of the permissions and of the mirrors.
pub open spec fn plain_wave(wave: Wave) -> bool {
    wave != Wave::Permissions && wave != Wave::Mirrors
}

/// In a plain wave no action has an outcome that matters to the engine.
pub proof fn lemma_plain_wave(plan: CreatePlanView, wave: Wave, k: int)
    requires
        plain_wave(wave),
        0 <= k < wave_dispatches(plan, wave).len(),
    ensures
        wave_dispatches(plan, wave)[k].ticket == Ticket::Plain,
{
}

/// Nothing follows from a plain action, whatever its outcome.
pub proof fn lemma_plain_action_has_no_follow_up(
    config: QuayXmlConfigView,
    plan: CreatePlanView,
    resolved: DispatchView,
    outcome: ActionResult,
)
    requires
        resolved.ticket == Ticket::Plain,
    ensures
        follow_ups(config, plan, resolved, outcome) == Seq::<DispatchView>::empty(),
        reports(plan, resolved, outcome),
{
}

/// Phase independence. Let an action of a plain wave, such as the wave of
/// the teams or that of their members, end in a failure. The run then
/// stands exactly where it would stand after any other outcome, and the
/// same actions are sent. While other actions of the wave are under way
/// the run stays in the wave, with one action fewer under way, and sends
/// nothing; when it was the last, the run enters the next wave that has
/// actions and sends them.
pub proof fn lemma_phase_independence(
    run: Run,
    config: QuayXmlConfigView,
    plan: CreatePlanView,
    k: int,
    failure: crate::executor::RequestError,
    other: ActionResult,
)
    requires
        plain_wave(run.wave),
        0 <= k < wave_dispatches(plan, run.wave).len(),
        run.outstanding > 0,
    ensures
        resolve(run, config, plan, wave_dispatches(plan, run.wave)[k], Err(failure)) == resolve(
            run,
            config,
            plan,
            wave_dispatches(plan, run.wave)[k],
            other,
        ),
        run.outstanding > 1 ==> resolve(
            run,
            config,
            plan,
            wave_dispatches(plan, run.wave)[k],
            Err(failure),
        ) == (Resolved {
            run: Run { wave: run.wave, outstanding: (run.outstanding - 1) as usize },
            dispatch: Seq::empty(),
        }),
        run.outstanding == 1 ==> resolve(
            run,
            config,
            plan,
            wave_dispatches(plan, run.wave)[k],
            Err(failure),
        ) == (Resolved {
            run: entering(plan, first_busy(plan, next_wave(run.wave))),
            dispatch: wave_dispatches(plan, first_busy(plan, next_wave(run.wave))),
        }),
{
    let resolved = wave_dispatches(plan, run.wave)[k];
    lemma_plain_wave(plan, run.wave, k);
    lemma_plain_action_has_no_follow_up(config, plan, resolved, Err(failure));
    lemma_plain_action_has_no_follow_up(config, plan, resolved, other);
}

/// Where a run stands after the actions at the places `events[i].0` of the
/// wave `wave` have ended, one after the other, with the outcomes
/// `events[i].1`.
pub open spec fn after_events(
    run: Run,
    config: QuayXmlConfigView,
    plan: CreatePlanView,
    wave: Wave,
    events: Seq<(int, ActionResult)>,
) -> Run
    decreases events.len(),
{
    if events.len() == 0 {
        run
    } else {
        resolve(
            after_events(run, config, plan, wave, events.drop_last()),
            config,
            plan,
            wave_dispatches(plan, wave)[events.last().0],
            events.last().1,
        ).run
    }
}

/// The barrier of a plain wave. Let each of the actions under way in a
/// plain wave end, in any order and with any outcome, failures included.
/// As long as one of them has not ended the run stays in the wave; once the
/// last has ended the run has entered the next wave that has actions.
pub proof fn lemma_plain_wave_barrier(
    run: Run,
    config: QuayXmlConfigView,
    plan: CreatePlanView,
    events: Seq<(int, ActionResult)>,
)
    requires
        plain_wave(run.wave),
        events.len() <= run.outstanding,
        forall|i: int|
            0 <= i < events.len() ==> 0 <= (#[trigger] events[i]).0 < wave_dispatches(
                plan,
                run.wave,
            ).len(),
    ensures
        events.len() < run.outstanding ==> after_events(run, config, plan, run.wave, events) == (
        Run { wave: run.wave, outstanding: (run.outstanding - events.len()) as usize }),
        events.len() > 0 && events.len() == run.outstanding ==> after_events(
            run,
            config,
            plan,
            run.wave,
            events,
        ) == entering(plan, first_busy(plan, next_wave(run.wave))),
    decreases events.len(),
{
    if events.len() > 0 {
        let earlier = events.drop_last();
        assert forall|i: int| 0 <= i < earlier.len() implies 0 <= (#[trigger] earlier[i]).0
            < wave_dispatches(plan, run.wave).len() by {
            assert(earlier[i] == events[i]);
        }
        lemma_plain_wave_barrier(run, config, plan, earlier);
        let before = after_events(run, config, plan, run.wave, earlier);
        let last = events.last();
        assert(last == events[events.len() - 1]);
        lemma_plain_wave(plan, run.wave, last.0);
        lemma_plain_action_has_no_follow_up(
            config,
            plan,
            wave_dispatches(plan, run.wave)[last.0],
            last.1,
        );
    }
}

/// The waves are entered in order: the wave that a run enters comes after
/// the wave `wave` that it leaves, or is the end.
pub proof fn lemma_waves_in_order(plan: CreatePlanView, wave: Wave)
    ensures
        rank(first_busy(plan, wave)) >= rank(wave),
        first_busy(plan, wave) == Wave::Done || wave_dispatches(
            plan,
            first_busy(plan, wave),
        ).len() > 0,
        wave != Wave::Done ==> rank(first_busy(plan, next_wave(wave))) > rank(wave),
    decreases 8 - rank(wave),
{
    if wave != Wave::Done {
        lemma_waves_in_order(plan, next_wave(wave));
    }
}

} // verus!
