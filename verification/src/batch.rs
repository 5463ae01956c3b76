//! The requests of one organization, listed phase by phase.

use crate::actions::{
    add_robot_to_team_request, add_user_to_team_request, create_repository_request,
    create_robot_request, create_team_request, grant_robot_permission_request,
    grant_team_permission_request, grant_user_permission_request,
};
use crate::desired::{
    OrganizationView, OrganizationYaml, PermissionsView, Repository, RepositoryView, Team, TeamView,
    UserElement, };
use crate::request::{Request, RequestView};
use crate::views::{lemma_views_add, lemma_views_push, views};
use vstd::prelude::*;

verus! {

/// One request for each robot of the organization, in order.
pub open spec fn robot_requests(org: OrganizationView) -> Seq<RequestView> {
    Seq::new(org.robots.len(), |i: int| create_robot_request(org, org.robots[i]))
}

/// One request for each team of the organization, in order.
pub open spec fn team_requests(org: OrganizationView) -> Seq<RequestView> {
    Seq::new(org.teams.len(), |i: int| create_team_request(org, org.teams[i]))
}

/// One request for each member of a team: the users, then the robots.
pub open spec fn members_of_team(org: OrganizationView, team: TeamView) -> Seq<RequestView> {
    Seq::new(
        team.members.users.len(),
        |i: int| add_user_to_team_request(org, team.name, team.members.users[i]),
    ) + Seq::new(
        team.members.robots.len(),
        |i: int| add_robot_to_team_request(org, team.name, team.members.robots[i]),
    )
}

/// The requests for the members of the first `n` teams of the organization.
pub open spec fn member_requests_upto(org: OrganizationView, n: nat) -> Seq<RequestView>
    decreases n,
{
    if n == 0 {
        Seq::empty()
    } else {
        member_requests_upto(org, (n - 1) as nat) + members_of_team(org, org.teams[n - 1])
    }
}

/// One request for each member of each team of the organization, team by
/// team.
pub open spec fn member_requests(org: OrganizationView) -> Seq<RequestView> {
    member_requests_upto(org, org.teams.len())
}

/// One request for each repository of the organization, in order.
pub open spec fn repository_requests(org: OrganizationView) -> Seq<RequestView> {
    Seq::new(org.repositories.len(), |i: int| create_repository_request(org, org.repositories[i]))
}

/// The grants that `permissions` ask for on a repository: the robots, then
/// the teams, then the users.
pub open spec fn grants_of_permissions(
    org: OrganizationView,
    repository: Seq<char>,
    permissions: PermissionsView,
) -> Seq<RequestView> {
    Seq::new(
        permissions.robots.len(),
        |i: int| grant_robot_permission_request(org, repository, permissions.robots[i]),
    ) + match permissions.teams {
        Some(teams) => Seq::new(
            teams.len(),
            |i: int| grant_team_permission_request(org, repository, teams[i]),
        ),
        None => Seq::empty(),
    } + Seq::new(
        permissions.users.len(),
        |i: int| grant_user_permission_request(org, repository, permissions.users[i]),
    )
}

/// The grants that a repository asks for; none where it declares no
/// permissions.
pub open spec fn grants_of_repository(org: OrganizationView, repository: RepositoryView) -> Seq<
    RequestView,
> {
    match repository.permissions {
        Some(permissions) => grants_of_permissions(org, repository.name, permissions),
        None => Seq::empty(),
    }
}

/// The grants of the first `n` repositories of the organization.
pub open spec fn grant_requests_upto(org: OrganizationView, n: nat) -> Seq<RequestView>
    decreases n,
{
    if n == 0 {
        Seq::empty()
    } else {
        grant_requests_upto(org, (n - 1) as nat) + grants_of_repository(
            org,
            org.repositories[n - 1],
        )
    }
}

/// One grant for each permission entry that the repositories of the
/// organization declare, repository by repository.
pub open spec fn grant_requests(org: OrganizationView) -> Seq<RequestView> {
    grant_requests_upto(org, org.repositories.len())
}

/// Which grant a list of entries is for.
#[derive(Clone, Copy, PartialEq, Eq, Structural)]
enum Grantee {
    Robot,
    Team,
    User,
}

impl OrganizationYaml {
    /// The requests that create the robots of the organization.
    pub fn robot_requests(&self) -> (requests: Vec<Request>)
        ensures
            views(requests@) == robot_requests(self@),
    {
        let ghost wanted = robot_requests(self@);
        let mut requests: Vec<Request> = Vec::new();
        assert(views(requests@) =~= wanted.take(0));
        let mut i: usize = 0;
        while i < self.robots.len()
            invariant
                i <= self.robots.len(),
                wanted == robot_requests(self@),
                views(requests@) == wanted.take(i as int),
            decreases self.robots.len() - i,
        {
            let ghost before = requests@;
            let request = self.create_robot(&self.robots[i]);
            requests.push(request);
            proof {
                lemma_views_push(before, request);
                assert(wanted.take(i + 1) =~= wanted.take(i as int).push(request@));
            }
            i += 1;
        }
        assert(wanted.take(i as int) =~= wanted);
        requests
    }

    /// The requests that create the teams of the organization.
    pub fn team_requests(&self) -> (requests: Vec<Request>)
        ensures
            views(requests@) == team_requests(self@),
    {
        let ghost wanted = team_requests(self@);
        let mut requests: Vec<Request> = Vec::new();
        assert(views(requests@) =~= wanted.take(0));
        let mut i: usize = 0;
        while i < self.teams.len()
            invariant
                i <= self.teams.len(),
                wanted == team_requests(self@),
                views(requests@) == wanted.take(i as int),
            decreases self.teams.len() - i,
        {
            let ghost before = requests@;
            let request = self.create_team(&self.teams[i]);
            requests.push(request);
            proof {
                lemma_views_push(before, request);
                assert(wanted.take(i + 1) =~= wanted.take(i as int).push(request@));
            }
            i += 1;
        }
        assert(wanted.take(i as int) =~= wanted);
        requests
    }

    /// The requests that add the members of one team to it.
    fn members_of_team(&self, team: &Team) -> (requests: Vec<Request>)
        ensures
            views(requests@) == members_of_team(self@, team@),
    {
        let ghost users = Seq::new(
            team@.members.users.len(),
            |i: int| add_user_to_team_request(self@, team@.name, team@.members.users[i]),
        );
        let ghost robots = Seq::new(
            team@.members.robots.len(),
            |i: int| add_robot_to_team_request(self@, team@.name, team@.members.robots[i]),
        );
        let mut requests: Vec<Request> = Vec::new();
        assert(views(requests@) =~= users.take(0));
        let mut i: usize = 0;
        while i < team.members.users.len()
            invariant
                i <= team.members.users.len(),
                users == Seq::new(
                    team@.members.users.len(),
                    |i: int| add_user_to_team_request(self@, team@.name, team@.members.users[i]),
                ),
                views(requests@) == users.take(i as int),
            decreases team.members.users.len() - i,
        {
            let ghost before = requests@;
            let request = self.add_user_to_team(&team.name, &team.members.users[i]);
            requests.push(request);
            proof {
                lemma_views_push(before, request);
                assert(users.take(i + 1) =~= users.take(i as int).push(request@));
            }
            i += 1;
        }
        assert(users.take(i as int) =~= users);
        assert(users + robots.take(0) =~= users);
        let mut j: usize = 0;
        while j < team.members.robots.len()
            invariant
                j <= team.members.robots.len(),
                robots == Seq::new(
                    team@.members.robots.len(),
                    |i: int| add_robot_to_team_request(self@, team@.name, team@.members.robots[i]),
                ),
                views(requests@) == users + robots.take(j as int),
            decreases team.members.robots.len() - j,
        {
            let ghost before = requests@;
            let request = self.add_robot_to_team(&team.name, &team.members.robots[j]);
            requests.push(request);
            proof {
                lemma_views_push(before, request);
                assert(users + robots.take(j + 1) =~= (users + robots.take(j as int)).push(
                    request@,
                ));
            }
            j += 1;
        }
        assert(robots.take(j as int) =~= robots);
        requests
    }

    /// The requests that add the members of the teams of the organization.
    pub fn member_requests(&self) -> (requests: Vec<Request>)
        ensures
            views(requests@) == member_requests(self@),
    {
        let mut requests: Vec<Request> = Vec::new();
        assert(views(requests@) =~= Seq::empty());
        let mut i: usize = 0;
        while i < self.teams.len()
            invariant
                i <= self.teams.len(),
                views(requests@) == member_requests_upto(self@, i as nat),
            decreases self.teams.len() - i,
        {
            let ghost before = requests@;
            let mut members = self.members_of_team(&self.teams[i]);
            proof {
                lemma_views_add(before, members@);
            }
            requests.append(&mut members);
            i += 1;
        }
        requests
    }

    /// The requests that create the repositories of the organization.
    pub fn repository_requests(&self) -> (requests: Vec<Request>)
        ensures
            views(requests@) == repository_requests(self@),
    {
        let ghost wanted = repository_requests(self@);
        let mut requests: Vec<Request> = Vec::new();
        assert(views(requests@) =~= wanted.take(0));
        let mut i: usize = 0;
        while i < self.repositories.len()
            invariant
                i <= self.repositories.len(),
                wanted == repository_requests(self@),
                views(requests@) == wanted.take(i as int),
            decreases self.repositories.len() - i,
        {
            let ghost before = requests@;
            let request = self.create_repository(&self.repositories[i]);
            requests.push(request);
            proof {
                lemma_views_push(before, request);
                assert(wanted.take(i + 1) =~= wanted.take(i as int).push(request@));
            }
            i += 1;
        }
        assert(wanted.take(i as int) =~= wanted);
        requests
    }

    /// Adds one grant of the kind `grantee` for each of `entries` to
    /// `requests`.
    fn add_grants(
        &self,
        requests: &mut Vec<Request>,
        repository: &String,
        entries: &Vec<UserElement>,
        grantee: Grantee,
    )
        ensures
            views(final(requests)@) == views(old(requests)@) + Seq::new(
                entries@.len(),
                |i: int|
                    match grantee {
                        Grantee::Robot => grant_robot_permission_request(
                            self@,
                            repository@,
                            views(entries@)[i],
                        ),
                        Grantee::Team => grant_team_permission_request(
                            self@,
                            repository@,
                            views(entries@)[i],
                        ),
                        Grantee::User => grant_user_permission_request(
                            self@,
                            repository@,
                            views(entries@)[i],
                        ),
                    },
            ),
    {
        let ghost start = views(requests@);
        let ghost wanted = Seq::new(
            entries@.len(),
            |i: int|
                match grantee {
                    Grantee::Robot => grant_robot_permission_request(
                        self@,
                        repository@,
                        views(entries@)[i],
                    ),
                    Grantee::Team => grant_team_permission_request(
                        self@,
                        repository@,
                        views(entries@)[i],
                    ),
                    Grantee::User => grant_user_permission_request(
                        self@,
                        repository@,
                        views(entries@)[i],
                    ),
                },
        );
        assert(start + wanted.take(0) =~= start);
        let mut i: usize = 0;
        while i < entries.len()
            invariant
                i <= entries.len(),
                wanted.len() == entries@.len(),
                forall|k: int|
                    0 <= k < entries@.len() ==> #[trigger] wanted[k] == match grantee {
                        Grantee::Robot => grant_robot_permission_request(
                            self@,
                            repository@,
                            views(entries@)[k],
                        ),
                        Grantee::Team => grant_team_permission_request(
                            self@,
                            repository@,
                            views(entries@)[k],
                        ),
                        Grantee::User => grant_user_permission_request(
                            self@,
                            repository@,
                            views(entries@)[k],
                        ),
                    },
                views(requests@) == start + wanted.take(i as int),
            decreases entries.len() - i,
        {
            let ghost before = requests@;
            let request = match grantee {
                Grantee::Robot => self.grant_robot_permission_to_repository(
                    repository,
                    &entries[i],
                ),
                Grantee::Team => self.grant_team_permission_to_repository(repository, &entries[i]),
                Grantee::User => self.grant_user_permission_to_repository(repository, &entries[i]),
            };
            requests.push(request);
            proof {
                lemma_views_push(before, request);
                assert(wanted[i as int] == request@);
                assert(start + wanted.take(i + 1) =~= (start + wanted.take(i as int)).push(
                    request@,
                ));
            }
            i += 1;
        }
        assert(wanted.take(i as int) =~= wanted);
    }

    /// The grants that one repository asks for.
    fn grants_of_repository(&self, repository: &Repository) -> (requests: Vec<Request>)
        ensures
            views(requests@) == grants_of_repository(self@, repository@),
    {
        let mut requests: Vec<Request> = Vec::new();
        assert(views(requests@) =~= Seq::empty());
        match &repository.permissions {
            Some(permissions) => {
                self.add_grants(
                    &mut requests,
                    &repository.name,
                    &permissions.robots,
                    Grantee::Robot,
                );
                match &permissions.teams {
                    Some(teams) => {
                        self.add_grants(&mut requests, &repository.name, teams, Grantee::Team);
                    },
                    None => {},
                }
                self.add_grants(&mut requests, &repository.name, &permissions.users, Grantee::User);
                proof {
                    let wanted = grants_of_permissions(self@, repository@.name, permissions@);
                    assert(views(requests@) =~= wanted);
                }
            },
            None => {},
        }
        requests
    }

    /// The requests that grant the permissions that the repositories of the
    /// organization declare.
    pub fn grant_requests(&self) -> (requests: Vec<Request>)
        ensures
            views(requests@) == grant_requests(self@),
    {
        let mut requests: Vec<Request> = Vec::new();
        assert(views(requests@) =~= Seq::empty());
        let mut i: usize = 0;
        while i < self.repositories.len()
            invariant
                i <= self.repositories.len(),
                views(requests@) == grant_requests_upto(self@, i as nat),
            decreases self.repositories.len() - i,
        {
            let ghost before = requests@;
            let mut grants = self.grants_of_repository(&self.repositories[i]);
            proof {
                lemma_views_add(before, grants@);
            }
            requests.append(&mut grants);
            i += 1;
        }
        requests
    }
}

} // verus!
