//! The permission differ: what the registry reports for a repository, held
//! against what is wanted, gives the permissions to revoke.
//!
//! Principals are compared by name alone: the role that is wanted is granted
//! afterwards, whatever role the principal holds now.

use crate::actions::{delete_team_permission_request, delete_user_permission_request};
use crate::desired::{
    OrganizationView, OrganizationYaml, Permissions, PermissionsView, Repository, RepositoryView,
    UserElement, UserElementView,
};
use crate::executor::QuayResponse;
use crate::json::{flag_of, member, members_of, text_of, JsonValue};
use crate::principal::{
    bare_robot_name, demangle_robot_name, mangle_robot_name, wire_robot_name,
};
use crate::request::{Request, RequestView};
use crate::views::{lemma_views_push, optional_view, views};
use vstd::prelude::*;

verus! {

/// What one entry of a listing says, where it names a principal and a role:
/// the name as reported, the role, and whether the principal is a robot,
/// where the listing tells.
pub struct Reported {
    pub name: Seq<char>,
    pub role: Seq<char>,
    pub is_robot: Option<bool>,
}

/// Reads one entry of a listing. An entry without a name or a role that is
/// a string says nothing.
pub open spec fn reported(entry: JsonValue) -> Option<Reported> {
    match (text_of(member(entry, "name"@)), text_of(member(entry, "role"@))) {
        (Some(name), Some(role)) => Some(
            Reported { name, role, is_robot: flag_of(member(entry, "is_robot"@)) },
        ),
        _ => None,
    }
}

/// The user that an entry reports: it must say that the principal is no
/// robot.
pub open spec fn reported_user(entry: JsonValue) -> Option<UserElementView> {
    match reported(entry) {
        Some(found) => if found.is_robot == Some(false) {
            Some(UserElementView { name: found.name, role: found.role })
        } else {
            None
        },
        None => None,
    }
}

/// The robot that an entry reports, under its bare name: it must say that
/// the principal is a robot.
pub open spec fn reported_robot(organization: Seq<char>, entry: JsonValue) -> Option<
    UserElementView,
> {
    match reported(entry) {
        Some(found) => if found.is_robot == Some(true) {
            Some(
                UserElementView {
                    name: bare_robot_name(organization, found.name),
                    role: found.role,
                },
            )
        } else {
            None
        },
        None => None,
    }
}

/// The team that an entry reports.
pub open spec fn reported_team(entry: JsonValue) -> Option<UserElementView> {
    match reported(entry) {
        Some(found) => Some(UserElementView { name: found.name, role: found.role }),
        None => None,
    }
}

/// The entries of a listing: the members of the object `permissions` of the
/// payload. A payload of another shape lists nothing.
pub open spec fn listing(payload: JsonValue) -> Seq<(String, JsonValue)> {
    members_of(member(payload, "permissions"@))
}

/// The users among the entries of a listing, in order.
pub open spec fn listed_users(entries: Seq<(String, JsonValue)>) -> Seq<UserElementView>
    decreases entries.len(),
{
    if entries.len() == 0 {
        Seq::empty()
    } else {
        let before = listed_users(entries.drop_last());
        match reported_user(entries.last().1) {
            Some(user) => before.push(user),
            None => before,
        }
    }
}

/// The robots among the entries of a listing, in order, under their bare
/// names.
pub open spec fn listed_robots(organization: Seq<char>, entries: Seq<(String, JsonValue)>) -> Seq<
    UserElementView,
>
    decreases entries.len(),
{
    if entries.len() == 0 {
        Seq::empty()
    } else {
        let before = listed_robots(organization, entries.drop_last());
        match reported_robot(organization, entries.last().1) {
            Some(robot) => before.push(robot),
            None => before,
        }
    }
}

/// The teams among the entries of a listing, in order.
pub open spec fn listed_teams(entries: Seq<(String, JsonValue)>) -> Seq<UserElementView>
    decreases entries.len(),
{
    if entries.len() == 0 {
        Seq::empty()
    } else {
        let before = listed_teams(entries.drop_last());
        match reported_team(entries.last().1) {
            Some(team) => before.push(team),
            None => before,
        }
    }
}

/// Whether one of `entries` is for the principal `name`.
pub open spec fn names(entries: Seq<UserElementView>, name: Seq<char>) -> bool {
    exists|i: int| 0 <= i < entries.len() && (#[trigger] entries[i]).name == name
}

/// Those of `actual`, in order, whose principal `desired` does not name.
pub open spec fn without(actual: Seq<UserElementView>, desired: Seq<UserElementView>) -> Seq<
    UserElementView,
>
    decreases actual.len(),
{
    if actual.len() == 0 {
        Seq::empty()
    } else {
        let before = without(actual.drop_last(), desired);
        if names(desired, actual.last().name) {
            before
        } else {
            before.push(actual.last())
        }
    }
}

/// Whether `actual` is nothing but the administrator that the registry
/// itself puts on a new repository: a single entry, with the role `admin`.
pub open spec fn lone_admin(actual: Seq<UserElementView>) -> bool {
    actual.len() == 1 && actual[0].role == "admin"@
}

/// The users that are wanted on a repository.
pub open spec fn wanted_users(desired: Option<PermissionsView>) -> Seq<UserElementView> {
    match desired {
        Some(permissions) => permissions.users,
        None => Seq::empty(),
    }
}

/// The robots that are wanted on a repository.
pub open spec fn wanted_robots(desired: Option<PermissionsView>) -> Seq<UserElementView> {
    match desired {
        Some(permissions) => permissions.robots,
        None => Seq::empty(),
    }
}

/// The teams that are wanted on a repository.
pub open spec fn wanted_teams(desired: Option<PermissionsView>) -> Seq<UserElementView> {
    match desired {
        Some(PermissionsView { teams: Some(teams), .. }) => teams,
        _ => Seq::empty(),
    }
}

/// The user permissions to revoke. Where no user is wanted and the registry
/// reports its lone administrator and nobody else, there is nothing to
/// revoke; in every other case each reported user that is not wanted goes.
pub open spec fn extra_users(actual: Seq<UserElementView>, desired: Option<PermissionsView>) -> Seq<
    UserElementView,
> {
    if wanted_users(desired).len() == 0 && lone_admin(actual) {
        Seq::empty()
    } else {
        without(actual, wanted_users(desired))
    }
}

/// The robot permissions to revoke: each reported robot that is not wanted.
pub open spec fn extra_robots(
    actual: Seq<UserElementView>,
    desired: Option<PermissionsView>,
) -> Seq<UserElementView> {
    without(actual, wanted_robots(desired))
}

/// The team permissions to revoke: each reported team that is not wanted.
pub open spec fn extra_teams(actual: Seq<UserElementView>, desired: Option<PermissionsView>) -> Seq<
    UserElementView,
> {
    without(actual, wanted_teams(desired))
}

/// What is left of `actual` is part of it: every entry that stays was
/// reported, and no entry that stays is for a principal that is wanted.
pub proof fn lemma_without_is_difference(
    actual: Seq<UserElementView>,
    desired: Seq<UserElementView>,
)
    ensures
        forall|i: int|
            0 <= i < without(actual, desired).len() ==> {
                &&& actual.contains(#[trigger] without(actual, desired)[i])
                &&& !names(desired, without(actual, desired)[i].name)
            },
        forall|j: int|
            0 <= j < actual.len() && !names(desired, (#[trigger] actual[j]).name) ==> without(
                actual,
                desired,
            ).contains(actual[j]),
    decreases actual.len(),
{
    if actual.len() > 0 {
        let front = actual.drop_last();
        let last = actual.last();
        lemma_without_is_difference(front, desired);
        let kept = without(actual, desired);
        let before = without(front, desired);
        assert forall|i: int| 0 <= i < kept.len() implies {
            &&& actual.contains(#[trigger] kept[i])
            &&& !names(desired, kept[i].name)
        } by {
            if i < before.len() {
                assert(kept[i] == before[i]);
                assert(front.contains(before[i]));
                let k = choose|k: int| 0 <= k < front.len() && front[k] == before[i];
                assert(actual[k] == before[i]);
            } else {
                assert(kept[i] == last);
                assert(actual[actual.len() - 1] == last);
            }
        }
        assert forall|j: int|
            0 <= j < actual.len() && !names(desired, (#[trigger] actual[j]).name) implies kept.contains(
            actual[j],
        ) by {
            if j < front.len() {
                assert(front[j] == actual[j]);
                assert(before.contains(front[j]));
                let k = choose|k: int| 0 <= k < before.len() && before[k] == front[j];
                assert(kept[k] == actual[j]);
            } else {
                assert(kept[kept.len() - 1] == actual[j]);
            }
        }
    }
}

/// Whether one of `entries` is for the principal `name`.
pub fn is_named(entries: &Vec<UserElement>, name: &String) -> (found: bool)
    ensures
        found == names(views(entries@), name@),
{
    let mut i: usize = 0;
    while i < entries.len()
        invariant
            i <= entries.len(),
            forall|k: int| 0 <= k < i ==> (#[trigger] views(entries@)[k]).name != name@,
        decreases entries.len() - i,
    {
        if entries[i].name == *name {
            assert(views(entries@)[i as int].name == name@);
            return true;
        }
        i += 1;
    }
    false
}

/// Those of `actual`, in order, whose principal `desired` does not name.
pub fn difference(actual: &Vec<UserElement>, desired: &Vec<UserElement>) -> (kept: Vec<UserElement>)
    ensures
        views(kept@) == without(views(actual@), views(desired@)),
{
    let ghost all = views(actual@);
    let ghost wanted = views(desired@);
    let mut kept: Vec<UserElement> = Vec::new();
    let mut i: usize = 0;
    assert(views(kept@) =~= Seq::empty());
    assert(all.take(0) =~= Seq::empty());
    while i < actual.len()
        invariant
            i <= actual.len(),
            all == views(actual@),
            wanted == views(desired@),
            views(kept@) == without(all.take(i as int), wanted),
        decreases actual.len() - i,
    {
        proof {
            let upto = all.take(i + 1);
            assert(upto.last() == actual[i as int]@);
            assert(upto.drop_last() =~= all.take(i as int));
        }
        if !is_named(desired, &actual[i].name) {
            let ghost before = kept@;
            let entry = actual[i].clone();
            kept.push(entry);
            proof {
                lemma_views_push(before, entry);
            }
        }
        i += 1;
    }
    assert(all.take(i as int) =~= all);
    kept
}

/// The user permissions to revoke on a repository, given what the registry
/// reports and what is wanted.
pub fn extra_user_permissions(
    actual: &Vec<UserElement>,
    desired: &Option<Permissions>,
) -> (extra: Vec<UserElement>)
    ensures
        views(extra@) == extra_users(views(actual@), optional_view(*desired)),
{
    let nobody: Vec<UserElement> = Vec::new();
    assert(views(nobody@) =~= Seq::empty());
    let wanted = match desired {
        Some(permissions) => &permissions.users,
        None => &nobody,
    };
    if wanted.len() == 0 && actual.len() == 1 {
        let admin = String::from_str("admin");
        if actual[0].role == admin {
            assert(views(actual@)[0].role == "admin"@);
            return nobody;
        }
        assert(views(actual@)[0].role != "admin"@);
    }
    difference(actual, wanted)
}

/// The robot permissions to revoke on a repository; robots go by their bare
/// names.
pub fn extra_robot_permissions(
    actual: &Vec<UserElement>,
    desired: &Option<Permissions>,
) -> (extra: Vec<UserElement>)
    ensures
        views(extra@) == extra_robots(views(actual@), optional_view(*desired)),
{
    match desired {
        Some(permissions) => difference(actual, &permissions.robots),
        None => {
            let nobody: Vec<UserElement> = Vec::new();
            assert(views(nobody@) =~= Seq::empty());
            difference(actual, &nobody)
        },
    }
}

/// The team permissions to revoke on a repository.
pub fn extra_team_permissions(
    actual: &Vec<UserElement>,
    desired: &Option<Permissions>,
) -> (extra: Vec<UserElement>)
    ensures
        views(extra@) == extra_teams(views(actual@), optional_view(*desired)),
{
    let nobody: Vec<UserElement> = Vec::new();
    assert(views(nobody@) =~= Seq::empty());
    match desired {
        Some(permissions) => match &permissions.teams {
            Some(teams) => difference(actual, teams),
            None => difference(actual, &nobody),
        },
        None => difference(actual, &nobody),
    }
}

/// Reads the users and the robots out of a listing of user permissions.
/// Robots come out under their bare names.
pub fn read_user_listing(organization: &String, payload: &JsonValue) -> (found: (
    Vec<UserElement>,
    Vec<UserElement>,
))
    ensures
        views(found.0@) == listed_users(listing(*payload)),
        views(found.1@) == listed_robots(organization@, listing(*payload)),
{
    let mut users: Vec<UserElement> = Vec::new();
    let mut robots: Vec<UserElement> = Vec::new();
    assert(views(users@) =~= Seq::empty());
    assert(views(robots@) =~= Seq::empty());
    let entries = match payload.get("permissions") {
        Some(value) => match value.as_object() {
            Some(members) => members,
            None => {
                return (users, robots);
            },
        },
        None => {
            return (users, robots);
        },
    };
    let ghost all = listing(*payload);
    assert(all == entries@);
    assert(all.take(0) =~= Seq::empty());
    let mut i: usize = 0;
    while i < entries.len()
        invariant
            i <= entries.len(),
            all == entries@,
            views(users@) == listed_users(all.take(i as int)),
            views(robots@) == listed_robots(organization@, all.take(i as int)),
        decreases entries.len() - i,
    {
        proof {
            let upto = all.take(i + 1);
            assert(upto.last() == all[i as int]);
            assert(upto.drop_last() =~= all.take(i as int));
        }
        let entry = &entries[i].1;
        match read_entry(entry) {
            Some((name, role, Some(true))) => {
                let ghost before = robots@;
                let robot = UserElement::new(
                    demangle_robot_name(organization.as_str(), name.as_str()),
                    role,
                );
                robots.push(robot);
                proof {
                    lemma_views_push(before, robot);
                }
            },
            Some((name, role, Some(false))) => {
                let ghost before = users@;
                let user = UserElement::new(name, role);
                users.push(user);
                proof {
                    lemma_views_push(before, user);
                }
            },
            _ => {},
        }
        i += 1;
    }
    assert(all.take(i as int) =~= all);
    (users, robots)
}

/// Reads the teams out of a listing of team permissions.
pub fn read_team_listing(payload: &JsonValue) -> (teams: Vec<UserElement>)
    ensures
        views(teams@) == listed_teams(listing(*payload)),
{
    let mut teams: Vec<UserElement> = Vec::new();
    assert(views(teams@) =~= Seq::empty());
    let entries = match payload.get("permissions") {
        Some(value) => match value.as_object() {
            Some(members) => members,
            None => {
                return teams;
            },
        },
        None => {
            return teams;
        },
    };
    let ghost all = listing(*payload);
    assert(all == entries@);
    assert(all.take(0) =~= Seq::empty());
    let mut i: usize = 0;
    while i < entries.len()
        invariant
            i <= entries.len(),
            all == entries@,
            views(teams@) == listed_teams(all.take(i as int)),
        decreases entries.len() - i,
    {
        proof {
            let upto = all.take(i + 1);
            assert(upto.last() == all[i as int]);
            assert(upto.drop_last() =~= all.take(i as int));
        }
        match read_entry(&entries[i].1) {
            Some((name, role, _)) => {
                let ghost before = teams@;
                let team = UserElement::new(name, role);
                teams.push(team);
                proof {
                    lemma_views_push(before, team);
                }
            },
            None => {},
        }
        i += 1;
    }
    assert(all.take(i as int) =~= all);
    teams
}

/// Reads the name, the role and the robot flag of one entry of a listing.
fn read_entry(entry: &JsonValue) -> (found: Option<(String, String, Option<bool>)>)
    ensures
        match found {
            Some((name, role, is_robot)) => reported(*entry) == Some(
                Reported { name: name@, role: role@, is_robot },
            ),
            None => reported(*entry) is None,
        },
{
    let name = match entry.get("name") {
        Some(value) => match value.as_str() {
            Some(text) => text.clone(),
            None => {
                return None;
            },
        },
        None => {
            return None;
        },
    };
    let role = match entry.get("role") {
        Some(value) => match value.as_str() {
            Some(text) => text.clone(),
            None => {
                return None;
            },
        },
        None => {
            return None;
        },
    };
    let is_robot = match entry.get("is_robot") {
        Some(value) => value.as_bool(),
        None => None,
    };
    Some((name, role, is_robot))
}

/// The repository that the organization declares under `name`: the first
/// of that name.
pub open spec fn declared(repositories: Seq<RepositoryView>, name: Seq<char>) -> Option<
    RepositoryView,
>
    decreases repositories.len(),
{
    if repositories.len() == 0 {
        None
    } else if repositories[0].name == name {
        Some(repositories[0])
    } else {
        declared(repositories.drop_first(), name)
    }
}

/// The requests that revoke the permissions of `users` on a repository.
pub open spec fn user_deletes(
    org: OrganizationView,
    repository: Seq<char>,
    users: Seq<UserElementView>,
) -> Seq<RequestView> {
    Seq::new(users.len(), |i: int| delete_user_permission_request(org, repository, users[i]))
}

/// The requests that revoke the permissions of `robots` on a repository;
/// each robot is named as on the wire.
pub open spec fn robot_deletes(
    org: OrganizationView,
    repository: Seq<char>,
    robots: Seq<UserElementView>,
) -> Seq<RequestView> {
    Seq::new(
        robots.len(),
        |i: int|
            delete_user_permission_request(
                org,
                repository,
                UserElementView {
                    name: wire_robot_name(org.quay_organization, robots[i].name),
                    role: robots[i].role,
                },
            ),
    )
}

/// The requests that revoke the permissions of `teams` on a repository.
pub open spec fn team_deletes(
    org: OrganizationView,
    repository: Seq<char>,
    teams: Seq<UserElementView>,
) -> Seq<RequestView> {
    Seq::new(teams.len(), |i: int| delete_team_permission_request(org, repository, teams[i]))
}

/// What follows from the answer to a listing of user permissions: nothing
/// unless the status is 200 and the organization declares the repository;
/// then one request for each user to revoke, followed by one for each robot
/// to revoke.
pub open spec fn user_permission_deletes(
    org: OrganizationView,
    repository: Seq<char>,
    status: u16,
    payload: JsonValue,
) -> Seq<RequestView> {
    if status != 200 {
        Seq::empty()
    } else {
        match declared(org.repositories, repository) {
            Some(configured) => user_deletes(
                org,
                repository,
                extra_users(listed_users(listing(payload)), configured.permissions),
            ) + robot_deletes(
                org,
                repository,
                extra_robots(
                    listed_robots(org.quay_organization, listing(payload)),
                    configured.permissions,
                ),
            ),
            None => Seq::empty(),
        }
    }
}

/// What follows from the answer to a listing of team permissions: nothing
/// unless the status is 200 and the organization declares the repository;
/// then one request for each team to revoke.
pub open spec fn team_permission_deletes(
    org: OrganizationView,
    repository: Seq<char>,
    status: u16,
    payload: JsonValue,
) -> Seq<RequestView> {
    if status != 200 {
        Seq::empty()
    } else {
        match declared(org.repositories, repository) {
            Some(configured) => team_deletes(
                org,
                repository,
                extra_teams(listed_teams(listing(payload)), configured.permissions),
            ),
            None => Seq::empty(),
        }
    }
}

impl OrganizationYaml {
    /// The repository declared under `name`, if there is one.
    pub fn find_repository(&self, name: &String) -> (found: Option<&Repository>)
        ensures
            optional_view(found) == declared(self@.repositories, name@),
    {
        let ghost all = self@.repositories;
        assert(all.skip(0) =~= all);
        let mut i: usize = 0;
        while i < self.repositories.len()
            invariant
                i <= self.repositories.len(),
                all == self@.repositories,
                declared(all, name@) == declared(all.skip(i as int), name@),
            decreases self.repositories.len() - i,
        {
            proof {
                let rest = all.skip(i as int);
                assert(rest[0] == self.repositories[i as int]@);
                assert(rest.drop_first() =~= all.skip(i + 1));
            }
            if self.repositories[i].name == *name {
                return Some(&self.repositories[i]);
            }
            i += 1;
        }
        None
    }

    /// Reconciles the user and robot permissions of a repository with what
    /// the registry reported: the requests that revoke what is not wanted.
    pub fn revoke_user_permissions(
        &self,
        repo: &Repository,
        response: &QuayResponse,
    ) -> (deletes: Vec<Request>)
        ensures
            views(deletes@) == user_permission_deletes(
                self@,
                repo@.name,
                response.status_code,
                response.response,
            ),
    {
        let mut deletes: Vec<Request> = Vec::new();
        assert(views(deletes@) =~= Seq::empty());
        if response.status_code != 200 {
            return deletes;
        }
        let configured = match self.find_repository(&repo.name) {
            Some(found) => found,
            None => {
                return deletes;
            },
        };
        let (users, robots) = read_user_listing(&self.quay_organization, &response.response);
        let extra_users = extra_user_permissions(&users, &configured.permissions);
        let extra_robots = extra_robot_permissions(&robots, &configured.permissions);
        let ghost user_part = user_deletes(self@, repo@.name, views(extra_users@));
        let mut i: usize = 0;
        while i < extra_users.len()
            invariant
                i <= extra_users.len(),
                user_part == user_deletes(self@, repo@.name, views(extra_users@)),
                views(deletes@) == user_part.take(i as int),
            decreases extra_users.len() - i,
        {
            let ghost before = deletes@;
            let request = self.delete_user_permission_from_repository(&repo.name, &extra_users[i]);
            deletes.push(request);
            proof {
                lemma_views_push(before, request);
                assert(user_part.take(i + 1) =~= user_part.take(i as int).push(request@));
            }
            i += 1;
        }
        assert(user_part.take(i as int) =~= user_part);
        let ghost robot_part = robot_deletes(self@, repo@.name, views(extra_robots@));
        let mut j: usize = 0;
        assert(robot_part.take(0) =~= Seq::empty());
        assert(user_part + Seq::<RequestView>::empty() =~= user_part);
        while j < extra_robots.len()
            invariant
                j <= extra_robots.len(),
                robot_part == robot_deletes(self@, repo@.name, views(extra_robots@)),
                views(deletes@) == user_part + robot_part.take(j as int),
            decreases extra_robots.len() - j,
        {
            let ghost before = deletes@;
            let robot = UserElement::new(
                mangle_robot_name(
                    self.quay_organization.as_str(),
                    extra_robots[j].name.as_str(),
                ),
                extra_robots[j].role.clone(),
            );
            let request = self.delete_user_permission_from_repository(&repo.name, &robot);
            deletes.push(request);
            proof {
                lemma_views_push(before, request);
                assert(robot_part.take(j + 1) =~= robot_part.take(j as int).push(request@));
                assert(user_part + robot_part.take(j + 1) =~= (user_part + robot_part.take(
                    j as int,
                )).push(request@));
            }
            j += 1;
        }
        assert(robot_part.take(j as int) =~= robot_part);
        deletes
    }

    /// Reconciles the team permissions of a repository with what the
    /// registry reported: the requests that revoke what is not wanted.
    pub fn revoke_team_permissions(
        &self,
        repo: &Repository,
        response: &QuayResponse,
    ) -> (deletes: Vec<Request>)
        ensures
            views(deletes@) == team_permission_deletes(
                self@,
                repo@.name,
                response.status_code,
                response.response,
            ),
    {
        let mut deletes: Vec<Request> = Vec::new();
        assert(views(deletes@) =~= Seq::empty());
        if response.status_code != 200 {
            return deletes;
        }
        let configured = match self.find_repository(&repo.name) {
            Some(found) => found,
            None => {
                return deletes;
            },
        };
        let teams = read_team_listing(&response.response);
        let extra = extra_team_permissions(&teams, &configured.permissions);
        let ghost wanted = team_deletes(self@, repo@.name, views(extra@));
        let mut i: usize = 0;
        while i < extra.len()
            invariant
                i <= extra.len(),
                wanted == team_deletes(self@, repo@.name, views(extra@)),
                views(deletes@) == wanted.take(i as int),
            decreases extra.len() - i,
        {
            let ghost before = deletes@;
            let request = self.delete_team_permission_from_repository(&repo.name, &extra[i]);
            deletes.push(request);
            proof {
                lemma_views_push(before, request);
                assert(wanted.take(i + 1) =~= wanted.take(i as int).push(request@));
            }
            i += 1;
        }
        assert(wanted.take(i as int) =~= wanted);
        deletes
    }
}

} // verus!
