//! The registry operations of an organization, each rendered as the request
//! that performs it.
//!
//! Robots are named bare in the desired state; wherever a robot is named on
//! the wire its name is qualified with the organization.

use crate::desired::{
    OrganizationView, OrganizationYaml, Repository, RepositoryView, RobotDetails, RobotDetailsView,
    Team, TeamView, UserElement, UserElementView,
};
use crate::principal::{mangle_robot_name, wire_robot_name};
use crate::request::{
    no_fields, Field, FieldView, Method, Request, RequestBody, RequestBodyView, RequestView,
};
use crate::views::views;
use vstd::prelude::*;

verus! {

/// The root of the registry's API at `endpoint`.
pub open spec fn api_root(endpoint: Seq<char>) -> Seq<char> {
    "https://"@ + endpoint + "/api/v1/"@
}

/// The address of the organization itself.
pub open spec fn organization_url(org: OrganizationView) -> Seq<char> {
    api_root(org.quay_endpoint) + "organization/"@ + org.quay_organization
}

/// The address of a team of the organization.
pub open spec fn team_url(org: OrganizationView, team: Seq<char>) -> Seq<char> {
    organization_url(org) + "/team/"@ + team
}

/// The address of a member of a team, under the name the registry knows.
pub open spec fn member_url(org: OrganizationView, team: Seq<char>, member: Seq<char>) -> Seq<
    char,
> {
    team_url(org, team) + "/members/"@ + member
}

/// The address of a repository of the organization.
pub open spec fn repository_url(org: OrganizationView, repository: Seq<char>) -> Seq<char> {
    api_root(org.quay_endpoint) + "repository/"@ + org.quay_organization + "/"@ + repository
}

/// The address that lists the permissions of one kind (`user` or `team`) on
/// a repository.
pub open spec fn permission_list_url(
    org: OrganizationView,
    repository: Seq<char>,
    kind: Seq<char>,
) -> Seq<char> {
    repository_url(org, repository) + "/permissions/"@ + kind + "/"@
}

/// The address of the permission that one principal holds on a repository.
pub open spec fn permission_url(
    org: OrganizationView,
    repository: Seq<char>,
    kind: Seq<char>,
    principal: Seq<char>,
) -> Seq<char> {
    permission_list_url(org, repository, kind) + principal
}

/// A description of the form `{lead}{name}' for organization '{organization}'`.
pub open spec fn quoted_note(lead: Seq<char>, name: Seq<char>, organization: Seq<char>) -> Seq<
    char,
> {
    lead + name + "' for organization '"@ + organization + "'"@
}

/// A body with the single member `role`.
pub open spec fn role_body(role: Seq<char>) -> RequestBodyView {
    RequestBodyView::Fields(seq![FieldView { name: "role"@, value: role }])
}

/// Creates the organization: its name and the address of its contact,
/// posted to the endpoint.
pub open spec fn create_organization_request(org: OrganizationView) -> RequestView {
    RequestView {
        method: Method::Post,
        endpoint: api_root(org.quay_endpoint) + "organization/"@,
        body: RequestBodyView::Fields(
            seq![
                FieldView { name: "name"@, value: org.quay_organization },
                FieldView { name: "email"@, value: org.quay_organization_role_email },
            ],
        ),
        description: "Org: "@ + org.quay_organization + " Endpoint: "@ + org.quay_endpoint,
    }
}

/// Deletes the organization.
pub open spec fn delete_organization_request(org: OrganizationView) -> RequestView {
    RequestView {
        method: Method::Delete,
        endpoint: organization_url(org),
        body: no_fields(),
        description: org.quay_organization,
    }
}

/// Creates a robot account of the organization.
pub open spec fn create_robot_request(
    org: OrganizationView,
    robot: RobotDetailsView,
) -> RequestView {
    RequestView {
        method: Method::Put,
        endpoint: organization_url(org) + "/robots/"@ + robot.name,
        body: RequestBodyView::Fields(seq![FieldView { name: "description"@, value: robot.desc }]),
        description: quoted_note("Creating robot '"@, robot.name, org.quay_organization),
    }
}

/// Creates a team of the organization.
pub open spec fn create_team_request(org: OrganizationView, team: TeamView) -> RequestView {
    RequestView {
        method: Method::Put,
        endpoint: team_url(org, team.name),
        body: RequestBodyView::Fields(
            seq![
                FieldView { name: "description"@, value: team.description },
                FieldView { name: "role"@, value: team.role },
            ],
        ),
        description: quoted_note("Creating team '"@, team.name, org.quay_organization),
    }
}

/// Makes a user a member of a team.
pub open spec fn add_user_to_team_request(
    org: OrganizationView,
    team: Seq<char>,
    user: Seq<char>,
) -> RequestView {
    RequestView {
        method: Method::Put,
        endpoint: member_url(org, team, user),
        body: no_fields(),
        description: org.quay_organization,
    }
}

/// Makes a robot of the organization a member of a team; the robot is
/// named as on the wire.
pub open spec fn add_robot_to_team_request(
    org: OrganizationView,
    team: Seq<char>,
    robot: Seq<char>,
) -> RequestView {
    RequestView {
        method: Method::Put,
        endpoint: member_url(org, team, wire_robot_name(org.quay_organization, robot)),
        body: no_fields(),
        description: org.quay_organization,
    }
}

/// The description sent for a repository: the declared one, or none.
pub open spec fn repository_description(repository: RepositoryView) -> Seq<char> {
    match repository.description {
        Some(text) => text,
        None => ""@,
    }
}

/// The visibility sent for a repository: the declared one, or `public`.
pub open spec fn repository_visibility(repository: RepositoryView) -> Seq<char> {
    match repository.visibility {
        Some(text) => text,
        None => "public"@,
    }
}

/// Creates a repository in the namespace of the organization.
pub open spec fn create_repository_request(
    org: OrganizationView,
    repository: RepositoryView,
) -> RequestView {
    RequestView {
        method: Method::Post,
        endpoint: api_root(org.quay_endpoint) + "repository"@,
        body: RequestBodyView::Fields(
            seq![
                FieldView { name: "description"@, value: repository_description(repository) },
                FieldView { name: "repo_kind"@, value: "image"@ },
                FieldView { name: "namespace"@, value: org.quay_organization },
                FieldView { name: "repository"@, value: repository.name },
                FieldView { name: "visibility"@, value: repository_visibility(repository) },
            ],
        ),
        description: quoted_note("Creating repository '"@, repository.name, org.quay_organization),
    }
}

/// Grants a user its role on a repository.
pub open spec fn grant_user_permission_request(
    org: OrganizationView,
    repository: Seq<char>,
    user: UserElementView,
) -> RequestView {
    RequestView {
        method: Method::Put,
        endpoint: permission_url(org, repository, "user"@, user.name),
        body: role_body(user.role),
        description: org.quay_organization,
    }
}

/// Grants a robot of the organization its role on a repository; the robot
/// is named as on the wire.
pub open spec fn grant_robot_permission_request(
    org: OrganizationView,
    repository: Seq<char>,
    robot: UserElementView,
) -> RequestView {
    RequestView {
        method: Method::Put,
        endpoint: permission_url(
            org,
            repository,
            "user"@,
            wire_robot_name(org.quay_organization, robot.name),
        ),
        body: role_body(robot.role),
        description: org.quay_organization,
    }
}

/// Grants a team its role on a repository.
pub open spec fn grant_team_permission_request(
    org: OrganizationView,
    repository: Seq<char>,
    team: UserElementView,
) -> RequestView {
    RequestView {
        method: Method::Put,
        endpoint: permission_url(org, repository, "team"@, team.name),
        body: role_body(team.role),
        description: org.quay_organization,
    }
}

/// Revokes the permission that a user, or a robot named as on the wire,
/// holds on a repository.
pub open spec fn delete_user_permission_request(
    org: OrganizationView,
    repository: Seq<char>,
    user: UserElementView,
) -> RequestView {
    RequestView {
        method: Method::Delete,
        endpoint: permission_url(org, repository, "user"@, user.name),
        body: role_body(user.role),
        description: org.quay_organization,
    }
}

/// Revokes the permission that a team holds on a repository.
pub open spec fn delete_team_permission_request(
    org: OrganizationView,
    repository: Seq<char>,
    team: UserElementView,
) -> RequestView {
    RequestView {
        method: Method::Delete,
        endpoint: permission_url(org, repository, "team"@, team.name),
        body: role_body(team.role),
        description: org.quay_organization,
    }
}

/// Lists the permissions that users and robots hold on a repository.
pub open spec fn get_user_permission_request(
    org: OrganizationView,
    repository: Seq<char>,
) -> RequestView {
    RequestView {
        method: Method::Get,
        endpoint: permission_list_url(org, repository, "user"@),
        body: no_fields(),
        description: org.quay_organization,
    }
}

/// Lists the permissions that teams hold on a repository.
pub open spec fn get_team_permission_request(
    org: OrganizationView,
    repository: Seq<char>,
) -> RequestView {
    RequestView {
        method: Method::Get,
        endpoint: permission_list_url(org, repository, "team"@),
        body: no_fields(),
        description: org.quay_organization,
    }
}

fn empty_body() -> (body: RequestBody)
    ensures
        body@ == no_fields(),
{
    let fields: Vec<Field> = Vec::new();
    assert(views(fields@) =~= Seq::empty());
    RequestBody::Fields(fields)
}

fn one_field(name: &str, value: &str) -> (body: RequestBody)
    ensures
        body@ == RequestBodyView::Fields(seq![FieldView { name: name@, value: value@ }]),
{
    let mut fields: Vec<Field> = Vec::new();
    fields.push(Field::new(name, value));
    assert(views(fields@) =~= seq![FieldView { name: name@, value: value@ }]);
    RequestBody::Fields(fields)
}

fn note(lead: &str, name: &str, organization: &str) -> (text: String)
    ensures
        text@ == quoted_note(lead@, name@, organization@),
{
    let mut text = String::from_str(lead);
    text.append(name);
    text.append("' for organization '");
    text.append(organization);
    text.append("'");
    text
}

impl OrganizationYaml {
    fn api_root(&self) -> (url: String)
        ensures
            url@ == api_root(self@.quay_endpoint),
    {
        let mut url = String::from_str("https://");
        url.append(self.quay_endpoint.as_str());
        url.append("/api/v1/");
        url
    }

    fn organization_url(&self) -> (url: String)
        ensures
            url@ == organization_url(self@),
    {
        let mut url = self.api_root();
        url.append("organization/");
        url.append(self.quay_organization.as_str());
        url
    }

    fn member_url(&self, team: &str, member: &str) -> (url: String)
        ensures
            url@ == member_url(self@, team@, member@),
    {
        let mut url = self.organization_url();
        url.append("/team/");
        url.append(team);
        url.append("/members/");
        url.append(member);
        url
    }

    pub(crate) fn repository_address(&self, repository: &str) -> (url: String)
        ensures
            url@ == repository_url(self@, repository@),
    {
        let mut url = self.api_root();
        url.append("repository/");
        url.append(self.quay_organization.as_str());
        url.append("/");
        url.append(repository);
        url
    }

    fn permission_list_url(&self, repository: &str, kind: &str) -> (url: String)
        ensures
            url@ == permission_list_url(self@, repository@, kind@),
    {
        let mut url = self.repository_address(repository);
        url.append("/permissions/");
        url.append(kind);
        url.append("/");
        url
    }

    fn permission_url(&self, repository: &str, kind: &str, principal: &str) -> (url: String)
        ensures
            url@ == permission_url(self@, repository@, kind@, principal@),
    {
        let mut url = self.permission_list_url(repository, kind);
        url.append(principal);
        url
    }

    /// The request that creates the organization at its endpoint.
    pub fn create_organization(&self) -> (request: Request)
        ensures
            request@ == create_organization_request(self@),
    {
        let mut endpoint = self.api_root();
        endpoint.append("organization/");
        let mut fields: Vec<Field> = Vec::new();
        fields.push(Field::new("name", self.quay_organization.as_str()));
        fields.push(Field::new("email", self.quay_organization_role_email.as_str()));
        assert(views(fields@) =~= seq![
            FieldView { name: "name"@, value: self@.quay_organization },
            FieldView { name: "email"@, value: self@.quay_organization_role_email },
        ]);
        let mut description = String::from_str("Org: ");
        description.append(self.quay_organization.as_str());
        description.append(" Endpoint: ");
        description.append(self.quay_endpoint.as_str());
        Request { method: Method::Post, endpoint, body: RequestBody::Fields(fields), description }
    }

    /// The request that deletes the organization at its endpoint.
    pub fn delete_organization(&self) -> (request: Request)
        ensures
            request@ == delete_organization_request(self@),
    {
        Request {
            method: Method::Delete,
            endpoint: self.organization_url(),
            body: empty_body(),
            description: self.quay_organization.clone(),
        }
    }

    /// The request that creates a robot account.
    pub fn create_robot(&self, robot: &RobotDetails) -> (request: Request)
        ensures
            request@ == create_robot_request(self@, robot@),
    {
        let mut endpoint = self.organization_url();
        endpoint.append("/robots/");
        endpoint.append(robot.name.as_str());
        Request {
            method: Method::Put,
            endpoint,
            body: one_field("description", robot.desc.as_str()),
            description: note(
                "Creating robot '",
                robot.name.as_str(),
                self.quay_organization.as_str(),
            ),
        }
    }

    /// The request that creates a team.
    pub fn create_team(&self, team: &Team) -> (request: Request)
        ensures
            request@ == create_team_request(self@, team@),
    {
        let mut endpoint = self.organization_url();
        endpoint.append("/team/");
        endpoint.append(team.name.as_str());
        let mut fields: Vec<Field> = Vec::new();
        fields.push(Field::new("description", team.description.as_str()));
        fields.push(Field::new("role", team.role.as_str()));
        assert(views(fields@) =~= seq![
            FieldView { name: "description"@, value: team@.description },
            FieldView { name: "role"@, value: team@.role },
        ]);
        Request {
            method: Method::Put,
            endpoint,
            body: RequestBody::Fields(fields),
            description: note(
                "Creating team '",
                team.name.as_str(),
                self.quay_organization.as_str(),
            ),
        }
    }

    /// The request that makes a user a member of a team.
    pub fn add_user_to_team(&self, team: &String, user: &String) -> (request: Request)
        ensures
            request@ == add_user_to_team_request(self@, team@, user@),
    {
        Request {
            method: Method::Put,
            endpoint: self.member_url(team.as_str(), user.as_str()),
            body: empty_body(),
            description: self.quay_organization.clone(),
        }
    }

    /// The request that makes a robot of this organization a member of a
    /// team.
    pub fn add_robot_to_team(&self, team: &String, robot: &String) -> (request: Request)
        ensures
            request@ == add_robot_to_team_request(self@, team@, robot@),
    {
        let member = mangle_robot_name(self.quay_organization.as_str(), robot.as_str());
        Request {
            method: Method::Put,
            endpoint: self.member_url(team.as_str(), member.as_str()),
            body: empty_body(),
            description: self.quay_organization.clone(),
        }
    }

    /// The request that creates a repository. A repository without a
    /// description gets an empty one, and one without a visibility is public.
    pub fn create_repository(&self, repo: &Repository) -> (request: Request)
        ensures
            request@ == create_repository_request(self@, repo@),
    {
        let mut endpoint = self.api_root();
        endpoint.append("repository");
        let description_field = match &repo.description {
            Some(text) => Field::new("description", text.as_str()),
            None => Field::new("description", ""),
        };
        let visibility_field = match &repo.visibility {
            Some(text) => Field::new("visibility", text.as_str()),
            None => Field::new("visibility", "public"),
        };
        let mut fields: Vec<Field> = Vec::new();
        fields.push(description_field);
        fields.push(Field::new("repo_kind", "image"));
        fields.push(Field::new("namespace", self.quay_organization.as_str()));
        fields.push(Field::new("repository", repo.name.as_str()));
        fields.push(visibility_field);
        assert(views(fields@) =~= seq![
            FieldView { name: "description"@, value: repository_description(repo@) },
            FieldView { name: "repo_kind"@, value: "image"@ },
            FieldView { name: "namespace"@, value: self@.quay_organization },
            FieldView { name: "repository"@, value: repo@.name },
            FieldView { name: "visibility"@, value: repository_visibility(repo@) },
        ]);
        Request {
            method: Method::Post,
            endpoint,
            body: RequestBody::Fields(fields),
            description: note(
                "Creating repository '",
                repo.name.as_str(),
                self.quay_organization.as_str(),
            ),
        }
    }

    /// The request that grants a user its role on a repository.
    pub fn grant_user_permission_to_repository(
        &self,
        repo: &String,
        user: &UserElement,
    ) -> (request: Request)
        ensures
            request@ == grant_user_permission_request(self@, repo@, user@),
    {
        Request {
            method: Method::Put,
            endpoint: self.permission_url(repo.as_str(), "user", user.name.as_str()),
            body: one_field("role", user.role.as_str()),
            description: self.quay_organization.clone(),
        }
    }

    /// The request that grants a robot of this organization its role on a
    /// repository.
    pub fn grant_robot_permission_to_repository(
        &self,
        repo: &String,
        user: &UserElement,
    ) -> (request: Request)
        ensures
            request@ == grant_robot_permission_request(self@, repo@, user@),
    {
        let principal = mangle_robot_name(self.quay_organization.as_str(), user.name.as_str());
        Request {
            method: Method::Put,
            endpoint: self.permission_url(repo.as_str(), "user", principal.as_str()),
            body: one_field("role", user.role.as_str()),
            description: self.quay_organization.clone(),
        }
    }

    /// The request that grants a team its role on a repository.
    pub fn grant_team_permission_to_repository(
        &self,
        repo: &String,
        user: &UserElement,
    ) -> (request: Request)
        ensures
            request@ == grant_team_permission_request(self@, repo@, user@),
    {
        Request {
            method: Method::Put,
            endpoint: self.permission_url(repo.as_str(), "team", user.name.as_str()),
            body: one_field("role", user.role.as_str()),
            description: self.quay_organization.clone(),
        }
    }

    /// The request that revokes the permission of a user, or of a robot
    /// named as on the wire, on a repository.
    pub fn delete_user_permission_from_repository(
        &self,
        repo: &String,
        user: &UserElement,
    ) -> (request: Request)
        ensures
            request@ == delete_user_permission_request(self@, repo@, user@),
    {
        Request {
            method: Method::Delete,
            endpoint: self.permission_url(repo.as_str(), "user", user.name.as_str()),
            body: one_field("role", user.role.as_str()),
            description: self.quay_organization.clone(),
        }
    }

    /// The request that revokes the permission of a team on a repository.
    pub fn delete_team_permission_from_repository(
        &self,
        repo: &String,
        user: &UserElement,
    ) -> (request: Request)
        ensures
            request@ == delete_team_permission_request(self@, repo@, user@),
    {
        Request {
            method: Method::Delete,
            endpoint: self.permission_url(repo.as_str(), "team", user.name.as_str()),
            body: one_field("role", user.role.as_str()),
            description: self.quay_organization.clone(),
        }
    }

    /// The request that lists the user and robot permissions of a
    /// repository.
    pub fn get_user_permission_from_repository(&self, repo: &Repository) -> (request: Request)
        ensures
            request@ == get_user_permission_request(self@, repo@.name),
    {
        Request {
            method: Method::Get,
            endpoint: self.permission_list_url(repo.name.as_str(), "user"),
            body: empty_body(),
            description: self.quay_organization.clone(),
        }
    }

    /// The request that lists the team permissions of a repository.
    pub fn get_team_permission_from_repository(&self, repo: &Repository) -> (request: Request)
        ensures
            request@ == get_team_permission_request(self@, repo@.name),
    {
        Request {
            method: Method::Get,
            endpoint: self.permission_list_url(repo.name.as_str(), "team"),
            body: empty_body(),
            description: self.quay_organization.clone(),
        }
    }
}

} // verus!
