//! The desired state: what the input documents declare about organizations
//! and what they own.

use crate::views::{optional_view, optional_views, views};
use vstd::prelude::*;

verus! {

/// One permission entry: a principal and the role it holds.
#[derive(Debug, PartialEq, Eq)]
pub struct UserElement {
    pub name: String,
    pub role: String,
}

/// The view of [`UserElement`].
pub struct UserElementView {
    pub name: Seq<char>,
    pub role: Seq<char>,
}

impl View for UserElement {
    type V = UserElementView;

    open spec fn view(&self) -> UserElementView {
        UserElementView { name: self.name@, role: self.role@ }
    }
}

impl Clone for UserElement {
    fn clone(&self) -> (copy: Self)
        ensures
            copy@ == self@,
    {
        UserElement { name: self.name.clone(), role: self.role.clone() }
    }
}

impl UserElement {
    /// The entry that gives `name` the role `role`.
    pub fn new(name: String, role: String) -> (element: UserElement)
        ensures
            element@ == (UserElementView { name: name@, role: role@ }),
    {
        UserElement { name, role }
    }
}

/// The permissions of one repository: robots, users and teams, each a
/// collection of entries in which a principal is meant to occur once.
#[derive(Debug, PartialEq, Eq)]
pub struct Permissions {
    pub robots: Vec<UserElement>,
    pub users: Vec<UserElement>,
    pub teams: Option<Vec<UserElement>>,
}

/// The view of [`Permissions`].
pub struct PermissionsView {
    pub robots: Seq<UserElementView>,
    pub users: Seq<UserElementView>,
    pub teams: Option<Seq<UserElementView>>,
}

impl View for Permissions {
    type V = PermissionsView;

    open spec fn view(&self) -> PermissionsView {
        PermissionsView {
            robots: views(self.robots@),
            users: views(self.users@),
            teams: optional_views(self.teams),
        }
    }
}

impl Clone for Permissions {
    fn clone(&self) -> (copy: Self)
        ensures
            copy@ == self@,
    {
        let robots = self.robots.clone();
        let users = self.users.clone();
        let teams = match &self.teams {
            Some(list) => {
                let cloned_list = list.clone();
                assert(views(cloned_list@) =~= views(list@));
                Some(cloned_list)
            },
            None => None,
        };
        assert(views(robots@) =~= views(self.robots@));
        assert(views(users@) =~= views(self.users@));
        Permissions { robots, users, teams }
    }
}

impl Permissions {
    /// No robots, no users, and an empty list of teams.
    pub fn new() -> (permissions: Permissions)
        ensures
            permissions@ == (PermissionsView {
                robots: Seq::empty(),
                users: Seq::empty(),
                teams: Some(Seq::empty()),
            }),
    {
        let permissions = Permissions {
            robots: Vec::new(),
            users: Vec::new(),
            teams: Some(Vec::new()),
        };
        assert(views(permissions.robots@) =~= Seq::empty());
        assert(views(permissions.users@) =~= Seq::empty());
        assert(views(permissions.teams->0@) =~= Seq::empty());
        permissions
    }
}

/// How a repository mirrors an image of another registry.
#[derive(Debug, PartialEq, Eq)]
pub struct MirrorParams {
    pub src_registry: String,
    pub src_image: String,
    pub src_image_tags: Vec<String>,
    pub ext_registry_verify_tls: bool,
    pub ext_registry_unsigned_image: Option<bool>,
    pub robot_username: String,
    pub sync_interval: i64,
    pub is_enabled: bool,
    pub https_proxy: Option<String>,
    pub http_proxy: Option<String>,
    pub no_proxy: Option<String>,
    pub ext_registry_username: Option<String>,
    pub ext_registry_password: Option<String>,
}

/// The view of [`MirrorParams`].
pub struct MirrorParamsView {
    pub src_registry: Seq<char>,
    pub src_image: Seq<char>,
    pub src_image_tags: Seq<Seq<char>>,
    pub ext_registry_verify_tls: bool,
    pub ext_registry_unsigned_image: Option<bool>,
    pub robot_username: Seq<char>,
    pub sync_interval: i64,
    pub is_enabled: bool,
    pub https_proxy: Option<Seq<char>>,
    pub http_proxy: Option<Seq<char>>,
    pub no_proxy: Option<Seq<char>>,
    pub ext_registry_username: Option<Seq<char>>,
    pub ext_registry_password: Option<Seq<char>>,
}

impl View for MirrorParams {
    type V = MirrorParamsView;

    open spec fn view(&self) -> MirrorParamsView {
        MirrorParamsView {
            src_registry: self.src_registry@,
            src_image: self.src_image@,
            src_image_tags: views(self.src_image_tags@),
            ext_registry_verify_tls: self.ext_registry_verify_tls,
            ext_registry_unsigned_image: self.ext_registry_unsigned_image,
            robot_username: self.robot_username@,
            sync_interval: self.sync_interval,
            is_enabled: self.is_enabled,
            https_proxy: optional_view(self.https_proxy),
            http_proxy: optional_view(self.http_proxy),
            no_proxy: optional_view(self.no_proxy),
            ext_registry_username: optional_view(self.ext_registry_username),
            ext_registry_password: optional_view(self.ext_registry_password),
        }
    }
}

impl Clone for MirrorParams {
    fn clone(&self) -> (copy: Self)
        ensures
            copy@ == self@,
    {
        let src_image_tags = self.src_image_tags.clone();
        assert(views(src_image_tags@) =~= views(self.src_image_tags@));
        MirrorParams {
            src_registry: self.src_registry.clone(),
            src_image: self.src_image.clone(),
            src_image_tags,
            ext_registry_verify_tls: self.ext_registry_verify_tls,
            ext_registry_unsigned_image: self.ext_registry_unsigned_image,
            robot_username: self.robot_username.clone(),
            sync_interval: self.sync_interval,
            is_enabled: self.is_enabled,
            https_proxy: self.https_proxy.clone(),
            http_proxy: self.http_proxy.clone(),
            no_proxy: self.no_proxy.clone(),
            ext_registry_username: self.ext_registry_username.clone(),
            ext_registry_password: self.ext_registry_password.clone(),
        }
    }
}

/// A repository of an organization. Within its organization a repository is
/// known by its name.
#[derive(Debug)]
pub struct Repository {
    pub name: String,
    pub description: Option<String>,
    pub visibility: Option<String>,
    pub mirror: bool,
    pub mirror_params: Option<MirrorParams>,
    pub permissions: Option<Permissions>,
}

/// The view of [`Repository`].
pub struct RepositoryView {
    pub name: Seq<char>,
    pub description: Option<Seq<char>>,
    pub visibility: Option<Seq<char>>,
    pub mirror: bool,
    pub mirror_params: Option<MirrorParamsView>,
    pub permissions: Option<PermissionsView>,
}

impl View for Repository {
    type V = RepositoryView;

    open spec fn view(&self) -> RepositoryView {
        RepositoryView {
            name: self.name@,
            description: optional_view(self.description),
            visibility: optional_view(self.visibility),
            mirror: self.mirror,
            mirror_params: optional_view(self.mirror_params),
            permissions: optional_view(self.permissions),
        }
    }
}

/// Repositories are compared by name: two declarations of one name stand
/// for the same repository.
impl PartialEq for Repository {
    fn eq(&self, other: &Self) -> (same: bool) {
        self.name == other.name
    }
}

impl vstd::std_specs::cmp::PartialEqSpecImpl for Repository {
    open spec fn obeys_eq_spec() -> bool {
        true
    }

    open spec fn eq_spec(&self, other: &Self) -> bool {
        self.name@ == other.name@
    }
}

impl Eq for Repository {

}

impl Clone for Repository {
    fn clone(&self) -> (copy: Self)
        ensures
            copy@ == self@,
    {
        Repository {
            name: self.name.clone(),
            description: self.description.clone(),
            visibility: self.visibility.clone(),
            mirror: self.mirror,
            mirror_params: self.mirror_params.clone(),
            permissions: self.permissions.clone(),
        }
    }
}

/// A robot account of an organization.
#[derive(Debug, PartialEq, Eq)]
pub struct RobotDetails {
    pub name: String,
    pub desc: String,
}

/// The view of [`RobotDetails`].
pub struct RobotDetailsView {
    pub name: Seq<char>,
    pub desc: Seq<char>,
}

impl View for RobotDetails {
    type V = RobotDetailsView;

    open spec fn view(&self) -> RobotDetailsView {
        RobotDetailsView { name: self.name@, desc: self.desc@ }
    }
}

impl Clone for RobotDetails {
    fn clone(&self) -> (copy: Self)
        ensures
            copy@ == self@,
    {
        RobotDetails { name: self.name.clone(), desc: self.desc.clone() }
    }
}

/// The members of a team: users and robots, by bare name.
#[derive(Debug, PartialEq, Eq)]
pub struct Members {
    pub users: Vec<String>,
    pub robots: Vec<String>,
}

/// The view of [`Members`].
pub struct MembersView {
    pub users: Seq<Seq<char>>,
    pub robots: Seq<Seq<char>>,
}

impl View for Members {
    type V = MembersView;

    open spec fn view(&self) -> MembersView {
        MembersView { users: views(self.users@), robots: views(self.robots@) }
    }
}

impl Clone for Members {
    fn clone(&self) -> (copy: Self)
        ensures
            copy@ == self@,
    {
        let users = self.users.clone();
        let robots = self.robots.clone();
        assert(views(users@) =~= views(self.users@));
        assert(views(robots@) =~= views(self.robots@));
        Members { users, robots }
    }
}

/// A team of an organization.
#[derive(Debug, PartialEq, Eq)]
pub struct Team {
    pub name: String,
    pub description: String,
    pub members: Members,
    pub role: String,
}

/// The view of [`Team`].
pub struct TeamView {
    pub name: Seq<char>,
    pub description: Seq<char>,
    pub members: MembersView,
    pub role: Seq<char>,
}

impl View for Team {
    type V = TeamView;

    open spec fn view(&self) -> TeamView {
        TeamView {
            name: self.name@,
            description: self.description@,
            members: self.members@,
            role: self.role@,
        }
    }
}

impl Clone for Team {
    fn clone(&self) -> (copy: Self)
        ensures
            copy@ == self@,
    {
        Team {
            name: self.name.clone(),
            description: self.description.clone(),
            members: self.members.clone(),
            role: self.role.clone(),
        }
    }
}

/// One organization as a document declares it, bound to the registry
/// endpoint that is to hold it.
#[derive(Debug, PartialEq, Eq)]
pub struct OrganizationYaml {
    pub quay_endpoint: String,
    pub replicate_to: Option<Vec<String>>,
    pub quay_validate_certs: String,
    pub quay_organization: String,
    pub quay_organization_role_name: String,
    pub quay_organization_role_email: String,
    pub repositories: Vec<Repository>,
    pub robots: Vec<RobotDetails>,
    pub teams: Vec<Team>,
}

/// The view of [`OrganizationYaml`].
pub struct OrganizationView {
    pub quay_endpoint: Seq<char>,
    pub replicate_to: Option<Seq<Seq<char>>>,
    pub quay_validate_certs: Seq<char>,
    pub quay_organization: Seq<char>,
    pub quay_organization_role_name: Seq<char>,
    pub quay_organization_role_email: Seq<char>,
    pub repositories: Seq<RepositoryView>,
    pub robots: Seq<RobotDetailsView>,
    pub teams: Seq<TeamView>,
}

impl View for OrganizationYaml {
    type V = OrganizationView;

    open spec fn view(&self) -> OrganizationView {
        OrganizationView {
            quay_endpoint: self.quay_endpoint@,
            replicate_to: optional_views(self.replicate_to),
            quay_validate_certs: self.quay_validate_certs@,
            quay_organization: self.quay_organization@,
            quay_organization_role_name: self.quay_organization_role_name@,
            quay_organization_role_email: self.quay_organization_role_email@,
            repositories: views(self.repositories@),
            robots: views(self.robots@),
            teams: views(self.teams@),
        }
    }
}

impl Clone for OrganizationYaml {
    fn clone(&self) -> (copy: Self)
        ensures
            copy@ == self@,
    {
        let replicate_to = match &self.replicate_to {
            Some(list) => {
                let cloned_list = list.clone();
                assert(views(cloned_list@) =~= views(list@));
                Some(cloned_list)
            },
            None => None,
        };
        let repositories = self.repositories.clone();
        let robots = self.robots.clone();
        let teams = self.teams.clone();
        assert(views(repositories@) =~= views(self.repositories@));
        assert(views(robots@) =~= views(self.robots@));
        assert(views(teams@) =~= views(self.teams@));
        OrganizationYaml {
            quay_endpoint: self.quay_endpoint.clone(),
            replicate_to,
            quay_validate_certs: self.quay_validate_certs.clone(),
            quay_organization: self.quay_organization.clone(),
            quay_organization_role_name: self.quay_organization_role_name.clone(),
            quay_organization_role_email: self.quay_organization_role_email.clone(),
            repositories,
            robots,
            teams,
        }
    }
}

impl OrganizationYaml {
    /// Binds the organization to another endpoint and leaves the rest of it
    /// as it was.
    pub fn change_endpoint(&mut self, endpoint: String)
        ensures
            final(self)@ == (OrganizationView { quay_endpoint: endpoint@, ..old(self)@ }),
    {
        self.quay_endpoint = endpoint;
    }

    /// The endpoint that is to hold the organization.
    pub fn get_quay_endpoint(&self) -> (endpoint: String)
        ensures
            endpoint@ == self@.quay_endpoint,
    {
        self.quay_endpoint.clone()
    }
}

} // verus!
