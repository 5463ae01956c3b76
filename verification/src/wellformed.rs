//! What the desired state is meant to satisfy, and how to tell whether it
//! does.
//!
//! The documents are written by hand, and nothing here is taken for granted
//! by the rest of the library: a store that is not well formed is planned
//! and reconciled as it stands. The predicates say what a careful author of
//! documents keeps to, and the functions test it.

use crate::desired::{
    MembersView, OrganizationView, OrganizationYaml, Permissions, PermissionsView, RepositoryView,
    UserElement, UserElementView,
};
use crate::store::{distinct, QuayXmlConfig};
use crate::views::views;
use vstd::prelude::*;

verus! {

/// Whether no name occurs twice in `names`.
pub open spec fn no_repetition(names: Seq<Seq<char>>) -> bool {
    forall|i: int, j: int| 0 <= i < j < names.len() ==> names[i] != names[j]
}

/// Whether no name occurs both in `left` and in `right`.
pub open spec fn disjoint(left: Seq<Seq<char>>, right: Seq<Seq<char>>) -> bool {
    forall|i: int, j: int| 0 <= i < left.len() && 0 <= j < right.len() ==> left[i] != right[j]
}

/// The principals of a collection of permission entries, in order.
pub open spec fn principals(entries: Seq<UserElementView>) -> Seq<Seq<char>> {
    Seq::new(entries.len(), |i: int| entries[i].name)
}

/// The names of repositories, in order.
pub open spec fn repository_names(repositories: Seq<RepositoryView>) -> Seq<Seq<char>> {
    Seq::new(repositories.len(), |i: int| repositories[i].name)
}

/// Whether a principal occurs at most once in each collection.
pub open spec fn permissions_well_formed(permissions: PermissionsView) -> bool {
    &&& no_repetition(principals(permissions.robots))
    &&& no_repetition(principals(permissions.users))
    &&& match permissions.teams {
        Some(teams) => no_repetition(principals(teams)),
        None => true,
    }
}

/// Whether the users and the robots of a team are two sets with no name in
/// common.
pub open spec fn members_well_formed(members: MembersView) -> bool {
    &&& no_repetition(members.users)
    &&& no_repetition(members.robots)
    &&& disjoint(members.users, members.robots)
}

/// Whether an organization is well formed: its repositories have different
/// names, the permissions of each repository name a principal at most once
/// in each collection, and the members of each team are sets with no name
/// in common.
pub open spec fn organization_well_formed(org: OrganizationView) -> bool {
    &&& no_repetition(repository_names(org.repositories))
    &&& forall|i: int|
        0 <= i < org.repositories.len() ==> match (#[trigger] org.repositories[i]).permissions {
            Some(permissions) => permissions_well_formed(permissions),
            None => true,
        }
    &&& forall|i: int|
        0 <= i < org.teams.len() ==> members_well_formed((#[trigger] org.teams[i]).members)
}

/// Whether no name occurs twice in `names`.
pub fn has_no_repetition(names: &Vec<&String>) -> (ok: bool)
    ensures
        ok == no_repetition(views(names@)),
{
    let ghost all = views(names@);
    let mut j: usize = 0;
    while j < names.len()
        invariant
            j <= names.len(),
            all == views(names@),
            forall|a: int, b: int| 0 <= a < b < j ==> all[a] != all[b],
        decreases names.len() - j,
    {
        let mut i: usize = 0;
        while i < j
            invariant
                i <= j < names.len(),
                all == views(names@),
                forall|a: int| 0 <= a < i ==> all[a] != all[j as int],
            decreases j - i,
        {
            if *names[i] == *names[j] {
                assert(all[i as int] == all[j as int]);
                return false;
            }
            i += 1;
        }
        j += 1;
    }
    true
}

/// Whether no name occurs both in `left` and in `right`.
pub fn are_disjoint(left: &Vec<String>, right: &Vec<String>) -> (ok: bool)
    ensures
        ok == disjoint(views(left@), views(right@)),
{
    let mut i: usize = 0;
    while i < left.len()
        invariant
            i <= left.len(),
            forall|a: int, b: int|
                0 <= a < i && 0 <= b < right.len() ==> views(left@)[a] != views(right@)[b],
        decreases left.len() - i,
    {
        let mut j: usize = 0;
        while j < right.len()
            invariant
                i < left.len(),
                j <= right.len(),
                forall|b: int| 0 <= b < j ==> views(left@)[i as int] != views(right@)[b],
            decreases right.len() - j,
        {
            if left[i] == right[j] {
                assert(views(left@)[i as int] == views(right@)[j as int]);
                return false;
            }
            j += 1;
        }
        i += 1;
    }
    true
}

/// The names of `items`, by reference.
fn borrowed(items: &Vec<String>) -> (names: Vec<&String>)
    ensures
        views(names@) == views(items@),
{
    let mut names: Vec<&String> = Vec::new();
    let mut i: usize = 0;
    while i < items.len()
        invariant
            i <= items.len(),
            names@.len() == i,
            forall|k: int| 0 <= k < i ==> (#[trigger] names@[k])@ == items@[k]@,
        decreases items.len() - i,
    {
        names.push(&items[i]);
        i += 1;
    }
    assert(views(names@) =~= views(items@));
    names
}

/// Whether a principal occurs at most once in `entries`.
pub fn has_distinct_principals(entries: &Vec<UserElement>) -> (ok: bool)
    ensures
        ok == no_repetition(principals(views(entries@))),
{
    let mut names: Vec<&String> = Vec::new();
    let mut i: usize = 0;
    while i < entries.len()
        invariant
            i <= entries.len(),
            names@.len() == i,
            forall|k: int| 0 <= k < i ==> (#[trigger] names@[k])@ == entries@[k].name@,
        decreases entries.len() - i,
    {
        names.push(&entries[i].name);
        i += 1;
    }
    assert(views(names@) =~= principals(views(entries@)));
    has_no_repetition(&names)
}

impl Permissions {
    /// Whether a principal occurs at most once in each collection.
    pub fn is_well_formed(&self) -> (ok: bool)
        ensures
            ok == permissions_well_formed(self@),
    {
        let teams = match &self.teams {
            Some(teams) => has_distinct_principals(teams),
            None => true,
        };
        has_distinct_principals(&self.robots) && has_distinct_principals(&self.users) && teams
    }
}

impl OrganizationYaml {
    /// Whether the organization is well formed.
    pub fn is_well_formed(&self) -> (ok: bool)
        ensures
            ok == organization_well_formed(self@),
    {
        let mut names: Vec<&String> = Vec::new();
        let mut i: usize = 0;
        while i < self.repositories.len()
            invariant
                i <= self.repositories.len(),
                names@.len() == i,
                forall|k: int| 0 <= k < i ==> (#[trigger] names@[k])@ == self.repositories@[k].name@,
                forall|k: int|
                    0 <= k < i ==> match (#[trigger] self@.repositories[k]).permissions {
                        Some(permissions) => permissions_well_formed(permissions),
                        None => true,
                    },
            decreases self.repositories.len() - i,
        {
            let sound = match &self.repositories[i].permissions {
                Some(permissions) => permissions.is_well_formed(),
                None => true,
            };
            if !sound {
                assert(!(match self@.repositories[i as int].permissions {
                    Some(permissions) => permissions_well_formed(permissions),
                    None => true,
                }));
                return false;
            }
            names.push(&self.repositories[i].name);
            i += 1;
        }
        assert(views(names@) =~= repository_names(self@.repositories));
        if !has_no_repetition(&names) {
            return false;
        }
        let mut t: usize = 0;
        while t < self.teams.len()
            invariant
                t <= self.teams.len(),
                forall|k: int|
                    0 <= k < t ==> members_well_formed((#[trigger] self@.teams[k]).members),
            decreases self.teams.len() - t,
        {
            let members = &self.teams[t].members;
            let sound = has_no_repetition(&borrowed(&members.users)) && has_no_repetition(
                &borrowed(&members.robots),
            ) && are_disjoint(&members.users, &members.robots);
            if !sound {
                assert(!members_well_formed(self@.teams[t as int].members));
                return false;
            }
            t += 1;
        }
        true
    }
}

impl QuayXmlConfig {
    /// Whether no two organizations of the store have the same name at the
    /// same endpoint.
    pub fn has_distinct_organizations(&self) -> (ok: bool)
        ensures
            ok == distinct(self@.organization),
    {
        let ghost all = self@.organization;
        let mut j: usize = 0;
        while j < self.organization.len()
            invariant
                j <= self.organization.len(),
                all == self@.organization,
                forall|a: int, b: int|
                    0 <= a < b < j ==> !((#[trigger] all[a]).quay_organization == (
                    #[trigger] all[b]).quay_organization && all[a].quay_endpoint
                        == all[b].quay_endpoint),
            decreases self.organization.len() - j,
        {
            let mut i: usize = 0;
            while i < j
                invariant
                    i <= j < self.organization.len(),
                    all == self@.organization,
                    forall|a: int|
                        0 <= a < i ==> !((#[trigger] all[a]).quay_organization
                            == all[j as int].quay_organization && all[a].quay_endpoint
                            == all[j as int].quay_endpoint),
                decreases j - i,
            {
                let one = &self.organization[i];
                let other = &self.organization[j];
                if one.quay_organization == other.quay_organization && one.quay_endpoint
                    == other.quay_endpoint {
                    assert(all[i as int].quay_organization == all[j as int].quay_organization);
                    return false;
                }
                i += 1;
            }
            j += 1;
        }
        true
    }
}

} // verus!
