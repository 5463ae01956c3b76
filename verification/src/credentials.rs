//! The credential store: the token of each registry endpoint, and the
//! passwords of the external registries that mirrors pull from.

use crate::views::{optional_view, views};
use vstd::prelude::*;

verus! {

/// The token that opens one registry endpoint.
#[derive(Debug, PartialEq, Eq)]
pub struct QuayEndopoint {
    pub quay_endpoint: String,
    pub quay_token: String,
}

/// The view of [`QuayEndopoint`].
pub struct QuayEndopointView {
    pub quay_endpoint: Seq<char>,
    pub quay_token: Seq<char>,
}

impl View for QuayEndopoint {
    type V = QuayEndopointView;

    open spec fn view(&self) -> QuayEndopointView {
        QuayEndopointView { quay_endpoint: self.quay_endpoint@, quay_token: self.quay_token@ }
    }
}

impl Default for QuayEndopoint {
    fn default() -> (entry: Self)
        ensures
            entry@ == (QuayEndopointView { quay_endpoint: Seq::empty(), quay_token: Seq::empty() }),
    {
        QuayEndopoint { quay_endpoint: String::new(), quay_token: String::new() }
    }
}

impl Clone for QuayEndopoint {
    fn clone(&self) -> (copy: Self)
        ensures
            copy@ == self@,
    {
        QuayEndopoint {
            quay_endpoint: self.quay_endpoint.clone(),
            quay_token: self.quay_token.clone(),
        }
    }
}

/// The login of one mirrored repository at the registry it pulls from.
#[allow(non_camel_case_types)]
#[derive(Debug, PartialEq, Eq)]
pub struct mirror_login {
    pub organization: String,
    pub repository: String,
    pub ext_registry_username: String,
    pub ext_registry_password: String,
}

/// The view of [`mirror_login`].
pub struct MirrorLoginView {
    pub organization: Seq<char>,
    pub repository: Seq<char>,
    pub ext_registry_username: Seq<char>,
    pub ext_registry_password: Seq<char>,
}

impl View for mirror_login {
    type V = MirrorLoginView;

    open spec fn view(&self) -> MirrorLoginView {
        MirrorLoginView {
            organization: self.organization@,
            repository: self.repository@,
            ext_registry_username: self.ext_registry_username@,
            ext_registry_password: self.ext_registry_password@,
        }
    }
}

impl Default for mirror_login {
    fn default() -> (login: Self)
        ensures
            login@ == (MirrorLoginView {
                organization: Seq::empty(),
                repository: Seq::empty(),
                ext_registry_username: Seq::empty(),
                ext_registry_password: Seq::empty(),
            }),
    {
        mirror_login {
            organization: String::new(),
            repository: String::new(),
            ext_registry_username: String::new(),
            ext_registry_password: String::new(),
        }
    }
}

impl Clone for mirror_login {
    fn clone(&self) -> (copy: Self)
        ensures
            copy@ == self@,
    {
        mirror_login {
            organization: self.organization.clone(),
            repository: self.repository.clone(),
            ext_registry_username: self.ext_registry_username.clone(),
            ext_registry_password: self.ext_registry_password.clone(),
        }
    }
}

/// The logins of all mirrored repositories.
#[allow(non_camel_case_types)]
#[derive(Debug, PartialEq, Eq)]
pub struct quay_mirror_login {
    pub mirror_repository: Vec<mirror_login>,
}

impl View for quay_mirror_login {
    type V = Seq<MirrorLoginView>;

    open spec fn view(&self) -> Seq<MirrorLoginView> {
        views(self.mirror_repository@)
    }
}

impl Default for quay_mirror_login {
    fn default() -> (logins: Self)
        ensures
            logins@ == Seq::<MirrorLoginView>::empty(),
    {
        let logins = quay_mirror_login { mirror_repository: Vec::new() };
        assert(logins@ =~= Seq::<MirrorLoginView>::empty());
        logins
    }
}

impl Clone for quay_mirror_login {
    fn clone(&self) -> (copy: Self)
        ensures
            copy@ == self@,
    {
        let mirror_repository = self.mirror_repository.clone();
        assert(views(mirror_repository@) =~= views(self.mirror_repository@));
        quay_mirror_login { mirror_repository }
    }
}

/// The credentials of one mirror, as handed to a single call.
#[derive(Debug, PartialEq, Eq)]
pub struct QuayFnArgumentsMirrorLogin {
    pub repo: String,
    pub user: String,
    pub password: String,
}

/// The view of [`QuayFnArgumentsMirrorLogin`].
pub struct QuayFnArgumentsMirrorLoginView {
    pub repo: Seq<char>,
    pub user: Seq<char>,
    pub password: Seq<char>,
}

impl View for QuayFnArgumentsMirrorLogin {
    type V = QuayFnArgumentsMirrorLoginView;

    open spec fn view(&self) -> QuayFnArgumentsMirrorLoginView {
        QuayFnArgumentsMirrorLoginView {
            repo: self.repo@,
            user: self.user@,
            password: self.password@,
        }
    }
}

impl Clone for QuayFnArgumentsMirrorLogin {
    fn clone(&self) -> (copy: Self)
        ensures
            copy@ == self@,
    {
        QuayFnArgumentsMirrorLogin {
            repo: self.repo.clone(),
            user: self.user.clone(),
            password: self.password.clone(),
        }
    }
}

/// The token stored for `endpoint`: that of the first entry that names it.
pub open spec fn token_for(entries: Seq<QuayEndopointView>, endpoint: Seq<char>) -> Option<
    Seq<char>,
>
    decreases entries.len(),
{
    if entries.len() == 0 {
        None
    } else if entries[0].quay_endpoint == endpoint {
        Some(entries[0].quay_token)
    } else {
        token_for(entries.drop_first(), endpoint)
    }
}

/// Whether some entry names `endpoint`.
pub open spec fn has_endpoint(entries: Seq<QuayEndopointView>, endpoint: Seq<char>) -> bool {
    exists|i: int| 0 <= i < entries.len() && (#[trigger] entries[i]).quay_endpoint == endpoint
}

/// A token is found exactly for the endpoints that some entry names.
pub proof fn lemma_token_for_some(entries: Seq<QuayEndopointView>, endpoint: Seq<char>)
    ensures
        token_for(entries, endpoint) is Some <==> has_endpoint(entries, endpoint),
    decreases entries.len(),
{
    if entries.len() == 0 {
    } else if entries[0].quay_endpoint == endpoint {
    } else {
        let rest = entries.drop_first();
        lemma_token_for_some(rest, endpoint);
        if has_endpoint(rest, endpoint) {
            let i = choose|i: int|
                0 <= i < rest.len() && (#[trigger] rest[i]).quay_endpoint == endpoint;
            assert(entries[i + 1] == rest[i]);
        }
        if has_endpoint(entries, endpoint) {
            let i = choose|i: int|
                0 <= i < entries.len() && (#[trigger] entries[i]).quay_endpoint == endpoint;
            assert(rest[i - 1] == entries[i]);
        }
    }
}

/// The password stored for the mirror of `repository` in `organization`
/// that logs in as `username`: that of the last entry that names all
/// three. Without a username there is no password.
pub open spec fn mirror_password(
    logins: Seq<MirrorLoginView>,
    organization: Seq<char>,
    repository: Seq<char>,
    username: Option<Seq<char>>,
) -> Option<Seq<char>>
    decreases logins.len(),
{
    if logins.len() == 0 {
        None
    } else {
        let entry = logins.last();
        if username == Some(entry.ext_registry_username) && entry.repository == repository
            && entry.organization == organization {
            Some(entry.ext_registry_password)
        } else {
            mirror_password(logins.drop_last(), organization, repository, username)
        }
    }
}

/// The credential store.
#[derive(Debug, PartialEq, Eq)]
pub struct QuayLoginConfigs {
    pub quay_endpoint_login: Vec<QuayEndopoint>,
    pub quay_mirror_login: quay_mirror_login,
}

/// The view of [`QuayLoginConfigs`].
pub struct QuayLoginConfigsView {
    pub quay_endpoint_login: Seq<QuayEndopointView>,
    pub quay_mirror_login: Seq<MirrorLoginView>,
}

impl View for QuayLoginConfigs {
    type V = QuayLoginConfigsView;

    open spec fn view(&self) -> QuayLoginConfigsView {
        QuayLoginConfigsView {
            quay_endpoint_login: views(self.quay_endpoint_login@),
            quay_mirror_login: self.quay_mirror_login@,
        }
    }
}

impl Default for QuayLoginConfigs {
    fn default() -> (store: Self)
        ensures
            store@.quay_endpoint_login == Seq::<QuayEndopointView>::empty(),
            store@.quay_mirror_login == Seq::<MirrorLoginView>::empty(),
    {
        QuayLoginConfigs::empty()
    }
}

impl Clone for QuayLoginConfigs {
    fn clone(&self) -> (copy: Self)
        ensures
            copy@ == self@,
    {
        let quay_endpoint_login = self.quay_endpoint_login.clone();
        assert(views(quay_endpoint_login@) =~= views(self.quay_endpoint_login@));
        QuayLoginConfigs { quay_endpoint_login, quay_mirror_login: self.quay_mirror_login.clone() }
    }
}

impl QuayLoginConfigs {
    /// A store that knows no endpoint and no mirror: every lookup fails.
    pub fn empty() -> (store: QuayLoginConfigs)
        ensures
            store@.quay_endpoint_login == Seq::<QuayEndopointView>::empty(),
            store@.quay_mirror_login == Seq::<MirrorLoginView>::empty(),
    {
        let store = QuayLoginConfigs {
            quay_endpoint_login: Vec::new(),
            quay_mirror_login: quay_mirror_login { mirror_repository: Vec::new() },
        };
        assert(store@.quay_endpoint_login =~= Seq::<QuayEndopointView>::empty());
        assert(store@.quay_mirror_login =~= Seq::<MirrorLoginView>::empty());
        store
    }

    /// The stored endpoint entries.
    pub fn get_quay_login_configs(&self) -> (entries: Vec<QuayEndopoint>)
        ensures
            views(entries@) == self@.quay_endpoint_login,
    {
        let entries = self.quay_endpoint_login.clone();
        assert(views(entries@) =~= views(self.quay_endpoint_login@));
        entries
    }

    /// Resolves an endpoint to its token: the token of the first entry
    /// stored for the endpoint, and nothing where no entry names it.
    pub fn get_token_from_quay_endopoint(&self, endpoint: String) -> (token: Option<String>)
        ensures
            optional_view(token) == token_for(self@.quay_endpoint_login, endpoint@),
            token is Some <==> has_endpoint(self@.quay_endpoint_login, endpoint@),
    {
        let ghost entries = self@.quay_endpoint_login;
        proof {
            lemma_token_for_some(entries, endpoint@);
            assert(entries.skip(0) =~= entries);
        }
        let mut i: usize = 0;
        while i < self.quay_endpoint_login.len()
            invariant
                i <= self.quay_endpoint_login.len(),
                entries == self@.quay_endpoint_login,
                token_for(entries, endpoint@) == token_for(entries.skip(i as int), endpoint@),
            decreases self.quay_endpoint_login.len() - i,
        {
            let entry = &self.quay_endpoint_login[i];
            proof {
                let rest = entries.skip(i as int);
                assert(rest[0] == entry@);
                assert(rest.drop_first() =~= entries.skip(i + 1));
            }
            if entry.quay_endpoint == endpoint {
                return Some(entry.quay_token.clone());
            }
            i += 1;
        }
        None
    }
}

} // verus!
