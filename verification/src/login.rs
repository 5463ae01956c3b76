//! Setting up the credential store: which endpoints and mirrors the desired
//! state refers to, which of them the store does not know yet, and the
//! store merged with what was answered for them.

use crate::credentials::{
    has_endpoint, mirror_login, quay_mirror_login, MirrorLoginView, QuayEndopoint,
    QuayEndopointView, QuayLoginConfigs, QuayLoginConfigsView,
};
use crate::desired::{OrganizationView, OrganizationYaml, RepositoryView};
use crate::store::{replica_endpoints, QuayXmlConfig};
use crate::views::{lemma_views_add, lemma_views_push, views};
use array_tool::vec::Uniq;
use vstd::prelude::*;

verus! {

/// The items of a list without repetition: each item once, where it first
/// occurs.
pub open spec fn first_occurrences(items: Seq<Seq<char>>) -> Seq<Seq<char>>
    decreases items.len(),
{
    if items.len() == 0 {
        Seq::empty()
    } else {
        let before = first_occurrences(items.drop_last());
        if before.contains(items.last()) {
            before
        } else {
            before.push(items.last())
        }
    }
}

/// Calls `array_tool::vec::Uniq::unique` on a list of strings. The crate
/// goes through the list from its end and removes, for each item, the equal
/// items behind it: what is left is each string once, at the place where it
/// first occurred.
#[verifier::external_body]
fn unique(items: &Vec<String>) -> (kept: Vec<String>)
    ensures
        views(kept@) == first_occurrences(views(items@)),
{
    items.unique()
}

/// A list without repetition holds the items of the list it was made
/// from, each once.
pub proof fn lemma_first_occurrences(items: Seq<Seq<char>>)
    ensures
        forall|item: Seq<char>|
            first_occurrences(items).contains(item) <==> items.contains(item),
        forall|i: int, j: int|
            0 <= i < j < first_occurrences(items).len() ==> first_occurrences(items)[i]
                != first_occurrences(items)[j],
    decreases items.len(),
{
    let kept = first_occurrences(items);
    if items.len() > 0 {
        let front = items.drop_last();
        let last = items.last();
        let before = first_occurrences(front);
        lemma_first_occurrences(front);
        assert forall|item: Seq<char>| kept.contains(item) <==> items.contains(item) by {
            if kept.contains(item) {
                let k = choose|k: int| 0 <= k < kept.len() && kept[k] == item;
                if k < before.len() {
                    assert(before[k] == item);
                    assert(before.contains(item));
                    assert(front.contains(item));
                    let m = choose|m: int| 0 <= m < front.len() && front[m] == item;
                    assert(items[m] == item);
                } else {
                    assert(items[items.len() - 1] == item);
                }
            }
            if items.contains(item) {
                let m = choose|m: int| 0 <= m < items.len() && items[m] == item;
                if m < front.len() {
                    assert(front[m] == item);
                    assert(front.contains(item));
                    assert(before.contains(item));
                    let k = choose|k: int| 0 <= k < before.len() && before[k] == item;
                    assert(kept[k] == item);
                } else if before.contains(last) {
                } else {
                    assert(kept[kept.len() - 1] == item);
                }
            }
        }
        assert forall|i: int, j: int| 0 <= i < j < kept.len() implies kept[i] != kept[j] by {
            if j < before.len() {
            } else {
                assert(before[i] == kept[i]);
                assert(before.contains(kept[i]));
            }
        }
    }
}

/// The endpoints that the first `n` organizations refer to: for each its
/// own endpoint, then those it is replicated to.
pub open spec fn referenced_endpoints_upto(organizations: Seq<OrganizationView>, n: nat) -> Seq<
    Seq<char>,
>
    decreases n,
{
    if n == 0 {
        Seq::empty()
    } else {
        referenced_endpoints_upto(organizations, (n - 1) as nat).push(
            organizations[n - 1].quay_endpoint,
        ) + replica_endpoints(organizations[n - 1])
    }
}

/// The endpoints that the desired state refers to, each once.
pub open spec fn login_endpoints(organizations: Seq<OrganizationView>) -> Seq<Seq<char>> {
    first_occurrences(referenced_endpoints_upto(organizations, organizations.len()))
}

/// The login that a repository asks for: one where it declares a mirror
/// with a username, still without a password.
pub open spec fn wanted_mirror_login(org: OrganizationView, repository: RepositoryView) -> Option<
    MirrorLoginView,
> {
    match repository.mirror_params {
        Some(params) => match params.ext_registry_username {
            Some(username) => Some(
                MirrorLoginView {
                    organization: org.quay_organization,
                    repository: repository.name,
                    ext_registry_username: username,
                    ext_registry_password: Seq::empty(),
                },
            ),
            None => None,
        },
        None => None,
    }
}

/// The mirror logins that the first `n` repositories of an organization
/// ask for.
pub open spec fn organization_mirror_logins(org: OrganizationView, n: nat) -> Seq<MirrorLoginView>
    decreases n,
{
    if n == 0 {
        Seq::empty()
    } else {
        let before = organization_mirror_logins(org, (n - 1) as nat);
        match wanted_mirror_login(org, org.repositories[n - 1]) {
            Some(login) => before.push(login),
            None => before,
        }
    }
}

/// The mirror logins that the first `n` organizations ask for.
pub open spec fn mirror_logins_upto(organizations: Seq<OrganizationView>, n: nat) -> Seq<
    MirrorLoginView,
>
    decreases n,
{
    if n == 0 {
        Seq::empty()
    } else {
        mirror_logins_upto(organizations, (n - 1) as nat) + organization_mirror_logins(
            organizations[n - 1],
            organizations[n - 1].repositories.len(),
        )
    }
}

/// Those of `endpoints`, in order, for which `entries` has no token.
pub open spec fn missing(entries: Seq<QuayEndopointView>, endpoints: Seq<Seq<char>>) -> Seq<
    Seq<char>,
>
    decreases endpoints.len(),
{
    if endpoints.len() == 0 {
        Seq::empty()
    } else {
        let before = missing(entries, endpoints.drop_last());
        if has_endpoint(entries, endpoints.last()) {
            before
        } else {
            before.push(endpoints.last())
        }
    }
}

/// Whether two logins are for the same mirror: the same organization,
/// repository and username.
pub open spec fn same_mirror(one: MirrorLoginView, other: MirrorLoginView) -> bool {
    one.organization == other.organization && one.repository == other.repository
        && one.ext_registry_username == other.ext_registry_username
}

/// Whether one of `entries` is for the mirror of `login`.
pub open spec fn has_mirror(entries: Seq<MirrorLoginView>, login: MirrorLoginView) -> bool {
    exists|i: int| 0 <= i < entries.len() && same_mirror(#[trigger] entries[i], login)
}

/// Those of `wanted`, in order, for whose mirror `entries` has no login.
pub open spec fn missing_mirrors(
    entries: Seq<MirrorLoginView>,
    wanted: Seq<MirrorLoginView>,
) -> Seq<MirrorLoginView>
    decreases wanted.len(),
{
    if wanted.len() == 0 {
        Seq::empty()
    } else {
        let before = missing_mirrors(entries, wanted.drop_last());
        if has_mirror(entries, wanted.last()) {
            before
        } else {
            before.push(wanted.last())
        }
    }
}

/// One entry for each of `endpoints`, with the token at the same place of
/// `tokens`.
pub open spec fn answered(endpoints: Seq<Seq<char>>, tokens: Seq<Seq<char>>) -> Seq<
    QuayEndopointView,
> {
    Seq::new(
        endpoints.len(),
        |i: int| QuayEndopointView { quay_endpoint: endpoints[i], quay_token: tokens[i] },
    )
}

/// The credential store `logins`, merged with the token at the same place
/// of `tokens` for each of `endpoints` it misses, and with each of
/// `mirrors` for whose mirror it has no login.
pub open spec fn merged_logins(
    logins: QuayLoginConfigsView,
    endpoints: Seq<Seq<char>>,
    tokens: Seq<Seq<char>>,
    mirrors: Seq<MirrorLoginView>,
) -> QuayLoginConfigsView {
    QuayLoginConfigsView {
        quay_endpoint_login: logins.quay_endpoint_login + answered(
            missing(logins.quay_endpoint_login, endpoints),
            tokens,
        ),
        quay_mirror_login: logins.quay_mirror_login + missing_mirrors(
            logins.quay_mirror_login,
            mirrors,
        ),
    }
}

/// A store that has an entry for each of `endpoints` misses none of them.
pub proof fn lemma_nothing_missing(entries: Seq<QuayEndopointView>, endpoints: Seq<Seq<char>>)
    requires
        forall|i: int| 0 <= i < endpoints.len() ==> has_endpoint(entries, #[trigger] endpoints[i]),
    ensures
        missing(entries, endpoints) == Seq::<Seq<char>>::empty(),
    decreases endpoints.len(),
{
    if endpoints.len() > 0 {
        let front = endpoints.drop_last();
        assert forall|i: int| 0 <= i < front.len() implies has_endpoint(
            entries,
            #[trigger] front[i],
        ) by {
            assert(front[i] == endpoints[i]);
        }
        lemma_nothing_missing(entries, front);
        assert(has_endpoint(entries, endpoints[endpoints.len() - 1]));
    }
}

/// Every endpoint is in the store or among those the store misses.
pub proof fn lemma_missing_or_stored(
    entries: Seq<QuayEndopointView>,
    endpoints: Seq<Seq<char>>,
    i: int,
)
    requires
        0 <= i < endpoints.len(),
    ensures
        has_endpoint(entries, endpoints[i]) || missing(entries, endpoints).contains(endpoints[i]),
    decreases endpoints.len(),
{
    let front = endpoints.drop_last();
    let before = missing(entries, front);
    let all = missing(entries, endpoints);
    if i < endpoints.len() - 1 {
        lemma_missing_or_stored(entries, front, i);
        assert(front[i] == endpoints[i]);
        if before.contains(endpoints[i]) {
            let k = choose|k: int| 0 <= k < before.len() && before[k] == endpoints[i];
            assert(all[k] == endpoints[i]);
        }
    } else if !has_endpoint(entries, endpoints[i]) {
        assert(all[all.len() - 1] == endpoints[i]);
    }
}

/// Setting up the credential store is idempotent. Once the store has been
/// merged with a token for each endpoint it missed, it misses none of the
/// endpoints: setting it up again asks for nothing and adds nothing.
pub proof fn lemma_login_is_idempotent(
    entries: Seq<QuayEndopointView>,
    endpoints: Seq<Seq<char>>,
    tokens: Seq<Seq<char>>,
)
    requires
        tokens.len() == missing(entries, endpoints).len(),
    ensures
        missing(entries + answered(missing(entries, endpoints), tokens), endpoints) == Seq::<
            Seq<char>,
        >::empty(),
{
    let asked = missing(entries, endpoints);
    let merged = entries + answered(asked, tokens);
    assert forall|i: int| 0 <= i < endpoints.len() implies has_endpoint(
        merged,
        #[trigger] endpoints[i],
    ) by {
        lemma_missing_or_stored(entries, endpoints, i);
        if has_endpoint(entries, endpoints[i]) {
            let k = choose|k: int|
                0 <= k < entries.len() && (#[trigger] entries[k]).quay_endpoint == endpoints[i];
            assert(merged[k].quay_endpoint == endpoints[i]);
        } else {
            let k = choose|k: int| 0 <= k < asked.len() && asked[k] == endpoints[i];
            assert(merged[entries.len() + k].quay_endpoint == endpoints[i]);
        }
    }
    lemma_nothing_missing(merged, endpoints);
}

/// Logins that hold one for the mirror of each of `wanted` miss none.
pub proof fn lemma_no_mirror_missing(entries: Seq<MirrorLoginView>, wanted: Seq<MirrorLoginView>)
    requires
        forall|i: int| 0 <= i < wanted.len() ==> has_mirror(entries, #[trigger] wanted[i]),
    ensures
        missing_mirrors(entries, wanted) == Seq::<MirrorLoginView>::empty(),
    decreases wanted.len(),
{
    if wanted.len() > 0 {
        let front = wanted.drop_last();
        assert forall|i: int| 0 <= i < front.len() implies has_mirror(
            entries,
            #[trigger] front[i],
        ) by {
            assert(front[i] == wanted[i]);
        }
        lemma_no_mirror_missing(entries, front);
        assert(has_mirror(entries, wanted[wanted.len() - 1]));
    }
}

/// Every mirror login that is wanted is known or among those that are
/// missing.
pub proof fn lemma_mirror_missing_or_stored(
    entries: Seq<MirrorLoginView>,
    wanted: Seq<MirrorLoginView>,
    i: int,
)
    requires
        0 <= i < wanted.len(),
    ensures
        has_mirror(entries, wanted[i]) || missing_mirrors(entries, wanted).contains(wanted[i]),
    decreases wanted.len(),
{
    let front = wanted.drop_last();
    let before = missing_mirrors(entries, front);
    let all = missing_mirrors(entries, wanted);
    if i < wanted.len() - 1 {
        lemma_mirror_missing_or_stored(entries, front, i);
        assert(front[i] == wanted[i]);
        if before.contains(wanted[i]) {
            let k = choose|k: int| 0 <= k < before.len() && before[k] == wanted[i];
            assert(all[k] == wanted[i]);
        }
    } else if !has_mirror(entries, wanted[i]) {
        assert(all[all.len() - 1] == wanted[i]);
    }
}

/// Setting up the credential store is idempotent for mirrors too: once
/// merged, the store knows every mirror that is wanted.
pub proof fn lemma_mirror_login_is_idempotent(
    entries: Seq<MirrorLoginView>,
    wanted: Seq<MirrorLoginView>,
)
    ensures
        missing_mirrors(entries + missing_mirrors(entries, wanted), wanted) == Seq::<
            MirrorLoginView,
        >::empty(),
{
    let added = missing_mirrors(entries, wanted);
    let merged = entries + added;
    assert forall|i: int| 0 <= i < wanted.len() implies has_mirror(
        merged,
        #[trigger] wanted[i],
    ) by {
        lemma_mirror_missing_or_stored(entries, wanted, i);
        if has_mirror(entries, wanted[i]) {
            let k = choose|k: int|
                0 <= k < entries.len() && same_mirror(#[trigger] entries[k], wanted[i]);
            assert(same_mirror(merged[k], wanted[i]));
        } else {
            let k = choose|k: int| 0 <= k < added.len() && added[k] == wanted[i];
            assert(same_mirror(merged[entries.len() + k], wanted[i]));
        }
    }
    lemma_no_mirror_missing(merged, wanted);
}

impl QuayLoginConfigs {
    /// Whether the store has a token for `endpoint`.
    pub fn knows(&self, endpoint: &String) -> (known: bool)
        ensures
            known == has_endpoint(self@.quay_endpoint_login, endpoint@),
    {
        let mut i: usize = 0;
        while i < self.quay_endpoint_login.len()
            invariant
                i <= self.quay_endpoint_login.len(),
                forall|k: int|
                    0 <= k < i ==> (#[trigger] self@.quay_endpoint_login[k]).quay_endpoint
                        != endpoint@,
            decreases self.quay_endpoint_login.len() - i,
        {
            if self.quay_endpoint_login[i].quay_endpoint == *endpoint {
                assert(self@.quay_endpoint_login[i as int].quay_endpoint == endpoint@);
                return true;
            }
            i += 1;
        }
        false
    }

    /// Those of `endpoints`, in order, for which the store has no token.
    pub fn missing_endpoints(&self, endpoints: &Vec<String>) -> (asked: Vec<String>)
        ensures
            views(asked@) == missing(self@.quay_endpoint_login, views(endpoints@)),
    {
        let ghost all = views(endpoints@);
        let mut asked: Vec<String> = Vec::new();
        assert(views(asked@) =~= Seq::empty());
        assert(all.take(0) =~= Seq::empty());
        let mut i: usize = 0;
        while i < endpoints.len()
            invariant
                i <= endpoints.len(),
                all == views(endpoints@),
                views(asked@) == missing(self@.quay_endpoint_login, all.take(i as int)),
            decreases endpoints.len() - i,
        {
            proof {
                let upto = all.take(i + 1);
                assert(upto.last() == endpoints[i as int]@);
                assert(upto.drop_last() =~= all.take(i as int));
            }
            if !self.knows(&endpoints[i]) {
                let ghost before = asked@;
                let endpoint = endpoints[i].clone();
                asked.push(endpoint);
                proof {
                    lemma_views_push(before, endpoint);
                }
            }
            i += 1;
        }
        assert(all.take(i as int) =~= all);
        asked
    }

    /// Whether the store has a login for the mirror of `login`.
    pub fn knows_mirror(&self, login: &mirror_login) -> (known: bool)
        ensures
            known == has_mirror(self@.quay_mirror_login, login@),
    {
        let entries = &self.quay_mirror_login.mirror_repository;
        let mut i: usize = 0;
        while i < entries.len()
            invariant
                i <= entries.len(),
                entries@ == self.quay_mirror_login.mirror_repository@,
                forall|k: int|
                    0 <= k < i ==> !same_mirror(#[trigger] self@.quay_mirror_login[k], login@),
            decreases entries.len() - i,
        {
            if entries[i].organization == login.organization && entries[i].repository
                == login.repository && entries[i].ext_registry_username
                == login.ext_registry_username {
                assert(same_mirror(self@.quay_mirror_login[i as int], login@));
                return true;
            }
            i += 1;
        }
        false
    }

    /// Those of `wanted`, in order, for whose mirror the store has no login.
    pub fn missing_mirror_logins(&self, wanted: &quay_mirror_login) -> (asked: Vec<mirror_login>)
        ensures
            views(asked@) == missing_mirrors(self@.quay_mirror_login, wanted@),
    {
        let ghost all = wanted@;
        let mut asked: Vec<mirror_login> = Vec::new();
        assert(views(asked@) =~= Seq::empty());
        assert(all.take(0) =~= Seq::empty());
        let mut i: usize = 0;
        while i < wanted.mirror_repository.len()
            invariant
                i <= wanted.mirror_repository.len(),
                all == wanted@,
                views(asked@) == missing_mirrors(self@.quay_mirror_login, all.take(i as int)),
            decreases wanted.mirror_repository.len() - i,
        {
            proof {
                let upto = all.take(i + 1);
                assert(upto.last() == wanted.mirror_repository[i as int]@);
                assert(upto.drop_last() =~= all.take(i as int));
            }
            if !self.knows_mirror(&wanted.mirror_repository[i]) {
                let ghost before = asked@;
                let login = wanted.mirror_repository[i].clone();
                asked.push(login);
                proof {
                    lemma_views_push(before, login);
                }
            }
            i += 1;
        }
        assert(all.take(i as int) =~= all);
        asked
    }

    /// Merges the store with what was answered. For each of `endpoints` the
    /// store misses, in order, an entry with the token at the same place of
    /// `tokens` comes after the entries it has; each of `mirrors` for whose
    /// mirror the store has no login comes after the logins it has. Nothing
    /// is merged, and nothing returned, unless there is one token for each
    /// endpoint that is missed.
    pub fn merged_with(
        &self,
        endpoints: &Vec<String>,
        tokens: &Vec<String>,
        mirrors: &quay_mirror_login,
    ) -> (merged: Option<QuayLoginConfigs>)
        ensures
            merged is Some <==> tokens@.len() == missing(
                self@.quay_endpoint_login,
                views(endpoints@),
            ).len(),
            merged matches Some(store) ==> store@ == merged_logins(
                self@,
                views(endpoints@),
                views(tokens@),
                mirrors@,
            ),
    {
        let asked = self.missing_endpoints(endpoints);
        if asked.len() != tokens.len() {
            return None;
        }
        let ghost wanted = answered(views(asked@), views(tokens@));
        let mut store = self.clone();
        let mut more = self.missing_mirror_logins(mirrors);
        proof {
            lemma_views_add(store.quay_mirror_login.mirror_repository@, more@);
        }
        store.quay_mirror_login.mirror_repository.append(&mut more);
        assert(store@.quay_endpoint_login + wanted.take(0) =~= store@.quay_endpoint_login);
        let mut i: usize = 0;
        while i < asked.len()
            invariant
                i <= asked.len(),
                asked.len() == tokens.len(),
                wanted == answered(views(asked@), views(tokens@)),
                store@ == (QuayLoginConfigsView {
                    quay_endpoint_login: self@.quay_endpoint_login + wanted.take(i as int),
                    quay_mirror_login: self@.quay_mirror_login + missing_mirrors(
                        self@.quay_mirror_login,
                        mirrors@,
                    ),
                }),
            decreases asked.len() - i,
        {
            let ghost before = store.quay_endpoint_login@;
            let entry = QuayEndopoint {
                quay_endpoint: asked[i].clone(),
                quay_token: tokens[i].clone(),
            };
            store.quay_endpoint_login.push(entry);
            proof {
                lemma_views_push(before, entry);
                assert(self@.quay_endpoint_login + wanted.take(i + 1) =~= (
                self@.quay_endpoint_login + wanted.take(i as int)).push(entry@));
            }
            i += 1;
        }
        assert(wanted.take(i as int) =~= wanted);
        Some(store)
    }
}

impl OrganizationYaml {
    /// The mirror logins that the repositories of the organization ask for,
    /// without passwords.
    pub fn mirror_logins(&self) -> (logins: Vec<mirror_login>)
        ensures
            views(logins@) == organization_mirror_logins(self@, self@.repositories.len()),
    {
        let mut logins: Vec<mirror_login> = Vec::new();
        assert(views(logins@) =~= Seq::empty());
        let mut j: usize = 0;
        while j < self.repositories.len()
            invariant
                j <= self.repositories.len(),
                views(logins@) == organization_mirror_logins(self@, j as nat),
            decreases self.repositories.len() - j,
        {
            let repository = &self.repositories[j];
            match &repository.mirror_params {
                Some(params) => match &params.ext_registry_username {
                    Some(username) => {
                        let ghost before = logins@;
                        let login = mirror_login {
                            organization: self.quay_organization.clone(),
                            repository: repository.name.clone(),
                            ext_registry_username: username.clone(),
                            ext_registry_password: String::new(),
                        };
                        logins.push(login);
                        proof {
                            lemma_views_push(before, login);
                        }
                    },
                    None => {},
                },
                None => {},
            }
            j += 1;
        }
        logins
    }
}

impl QuayXmlConfig {
    /// The endpoints that the organizations of the store refer to, their
    /// own and those they are replicated to, each once.
    pub fn login_endpoints(&self) -> (endpoints: Vec<String>)
        ensures
            views(endpoints@) == login_endpoints(self@.organization),
    {
        let mut referenced: Vec<String> = Vec::new();
        assert(views(referenced@) =~= Seq::empty());
        let mut i: usize = 0;
        while i < self.organization.len()
            invariant
                i <= self.organization.len(),
                views(referenced@) == referenced_endpoints_upto(self@.organization, i as nat),
            decreases self.organization.len() - i,
        {
            let org = &self.organization[i];
            let ghost before = referenced@;
            let own = org.get_quay_endpoint();
            referenced.push(own);
            proof {
                lemma_views_push(before, own);
            }
            match &org.replicate_to {
                Some(replicas) => {
                    let ghost with_own = referenced@;
                    let mut copies = replicas.clone();
                    proof {
                        assert(views(copies@) =~= views(replicas@));
                        lemma_views_add(with_own, copies@);
                    }
                    referenced.append(&mut copies);
                },
                None => {
                    assert(views(referenced@) + Seq::<Seq<char>>::empty() =~= views(referenced@));
                },
            }
            i += 1;
        }
        unique(&referenced)
    }

    /// The endpoints to ask a token for: those that the organizations of
    /// the store refer to and the credential store has no token for.
    pub fn missing_logins(&self) -> (asked: Vec<String>)
        ensures
            views(asked@) == missing(
                self@.quay_login_configs.quay_endpoint_login,
                login_endpoints(self@.organization),
            ),
    {
        self.quay_login_configs.missing_endpoints(&self.login_endpoints())
    }

    /// Sets up the credential store: the store as it is, followed by an
    /// entry for each endpoint that `missing_logins` asks for, with the
    /// token at the same place of `tokens`, and by a login without password
    /// for each mirror that the organizations ask for and the store does not
    /// know. Nothing is returned unless there is one token for each
    /// endpoint asked for.
    pub fn create_login(&self, tokens: &Vec<String>) -> (merged: Option<QuayLoginConfigs>)
        ensures
            merged is Some <==> tokens@.len() == missing(
                self@.quay_login_configs.quay_endpoint_login,
                login_endpoints(self@.organization),
            ).len(),
            merged matches Some(store) ==> store@ == merged_logins(
                self@.quay_login_configs,
                login_endpoints(self@.organization),
                views(tokens@),
                mirror_logins_upto(self@.organization, self@.organization.len()),
            ),
    {
        self.quay_login_configs.merged_with(&self.login_endpoints(), tokens, &self.mirror_logins())
    }

    /// The mirror logins that the organizations of the store ask for,
    /// without passwords.
    pub fn mirror_logins(&self) -> (logins: quay_mirror_login)
        ensures
            logins@ == mirror_logins_upto(self@.organization, self@.organization.len()),
    {
        let mut mirror_repository: Vec<mirror_login> = Vec::new();
        assert(views(mirror_repository@) =~= Seq::empty());
        let mut i: usize = 0;
        while i < self.organization.len()
            invariant
                i <= self.organization.len(),
                views(mirror_repository@) == mirror_logins_upto(self@.organization, i as nat),
            decreases self.organization.len() - i,
        {
            let ghost before = mirror_repository@;
            let mut found = self.organization[i].mirror_logins();
            proof {
                lemma_views_add(before, found@);
            }
            mirror_repository.append(&mut found);
            i += 1;
        }
        quay_mirror_login { mirror_repository }
    }
}

} // verus!
