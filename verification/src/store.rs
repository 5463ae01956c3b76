//! The desired-state store: the organizations that the documents declare,
//! expanded by the replicas they ask for, together with the settings of the
//! run and the credential store.

use crate::credentials::{QuayLoginConfigs, QuayLoginConfigsView};
use crate::desired::{OrganizationView, OrganizationYaml};
use crate::executor::LogLevel;
use crate::views::{lemma_views_push, views};
use vstd::prelude::*;

verus! {

/// Whether one of `organizations` has this name at this endpoint.
pub open spec fn holds(
    organizations: Seq<OrganizationView>,
    name: Seq<char>,
    endpoint: Seq<char>,
) -> bool {
    exists|i: int|
        0 <= i < organizations.len() && (#[trigger] organizations[i]).quay_organization == name
            && organizations[i].quay_endpoint == endpoint
}

/// Whether no two of `organizations` have the same name at the same
/// endpoint.
pub open spec fn distinct(organizations: Seq<OrganizationView>) -> bool {
    forall|i: int, j: int|
        0 <= i < j < organizations.len() ==> !((#[trigger] organizations[i]).quay_organization == (
        #[trigger] organizations[j]).quay_organization && organizations[i].quay_endpoint
            == organizations[j].quay_endpoint)
}

/// `org` as it is replicated to `endpoint`: only the endpoint differs.
pub open spec fn replica(org: OrganizationView, endpoint: Seq<char>) -> OrganizationView {
    OrganizationView { quay_endpoint: endpoint, ..org }
}

/// The endpoints that an organization is replicated to.
pub open spec fn replica_endpoints(org: OrganizationView) -> Seq<Seq<char>> {
    match org.replicate_to {
        Some(endpoints) => endpoints,
        None => Seq::empty(),
    }
}

/// A set of organizations under expansion: those held so far, and the
/// replicas that were discarded because their name was held at their
/// endpoint already.
pub struct Expansion {
    pub held: Seq<OrganizationView>,
    pub discarded: Seq<OrganizationView>,
}

/// `sofar` after the replicas of `org` at `endpoints` were offered to it, in
/// order. A replica is added at the end unless the set holds its name at its
/// endpoint; then it is discarded.
pub open spec fn offer_replicas(
    sofar: Expansion,
    org: OrganizationView,
    endpoints: Seq<Seq<char>>,
) -> Expansion
    decreases endpoints.len(),
{
    if endpoints.len() == 0 {
        sofar
    } else {
        let before = offer_replicas(sofar, org, endpoints.drop_last());
        let copy = replica(org, endpoints.last());
        if holds(before.held, org.quay_organization, endpoints.last()) {
            Expansion { discarded: before.discarded.push(copy), ..before }
        } else {
            Expansion { held: before.held.push(copy), ..before }
        }
    }
}

/// The expansion of `base` by the replicas of its first `n` organizations.
/// Replicas are not expanded in turn.
pub open spec fn expanded_upto(base: Seq<OrganizationView>, n: nat) -> Expansion
    decreases n,
{
    if n == 0 {
        Expansion { held: base, discarded: Seq::empty() }
    } else {
        offer_replicas(
            expanded_upto(base, (n - 1) as nat),
            base[n - 1],
            replica_endpoints(base[n - 1]),
        )
    }
}

/// The expansion of `base` by all the replicas it asks for.
pub open spec fn expanded(base: Seq<OrganizationView>) -> Expansion {
    expanded_upto(base, base.len())
}

/// Offering replicas adds at the end only, and keeps a set distinct.
pub proof fn lemma_offer_replicas(
    sofar: Expansion,
    org: OrganizationView,
    endpoints: Seq<Seq<char>>,
)
    ensures
        sofar.held.len() <= offer_replicas(sofar, org, endpoints).held.len(),
        offer_replicas(sofar, org, endpoints).held.take(sofar.held.len() as int) == sofar.held,
        distinct(sofar.held) ==> distinct(offer_replicas(sofar, org, endpoints).held),
    decreases endpoints.len(),
{
    let after = offer_replicas(sofar, org, endpoints);
    if endpoints.len() == 0 {
        assert(after.held.take(sofar.held.len() as int) =~= sofar.held);
    } else {
        let before = offer_replicas(sofar, org, endpoints.drop_last());
        lemma_offer_replicas(sofar, org, endpoints.drop_last());
        assert(after.held.take(sofar.held.len() as int) =~= before.held.take(
            sofar.held.len() as int,
        ));
        if distinct(sofar.held) && !holds(before.held, org.quay_organization, endpoints.last()) {
            let copy = replica(org, endpoints.last());
            assert forall|i: int, j: int| 0 <= i < j < after.held.len() implies !((
            #[trigger] after.held[i]).quay_organization == (#[trigger] after.held[j]).quay_organization
                && after.held[i].quay_endpoint == after.held[j].quay_endpoint) by {
                if j < before.held.len() {
                    assert(after.held[i] == before.held[i]);
                    assert(after.held[j] == before.held[j]);
                } else {
                    assert(after.held[j] == copy);
                    assert(after.held[i] == before.held[i]);
                }
            }
        }
    }
}

/// The expansion keeps the base as it is, at the front: nothing is
/// overwritten or merged.
pub proof fn lemma_expansion_keeps_base(base: Seq<OrganizationView>, n: nat)
    requires
        n <= base.len(),
    ensures
        base.len() <= expanded_upto(base, n).held.len(),
        expanded_upto(base, n).held.take(base.len() as int) == base,
    decreases n,
{
    if n == 0 {
        assert(base.take(base.len() as int) =~= base);
    } else {
        let before = expanded_upto(base, (n - 1) as nat);
        lemma_expansion_keeps_base(base, (n - 1) as nat);
        lemma_offer_replicas(before, base[n - 1], replica_endpoints(base[n - 1]));
        let after = expanded_upto(base, n);
        assert(after.held.take(base.len() as int) =~= after.held.take(
            before.held.len() as int,
        ).take(base.len() as int));
    }
}

/// Replication uniqueness: where no two declared organizations have the
/// same name at the same endpoint, no two organizations of the expanded set
/// have.
pub proof fn lemma_expansion_distinct(base: Seq<OrganizationView>)
    requires
        distinct(base),
    ensures
        distinct(expanded(base).held),
{
    lemma_expansion_distinct_upto(base, base.len());
}

/// The expansion by the replicas of the first `n` organizations keeps a
/// distinct base distinct.
pub proof fn lemma_expansion_distinct_upto(base: Seq<OrganizationView>, n: nat)
    requires
        distinct(base),
        n <= base.len(),
    ensures
        distinct(expanded_upto(base, n).held),
    decreases n,
{
    if n > 0 {
        lemma_expansion_distinct_upto(base, (n - 1) as nat);
        lemma_offer_replicas(
            expanded_upto(base, (n - 1) as nat),
            base[n - 1],
            replica_endpoints(base[n - 1]),
        );
    }
}

/// Why a store could not be set up.
#[derive(Debug, Clone, Copy, PartialEq, Eq, Structural)]
pub enum ConfigError {
    /// The credential file is absent or cannot be read as one.
    CredentialFileCorrupt,
    /// The quota of requests per minute is zero.
    ZeroQuota,
}

/// The store of a run.
#[derive(Debug, Clone, PartialEq, Eq)]
pub struct QuayXmlConfig {
    pub organization: Vec<OrganizationYaml>,
    pub directory: String,
    /// The quota of the rate limiter: requests per minute, not zero.
    pub req_per_minute: u32,
    pub log_level: LogLevel,
    pub log_verbosity: u8,
    pub quay_login_configs: QuayLoginConfigs,
    /// The time a request may take, in seconds.
    pub timeout: u64,
    pub tls_verify: bool,
}

/// The view of [`QuayXmlConfig`].
pub struct QuayXmlConfigView {
    pub organization: Seq<OrganizationView>,
    pub directory: Seq<char>,
    pub req_per_minute: u32,
    pub log_level: LogLevel,
    pub log_verbosity: u8,
    pub quay_login_configs: QuayLoginConfigsView,
    pub timeout: u64,
    pub tls_verify: bool,
}

impl View for QuayXmlConfig {
    type V = QuayXmlConfigView;

    open spec fn view(&self) -> QuayXmlConfigView {
        QuayXmlConfigView {
            organization: views(self.organization@),
            directory: self.directory@,
            req_per_minute: self.req_per_minute,
            log_level: self.log_level,
            log_verbosity: self.log_verbosity,
            quay_login_configs: self.quay_login_configs@,
            timeout: self.timeout,
            tls_verify: self.tls_verify,
        }
    }
}

/// The store that `new` sets up on success.
pub open spec fn initial_store(
    directory: Seq<char>,
    req_per_minute: u32,
    log_level: LogLevel,
    log_verbosity: u8,
    timeout: u64,
    tls_verify: bool,
    logins: QuayLoginConfigsView,
) -> QuayXmlConfigView {
    QuayXmlConfigView {
        organization: Seq::empty(),
        directory,
        req_per_minute,
        log_level,
        log_verbosity,
        quay_login_configs: logins,
        timeout,
        tls_verify,
    }
}

/// A credential store without entries.
pub open spec fn no_logins() -> QuayLoginConfigsView {
    QuayLoginConfigsView { quay_endpoint_login: Seq::empty(), quay_mirror_login: Seq::empty() }
}

impl QuayXmlConfig {
    /// Sets up a store without organizations. `stored` is the credential
    /// file as it was read, and nothing where it is absent or corrupt.
    ///
    /// A quota of zero is refused. With `ignore_login_config` the store gets
    /// an empty credential store, whatever was read; without it the store
    /// gets what was read, and fails where nothing was.
    pub fn new(
        directory: &String,
        req_per_minute: u32,
        log_level: LogLevel,
        log_verbosity: u8,
        timeout: u64,
        ignore_login_config: bool,
        tls_verify: bool,
        stored: Option<QuayLoginConfigs>,
    ) -> (made: Result<Self, ConfigError>)
        ensures
            req_per_minute == 0 ==> made == Err::<Self, ConfigError>(ConfigError::ZeroQuota),
            req_per_minute != 0 && !ignore_login_config && stored is None ==> made == Err::<
                Self,
                ConfigError,
            >(ConfigError::CredentialFileCorrupt),
            req_per_minute != 0 && (ignore_login_config || stored is Some) ==> made is Ok
                && made->Ok_0@ == initial_store(
                directory@,
                req_per_minute,
                log_level,
                log_verbosity,
                timeout,
                tls_verify,
                if ignore_login_config {
                    no_logins()
                } else {
                    stored->Some_0@
                },
            ),
    {
        if req_per_minute == 0 {
            return Err(ConfigError::ZeroQuota);
        }
        let quay_login_configs = if ignore_login_config {
            QuayLoginConfigs::empty()
        } else {
            match stored {
                Some(logins) => logins,
                None => {
                    return Err(ConfigError::CredentialFileCorrupt);
                },
            }
        };
        let organization: Vec<OrganizationYaml> = Vec::new();
        assert(views(organization@) =~= Seq::empty());
        Ok(
            QuayXmlConfig {
                organization,
                directory: directory.clone(),
                req_per_minute,
                log_level,
                log_verbosity,
                quay_login_configs,
                timeout,
                tls_verify,
            },
        )
    }

    /// The organizations of the store.
    pub fn get_organizations(&self) -> (organizations: &Vec<OrganizationYaml>)
        ensures
            organizations == &self.organization,
    {
        &self.organization
    }

    /// The quota that the rate limiter of the run is made with: requests
    /// per minute.
    pub fn get_quota(&self) -> (quota: u32)
        ensures
            quota == self.req_per_minute,
    {
        self.req_per_minute
    }

    /// Whether the store holds an organization called `name` at `endpoint`.
    pub fn contains(&self, name: &String, endpoint: &String) -> (found: bool)
        ensures
            found == holds(self@.organization, name@, endpoint@),
    {
        let mut i: usize = 0;
        while i < self.organization.len()
            invariant
                i <= self.organization.len(),
                forall|k: int|
                    0 <= k < i ==> !((#[trigger] self@.organization[k]).quay_organization == name@
                        && self@.organization[k].quay_endpoint == endpoint@),
            decreases self.organization.len() - i,
        {
            let held = &self.organization[i];
            if held.quay_organization == *name && held.quay_endpoint == *endpoint {
                assert(self@.organization[i as int].quay_organization == name@);
                return true;
            }
            i += 1;
        }
        false
    }

    /// Takes the organizations that the documents declare into the store,
    /// after those it holds, and expands the store by the replicas that its
    /// organizations ask for. Returns the replicas that were discarded
    /// because the store held their name at their endpoint already.
    pub fn load_config(&mut self, documents: Vec<OrganizationYaml>) -> (discarded: Vec<
        OrganizationYaml,
    >)
        ensures
            final(self)@ == (QuayXmlConfigView {
                organization: expanded(old(self)@.organization + views(documents@)).held,
                ..old(self)@
            }),
            views(discarded@) == expanded(old(self)@.organization + views(documents@)).discarded,
    {
        let ghost base = old(self)@.organization + views(documents@);
        let mut documents = documents;
        proof {
            crate::views::lemma_views_add(old(self).organization@, documents@);
        }
        self.organization.append(&mut documents);
        let declared = self.organization.len();
        let mut discarded: Vec<OrganizationYaml> = Vec::new();
        assert(views(discarded@) =~= Seq::empty());
        let mut i: usize = 0;
        while i < declared
            invariant
                i <= declared,
                declared == base.len(),
                declared <= self.organization.len(),
                self@ == (QuayXmlConfigView { organization: self@.organization, ..old(self)@ }),
                self@.organization.take(declared as int) == base,
                self@.organization == expanded_upto(base, i as nat).held,
                views(discarded@) == expanded_upto(base, i as nat).discarded,
            decreases declared - i,
        {
            let org = self.organization[i].clone();
            assert(org@ == base[i as int]) by {
                assert(self@.organization.take(declared as int)[i as int]
                    == self@.organization[i as int]);
            }
            let ghost start = expanded_upto(base, i as nat);
            match &org.replicate_to {
                Some(endpoints) => {
                    let ghost all = views(endpoints@);
                    assert(all == replica_endpoints(org@));
                    assert(all.take(0) =~= Seq::empty());
                    let mut j: usize = 0;
                    while j < endpoints.len()
                        invariant
                            j <= endpoints.len(),
                            all == views(endpoints@),
                            declared == base.len(),
                            declared <= self.organization.len(),
                            self@ == (QuayXmlConfigView {
                                organization: self@.organization,
                                ..old(self)@
                            }),
                            self@.organization.take(declared as int) == base,
                            self@.organization == offer_replicas(
                                start,
                                org@,
                                all.take(j as int),
                            ).held,
                            views(discarded@) == offer_replicas(
                                start,
                                org@,
                                all.take(j as int),
                            ).discarded,
                        decreases endpoints.len() - j,
                    {
                        proof {
                            let upto = all.take(j + 1);
                            assert(upto.last() == endpoints[j as int]@);
                            assert(upto.drop_last() =~= all.take(j as int));
                        }
                        let mut copy = org.clone();
                        copy.change_endpoint(endpoints[j].clone());
                        assert(copy@ == replica(org@, endpoints[j as int]@));
                        if self.contains(&copy.quay_organization, &copy.quay_endpoint) {
                            let ghost before = discarded@;
                            discarded.push(copy);
                            proof {
                                lemma_views_push(before, copy);
                            }
                        } else {
                            let ghost before = self.organization@;
                            self.organization.push(copy);
                            proof {
                                lemma_views_push(before, copy);
                                assert(self@.organization.take(declared as int) =~= views(
                                    before,
                                ).take(declared as int));
                            }
                        }
                        j += 1;
                    }
                    assert(all.take(j as int) =~= all);
                },
                None => {},
            }
            i += 1;
        }
        discarded
    }
}

} // verus!
