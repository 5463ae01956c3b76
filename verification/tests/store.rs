use qcli::credentials::{QuayEndopoint, QuayLoginConfigs};
use qcli::desired::OrganizationYaml;
use qcli::executor::LogLevel;
use qcli::store::{ConfigError, QuayXmlConfig};

fn organization(name: &str, endpoint: &str, replicate_to: Option<Vec<&str>>) -> OrganizationYaml {
    OrganizationYaml {
        quay_endpoint: endpoint.to_string(),
        replicate_to: replicate_to.map(|list| list.into_iter().map(|e| e.to_string()).collect()),
        quay_validate_certs: "false".to_string(),
        quay_organization: name.to_string(),
        quay_organization_role_name: "owner".to_string(),
        quay_organization_role_email: "owner@example.com".to_string(),
        repositories: vec![],
        robots: vec![],
        teams: vec![],
    }
}

fn logins(endpoints: &[(&str, &str)]) -> QuayLoginConfigs {
    let mut store = QuayLoginConfigs::empty();
    for (endpoint, token) in endpoints {
        store.quay_endpoint_login.push(QuayEndopoint {
            quay_endpoint: endpoint.to_string(),
            quay_token: token.to_string(),
        });
    }
    store
}

fn store() -> QuayXmlConfig {
    QuayXmlConfig::new(&"conf".to_string(), 300, LogLevel::Info, 0, 5, true, true, None).unwrap()
}

fn identities(config: &QuayXmlConfig) -> Vec<(String, String)> {
    config
        .get_organizations()
        .iter()
        .map(|org| (org.quay_organization.clone(), org.quay_endpoint.clone()))
        .collect()
}

fn pair(name: &str, endpoint: &str) -> (String, String) {
    (name.to_string(), endpoint.to_string())
}

#[test]
fn new_store_keeps_its_settings() {
    let stored = logins(&[("a.example.com", "token-a")]);
    let config = QuayXmlConfig::new(
        &"conf".to_string(),
        300,
        LogLevel::Debug,
        10,
        7,
        false,
        false,
        Some(stored.clone()),
    )
    .unwrap();
    assert_eq!(
        config,
        QuayXmlConfig {
            organization: vec![],
            directory: "conf".to_string(),
            req_per_minute: 300,
            log_level: LogLevel::Debug,
            log_verbosity: 10,
            quay_login_configs: stored,
            timeout: 7,
            tls_verify: false,
        }
    );
    assert_eq!(config.get_quota(), 300);
    assert!(config.get_organizations().is_empty());
}

#[test]
fn new_store_refuses_a_quota_of_zero() {
    let made = QuayXmlConfig::new(&"conf".to_string(), 0, LogLevel::Info, 0, 5, true, true, None);
    assert_eq!(made, Err(ConfigError::ZeroQuota));
    let made = QuayXmlConfig::new(
        &"conf".to_string(),
        0,
        LogLevel::Info,
        0,
        5,
        false,
        true,
        Some(logins(&[])),
    );
    assert_eq!(made, Err(ConfigError::ZeroQuota));
}

#[test]
fn new_store_fails_without_a_credential_file() {
    let made = QuayXmlConfig::new(&"conf".to_string(), 300, LogLevel::Info, 0, 5, false, true, None);
    assert_eq!(made, Err(ConfigError::CredentialFileCorrupt));
}

#[test]
fn new_store_falls_back_to_an_empty_credential_store() {
    let ignored = logins(&[("a.example.com", "token-a")]);
    let config = QuayXmlConfig::new(
        &"conf".to_string(),
        300,
        LogLevel::Info,
        0,
        5,
        true,
        true,
        Some(ignored),
    )
    .unwrap();
    assert_eq!(config.quay_login_configs, QuayLoginConfigs::empty());
    assert_eq!(
        config.quay_login_configs.get_token_from_quay_endopoint("a.example.com".to_string()),
        None
    );
}

#[test]
fn replication_adds_one_clone_for_each_endpoint() {
    let mut config = store();
    let discarded = config.load_config(vec![organization(
        "org",
        "a.example.com",
        Some(vec!["b.example.com", "c.example.com"]),
    )]);
    assert!(discarded.is_empty());
    assert_eq!(
        identities(&config),
        vec![
            pair("org", "a.example.com"),
            pair("org", "b.example.com"),
            pair("org", "c.example.com"),
        ]
    );
    let mut expected = organization("org", "a.example.com", Some(vec!["b.example.com", "c.example.com"]));
    expected.change_endpoint("b.example.com".to_string());
    assert_eq!(config.get_organizations()[1], expected);
}

#[test]
fn replication_discards_a_clone_that_is_held_already() {
    let mut config = store();
    let discarded = config.load_config(vec![
        organization("org", "a.example.com", Some(vec!["b.example.com"])),
        organization("org", "b.example.com", None),
    ]);
    assert_eq!(identities(&config), vec![pair("org", "a.example.com"), pair("org", "b.example.com")]);
    assert_eq!(config.get_organizations()[1], organization("org", "b.example.com", None));
    assert_eq!(discarded.len(), 1);
    assert_eq!(discarded[0].quay_organization, "org");
    assert_eq!(discarded[0].quay_endpoint, "b.example.com");
}

#[test]
fn replication_discards_repeated_and_own_endpoints() {
    let mut config = store();
    let discarded = config.load_config(vec![organization(
        "org",
        "a.example.com",
        Some(vec!["b.example.com", "a.example.com", "b.example.com"]),
    )]);
    assert_eq!(identities(&config), vec![pair("org", "a.example.com"), pair("org", "b.example.com")]);
    assert_eq!(discarded.len(), 2);
    assert_eq!(discarded[0].quay_endpoint, "a.example.com");
    assert_eq!(discarded[1].quay_endpoint, "b.example.com");
}

#[test]
fn replication_goes_by_name_and_endpoint_not_by_the_rest() {
    let mut other = organization("org", "b.example.com", None);
    other.quay_organization_role_email = "someone.else@example.com".to_string();
    let mut config = store();
    let discarded = config.load_config(vec![
        organization("org", "a.example.com", Some(vec!["b.example.com"])),
        other.clone(),
    ]);
    assert_eq!(config.get_organizations().len(), 2);
    assert_eq!(config.get_organizations()[1], other);
    assert_eq!(discarded.len(), 1);
}

#[test]
fn replication_keeps_organizations_of_another_name_apart() {
    let mut config = store();
    let discarded = config.load_config(vec![
        organization("one", "a.example.com", Some(vec!["b.example.com"])),
        organization("two", "b.example.com", Some(vec!["a.example.com"])),
    ]);
    assert!(discarded.is_empty());
    assert_eq!(
        identities(&config),
        vec![
            pair("one", "a.example.com"),
            pair("two", "b.example.com"),
            pair("one", "b.example.com"),
            pair("two", "a.example.com"),
        ]
    );
}

#[test]
fn replication_does_not_expand_clones_in_turn() {
    let mut config = store();
    config.load_config(vec![organization("org", "a.example.com", Some(vec!["b.example.com"]))]);
    assert_eq!(identities(&config), vec![pair("org", "a.example.com"), pair("org", "b.example.com")]);
    assert_eq!(
        config.get_organizations()[1].replicate_to,
        Some(vec!["b.example.com".to_string()])
    );
}

#[test]
fn expanded_set_has_no_identity_twice() {
    let mut config = store();
    config.load_config(vec![
        organization("one", "a.example.com", Some(vec!["b.example.com", "c.example.com"])),
        organization("one", "c.example.com", Some(vec!["a.example.com", "d.example.com"])),
        organization("two", "a.example.com", Some(vec!["a.example.com", "b.example.com"])),
    ]);
    let found = identities(&config);
    for i in 0..found.len() {
        for j in (i + 1)..found.len() {
            assert_ne!(found[i], found[j]);
        }
    }
    assert_eq!(found.len(), 6);
}

#[test]
fn documents_that_repeat_an_identity_are_both_kept() {
    let mut config = store();
    let discarded = config.load_config(vec![
        organization("org", "a.example.com", None),
        organization("org", "a.example.com", None),
    ]);
    assert!(discarded.is_empty());
    assert_eq!(identities(&config), vec![pair("org", "a.example.com"), pair("org", "a.example.com")]);
}

#[test]
fn loading_again_adds_to_what_is_held() {
    let mut config = store();
    config.load_config(vec![organization("one", "a.example.com", None)]);
    let discarded = config.load_config(vec![organization("two", "a.example.com", Some(vec!["a.example.com"]))]);
    assert_eq!(identities(&config), vec![pair("one", "a.example.com"), pair("two", "a.example.com")]);
    assert_eq!(discarded.len(), 1);
    assert!(config.contains(&"one".to_string(), &"a.example.com".to_string()));
    assert!(!config.contains(&"one".to_string(), &"b.example.com".to_string()));
    assert!(!config.contains(&"three".to_string(), &"a.example.com".to_string()));
}

#[test]
fn loading_nothing_changes_nothing() {
    let mut config = store();
    assert!(config.load_config(vec![]).is_empty());
    assert_eq!(config, store());
}
