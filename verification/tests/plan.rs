use qcli::credentials::{mirror_login, quay_mirror_login, QuayEndopoint, QuayLoginConfigs};
use qcli::desired::{
    Members, MirrorParams, OrganizationYaml, Permissions, Repository, RobotDetails, Team, UserElement,
};
use qcli::executor::{LogLevel, QuayFnArguments};
use qcli::plan::{Action, CreatePlan, DeletePlan, MirrorAction, PermissionFetch};
use qcli::request::{Method, Request};
use qcli::store::QuayXmlConfig;

fn entry(name: &str, role: &str) -> UserElement {
    UserElement::new(name.to_string(), role.to_string())
}

fn mirror() -> MirrorParams {
    MirrorParams {
        src_registry: "quay.io".to_string(),
        src_image: "libpod/alpine".to_string(),
        src_image_tags: vec!["latest".to_string()],
        ext_registry_verify_tls: true,
        ext_registry_unsigned_image: None,
        robot_username: "mirror".to_string(),
        sync_interval: 86400,
        is_enabled: true,
        https_proxy: None,
        http_proxy: None,
        no_proxy: None,
        ext_registry_username: Some("puller".to_string()),
        ext_registry_password: None,
    }
}

fn repository(name: &str, permissions: Option<Permissions>, mirror_params: Option<MirrorParams>) -> Repository {
    Repository {
        name: name.to_string(),
        description: None,
        visibility: None,
        mirror: mirror_params.is_some(),
        mirror_params,
        permissions,
    }
}

fn bare(name: &str, endpoint: &str, replicate_to: Option<Vec<&str>>) -> OrganizationYaml {
    OrganizationYaml {
        quay_endpoint: endpoint.to_string(),
        replicate_to: replicate_to.map(|list| list.into_iter().map(|e| e.to_string()).collect()),
        quay_validate_certs: "false".to_string(),
        quay_organization: name.to_string(),
        quay_organization_role_name: "owner".to_string(),
        quay_organization_role_email: "owner@example.com".to_string(),
        repositories: vec![],
        robots: vec![],
        teams: vec![],
    }
}

fn full(name: &str, endpoint: &str) -> OrganizationYaml {
    let mut org = bare(name, endpoint, None);
    org.robots = vec![
        RobotDetails { name: "builder".to_string(), desc: "builds".to_string() },
        RobotDetails { name: "mirror".to_string(), desc: "mirrors".to_string() },
    ];
    org.teams = vec![
        Team {
            name: "devs".to_string(),
            description: "developers".to_string(),
            members: Members {
                users: vec!["alice".to_string(), "bob".to_string()],
                robots: vec!["builder".to_string()],
            },
            role: "member".to_string(),
        },
        Team {
            name: "ops".to_string(),
            description: "operators".to_string(),
            members: Members { users: vec!["carol".to_string()], robots: vec![] },
            role: "admin".to_string(),
        },
    ];
    org.repositories = vec![
        repository(
            "web",
            Some(Permissions {
                robots: vec![entry("builder", "write")],
                users: vec![entry("alice", "admin"), entry("bob", "read")],
                teams: Some(vec![entry("devs", "write")]),
            }),
            None,
        ),
        repository("alpine", None, Some(mirror())),
        repository(
            "api",
            Some(Permissions { robots: vec![], users: vec![entry("carol", "read")], teams: None }),
            None,
        ),
    ];
    org
}

fn logins(endpoints: &[(&str, &str)]) -> QuayLoginConfigs {
    let mut store = QuayLoginConfigs::empty();
    for (endpoint, token) in endpoints {
        store.quay_endpoint_login.push(QuayEndopoint {
            quay_endpoint: endpoint.to_string(),
            quay_token: token.to_string(),
        });
    }
    store
}

fn store(stored: QuayLoginConfigs, documents: Vec<OrganizationYaml>) -> QuayXmlConfig {
    let mut config =
        QuayXmlConfig::new(&"conf".to_string(), 300, LogLevel::Info, 5, 9, false, false, Some(stored))
            .unwrap();
    config.load_config(documents);
    config
}

fn context(token: &str, mirror_logins: Vec<mirror_login>) -> QuayFnArguments {
    QuayFnArguments {
        token: token.to_string(),
        log_level: LogLevel::Info,
        log_verbosity: 5,
        timeout: 9,
        tls_verify: false,
        mirror_login: Some(mirror_logins),
    }
}

fn endpoints(actions: &Vec<Action>) -> Vec<(Method, String)> {
    actions.iter().map(|action| (action.request.method, action.request.endpoint.clone())).collect()
}

fn tokens(actions: &Vec<Action>) -> Vec<String> {
    actions.iter().map(|action| action.arguments.token.clone()).collect()
}

fn put(path: &str) -> (Method, String) {
    (Method::Put, format!("https://a.example.com/api/v1/{}", path))
}

#[test]
fn replicated_organization_is_created_once_at_each_endpoint() {
    let config = store(
        logins(&[("a.example.com", "token-a"), ("b.example.com", "token-b")]),
        vec![
            bare("org", "a.example.com", Some(vec!["b.example.com"])),
            bare("org", "b.example.com", None),
        ],
    );
    let held: Vec<(String, String)> = config
        .get_organizations()
        .iter()
        .map(|org| (org.quay_organization.clone(), org.quay_endpoint.clone()))
        .collect();
    assert_eq!(
        held,
        vec![
            ("org".to_string(), "a.example.com".to_string()),
            ("org".to_string(), "b.example.com".to_string()),
        ]
    );
    let plan = config.create_all("2023-01-22T06:28:00z");
    assert_eq!(
        endpoints(&plan.organizations),
        vec![
            (Method::Post, "https://a.example.com/api/v1/organization/".to_string()),
            (Method::Post, "https://b.example.com/api/v1/organization/".to_string()),
        ]
    );
    assert_eq!(tokens(&plan.organizations), vec!["token-a".to_string(), "token-b".to_string()]);
    assert!(plan.skipped.is_empty());
}

#[test]
fn replica_of_a_single_document_is_created_too() {
    let config = store(
        logins(&[("a.example.com", "token-a"), ("b.example.com", "token-b")]),
        vec![bare("org", "a.example.com", Some(vec!["b.example.com"]))],
    );
    let plan = config.create_all("d");
    assert_eq!(
        endpoints(&plan.organizations),
        vec![
            (Method::Post, "https://a.example.com/api/v1/organization/".to_string()),
            (Method::Post, "https://b.example.com/api/v1/organization/".to_string()),
        ]
    );
}

#[test]
fn empty_store_plans_nothing() {
    let config = store(logins(&[]), vec![]);
    assert_eq!(
        config.create_all("d"),
        CreatePlan {
            organizations: vec![],
            robots: vec![],
            teams: vec![],
            team_members: vec![],
            repositories: vec![],
            user_permissions: vec![],
            team_permissions: vec![],
            grants: vec![],
            mirrors: vec![],
            skipped: vec![],
        }
    );
    assert_eq!(config.delete_all(), DeletePlan { organizations: vec![], skipped: vec![] });
}

#[test]
fn organization_without_token_is_skipped_in_every_phase() {
    let config = store(
        logins(&[("a.example.com", "token-a")]),
        vec![full("lost", "x.example.com"), full("acme", "a.example.com"), bare("gone", "y.example.com", None)],
    );
    let plan = config.create_all("d");
    assert_eq!(plan.skipped, vec![0, 2]);
    assert_eq!(plan.organizations.len(), 1);
    assert_eq!(plan.robots.len(), 2);
    assert_eq!(plan.teams.len(), 2);
    assert_eq!(plan.team_members.len(), 4);
    assert_eq!(plan.repositories.len(), 3);
    assert_eq!(plan.user_permissions.len(), 3);
    assert_eq!(plan.team_permissions.len(), 3);
    assert_eq!(plan.grants.len(), 5);
    assert_eq!(plan.mirrors.len(), 1);
    assert_eq!(config.create_all("d"), store(logins(&[("a.example.com", "token-a")]), vec![
        full("lost", "x.example.com"),
        full("acme", "a.example.com"),
        bare("gone", "y.example.com", None),
    ]).create_all("d"));
    for action in plan.organizations.iter().chain(&plan.robots).chain(&plan.teams).chain(&plan.grants) {
        assert!(action.request.endpoint.starts_with("https://a.example.com/"));
        assert_eq!(action.arguments.token, "token-a");
    }
    let deleted = config.delete_all();
    assert_eq!(deleted.skipped, vec![0, 2]);
    assert_eq!(
        endpoints(&deleted.organizations),
        vec![(Method::Delete, "https://a.example.com/api/v1/organization/acme".to_string())]
    );
}

#[test]
fn no_organization_has_a_token() {
    let config = store(logins(&[]), vec![full("acme", "a.example.com"), full("other", "b.example.com")]);
    let plan = config.create_all("d");
    assert_eq!(plan.skipped, vec![0, 1]);
    assert!(plan.organizations.is_empty());
    assert!(plan.robots.is_empty());
    assert!(plan.grants.is_empty());
    assert!(plan.mirrors.is_empty());
    assert_eq!(config.delete_all(), DeletePlan { organizations: vec![], skipped: vec![0, 1] });
}

#[test]
fn phases_of_one_organization() {
    let config = store(logins(&[("a.example.com", "token-a")]), vec![full("acme", "a.example.com")]);
    let plan = config.create_all("2023-01-22T06:28:00z");
    let org = &config.get_organizations()[0];
    let arguments = context("token-a", vec![]);
    let acted = |request: Request| Action { request, arguments: arguments.clone() };
    assert_eq!(plan.organizations, vec![acted(org.create_organization())]);
    assert_eq!(
        plan.robots,
        vec![acted(org.create_robot(&org.robots[0])), acted(org.create_robot(&org.robots[1]))]
    );
    assert_eq!(
        plan.teams,
        vec![acted(org.create_team(&org.teams[0])), acted(org.create_team(&org.teams[1]))]
    );
    assert_eq!(
        endpoints(&plan.team_members),
        vec![
            put("organization/acme/team/devs/members/alice"),
            put("organization/acme/team/devs/members/bob"),
            put("organization/acme/team/devs/members/acme+builder"),
            put("organization/acme/team/ops/members/carol"),
        ]
    );
    assert_eq!(
        plan.repositories,
        vec![
            acted(org.create_repository(&org.repositories[0])),
            acted(org.create_repository(&org.repositories[1])),
            acted(org.create_repository(&org.repositories[2])),
        ]
    );
    assert_eq!(
        plan.user_permissions,
        (0..3)
            .map(|j| PermissionFetch {
                action: acted(org.get_user_permission_from_repository(&org.repositories[j])),
                organization: 0,
                repository: j,
            })
            .collect::<Vec<PermissionFetch>>()
    );
    assert_eq!(
        plan.team_permissions,
        (0..3)
            .map(|j| PermissionFetch {
                action: acted(org.get_team_permission_from_repository(&org.repositories[j])),
                organization: 0,
                repository: j,
            })
            .collect::<Vec<PermissionFetch>>()
    );
    assert_eq!(
        endpoints(&plan.grants),
        vec![
            put("repository/acme/web/permissions/user/acme+builder"),
            put("repository/acme/web/permissions/team/devs"),
            put("repository/acme/web/permissions/user/alice"),
            put("repository/acme/web/permissions/user/bob"),
            put("repository/acme/api/permissions/user/carol"),
        ]
    );
    assert_eq!(
        plan.mirrors,
        vec![MirrorAction {
            sequence: org
                .create_repository_mirror(&org.repositories[1], &arguments, "2023-01-22T06:28:00z")
                .unwrap(),
            arguments: arguments.clone(),
        }]
    );
    assert_eq!(config.context("token-a".to_string()), arguments);
}

#[test]
fn phases_keep_the_order_of_the_store() {
    let config = store(
        logins(&[("a.example.com", "token-a"), ("b.example.com", "token-b")]),
        vec![full("one", "a.example.com"), full("two", "b.example.com")],
    );
    let plan = config.create_all("d");
    assert_eq!(
        tokens(&plan.robots),
        vec!["token-a".to_string(), "token-a".to_string(), "token-b".to_string(), "token-b".to_string()]
    );
    assert_eq!(plan.team_members.len(), 8);
    assert_eq!(plan.grants.len(), 10);
    assert_eq!(plan.mirrors.len(), 2);
    let places: Vec<(usize, usize)> =
        plan.user_permissions.iter().map(|fetch| (fetch.organization, fetch.repository)).collect();
    assert_eq!(places, vec![(0, 0), (0, 1), (0, 2), (1, 0), (1, 1), (1, 2)]);
    assert_eq!(
        plan.team_permissions[4].action.request.endpoint,
        "https://b.example.com/api/v1/repository/two/alpine/permissions/team/"
    );
}

#[test]
fn mirror_password_comes_from_the_credential_store() {
    let mut stored = logins(&[("a.example.com", "token-a")]);
    let login = mirror_login {
        organization: "acme".to_string(),
        repository: "alpine".to_string(),
        ext_registry_username: "puller".to_string(),
        ext_registry_password: "secret".to_string(),
    };
    stored.quay_mirror_login = quay_mirror_login { mirror_repository: vec![login.clone()] };
    let config = store(stored, vec![full("acme", "a.example.com")]);
    let plan = config.create_all("d");
    assert_eq!(plan.mirrors.len(), 1);
    assert_eq!(plan.mirrors[0].arguments, context("token-a", vec![login]));
    match &plan.mirrors[0].sequence.configure.body {
        qcli::request::RequestBody::Mirror(config) => {
            assert_eq!(config.external_registry_password, Some("secret".to_string()));
            assert_eq!(config.sync_start_date, "d");
        }
        qcli::request::RequestBody::Fields(_) => panic!("a mirror is configured with a mirror configuration"),
    }
}

#[test]
fn delete_all_deletes_each_organization_that_has_a_token() {
    let config = store(
        logins(&[("a.example.com", "token-a"), ("b.example.com", "token-b")]),
        vec![full("one", "a.example.com"), bare("two", "b.example.com", Some(vec!["a.example.com"]))],
    );
    let plan = config.delete_all();
    assert!(plan.skipped.is_empty());
    assert_eq!(
        endpoints(&plan.organizations),
        vec![
            (Method::Delete, "https://a.example.com/api/v1/organization/one".to_string()),
            (Method::Delete, "https://b.example.com/api/v1/organization/two".to_string()),
            (Method::Delete, "https://a.example.com/api/v1/organization/two".to_string()),
        ]
    );
    assert_eq!(
        tokens(&plan.organizations),
        vec!["token-a".to_string(), "token-b".to_string(), "token-a".to_string()]
    );
}
