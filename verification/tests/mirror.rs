use qcli::credentials::mirror_login;
use qcli::desired::{MirrorParams, OrganizationYaml, Repository};
use qcli::executor::{ActionResult, FailureKind, LogLevel, QuayFnArguments, QuayResponse, RequestError};
use qcli::json::JsonValue;
use qcli::mirror::{
    sync_start_date, ExternalRegistryConfig, MirrorConfig, MirrorSequence, MirrorState,
    QuayMirrorProxy, RootRule,
};
use qcli::request::{Field, Method, Request, RequestBody};

fn params() -> MirrorParams {
    MirrorParams {
        src_registry: "quay.io".to_string(),
        src_image: "libpod/alpine".to_string(),
        src_image_tags: vec!["latest".to_string(), "v1".to_string()],
        ext_registry_verify_tls: true,
        ext_registry_unsigned_image: None,
        robot_username: "mirror".to_string(),
        sync_interval: 86400,
        is_enabled: true,
        https_proxy: Some("https://proxy.example.com".to_string()),
        http_proxy: None,
        no_proxy: Some("localhost".to_string()),
        ext_registry_username: Some("puller".to_string()),
        ext_registry_password: Some("unused".to_string()),
    }
}

fn repository(mirror_params: Option<MirrorParams>) -> Repository {
    Repository {
        name: "alpine".to_string(),
        description: None,
        visibility: None,
        mirror: mirror_params.is_some(),
        mirror_params,
        permissions: None,
    }
}

fn organization() -> OrganizationYaml {
    OrganizationYaml {
        quay_endpoint: "quay.example.com".to_string(),
        replicate_to: None,
        quay_validate_certs: "false".to_string(),
        quay_organization: "acme".to_string(),
        quay_organization_role_name: "owner".to_string(),
        quay_organization_role_email: "owner@example.com".to_string(),
        repositories: vec![],
        robots: vec![],
        teams: vec![],
    }
}

fn arguments(mirror_login: Option<Vec<mirror_login>>) -> QuayFnArguments {
    QuayFnArguments {
        token: "token".to_string(),
        log_level: LogLevel::Info,
        log_verbosity: 0,
        timeout: 5,
        tls_verify: true,
        mirror_login,
    }
}

fn puller(password: &str) -> mirror_login {
    mirror_login {
        organization: "acme".to_string(),
        repository: "alpine".to_string(),
        ext_registry_username: "puller".to_string(),
        ext_registry_password: password.to_string(),
    }
}

fn config(password: Option<&str>, date: &str) -> MirrorConfig {
    MirrorConfig {
        external_reference: "quay.io/libpod/alpine".to_string(),
        external_registry_username: Some("puller".to_string()),
        external_registry_password: password.map(|text| text.to_string()),
        sync_interval: 86400,
        sync_start_date: date.to_string(),
        robot_username: "acme+mirror".to_string(),
        external_registry_config: ExternalRegistryConfig {
            verify_tls: true,
            unsigned_images: false,
            proxy: QuayMirrorProxy {
                http_proxy: None,
                https_proxy: Some("https://proxy.example.com".to_string()),
                no_proxy: Some("localhost".to_string()),
            },
        },
        root_rule: RootRule {
            rule_kind: "tag_glob_csv".to_string(),
            rule_value: vec!["latest".to_string(), "v1".to_string()],
        },
    }
}

fn sequence() -> MirrorSequence {
    organization()
        .create_repository_mirror(
            &repository(Some(params())),
            &arguments(Some(vec![puller("secret")])),
            "2023-01-22T06:28:00z",
        )
        .unwrap()
}

fn answer(status_code: u16) -> ActionResult {
    Ok(QuayResponse {
        response: JsonValue::Null,
        status_code,
        description: "Configuring mirror".to_string(),
    })
}

fn failure() -> ActionResult {
    Err(RequestError {
        kind: FailureKind::TimedOut,
        cause: "timed out".to_string(),
        description: "Configuring mirror".to_string(),
    })
}

#[test]
fn sync_start_date_of_the_epoch() {
    assert_eq!(sync_start_date(0), Some("1970-01-01T00:00:00z".to_string()));
}

#[test]
fn sync_start_date_of_a_known_instant() {
    assert_eq!(sync_start_date(1431648000), Some("2015-05-15T00:00:00z".to_string()));
    assert_eq!(sync_start_date(1674368880), Some("2023-01-22T06:28:00z".to_string()));
    assert_eq!(sync_start_date(-1), Some("1969-12-31T23:59:59z".to_string()));
}

#[test]
fn sync_start_date_out_of_range() {
    assert_eq!(sync_start_date(i64::MAX), None);
    assert_eq!(sync_start_date(i64::MIN), None);
}

#[test]
fn mirror_config_follows_the_parameters() {
    let built = organization().mirror_config(&params(), Some("secret".to_string()), "2023-01-22T06:28:00z");
    assert_eq!(built, config(Some("secret"), "2023-01-22T06:28:00z"));
}

#[test]
fn mirror_config_takes_unsigned_images_as_declared() {
    let mut declared = params();
    declared.ext_registry_unsigned_image = Some(true);
    declared.ext_registry_verify_tls = false;
    let built = organization().mirror_config(&declared, None, "d");
    assert!(built.external_registry_config.unsigned_images);
    assert!(!built.external_registry_config.verify_tls);
    assert_eq!(built.external_registry_password, None);
}

#[test]
fn no_mirror_sequence_without_mirror_parameters() {
    let found = organization().create_repository_mirror(&repository(None), &arguments(None), "d");
    assert_eq!(found, None);
}

#[test]
fn mirror_sequence_sets_state_then_configures() {
    let description = "Configuring mirror for repository 'alpine' for organization 'acme'";
    assert_eq!(
        sequence(),
        MirrorSequence {
            change_state: Request {
                method: Method::Put,
                endpoint: "https://quay.example.com/api/v1/repository/acme/alpine/changestate".to_string(),
                body: RequestBody::Fields(vec![Field::new("state", "MIRROR")]),
                description: description.to_string(),
            },
            configure: Request {
                method: Method::Post,
                endpoint: "https://quay.example.com/api/v1/repository/acme/alpine/mirror".to_string(),
                body: RequestBody::Mirror(config(Some("secret"), "2023-01-22T06:28:00z")),
                description: description.to_string(),
            },
        }
    );
}

#[test]
fn mirror_password_comes_from_the_context() {
    let org = organization();
    let repo = repository(Some(params()));
    let password = |logins: Option<Vec<mirror_login>>| {
        match org.create_repository_mirror(&repo, &arguments(logins), "d").unwrap().configure.body {
            RequestBody::Mirror(config) => config.external_registry_password,
            RequestBody::Fields(_) => panic!("a mirror is configured with a mirror configuration"),
        }
    };
    assert_eq!(password(None), None);
    assert_eq!(password(Some(vec![])), None);
    assert_eq!(password(Some(vec![puller("one"), puller("two")])), Some("two".to_string()));
    let mut stranger = puller("three");
    stranger.organization = "other".to_string();
    assert_eq!(password(Some(vec![stranger])), None);
}

#[test]
fn mirror_starts_with_the_change_of_state() {
    let mirror = sequence();
    assert_eq!(mirror.start(), (MirrorState::Init, mirror.change_state.clone()));
}

#[test]
fn mirror_is_created_when_the_post_is_answered() {
    let mirror = sequence();
    let step = mirror.step(MirrorState::Init, answer(200));
    assert_eq!(step.state, MirrorState::StateSet);
    assert_eq!(step.next, Some(mirror.configure.clone()));
    assert_eq!(step.report, None);
    let step = mirror.step(MirrorState::StateSet, answer(201));
    assert_eq!(step.state, MirrorState::Created);
    assert_eq!(step.next, None);
    assert_eq!(step.report, Some(answer(201)));
}

#[test]
fn mirror_state_request_is_not_looked_at() {
    let mirror = sequence();
    for status in [200, 400, 409, 500] {
        let step = mirror.step(MirrorState::Init, answer(status));
        assert_eq!(step.state, MirrorState::StateSet);
        assert_eq!(step.next, Some(mirror.configure.clone()));
        assert_eq!(step.report, None);
    }
}

#[test]
fn mirror_conflict_is_followed_by_one_update() {
    let mirror = sequence();
    let step = mirror.step(MirrorState::StateSet, answer(409));
    assert_eq!(step.state, MirrorState::ConfigAttempted);
    assert_eq!(step.report, None);
    let update = step.next.unwrap();
    assert_eq!(update.method, Method::Put);
    assert_eq!(update.endpoint, mirror.configure.endpoint);
    assert_eq!(update.body, mirror.configure.body);
    assert_eq!(update, mirror.update());
    let step = mirror.step(MirrorState::ConfigAttempted, answer(200));
    assert_eq!(step.state, MirrorState::Updated);
    assert_eq!(step.next, None);
    assert_eq!(step.report, Some(answer(200)));
}

#[test]
fn mirror_update_is_reported_whatever_it_says() {
    let mirror = sequence();
    for status in [400, 409, 500] {
        let step = mirror.step(MirrorState::ConfigAttempted, answer(status));
        assert_eq!(step.state, MirrorState::Updated);
        assert_eq!(step.next, None);
        assert_eq!(step.report, Some(answer(status)));
    }
}

#[test]
fn mirror_post_that_is_refused_ends_the_sequence() {
    let mirror = sequence();
    for status in [400, 404, 500] {
        let step = mirror.step(MirrorState::StateSet, answer(status));
        assert_eq!(step.state, MirrorState::Created);
        assert_eq!(step.next, None);
        assert_eq!(step.report, Some(answer(status)));
    }
}

#[test]
fn mirror_fails_on_a_transport_failure() {
    let mirror = sequence();
    for state in [MirrorState::Init, MirrorState::StateSet, MirrorState::ConfigAttempted] {
        let step = mirror.step(state, failure());
        assert_eq!(step.state, MirrorState::Failed);
        assert_eq!(step.next, None);
        assert_eq!(step.report, Some(failure()));
    }
}

#[test]
fn mirror_that_has_ended_stays_as_it_is() {
    let mirror = sequence();
    for state in [MirrorState::Created, MirrorState::Updated, MirrorState::Failed] {
        for outcome in [answer(200), answer(409), failure()] {
            let step = mirror.step(state, outcome);
            assert_eq!(step.state, state);
            assert_eq!(step.next, None);
            assert_eq!(step.report, None);
        }
    }
}
