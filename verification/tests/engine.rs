use qcli::credentials::{QuayEndopoint, QuayLoginConfigs};
use qcli::desired::{
    Members, MirrorParams, OrganizationYaml, Permissions, Repository, RobotDetails, Team, UserElement,
};
use qcli::engine::{Dispatch, Phase, Run, RunError, Ticket, Wave};
use qcli::executor::{ActionResult, FailureKind, LogLevel, QuayResponse, RequestError};
use qcli::json::JsonValue;
use qcli::mirror::MirrorState;
use qcli::plan::CreatePlan;
use qcli::request::Method;
use qcli::store::QuayXmlConfig;

fn entry(name: &str, role: &str) -> UserElement {
    UserElement::new(name.to_string(), role.to_string())
}

fn mirror() -> MirrorParams {
    MirrorParams {
        src_registry: "quay.io".to_string(),
        src_image: "libpod/alpine".to_string(),
        src_image_tags: vec!["latest".to_string()],
        ext_registry_verify_tls: true,
        ext_registry_unsigned_image: None,
        robot_username: "mirror".to_string(),
        sync_interval: 86400,
        is_enabled: true,
        https_proxy: None,
        http_proxy: None,
        no_proxy: None,
        ext_registry_username: None,
        ext_registry_password: None,
    }
}

fn repository(name: &str, permissions: Option<Permissions>, mirror_params: Option<MirrorParams>) -> Repository {
    Repository {
        name: name.to_string(),
        description: None,
        visibility: None,
        mirror: mirror_params.is_some(),
        mirror_params,
        permissions,
    }
}

fn organization() -> OrganizationYaml {
    OrganizationYaml {
        quay_endpoint: "a.example.com".to_string(),
        replicate_to: None,
        quay_validate_certs: "false".to_string(),
        quay_organization: "acme".to_string(),
        quay_organization_role_name: "owner".to_string(),
        quay_organization_role_email: "owner@example.com".to_string(),
        repositories: vec![
            repository(
                "web",
                Some(Permissions {
                    robots: vec![],
                    users: vec![entry("alice", "admin")],
                    teams: Some(vec![entry("devs", "write")]),
                }),
                None,
            ),
            repository("alpine", None, Some(mirror())),
        ],
        robots: vec![RobotDetails { name: "builder".to_string(), desc: "builds".to_string() }],
        teams: vec![
            Team {
                name: "devs".to_string(),
                description: "developers".to_string(),
                members: Members { users: vec!["alice".to_string()], robots: vec!["builder".to_string()] },
                role: "member".to_string(),
            },
            Team {
                name: "ops".to_string(),
                description: "operators".to_string(),
                members: Members { users: vec![], robots: vec![] },
                role: "admin".to_string(),
            },
        ],
    }
}

fn store(documents: Vec<OrganizationYaml>) -> QuayXmlConfig {
    let mut stored = QuayLoginConfigs::empty();
    stored.quay_endpoint_login.push(QuayEndopoint {
        quay_endpoint: "a.example.com".to_string(),
        quay_token: "token-a".to_string(),
    });
    let mut config =
        QuayXmlConfig::new(&"conf".to_string(), 300, LogLevel::Info, 0, 5, false, true, Some(stored))
            .unwrap();
    config.load_config(documents);
    config
}

fn answer(status_code: u16, response: JsonValue) -> ActionResult {
    Ok(QuayResponse { response, status_code, description: "acme".to_string() })
}

fn ok() -> ActionResult {
    answer(200, JsonValue::Null)
}

fn failure() -> ActionResult {
    Err(RequestError {
        kind: FailureKind::Unreachable,
        cause: "connection refused".to_string(),
        description: "acme".to_string(),
    })
}

fn object(members: Vec<(&str, JsonValue)>) -> JsonValue {
    JsonValue::Object(members.into_iter().map(|(key, value)| (key.to_string(), value)).collect())
}

fn listed(name: &str, role: &str, is_robot: Option<bool>) -> JsonValue {
    let mut members = vec![
        ("name", JsonValue::String(name.to_string())),
        ("role", JsonValue::String(role.to_string())),
    ];
    if let Some(flag) = is_robot {
        members.push(("is_robot", JsonValue::Bool(flag)));
    }
    object(members)
}

fn listing(entries: Vec<(&str, JsonValue)>) -> JsonValue {
    object(vec![("permissions", object(entries))])
}

fn sent(dispatches: &Vec<Dispatch>) -> Vec<(Method, String)> {
    dispatches
        .iter()
        .map(|dispatch| (dispatch.action.request.method, dispatch.action.request.endpoint.clone()))
        .collect()
}

fn url(path: &str) -> String {
    format!("https://a.example.com/api/v1/{}", path)
}

/// Resolves every dispatch of a wave with the outcome that `outcome` gives for it, follow-ups
/// included, and returns what was sent when the wave was left.
fn finish_wave(
    run: &mut Run,
    config: &QuayXmlConfig,
    plan: &CreatePlan,
    dispatches: Vec<Dispatch>,
    outcome: &dyn Fn(&Dispatch) -> ActionResult,
) -> Vec<Dispatch> {
    let wave = run.wave;
    let mut pending = dispatches;
    while let Some(dispatch) = pending.pop() {
        assert_eq!(run.wave, wave);
        let taken = run.resolve(config, plan, &dispatch, outcome(&dispatch)).unwrap();
        if run.wave == wave {
            pending.extend(taken.dispatch);
        } else {
            assert!(pending.is_empty());
            return taken.dispatch;
        }
    }
    panic!("the wave was not left");
}

#[test]
fn waves_belong_to_phases_in_order() {
    let order = [
        (Wave::Organizations, Phase::CreateOrganizations),
        (Wave::Robots, Phase::CreateRobots),
        (Wave::Teams, Phase::CreateTeams),
        (Wave::TeamMembers, Phase::CreateTeams),
        (Wave::Repositories, Phase::CreateRepositories),
        (Wave::Permissions, Phase::ReconcilePermissions),
        (Wave::Grants, Phase::GrantPermissions),
        (Wave::Mirrors, Phase::ConfigureMirrors),
        (Wave::Done, Phase::Done),
    ];
    for (i, (wave, phase)) in order.iter().enumerate() {
        assert_eq!(wave.phase(), *phase);
        let next = if i + 1 < order.len() { order[i + 1].0 } else { Wave::Done };
        assert_eq!(wave.next(), next);
    }
}

#[test]
fn run_of_an_empty_plan_is_done_at_once() {
    let config = store(vec![]);
    let plan = config.create_all("d");
    let (run, dispatches) = plan.begin();
    assert_eq!(run, Run { wave: Wave::Done, outstanding: 0 });
    assert!(run.is_done());
    assert!(dispatches.is_empty());
}

#[test]
fn run_goes_through_the_phases_in_order() {
    let config = store(vec![organization()]);
    let plan = config.create_all("d");
    let (mut run, mut dispatches) = plan.begin();
    let mut seen = vec![];
    while !run.is_done() {
        seen.push((run.wave, run.outstanding, sent(&dispatches)));
        dispatches = finish_wave(&mut run, &config, &plan, dispatches, &|_| ok());
    }
    assert!(dispatches.is_empty());
    assert_eq!(run, Run { wave: Wave::Done, outstanding: 0 });
    assert_eq!(
        seen,
        vec![
            (Wave::Organizations, 1, vec![(Method::Post, url("organization/"))]),
            (Wave::Robots, 1, vec![(Method::Put, url("organization/acme/robots/builder"))]),
            (
                Wave::Teams,
                2,
                vec![
                    (Method::Put, url("organization/acme/team/devs")),
                    (Method::Put, url("organization/acme/team/ops")),
                ]
            ),
            (
                Wave::TeamMembers,
                2,
                vec![
                    (Method::Put, url("organization/acme/team/devs/members/alice")),
                    (Method::Put, url("organization/acme/team/devs/members/acme+builder")),
                ]
            ),
            (
                Wave::Repositories,
                2,
                vec![(Method::Post, url("repository")), (Method::Post, url("repository"))]
            ),
            (
                Wave::Permissions,
                4,
                vec![
                    (Method::Get, url("repository/acme/web/permissions/user/")),
                    (Method::Get, url("repository/acme/alpine/permissions/user/")),
                    (Method::Get, url("repository/acme/web/permissions/team/")),
                    (Method::Get, url("repository/acme/alpine/permissions/team/")),
                ]
            ),
            (
                Wave::Grants,
                2,
                vec![
                    (Method::Put, url("repository/acme/web/permissions/team/devs")),
                    (Method::Put, url("repository/acme/web/permissions/user/alice")),
                ]
            ),
            (Wave::Mirrors, 1, vec![(Method::Put, url("repository/acme/alpine/changestate"))]),
        ]
    );
}

#[test]
fn waves_without_actions_are_passed_over() {
    let mut org = organization();
    org.robots = vec![];
    org.teams = vec![];
    org.repositories = vec![];
    let config = store(vec![org]);
    let plan = config.create_all("d");
    let (mut run, dispatches) = plan.begin();
    assert_eq!(run, Run { wave: Wave::Organizations, outstanding: 1 });
    let taken = run.resolve(&config, &plan, &dispatches[0], ok()).unwrap();
    assert_eq!(run, Run { wave: Wave::Done, outstanding: 0 });
    assert!(taken.dispatch.is_empty());
    assert_eq!(taken.report, Some(ok()));
}

#[test]
fn failure_of_a_team_action_holds_nothing_back() {
    let config = store(vec![organization()]);
    let plan = config.create_all("d");
    let mut run = Run { wave: Wave::Teams, outstanding: 2 };
    let teams = plan.dispatches(Wave::Teams);
    assert_eq!(teams.len(), 2);

    let taken = run.resolve(&config, &plan, &teams[0], failure()).unwrap();
    assert_eq!(run, Run { wave: Wave::Teams, outstanding: 1 });
    assert!(taken.dispatch.is_empty());
    assert_eq!(taken.report, Some(failure()));

    let taken = run.resolve(&config, &plan, &teams[1], ok()).unwrap();
    assert_eq!(run, Run { wave: Wave::TeamMembers, outstanding: 2 });
    assert_eq!(taken.dispatch, plan.dispatches(Wave::TeamMembers));
    assert_eq!(taken.report, Some(ok()));

    let members = taken.dispatch;
    let taken = run.resolve(&config, &plan, &members[1], failure()).unwrap();
    assert_eq!(run, Run { wave: Wave::TeamMembers, outstanding: 1 });
    assert!(taken.dispatch.is_empty());
    let taken = run.resolve(&config, &plan, &members[0], failure()).unwrap();
    assert_eq!(run, Run { wave: Wave::Repositories, outstanding: 2 });
    assert_eq!(taken.dispatch, plan.dispatches(Wave::Repositories));
}

#[test]
fn outcome_of_a_plain_action_does_not_change_the_run() {
    let config = store(vec![organization()]);
    let plan = config.create_all("d");
    for wave in [Wave::Organizations, Wave::Robots, Wave::Teams, Wave::TeamMembers, Wave::Repositories, Wave::Grants] {
        let dispatches = plan.dispatches(wave);
        for outstanding in [1, 2, 7] {
            let mut reached = vec![];
            for outcome in [ok(), answer(409, JsonValue::Null), answer(500, JsonValue::Null), failure()] {
                let mut run = Run { wave, outstanding };
                let taken = run.resolve(&config, &plan, &dispatches[0], outcome).unwrap();
                reached.push((run, taken.dispatch));
            }
            for other in &reached[1..] {
                assert_eq!(*other, reached[0]);
            }
            if outstanding > 1 {
                assert_eq!(reached[0].0, Run { wave, outstanding: outstanding - 1 });
                assert!(reached[0].1.is_empty());
            } else {
                assert_ne!(reached[0].0.wave, wave);
            }
        }
    }
}

#[test]
fn listing_is_followed_by_the_revocations() {
    let config = store(vec![organization()]);
    let plan = config.create_all("d");
    let listings = plan.dispatches(Wave::Permissions);
    assert_eq!(listings[0].ticket, Ticket::UserListing { organization: 0, repository: 0 });
    assert_eq!(listings[2].ticket, Ticket::TeamListing { organization: 0, repository: 0 });
    let mut run = Run { wave: Wave::Permissions, outstanding: 4 };

    let users = listing(vec![
        ("alice", listed("alice", "read", Some(false))),
        ("bob", listed("bob", "write", Some(false))),
        ("acme+old", listed("acme+old", "read", Some(true))),
    ]);
    let taken = run.resolve(&config, &plan, &listings[0], answer(200, users)).unwrap();
    assert_eq!(run, Run { wave: Wave::Permissions, outstanding: 5 });
    assert_eq!(
        sent(&taken.dispatch),
        vec![
            (Method::Delete, url("repository/acme/web/permissions/user/bob")),
            (Method::Delete, url("repository/acme/web/permissions/user/acme+old")),
        ]
    );
    for dispatch in &taken.dispatch {
        assert_eq!(dispatch.ticket, Ticket::Plain);
        assert_eq!(dispatch.action.arguments, listings[0].action.arguments);
    }
    let revocations = taken.dispatch;

    let teams = listing(vec![("ops", listed("ops", "admin", None))]);
    let taken = run.resolve(&config, &plan, &listings[2], answer(200, teams)).unwrap();
    assert_eq!(run, Run { wave: Wave::Permissions, outstanding: 5 });
    assert_eq!(
        sent(&taken.dispatch),
        vec![(Method::Delete, url("repository/acme/web/permissions/team/ops"))]
    );
    let team_revocation = taken.dispatch;

    let taken = run.resolve(&config, &plan, &listings[1], failure()).unwrap();
    assert_eq!(run, Run { wave: Wave::Permissions, outstanding: 4 });
    assert!(taken.dispatch.is_empty());
    assert_eq!(taken.report, Some(failure()));
    let taken = run.resolve(&config, &plan, &listings[3], answer(404, JsonValue::Null)).unwrap();
    assert_eq!(run, Run { wave: Wave::Permissions, outstanding: 3 });
    assert!(taken.dispatch.is_empty());

    run.resolve(&config, &plan, &revocations[0], failure()).unwrap();
    run.resolve(&config, &plan, &team_revocation[0], ok()).unwrap();
    assert_eq!(run, Run { wave: Wave::Permissions, outstanding: 1 });
    let taken = run.resolve(&config, &plan, &revocations[1], ok()).unwrap();
    assert_eq!(run, Run { wave: Wave::Grants, outstanding: 2 });
    assert_eq!(taken.dispatch, plan.dispatches(Wave::Grants));
}

#[test]
fn listing_of_an_unknown_place_is_followed_by_nothing() {
    let config = store(vec![organization()]);
    let plan = config.create_all("d");
    let mut stray = plan.dispatches(Wave::Permissions).remove(0);
    let users = || listing(vec![("bob", listed("bob", "write", Some(false)))]);
    for ticket in [
        Ticket::UserListing { organization: 1, repository: 0 },
        Ticket::UserListing { organization: 0, repository: 2 },
        Ticket::TeamListing { organization: 5, repository: 5 },
    ] {
        stray.ticket = ticket;
        let mut run = Run { wave: Wave::Permissions, outstanding: 2 };
        let taken = run.resolve(&config, &plan, &stray, answer(200, users())).unwrap();
        assert_eq!(run, Run { wave: Wave::Permissions, outstanding: 1 });
        assert!(taken.dispatch.is_empty());
        assert_eq!(taken.report, Some(answer(200, users())));
    }
}

#[test]
fn mirror_conflict_is_followed_by_one_update_and_the_update_is_reported() {
    let config = store(vec![organization()]);
    let plan = config.create_all("d");
    let mut run = Run { wave: Wave::Mirrors, outstanding: 1 };
    let first = plan.dispatches(Wave::Mirrors);
    assert_eq!(first[0].ticket, Ticket::Mirror { index: 0, state: MirrorState::Init });

    let taken = run.resolve(&config, &plan, &first[0], ok()).unwrap();
    assert_eq!(run, Run { wave: Wave::Mirrors, outstanding: 1 });
    assert_eq!(taken.report, None);
    assert_eq!(sent(&taken.dispatch), vec![(Method::Post, url("repository/acme/alpine/mirror"))]);
    assert_eq!(taken.dispatch[0].ticket, Ticket::Mirror { index: 0, state: MirrorState::StateSet });
    let post = taken.dispatch;

    let taken = run.resolve(&config, &plan, &post[0], answer(409, JsonValue::Null)).unwrap();
    assert_eq!(run, Run { wave: Wave::Mirrors, outstanding: 1 });
    assert_eq!(taken.report, None);
    assert_eq!(sent(&taken.dispatch), vec![(Method::Put, url("repository/acme/alpine/mirror"))]);
    assert_eq!(taken.dispatch[0].action.request.body, post[0].action.request.body);
    assert_eq!(taken.dispatch[0].ticket, Ticket::Mirror { index: 0, state: MirrorState::ConfigAttempted });
    let update = taken.dispatch;

    let taken = run.resolve(&config, &plan, &update[0], answer(201, JsonValue::Null)).unwrap();
    assert_eq!(run, Run { wave: Wave::Done, outstanding: 0 });
    assert!(taken.dispatch.is_empty());
    assert_eq!(taken.report, Some(answer(201, JsonValue::Null)));
}

#[test]
fn mirror_without_conflict_reports_the_post() {
    let config = store(vec![organization()]);
    let plan = config.create_all("d");
    let mut run = Run { wave: Wave::Mirrors, outstanding: 1 };
    let first = plan.dispatches(Wave::Mirrors);
    let post = run.resolve(&config, &plan, &first[0], answer(500, JsonValue::Null)).unwrap().dispatch;
    let taken = run.resolve(&config, &plan, &post[0], answer(201, JsonValue::Null)).unwrap();
    assert!(run.is_done());
    assert!(taken.dispatch.is_empty());
    assert_eq!(taken.report, Some(answer(201, JsonValue::Null)));
}

#[test]
fn mirror_failure_ends_the_sequence_and_is_reported() {
    let config = store(vec![organization()]);
    let plan = config.create_all("d");
    let mut run = Run { wave: Wave::Mirrors, outstanding: 1 };
    let first = plan.dispatches(Wave::Mirrors);
    let taken = run.resolve(&config, &plan, &first[0], failure()).unwrap();
    assert!(run.is_done());
    assert!(taken.dispatch.is_empty());
    assert_eq!(taken.report, Some(failure()));
}

#[test]
fn outcome_is_refused_when_nothing_is_under_way() {
    let config = store(vec![organization()]);
    let plan = config.create_all("d");
    let dispatches = plan.dispatches(Wave::Organizations);
    for wave in [Wave::Organizations, Wave::Permissions, Wave::Done] {
        let mut run = Run { wave, outstanding: 0 };
        let taken = run.resolve(&config, &plan, &dispatches[0], ok());
        assert_eq!(taken, Err(RunError::NothingOutstanding));
        assert_eq!(run, Run { wave, outstanding: 0 });
    }
}

#[test]
fn outcome_is_refused_when_too_many_actions_would_be_under_way() {
    let config = store(vec![organization()]);
    let plan = config.create_all("d");
    let listings = plan.dispatches(Wave::Permissions);
    let users = listing(vec![
        ("bob", listed("bob", "write", Some(false))),
        ("eve", listed("eve", "write", Some(false))),
    ]);
    let mut run = Run { wave: Wave::Permissions, outstanding: usize::MAX };
    let taken = run.resolve(&config, &plan, &listings[0], answer(200, users));
    assert_eq!(taken, Err(RunError::TooManyActions));
    assert_eq!(run, Run { wave: Wave::Permissions, outstanding: usize::MAX });
    let taken = run.resolve(&config, &plan, &listings[0], failure()).unwrap();
    assert!(taken.dispatch.is_empty());
    assert_eq!(run, Run { wave: Wave::Permissions, outstanding: usize::MAX - 1 });
}
