//! Reconciliation and stop selection.

use denver::config::{BuildConfig, ContainerConfig, RunConfig};
use denver::denver::{reconcile, stop_plan, DenverError};
use denver::docker::{build_options, create_run_options, DockerError, LiveContainer};
use denver::cli::Common;

fn definition(args: Option<Vec<&str>>, volumes: Option<Vec<&str>>) -> ContainerConfig {
    ContainerConfig {
        build: BuildConfig {
            dockerfile: None,
            context: "ctx/".to_string(),
            build_args: None,
        },
        run: RunConfig {
            args: args.map(|v| v.into_iter().map(str::to_string).collect()),
            workspace: "/workspace".to_string(),
            volumes: volumes.map(|v| v.into_iter().map(str::to_string).collect()),
        },
        tag: "img:latest".to_string(),
    }
}

fn live(id: &str, name: &str) -> LiveContainer {
    LiveContainer {
        id: id.to_string(),
        names: vec![format!("/{}", name)],
        image: "img:latest".to_string(),
        state: "running".to_string(),
        status: "Up".to_string(),
    }
}

#[test]
fn reconcile_removes_running_instance_before_creating() {
    // a container named x already running under a known id: the plan
    // removes that exact id, then creates a replacement under the name
    let old_id = "abc123def456abc123def456";
    let cfg = definition(None, None);
    let live_set = vec![live(old_id, "x")];
    let plan = reconcile(&"x".to_string(), &cfg, &live_set);
    let removal = plan.remove.expect("stale instance must be removed");
    assert_eq!(removal.id, old_id);
    assert_eq!(removal.name, "x");
    assert_eq!(plan.options.name, "x");
    assert_eq!(plan.options.tag, "img:latest");
}

#[test]
fn reconcile_removes_nothing_when_name_not_live() {
    let cfg = definition(None, None);
    let live_set = vec![live("abc123456789", "other")];
    let plan = reconcile(&"x".to_string(), &cfg, &live_set);
    assert!(plan.remove.is_none());
}

#[test]
fn reconcile_removes_first_match_only() {
    let cfg = definition(None, None);
    let live_set = vec![
        live("aaa111111111", "x"),
        live("bbb222222222", "x"),
    ];
    let plan = reconcile(&"x".to_string(), &cfg, &live_set);
    assert_eq!(plan.remove.expect("first match").id, "aaa111111111");
}

#[test]
fn create_options_translate_flags_and_volumes() {
    let cfg = definition(
        Some(vec!["interactive", "rm", "unrecognized"]),
        Some(vec!["/a:/b", "/dev:/dev:ro"]),
    );
    let opts = create_run_options("api", &cfg);
    assert_eq!(opts.name, "api");
    assert_eq!(
        opts.volumes,
        vec!["/workspace:/workspace", "/a:/b", "/dev:/dev:ro"]
    );
    assert_eq!(opts.working_dir, "/workspace");
    assert!(opts.attach_stdin);
    assert!(opts.auto_remove);
    assert!(!opts.privileged);
    assert_eq!(opts.label_key, "manager");
    assert_eq!(opts.label_value, "denver");
}

#[test]
fn create_options_short_stdin_flag_and_privileged() {
    let cfg = definition(Some(vec!["i", "privileged"]), None);
    let opts = create_run_options("api", &cfg);
    assert!(opts.attach_stdin);
    assert!(!opts.auto_remove);
    assert!(opts.privileged);
}

#[test]
fn build_options_default_dockerfile() {
    let cfg = definition(None, None);
    let common = Common {
        container: "api".to_string(),
        no_cache: true,
    };
    let opts = build_options(&common, &cfg);
    assert_eq!(opts.dockerfile, "Dockerfile");
    assert_eq!(opts.context, "ctx/");
    assert_eq!(opts.tag, "img:latest");
    assert!(opts.nocache);

    let mut named = definition(None, None);
    named.build.dockerfile = Some("Dockerfile.dev".to_string());
    let opts = build_options(
        &Common {
            container: "api".to_string(),
            no_cache: false,
        },
        &named,
    );
    assert_eq!(opts.dockerfile, "Dockerfile.dev");
    assert!(!opts.nocache);
}

#[test]
fn stop_plan_stops_only_matching_names() {
    // stop with pattern ^api$ against live {api, worker}: only api is
    // selected; worker is not in the plan at all
    let live_set = vec![live("abc123456789", "api"), live("def123456789", "worker")];
    let plan = stop_plan(&live_set, "^api$").expect("valid pattern");
    assert_eq!(plan.len(), 1);
    assert_eq!(plan[0].id, "abc123456789");
    assert_eq!(plan[0].name, "api");
}

#[test]
fn stop_plan_keeps_listing_order() {
    let live_set = vec![
        live("abc123456789", "api"),
        live("def123456789", "worker"),
        live("fed321654987", "api2"),
    ];
    let plan = stop_plan(&live_set, "api").expect("valid pattern");
    let names: Vec<&str> = plan.iter().map(|a| a.name.as_str()).collect();
    assert_eq!(names, vec!["api", "api2"]);
}

#[test]
fn stop_plan_rejects_invalid_pattern() {
    let err = stop_plan(&vec![], "[unclosed").unwrap_err();
    assert!(matches!(err, DenverError::InvalidRegex(_)));
}

#[test]
fn stop_and_status_select_the_same_names() {
    let config = denver::config::Config {
        socket: "/s".to_string(),
        containers: vec![],
    };
    let live_set = vec![
        live("abc123456789", "api"),
        live("def123456789", "worker"),
        live("fed321654987", "api2"),
    ];
    for pattern in [".*", "^api$", "api", "worker", "nothing"] {
        let stopped: Vec<String> = stop_plan(&live_set, pattern)
            .expect("valid")
            .into_iter()
            .map(|a| a.name)
            .collect();
        let table = denver::denver::status(&config, &live_set, pattern).expect("valid");
        let shown: Vec<String> = table.data[1..].iter().map(|r| r.name.clone()).collect();
        assert_eq!(stopped, shown);
    }
}

#[test]
fn error_messages_are_the_payload() {
    let e = DenverError::BuildError("broken".to_string());
    assert_eq!(e.message(), "broken");
    let e: DenverError = denver::docker::DockerError::List("down".to_string()).into();
    assert!(matches!(e, DenverError::StatusError(_)));
    assert_eq!(e.message(), "down");
}

#[test]
fn engine_errors_map_to_their_kinds() {
    let cases: Vec<(DockerError, fn(&DenverError) -> bool)> = vec![
        (DockerError::Build("b".into()), |e| {
            matches!(e, DenverError::BuildError(_))
        }),
        (DockerError::Run("r".into()), |e| {
            matches!(e, DenverError::RunError(_))
        }),
        (DockerError::Stop("s".into()), |e| {
            matches!(e, DenverError::StopError(_))
        }),
        (DockerError::Remove("m".into()), |e| {
            matches!(e, DenverError::RemoveError(_))
        }),
        (DockerError::List("l".into()), |e| {
            matches!(e, DenverError::StatusError(_))
        }),
    ];
    for (engine_error, is_kind) in cases {
        let e: DenverError = engine_error.into();
        assert!(is_kind(&e));
    }
}

#[test]
fn empty_sets_give_empty_results() {
    let config = denver::config::Config {
        socket: "/s".to_string(),
        containers: vec![],
    };
    let table = denver::denver::status(&config, &vec![], ".*").expect("valid");
    assert_eq!(table.data.len(), 1); // header only
    let plan = stop_plan(&vec![], ".*").expect("valid");
    assert!(plan.is_empty());
}

#[test]
fn reconciling_twice_leaves_one_instance() {
    // model the engine set across two rounds: each round removes the
    // planned instance and adds the freshly created one; exactly one
    // instance named x is live after each round
    let cfg = definition(None, None);
    let name = "x".to_string();
    let mut engine: Vec<LiveContainer> = vec![live("abc123def456", "x")];

    for round in 0..2u32 {
        let plan = reconcile(&name, &cfg, &engine);
        if let Some(removal) = &plan.remove {
            engine.retain(|c| c.id != removal.id);
        }
        engine.push(live(&format!("fresh{}fresh{}000", round, round), "x"));
        let named: Vec<&LiveContainer> = engine
            .iter()
            .filter(|c| c.names[0] == "/x")
            .collect();
        assert_eq!(named.len(), 1);
    }
}

#[test]
fn short_id_truncates_to_twelve() {
    assert_eq!(
        denver::docker::short_id("0123456789abcdef0123"),
        "0123456789ab"
    );
}

#[test]
fn display_name_strips_leading_separator() {
    let c = live("abc123456789", "api");
    assert_eq!(c.display_name(), "api");
    assert!(c.well_formed());
    let bad = LiveContainer {
        id: "short".to_string(),
        names: vec![],
        image: String::new(),
        state: String::new(),
        status: String::new(),
    };
    assert!(!bad.well_formed());
}
