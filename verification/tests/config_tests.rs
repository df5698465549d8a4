//! Configuration loading round-trip: YAML text to the declared state.

use denver::config::{BuildConfig, Config, ContainerConfig, RunConfig};

/// Turns parsed YAML into the declared state, as the loader around the
/// library does: a mapping from declared name to definition, plus the
/// engine socket.
fn config_from_yaml(text: &str) -> Config {
    let v: serde_yaml::Value = serde_yaml::from_str(text).expect("invalid yaml");
    let socket = v["socket"].as_str().expect("socket").to_string();
    let mut containers: Vec<(String, ContainerConfig)> = Vec::new();
    let mapping = v["containers"].as_mapping().expect("containers");
    for (name, c) in mapping {
        let name = name.as_str().expect("name").to_string();
        let build = &c["build"];
        let build = BuildConfig {
            dockerfile: build["dockerfile"].as_str().map(|s| s.to_string()),
            context: build["context"].as_str().expect("context").to_string(),
            build_args: build["build_args"].as_mapping().map(|m| {
                m.iter()
                    .map(|(k, v)| {
                        (
                            k.as_str().expect("arg key").to_string(),
                            v.as_str().expect("arg value").to_string(),
                        )
                    })
                    .collect()
            }),
        };
        let run = &c["run"];
        let run = RunConfig {
            args: run["args"].as_sequence().map(|s| {
                s.iter()
                    .map(|a| a.as_str().expect("run arg").to_string())
                    .collect()
            }),
            workspace: run["workspace"].as_str().expect("workspace").to_string(),
            volumes: run["volumes"].as_sequence().map(|s| {
                s.iter()
                    .map(|a| a.as_str().expect("volume").to_string())
                    .collect()
            }),
        };
        let tag = c["tag"].as_str().expect("tag").to_string();
        containers.push((name, ContainerConfig { build, run, tag }));
    }
    Config { socket, containers }
}

#[test]
fn test_deserialize() {
    let socket = "/sockets/docker/fedora.sock/";
    let name = "test-container";
    let dockerfile = "Dockerfile";
    let context = "ctx/";
    let build_args = r#"
            test_arg: value
            test_arg2: value2
            "#;
    let args = r#"
        - i
        - rm"#;
    let workspace = "/some/path/";
    let volumes = r#"
        - /some/other/path:/path
        - /dev:/dev:ro"#;
    let tag = "quay.io/org/some:tag";
    let config = format!(
        r#"
socket: {}
containers:
  {}:
    build:
        dockerfile: {}
        context: {}
        build_args: {}
    run:
        args: {}
        workspace: {}
        volumes: {}
    tag: {}
        "#,
        socket, name, dockerfile, context, build_args, args, workspace, volumes, tag
    );

    let config = config_from_yaml(&config);

    assert_eq!(config.socket, socket);
    assert_eq!(config.containers.len(), 1);

    let container = &config
        .containers
        .iter()
        .find(|(n, _)| n.as_str() == name)
        .expect("declared name")
        .1;
    assert_eq!(tag, container.tag);

    let build_config = &container.build;
    assert_eq!(dockerfile, build_config.dockerfile.as_ref().unwrap());
    assert_eq!(context, build_config.context);
    for (k, v) in build_config.build_args.as_ref().unwrap() {
        assert!(build_args.contains(k));
        assert!(build_args.contains(v));
    }

    let run_config = &container.run;
    let run_args = run_config.args.as_ref().unwrap();
    for arg in run_args {
        assert!(args.contains(arg));
    }
    assert_eq!(workspace, run_config.workspace);

    let run_volumes = run_config.volumes.as_ref().unwrap();
    assert_eq!(2, run_volumes.len());
    for volume in run_volumes {
        assert!(volumes.contains(volume));
    }
}

#[test]
fn config_lookup_is_by_name() {
    let config = config_from_yaml(
        r#"
socket: /var/run/docker.sock
containers:
  api:
    build:
        context: ctx/
    run:
        workspace: /w
    tag: api:latest
  worker:
    build:
        context: ctx2/
    run:
        workspace: /w2
    tag: worker:latest
        "#,
    );
    assert_eq!(config.containers.len(), 2);
    let found = denver::denver::get_container_config(&config, &"worker".to_string());
    assert_eq!(found.expect("declared").tag, "worker:latest");

    let missing = denver::denver::get_container_config(&config, &"db".to_string());
    match missing {
        Err(denver::denver::DenverError::UnknownContainer(m)) => {
            assert_eq!(m, "db not found");
        }
        _ => panic!("expected an unknown-container error"),
    }
}
