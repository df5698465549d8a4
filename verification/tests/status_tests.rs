//! The status table: merging, filtering and rendering.

use denver::config::{BuildConfig, Config, ContainerConfig, RunConfig};
use denver::denver::{status, DenverError};
use denver::docker::LiveContainer;
use denver::status::{Container, Containers};

fn definition(tag: &str) -> ContainerConfig {
    ContainerConfig {
        build: BuildConfig {
            dockerfile: None,
            context: "ctx/".to_string(),
            build_args: None,
        },
        run: RunConfig {
            args: None,
            workspace: "/w".to_string(),
            volumes: None,
        },
        tag: tag.to_string(),
    }
}

fn live(id: &str, name: &str, image: &str, state: &str, status: &str) -> LiveContainer {
    LiveContainer {
        id: id.to_string(),
        names: vec![format!("/{}", name)],
        image: image.to_string(),
        state: state.to_string(),
        status: status.to_string(),
    }
}

#[test]
fn render_exact_output() {
    let mut table = Containers::new();
    table.push(Container::new(
        "abcdef123456",
        "api",
        "img",
        "running",
        "Up",
    ));
    let text = table.render();
    assert_eq!(
        text,
        "CONTAINER ID  NAME  IMAGE  STATE    STATUS  \n\
         abcdef123456  api   img    RUNNING  Up      \n"
    );
}

#[test]
fn render_header_first_and_widths() {
    let mut table = Containers::new();
    table.push(Container::new(
        "------------",
        "a-very-long-container-name",
        "i",
        "exited",
        "Exited (0) 3 hours ago",
    ));
    table.push(Container::new("abcdef123456", "b", "img", "running", "Up"));
    let text = table.render();
    let lines: Vec<&str> = text.lines().collect();
    assert_eq!(lines.len(), 3);
    assert!(lines[0].starts_with("CONTAINER ID"));
    // every column is at least as wide as its longest cell plus two
    let name_col = "a-very-long-container-name".len() + 2;
    for line in &lines {
        assert!(line.len() >= 14 + name_col);
    }
    // left-aligned: the name column starts right after the fixed id column
    assert_eq!(&lines[1][14..14 + 26], "a-very-long-container-name");
    assert_eq!(&lines[2][14..17], "b  ");
}

#[test]
fn status_merges_declared_and_live() {
    // declared {api, worker}; live: api running; pattern .* --> three
    // lines: header, api (running), worker (NOT CREATED)
    let config = Config {
        socket: "/s".to_string(),
        containers: vec![
            ("api".to_string(), definition("api:latest")),
            ("worker".to_string(), definition("worker:latest")),
        ],
    };
    let live_set = vec![live(
        "abc123456789",
        "api",
        "api:latest",
        "running",
        "Up 2 minutes",
    )];
    let table = status(&config, &live_set, ".*").expect("valid pattern");
    assert_eq!(table.data.len(), 3);
    let text = table.render();
    let lines: Vec<&str> = text.lines().collect();
    assert_eq!(lines.len(), 3);
    assert!(lines[0].starts_with("CONTAINER ID"));
    assert!(lines[1].starts_with("abc123456789"));
    assert!(lines[1].contains("api"));
    assert!(lines[1].contains("RUNNING"));
    assert!(lines[1].contains("Up 2 minutes"));
    assert!(lines[2].starts_with("------------"));
    assert!(lines[2].contains("worker"));
    assert!(lines[2].contains("NOT CREATED"));
    assert!(lines[2].contains("worker:latest"));
}

#[test]
fn status_overlap_shows_only_live_row() {
    let config = Config {
        socket: "/s".to_string(),
        containers: vec![("api".to_string(), definition("api:latest"))],
    };
    let live_set = vec![live("abc123456789", "api", "api:latest", "running", "Up")];
    let table = status(&config, &live_set, ".*").expect("valid pattern");
    // header plus exactly one data row for the one name
    assert_eq!(table.data.len(), 2);
    assert!(!table.render().contains("NOT CREATED"));
}

#[test]
fn status_filters_by_name_only() {
    let config = Config {
        socket: "/s".to_string(),
        containers: vec![("worker".to_string(), definition("api-lookalike"))],
    };
    // the live image matches the pattern but the name does not
    let live_set = vec![live("abc123456789", "worker2", "api:latest", "running", "Up")];
    let table = status(&config, &live_set, "^api").expect("valid pattern");
    assert_eq!(table.data.len(), 1); // header only
}

#[test]
fn status_rejects_invalid_pattern() {
    let config = Config {
        socket: "/s".to_string(),
        containers: vec![],
    };
    let err = status(&config, &vec![], "foo(bar").unwrap_err();
    assert!(matches!(err, DenverError::InvalidRegex(_)));
}

#[test]
fn declared_only_row_has_placeholder_id_and_empty_status() {
    let config = Config {
        socket: "/s".to_string(),
        containers: vec![("api".to_string(), definition("quay.io/org/api:1"))],
    };
    let table = status(&config, &vec![], ".*").expect("valid pattern");
    assert_eq!(table.data.len(), 2);
    let row = &table.data[1];
    assert_eq!(row.id, "------------");
    assert_eq!(row.name, "api");
    assert_eq!(row.image, "quay.io/org/api:1");
    assert_eq!(row.state, "NOT CREATED");
    assert_eq!(row.status, "");
}
