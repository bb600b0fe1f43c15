//! The command roster of a project's settings page.

use soloist_core::ids::ProjectId;
use soloist_core::project_settings::{settings_commands, LabeledStatus, Visibility};

fn proc(project: u64, label: &str, status: &'static str) -> LabeledStatus<&'static str> {
    LabeledStatus {
        project: ProjectId(project),
        label: label.into(),
        status,
        running: status == "running",
    }
}

#[test]
fn shared_commands_come_first_each_with_its_live_status() {
    let shared = vec!["web".to_string(), "db".to_string()];
    let local = vec!["scratch".to_string()];
    let procs = vec![
        proc(1, "web", "running"),
        proc(2, "db", "running"),
        proc(1, "scratch", "exited"),
    ];
    let (rows, running, total) = settings_commands(ProjectId(1), &shared, &local, &procs);
    let names: Vec<(&str, Visibility, Option<&str>)> = rows
        .iter()
        .map(|r| (r.name.as_str(), r.visibility, r.status))
        .collect();
    assert_eq!(
        names,
        vec![
            ("web", Visibility::Shared, Some("running")),
            ("db", Visibility::Shared, None),
            ("scratch", Visibility::Local, Some("exited")),
        ]
    );
    assert_eq!(running, 1);
    assert_eq!(total, 3);
}

#[test]
fn the_last_process_with_a_label_decides_its_status() {
    let shared = vec!["web".to_string()];
    let procs = vec![proc(1, "web", "exited"), proc(1, "web", "running")];
    let (rows, running, total) = settings_commands(ProjectId(1), &shared, &Vec::new(), &procs);
    assert_eq!(rows[0].status, Some("running"));
    assert_eq!(running, 1);
    assert_eq!(total, 1);
}
