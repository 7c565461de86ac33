use project::environment::{
    EnvVars, EnvironmentAnswer, ProjectEnvironment, RemoteClient, Shell, ShellDirectory,
};
use project::rel_path::RelPath;
use project::terminals::{
    env_or_default, exec_process, ClonePlan, CommandTemplate, Project, ProjectWorktree, Terminals,
    WorktreeEntry,
};

fn path(text: &str) -> RelPath {
    RelPath::from_unix_str(text)
}

fn env(vars: &[(&str, &str)]) -> EnvVars {
    let mut env = EnvVars::new();
    for (name, value) in vars {
        env.set(name.to_string(), value.to_string());
    }
    env
}

fn value<'a>(env: &'a EnvVars, name: &str) -> Option<&'a str> {
    env.get(&name.to_string()).map(|value| value.as_str())
}

fn text(dir: Option<RelPath>) -> Option<String> {
    dir.map(|dir| dir.as_unix_str())
}

fn bash() -> RemoteClient {
    RemoteClient::Connected { shell: Some("bash".to_string()) }
}

#[test]
fn later_variables_take_precedence() {
    let mut vars = env(&[("A", "1"), ("B", "2")]);
    vars.extend(&env(&[("B", "3"), ("C", "4")]));
    assert_eq!(value(&vars, "A"), Some("1"));
    assert_eq!(value(&vars, "B"), Some("3"));
    assert_eq!(value(&vars, "C"), Some("4"));
    assert_eq!(value(&vars.copy(), "B"), Some("3"));
    assert_eq!(value(&vars, "D"), None);
}

#[test]
fn command_line_environment_is_marked_and_kept() {
    let mut environment = ProjectEnvironment::new(Some(env(&[("A", "1")])));
    let cli = environment.get_cli_environment().unwrap();
    assert_eq!(value(&cli, "A"), Some("1"));
    assert_eq!(value(&cli, "ZED_ENVIRONMENT"), Some("cli"));
    let answer = environment.buffer_environment(None, &bash());
    assert!(matches!(answer, EnvironmentAnswer::Ready(Some(_))));
    let answer = environment.worktree_environment(path("w"), true, &bash());
    assert!(matches!(answer, EnvironmentAnswer::Ready(Some(_))));
    let answer = environment.default_environment(&Vec::new(), path("home"));
    assert!(matches!(answer, EnvironmentAnswer::Ready(Some(_))));
    assert!(environment.local_environments.entries.is_empty());
}

fn spawned(answer: EnvironmentAnswer) -> Option<(String, bool)> {
    match answer {
        EnvironmentAnswer::Local { directory, spawn } => {
            Some((directory.path.as_unix_str(), spawn))
        }
        _ => None,
    }
}

#[test]
fn shells_are_spawned_once_for_local_directories() {
    let mut environment = ProjectEnvironment::new(None);
    assert!(environment.get_cli_environment().is_none());
    let missing = RemoteClient::Missing;
    let answer = environment.directory_environment(path("d"), &missing, false, true);
    assert_eq!(spawned(answer), Some(("d".to_string(), true)));
    let answer = environment.directory_environment(path("d"), &missing, true, false);
    assert_eq!(spawned(answer), Some(("d".to_string(), false)));
    let answer = environment.directory_environment(path("e"), &missing, false, false);
    assert!(matches!(answer, EnvironmentAnswer::Ready(None)));
    let answer = environment.default_environment(&vec![path("w"), path("v")], path("home"));
    assert_eq!(spawned(answer), Some(("w".to_string(), true)));
    let answer = environment.default_environment(&Vec::new(), path("home"));
    assert_eq!(spawned(answer), Some(("home".to_string(), true)));
    assert!(matches!(
        environment.worktree_environment(RelPath::empty(), true, &missing),
        EnvironmentAnswer::Ready(None)
    ));
    let answer = environment.buffer_environment(Some((path("f/x"), true)), &missing);
    assert_eq!(spawned(answer), Some(("f".to_string(), true)));
    assert!(matches!(
        environment.buffer_environment(None, &missing),
        EnvironmentAnswer::Ready(None)
    ));
}

#[test]
fn reported_environments_are_handed_out() {
    let mut environment = ProjectEnvironment::new(None);
    let local = || ShellDirectory { shell: Shell::System, path: path("d") };
    environment.local_directory_environment(local());
    environment.local_environment_reported(local(), Some(env(&[("A", "1")])));
    match environment.local_directory_environment(local()) {
        EnvironmentAnswer::Ready(Some(vars)) => assert_eq!(value(&vars, "A"), Some("1")),
        _ => panic!("the shell has reported"),
    }
    environment.remote_directory_environment(local());
    environment.remote_environment_reported(local(), None);
    assert!(matches!(
        environment.remote_directory_environment(local()),
        EnvironmentAnswer::Ready(None)
    ));
}

#[test]
fn remote_directories_are_asked_for_once() {
    let mut environment = ProjectEnvironment::new(None);
    let mut ask = |name: &str, single: bool| match environment.worktree_environment(
        path(name),
        single,
        &bash(),
    ) {
        EnvironmentAnswer::Remote { directory, send_request } => {
            (directory.path.as_unix_str(), send_request)
        }
        _ => panic!("not remote"),
    };
    assert_eq!(ask("a/b", false), ("a/b".to_string(), true));
    assert_eq!(ask("a/b", false), ("a/b".to_string(), false));
    assert_eq!(ask("a/b/c", true), ("a/b".to_string(), false));
    assert_eq!(ask("a", false), ("a".to_string(), true));
    let answer =
        environment.worktree_environment(path("z"), false, &RemoteClient::Connected { shell: None });
    assert!(matches!(answer, EnvironmentAnswer::Ready(None)));
    assert_eq!(environment.remote_environments.entries.len(), 2);
}

#[test]
fn environment_errors_are_taken_in_order() {
    let mut environment = ProjectEnvironment::new(None);
    assert!(environment.peek_environment_error().is_none());
    environment.environment_error_messages.push("one".to_string());
    environment.environment_error_messages.push("two".to_string());
    assert_eq!(environment.peek_environment_error(), Some(&"one".to_string()));
    assert_eq!(environment.pop_environment_error(), Some("one".to_string()));
    assert_eq!(environment.pop_environment_error(), Some("two".to_string()));
    assert_eq!(environment.pop_environment_error(), None);
}

fn project(active_entry: Option<u64>, remote_client: RemoteClient) -> Project {
    Project {
        active_entry,
        worktrees: vec![
            ProjectWorktree {
                abs_path: path("home/file.rs"),
                root_is_dir: Some(false),
                entries: vec![WorktreeEntry { id: 1, path: RelPath::empty(), is_dir: false }],
            },
            ProjectWorktree {
                abs_path: path("home/repo"),
                root_is_dir: Some(true),
                entries: vec![
                    WorktreeEntry { id: 2, path: path("src"), is_dir: true },
                    WorktreeEntry { id: 3, path: path("src/lib.rs"), is_dir: false },
                ],
            },
            ProjectWorktree { abs_path: path("late"), root_is_dir: None, entries: Vec::new() },
        ],
        remote_client,
        is_via_remote_server: false,
        environment: ProjectEnvironment::new(None),
        terminals: Terminals { local_handles: Vec::new() },
    }
}

#[test]
fn terminals_start_at_the_active_entry() {
    let at = |entry: Option<u64>| {
        let project = project(entry, RemoteClient::Missing);
        (text(project.active_entry_directory()), text(project.active_project_directory()))
    };
    let repo = Some("home/repo".to_string());
    assert_eq!(at(None), (None, repo.clone()));
    assert_eq!(at(Some(1)), (Some("home".to_string()), repo.clone()));
    assert_eq!(at(Some(2)), (Some("home/repo/src".to_string()), repo.clone()));
    assert_eq!(at(Some(3)), (Some("home/repo/src".to_string()), repo.clone()));
    assert_eq!(at(Some(9)), (None, repo));
    assert_eq!(text(project(None, RemoteClient::Missing).first_project_directory()), None);
}

#[test]
fn local_terminals_ignore_remote_directories() {
    let request = project(None, RemoteClient::Missing).create_local_terminal();
    assert!(request.force_local);
    assert_eq!(text(request.cwd), Some("home/repo".to_string()));
    let request = project(None, bash()).create_local_terminal();
    assert_eq!(text(request.cwd), None);
    let request = project(None, bash()).create_terminal_shell(Some(path("x")));
    assert!(!request.force_local);
    assert!(matches!(project(None, bash()).exec_in_shell().shell, Shell::Program(_)));
    assert!(matches!(project(None, RemoteClient::Missing).exec_in_shell().shell, Shell::System));
}

#[test]
fn tasks_are_not_cloned() {
    let mut project = project(None, RemoteClient::Missing);
    assert!(matches!(
        project.clone_terminal(true, Some(path("x"))),
        ClonePlan::OpenShell(request) if text(request.cwd.clone()).as_deref() == Some("x")
    ));
    assert!(matches!(
        project.clone_terminal(false, Some(path("x"))),
        ClonePlan::CloneTerminal { local_path: Some(_) }
    ));
    project.is_via_remote_server = true;
    assert!(matches!(
        project.clone_terminal(false, Some(path("x"))),
        ClonePlan::CloneTerminal { local_path: None }
    ));
}

#[test]
fn released_terminals_are_forgotten() {
    let mut project = project(None, RemoteClient::Missing);
    project.terminal_opened(4);
    project.terminal_opened(5);
    assert!(project.terminal_released(4));
    assert!(!project.terminal_released(4));
    assert_eq!(project.local_terminal_handles(), &vec![5]);
    project.terminal_opened(6);
    assert!(project.terminal_released(6));
    assert_eq!(project.local_terminal_handles(), &vec![5]);
}

#[test]
fn directory_environments_are_resolved_where_the_project_is() {
    let mut here = project(None, RemoteClient::Missing);
    assert!(matches!(
        here.resolve_directory_environment("zsh".to_string(), None),
        EnvironmentAnswer::Ready(None)
    ));
    assert!(matches!(
        here.resolve_directory_environment("zsh".to_string(), Some(path("a"))),
        EnvironmentAnswer::Local { spawn: true, .. }
    ));
    assert_eq!(here.environment.local_environments.entries.len(), 1);
    let mut there = project(None, bash());
    assert!(matches!(
        there.resolve_directory_environment("zsh".to_string(), Some(path("a"))),
        EnvironmentAnswer::Remote { send_request: true, .. }
    ));
    assert!(matches!(
        there.resolve_directory_environment("zsh".to_string(), Some(path("a"))),
        EnvironmentAnswer::Remote { send_request: false, .. }
    ));
}

#[test]
fn processes_run_as_the_connection_wants() {
    let template = CommandTemplate {
        program: "ssh".to_string(),
        args: vec!["host".to_string()],
        env: env(&[("A", "1")]),
    };
    let process = exec_process(
        Some(template),
        "ls".to_string(),
        Vec::new(),
        None,
        Some(path("x")),
    );
    assert_eq!(process.program, "ssh");
    assert_eq!(process.args, vec!["host".to_string()]);
    assert!(process.current_dir.is_none());
    let process = exec_process(
        None,
        "ls".to_string(),
        vec!["-l".to_string()],
        Some(env(&[("B", "2")])),
        Some(path("x")),
    );
    assert_eq!(process.program, "ls");
    assert_eq!(value(&process.env, "B"), Some("2"));
    assert_eq!(text(process.current_dir), Some("x".to_string()));
    assert!(env_or_default(None).vars.entries.is_empty());
}
