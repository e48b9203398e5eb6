use edgezone_node::pipeline::{Effect, Event, Phase, Pipeline, Plan, Work};
use edgezone_node::records::Project;
use edgezone_node::status::Status;

fn project(install: Option<&str>, build: Option<&str>, run: Option<&str>, env: Option<&str>) -> Project {
    Project {
        id: Some(1),
        name: "demo".to_string(),
        git_repo: "https://example.com/demo.git".to_string(),
        install_cmd: install.map(|s| s.to_string()),
        build_cmd: build.map(|s| s.to_string()),
        run_cmd: run.map(|s| s.to_string()),
        env: env.map(|s| s.to_string()),
        healthcheck_endpoint: None,
        healthcheck_timeout: Some(5000),
    }
}

/// Carries out a plan against a log and a status history, as the store would.
fn apply(plan: &Plan, log: &mut String, statuses: &mut Vec<Status>) {
    for e in &plan.effects {
        match e {
            Effect::AppendLog(t) => log.push_str(t),
            Effect::SetStatus(s) => statuses.push(*s),
            _ => {}
        }
    }
}

fn ok_output(stdout: &str) -> Event {
    Event::Ran { success: true, stdout: stdout.to_string(), stderr: String::new() }
}

#[test]
fn begin_logs_clone_and_creates_directory() {
    let mut p = Pipeline::new(&project(None, None, Some("./serve"), None), 7);
    assert_eq!(p.dir(), "projects/demo/7");
    let plan = p.handle(Event::Begin);
    assert_eq!(
        plan.effects,
        vec![
            Effect::AppendLog("Cloning https://example.com/demo.git into projects/demo/7\n".to_string()),
            Effect::CreateDir("projects/demo/7".to_string()),
        ]
    );
    assert_eq!(
        plan.next,
        Work::Clone { repo: "https://example.com/demo.git".to_string(), dir: "projects/demo/7".to_string() }
    );
    assert_eq!(p.phase(), Phase::Cloning);
    assert_eq!(p.status(), Status::Pending);
}

#[test]
fn run_command_line_then_exit_stops_and_removes_marker() {
    let mut p = Pipeline::new(&project(None, None, Some("echo hello"), None), 7);
    let mut log = String::from("Starting deployment...\n");
    let mut statuses = vec![Status::Pending];
    let plan = p.handle(Event::Begin);
    apply(&plan, &mut log, &mut statuses);
    let plan = p.handle(Event::Cloned { success: true, stdout: String::new(), stderr: "Cloning into...".to_string() });
    assert_eq!(plan.next, Work::RevParse { dir: "projects/demo/7".to_string() });
    apply(&plan, &mut log, &mut statuses);
    let plan = p.handle(Event::Revision { stdout: "0123abcd\n".to_string() });
    assert_eq!(plan.effects[0], Effect::SetCommit("0123abcd".to_string()));
    assert_eq!(plan.next, Work::Spawn { cmd: "echo hello".to_string(), dir: "projects/demo/7".to_string() });
    apply(&plan, &mut log, &mut statuses);
    let plan = p.handle(Event::Spawned { pid: Some(4242) });
    assert_eq!(
        plan.effects,
        vec![Effect::WriteFile("projects/demo/7/pid".to_string(), "4242".to_string())]
    );
    assert_eq!(plan.next, Work::Watch);
    apply(&plan, &mut log, &mut statuses);
    let plan = p.handle(Event::Stdout("hello".to_string()));
    apply(&plan, &mut log, &mut statuses);
    let plan = p.handle(Event::Exited(Ok("exit status: 0".to_string())));
    assert_eq!(plan.effects[0], Effect::RemoveFile("projects/demo/7/pid".to_string()));
    assert_eq!(plan.next, Work::Finish(Ok(())));
    apply(&plan, &mut log, &mut statuses);
    assert_eq!(p.status(), Status::Stopped);
    assert_eq!(statuses, vec![Status::Pending, Status::Running, Status::Stopped]);
    let line = log.find("hello\n").unwrap();
    let end = log.find("Process terminated: Process exited with status: exit status: 0\n").unwrap();
    assert!(line < end);
    assert!(log.ends_with("hello\nProcess terminated: Process exited with status: exit status: 0\n"));
}

#[test]
fn failing_install_fails_and_runs_nothing_more() {
    let mut p = Pipeline::new(&project(Some("npm ci"), Some("npm run build"), Some("npm start"), None), 3);
    let mut log = String::new();
    let mut statuses = vec![Status::Pending];
    apply(&p.handle(Event::Begin), &mut log, &mut statuses);
    apply(
        &p.handle(Event::Cloned { success: true, stdout: String::new(), stderr: String::new() }),
        &mut log,
        &mut statuses,
    );
    let plan = p.handle(Event::Revision { stdout: "ff00\n".to_string() });
    assert_eq!(plan.next, Work::Shell { cmd: "npm ci".to_string(), dir: "projects/demo/3".to_string() });
    apply(&plan, &mut log, &mut statuses);
    let plan = p.handle(Event::Ran {
        success: false,
        stdout: "installing\n".to_string(),
        stderr: "npm ERR! missing package.json".to_string(),
    });
    assert_eq!(plan.next, Work::Finish(Err("npm ERR! missing package.json".to_string())));
    apply(&plan, &mut log, &mut statuses);
    assert_eq!(p.status(), Status::Failed);
    assert_eq!(statuses, vec![Status::Pending, Status::Installing, Status::Failed]);
    assert!(log.contains("Error: npm ERR! missing package.json\n"));
    // Later events change nothing and ask for nothing.
    let plan = p.handle(ok_output(""));
    assert!(plan.effects.is_empty());
    assert_eq!(plan.next, Work::Finish(Ok(())));
    assert_eq!(p.phase(), Phase::Done);
    assert!(!log.contains("npm run build"));
    assert!(!log.contains("Starting service"));
}

#[test]
fn install_and_build_come_before_running() {
    let mut p = Pipeline::new(&project(Some("make deps"), Some("make"), Some("./app"), Some("PORT=8080\n")), 12);
    let mut log = String::new();
    let mut statuses = vec![Status::Pending];
    apply(&p.handle(Event::Begin), &mut log, &mut statuses);
    apply(
        &p.handle(Event::Cloned { success: true, stdout: "out\n".to_string(), stderr: String::new() }),
        &mut log,
        &mut statuses,
    );
    let plan = p.handle(Event::Revision { stdout: "  cafe  \n".to_string() });
    assert_eq!(
        plan.effects,
        vec![
            Effect::SetCommit("cafe".to_string()),
            Effect::WriteFile("projects/demo/12/.env".to_string(), "PORT=8080\n".to_string()),
            Effect::AppendLog("Created .env file\n".to_string()),
            Effect::SetStatus(Status::Installing),
            Effect::AppendLog("Running install command: make deps\n".to_string()),
        ]
    );
    apply(&plan, &mut log, &mut statuses);
    let plan = p.handle(ok_output("deps ok\n"));
    assert_eq!(plan.next, Work::Shell { cmd: "make".to_string(), dir: "projects/demo/12".to_string() });
    apply(&plan, &mut log, &mut statuses);
    let plan = p.handle(ok_output("built\n"));
    assert_eq!(plan.next, Work::Spawn { cmd: "./app".to_string(), dir: "projects/demo/12".to_string() });
    apply(&plan, &mut log, &mut statuses);
    assert_eq!(statuses, vec![Status::Pending, Status::Installing, Status::Building, Status::Running]);
    assert_eq!(
        log,
        "Cloning https://example.com/demo.git into projects/demo/12\nout\nCreated .env file\n\
         Running install command: make deps\ndeps ok\nRunning build command: make\nbuilt\n\
         Starting service with: ./app\n"
    );
}

#[test]
fn failing_clone_fails_with_error_text() {
    let mut p = Pipeline::new(&project(None, None, Some("./app"), None), 1);
    p.handle(Event::Begin);
    let plan = p.handle(Event::Cloned {
        success: false,
        stdout: String::new(),
        stderr: "fatal: repository not found".to_string(),
    });
    assert_eq!(
        plan.effects,
        vec![
            Effect::AppendLog(String::new()),
            Effect::SetStatus(Status::Failed),
            Effect::AppendLog("Error: fatal: repository not found\n".to_string()),
        ]
    );
    assert_eq!(plan.next, Work::Finish(Err("fatal: repository not found".to_string())));
    assert_eq!(p.status(), Status::Failed);
}

#[test]
fn failing_build_fails() {
    let mut p = Pipeline::new(&project(None, Some("cargo build"), Some("./app"), None), 2);
    p.handle(Event::Begin);
    p.handle(Event::Cloned { success: true, stdout: String::new(), stderr: String::new() });
    let plan = p.handle(Event::Revision { stdout: "ab\n".to_string() });
    assert_eq!(plan.next, Work::Shell { cmd: "cargo build".to_string(), dir: "projects/demo/2".to_string() });
    let plan = p.handle(Event::Ran { success: false, stdout: String::new(), stderr: "error[E0425]".to_string() });
    assert_eq!(plan.next, Work::Finish(Err("error[E0425]".to_string())));
    assert_eq!(p.status(), Status::Failed);
}

#[test]
fn missing_run_command_fails() {
    let mut p = Pipeline::new(&project(None, None, None, None), 4);
    p.handle(Event::Begin);
    p.handle(Event::Cloned { success: true, stdout: String::new(), stderr: String::new() });
    let plan = p.handle(Event::Revision { stdout: "ab".to_string() });
    assert_eq!(
        plan.effects,
        vec![
            Effect::SetCommit("ab".to_string()),
            Effect::SetStatus(Status::Running),
            Effect::SetStatus(Status::Failed),
            Effect::AppendLog("Error: Run command is required\n".to_string()),
        ]
    );
    assert_eq!(plan.next, Work::Finish(Err("Run command is required".to_string())));
    assert_eq!(p.status(), Status::Failed);
}

#[test]
fn stderr_lines_are_tagged_and_wait_errors_reported() {
    let mut p = Pipeline::new(&project(None, None, Some("./app"), None), 5);
    p.handle(Event::Begin);
    p.handle(Event::Cloned { success: true, stdout: String::new(), stderr: String::new() });
    p.handle(Event::Revision { stdout: "ab".to_string() });
    let plan = p.handle(Event::Spawned { pid: None });
    assert!(plan.effects.is_empty());
    let plan = p.handle(Event::Stderr("warning: slow".to_string()));
    assert_eq!(plan.effects, vec![Effect::AppendLog("Error: warning: slow\n".to_string())]);
    let plan = p.handle(Event::Exited(Err("interrupted".to_string())));
    assert_eq!(plan.effects[2], Effect::AppendLog("Process terminated: Process error: interrupted\n".to_string()));
}

#[test]
fn unexpected_event_changes_nothing() {
    let mut p = Pipeline::new(&project(None, None, Some("./app"), None), 6);
    let plan = p.handle(Event::Stdout("early".to_string()));
    assert!(plan.effects.is_empty());
    assert_eq!(p.phase(), Phase::Ready);
    p.handle(Event::Begin);
    let plan = p.handle(Event::Spawned { pid: Some(1) });
    assert!(plan.effects.is_empty());
    assert_eq!(
        plan.next,
        Work::Clone { repo: "https://example.com/demo.git".to_string(), dir: "projects/demo/6".to_string() }
    );
    assert_eq!(p.awaiting(), plan.next);
}

#[test]
fn log_only_grows_over_a_run() {
    let mut p = Pipeline::new(&project(Some("i"), None, Some("r"), None), 9);
    let mut log = String::new();
    let mut statuses = vec![Status::Pending];
    let events = vec![
        Event::Begin,
        Event::Cloned { success: true, stdout: "c\n".to_string(), stderr: String::new() },
        Event::Revision { stdout: "h".to_string() },
        ok_output("i\n"),
        Event::Spawned { pid: Some(99) },
        Event::Stdout("x".to_string()),
        Event::Stderr("y".to_string()),
        Event::Exited(Ok("exit status: 1".to_string())),
    ];
    for ev in events {
        let before = log.clone();
        apply(&p.handle(ev), &mut log, &mut statuses);
        assert!(log.starts_with(&before));
    }
    for w in statuses.windows(2) {
        assert!(w[0].can_move_to(w[1]));
    }
}
