use run_gbme::config::{Config, RunError};
use run_gbme::decimal::Decimal;
use run_gbme::run::{
    analysis_invocation, collaborator_path, metadata_invocation, Action, Collaborator, Event,
    Launch, Run, Stage,
};

fn config(metadata: Option<&str>, bin_dir: Option<&str>) -> Config {
    Config {
        matrix: "m.csv".to_string(),
        metadata: metadata.map(|m| m.to_string()),
        bin_dir: bin_dir.map(|b| b.to_string()),
        distance: 1000,
        euc_dist_percent: Decimal { negative: false, units: 1, scale: 1 },
        num_threads: 12,
        num_scans: 500,
        out_dir: "/tmp/out".to_string(),
    }
}

fn strings(v: &[&str]) -> Vec<String> {
    v.iter().map(|s| s.to_string()).collect()
}

/// Feeds the events in order and collects the actions.
fn drive(run: &mut Run, events: Vec<Event>) -> Vec<Action> {
    events.into_iter().map(|e| run.step(e)).collect()
}

fn start_events(is_dir: bool) -> Vec<Event> {
    let mut v = vec![Event::Begin, Event::Acknowledged, Event::OutDirProbed { is_dir }];
    if !is_dir {
        v.push(Event::OutDirCreated { failure: None });
    }
    v
}

#[test]
fn collaborator_path_joins_bin_dir() {
    assert_eq!(collaborator_path(&Some("/opt/tools".to_string()), "sna"), "/opt/tools/sna");
    assert_eq!(collaborator_path(&Some("/opt/tools/".to_string()), "sna"), "/opt/tools/sna");
    assert_eq!(collaborator_path(&Some("".to_string()), "sna"), "sna");
    assert_eq!(collaborator_path(&None, "sna"), "sna");
}

#[test]
fn analysis_invocation_under_bin_dir() {
    let inv = analysis_invocation(&config(None, Some("/opt/tools")));
    assert_eq!(inv.program, "/opt/tools/sna");
    assert_eq!(inv.args, strings(&["-f", "m.csv", "-o", "/tmp/out", "-n", "500"]));
}

#[test]
fn metadata_invocation_with_all_options() {
    let inv = metadata_invocation(&config(Some("meta.tab"), None), "meta.tab");
    assert_eq!(inv.program, "make_metadata_dir");
    assert_eq!(
        inv.args,
        strings(&["-f", "meta.tab", "-o", "/tmp/out/meta", "-s", "1000", "-e", "0.1"])
    );
}

#[test]
fn metadata_invocation_leaves_out_zero_options() {
    let mut c = config(Some("meta.tab"), Some("/bin"));
    c.distance = 0;
    c.euc_dist_percent = Decimal::zero();
    let inv = metadata_invocation(&c, "meta.tab");
    assert_eq!(inv.program, "/bin/make_metadata_dir");
    assert_eq!(inv.args, strings(&["-f", "meta.tab", "-o", "/tmp/out/meta"]));
}

#[test]
fn run_begins_with_announcement_and_out_dir_probe() {
    let mut run = Run::new(config(None, None));
    let acts = drive(&mut run, vec![Event::Begin, Event::Acknowledged]);
    assert!(matches!(&acts[0], Action::Announce { line } if line == "Using input matrix \"m.csv\""));
    assert!(matches!(&acts[1], Action::ProbeOutDir { path } if path == "/tmp/out"));
    assert_eq!(run.stage, Stage::OutDirChecking);
}

#[test]
fn existing_out_dir_is_not_created() {
    let mut run = Run::new(config(None, None));
    let acts = drive(&mut run, start_events(true));
    assert!(!acts.iter().any(|a| matches!(a, Action::CreateOutDir { .. })));
    assert!(matches!(&acts[2], Action::ProbeMatrix { path } if path == "m.csv"));
}

#[test]
fn missing_out_dir_is_created_before_matrix_probe() {
    let mut run = Run::new(config(None, None));
    let acts = drive(&mut run, start_events(false));
    assert!(matches!(&acts[2], Action::CreateOutDir { path } if path == "/tmp/out"));
    assert!(matches!(&acts[3], Action::ProbeMatrix { path } if path == "m.csv"));
}

#[test]
fn out_dir_creation_failure_ends_run() {
    let mut run = Run::new(config(None, None));
    let mut events = start_events(true);
    events[2] = Event::OutDirProbed { is_dir: false };
    events.push(Event::OutDirCreated { failure: Some("permission denied".to_string()) });
    let acts = drive(&mut run, events);
    match &acts[3] {
        Action::Fail { error } => {
            assert_eq!(
                error.message(),
                "Failed to create \"/tmp/out\": permission denied"
            );
        }
        _ => panic!("expected a failure"),
    }
    assert_eq!(run.stage, Stage::Done);
}

#[test]
fn missing_matrix_fails_before_any_collaborator() {
    let mut run = Run::new(config(Some("meta.tab"), None));
    let mut events = start_events(true);
    events.push(Event::MatrixProbed { is_file: false });
    events.push(Event::Acknowledged);
    events.push(Event::Finished { launch: Launch::Exited { success: true } });
    let acts = drive(&mut run, events);
    assert!(matches!(
        &acts[3],
        Action::Fail { error: RunError::InvalidFileReference { path } } if path == "m.csv"
    ));
    assert!(!acts.iter().any(|a| matches!(a, Action::Invoke { .. })));
    assert_eq!(run.stage, Stage::Done);
}

#[test]
fn no_metadata_flag_skips_metadata_step() {
    let mut run = Run::new(config(None, None));
    let mut events = start_events(false);
    events.push(Event::MatrixProbed { is_file: true });
    events.push(Event::Acknowledged);
    events.push(Event::Finished { launch: Launch::Exited { success: true } });
    let acts = drive(&mut run, events);
    assert!(!acts
        .iter()
        .any(|a| matches!(a, Action::Invoke { collaborator: Collaborator::Metadata, .. })));
    assert!(matches!(
        &acts[4],
        Action::Invoke { collaborator: Collaborator::Analysis, .. }
    ));
}

#[test]
fn metadata_step_runs_before_analysis() {
    let mut run = Run::new(config(Some("meta.tab"), Some("/opt/tools")));
    let mut events = start_events(true);
    events.push(Event::MatrixProbed { is_file: true });
    events.push(Event::Acknowledged);
    events.push(Event::Finished { launch: Launch::Exited { success: false } });
    events.push(Event::Finished { launch: Launch::Exited { success: true } });
    let acts = drive(&mut run, events);
    assert!(matches!(&acts[3], Action::Announce { line } if line == "Processing metadata \"meta.tab\""));
    match &acts[4] {
        Action::Invoke { collaborator: Collaborator::Metadata, invocation } => {
            assert_eq!(invocation.program, "/opt/tools/make_metadata_dir");
            assert_eq!(invocation.args[1], "meta.tab");
        }
        _ => panic!("expected the metadata step"),
    }
    match &acts[5] {
        Action::Invoke { collaborator: Collaborator::Analysis, invocation } => {
            assert_eq!(invocation.program, "/opt/tools/sna");
        }
        _ => panic!("expected the analysis step"),
    }
    assert!(matches!(&acts[6], Action::Complete { out_dir } if out_dir == "/tmp/out"));
}

#[test]
fn metadata_launch_failure_names_the_path() {
    let mut run = Run::new(config(Some("meta.tab"), Some("/opt/tools")));
    let mut events = start_events(true);
    events.push(Event::MatrixProbed { is_file: true });
    events.push(Event::Acknowledged);
    events.push(Event::Finished { launch: Launch::Failed { reason: "not found".to_string() } });
    let acts = drive(&mut run, events);
    match &acts[5] {
        Action::Fail { error } => assert_eq!(
            error.message(),
            "Failed to run \"/opt/tools/make_metadata_dir\": not found"
        ),
        _ => panic!("expected a failure"),
    }
    assert_eq!(run.stage, Stage::Done);
}

#[test]
fn analysis_success_reports_out_dir() {
    let mut run = Run::new(config(None, None));
    let mut events = start_events(true);
    events.push(Event::MatrixProbed { is_file: true });
    events.push(Event::Finished { launch: Launch::Exited { success: true } });
    let acts = drive(&mut run, events);
    match &acts[3] {
        Action::Invoke { collaborator: Collaborator::Analysis, invocation } => {
            assert_eq!(invocation.program, "sna");
            assert_eq!(invocation.args, strings(&["-f", "m.csv", "-o", "/tmp/out", "-n", "500"]));
        }
        _ => panic!("expected the analysis step"),
    }
    assert!(matches!(&acts[4], Action::Complete { out_dir } if out_dir == "/tmp/out"));
    assert_eq!(run.stage, Stage::Done);
}

#[test]
fn analysis_failure_names_the_path() {
    let mut run = Run::new(config(None, None));
    let mut events = start_events(true);
    events.push(Event::MatrixProbed { is_file: true });
    events.push(Event::Finished { launch: Launch::Exited { success: false } });
    let acts = drive(&mut run, events);
    match &acts[4] {
        Action::Fail { error } => {
            assert_eq!(error, &RunError::CollaboratorExecutionFailure { path: "sna".to_string() });
            assert_eq!(error.message(), "Failed to run \"sna\"");
        }
        _ => panic!("expected a failure"),
    }
}

#[test]
fn analysis_launch_failure_is_reported() {
    let mut run = Run::new(config(None, Some("/opt/tools")));
    let mut events = start_events(true);
    events.push(Event::MatrixProbed { is_file: true });
    events.push(Event::Finished { launch: Launch::Failed { reason: "denied".to_string() } });
    let acts = drive(&mut run, events);
    assert!(matches!(
        &acts[4],
        Action::Fail { error: RunError::CollaboratorLaunchFailure { path, reason } }
            if path == "/opt/tools/sna" && reason == "denied"
    ));
}

#[test]
fn events_out_of_place_change_nothing() {
    let mut run = Run::new(config(None, None));
    let acts = drive(&mut run, vec![Event::MatrixProbed { is_file: true }, Event::Acknowledged]);
    assert!(acts.iter().all(|a| matches!(a, Action::Nothing)));
    assert_eq!(run.stage, Stage::Start);
}

#[test]
fn error_messages() {
    assert_eq!(
        RunError::MissingRequiredArgument.message(),
        "missing required argument -f/--file"
    );
    assert_eq!(
        RunError::InvalidFileReference { path: "m.csv".to_string() }.message(),
        "-f \"m.csv\" is not a file"
    );
    assert_eq!(
        RunError::CollaboratorLaunchFailure { path: "sna".to_string(), reason: "gone".to_string() }
            .message(),
        "Failed to run \"sna\": gone"
    );
}
