use std::path::PathBuf;

use kingfisher::cli::commands::inputs::{ContentFilteringArgs, InputSpecifierArgs};
use kingfisher::cli::commands::scan::ScanArgs;
use kingfisher::failure::Failure;
use kingfisher::scanner::runner::{
    run_async_scan, run_scan, Scan, ScanAction, ScanError, ScanEvent,
};
use kingfisher::scanner::setup::{
    initialize_environment, load_and_record_rules, thread_name, RuleAction, RuleEvent,
};

fn scan_args(no_dedup: bool, no_validate: bool) -> ScanArgs {
    ScanArgs {
        input_specifier_args: InputSpecifierArgs {
            path_inputs: paths(&["a.txt", "b.txt"]),
            commit_metadata: true,
        },
        content_filtering_args: ContentFilteringArgs {
            max_file_size: Some(5 * 1024 * 1024),
            no_extract_archives: false,
            extraction_depth: 1,
        },
        no_dedup,
        no_validate,
        rule_stats: false,
        num_jobs: 2,
        ignore_certs: false,
        use_progress: false,
    }
}

fn strings(texts: &[&str]) -> Vec<String> {
    texts.iter().map(|t| t.to_string()).collect()
}

fn paths(texts: &[&str]) -> Vec<PathBuf> {
    texts.iter().map(PathBuf::from).collect()
}

fn plain(message: &str) -> Failure {
    Failure { message: message.to_string(), causes: Vec::new() }
}

fn name(action: &ScanAction<String>) -> &'static str {
    match action {
        ScanAction::CheckPath(_) => "check path",
        ScanAction::InitializeEnvironment => "initialize",
        ScanAction::EnumerateGithub => "github",
        ScanAction::EnumerateGitlab => "gitlab",
        ScanAction::CloneRepos(_) => "clone",
        ScanAction::EnumerateInputs(_, _, _) => "inputs",
        ScanAction::FetchMatches => "fetch",
        ScanAction::DeduplicateMatches(_) => "deduplicate",
        ScanAction::ReplaceMatches(_) => "replace",
        ScanAction::Validate(_) => "validate",
        ScanAction::Report => "report",
        ScanAction::PrintSummary => "summary",
        ScanAction::Finished => "finished",
    }
}

/// What there is around a scan: two inputs, each with the same secret in it, and a stage that is
/// to fail, if any.
struct World {
    store: Vec<String>,
    cloned: Vec<String>,
    inputs: Vec<PathBuf>,
    missing: Option<usize>,
    failing: &'static str,
    log: Vec<&'static str>,
}

impl World {
    fn new() -> World {
        World {
            store: Vec::new(),
            cloned: Vec::new(),
            inputs: paths(&["a.txt", "b.txt"]),
            missing: None,
            failing: "",
            log: Vec::new(),
        }
    }

    fn perform(&mut self, action: ScanAction<String>) -> ScanEvent<String> {
        self.log.push(name(&action));
        if name(&action) == self.failing {
            return ScanEvent::Failure(Failure {
                message: format!("no {}", self.failing),
                causes: strings(&["deep cause"]),
            });
        }
        match action {
            ScanAction::CheckPath(at) => ScanEvent::PathChecked(self.missing != Some(at)),
            ScanAction::EnumerateGithub => ScanEvent::Urls(strings(&["https://h/z", "https://h/a"])),
            ScanAction::EnumerateGitlab => ScanEvent::Urls(strings(&["https://h/m", "https://h/a"])),
            ScanAction::CloneRepos(urls) => {
                self.cloned = urls;
                ScanEvent::Inputs(self.inputs.clone())
            }
            ScanAction::EnumerateInputs(inputs, _, _) => {
                for _ in inputs {
                    self.store.push("secret_1234".to_string());
                }
                ScanEvent::Done
            }
            ScanAction::FetchMatches => ScanEvent::Matches(self.store.clone()),
            ScanAction::DeduplicateMatches(matches) => {
                let mut unique = matches;
                unique.sort();
                unique.dedup();
                ScanEvent::Matches(unique)
            }
            ScanAction::ReplaceMatches(matches) => {
                self.store = matches;
                ScanEvent::Done
            }
            _ => ScanEvent::Done,
        }
    }

    fn run<'a>(&mut self, args: &'a ScanArgs) -> Result<(), ScanError<'a>> {
        let (mut scan, mut action): (Scan<'a>, ScanAction<String>) = run_async_scan(args);
        while !matches!(action, ScanAction::Finished) {
            let event = self.perform(action);
            action = scan.advance(event);
        }
        scan.finish()
    }
}

fn count_findings(no_dedup: bool) -> usize {
    let mut world = World::new();
    world.run(&scan_args(no_dedup, true)).unwrap();
    world.store.len()
}

#[test]
fn test_dedup_branch() {
    let findings_with_dups = count_findings(true); // keep duplicates
    let findings_deduped = count_findings(false); // collapse duplicates

    assert!(
        findings_with_dups > findings_deduped,
        "expected deduplication to reduce finding count ({} -- {})",
        findings_with_dups,
        findings_deduped
    );
    assert_eq!(findings_deduped, 1, "exactly one unique finding should remain after dedup");
}

#[test]
fn every_stage_runs_in_order() {
    let mut world = World::new();
    world.run(&scan_args(false, false)).unwrap();
    assert_eq!(
        world.log,
        vec![
            "check path",
            "check path",
            "initialize",
            "github",
            "gitlab",
            "clone",
            "inputs",
            "fetch",
            "deduplicate",
            "replace",
            "validate",
            "report",
            "summary",
        ]
    );
}

#[test]
fn stages_are_left_out_as_asked() {
    let mut world = World::new();
    world.run(&scan_args(true, true)).unwrap();
    assert_eq!(
        world.log,
        vec![
            "check path",
            "check path",
            "initialize",
            "github",
            "gitlab",
            "clone",
            "inputs",
            "report",
            "summary",
        ]
    );
}

#[test]
fn repositories_are_cloned_sorted_and_once() {
    let mut world = World::new();
    world.run(&scan_args(false, true)).unwrap();
    assert_eq!(world.cloned, strings(&["https://h/a", "https://h/m", "https://h/z"]));
}

#[test]
fn missing_path_ends_the_scan() {
    let mut world = World::new();
    world.missing = Some(1);
    let args = scan_args(false, false);
    let e = world.run(&args).unwrap_err();
    assert!(matches!(&e, ScanError::PathMissing(path) if **path == PathBuf::from("b.txt")));
    assert_eq!(e.into_failure(), plain("Invalid input: Path does not exist - b.txt"));
    assert_eq!(world.log, vec!["check path", "check path"]);
}

#[test]
fn no_inputs_end_the_scan() {
    let mut world = World::new();
    world.inputs = Vec::new();
    let args = scan_args(false, false);
    let e = world.run(&args).unwrap_err();
    assert!(matches!(e, ScanError::NoInputs));
    assert_eq!(e.into_failure(), plain("No inputs to scan"));
    assert_eq!(world.log.last(), Some(&"clone"));
}

#[test]
fn failed_stages_end_the_scan() {
    for failing in ["initialize", "github", "gitlab", "clone", "inputs", "fetch", "validate"] {
        let mut world = World::new();
        world.failing = failing;
        let args = scan_args(false, false);
        let e = world.run(&args).unwrap_err();
        assert!(matches!(e, ScanError::Stage(_)));
        let failure = e.into_failure();
        assert_eq!(failure.message, format!("no {failing}"));
        assert_eq!(failure.causes, strings(&["deep cause"]));
        assert_eq!(world.log.last(), Some(&failing));
    }
}

#[test]
fn failed_report_says_so() {
    let mut world = World::new();
    world.failing = "report";
    let args = scan_args(false, false);
    let e = world.run(&args).unwrap_err();
    assert!(matches!(e, ScanError::Report(_)));
    let failure = e.into_failure();
    assert_eq!(failure.message, "Failed to run report command");
    assert_eq!(failure.causes, strings(&["no report", "deep cause"]));
}

#[test]
fn scan_command_names_itself_in_errors() {
    assert_eq!(run_scan(Ok(())), Ok(()));
    let failure = run_scan(Err(ScanError::NoInputs)).unwrap_err();
    assert_eq!(failure.message, "Failed to run scan command");
    assert_eq!(failure.causes, strings(&["No inputs to scan"]));
    let failure = run_scan(Err(ScanError::Report(plain("disk full")))).unwrap_err();
    assert_eq!(failure.message, "Failed to run scan command");
    assert_eq!(failure.causes, strings(&["Failed to run report command", "disk full"]));
}

#[test]
fn validation_follows_the_arguments() {
    let mut args = scan_args(true, false);
    args.ignore_certs = true;
    args.num_jobs = 7;
    let (mut scan, mut action): (Scan, ScanAction<String>) = run_async_scan(&args);
    let mut world = World::new();
    loop {
        if let ScanAction::Validate(plan) = &action {
            assert!(plan.accept_invalid_certs);
            assert_eq!(plan.timeout_secs, 30);
            assert_eq!(plan.num_jobs, 7);
            break;
        }
        action = scan.advance(world.perform(action));
    }
}

#[test]
fn inputs_are_scanned_with_the_flags() {
    let mut args = scan_args(true, true);
    args.use_progress = true;
    args.rule_stats = true;
    args.input_specifier_args.path_inputs = Vec::new();
    let (mut scan, mut action): (Scan, ScanAction<String>) = run_async_scan(&args);
    let mut world = World::new();
    loop {
        if let ScanAction::EnumerateInputs(inputs, progress, stats) = &action {
            assert_eq!(inputs, &paths(&["a.txt", "b.txt"]));
            assert!(*progress && *stats);
            break;
        }
        action = scan.advance(world.perform(action));
    }
}

#[test]
fn thread_pool_that_is_there_will_do() {
    assert_eq!(
        initialize_environment(Ok(())).unwrap(),
        "Thread pool initialized successfully."
    );
    let text = "Oops: The global thread pool has already been initialized.".to_string();
    assert_eq!(
        initialize_environment(Err(text)).unwrap(),
        "Thread pool was already initialized. Continuing..."
    );
    let e = initialize_environment(Err("no threads".to_string())).unwrap_err();
    assert_eq!(e, plain("Failed to initialize Rayon: no threads"));
}

#[test]
fn threads_are_numbered() {
    assert_eq!(thread_name(0), "rayon-0");
    assert_eq!(thread_name(1207), "rayon-1207");
}

fn next_step(event: RuleEvent<(u8, u32)>, min_entropy: Option<u32>) -> RuleAction<(u8, u32)> {
    load_and_record_rules(event, min_entropy, |rule: (u8, u32), entropy: u32| (rule.0, entropy))
}

#[test]
fn rules_are_loaded_resolved_compiled_and_recorded() {
    assert!(matches!(next_step(RuleEvent::Begun, None), RuleAction::Load));
    assert!(matches!(next_step(RuleEvent::Loaded(Ok(())), None), RuleAction::Resolve));
    assert!(matches!(
        next_step(RuleEvent::Resolved(Ok(vec![(1, 30), (2, 40)])), None),
        RuleAction::Compile(rules) if rules == vec![(1, 30), (2, 40)]
    ));
    assert!(matches!(
        next_step(RuleEvent::Resolved(Ok(vec![(1, 30), (2, 40)])), Some(35)),
        RuleAction::Compile(rules) if rules == vec![(1, 35), (2, 35)]
    ));
    assert!(matches!(
        next_step(RuleEvent::Compiled(Ok(vec![(2, 35), (1, 35)])), Some(35)),
        RuleAction::Record(rules) if rules == vec![(2, 35), (1, 35)]
    ));
    assert!(matches!(next_step(RuleEvent::Recorded, None), RuleAction::Finished(Ok(()))));
}

#[test]
fn rules_that_fail_say_where() {
    let cause = || plain("x");
    for (event, message) in [
        (RuleEvent::Loaded(Err(cause())), "Failed to load rules"),
        (RuleEvent::Resolved(Err(cause())), "Failed to resolve rules"),
        (RuleEvent::Compiled(Err(cause())), "Failed to compile rules"),
    ] {
        match next_step(event, None) {
            RuleAction::Finished(Err(e)) => {
                assert_eq!(e.message, message);
                assert_eq!(e.causes, strings(&["x"]));
            }
            _ => panic!("a failure went by"),
        }
    }
}
