//! The stages of a scan, in order: which of them run, what each hands to the next, and what
//! ends a scan early.

use std::path::PathBuf;

use vstd::prelude::*;

use crate::cli::commands::scan::ScanArgs;
use crate::failure::{Failure, FailureModel};
use crate::order::{
    is_sorted_set_of, law_sorted_set_exists, law_sorted_set_holds_every_text_in_order, sort_dedup,
    sorted_set, text_before,
};
use crate::text::texts;

verus! {

/// How many seconds a request of the validation phase may take.
pub const VALIDATION_TIMEOUT_SECS: u64 = 30;

/// How the validation phase runs.
#[derive(PartialEq, Eq, Structural, Clone, Copy, Debug)]
pub struct ValidationPlan {
    pub accept_invalid_certs: bool,
    pub timeout_secs: u64,
    pub num_jobs: usize,
}

/// Why a scan ends early.
#[derive(Debug)]
pub enum ScanError<'a> {
    /// An input path does not exist.
    PathMissing(&'a PathBuf),
    /// There is nothing to scan.
    NoInputs,
    /// A stage failed.
    Stage(Failure),
    /// The report failed.
    Report(Failure),
}

/// `ScanError` by what its texts hold.
pub enum ScanErrorModel {
    PathMissing(PathBuf),
    NoInputs,
    Stage(FailureModel),
    Report(FailureModel),
}

impl<'a> View for ScanError<'a> {
    type V = ScanErrorModel;

    open spec fn view(&self) -> ScanErrorModel {
        match self {
            ScanError::PathMissing(path) => ScanErrorModel::PathMissing(**path),
            ScanError::NoInputs => ScanErrorModel::NoInputs,
            ScanError::Stage(cause) => ScanErrorModel::Stage(cause@),
            ScanError::Report(cause) => ScanErrorModel::Report(cause@),
        }
    }
}

/// `Path::display` as a string: the path for people to read. What the path holds is not known
/// here, so nothing is said of the text; where the path is no Unicode, the text is not all of it.
#[verifier::external_body]
fn display_path(path: &PathBuf) -> (text: String) {
    path.display().to_string()
}

/// Whether a path is shown to people as a text.
pub closed spec fn is_shown_as(path: PathBuf, text: Seq<char>) -> bool {
    exists|shown: String| #[trigger]
        call_ensures(display_path, (&path,), shown) && shown@ == text
}

/// Whether a failure is what people see of an error: a stage's own failure stays as it is, and that
/// of the report stands under a heading.
pub open spec fn is_failure_of(failure: FailureModel, e: ScanErrorModel) -> bool {
    match e {
        ScanErrorModel::PathMissing(path) => exists|shown: Seq<char>| #[trigger]
            is_shown_as(path, shown) && failure == FailureModel::plain(
                "Invalid input: Path does not exist - "@ + shown,
            ),
        ScanErrorModel::NoInputs => failure == FailureModel::plain("No inputs to scan"@),
        ScanErrorModel::Stage(cause) => failure == cause,
        ScanErrorModel::Report(cause) => failure == cause.under("Failed to run report command"@),
    }
}

impl<'a> ScanError<'a> {
    /// The error as people see it.
    pub fn into_failure(self) -> (failure: Failure)
        ensures
            is_failure_of(failure@, self@),
    {
        match self {
            ScanError::PathMissing(path) => {
                let shown: String = display_path(path);
                let mut text: String = "Invalid input: Path does not exist - ".to_owned();
                text.append(shown.as_str());
                let failure: Failure = Failure::plain(text);
                assert(is_shown_as(self@->PathMissing_0, shown@));
                failure
            },
            ScanError::NoInputs => Failure::plain("No inputs to scan".to_owned()),
            ScanError::Stage(cause) => cause,
            ScanError::Report(cause) => cause.under("Failed to run report command"),
        }
    }
}

/// What people see of a scan command that failed: a heading, and the scan's error as its cause.
pub fn run_scan(outcome: Result<(), ScanError<'_>>) -> (result: Result<(), Failure>)
    ensures
        outcome is Ok <==> result is Ok,
        outcome matches Err(e) ==> exists|cause: FailureModel| #[trigger]
            is_failure_of(cause, e@) && result->Err_0@ == cause.under(
                "Failed to run scan command"@,
            ),
{
    match outcome {
        Ok(()) => Ok(()),
        Err(e) => {
            let cause: Failure = e.into_failure();
            Err(cause.under("Failed to run scan command"))
        },
    }
}

/// What a scan wants done next.
pub enum ScanAction<M> {
    /// Find out whether the input path with this number exists.
    CheckPath(usize),
    /// Set up the thread pool.
    InitializeEnvironment,
    /// List the repositories on GitHub.
    EnumerateGithub,
    /// List the repositories on GitLab.
    EnumerateGitlab,
    /// Clone or update these repositories, and say which inputs there are.
    CloneRepos(Vec<String>),
    /// Scan these inputs, with progress shown and rules timed as the flags say.
    EnumerateInputs(Vec<PathBuf>, bool, bool),
    /// Fetch all matches from the datastore.
    FetchMatches,
    /// Collapse matches that repeat others.
    DeduplicateMatches(Vec<M>),
    /// Replace the matches in the datastore by these.
    ReplaceMatches(Vec<M>),
    /// Validate the findings.
    Validate(ValidationPlan),
    /// Write the report.
    Report,
    /// Print the summary.
    PrintSummary,
    /// Nothing more: the outcome is ready.
    Finished,
}

/// What became of an action.
pub enum ScanEvent<M> {
    /// Whether the path exists.
    PathChecked(bool),
    /// It worked, and there is nothing to hand on.
    Done,
    /// Repository URLs.
    Urls(Vec<String>),
    /// Inputs to scan.
    Inputs(Vec<PathBuf>),
    /// Matches.
    Matches(Vec<M>),
    /// It failed.
    Failure(Failure),
}

/// `ScanAction` by what its lists hold.
pub enum ScanActionModel<M> {
    CheckPath(nat),
    InitializeEnvironment,
    EnumerateGithub,
    EnumerateGitlab,
    CloneRepos(Seq<Seq<char>>),
    EnumerateInputs(Seq<PathBuf>, bool, bool),
    FetchMatches,
    DeduplicateMatches(Seq<M>),
    ReplaceMatches(Seq<M>),
    Validate(ValidationPlan),
    Report,
    PrintSummary,
    Finished,
}

/// `ScanEvent` by what its lists hold.
pub enum ScanEventModel<M> {
    PathChecked(bool),
    Done,
    Urls(Seq<Seq<char>>),
    Inputs(Seq<PathBuf>),
    Matches(Seq<M>),
    Failure(FailureModel),
}

impl<M> View for ScanAction<M> {
    type V = ScanActionModel<M>;

    open spec fn view(&self) -> ScanActionModel<M> {
        match self {
            ScanAction::CheckPath(at) => ScanActionModel::CheckPath(*at as nat),
            ScanAction::InitializeEnvironment => ScanActionModel::InitializeEnvironment,
            ScanAction::EnumerateGithub => ScanActionModel::EnumerateGithub,
            ScanAction::EnumerateGitlab => ScanActionModel::EnumerateGitlab,
            ScanAction::CloneRepos(urls) => ScanActionModel::CloneRepos(texts(urls@)),
            ScanAction::EnumerateInputs(inputs, progress, stats) =>
                ScanActionModel::EnumerateInputs(inputs@, *progress, *stats),
            ScanAction::FetchMatches => ScanActionModel::FetchMatches,
            ScanAction::DeduplicateMatches(matches) => ScanActionModel::DeduplicateMatches(
                matches@,
            ),
            ScanAction::ReplaceMatches(matches) => ScanActionModel::ReplaceMatches(matches@),
            ScanAction::Validate(plan) => ScanActionModel::Validate(*plan),
            ScanAction::Report => ScanActionModel::Report,
            ScanAction::PrintSummary => ScanActionModel::PrintSummary,
            ScanAction::Finished => ScanActionModel::Finished,
        }
    }
}

impl<M> View for ScanEvent<M> {
    type V = ScanEventModel<M>;

    open spec fn view(&self) -> ScanEventModel<M> {
        match self {
            ScanEvent::PathChecked(found) => ScanEventModel::PathChecked(*found),
            ScanEvent::Done => ScanEventModel::Done,
            ScanEvent::Urls(urls) => ScanEventModel::Urls(texts(urls@)),
            ScanEvent::Inputs(inputs) => ScanEventModel::Inputs(inputs@),
            ScanEvent::Matches(matches) => ScanEventModel::Matches(matches@),
            ScanEvent::Failure(cause) => ScanEventModel::Failure(cause@),
        }
    }
}

/// How far a scan has come.
pub enum ScanStage {
    CheckPath(nat),
    Initialize,
    Github,
    Gitlab,
    Clone,
    Inputs,
    Fetch,
    Deduplicate,
    Replace,
    Validate,
    Report,
    Summary,
    Done,
    Failed(ScanErrorModel),
}

/// A scan under way: its settings, its stage and the repositories listed so far.
pub struct ScanModel {
    pub paths: Seq<PathBuf>,
    pub no_dedup: bool,
    pub no_validate: bool,
    pub rule_stats: bool,
    pub use_progress: bool,
    pub validation: ValidationPlan,
    pub stage: ScanStage,
    pub urls: Seq<Seq<char>>,
}

impl ScanModel {
    /// The settings of a scan, before its first stage.
    pub open spec fn of(args: ScanArgs) -> ScanModel {
        ScanModel {
            paths: args.path_inputs(),
            no_dedup: args.no_dedup,
            no_validate: args.no_validate,
            rule_stats: args.rule_stats,
            use_progress: args.use_progress,
            validation: ValidationPlan {
                accept_invalid_certs: args.ignore_certs,
                timeout_secs: VALIDATION_TIMEOUT_SECS,
                num_jobs: args.num_jobs,
            },
            stage: ScanStage::Done,
            urls: Seq::empty(),
        }
    }

    /// The same scan at another stage.
    pub open spec fn at(self, stage: ScanStage) -> ScanModel {
        ScanModel { stage, ..self }
    }

    /// On to the check of a path, or to the thread pool when all have been checked.
    pub open spec fn check_from<M>(self, at: nat) -> (ScanModel, ScanActionModel<M>) {
        if at < self.paths.len() {
            (self.at(ScanStage::CheckPath(at)), ScanActionModel::CheckPath(at))
        } else {
            (self.at(ScanStage::Initialize), ScanActionModel::InitializeEnvironment)
        }
    }

    /// On to the validation phase, or past it where it is left out.
    pub open spec fn validate_next<M>(self) -> (ScanModel, ScanActionModel<M>) {
        if self.no_validate {
            (self.at(ScanStage::Report), ScanActionModel::Report)
        } else {
            (self.at(ScanStage::Validate), ScanActionModel::Validate(self.validation))
        }
    }

    /// An early end.
    pub open spec fn fail<M>(self, e: ScanErrorModel) -> (ScanModel, ScanActionModel<M>) {
        (self.at(ScanStage::Failed(e)), ScanActionModel::Finished)
    }

    /// Whether an event can follow from what the stage asked for.
    pub open spec fn awaits<M>(self, event: ScanEventModel<M>) -> bool {
        match self.stage {
            ScanStage::CheckPath(_) => event is PathChecked,
            ScanStage::Initialize => event is Done || event is Failure,
            ScanStage::Github => event is Urls || event is Failure,
            ScanStage::Gitlab => event is Urls || event is Failure,
            ScanStage::Clone => event is Inputs || event is Failure,
            ScanStage::Inputs => event is Done || event is Failure,
            ScanStage::Fetch => event is Matches || event is Failure,
            ScanStage::Deduplicate => event is Matches,
            ScanStage::Replace => event is Done,
            ScanStage::Validate => event is Done || event is Failure,
            ScanStage::Report => event is Done || event is Failure,
            ScanStage::Summary => event is Done,
            ScanStage::Done => false,
            ScanStage::Failed(_) => false,
        }
    }

    /// What an event makes of the scan, and what the scan then wants done.
    pub open spec fn step<M>(self, event: ScanEventModel<M>) -> (ScanModel, ScanActionModel<M>) {
        match event {
            ScanEventModel::Failure(cause) => if self.stage is Report {
                self.fail(ScanErrorModel::Report(cause))
            } else {
                self.fail(ScanErrorModel::Stage(cause))
            },
            ScanEventModel::PathChecked(found) => {
                let at = self.stage->CheckPath_0;
                if found {
                    self.check_from(at + 1)
                } else {
                    self.fail(ScanErrorModel::PathMissing(self.paths[at as int]))
                }
            },
            ScanEventModel::Urls(urls) => {
                let more = ScanModel { urls: self.urls + urls, ..self };
                if self.stage is Github {
                    (more.at(ScanStage::Gitlab), ScanActionModel::EnumerateGitlab)
                } else {
                    (more.at(ScanStage::Clone), ScanActionModel::CloneRepos(sorted_set(more.urls)))
                }
            },
            ScanEventModel::Inputs(inputs) => if inputs.len() == 0 {
                self.fail(ScanErrorModel::NoInputs)
            } else {
                (
                    self.at(ScanStage::Inputs),
                    ScanActionModel::EnumerateInputs(inputs, self.use_progress, self.rule_stats),
                )
            },
            ScanEventModel::Matches(matches) => if self.stage is Fetch {
                (self.at(ScanStage::Deduplicate), ScanActionModel::DeduplicateMatches(matches))
            } else {
                (self.at(ScanStage::Replace), ScanActionModel::ReplaceMatches(matches))
            },
            ScanEventModel::Done => match self.stage {
                ScanStage::Initialize => (
                    self.at(ScanStage::Github),
                    ScanActionModel::EnumerateGithub,
                ),
                ScanStage::Inputs => if self.no_dedup {
                    self.validate_next()
                } else {
                    (self.at(ScanStage::Fetch), ScanActionModel::FetchMatches)
                },
                ScanStage::Replace => self.validate_next(),
                ScanStage::Validate => (self.at(ScanStage::Report), ScanActionModel::Report),
                ScanStage::Report => (
                    self.at(ScanStage::Summary),
                    ScanActionModel::PrintSummary,
                ),
                _ => (self.at(ScanStage::Done), ScanActionModel::Finished),
            },
        }
    }
}

enum Step<'a> {
    CheckPath(usize),
    Initialize,
    Github,
    Gitlab,
    Clone,
    Inputs,
    Fetch,
    Deduplicate,
    Replace,
    Validate,
    Report,
    Summary,
    Done,
    Failed(ScanError<'a>),
}

/// A scan under way.
pub struct Scan<'a> {
    paths: &'a Vec<PathBuf>,
    no_dedup: bool,
    no_validate: bool,
    rule_stats: bool,
    use_progress: bool,
    validation: ValidationPlan,
    stage: Step<'a>,
    urls: Vec<String>,
}

impl<'a> View for Scan<'a> {
    type V = ScanModel;

    closed spec fn view(&self) -> ScanModel {
        ScanModel {
            paths: self.paths@,
            no_dedup: self.no_dedup,
            no_validate: self.no_validate,
            rule_stats: self.rule_stats,
            use_progress: self.use_progress,
            validation: self.validation,
            stage: match self.stage {
                Step::CheckPath(at) => ScanStage::CheckPath(at as nat),
                Step::Initialize => ScanStage::Initialize,
                Step::Github => ScanStage::Github,
                Step::Gitlab => ScanStage::Gitlab,
                Step::Clone => ScanStage::Clone,
                Step::Inputs => ScanStage::Inputs,
                Step::Fetch => ScanStage::Fetch,
                Step::Deduplicate => ScanStage::Deduplicate,
                Step::Replace => ScanStage::Replace,
                Step::Validate => ScanStage::Validate,
                Step::Report => ScanStage::Report,
                Step::Summary => ScanStage::Summary,
                Step::Done => ScanStage::Done,
                Step::Failed(e) => ScanStage::Failed(e@),
            },
            urls: texts(self.urls@),
        }
    }
}

impl<'a> Scan<'a> {
    /// What every scan keeps: the path under check is one of its paths.
    pub closed spec fn wf(self) -> bool {
        self.stage matches Step::CheckPath(at) ==> at < self.paths@.len()
    }

    fn check_from<M>(&mut self, at: usize) -> (action: ScanAction<M>)
        ensures
            final(self).wf(),
            (final(self)@, action@) == old(self)@.check_from::<M>(at as nat),
    {
        if at < self.paths.len() {
            self.stage = Step::CheckPath(at);
            ScanAction::CheckPath(at)
        } else {
            self.stage = Step::Initialize;
            ScanAction::InitializeEnvironment
        }
    }

    fn validate_next<M>(&mut self) -> (action: ScanAction<M>)
        ensures
            final(self).wf(),
            (final(self)@, action@) == old(self)@.validate_next::<M>(),
    {
        if self.no_validate {
            self.stage = Step::Report;
            ScanAction::Report
        } else {
            self.stage = Step::Validate;
            ScanAction::Validate(self.validation)
        }
    }

    /// Takes up what became of the last action and says what is to be done next.
    pub fn advance<M>(&mut self, event: ScanEvent<M>) -> (action: ScanAction<M>)
        requires
            old(self).wf(),
            old(self)@.awaits(event@),
        ensures
            final(self).wf(),
            (final(self)@, action@) == old(self)@.step(event@),
    {
        let ghost before = self@;
        match event {
            ScanEvent::Failure(cause) => {
                match &self.stage {
                    Step::Report => {
                        self.stage = Step::Failed(ScanError::Report(cause));
                    },
                    _ => {
                        self.stage = Step::Failed(ScanError::Stage(cause));
                    },
                }
                ScanAction::Finished
            },
            ScanEvent::PathChecked(found) => {
                match &self.stage {
                    Step::CheckPath(at) => {
                        let checked: usize = *at;
                        assert(checked < self.paths.len());
                        if found {
                            self.check_from(checked + 1)
                        } else {
                            self.stage = Step::Failed(ScanError::PathMissing(&self.paths[checked]));
                            ScanAction::Finished
                        }
                    },
                    _ => ScanAction::Finished,
                }
            },
            ScanEvent::Urls(urls) => {
                let mut more: Vec<String> = urls;
                let ghost held = self.urls@;
                self.urls.append(&mut more);
                assert(texts(self.urls@) == texts(held) + texts(urls@));
                match &self.stage {
                    Step::Github => {
                        self.stage = Step::Gitlab;
                        ScanAction::EnumerateGitlab
                    },
                    _ => {
                        self.stage = Step::Clone;
                        ScanAction::CloneRepos(sort_dedup(&self.urls))
                    },
                }
            },
            ScanEvent::Inputs(inputs) => {
                if inputs.len() == 0 {
                    self.stage = Step::Failed(ScanError::NoInputs);
                    ScanAction::Finished
                } else {
                    self.stage = Step::Inputs;
                    ScanAction::EnumerateInputs(inputs, self.use_progress, self.rule_stats)
                }
            },
            ScanEvent::Matches(matches) => {
                match &self.stage {
                    Step::Fetch => {
                        self.stage = Step::Deduplicate;
                        ScanAction::DeduplicateMatches(matches)
                    },
                    _ => {
                        self.stage = Step::Replace;
                        ScanAction::ReplaceMatches(matches)
                    },
                }
            },
            ScanEvent::Done => {
                match &self.stage {
                    Step::Initialize => {
                        self.stage = Step::Github;
                        ScanAction::EnumerateGithub
                    },
                    Step::Inputs => {
                        if self.no_dedup {
                            self.validate_next()
                        } else {
                            self.stage = Step::Fetch;
                            ScanAction::FetchMatches
                        }
                    },
                    Step::Replace => self.validate_next(),
                    Step::Validate => {
                        self.stage = Step::Report;
                        ScanAction::Report
                    },
                    Step::Report => {
                        self.stage = Step::Summary;
                        ScanAction::PrintSummary
                    },
                    _ => {
                        self.stage = Step::Done;
                        ScanAction::Finished
                    },
                }
            },
        }
    }

    /// The outcome of a scan that wants nothing more done.
    pub fn finish(self) -> (outcome: Result<(), ScanError<'a>>)
        requires
            self@.stage is Done || self@.stage is Failed,
        ensures
            match self@.stage {
                ScanStage::Failed(e) => outcome is Err && outcome->Err_0@ == e,
                _ => outcome is Ok,
            },
    {
        match self.stage {
            Step::Failed(e) => Err(e),
            _ => Ok(()),
        }
    }
}

/// Begins a scan, and says what is to be done first.
pub fn run_async_scan<'a, M>(args: &'a ScanArgs) -> (begun: (Scan<'a>, ScanAction<M>))
    ensures
        begun.0.wf(),
        (begun.0@, begun.1@) == ScanModel::of(*args).check_from::<M>(0),
{
    let mut scan: Scan<'a> = Scan {
        paths: &args.input_specifier_args.path_inputs,
        no_dedup: args.no_dedup,
        no_validate: args.no_validate,
        rule_stats: args.rule_stats,
        use_progress: args.use_progress,
        validation: ValidationPlan {
            accept_invalid_certs: args.ignore_certs,
            timeout_secs: VALIDATION_TIMEOUT_SECS,
            num_jobs: args.num_jobs,
        },
        stage: Step::Done,
        urls: Vec::new(),
    };
    assert(texts(scan.urls@) == Seq::<Seq<char>>::empty());
    let action: ScanAction<M> = scan.check_from(0);
    (scan, action)
}

/// Surroundings in which every action works: which paths exist, which repositories there are,
/// what inputs a clone leaves, and what the datastore holds.
#[verifier::reject_recursive_types(M)]
pub struct Surroundings<M> {
    pub path_exists: spec_fn(nat) -> bool,
    pub github: Seq<Seq<char>>,
    pub gitlab: Seq<Seq<char>>,
    pub inputs_of: spec_fn(Seq<Seq<char>>) -> Seq<PathBuf>,
    pub matches: Seq<M>,
    pub deduplicated: spec_fn(Seq<M>) -> Seq<M>,
}

impl<M> Surroundings<M> {
    /// What becomes of an action.
    pub open spec fn event(self, action: ScanActionModel<M>) -> ScanEventModel<M> {
        match action {
            ScanActionModel::CheckPath(at) => ScanEventModel::PathChecked((self.path_exists)(at)),
            ScanActionModel::EnumerateGithub => ScanEventModel::Urls(self.github),
            ScanActionModel::EnumerateGitlab => ScanEventModel::Urls(self.gitlab),
            ScanActionModel::CloneRepos(urls) => ScanEventModel::Inputs((self.inputs_of)(urls)),
            ScanActionModel::FetchMatches => ScanEventModel::Matches(self.matches),
            ScanActionModel::DeduplicateMatches(matches) => ScanEventModel::Matches(
                (self.deduplicated)(matches),
            ),
            _ => ScanEventModel::Done,
        }
    }

    /// The repositories that a scan clones: all that are listed, sorted and each once.
    pub open spec fn repositories(self) -> Seq<Seq<char>> {
        sorted_set(self.github + self.gitlab)
    }

    /// The inputs that a scan then has.
    pub open spec fn inputs(self) -> Seq<PathBuf> {
        (self.inputs_of)(self.repositories())
    }
}

/// The actions of a scan, as many as `limit`, from the one that is to be done next.
pub open spec fn actions_from<M>(
    scan: ScanModel,
    action: ScanActionModel<M>,
    world: Surroundings<M>,
    limit: nat,
) -> Seq<ScanActionModel<M>>
    decreases limit,
{
    if limit == 0 || action is Finished {
        Seq::empty()
    } else {
        let (next, then) = scan.step(world.event(action));
        seq![action] + actions_from(next, then, world, (limit - 1) as nat)
    }
}

/// A scan after its actions, as many as `limit`, from the one that is to be done next.
pub open spec fn scan_after<M>(
    scan: ScanModel,
    action: ScanActionModel<M>,
    world: Surroundings<M>,
    limit: nat,
) -> ScanModel
    decreases limit,
{
    if limit == 0 || action is Finished {
        scan
    } else {
        let (next, then) = scan.step(world.event(action));
        scan_after(next, then, world, (limit - 1) as nat)
    }
}

/// More actions than any scan takes.
pub open spec fn enough_actions(args: ScanArgs) -> nat {
    args.path_inputs().len() + 12
}

/// The actions of a scan from its beginning.
pub open spec fn all_actions<M>(args: ScanArgs, world: Surroundings<M>) -> Seq<ScanActionModel<M>> {
    let (scan, first) = ScanModel::of(args).check_from(0);
    actions_from(scan, first, world, enough_actions(args))
}

/// A scan at its end.
pub open spec fn scan_at_end<M>(args: ScanArgs, world: Surroundings<M>) -> ScanModel {
    let (scan, first) = ScanModel::of(args).check_from::<M>(0);
    scan_after(scan, first, world, enough_actions(args))
}

/// The checks of the first paths.
pub open spec fn path_checks<M>(count: nat) -> Seq<ScanActionModel<M>> {
    Seq::new(count, |i: int| ScanActionModel::CheckPath(i as nat))
}

/// What lists the repositories and clones them.
pub open spec fn listing_actions<M>(world: Surroundings<M>) -> Seq<ScanActionModel<M>> {
    seq![
        ScanActionModel::InitializeEnvironment,
        ScanActionModel::EnumerateGithub,
        ScanActionModel::EnumerateGitlab,
        ScanActionModel::CloneRepos(world.repositories()),
    ]
}

/// What collapses findings that repeat others, unless they are to be kept.
pub open spec fn dedup_actions<M>(args: ScanArgs, world: Surroundings<M>) -> Seq<
    ScanActionModel<M>,
> {
    if args.no_dedup {
        Seq::empty()
    } else {
        seq![
            ScanActionModel::FetchMatches,
            ScanActionModel::DeduplicateMatches(world.matches),
            ScanActionModel::ReplaceMatches((world.deduplicated)(world.matches)),
        ]
    }
}

/// What validates findings, unless that is left out.
pub open spec fn validation_actions<M>(args: ScanArgs) -> Seq<ScanActionModel<M>> {
    if args.no_validate {
        Seq::empty()
    } else {
        seq![ScanActionModel::Validate(ScanModel::of(args).validation)]
    }
}

/// What shows the findings.
pub open spec fn reporting_actions<M>() -> Seq<ScanActionModel<M>> {
    seq![ScanActionModel::Report, ScanActionModel::PrintSummary]
}

/// Paths that exist are passed one by one.
proof fn lemma_path_checks<M>(args: ScanArgs, world: Surroundings<M>, from: nat, to: nat)
    requires
        from <= to <= args.path_inputs().len(),
        forall|i: nat| from <= i < to ==> #[trigger] (world.path_exists)(i),
    ensures
        ({
            let model = ScanModel::of(args);
            let (scan, action) = model.check_from::<M>(from);
            let (later, then) = model.check_from::<M>(to);
            let limit = (enough_actions(args) - from) as nat;
            let rest = (enough_actions(args) - to) as nat;
            &&& actions_from(scan, action, world, limit) == Seq::new(
                (to - from) as nat,
                |i: int| ScanActionModel::<M>::CheckPath((from + i) as nat),
            ) + actions_from(later, then, world, rest)
            &&& scan_after(scan, action, world, limit) == scan_after(later, then, world, rest)
        }),
    decreases to - from,
{
    let model = ScanModel::of(args);
    let (scan, action) = model.check_from::<M>(from);
    let (later, then) = model.check_from::<M>(to);
    let limit = (enough_actions(args) - from) as nat;
    let rest = (enough_actions(args) - to) as nat;
    if from == to {
        assert(actions_from(scan, action, world, limit) == Seq::new(
            0,
            |i: int| ScanActionModel::<M>::CheckPath((from + i) as nat),
        ) + actions_from(later, then, world, rest));
    } else {
        lemma_path_checks(args, world, from + 1, to);
        assert((world.path_exists)(from));
        let (next, after) = scan.step(world.event(action));
        assert((next, after) == model.check_from::<M>(from + 1));
        assert(actions_from(scan, action, world, limit) == seq![action] + actions_from(
            next,
            after,
            world,
            (limit - 1) as nat,
        ));
        assert(seq![action] + Seq::new(
            (to - from - 1) as nat,
            |i: int| ScanActionModel::<M>::CheckPath((from + 1 + i) as nat),
        ) == Seq::new(
            (to - from) as nat,
            |i: int| ScanActionModel::<M>::CheckPath((from + i) as nat),
        ));
        let tail = actions_from(later, then, world, rest);
        assert(seq![action] + (Seq::new(
            (to - from - 1) as nat,
            |i: int| ScanActionModel::<M>::CheckPath((from + 1 + i) as nat),
        ) + tail) == Seq::new(
            (to - from) as nat,
            |i: int| ScanActionModel::<M>::CheckPath((from + i) as nat),
        ) + tail);
    }
}

/// Whether a scan has the settings that the arguments give.
pub open spec fn has_settings(scan: ScanModel, args: ScanArgs) -> bool {
    let model = ScanModel::of(args);
    &&& scan.no_dedup == args.no_dedup
    &&& scan.no_validate == args.no_validate
    &&& scan.rule_stats == args.rule_stats
    &&& scan.use_progress == args.use_progress
    &&& scan.validation == model.validation
}

proof fn lemma_report<M>(scan: ScanModel, world: Surroundings<M>, limit: nat)
    requires
        scan.stage is Report,
        limit >= 2,
    ensures
        actions_from(scan, ScanActionModel::Report, world, limit) == reporting_actions::<M>(),
        scan_after(scan, ScanActionModel::<M>::Report, world, limit).stage is Done,
{
    reveal_with_fuel(actions_from, 3);
    reveal_with_fuel(scan_after, 3);
    assert(actions_from(scan, ScanActionModel::Report, world, limit) == reporting_actions::<M>());
}

proof fn lemma_validate<M>(scan: ScanModel, args: ScanArgs, world: Surroundings<M>, limit: nat)
    requires
        has_settings(scan, args),
        limit >= 3,
    ensures
        ({
            let (next, action) = scan.validate_next::<M>();
            &&& actions_from(next, action, world, limit) == validation_actions::<M>(args)
                + reporting_actions()
            &&& scan_after(next, action, world, limit).stage is Done
        }),
{
    let (next, action) = scan.validate_next::<M>();
    if scan.no_validate {
        lemma_report(next, world, limit);
    } else {
        let (later, then) = next.step(world.event(action));
        lemma_report(later, world, (limit - 1) as nat);
    }
    assert(actions_from(next, action, world, limit) == validation_actions::<M>(args)
        + reporting_actions());
}

proof fn lemma_scan_inputs<M>(
    scan: ScanModel,
    inputs: Seq<PathBuf>,
    args: ScanArgs,
    world: Surroundings<M>,
    limit: nat,
)
    requires
        has_settings(scan, args),
        scan.stage is Inputs,
        limit >= 7,
    ensures
        ({
            let action = ScanActionModel::<M>::EnumerateInputs(
                inputs,
                args.use_progress,
                args.rule_stats,
            );
            &&& actions_from(scan, action, world, limit) == seq![action] + dedup_actions(args, world)
                + validation_actions(args) + reporting_actions()
            &&& scan_after(scan, action, world, limit).stage is Done
        }),
{
    let action = ScanActionModel::<M>::EnumerateInputs(inputs, args.use_progress, args.rule_stats);
    let (s1, a1) = scan.step(world.event(action));
    let tail = validation_actions::<M>(args) + reporting_actions();
    if scan.no_dedup {
        lemma_validate(scan, args, world, (limit - 1) as nat);
        assert(actions_from(s1, a1, world, (limit - 1) as nat) == tail);
    } else {
        let (s2, a2) = s1.step(world.event(a1));
        let (s3, a3) = s2.step(world.event(a2));
        let (s4, a4) = s3.step(world.event(a3));
        lemma_validate(s3, args, world, (limit - 4) as nat);
        assert((s4, a4) == s3.validate_next::<M>());
        assert(actions_from(s3, a3, world, (limit - 3) as nat) == seq![a3] + tail);
        assert(actions_from(s2, a2, world, (limit - 2) as nat) == seq![a2] + (seq![a3] + tail));
        assert(actions_from(s1, a1, world, (limit - 1) as nat) == seq![a1] + (seq![a2] + (seq![a3]
            + tail)));
        assert(scan_after(s1, a1, world, (limit - 1) as nat) == scan_after(
            s2,
            a2,
            world,
            (limit - 2) as nat,
        ));
        assert(scan_after(s2, a2, world, (limit - 2) as nat) == scan_after(
            s3,
            a3,
            world,
            (limit - 3) as nat,
        ));
        assert(scan_after(s3, a3, world, (limit - 3) as nat) == scan_after(
            s4,
            a4,
            world,
            (limit - 4) as nat,
        ));
    }
    assert(actions_from(scan, action, world, limit) == seq![action] + dedup_actions(args, world)
        + validation_actions(args) + reporting_actions());
}

proof fn lemma_list_repositories<M>(scan: ScanModel, world: Surroundings<M>, limit: nat)
    requires
        scan.stage is Initialize,
        scan.urls.len() == 0,
        limit >= 4,
    ensures
        ({
            let cloning = ScanModel {
                urls: world.github + world.gitlab,
                ..scan.at(ScanStage::Clone)
            };
            let (next, action) = cloning.step(
                world.event(ScanActionModel::CloneRepos(world.repositories())),
            );
            let first = ScanActionModel::<M>::InitializeEnvironment;
            &&& actions_from(scan, first, world, limit) == listing_actions(world) + actions_from(
                next,
                action,
                world,
                (limit - 4) as nat,
            )
            &&& scan_after(scan, first, world, limit) == scan_after(
                next,
                action,
                world,
                (limit - 4) as nat,
            )
        }),
{
    let first = ScanActionModel::<M>::InitializeEnvironment;
    let (s1, a1) = scan.step(world.event(first));
    let (s2, a2) = s1.step(world.event(a1));
    let (s3, a3) = s2.step(world.event(a2));
    let (s4, a4) = s3.step(world.event(a3));
    assert(scan.urls + world.github == world.github);
    assert(s3.urls == world.github + world.gitlab);
    let tail = actions_from(s4, a4, world, (limit - 4) as nat);
    assert(actions_from(s3, a3, world, (limit - 3) as nat) == seq![a3] + tail);
    assert(actions_from(s2, a2, world, (limit - 2) as nat) == seq![a2] + (seq![a3] + tail));
    assert(actions_from(s1, a1, world, (limit - 1) as nat) == seq![a1] + (seq![a2] + (seq![a3]
        + tail)));
    assert(actions_from(scan, first, world, limit) == listing_actions(world) + tail);
    assert(scan_after(s1, a1, world, (limit - 1) as nat) == scan_after(
        s2,
        a2,
        world,
        (limit - 2) as nat,
    ));
    assert(scan_after(s2, a2, world, (limit - 2) as nat) == scan_after(
        s3,
        a3,
        world,
        (limit - 3) as nat,
    ));
}

/// A scan whose paths exist and which finds inputs runs its stages in one order: the paths are
/// checked, the repositories are listed and cloned (sorted and each once), the inputs are
/// scanned, repeated findings are collapsed unless they are to be kept, findings are validated
/// unless that is left out, and the report and the summary come last. It ends well.
pub proof fn law_stages_run_in_order<M>(args: ScanArgs, world: Surroundings<M>)
    requires
        forall|i: nat| i < args.path_inputs().len() ==> #[trigger] (world.path_exists)(i),
        world.inputs().len() > 0,
    ensures
        all_actions(args, world) == path_checks::<M>(args.path_inputs().len())
            + listing_actions(world) + seq![
            ScanActionModel::EnumerateInputs(world.inputs(), args.use_progress, args.rule_stats),
        ] + dedup_actions(args, world) + validation_actions(args) + reporting_actions(),
        is_sorted_set_of(world.repositories(), world.github + world.gitlab),
        scan_at_end(args, world).stage is Done,
{
    law_sorted_set_exists(world.github + world.gitlab);
    let count = args.path_inputs().len();
    lemma_path_checks(args, world, 0, count);
    let (scan, action) = ScanModel::of(args).check_from::<M>(count);
    let cloning = ScanModel { urls: world.github + world.gitlab, ..scan.at(ScanStage::Clone) };
    let (scanning, scan_inputs) = cloning.step(
        world.event(ScanActionModel::CloneRepos(world.repositories())),
    );
    lemma_list_repositories(scan, world, 12);
    lemma_scan_inputs(scanning, world.inputs(), args, world, 8);
    assert(Seq::new(count, |i: int| ScanActionModel::<M>::CheckPath((0 + i) as nat))
        == path_checks::<M>(count));
    lemma_append_six(
        path_checks::<M>(count),
        listing_actions(world),
        seq![scan_inputs],
        dedup_actions(args, world),
        validation_actions(args),
        reporting_actions(),
    );
}

proof fn lemma_append_six<A>(a: Seq<A>, b: Seq<A>, c: Seq<A>, d: Seq<A>, e: Seq<A>, f: Seq<A>)
    ensures
        a + (b + (c + d + e + f)) == a + b + c + d + e + f,
{
    assert(b + (c + d + e + f) == b + c + d + e + f);
    assert(a + (b + c + d + e + f) == a + b + c + d + e + f);
}

/// The matches in the datastore are replaced if and only if repeated findings are not to be
/// kept, and then by what deduplication left of all of them.
pub proof fn law_deduplication_follows_the_setting<M>(
    args: ScanArgs,
    world: Surroundings<M>,
    stored: Seq<M>,
)
    requires
        forall|i: nat| i < args.path_inputs().len() ==> #[trigger] (world.path_exists)(i),
        world.inputs().len() > 0,
    ensures
        all_actions(args, world).contains(ScanActionModel::ReplaceMatches(stored)) <==> !args.no_dedup
            && stored == (world.deduplicated)(world.matches),
{
    law_stages_run_in_order(args, world);
    let actions = all_actions(args, world);
    let replace = ScanActionModel::<M>::ReplaceMatches(stored);
    let count = args.path_inputs().len();
    if !args.no_dedup && stored == (world.deduplicated)(world.matches) {
        assert(actions[count as int + 7] == replace);
    }
    if actions.contains(replace) {
        let at = actions.index_of(replace);
        assert(actions[at] == replace);
    }
}

/// What the datastore holds after a run of actions, when it held `stored` before: the matches by
/// which they were replaced last, if they were.
pub open spec fn stored_after<M>(actions: Seq<ScanActionModel<M>>, stored: Seq<M>) -> Seq<M>
    decreases actions.len(),
{
    if actions.len() == 0 {
        stored
    } else {
        match actions.last() {
            ScanActionModel::ReplaceMatches(matches) => matches,
            _ => stored_after(actions.drop_last(), stored),
        }
    }
}

/// What the datastore holds at the end of a scan that found the matches of its surroundings.
pub open spec fn stored_at_end<M>(args: ScanArgs, world: Surroundings<M>) -> Seq<M> {
    stored_after(all_actions(args, world), world.matches)
}

/// Whether `collapsed` is what collapsing findings leaves where a key tells which of them repeat
/// one another: every key that is there stays, and no key is there twice.
pub open spec fn collapses<M, K>(
    matches: Seq<M>,
    collapsed: Seq<M>,
    key: spec_fn(M) -> K,
) -> bool {
    &&& collapsed.map_values(key).no_duplicates()
    &&& collapsed.map_values(key).to_set() == matches.map_values(key).to_set()
}

proof fn lemma_stored_without_replacing<M>(
    before: Seq<ScanActionModel<M>>,
    then: Seq<ScanActionModel<M>>,
    stored: Seq<M>,
)
    requires
        forall|i: int| 0 <= i < then.len() ==> !(#[trigger] then[i] is ReplaceMatches),
    ensures
        stored_after(before + then, stored) == stored_after(before, stored),
    decreases then.len(),
{
    let all = before + then;
    if then.len() == 0 {
        assert(all == before);
    } else {
        assert(all.last() == then[then.len() - 1]);
        assert(all.drop_last() == before + then.drop_last());
        lemma_stored_without_replacing(before, then.drop_last(), stored);
    }
}

/// At the end of a scan the datastore holds all the findings where repeated ones are to be kept, and
/// else what deduplication left of them.
pub proof fn law_store_at_the_end_follows_the_setting<M>(args: ScanArgs, world: Surroundings<M>)
    requires
        forall|i: nat| i < args.path_inputs().len() ==> #[trigger] (world.path_exists)(i),
        world.inputs().len() > 0,
    ensures
        stored_at_end(args, world) == (if args.no_dedup {
            world.matches
        } else {
            (world.deduplicated)(world.matches)
        }),
{
    law_stages_run_in_order(args, world);
    let scanned = path_checks::<M>(args.path_inputs().len()) + listing_actions(world) + seq![
        ScanActionModel::EnumerateInputs(world.inputs(), args.use_progress, args.rule_stats),
    ];
    let collapsed = scanned + dedup_actions(args, world);
    let validated = collapsed + validation_actions(args);
    lemma_stored_without_replacing(validated, reporting_actions(), world.matches);
    lemma_stored_without_replacing(collapsed, validation_actions(args), world.matches);
    if args.no_dedup {
        assert(collapsed == scanned);
        lemma_stored_without_replacing(Seq::empty(), scanned, world.matches);
        assert(Seq::<ScanActionModel<M>>::empty() + scanned == scanned);
    } else {
        assert(collapsed.last() == dedup_actions(args, world)[2]);
    }
}

/// Of two scans of the same surroundings, the one that keeps repeated findings ends with more of them
/// than the one that collapses them, where some finding repeats another; where all of them are the
/// same finding, just one is left of them.
pub proof fn law_keeping_repeats_keeps_more<M, K>(
    keeping: ScanArgs,
    collapsing: ScanArgs,
    world: Surroundings<M>,
    key: spec_fn(M) -> K,
    first: int,
    second: int,
)
    requires
        keeping.no_dedup,
        !collapsing.no_dedup,
        keeping.path_inputs() == collapsing.path_inputs(),
        forall|i: nat| i < keeping.path_inputs().len() ==> #[trigger] (world.path_exists)(i),
        world.inputs().len() > 0,
        collapses(world.matches, (world.deduplicated)(world.matches), key),
        0 <= first < second < world.matches.len(),
        key(world.matches[first]) == key(world.matches[second]),
    ensures
        stored_at_end(keeping, world).len() > stored_at_end(collapsing, world).len(),
        (forall|i: int|
            0 <= i < world.matches.len() ==> key(#[trigger] world.matches[i]) == key(
                world.matches[first],
            )) ==> stored_at_end(collapsing, world).len() == 1,
{
    law_store_at_the_end_follows_the_setting(keeping, world);
    law_store_at_the_end_follows_the_setting(collapsing, world);
    let all = world.matches.map_values(key);
    let left = (world.deduplicated)(world.matches).map_values(key);
    left.unique_seq_to_set();
    all.lemma_cardinality_of_set();
    if all.to_set().len() == all.len() {
        all.lemma_no_dup_set_cardinality();
        assert(all[first] == all[second]);
    }
    if forall|i: int|
        0 <= i < world.matches.len() ==> key(#[trigger] world.matches[i]) == key(
            world.matches[first],
        ) {
        let only = all[first];
        assert forall|k: K| #[trigger] all.to_set().contains(k) <==> k == only by {
            if all.to_set().contains(k) {
                let i = all.index_of(k);
                assert(key(world.matches[i]) == key(world.matches[first]));
            }
            assert(all.contains(only));
        }
        assert(all.to_set() =~= Set::<K>::empty().insert(only));
    }
}

/// An input path that does not exist ends the scan before anything else is done, and the first
/// such path is the one that is named.
pub proof fn law_missing_path_ends_the_scan<M>(args: ScanArgs, world: Surroundings<M>, missing: nat)
    requires
        missing < args.path_inputs().len(),
        forall|i: nat| i < missing ==> #[trigger] (world.path_exists)(i),
        !(world.path_exists)(missing),
    ensures
        all_actions(args, world) == path_checks::<M>(missing + 1),
        scan_at_end(args, world).stage == ScanStage::Failed(
            ScanErrorModel::PathMissing(args.path_inputs()[missing as int]),
        ),
{
    lemma_path_checks(args, world, 0, missing);
    let (scan, action) = ScanModel::of(args).check_from::<M>(missing);
    reveal_with_fuel(actions_from, 3);
    reveal_with_fuel(scan_after, 3);
    assert(all_actions(args, world) == path_checks::<M>(missing + 1));
}

/// A scan without inputs ends once the repositories have been cloned: nothing is scanned,
/// validated or reported.
pub proof fn law_no_inputs_end_the_scan<M>(args: ScanArgs, world: Surroundings<M>)
    requires
        forall|i: nat| i < args.path_inputs().len() ==> #[trigger] (world.path_exists)(i),
        world.inputs().len() == 0,
    ensures
        all_actions(args, world) == path_checks::<M>(args.path_inputs().len())
            + listing_actions(world),
        scan_at_end(args, world).stage == ScanStage::Failed(ScanErrorModel::NoInputs),
{
    let count = args.path_inputs().len();
    lemma_path_checks(args, world, 0, count);
    let (scan, action) = ScanModel::of(args).check_from::<M>(count);
    lemma_list_repositories(scan, world, 12);
    assert(Seq::new(count, |i: int| ScanActionModel::<M>::CheckPath((0 + i) as nat))
        == path_checks::<M>(count));
    assert(all_actions(args, world) == path_checks::<M>(count) + listing_actions(world));
}

/// A stage that fails ends the scan with its own failure, under the report's heading where the
/// report is what failed.
pub proof fn law_failed_stage_ends_the_scan<M>(scan: ScanModel, cause: FailureModel)
    requires
        scan.awaits(ScanEventModel::<M>::Failure(cause)),
    ensures
        scan.step(ScanEventModel::<M>::Failure(cause)).1 is Finished,
        scan.step(ScanEventModel::<M>::Failure(cause)).0.stage == ScanStage::Failed(
            if scan.stage is Report {
                ScanErrorModel::Report(cause)
            } else {
                ScanErrorModel::Stage(cause)
            },
        ),
{
}

impl ScanModel {
    /// No fewer events than a scan can still take up.
    pub open spec fn events_left(self) -> int {
        match self.stage {
            ScanStage::CheckPath(at) => 11 + self.paths.len() - at,
            ScanStage::Initialize => 11,
            ScanStage::Github => 10,
            ScanStage::Gitlab => 9,
            ScanStage::Clone => 8,
            ScanStage::Inputs => 7,
            ScanStage::Fetch => 6,
            ScanStage::Deduplicate => 5,
            ScanStage::Replace => 4,
            ScanStage::Validate => 3,
            ScanStage::Report => 2,
            ScanStage::Summary => 1,
            ScanStage::Done => 0,
            ScanStage::Failed(_) => 0,
        }
    }
}

/// Whatever becomes of its actions, a scan comes to an end: every event leaves it fewer to take up,
/// and with none left it wants nothing more done.
pub proof fn law_every_event_brings_a_scan_nearer_its_end<M>(
    scan: ScanModel,
    event: ScanEventModel<M>,
)
    requires
        scan.stage matches ScanStage::CheckPath(at) ==> at < scan.paths.len(),
        scan.awaits(event),
    ensures
        0 <= scan.step(event).0.events_left() < scan.events_left(),
        scan.step(event).1 is Finished <==> scan.step(event).0.events_left() == 0,
        scan.step(event).0.stage matches ScanStage::CheckPath(at) ==> at < scan.paths.len(),
{
}

/// The actions of a scan whose paths exist and which finds inputs, one by one, as the arguments and
/// the surroundings make them: a check for every path; the thread pool; both listings; a clone of
/// every repository listed by either, in ascending order and each once, and of no other; the inputs
/// that this leaves, with progress and times as asked; the collapse of the findings unless
/// duplicates are to be kept; a validation unless it is to be left out, with certificates and jobs as
/// asked and half a minute for each request; the report; the summary.
pub proof fn law_actions_follow_the_arguments<M>(args: ScanArgs, world: Surroundings<M>)
    requires
        forall|i: nat| i < args.path_inputs().len() ==> #[trigger] (world.path_exists)(i),
        world.inputs().len() > 0,
    ensures
        ({
            let actions = all_actions(args, world);
            let n = args.input_specifier_args.path_inputs@.len() as int;
            let d: int = if args.no_dedup {
                0
            } else {
                3
            };
            let v: int = if args.no_validate {
                0
            } else {
                1
            };
            &&& actions.len() == n + d + v + 7
            &&& forall|i: int|
                0 <= i < n ==> #[trigger] actions[i] == ScanActionModel::<M>::CheckPath(i as nat)
            &&& actions[n] is InitializeEnvironment
            &&& actions[n + 1] is EnumerateGithub
            &&& actions[n + 2] is EnumerateGitlab
            &&& actions[n + 3] is CloneRepos
            &&& forall|i: int|
                0 <= i < world.github.len() ==> actions[n + 3]->CloneRepos_0.contains(
                    #[trigger] world.github[i],
                )
            &&& forall|i: int|
                0 <= i < world.gitlab.len() ==> actions[n + 3]->CloneRepos_0.contains(
                    #[trigger] world.gitlab[i],
                )
            &&& forall|i: int|
                0 <= i < actions[n + 3]->CloneRepos_0.len() ==> world.github.contains(
                    #[trigger] actions[n + 3]->CloneRepos_0[i],
                ) || world.gitlab.contains(actions[n + 3]->CloneRepos_0[i])
            &&& forall|i: int, j: int|
                0 <= i < j < actions[n + 3]->CloneRepos_0.len() ==> text_before(
                    #[trigger] actions[n + 3]->CloneRepos_0[i],
                    #[trigger] actions[n + 3]->CloneRepos_0[j],
                )
            &&& actions[n + 4] == ScanActionModel::<M>::EnumerateInputs(
                (world.inputs_of)(actions[n + 3]->CloneRepos_0),
                args.use_progress,
                args.rule_stats,
            )
            &&& !args.no_dedup ==> actions[n + 5] is FetchMatches && actions[n + 6]
                == ScanActionModel::DeduplicateMatches(world.matches) && actions[n + 7]
                == ScanActionModel::ReplaceMatches((world.deduplicated)(world.matches))
            &&& !args.no_validate ==> actions[n + 5 + d] == ScanActionModel::<M>::Validate(
                ValidationPlan {
                    accept_invalid_certs: args.ignore_certs,
                    timeout_secs: 30,
                    num_jobs: args.num_jobs,
                },
            )
            &&& actions[n + 5 + d + v] is Report
            &&& actions[n + 6 + d + v] is PrintSummary
        }),
{
    law_stages_run_in_order(args, world);
    let actions = all_actions(args, world);
    let n = args.path_inputs().len() as int;
    let listed = world.github + world.gitlab;
    let urls = world.repositories();
    law_sorted_set_holds_every_text_in_order(urls, listed);
    assert(actions[n + 3] == ScanActionModel::<M>::CloneRepos(urls));
    assert forall|i: int| 0 <= i < world.github.len() implies urls.contains(
        #[trigger] world.github[i],
    ) by {
        assert(listed[i] == world.github[i]);
        assert(urls.contains(listed[i]));
    }
    assert forall|i: int| 0 <= i < world.gitlab.len() implies urls.contains(
        #[trigger] world.gitlab[i],
    ) by {
        let k = world.github.len() + i;
        assert(listed[k] == world.gitlab[i]);
        assert(urls.contains(listed[k]));
    }
    assert forall|i: int| 0 <= i < urls.len() implies world.github.contains(#[trigger] urls[i])
        || world.gitlab.contains(urls[i]) by {
        assert(listed.contains(urls[i]));
        let k = listed.index_of(urls[i]);
        if k < world.github.len() {
            assert(world.github[k] == urls[i]);
        } else {
            assert(world.gitlab[k - world.github.len()] == urls[i]);
        }
    }
}

/// A scan asks for a validation just when it is not to be left out, and then for just one kind: with
/// the certificates, the jobs and the time for a request that the arguments and the rules give.
pub proof fn law_validation_follows_the_arguments<M>(
    args: ScanArgs,
    world: Surroundings<M>,
    plan: ValidationPlan,
)
    requires
        forall|i: nat| i < args.path_inputs().len() ==> #[trigger] (world.path_exists)(i),
        world.inputs().len() > 0,
    ensures
        all_actions(args, world).contains(ScanActionModel::Validate(plan)) <==> !args.no_validate
            && plan.accept_invalid_certs == args.ignore_certs && plan.num_jobs == args.num_jobs
            && plan.timeout_secs == 30,
{
    law_stages_run_in_order(args, world);
    law_actions_follow_the_arguments(args, world);
    let actions = all_actions(args, world);
    let wanted = ScanActionModel::<M>::Validate(plan);
    let n = args.path_inputs().len() as int;
    let d: int = if args.no_dedup {
        0
    } else {
        3
    };
    if actions.contains(wanted) {
        let at = actions.index_of(wanted);
        assert(actions[at] == wanted);
        if at < n {
            assert(actions[at] is CheckPath);
        }
        assert(at == n + 5 + d && !args.no_validate);
    }
    if !args.no_validate && plan.accept_invalid_certs == args.ignore_certs && plan.num_jobs
        == args.num_jobs && plan.timeout_secs == 30 {
        assert(actions[n + 5 + d] == wanted);
    }
}

/// What people see of an error: the failure of a stage as it is; that of the report under a heading,
/// with all its messages behind; the missing path behind the words for it; or that there is nothing
/// to scan.
pub proof fn law_errors_are_shown_in_full(failure: FailureModel, e: ScanErrorModel)
    requires
        is_failure_of(failure, e),
    ensures
        e matches ScanErrorModel::Stage(cause) ==> failure == cause,
        e matches ScanErrorModel::Report(cause) ==> failure.message
            == "Failed to run report command"@ && failure.causes == seq![cause.message]
            + cause.causes,
        e matches ScanErrorModel::PathMissing(path) ==> failure.causes.len() == 0 && exists|
            shown: Seq<char>,
        | #[trigger]
            is_shown_as(path, shown) && failure.message == "Invalid input: Path does not exist - "@
                + shown,
        e is NoInputs ==> failure.causes.len() == 0 && failure.message == "No inputs to scan"@,
{
}

/// A path is shown as what displaying it gives.
proof fn law_paths_are_displayed(path: PathBuf, text: Seq<char>)
    requires
        is_shown_as(path, text),
    ensures
        exists|shown: String| #[trigger]
            call_ensures(display_path, (&path,), shown) && shown@ == text,
{
}

/// Whatever a scan asks for, it takes up what becomes of it, and, of what can fail, the failure.
pub proof fn law_scans_take_what_they_asked_for<M>(
    scan: ScanModel,
    event: ScanEventModel<M>,
    world: Surroundings<M>,
    cause: FailureModel,
)
    requires
        scan.stage matches ScanStage::CheckPath(at) ==> at < scan.paths.len(),
        scan.awaits(event),
    ensures
        ({
            let (next, action) = scan.step(event);
            &&& !(action is Finished) ==> next.awaits(world.event(action))
            &&& action is InitializeEnvironment || action is EnumerateGithub
                || action is EnumerateGitlab || action is CloneRepos || action is EnumerateInputs
                || action is FetchMatches || action is Validate || action is Report
                ==> next.awaits(ScanEventModel::<M>::Failure(cause))
        }),
{
}

/// What is said of an action is said of all that it holds.
pub proof fn law_scan_actions_are_seen_in_full<M>(action: ScanAction<M>)
    ensures
        action matches ScanAction::CheckPath(at) ==> action@ == ScanActionModel::<M>::CheckPath(
            at as nat,
        ),
        action is InitializeEnvironment <==> action@ is InitializeEnvironment,
        action is EnumerateGithub <==> action@ is EnumerateGithub,
        action is EnumerateGitlab <==> action@ is EnumerateGitlab,
        action matches ScanAction::CloneRepos(urls) ==> action@ == ScanActionModel::<M>::CloneRepos(
            urls@.map_values(|url: String| url@),
        ),
        action matches ScanAction::EnumerateInputs(inputs, progress, stats) ==> action@
            == ScanActionModel::<M>::EnumerateInputs(inputs@, progress, stats),
        action is FetchMatches <==> action@ is FetchMatches,
        action matches ScanAction::DeduplicateMatches(matches) ==> action@
            == ScanActionModel::DeduplicateMatches(matches@),
        action matches ScanAction::ReplaceMatches(matches) ==> action@
            == ScanActionModel::ReplaceMatches(matches@),
        action matches ScanAction::Validate(plan) ==> action@ == ScanActionModel::<M>::Validate(plan),
        action is Report <==> action@ is Report,
        action is PrintSummary <==> action@ is PrintSummary,
        action is Finished <==> action@ is Finished,
{
    if let ScanAction::CloneRepos(urls) = action {
        assert(texts(urls@) == urls@.map_values(|url: String| url@));
    }
}

/// What is said of an event, or of an error, is said of all that it holds.
pub proof fn law_scan_events_are_seen_in_full<M>(event: ScanEvent<M>, e: ScanError<'_>)
    ensures
        event matches ScanEvent::PathChecked(found) ==> event@ == ScanEventModel::<M>::PathChecked(
            found,
        ),
        event is Done <==> event@ is Done,
        event matches ScanEvent::Urls(urls) ==> event@ == ScanEventModel::<M>::Urls(
            urls@.map_values(|url: String| url@),
        ),
        event matches ScanEvent::Inputs(inputs) ==> event@ == ScanEventModel::<M>::Inputs(inputs@),
        event matches ScanEvent::Matches(matches) ==> event@ == ScanEventModel::Matches(matches@),
        event matches ScanEvent::Failure(cause) ==> event@ == ScanEventModel::<M>::Failure(cause@),
        e matches ScanError::PathMissing(path) ==> e@ == ScanErrorModel::PathMissing(*path),
        e is NoInputs <==> e@ is NoInputs,
        e matches ScanError::Stage(cause) ==> e@ == ScanErrorModel::Stage(cause@),
        e matches ScanError::Report(cause) ==> e@ == ScanErrorModel::Report(cause@),
{
    if let ScanEvent::Urls(urls) = event {
        assert(texts(urls@) == urls@.map_values(|url: String| url@));
    }
}

} // verus!
