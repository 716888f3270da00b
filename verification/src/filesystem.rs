//! Walking the file system: how the walk is set up, and what of each entry is passed on.

use std::path::PathBuf;

use vstd::prelude::*;

use crate::cli::commands::inputs::limit_in_force;
use crate::cli::commands::scan::ScanArgs;

verus! {

/// A path in the file system.
#[verifier::external_type_specification]
#[verifier::external_body]
pub struct ExPathBuf(std::path::PathBuf);

/// Something to scan.
#[derive(Debug)]
pub enum FoundInput {
    File(FileResult),
    Directory(DirectoryResult),
    EnumeratorFile(EnumeratorFileResult),
}

/// A file to scan.
#[derive(Debug)]
pub struct FileResult {
    pub path: PathBuf,
    pub num_bytes: u64,
    pub extract_archives: bool,
    pub extraction_depth: usize,
}

/// A file that lists what to scan.
#[derive(Debug)]
pub struct EnumeratorFileResult {
    pub path: PathBuf,
}

/// A directory to scan.
#[derive(Debug)]
pub struct DirectoryResult {
    pub path: PathBuf,
}

/// What an entry of the file system is.
#[derive(PartialEq, Eq, Structural, Clone, Copy, Debug)]
pub enum EntryKind {
    /// A file of so many bytes.
    File(u64),
    Directory,
    Symlink,
    Other,
}

/// An entry of the file system.
#[derive(Debug)]
pub struct WalkEntry {
    pub path: PathBuf,
    pub kind: EntryKind,
}

/// Looks at the entries that a walk comes upon.
#[derive(PartialEq, Eq, Structural, Clone, Copy, Debug)]
pub struct Visitor {
    pub max_file_size: Option<u64>,
    pub extract_archives: bool,
    pub extraction_depth: usize,
}

impl Visitor {
    /// Whether a file of so many bytes is over the limit. A file of exactly the limit is not.
    pub open spec fn is_too_big(self, size: u64) -> bool {
        match self.max_file_size {
            Some(max_size) => size > max_size,
            None => false,
        }
    }

    /// What a visit to an entry finds. An entry that could not be read is passed over, and so are
    /// files over the limit, links and everything that is neither a file nor a directory.
    pub open spec fn finding(self, entry: Option<WalkEntry>) -> Option<FoundInput> {
        match entry {
            None => None,
            Some(read) => match read.kind {
                EntryKind::File(num_bytes) => if self.is_too_big(num_bytes) {
                    None
                } else {
                    Some(
                        FoundInput::File(
                            FileResult {
                                path: read.path,
                                num_bytes,
                                extract_archives: self.extract_archives,
                                extraction_depth: self.extraction_depth,
                            },
                        ),
                    )
                },
                EntryKind::Directory => Some(
                    FoundInput::Directory(DirectoryResult { path: read.path }),
                ),
                EntryKind::Symlink => None,
                EntryKind::Other => None,
            },
        }
    }

    /// Tells whether a file of so many bytes is over the limit.
    pub fn file_too_big(&self, size: u64) -> (too_big: bool)
        ensures
            too_big == self.is_too_big(size),
    {
        match self.max_file_size {
            Some(max_size) => size > max_size,
            None => false,
        }
    }

    /// Visits an entry, or `None` for one that could not be read.
    pub fn visit(&self, entry: Option<WalkEntry>) -> (found: Option<FoundInput>)
        ensures
            found == self.finding(entry),
            entry is None ==> found is None,
            entry matches Some(read) ==> match read.kind {
                EntryKind::File(size) => if self.max_file_size is Some && size
                    > self.max_file_size->0 {
                    found is None
                } else {
                    found matches Some(FoundInput::File(file)) && file.path == read.path
                        && file.num_bytes == size && file.extract_archives == self.extract_archives
                        && file.extraction_depth == self.extraction_depth
                },
                EntryKind::Directory => found matches Some(FoundInput::Directory(directory))
                    && directory.path == read.path,
                EntryKind::Symlink => found is None,
                EntryKind::Other => found is None,
            },
    {
        match entry {
            None => None,
            Some(read) => match read.kind {
                EntryKind::File(num_bytes) => {
                    if self.file_too_big(num_bytes) {
                        None
                    } else {
                        Some(
                            FoundInput::File(
                                FileResult {
                                    path: read.path,
                                    num_bytes,
                                    extract_archives: self.extract_archives,
                                    extraction_depth: self.extraction_depth,
                                },
                            ),
                        )
                    }
                },
                EntryKind::Directory => Some(
                    FoundInput::Directory(DirectoryResult { path: read.path }),
                ),
                EntryKind::Symlink => None,
                EntryKind::Other => None,
            },
        }
    }
}

/// Why an enumeration of the file system cannot be set up.
#[derive(Debug)]
pub enum EnumeratorError {
    /// There is nothing to walk.
    NoInputs,
    /// An ignore file cannot be used in full; the text is its reader's own.
    Ignore(String),
}

/// `EnumeratorError` by what its texts hold.
pub enum EnumeratorErrorModel {
    NoInputs,
    Ignore(Seq<char>),
}

impl View for EnumeratorError {
    type V = EnumeratorErrorModel;

    open spec fn view(&self) -> EnumeratorErrorModel {
        match self {
            EnumeratorError::NoInputs => EnumeratorErrorModel::NoInputs,
            EnumeratorError::Ignore(cause) => EnumeratorErrorModel::Ignore(cause@),
        }
    }
}

/// What the message for an error says.
pub open spec fn enumerator_error_text(e: EnumeratorErrorModel) -> Seq<char> {
    match e {
        EnumeratorErrorModel::NoInputs => "No inputs provided"@,
        EnumeratorErrorModel::Ignore(cause) => cause,
    }
}

impl EnumeratorError {
    /// The message for people.
    pub fn message(&self) -> (text: String)
        ensures
            text@ == enumerator_error_text(self@),
    {
        match self {
            EnumeratorError::NoInputs => "No inputs provided".to_owned(),
            EnumeratorError::Ignore(cause) => cause.clone(),
        }
    }
}

/// Who reads the rules of an ignore file.
#[derive(PartialEq, Eq, Structural, Clone, Copy, Debug)]
pub enum IgnoreReader {
    /// The matcher for paths.
    Matcher,
    /// The walk.
    Walk,
}

/// How the addition of an ignore file goes on.
#[derive(Debug)]
pub enum IgnoreStep {
    /// Hand the file to this reader.
    Read(IgnoreReader),
    /// Both readers have it.
    Added,
    /// A reader objected.
    Failed(EnumeratorError),
}

/// `IgnoreStep` by what its texts hold.
pub enum IgnoreStepModel {
    Read(IgnoreReader),
    Added,
    Failed(EnumeratorErrorModel),
}

impl View for IgnoreStep {
    type V = IgnoreStepModel;

    open spec fn view(&self) -> IgnoreStepModel {
        match self {
            IgnoreStep::Read(reader) => IgnoreStepModel::Read(*reader),
            IgnoreStep::Added => IgnoreStepModel::Added,
            IgnoreStep::Failed(e) => IgnoreStepModel::Failed(e@),
        }
    }
}

/// What follows when a reader has had an ignore file and made an objection or none. Nothing has
/// been read at first; the matcher reads before the walk, and an objection ends it.
pub open spec fn ignore_step(
    had: Option<IgnoreReader>,
    objection: Option<Seq<char>>,
) -> IgnoreStepModel {
    match (had, objection) {
        (None, _) => IgnoreStepModel::Read(IgnoreReader::Matcher),
        (Some(_), Some(cause)) => IgnoreStepModel::Failed(EnumeratorErrorModel::Ignore(cause)),
        (Some(IgnoreReader::Matcher), None) => IgnoreStepModel::Read(IgnoreReader::Walk),
        (Some(IgnoreReader::Walk), None) => IgnoreStepModel::Added,
    }
}

/// How the walk itself is set up.
#[derive(PartialEq, Eq, Structural, Clone, Copy, Debug)]
pub struct WalkSettings {
    /// Go through links.
    pub follow_links: bool,
    /// Pass over larger files than this many bytes.
    pub max_filesize: Option<u64>,
    /// Leave out what is customarily left out, such as hidden files.
    pub standard_filters: bool,
    /// How many threads walk; 0 leaves the choice to the walk.
    pub threads: usize,
}

/// An enumeration of the file system, by its settings.
pub struct EnumeratorModel {
    /// Where the walk begins.
    pub roots: Seq<PathBuf>,
    pub walk: WalkSettings,
    /// The largest file that is passed on, in bytes.
    pub max_file_size: Option<u64>,
    pub collect_git_metadata: bool,
    pub enumerate_git_history: bool,
    pub extract_archives: bool,
    pub extraction_depth: usize,
    pub no_dedup: bool,
}

impl EnumeratorModel {
    /// What every enumeration keeps: there is something to walk, the walk and the visitor have one
    /// limit on file sizes, and nothing is left out by custom.
    pub open spec fn wf(self) -> bool {
        &&& self.roots.len() > 0
        &&& self.walk.max_filesize == self.max_file_size
        &&& !self.walk.standard_filters
    }

    /// The visitor for the walk.
    pub open spec fn visitor(self) -> Visitor {
        Visitor {
            max_file_size: self.max_file_size,
            extract_archives: self.extract_archives,
            extraction_depth: self.extraction_depth,
        }
    }
}

/// Walks the file system and passes on what is to be scanned.
#[derive(Debug)]
pub struct FilesystemEnumerator {
    roots: Vec<PathBuf>,
    walk: WalkSettings,
    max_file_size: Option<u64>,
    collect_git_metadata: bool,
    enumerate_git_history: bool,
    extract_archives: bool,
    extraction_depth: usize,
    no_dedup: bool,
}

impl View for FilesystemEnumerator {
    type V = EnumeratorModel;

    closed spec fn view(&self) -> EnumeratorModel {
        EnumeratorModel {
            roots: self.roots@,
            walk: self.walk,
            max_file_size: self.max_file_size,
            collect_git_metadata: self.collect_git_metadata,
            enumerate_git_history: self.enumerate_git_history,
            extract_archives: self.extract_archives,
            extraction_depth: self.extraction_depth,
            no_dedup: self.no_dedup,
        }
    }
}

impl FilesystemEnumerator {
    pub const DEFAULT_ENUMERATE_GIT_HISTORY: bool = true;

    pub const DEFAULT_FOLLOW_LINKS: bool = false;

    pub const DEFAULT_MAX_FILESIZE: u64 = 100 * 1024 * 1024;

    /// The settings of an enumeration for inputs and arguments.
    pub open spec fn fresh(inputs: Seq<PathBuf>, args: ScanArgs) -> EnumeratorModel {
        let limit = limit_in_force(args.content_filtering_args.max_file_size);
        EnumeratorModel {
            roots: inputs,
            walk: WalkSettings {
                follow_links: Self::DEFAULT_FOLLOW_LINKS,
                max_filesize: limit,
                standard_filters: false,
                threads: 0,
            },
            max_file_size: limit,
            collect_git_metadata: args.input_specifier_args.commit_metadata,
            enumerate_git_history: Self::DEFAULT_ENUMERATE_GIT_HISTORY,
            extract_archives: !args.content_filtering_args.no_extract_archives,
            extraction_depth: args.content_filtering_args.extraction_depth as usize,
            no_dedup: args.no_dedup,
        }
    }

    /// Sets up an enumeration of the inputs, of which there must be one at least.
    pub fn new(inputs: Vec<PathBuf>, args: &ScanArgs) -> (enumerator: Result<Self, EnumeratorError>)
        ensures
            if inputs@.len() == 0 {
                enumerator is Err && enumerator->Err_0@ == EnumeratorErrorModel::NoInputs
            } else {
                &&& enumerator is Ok
                &&& enumerator->Ok_0@ == Self::fresh(inputs@, *args)
                &&& enumerator->Ok_0@.wf()
            },
    {
        if inputs.len() == 0 {
            return Err(EnumeratorError::NoInputs);
        }
        let max_file_size: Option<u64> = args.content_filtering_args.max_file_size_bytes();
        Ok(
            FilesystemEnumerator {
                roots: inputs,
                walk: WalkSettings {
                    follow_links: Self::DEFAULT_FOLLOW_LINKS,
                    max_filesize: max_file_size,
                    standard_filters: false,
                    threads: 0,
                },
                max_file_size,
                collect_git_metadata: args.input_specifier_args.commit_metadata,
                enumerate_git_history: Self::DEFAULT_ENUMERATE_GIT_HISTORY,
                extract_archives: !args.content_filtering_args.no_extract_archives,
                extraction_depth: args.content_filtering_args.extraction_depth as usize,
                no_dedup: args.no_dedup,
            },
        )
    }

    /// Sets whether findings that repeat others are kept.
    pub fn no_dedup(&mut self, no_dedup: bool) -> (same: &mut Self)
        ensures
            same@ == (EnumeratorModel { no_dedup, ..old(self)@ }),
            old(self)@.wf() ==> same@.wf(),
            *final(self) == *final(same),
    {
        self.no_dedup = no_dedup;
        self
    }

    /// Sets how many threads walk.
    pub fn threads(&mut self, threads: usize) -> (same: &mut Self)
        ensures
            same@ == (EnumeratorModel {
                walk: WalkSettings { threads, ..old(self)@.walk },
                ..old(self)@
            }),
            old(self)@.wf() ==> same@.wf(),
            *final(self) == *final(same),
    {
        self.walk.threads = threads;
        self
    }

    /// Adds an ignore file, step by step: takes up which reader has had the file last, and whether
    /// it objected, and says what is to be done next.
    pub fn add_ignore(had: Option<IgnoreReader>, objection: Option<String>) -> (step: IgnoreStep)
        ensures
            step@ == ignore_step(had, objection.deep_view()),
    {
        match had {
            None => IgnoreStep::Read(IgnoreReader::Matcher),
            Some(reader) => match objection {
                Some(cause) => IgnoreStep::Failed(EnumeratorError::Ignore(cause)),
                None => match reader {
                    IgnoreReader::Matcher => IgnoreStep::Read(IgnoreReader::Walk),
                    IgnoreReader::Walk => IgnoreStep::Added,
                },
            },
        }
    }

    /// Sets whether the walk goes through links.
    pub fn follow_links(&mut self, follow_links: bool) -> (same: &mut Self)
        ensures
            same@ == (EnumeratorModel {
                walk: WalkSettings { follow_links, ..old(self)@.walk },
                ..old(self)@
            }),
            old(self)@.wf() ==> same@.wf(),
            *final(self) == *final(same),
    {
        self.walk.follow_links = follow_links;
        self
    }

    /// Sets the limit on file sizes, in bytes.
    pub fn max_filesize(&mut self, max_filesize: Option<u64>) -> (same: &mut Self)
        ensures
            same@ == (EnumeratorModel {
                walk: WalkSettings { max_filesize, ..old(self)@.walk },
                max_file_size: max_filesize,
                ..old(self)@
            }),
            old(self)@.wf() ==> same@.wf(),
            *final(self) == *final(same),
    {
        self.walk.max_filesize = max_filesize;
        self.max_file_size = max_filesize;
        self
    }

    /// Sets whether the metadata of commits is collected.
    pub fn collect_git_metadata(&mut self, collect: bool) -> (same: &mut Self)
        ensures
            same@ == (EnumeratorModel { collect_git_metadata: collect, ..old(self)@ }),
            old(self)@.wf() ==> same@.wf(),
            *final(self) == *final(same),
    {
        self.collect_git_metadata = collect;
        self
    }

    /// Sets whether the history of Git repositories is enumerated.
    pub fn enumerate_git_history(&mut self, enumerate: bool) -> (same: &mut Self)
        ensures
            same@ == (EnumeratorModel { enumerate_git_history: enumerate, ..old(self)@ }),
            old(self)@.wf() ==> same@.wf(),
            *final(self) == *final(same),
    {
        self.enumerate_git_history = enumerate;
        self
    }

    /// Where the walk begins.
    pub fn roots(&self) -> (roots: &Vec<PathBuf>)
        ensures
            roots@ == self@.roots,
    {
        &self.roots
    }

    /// How the walk is set up.
    pub fn walk_settings(&self) -> (walk: WalkSettings)
        ensures
            walk == self@.walk,
    {
        self.walk
    }

    /// The visitor with which to run the walk.
    pub fn run(&self) -> (visitor: Visitor)
        ensures
            visitor == self@.visitor(),
    {
        Visitor {
            max_file_size: self.max_file_size,
            extract_archives: self.extract_archives,
            extraction_depth: self.extraction_depth,
        }
    }
}

/// Why a Git repository could not be opened.
#[derive(Debug)]
pub enum OpenFailure<E> {
    /// There is none at the path.
    NotARepository,
    /// There is one, with a fault, which is the reader's own.
    Other(E),
}

/// Judges an attempt to open a Git repository: that there is none is no fault.
pub fn open_git_repo<R, E>(opened: Result<R, OpenFailure<E>>) -> (repo: Result<Option<R>, E>)
    ensures
        match opened {
            Ok(r) => repo == Ok::<Option<R>, E>(Some(r)),
            Err(OpenFailure::NotARepository) => repo == Ok::<Option<R>, E>(None),
            Err(OpenFailure::Other(fault)) => repo == Err::<Option<R>, E>(fault),
        },
{
    match opened {
        Ok(r) => Ok(Some(r)),
        Err(OpenFailure::NotARepository) => Ok(None),
        Err(OpenFailure::Other(fault)) => Err(fault),
    }
}

/// A file that a walk comes upon is passed on just when it is within the limit in force, with its
/// path and size and with the enumeration's settings for archives.
pub proof fn law_files_within_the_limit_are_found(
    enumerator: EnumeratorModel,
    path: PathBuf,
    size: u64,
)
    requires
        enumerator.wf(),
    ensures
        ({
            let entry = WalkEntry { path, kind: EntryKind::File(size) };
            enumerator.visitor().finding(Some(entry)) == (if enumerator.max_file_size is None
                || size <= enumerator.max_file_size->0 {
                Some(
                    FoundInput::File(
                        FileResult {
                            path,
                            num_bytes: size,
                            extract_archives: enumerator.extract_archives,
                            extraction_depth: enumerator.extraction_depth,
                        },
                    ),
                )
            } else {
                None
            })
        }),
{
}

/// No visitor finds less than another that differs from it in a lower limit only.
pub proof fn law_higher_limits_find_more(low: u64, high: u64, visitor: Visitor, entry: WalkEntry)
    requires
        low <= high,
    ensures
        ({
            let lower = Visitor { max_file_size: Some(low), ..visitor };
            let higher = Visitor { max_file_size: Some(high), ..visitor };
            let unlimited = Visitor { max_file_size: None, ..visitor };
            &&& lower.finding(Some(entry)) is Some ==> higher.finding(Some(entry))
                == lower.finding(Some(entry))
            &&& higher.finding(Some(entry)) is Some ==> unlimited.finding(Some(entry))
                == higher.finding(Some(entry))
        }),
{
}

/// An enumeration for scan arguments finds no file over the limit that those ask for.
pub proof fn law_new_enumerations_keep_the_asked_limit(
    inputs: Seq<PathBuf>,
    args: ScanArgs,
    path: PathBuf,
    size: u64,
)
    requires
        inputs.len() > 0,
    ensures
        ({
            let visitor = FilesystemEnumerator::fresh(inputs, args).visitor();
            let limit = limit_in_force(args.content_filtering_args.max_file_size)->0;
            let entry = WalkEntry { path, kind: EntryKind::File(size) };
            visitor.finding(Some(entry)) is Some <==> size <= limit
        }),
{
}

/// The walk reads an ignore file only after the matcher has read it without an objection, and the
/// file counts as added only after both have.
pub proof fn law_ignore_files_pass_the_matcher_first(
    had: Option<IgnoreReader>,
    objection: Option<Seq<char>>,
)
    ensures
        ignore_step(had, objection) == IgnoreStepModel::Read(IgnoreReader::Walk) <==> had == Some(
            IgnoreReader::Matcher,
        ) && objection is None,
        ignore_step(had, objection) is Added <==> had == Some(IgnoreReader::Walk) && objection
            is None,
{
}

/// Every visitor, whatever its limit and its settings for archives, finds for a directory just that
/// directory, and finds nothing for links, for what is neither file nor directory, and for entries
/// that could not be read.
pub proof fn law_every_visitor_finds_directories_alike(visitor: Visitor, path: PathBuf)
    ensures
        visitor.finding(Some(WalkEntry { path, kind: EntryKind::Directory })) == Some(
            FoundInput::Directory(DirectoryResult { path }),
        ),
        visitor.finding(Some(WalkEntry { path, kind: EntryKind::Symlink })) is None,
        visitor.finding(Some(WalkEntry { path, kind: EntryKind::Other })) is None,
        visitor.finding(None) is None,
{
}

/// Every visitor finds a file, with its path and size and the visitor's own settings for archives,
/// unless the visitor has a limit and the file is greater than that.
pub proof fn law_every_visitor_weighs_files_alike(visitor: Visitor, path: PathBuf, size: u64)
    ensures
        visitor.is_too_big(size) <==> visitor.max_file_size is Some && size
            > visitor.max_file_size->0,
        visitor.max_file_size is Some && size > visitor.max_file_size->0 ==> visitor.finding(
            Some(WalkEntry { path, kind: EntryKind::File(size) }),
        ) is None,
        visitor.max_file_size is None || size <= visitor.max_file_size->0 ==> visitor.finding(
            Some(WalkEntry { path, kind: EntryKind::File(size) }),
        ) == Some(
            FoundInput::File(
                FileResult {
                    path,
                    num_bytes: size,
                    extract_archives: visitor.extract_archives,
                    extraction_depth: visitor.extraction_depth,
                },
            ),
        ),
{
}

/// A new enumeration begins at the inputs, in their order, has one limit for the walk and for what is
/// passed on, and takes each of its other settings from the argument for it or from its default.
pub proof fn law_new_enumerations_follow_the_arguments(inputs: Seq<PathBuf>, args: ScanArgs)
    ensures
        ({
            let fresh = FilesystemEnumerator::fresh(inputs, args);
            let asked = args.content_filtering_args.max_file_size;
            &&& fresh.roots == inputs
            &&& fresh.max_file_size == fresh.walk.max_filesize
            &&& asked is Some ==> fresh.max_file_size == asked
            &&& asked is None ==> fresh.max_file_size == Some(26_214_400u64)
            &&& !fresh.walk.follow_links
            &&& !fresh.walk.standard_filters
            &&& fresh.walk.threads == 0
            &&& fresh.collect_git_metadata == args.input_specifier_args.commit_metadata
            &&& fresh.enumerate_git_history
            &&& fresh.extract_archives == !args.content_filtering_args.no_extract_archives
            &&& fresh.extraction_depth == args.content_filtering_args.extraction_depth
            &&& fresh.no_dedup == args.no_dedup
        }),
{
}

/// The visitor of an enumeration has its limit and its settings for archives.
pub proof fn law_visitor_has_the_settings_of_its_enumeration(enumerator: EnumeratorModel)
    ensures
        enumerator.visitor().max_file_size == enumerator.max_file_size,
        enumerator.visitor().extract_archives == enumerator.extract_archives,
        enumerator.visitor().extraction_depth == enumerator.extraction_depth,
{
}

/// An ignore file goes to the matcher before anything has read it. Whichever reader objects, the
/// addition fails with that reader's own words, and without an objection it never fails.
pub proof fn law_objections_to_ignore_files_are_passed_on(
    had: Option<IgnoreReader>,
    objection: Option<Seq<char>>,
)
    ensures
        had is None ==> ignore_step(had, objection) == IgnoreStepModel::Read(IgnoreReader::Matcher),
        had is Some && objection is Some ==> ignore_step(had, objection)
            == IgnoreStepModel::Failed(EnumeratorErrorModel::Ignore(objection->0)),
        ignore_step(had, objection) is Failed ==> had is Some && objection is Some,
        objection is Some ==> enumerator_error_text(EnumeratorErrorModel::Ignore(objection->0))
            == objection->0,
        enumerator_error_text(EnumeratorErrorModel::NoInputs) == "No inputs provided"@,
{
}

/// What is said of an error, or of a step, is said of all that it holds.
pub proof fn law_enumerator_errors_are_seen_in_full(e: EnumeratorError, step: IgnoreStep)
    ensures
        e is NoInputs <==> e@ is NoInputs,
        e matches EnumeratorError::Ignore(cause) ==> e@ == EnumeratorErrorModel::Ignore(cause@),
        step matches IgnoreStep::Read(reader) ==> step@ == IgnoreStepModel::Read(reader),
        step is Added <==> step@ is Added,
        step matches IgnoreStep::Failed(fault) ==> step@ == IgnoreStepModel::Failed(fault@),
{
}

} // verus!
