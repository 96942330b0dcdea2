//! The run configuration, built from the raw flag values.

use vstd::prelude::*;
use crate::decimal::Decimal;
use crate::flags::{
    count_of, decode_count, decode_fraction, decode_threads, flag_view, fraction_of, threads_of,
    DEFAULT_DISTANCE, DEFAULT_NUM_SCANS,
};

verus! {

/// Name of the output directory made under the working directory when none
/// is given.
pub const DEFAULT_OUT_DIR_NAME: &'static str = "gbme-out";

/// Why a run did not complete.
#[derive(Clone, Debug, PartialEq, Eq)]
pub enum RunError {
    /// No distance matrix was named.
    MissingRequiredArgument,
    /// The distance matrix is not a regular file.
    InvalidFileReference { path: String },
    /// The output directory could not be created.
    DirectoryCreationFailure { path: String, reason: String },
    /// A collaborator could not be started.
    CollaboratorLaunchFailure { path: String, reason: String },
    /// The analysis collaborator ended with a failing status.
    CollaboratorExecutionFailure { path: String },
}

/// The one-line description of an error.
pub open spec fn error_text(e: RunError) -> Seq<char> {
    match e {
        RunError::MissingRequiredArgument => "missing required argument -f/--file"@,
        RunError::InvalidFileReference { path } => "-f \""@ + path@ + "\" is not a file"@,
        RunError::DirectoryCreationFailure { path, reason } => "Failed to create \""@ + path@
            + "\": "@ + reason@,
        RunError::CollaboratorLaunchFailure { path, reason } => "Failed to run \""@ + path@
            + "\": "@ + reason@,
        RunError::CollaboratorExecutionFailure { path } => "Failed to run \""@ + path@ + "\""@,
    }
}

/// `a`, `b` and `c` one after the other.
pub fn concat3(a: &str, b: &str, c: &str) -> (r: String)
    ensures
        r@ == a@ + b@ + c@,
{
    let mut s = a.to_owned();
    s.append(b);
    s.append(c);
    s
}

impl RunError {
    /// The one-line description of the error.
    pub fn message(&self) -> (r: String)
        ensures
            r@ == error_text(*self),
    {
        match self {
            RunError::MissingRequiredArgument => "missing required argument -f/--file".to_owned(),
            RunError::InvalidFileReference { path } => concat3(
                "-f \"",
                path.as_str(),
                "\" is not a file",
            ),
            RunError::DirectoryCreationFailure { path, reason } => {
                let mut s = concat3("Failed to create \"", path.as_str(), "\": ");
                s.append(reason.as_str());
                s
            },
            RunError::CollaboratorLaunchFailure { path, reason } => {
                let mut s = concat3("Failed to run \"", path.as_str(), "\": ");
                s.append(reason.as_str());
                s
            },
            RunError::CollaboratorExecutionFailure { path } => concat3(
                "Failed to run \"",
                path.as_str(),
                "\"",
            ),
        }
    }
}

/// `name` under the directory `dir`: a separator is put between them unless
/// `dir` is empty or already ends with one.
pub open spec fn join_path(dir: Seq<char>, name: Seq<char>) -> Seq<char> {
    if dir.len() == 0 || dir.last() == '/' {
        dir + name
    } else {
        dir + seq!['/'] + name
    }
}

/// `name` under the directory `dir`.
pub fn join(dir: &str, name: &str) -> (r: String)
    ensures
        r@ == join_path(dir@, name@),
{
    let n = dir.unicode_len();
    let mut s = dir.to_owned();
    if n > 0 && dir.get_char(n - 1) != '/' {
        s.append("/");
        proof {
            reveal_strlit("/");
        }
    }
    s.append(name);
    s
}

/// The raw values of the command-line flags; `None` where a flag is absent.
#[derive(Clone, Debug, Default)]
pub struct Flags {
    pub matrix: Option<String>,
    pub metadata: Option<String>,
    pub out_dir: Option<String>,
    pub euc_dist_percent: Option<String>,
    pub distance: Option<String>,
    pub scans: Option<String>,
    pub threads: Option<String>,
    pub bin_dir: Option<String>,
}

/// What one run is asked to do.
#[derive(Clone, Debug)]
pub struct Config {
    /// The distance matrix file.
    pub matrix: String,
    /// The metadata file, if any.
    pub metadata: Option<String>,
    /// The directory holding the collaborators; `None` to search for them.
    pub bin_dir: Option<String>,
    /// Distance below which two samples are near; 0 disables it.
    pub distance: u32,
    /// Fraction of the Euclidean distance.
    pub euc_dist_percent: Decimal,
    /// Thread count: strictly between 0 and 64, or 0.
    pub num_threads: u32,
    /// Number of scans asked of the analysis.
    pub num_scans: u32,
    /// The output directory.
    pub out_dir: String,
}

impl Config {
    pub open spec fn wf(self) -> bool {
        self.euc_dist_percent.wf()
    }
}

/// The output directory: the one given, else [`DEFAULT_OUT_DIR_NAME`] under `cwd`.
pub open spec fn out_dir_of(flag: Option<Seq<char>>, cwd: Seq<char>) -> Seq<char> {
    match flag {
        Some(d) => d,
        None => join_path(cwd, DEFAULT_OUT_DIR_NAME@),
    }
}

/// Builds the configuration from the flag values; `cwd` is the working
/// directory, under which the output directory goes when none is given.
/// Values that do not decode fall back to zero; only a missing matrix is an
/// error.
pub fn config_from_flags(flags: &Flags, cwd: &str) -> (r: Result<Config, RunError>)
    ensures
        flags.matrix is None <==> r == Err::<Config, RunError>(RunError::MissingRequiredArgument),
        flags.matrix is Some <==> r is Ok,
        r matches Ok(c) ==> {
            &&& c.wf()
            &&& c.matrix@ == flags.matrix->Some_0@
            &&& flag_view(&c.metadata) == flag_view(&flags.metadata)
            &&& flag_view(&c.bin_dir) == flag_view(&flags.bin_dir)
            &&& c.distance == count_of(flag_view(&flags.distance), DEFAULT_DISTANCE)
            &&& c.euc_dist_percent == fraction_of(flag_view(&flags.euc_dist_percent))
            &&& c.num_threads == threads_of(flag_view(&flags.threads))
            &&& c.num_scans == count_of(flag_view(&flags.scans), DEFAULT_NUM_SCANS)
            &&& c.out_dir@ == out_dir_of(flag_view(&flags.out_dir), cwd@)
        },
{
    let matrix = match &flags.matrix {
        Some(m) => m.clone(),
        None => {
            return Err(RunError::MissingRequiredArgument);
        },
    };
    let out_dir = match &flags.out_dir {
        Some(d) => d.clone(),
        None => join(cwd, DEFAULT_OUT_DIR_NAME),
    };
    Ok(
        Config {
            matrix,
            metadata: flags.metadata.clone(),
            bin_dir: flags.bin_dir.clone(),
            distance: decode_count(&flags.distance, DEFAULT_DISTANCE),
            euc_dist_percent: decode_fraction(&flags.euc_dist_percent),
            num_threads: decode_threads(&flags.threads),
            num_scans: decode_count(&flags.scans, DEFAULT_NUM_SCANS),
            out_dir,
        },
    )
}

} // verus!
