//! What the command line asks for, and the check that comes before a run.

use crate::error::{AppError, AppErrorView};
use crate::mover::BatchReport;
use crate::sorter::SorterConfig;
use vstd::prelude::*;

verus! {

/// The ways to run other than from the command line alone.
#[derive(Clone, Copy, Debug, PartialEq, Eq, Structural)]
pub enum Commands {
    /// The interactive view.
    Tui,
}

/// The arguments of the command line.
#[derive(Clone, Debug, PartialEq, Eq)]
pub struct Args {
    /// Directory to walk through and search for images.
    pub source_dir: String,
    /// Base directory to move source files into.
    pub target_dir: String,
    /// Include the target directory in the search.
    pub include_target: bool,
    /// Say what would be done instead of moving any file.
    pub dry_run: bool,
    /// The way to run, where one is named.
    pub command: Option<Commands>,
}

impl Default for Args {
    /// The arguments of a command line that names none: from the current
    /// directory into `./sorted`, for real.
    fn default() -> (r: Args)
        ensures
            r.source_dir@ == "."@,
            r.target_dir@ == "./sorted"@,
            !r.include_target,
            !r.dry_run,
            r.command is None,
    {
        Args {
            source_dir: String::from_str("."),
            target_dir: String::from_str("./sorted"),
            include_target: false,
            dry_run: false,
            command: None,
        }
    }
}

/// Checks the arguments before a run and gives the configuration of the run.
/// `source_exists` says whether the source directory is there: where it is
/// not, the run ends before any batch is attempted.
pub fn run_cli(args: Args, source_exists: bool) -> (r: Result<SorterConfig, AppError>)
    ensures
        match r {
            Ok(config) => {
                &&& source_exists
                &&& config.dry_run == args.dry_run
                &&& config.sub_dir
                &&& config.target_dir@ == args.target_dir@
                &&& config.include_target == args.include_target
            },
            Err(e) => !source_exists && e@ == (AppErrorView::InvalidSourceDirectory {
                expected: args.source_dir@,
            }),
        },
{
    if source_exists {
        Ok(
            SorterConfig {
                dry_run: args.dry_run,
                sub_dir: true,
                target_dir: args.target_dir,
                include_target: args.include_target,
            },
        )
    } else {
        Err(AppError::InvalidSourceDirectory { expected: args.source_dir })
    }
}

/// The exit code of a run: 0 where it came to a report in which nothing
/// failed, 1 otherwise.
pub fn exit_code(outcome: &Result<BatchReport, AppError>) -> (r: u8)
    ensures
        r == 0 <==> (outcome matches Ok(report) && report.failed@.len() == 0),
        r == 0 || r == 1,
{
    match outcome {
        Ok(report) => if report.failed.len() == 0 {
            0
        } else {
            1
        },
        Err(_) => 1,
    }
}

} // verus!
