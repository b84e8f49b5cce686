//! The checks and argument lists around `git worktree add` on the
//! execution host, and the bounded capture of git's output. Running git is
//! the host's.

use vstd::prelude::*;
use vstd::string::StringExecFns;
use crate::device::{protocol_error_text, relative_path_is_safe, relative_path_safe, DeviceProtocolError};
use crate::host::{device_error_text, DeviceError};

verus! {

/// Most bytes of git's standard output that are kept.
pub const STDOUT_CAP: usize = 1048576;
/// Most bytes of git's standard error that are kept.
pub const STDERR_CAP: usize = 65536;
/// Seconds before a git invocation is killed.
pub const GIT_TIMEOUT_SECS: u64 = 60;

/// `s` starts with a dash, so git would read it as an option.
pub open spec fn dash_led(s: Seq<char>) -> bool {
    s.len() > 0 && s[0] == '-'
}

fn dash_led_exec(s: &str) -> (r: bool)
    ensures
        r == dash_led(s@),
{
    let c = crate::text::chars_of(s);
    c.len() > 0 && c[0] == '-'
}

/// The repository must be a git checkout (it holds `.git`).
pub fn check_repository(is_git_checkout: bool) -> (r: Result<(), DeviceError>)
    ensures
        is_git_checkout <==> r is Ok,
        r matches Err(e) ==> device_error_text(e) == "git: "@ + "repository path is not a git checkout"@,
{
    if !is_git_checkout {
        return Err(DeviceError::Git("repository path is not a git checkout".to_string()));
    }
    Ok(())
}

/// Why a new worktree may not be created, if it may not: its path exists
/// already, or the branch or start revision would be read as an option.
pub open spec fn new_worktree_error(exists: bool, worktree_display: Seq<char>, branch: Seq<char>, start_rev: Seq<char>) -> Option<Seq<char>> {
    if exists {
        Some("worktree path already exists: "@ + worktree_display)
    } else if dash_led(branch) || dash_led(start_rev) {
        Some("branch/rev must not start with '-'"@)
    } else {
        None
    }
}

/// Checks a new worktree at `worktree_display` for `branch` at `start_rev`.
pub fn check_new_worktree(exists: bool, worktree_display: &str, branch: &str, start_rev: &str) -> (r: Result<(), DeviceError>)
    ensures
        match new_worktree_error(exists, worktree_display@, branch@, start_rev@) {
            None => r is Ok,
            Some(m) => r matches Err(DeviceError::Git(g)) && g@ == m,
        },
{
    if exists {
        return Err(DeviceError::Git("worktree path already exists: ".to_string().concat(worktree_display)));
    }
    if dash_led_exec(branch) || dash_led_exec(start_rev) {
        return Err(DeviceError::Git("branch/rev must not start with '-'".to_string()));
    }
    Ok(())
}

/// The argv (after `git`) that adds the worktree: the branch and the path
/// are separated from the revision by `--`.
pub fn worktree_add_args(branch: &str, worktree: &str, start_rev: &str) -> (v: Vec<String>)
    ensures
        v@.map_values(|s: String| s@) == seq!["worktree"@, "add"@, "-b"@, branch@, "--"@, worktree@, start_rev@],
{
    let mut v: Vec<String> = Vec::new();
    v.push("worktree".to_string());
    v.push("add".to_string());
    v.push("-b".to_string());
    v.push(branch.to_string());
    v.push("--".to_string());
    v.push(worktree.to_string());
    v.push(start_rev.to_string());
    proof {
        assert(v@.map_values(|s: String| s@) =~= seq!["worktree"@, "add"@, "-b"@, branch@, "--"@, worktree@, start_rev@]);
    }
    v
}

/// What the host has learned so far while creating a worktree. Each field is
/// filled by performing the step of the same name; a step whose I/O fails
/// ends the creation with that failure.
#[derive(Debug)]
pub struct WorktreeProgress {
    /// The repository path was resolved under the allowed root.
    pub repo_resolved: bool,
    /// Whether the repository holds `.git`, once inspected.
    pub repo_is_git: Option<bool>,
    /// The resolved worktree path, once resolved.
    pub worktree: Option<String>,
    /// Whether the worktree path exists, once inspected.
    pub worktree_exists: Option<bool>,
    /// The worktree's parent directory was created.
    pub parent_made: bool,
}

/// The next thing the host does to create a worktree.
#[derive(Debug)]
pub enum WorktreeStep {
    /// Resolve the repository path under the allowed root.
    ResolveRepo,
    /// Look for `.git` in the resolved repository.
    InspectRepo,
    /// Resolve the worktree path under the allowed root.
    ResolveWorktree,
    /// Look whether the resolved worktree path exists.
    InspectWorktree,
    /// Create the worktree's parent directories.
    MakeParent,
    /// Run git with these arguments in the repository.
    AddWorktree {
        /// The argv after `git`.
        args: Vec<String>,
    },
    /// Stop with this error.
    Fail(DeviceError),
}

/// The mathematical value of a step: the git arguments as texts, a failure
/// as its message.
pub enum StepModel {
    /// Resolve the repository path.
    ResolveRepo,
    /// Look for `.git`.
    InspectRepo,
    /// Resolve the worktree path.
    ResolveWorktree,
    /// Look whether the worktree path exists.
    InspectWorktree,
    /// Create the parent directories.
    MakeParent,
    /// Run git with these arguments.
    AddWorktree(Seq<Seq<char>>),
    /// Stop with this message.
    Fail(Seq<char>),
}

/// The value of `step`.
pub open spec fn step_model(step: WorktreeStep) -> StepModel {
    match step {
        WorktreeStep::ResolveRepo => StepModel::ResolveRepo,
        WorktreeStep::InspectRepo => StepModel::InspectRepo,
        WorktreeStep::ResolveWorktree => StepModel::ResolveWorktree,
        WorktreeStep::InspectWorktree => StepModel::InspectWorktree,
        WorktreeStep::MakeParent => StepModel::MakeParent,
        WorktreeStep::AddWorktree { args } => StepModel::AddWorktree(args@.map_values(|s: String| s@)),
        WorktreeStep::Fail(e) => StepModel::Fail(device_error_text(e)),
    }
}

/// The order in which a worktree is created: the repository path's grammar,
/// its resolution and its `.git`; then the worktree path's grammar, its
/// resolution, that it does not exist and that branch and revision are no
/// options; then its parent directories; then git.
pub open spec fn worktree_step(
    repo_relpath: Seq<char>,
    worktree_relpath: Seq<char>,
    branch: Seq<char>,
    start_rev: Seq<char>,
    repo_resolved: bool,
    repo_is_git: Option<bool>,
    worktree: Option<Seq<char>>,
    worktree_exists: Option<bool>,
    parent_made: bool,
) -> StepModel {
    if !relative_path_safe(repo_relpath) {
        StepModel::Fail(protocol_error_text(DeviceProtocolError::UnsafeRelativePath))
    } else if !repo_resolved {
        StepModel::ResolveRepo
    } else if repo_is_git is None {
        StepModel::InspectRepo
    } else if repo_is_git == Some(false) {
        StepModel::Fail("git: "@ + "repository path is not a git checkout"@)
    } else if !relative_path_safe(worktree_relpath) {
        StepModel::Fail(protocol_error_text(DeviceProtocolError::UnsafeRelativePath))
    } else {
        match worktree {
            None => StepModel::ResolveWorktree,
            Some(path) => match worktree_exists {
                None => StepModel::InspectWorktree,
                Some(exists) => match new_worktree_error(exists, path, branch, start_rev) {
                    Some(m) => StepModel::Fail("git: "@ + m),
                    None => if !parent_made {
                        StepModel::MakeParent
                    } else {
                        StepModel::AddWorktree(seq!["worktree"@, "add"@, "-b"@, branch, "--"@, path, start_rev])
                    },
                },
            },
        }
    }
}

/// The next step of creating branch `branch` at `start_rev` as a worktree of
/// `repo_relpath` at `worktree_relpath`, given what the host has learned.
pub fn next_worktree_step(
    repo_relpath: &str,
    worktree_relpath: &str,
    branch: &str,
    start_rev: &str,
    progress: &WorktreeProgress,
) -> (r: WorktreeStep)
    ensures
        step_model(r) == worktree_step(
            repo_relpath@,
            worktree_relpath@,
            branch@,
            start_rev@,
            progress.repo_resolved,
            progress.repo_is_git,
            crate::wire::opt_text(progress.worktree),
            progress.worktree_exists,
            progress.parent_made,
        ),
{
    match relative_path_is_safe(repo_relpath) {
        Err(e) => {
            return WorktreeStep::Fail(DeviceError::Protocol(e));
        },
        Ok(()) => {},
    }
    if !progress.repo_resolved {
        return WorktreeStep::ResolveRepo;
    }
    let is_git = match progress.repo_is_git {
        None => {
            return WorktreeStep::InspectRepo;
        },
        Some(b) => b,
    };
    match check_repository(is_git) {
        Err(e) => {
            return WorktreeStep::Fail(e);
        },
        Ok(()) => {},
    }
    match relative_path_is_safe(worktree_relpath) {
        Err(e) => {
            return WorktreeStep::Fail(DeviceError::Protocol(e));
        },
        Ok(()) => {},
    }
    let path = match &progress.worktree {
        None => {
            return WorktreeStep::ResolveWorktree;
        },
        Some(p) => p,
    };
    let exists = match progress.worktree_exists {
        None => {
            return WorktreeStep::InspectWorktree;
        },
        Some(b) => b,
    };
    match check_new_worktree(exists, path.as_str(), branch, start_rev) {
        Err(e) => {
            return WorktreeStep::Fail(e);
        },
        Ok(()) => {},
    }
    if !progress.parent_made {
        return WorktreeStep::MakeParent;
    }
    WorktreeStep::AddWorktree { args: worktree_add_args(branch, path.as_str(), start_rev) }
}

/// Nothing on disk changes before every check has passed: a worktree's
/// parent is created, and git is run, only for grammatical paths, a
/// repository that is a git checkout, a worktree path that does not exist
/// yet, and a branch and revision that git cannot read as options.
pub proof fn lemma_no_mutation_before_checks(
    repo_relpath: Seq<char>,
    worktree_relpath: Seq<char>,
    branch: Seq<char>,
    start_rev: Seq<char>,
    repo_resolved: bool,
    repo_is_git: Option<bool>,
    worktree: Option<Seq<char>>,
    worktree_exists: Option<bool>,
    parent_made: bool,
)
    requires
        ({
            let s = worktree_step(repo_relpath, worktree_relpath, branch, start_rev, repo_resolved, repo_is_git, worktree, worktree_exists, parent_made);
            s is MakeParent || s is AddWorktree
        }),
    ensures
        relative_path_safe(repo_relpath),
        relative_path_safe(worktree_relpath),
        repo_resolved,
        repo_is_git == Some(true),
        worktree is Some,
        worktree_exists == Some(false),
        !dash_led(branch),
        !dash_led(start_rev),
{
}

/// Git is asked for exactly the worktree that was checked: `worktree add`,
/// the new branch as the value of `-b`, then after `--` the resolved
/// worktree path and the start revision, so neither can be read as an option.
pub proof fn lemma_git_gets_checked_worktree(
    repo_relpath: Seq<char>,
    worktree_relpath: Seq<char>,
    branch: Seq<char>,
    start_rev: Seq<char>,
    repo_resolved: bool,
    repo_is_git: Option<bool>,
    worktree: Option<Seq<char>>,
    worktree_exists: Option<bool>,
    parent_made: bool,
)
    ensures
        worktree_step(repo_relpath, worktree_relpath, branch, start_rev, repo_resolved, repo_is_git, worktree, worktree_exists, parent_made)
            matches StepModel::AddWorktree(args) ==> {
            &&& args.len() == 7
            &&& args[0] == "worktree"@ && args[1] == "add"@ && args[2] == "-b"@
            &&& args[3] == branch
            &&& args[4] == "--"@
            &&& Some(args[5]) == worktree
            &&& args[6] == start_rev
            &&& parent_made
        },
{
}

/// The error of a git invocation that exited unsuccessfully.
pub fn git_failure(first_arg: &str, stderr: &str) -> (e: DeviceError)
    ensures
        e matches DeviceError::Git(m) && m@ == "git "@ + first_arg@ + " failed: "@ + stderr@,
{
    DeviceError::Git("git ".to_string().concat(first_arg).concat(" failed: ").concat(stderr))
}

/// The error of a git invocation that outlived [`GIT_TIMEOUT_SECS`].
pub fn git_timeout() -> (e: DeviceError)
    ensures
        e matches DeviceError::Git(m) && m@ == "git timed out after 60s"@,
{
    DeviceError::Git("git timed out after 60s".to_string())
}

/// Appends the first bytes of `chunk` while `out` holds fewer than `cap`
/// bytes, never growing it past `cap`; says whether it is now full.
pub fn append_capped(out: &mut Vec<u8>, chunk: &[u8], cap: usize) -> (full: bool)
    ensures
        ({
            let room = if old(out)@.len() >= cap { 0 } else { cap - old(out)@.len() };
            let take = if chunk@.len() < room { chunk@.len() as int } else { room };
            final(out)@ == old(out)@ + chunk@.take(take)
        }),
        full == (final(out)@.len() >= cap),
{
    let room: usize = if out.len() >= cap { 0 } else { cap - out.len() };
    let take: usize = if chunk.len() < room { chunk.len() } else { room };
    let ghost before = out@;
    let mut i: usize = 0;
    while i < take
        invariant
            i <= take,
            take <= chunk@.len(),
            out@ == before + chunk@.take(i as int),
        decreases take - i,
    {
        out.push(chunk[i]);
        proof { assert(out@ =~= before + chunk@.take(i as int + 1)); }
        i += 1;
    }
    out.len() >= cap
}

} // verus!
