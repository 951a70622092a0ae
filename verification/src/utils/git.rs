//! Policy over git commands: the library never runs `git` itself. The
//! application executes each command and hands back a [`CmdOutput`]; the
//! functions here interpret those outcomes under exact contracts.

use vstd::prelude::*;
use vstd::string::*;

use crate::utils::text::{
    all_space, find_nl, find_nl_exec, has_prefix, is_space, is_space_char, range_eq_str,
    range_has_prefix, strip_cr, to_chars, trim, trim_bounds,
};

verus! {

/// The captured outcome of one git invocation: exit status and decoded
/// standard output and error.
#[derive(Debug)]
pub struct CmdOutput {
    pub ok: bool,
    pub stdout: String,
    pub stderr: String,
}

/// Failures of the git layer.
#[derive(Debug)]
pub enum GitError {
    /// A git command exited non-zero.
    CommandFailed { command: String, base_dir: String, stderr: String },
    /// Neither resolution policy produced a default branch.
    UndefinedDefaultBranch,
}

/// The user-facing description of a git failure.
pub open spec fn spec_git_error_message(e: GitError) -> Seq<char> {
    match e {
        GitError::CommandFailed { command, base_dir, stderr } => "Command '"@ + command@
            + "' failed in '"@ + base_dir@ + "': "@ + stderr@,
        GitError::UndefinedDefaultBranch => "Impossible to identify a default branch"@,
    }
}

impl GitError {
    /// The user-facing description of the failure.
    pub fn message(&self) -> (r: String)
        ensures
            r@ == spec_git_error_message(*self),
    {
        match self {
            GitError::CommandFailed { command, base_dir, stderr } => {
                let mut m: String = "Command '".to_owned();
                m.append(command.as_str());
                m.append("' failed in '");
                m.append(base_dir.as_str());
                m.append("': ");
                m.append(stderr.as_str());
                proof {
                    assert(m@ =~= "Command '"@ + command@ + "' failed in '"@ + base_dir@ + "': "@
                        + stderr@);
                }
                m
            },
            GitError::UndefinedDefaultBranch => "Impossible to identify a default branch".to_owned(),
        }
    }
}

/// The standard output of a successful git command.
#[derive(Debug)]
pub struct GitSuccess {
    pub stdout: String,
}

/// A repository bound to its directory.
pub struct Git {
    pub base_dir: String,
}

/// What interpreting a command outcome yields on success.
pub open spec fn cmd_ok(r: Result<GitSuccess, GitError>, output: CmdOutput) -> bool {
    output.ok ==> (r is Ok && r->Ok_0.stdout@ == output.stdout@)
}

/// What interpreting a command outcome yields on failure: a
/// [`GitError::CommandFailed`] carrying the command name, the repository
/// directory, and the captured standard error verbatim.
pub open spec fn cmd_failed(
    r: Result<GitSuccess, GitError>,
    cmd: Seq<char>,
    dir: Seq<char>,
    output: CmdOutput,
) -> bool {
    !output.ok ==> (r is Err && (r->Err_0 matches GitError::CommandFailed {
        command,
        base_dir,
        stderr,
    } && command@ == cmd && base_dir@ == dir && stderr@ == output.stderr@))
}

/// Leading `"* "` markers removed, as `git branch --list` prints them.
pub open spec fn strip_stars(l: Seq<char>) -> Seq<char>
    decreases l.len(),
{
    if l.len() >= 2 && l[0] == '*' && l[1] == ' ' {
        strip_stars(l.subrange(2, l.len() as int))
    } else {
        l
    }
}

/// A cleaned line of the local branch listing.
pub open spec fn clean_branch_line(l: Seq<char>) -> Seq<char> {
    trim(strip_stars(l))
}

/// Does some line of the listing, from `i` on, clean to exactly `target`?
pub open spec fn listing_has_branch(s: Seq<char>, i: int, target: Seq<char>) -> bool
    decreases s.len() - i,
{
    if i < 0 || i >= s.len() {
        false
    } else {
        let e = find_nl(s, i, s.len() as int);
        proof {
            crate::utils::text::lemma_find_nl_bounds(s, i, s.len() as int);
        }
        clean_branch_line(strip_cr(s.subrange(i, e))) == target || (e < s.len()
            && listing_has_branch(s, e + 1, target))
    }
}

pub open spec fn main_name() -> Seq<char> {
    seq!['m', 'a', 'i', 'n']
}

pub open spec fn master_name() -> Seq<char> {
    seq!['m', 'a', 's', 't', 'e', 'r']
}

/// The local-only policy: the first of `main`, `master` (in that order)
/// present among the local branches.
pub open spec fn local_default_branch(stdout: Seq<char>) -> Option<Seq<char>> {
    if listing_has_branch(stdout, 0, main_name()) {
        Some(main_name())
    } else if listing_has_branch(stdout, 0, master_name()) {
        Some(master_name())
    } else {
        None
    }
}

pub open spec fn origin_prefix() -> Seq<char> {
    seq![
        'r',
        'e',
        'f',
        's',
        '/',
        'r',
        'e',
        'm',
        'o',
        't',
        'e',
        's',
        '/',
        'o',
        'r',
        'i',
        'g',
        'i',
        'n',
        '/',
    ]
}

/// The remote policy: the symbolic ref, trimmed, with the remote-tracking
/// prefix stripped; `None` when the ref is malformed.
pub open spec fn remote_default_branch(stdout: Seq<char>) -> Option<Seq<char>> {
    let t = trim(stdout);
    if has_prefix(t, origin_prefix()) {
        Some(t.subrange(origin_prefix().len() as int, t.len() as int))
    } else {
        None
    }
}

/// The one default-branch resolution policy, over the outcomes of
/// `git remote`, `git branch --list` and
/// `git symbolic-ref refs/remotes/origin/HEAD`: it succeeds exactly when
/// the remote query succeeded and the applicable path — local branches
/// for a remote-less repository, the symbolic ref otherwise — resolves.
pub open spec fn resolution_ok(remotes: CmdOutput, branches: CmdOutput, symref: CmdOutput) -> bool {
    remotes.ok && (if all_space(remotes.stdout@) {
        branches.ok && local_default_branch(branches.stdout@) is Some
    } else {
        symref.ok && remote_default_branch(symref.stdout@) is Some
    })
}

/// The branch the policy resolves to, when it resolves.
pub open spec fn resolved_branch(remotes: CmdOutput, branches: CmdOutput, symref: CmdOutput) -> Option<
    Seq<char>,
> {
    if all_space(remotes.stdout@) {
        local_default_branch(branches.stdout@)
    } else {
        remote_default_branch(symref.stdout@)
    }
}

/// The error a failing resolution produces: the first failing command,
/// or [`GitError::UndefinedDefaultBranch`] when every command succeeded
/// but the applicable path found no branch.
pub open spec fn resolution_err(
    e: GitError,
    dir: Seq<char>,
    remotes: CmdOutput,
    branches: CmdOutput,
    symref: CmdOutput,
) -> bool {
    if !remotes.ok {
        e matches GitError::CommandFailed { command, base_dir, stderr } && command@ == "remote"@
            && base_dir@ == dir && stderr@ == remotes.stderr@
    } else if all_space(remotes.stdout@) {
        if !branches.ok {
            e matches GitError::CommandFailed { command, base_dir, stderr } && command@
                == "branch"@ && base_dir@ == dir && stderr@ == branches.stderr@
        } else {
            e is UndefinedDefaultBranch
        }
    } else {
        if !symref.ok {
            e matches GitError::CommandFailed { command, base_dir, stderr } && command@
                == "symbolic-ref"@ && base_dir@ == dir && stderr@ == symref.stderr@
        } else {
            e is UndefinedDefaultBranch
        }
    }
}

impl Git {
    pub fn new(base_dir: &String) -> (g: Git)
        ensures
            g.base_dir@ == base_dir@,
    {
        Git { base_dir: base_dir.clone() }
    }

    /// Interpret one command outcome: the standard output on success, a
    /// [`GitError::CommandFailed`] naming the command otherwise.
    pub fn parsed_output(&self, command: &str, output: &CmdOutput) -> (r: Result<
        GitSuccess,
        GitError,
    >)
        ensures
            cmd_ok(r, *output),
            cmd_failed(r, command@, self.base_dir@, *output),
    {
        if !output.ok {
            Err(
                GitError::CommandFailed {
                    command: String::from_str(command),
                    base_dir: self.base_dir.clone(),
                    stderr: output.stderr.clone(),
                },
            )
        } else {
            Ok(GitSuccess { stdout: output.stdout.clone() })
        }
    }

    /// Interpret the outcome of `git clone`.
    pub fn clone(&self, output: &CmdOutput) -> (r: Result<GitSuccess, GitError>)
        ensures
            cmd_ok(r, *output),
            cmd_failed(r, "clone"@, self.base_dir@, *output),
    {
        self.parsed_output("clone", output)
    }

    /// Interpret the refresh step: a local-only repository has nothing to
    /// pull; otherwise the `git pull` outcome decides.
    pub fn latest_default(&self, local_only: bool, pull_output: &CmdOutput) -> (r: Result<
        GitSuccess,
        GitError,
    >)
        ensures
            local_only ==> (r is Ok && r->Ok_0.stdout@ == "Nop. Local only repo"@),
            !local_only ==> cmd_ok(r, *pull_output),
            !local_only ==> cmd_failed(r, "pull"@, self.base_dir@, *pull_output),
    {
        if local_only {
            Ok(GitSuccess { stdout: "Nop. Local only repo".to_owned() })
        } else {
            self.parsed_output("pull", pull_output)
        }
    }

    /// Interpret the outcome of `git worktree list --porcelain`.
    pub fn list_worktrees(&self, output: &CmdOutput) -> (r: Result<GitSuccess, GitError>)
        ensures
            cmd_ok(r, *output),
            cmd_failed(r, "worktree-list"@, self.base_dir@, *output),
    {
        self.parsed_output("worktree-list", output)
    }

    /// Interpret the outcome of `git worktree add -b <branch> <path> <base>`.
    pub fn add_worktree(&self, output: &CmdOutput) -> (r: Result<GitSuccess, GitError>)
        ensures
            cmd_ok(r, *output),
            cmd_failed(r, "worktree-add"@, self.base_dir@, *output),
    {
        self.parsed_output("worktree-add", output)
    }

    /// Interpret the outcome of `git worktree remove <path>`.
    pub fn remove_worktree(&self, output: &CmdOutput) -> (r: Result<GitSuccess, GitError>)
        ensures
            cmd_ok(r, *output),
            cmd_failed(r, "worktree-remove"@, self.base_dir@, *output),
    {
        self.parsed_output("worktree-remove", output)
    }

    /// Interpret the outcome of `git branch -D <branch>`.
    pub fn delete_branch(&self, output: &CmdOutput) -> (r: Result<GitSuccess, GitError>)
        ensures
            cmd_ok(r, *output),
            cmd_failed(r, "branch-delete"@, self.base_dir@, *output),
    {
        self.parsed_output("branch-delete", output)
    }

    /// Is the repository local-only? Decided by whether `git remote`
    /// printed nothing but whitespace.
    pub fn is_local_only(&self, remote_output: &CmdOutput) -> (r: Result<bool, GitError>)
        ensures
            remote_output.ok ==> (r is Ok && r->Ok_0 == all_space(remote_output.stdout@)),
            !remote_output.ok ==> (r is Err && (r->Err_0 matches GitError::CommandFailed {
                command,
                base_dir,
                stderr,
            } && command@ == "remote"@ && base_dir@ == self.base_dir@ && stderr@
                == remote_output.stderr@)),
    {
        match self.parsed_output("remote", remote_output) {
            Err(e) => Err(e),
            Ok(s) => {
                let v = to_chars(s.stdout.as_str());
                let n = v.len();
                let mut i: usize = 0;
                while i < n && is_space_char(v[i])
                    invariant
                        i <= n,
                        n == v@.len(),
                        forall|k: int| 0 <= k < i ==> is_space(v@[k]),
                    decreases n - i,
                {
                    i = i + 1;
                }
                if i == n {
                    proof {
                        assert(all_space(remote_output.stdout@));
                    }
                    Ok(true)
                } else {
                    proof {
                        assert(!is_space(remote_output.stdout@[i as int]));
                    }
                    Ok(false)
                }
            },
        }
    }

    /// Resolve the default branch.
    ///
    /// Local-only repositories hand in the outcome of `git branch --list`:
    /// the first of `main`, `master` that exists wins, else the resolution
    /// fails. Repositories with a remote hand in the outcome of
    /// `git symbolic-ref refs/remotes/origin/HEAD`: the trimmed ref must
    /// carry the remote-tracking prefix, which is stripped.
    pub fn default_branch(&self, local_only: bool, output: &CmdOutput) -> (r: Result<
        String,
        GitError,
    >)
        ensures
            local_only && !output.ok ==> (r is Err && (r->Err_0
                matches GitError::CommandFailed { command, base_dir, stderr } && command@
                == "branch"@ && base_dir@ == self.base_dir@ && stderr@ == output.stderr@)),
            local_only && output.ok ==> (match local_default_branch(output.stdout@) {
                Some(b) => r is Ok && r->Ok_0@ == b,
                None => r is Err && r->Err_0 is UndefinedDefaultBranch,
            }),
            !local_only && !output.ok ==> (r is Err && (r->Err_0
                matches GitError::CommandFailed { command, base_dir, stderr } && command@
                == "symbolic-ref"@ && base_dir@ == self.base_dir@ && stderr@ == output.stderr@)),
            !local_only && output.ok ==> (match remote_default_branch(output.stdout@) {
                Some(b) => r is Ok && r->Ok_0@ == b,
                None => r is Err && r->Err_0 is UndefinedDefaultBranch,
            }),
    {
        if local_only {
            let s = match self.parsed_output("branch", output) {
                Err(e) => {
                    return Err(e);
                },
                Ok(s) => s,
            };
            let ghost s0 = output.stdout@;
            let v = to_chars(s.stdout.as_str());
            let n = v.len();
            let mut has_main = false;
            let mut has_master = false;
            let mut i: usize = 0;
            proof {
                reveal_strlit("main");
                reveal_strlit("master");
                assert("main"@ =~= main_name());
                assert("master"@ =~= master_name());
            }
            while i < n
                invariant
                    i <= n,
                    n == v@.len(),
                    v@ == s0,
                    listing_has_branch(s0, 0, main_name()) == (has_main || listing_has_branch(
                        s0,
                        i as int,
                        main_name(),
                    )),
                    listing_has_branch(s0, 0, master_name()) == (has_master || listing_has_branch(
                        s0,
                        i as int,
                        master_name(),
                    )),
                    "main"@ == main_name(),
                    "master"@ == master_name(),
                decreases n - i,
            {
                let e = find_nl_exec(&v, i, n);
                let le = if e > i && v[e - 1] == '\r' {
                    e - 1
                } else {
                    e
                };
                proof {
                    assert(strip_cr(v@.subrange(i as int, e as int)) =~= v@.subrange(
                        i as int,
                        le as int,
                    ));
                }
                let mut a: usize = i;
                while le - a >= 2 && v[a] == '*' && v[a + 1] == ' '
                    invariant
                        i <= a <= le,
                        le <= n == v@.len(),
                        strip_stars(v@.subrange(i as int, le as int)) == strip_stars(
                            v@.subrange(a as int, le as int),
                        ),
                    decreases le - a,
                {
                    proof {
                        assert(v@.subrange(a as int, le as int).subrange(
                            2,
                            v@.subrange(a as int, le as int).len() as int,
                        ) =~= v@.subrange(a + 2, le as int));
                    }
                    a = a + 2;
                }
                let bounds = trim_bounds(&v, a, le);
                let lo2 = bounds.0;
                let hi2 = bounds.1;
                proof {
                    assert(strip_stars(v@.subrange(a as int, le as int)) == v@.subrange(
                        a as int,
                        le as int,
                    ));
                    assert(clean_branch_line(strip_cr(v@.subrange(i as int, e as int)))
                        == v@.subrange(lo2 as int, hi2 as int));
                }
                let is_main = range_eq_str(&v, lo2, hi2, "main");
                let is_master = range_eq_str(&v, lo2, hi2, "master");
                proof {
                    assert(listing_has_branch(s0, i as int, main_name()) == (
                    clean_branch_line(strip_cr(s0.subrange(i as int, e as int))) == main_name()
                        || (e < n && listing_has_branch(s0, e + 1, main_name()))));
                    assert(listing_has_branch(s0, i as int, master_name()) == (
                    clean_branch_line(strip_cr(s0.subrange(i as int, e as int))) == master_name()
                        || (e < n && listing_has_branch(s0, e + 1, master_name()))));
                }
                has_main = has_main || is_main;
                has_master = has_master || is_master;
                if e < n {
                    i = e + 1;
                } else {
                    i = n;
                }
            }
            if has_main {
                Ok("main".to_owned())
            } else if has_master {
                Ok("master".to_owned())
            } else {
                Err(GitError::UndefinedDefaultBranch)
            }
        } else {
            let s = match self.parsed_output("symbolic-ref", output) {
                Err(e) => {
                    return Err(e);
                },
                Ok(s) => s,
            };
            let v = to_chars(s.stdout.as_str());
            let bounds = trim_bounds(&v, 0, v.len());
            let lo = bounds.0;
            let hi = bounds.1;
            proof {
                reveal_strlit("refs/remotes/origin/");
                assert("refs/remotes/origin/"@ =~= origin_prefix());
                assert(v@.subrange(0, v@.len() as int) =~= v@);
            }
            if range_has_prefix(&v, lo, hi, "refs/remotes/origin/") {
                let b = String::from_str(s.stdout.as_str().substring_char(lo + 20, hi));
                proof {
                    let t = trim(output.stdout@);
                    assert(t == v@.subrange(lo as int, hi as int));
                    assert(b@ =~= t.subrange(origin_prefix().len() as int, t.len() as int));
                }
                Ok(b)
            } else {
                Err(GitError::UndefinedDefaultBranch)
            }
        }
    }

    /// Resolve the default branch by the one policy, from the outcomes
    /// of the three read-only queries: whether a remote is configured
    /// decides which of the local-branch listing and the symbolic ref is
    /// consulted.
    pub fn resolve_default_branch(
        &self,
        remotes: &CmdOutput,
        branches: &CmdOutput,
        symref: &CmdOutput,
    ) -> (r: Result<String, GitError>)
        ensures
            resolution_ok(*remotes, *branches, *symref) ==> (r is Ok && resolved_branch(
                *remotes,
                *branches,
                *symref,
            ) == Some(r->Ok_0@)),
            !resolution_ok(*remotes, *branches, *symref) ==> (r is Err && resolution_err(
                r->Err_0,
                self.base_dir@,
                *remotes,
                *branches,
                *symref,
            )),
    {
        let local_only = match self.is_local_only(remotes) {
            Ok(b) => b,
            Err(e) => {
                return Err(e);
            },
        };
        if local_only {
            self.default_branch(true, branches)
        } else {
            self.default_branch(false, symref)
        }
    }
}

} // verus!
