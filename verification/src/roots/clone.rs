//! Cloning a repository into the roots area: deriving the root name from
//! the address and interpreting the clone outcome.

use vstd::prelude::*;
use vstd::string::*;

use super::Root;
use crate::utils::git::{CmdOutput, Git, GitError};
use crate::utils::path::{join, spec_join};
use crate::utils::text::{last_segment, last_segment_start, range_has_prefix, to_chars};

verus! {

pub open spec fn git_suffix() -> Seq<char> {
    seq!['.', 'g', 'i', 't']
}

/// `s` from `i` on with every occurrence of `".git"` removed, scanning
/// left to right without overlap, as `str::replace` does.
pub open spec fn remove_git(s: Seq<char>, i: int) -> Seq<char>
    decreases s.len() - i,
{
    if i < 0 || i >= s.len() {
        Seq::empty()
    } else if i + 4 <= s.len() && s.subrange(i, i + 4) == git_suffix() {
        remove_git(s, i + 4)
    } else {
        seq![s[i]] + remove_git(s, i + 1)
    }
}

/// The root name derived from a repository address: the last `/` segment
/// of the address with `".git"` removed.
pub open spec fn spec_repo_name(address: Seq<char>) -> Seq<char> {
    last_segment(remove_git(address, 0))
}

/// The root a clone of `repository_address` would create: its derived
/// name, located under `roots_dir`.
pub fn target(roots_dir: &str, repository_address: &str) -> (r: Root)
    ensures
        r.name@ == spec_repo_name(repository_address@),
        r.path@ == spec_join(roots_dir@, spec_repo_name(repository_address@)),
{
    proof {
        reveal_strlit(".git");
        assert(".git"@ =~= git_suffix());
    }
    let v = to_chars(repository_address);
    let n = v.len();
    let mut gitless: String = String::new();
    let mut i: usize = 0;
    while i < n
        invariant
            i <= n,
            n == v@.len(),
            v@ == repository_address@,
            ".git"@ == git_suffix(),
            gitless@ + remove_git(v@, i as int) == remove_git(v@, 0),
        decreases n - i,
    {
        if range_has_prefix(&v, i, n, ".git") {
            proof {
                assert(v@.subrange(i as int, n as int).subrange(0, 4) =~= v@.subrange(
                    i as int,
                    i + 4,
                ));
                assert(gitless@ + remove_git(v@, i + 4) =~= gitless@ + remove_git(v@, i as int));
            }
            i = i + 4;
        } else {
            proof {
                if i + 4 <= n {
                    assert(v@.subrange(i as int, n as int).subrange(0, 4) =~= v@.subrange(
                        i as int,
                        i + 4,
                    ));
                }
            }
            let ghost before = gitless@;
            let piece = repository_address.substring_char(i, i + 1);
            proof {
                assert(piece@ =~= seq![v@[i as int]]);
            }
            gitless.append(piece);
            proof {
                assert(remove_git(v@, i as int) == seq![v@[i as int]] + remove_git(v@, i + 1));
                assert(gitless@ + remove_git(v@, i + 1) =~= before + remove_git(v@, i as int));
            }
            i = i + 1;
        }
    }
    proof {
        assert(gitless@ + remove_git(v@, n as int) =~= gitless@);
    }
    let g = to_chars(gitless.as_str());
    let si = last_segment_start(&g, 0, g.len());
    let name = String::from_str(gitless.as_str().substring_char(si, g.len()));
    proof {
        assert(g@.subrange(0, g@.len() as int) =~= g@);
        assert(name@ == last_segment(remove_git(repository_address@, 0)));
    }
    let path = join(roots_dir, name.as_str());
    Root { name, path }
}

/// Clone `repository_address` into the roots area.
///
/// The application runs `git clone` against the target directory and
/// hands back the outcome; success yields the new [`Root`], failure the
/// command error with the captured standard error verbatim.
pub fn call(roots_dir: &str, repository_address: String, output: &CmdOutput) -> (r: Result<
    Root,
    GitError,
>)
    ensures
        output.ok ==> (r is Ok && r->Ok_0.name@ == spec_repo_name(repository_address@)
            && r->Ok_0.path@ == spec_join(roots_dir@, spec_repo_name(repository_address@))),
        !output.ok ==> (r is Err && (r->Err_0 matches GitError::CommandFailed {
            command,
            base_dir,
            stderr,
        } && command@ == "clone"@ && base_dir@ == spec_join(
            roots_dir@,
            spec_repo_name(repository_address@),
        ) && stderr@ == output.stderr@)),
{
    let root = target(roots_dir, repository_address.as_str());
    let git = Git::new(&root.path);
    match git.clone(output) {
        Ok(_) => Ok(root),
        Err(e) => Err(e),
    }
}

} // verus!
