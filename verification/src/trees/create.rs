//! Creating a tree: canonical naming, default-branch reading, and the
//! post-provisioning plan.

use vstd::prelude::*;
use vstd::string::*;

use crate::application::Application;
use crate::config::{root_config_index, spec_effective_config, str_views};
use crate::utils::git::{
    resolution_err, resolution_ok, spec_git_error_message, CmdOutput, Git, GitError,
};
use crate::utils::path::{join, spec_join};
use crate::utils::text::{is_space, is_space_char, trim, lemma_trim_start_at, lemma_trim_end_at};

verus! {

/// Characters kept verbatim by normalization: letters, digits, `-`, `_`.
pub open spec fn is_word_char(c: char) -> bool {
    ('A' <= c && c <= 'Z') || ('a' <= c && c <= 'z') || ('0' <= c && c <= '9') || c == '-' || c
        == '_'
}

/// The two-character separator every run of other characters collapses to.
pub open spec fn sep() -> Seq<char> {
    seq!['-', '-']
}

/// Normalization of `s` from index `i` on; `in_run` records whether the
/// previous character already belonged to a collapsed run.
pub open spec fn norm_from(s: Seq<char>, i: int, in_run: bool) -> Seq<char>
    decreases s.len() - i,
{
    if i < 0 || i >= s.len() {
        Seq::empty()
    } else if is_word_char(s[i]) {
        seq![s[i]] + norm_from(s, i + 1, false)
    } else if in_run {
        norm_from(s, i + 1, true)
    } else {
        sep() + norm_from(s, i + 1, true)
    }
}

/// Every maximal run of non-word characters replaced by one `"--"`.
pub open spec fn normalized(s: Seq<char>) -> Seq<char> {
    norm_from(s, 0, false)
}

/// The canonical worktree directory name for `(root, branch)`.
pub open spec fn spec_tree_name(root: Seq<char>, branch: Seq<char>) -> Seq<char> {
    root + sep() + normalized(trim(branch))
}

/// Executable test for [`is_word_char`].
fn is_word(c: char) -> (r: bool)
    ensures
        r == is_word_char(c),
{
    ('A' <= c && c <= 'Z') || ('a' <= c && c <= 'z') || ('0' <= c && c <= '9') || c == '-' || c
        == '_'
}

/// The canonical, filesystem-safe worktree directory name: the branch is
/// trimmed of outer whitespace, every run of characters outside
/// `[A-Za-z0-9\-_]` collapses to a single `"--"`, and the result is
/// prefixed with `root` and `"--"`.
pub fn tree_name(root: &str, new_branch_name: &str) -> (r: String)
    ensures
        r@ == spec_tree_name(root@, new_branch_name@),
{
    proof {
        reveal_strlit("--");
    }
    let n = new_branch_name.unicode_len();

    // Bounds of the whitespace-trimmed branch name.
    let mut lo: usize = 0;
    while lo < n && is_space_char(new_branch_name.get_char(lo))
        invariant
            lo <= n,
            n == new_branch_name@.len(),
            forall|k: int| 0 <= k < lo ==> is_space(new_branch_name@[k]),
        decreases n - lo,
    {
        lo = lo + 1;
    }
    let mut hi: usize = n;
    while hi > lo && is_space_char(new_branch_name.get_char(hi - 1))
        invariant
            lo <= hi <= n,
            n == new_branch_name@.len(),
            forall|k: int| hi <= k < n ==> is_space(new_branch_name@[k]),
        decreases hi,
    {
        hi = hi - 1;
    }

    let ghost t = new_branch_name@.subrange(lo as int, hi as int);
    proof {
        if lo == hi {
            // The whole branch name is whitespace.
            lemma_trim_start_at(new_branch_name@, lo as int);
            let u = new_branch_name@.subrange(lo as int, n as int);
            lemma_trim_end_at(u, 0);
            assert(u.subrange(0, 0) =~= t);
        } else {
            lemma_trim_start_at(new_branch_name@, lo as int);
            let u = new_branch_name@.subrange(lo as int, n as int);
            lemma_trim_end_at(u, hi - lo);
            assert(u.subrange(0, hi - lo) =~= t);
        }
        assert(trim(new_branch_name@) == t);
    }

    let mut out: String = root.to_owned();
    out.append("--");
    proof {
        assert("--"@ =~= sep());
        assert(out@ == root@ + sep());
    }

    let mut j: usize = lo;
    let mut in_run: bool = false;
    while j < hi
        invariant
            lo <= j <= hi <= n,
            n == new_branch_name@.len(),
            t == new_branch_name@.subrange(lo as int, hi as int),
            "--"@ == sep(),
            out@ + norm_from(t, j - lo, in_run) == root@ + sep() + normalized(t),
        decreases hi - j,
    {
        let c = new_branch_name.get_char(j);
        proof {
            assert(t[j - lo] == new_branch_name@[j as int]);
        }
        if is_word(c) {
            let piece = new_branch_name.substring_char(j, j + 1);
            proof {
                assert(piece@ =~= seq![t[j - lo]]);
            }
            out.append(piece);
            proof {
                assert(norm_from(t, j - lo, in_run) == seq![t[j - lo]] + norm_from(
                    t,
                    j - lo + 1,
                    false,
                ));
                assert(out@ + norm_from(t, j + 1 - lo, false) =~= root@ + sep() + normalized(t));
            }
            in_run = false;
        } else if !in_run {
            out.append("--");
            proof {
                assert(norm_from(t, j - lo, false) == sep() + norm_from(t, j - lo + 1, true));
                assert(out@ + norm_from(t, j + 1 - lo, true) =~= root@ + sep() + normalized(t));
            }
            in_run = true;
        } else {
            proof {
                assert(norm_from(t, j - lo, true) == norm_from(t, j - lo + 1, true));
            }
        }
        j = j + 1;
    }
    proof {
        assert(norm_from(t, hi - lo, in_run) =~= Seq::<char>::empty());
        assert(out@ =~= root@ + sep() + normalized(t));
    }
    out
}

/// Canonical naming is a function of its inputs alone: equal root and
/// branch always give the same name, so lookups by branch and by
/// canonical name agree across calls.
pub proof fn lemma_tree_name_deterministic(
    root1: Seq<char>,
    branch1: Seq<char>,
    root2: Seq<char>,
    branch2: Seq<char>,
)
    requires
        root1 == root2,
        branch1 == branch2,
    ensures
        spec_tree_name(root1, branch1) == spec_tree_name(root2, branch2),
{
}

/// Every character normalization emits is a word character or `-`.
proof fn lemma_norm_all_word(s: Seq<char>, i: int, f: bool)
    ensures
        forall|k: int|
            0 <= k < norm_from(s, i, f).len() ==> #[trigger] is_word_char(norm_from(s, i, f)[k]),
    decreases s.len() - i,
{
    if i < 0 || i >= s.len() {
    } else if is_word_char(s[i]) {
        lemma_norm_all_word(s, i + 1, false);
        assert forall|k: int| 0 <= k < norm_from(s, i, f).len() implies #[trigger] is_word_char(
            norm_from(s, i, f)[k],
        ) by {
            if k > 0 {
                assert(norm_from(s, i, f)[k] == norm_from(s, i + 1, false)[k - 1]);
            }
        }
    } else if f {
        lemma_norm_all_word(s, i + 1, true);
        assert forall|k: int| 0 <= k < norm_from(s, i, f).len() implies #[trigger] is_word_char(
            norm_from(s, i, f)[k],
        ) by {
            assert(norm_from(s, i, f)[k] == norm_from(s, i + 1, true)[k]);
        }
    } else {
        lemma_norm_all_word(s, i + 1, true);
        assert forall|k: int| 0 <= k < norm_from(s, i, f).len() implies #[trigger] is_word_char(
            norm_from(s, i, f)[k],
        ) by {
            if k >= 2 {
                assert(norm_from(s, i, f)[k] == norm_from(s, i + 1, true)[k - 2]);
            } else {
                assert(norm_from(s, i, f)[k] == '-');
            }
        }
    }
}

/// Normalization leaves a sequence of word characters untouched.
proof fn lemma_norm_words_identity(s: Seq<char>, i: int)
    requires
        0 <= i <= s.len(),
        forall|k: int| i <= k < s.len() ==> is_word_char(s[k]),
    ensures
        norm_from(s, i, false) == s.subrange(i, s.len() as int),
    decreases s.len() - i,
{
    if i == s.len() {
        assert(norm_from(s, i, false) =~= s.subrange(i, s.len() as int));
    } else {
        assert(is_word_char(s[i]));
        lemma_norm_words_identity(s, i + 1);
        assert(norm_from(s, i, false) =~= s.subrange(i, s.len() as int));
    }
}

/// Normalization is idempotent: a normalized branch name normalizes to
/// itself, so building a canonical name from one changes nothing.
pub proof fn lemma_tree_name_idempotent(root: Seq<char>, branch: Seq<char>)
    ensures
        spec_tree_name(root, normalized(trim(branch))) == root + sep() + normalized(trim(branch)),
{
    let x = normalized(trim(branch));
    lemma_norm_all_word(trim(branch), 0, false);
    if x.len() > 0 {
        assert(is_word_char(x[0]));
        assert(is_word_char(x[x.len() - 1]));
        assert(!is_space(x[0]));
        assert(!is_space(x[x.len() - 1]));
    }
    assert(crate::utils::text::trim_start(x) == x);
    assert(crate::utils::text::trim_end(x) == x);
    lemma_norm_words_identity(x, 0);
    assert(x.subrange(0, x.len() as int) =~= x);
}

/// Failures that abort a creation.
#[derive(Debug)]
pub enum CreateError {
    /// The default branch could not be resolved for the root.
    DefaultBranchFailed { cause: GitError },
    /// Adding the worktree failed; the captured git error is surfaced
    /// verbatim, so a pre-existing branch name shows git's own text.
    CreateFailed { stderr: String },
}

impl CreateError {
    /// The user-facing description of the failure.
    pub fn message(&self) -> (r: String)
        ensures
            (self matches CreateError::DefaultBranchFailed { cause } ==> r@
                == "Failed to find default branch: "@ + spec_git_error_message(*cause)),
            (self matches CreateError::CreateFailed { stderr } ==> r@ == "Create failed: "@
                + stderr@),
    {
        match self {
            CreateError::DefaultBranchFailed { cause } => {
                let mut m: String = "Failed to find default branch: ".to_owned();
                m.append(cause.message().as_str());
                m
            },
            CreateError::CreateFailed { stderr } => {
                let mut m: String = "Create failed: ".to_owned();
                m.append(stderr.as_str());
                m
            },
        }
    }
}

/// Interpret the outcome of adding the worktree. This step's failure is
/// fatal to the creation.
pub fn add_worktree(output: &CmdOutput) -> (r: Result<(), CreateError>)
    ensures
        output.ok ==> r is Ok,
        !output.ok ==> (r is Err && (r->Err_0 matches CreateError::CreateFailed { stderr }
            && stderr@ == output.stderr@)),
{
    if output.ok {
        Ok(())
    } else {
        Err(CreateError::CreateFailed { stderr: output.stderr.clone() })
    }
}

/// One best-effort post-provisioning step. The application performs it;
/// a failure is logged and never fails the creation.
#[derive(Debug)]
pub enum SetupStep {
    /// Copy `file_name` from the root checkout into the new tree.
    CopyFile { file_name: String, source: String, destination: String },
    /// Run `command` with the new tree as working directory.
    RunCommand { command: String },
}

/// The plan is exactly the effective copy list, then the effective exec
/// list, with paths joined onto the root and the new tree.
pub open spec fn setup_plan_ok(
    steps: Seq<SetupStep>,
    copies: Seq<Seq<char>>,
    cmds: Seq<Seq<char>>,
    repo_root: Seq<char>,
    branch_tree: Seq<char>,
) -> bool {
    &&& steps.len() == copies.len() + cmds.len()
    &&& forall|k: int|
        0 <= k < copies.len() ==> (#[trigger] steps[k] matches SetupStep::CopyFile {
            file_name,
            source,
            destination,
        } && file_name@ == copies[k] && source@ == spec_join(repo_root, copies[k])
            && destination@ == spec_join(branch_tree, copies[k]))
    &&& forall|k: int|
        copies.len() <= k < steps.len() ==> (#[trigger] steps[k] matches SetupStep::RunCommand {
            command,
        } && command@ == cmds[k - copies.len()])
}

/// The post-provisioning plan for a new tree: the root's override fully
/// replaces the general lists when present, and copies come before
/// commands, each list in order.
pub fn set_up_worktree(application: &Application, root: &str, repo_root: &str, branch_tree: &str)
    -> (steps: Vec<SetupStep>)
    ensures
        ({
            let lists = spec_effective_config(application.config, root@);
            setup_plan_ok(steps@, lists.0, lists.1, repo_root@, branch_tree@)
        }),
{
    let picked = application.config.root_config(root);
    let (copies, cmds): (&Vec<String>, &Vec<String>) = match picked {
        Some(rc) => (&rc.copy, &rc.exec_cmds),
        None => (&application.config.general.copy, &application.config.general.exec_cmds),
    };
    let ghost lists = spec_effective_config(application.config, root@);
    proof {
        assert(str_views(copies@) == lists.0);
        assert(str_views(cmds@) == lists.1);
    }
    let mut steps: Vec<SetupStep> = Vec::new();
    let mut k: usize = 0;
    while k < copies.len()
        invariant
            k <= copies@.len(),
            steps@.len() == k,
            str_views(copies@) == lists.0,
            forall|j: int|
                0 <= j < k ==> (#[trigger] steps@[j] matches SetupStep::CopyFile {
                    file_name,
                    source,
                    destination,
                } && file_name@ == lists.0[j] && source@ == spec_join(repo_root@, lists.0[j])
                    && destination@ == spec_join(branch_tree@, lists.0[j])),
        decreases copies@.len() - k,
    {
        let f = &copies[k];
        steps.push(
            SetupStep::CopyFile {
                file_name: f.clone(),
                source: join(repo_root, f.as_str()),
                destination: join(branch_tree, f.as_str()),
            },
        );
        k = k + 1;
    }
    let mut k2: usize = 0;
    while k2 < cmds.len()
        invariant
            k2 <= cmds@.len(),
            steps@.len() == copies@.len() + k2,
            str_views(copies@) == lists.0,
            str_views(cmds@) == lists.1,
            forall|j: int|
                0 <= j < copies@.len() ==> (#[trigger] steps@[j] matches SetupStep::CopyFile {
                    file_name,
                    source,
                    destination,
                } && file_name@ == lists.0[j] && source@ == spec_join(repo_root@, lists.0[j])
                    && destination@ == spec_join(branch_tree@, lists.0[j])),
            forall|j: int|
                copies@.len() <= j < steps@.len() ==> (#[trigger] steps@[j]
                    matches SetupStep::RunCommand { command } && command@ == lists.1[j
                    - copies@.len()]),
        decreases cmds@.len() - k2,
    {
        steps.push(SetupStep::RunCommand { command: cmds[k2].clone() });
        k2 = k2 + 1;
    }
    steps
}

/// Create a tree for `new_branch_name` under `root`.
///
/// The application runs the three read-only queries for the root, so
/// the default branch is resolved by the one policy — local branches
/// for a remote-less repository, the symbolic ref otherwise — then
/// best-effort refreshes the root and runs the worktree add. This
/// function turns the decisive outcomes into the result: an
/// unresolvable default branch aborts, the add failing aborts with
/// git's text verbatim, and success yields the post-provisioning plan
/// for the new tree at its canonical path. Plan failures never fail the
/// creation.
pub fn call(
    application: &Application,
    root: &str,
    new_branch_name: &str,
    remotes: &CmdOutput,
    branches: &CmdOutput,
    symref: &CmdOutput,
    add_output: &CmdOutput,
) -> (r: Result<Vec<SetupStep>, CreateError>)
    ensures
        !resolution_ok(*remotes, *branches, *symref) ==> (r is Err && (r->Err_0
            matches CreateError::DefaultBranchFailed { cause } && resolution_err(
            cause,
            spec_join(application.roots_dir@, root@),
            *remotes,
            *branches,
            *symref,
        ))),
        resolution_ok(*remotes, *branches, *symref) && !add_output.ok ==> (r is Err && (r->Err_0
            matches CreateError::CreateFailed { stderr } && stderr@ == add_output.stderr@)),
        resolution_ok(*remotes, *branches, *symref) && add_output.ok ==> (r is Ok && ({
            let lists = spec_effective_config(application.config, root@);
            setup_plan_ok(
                r->Ok_0@,
                lists.0,
                lists.1,
                spec_join(application.roots_dir@, root@),
                spec_join(application.trees_dir@, spec_tree_name(root@, new_branch_name@)),
            )
        })),
{
    let repo_root = join(application.roots_dir.as_str(), root);
    let branch_tree = join(
        application.trees_dir.as_str(),
        tree_name(root, new_branch_name).as_str(),
    );
    let git = Git::new(&repo_root);
    if let Err(e) = git.resolve_default_branch(remotes, branches, symref) {
        return Err(CreateError::DefaultBranchFailed { cause: e });
    }
    if let Err(e) = add_worktree(add_output) {
        return Err(e);
    }
    Ok(set_up_worktree(application, root, repo_root.as_str(), branch_tree.as_str()))
}

} // verus!
