//! Configuration, loaded by the application and consumed read-only here.

use vstd::prelude::*;

verus! {

/// The process-wide settings.
pub struct GeneralConfig {
    /// The base directory holding the `roots` and `trees` areas.
    pub base_dir: String,
    /// Files copied from the root into every new tree.
    pub copy: Vec<String>,
    /// Commands run inside every new tree, in order.
    pub exec_cmds: Vec<String>,
}

/// Per-root settings; when present for a root they fully override the
/// general `copy` and `exec` lists (no merging).
pub struct RootConfig {
    pub copy: Vec<String>,
    pub exec_cmds: Vec<String>,
}

/// One named per-root override.
pub struct RootConfigEntry {
    pub root: String,
    pub config: RootConfig,
}

/// The loaded configuration: general settings plus per-root overrides.
pub struct Config {
    pub general: GeneralConfig,
    pub roots: Vec<RootConfigEntry>,
}

/// The views of a list of strings.
pub open spec fn str_views(ss: Seq<String>) -> Seq<Seq<char>> {
    ss.map_values(|s: String| s@)
}

/// The effective `(copy, exec)` lists for a root: its override verbatim
/// when one exists, else the general lists. No merging.
pub open spec fn spec_effective_config(c: Config, root: Seq<char>) -> (
    Seq<Seq<char>>,
    Seq<Seq<char>>,
) {
    let i = root_config_index(c.roots@, root);
    if i == -1 {
        (str_views(c.general.copy@), str_views(c.general.exec_cmds@))
    } else {
        (str_views(c.roots@[i].config.copy@), str_views(c.roots@[i].config.exec_cmds@))
    }
}

/// Index of the first override for `name`; `-1` if none.
pub open spec fn root_config_index(entries: Seq<RootConfigEntry>, name: Seq<char>) -> int
    decreases entries.len(),
{
    if entries.len() == 0 {
        -1
    } else if entries[0].root@ == name {
        0
    } else {
        let r = root_config_index(entries.drop_first(), name);
        if r == -1 {
            -1
        } else {
            r + 1
        }
    }
}

pub proof fn lemma_root_config_index(entries: Seq<RootConfigEntry>, name: Seq<char>)
    ensures
        root_config_index(entries, name) == -1 ==> (forall|k: int|
            0 <= k < entries.len() ==> entries[k].root@ != name),
        root_config_index(entries, name) != -1 ==> {
            let i = root_config_index(entries, name);
            &&& 0 <= i < entries.len()
            &&& entries[i].root@ == name
            &&& forall|k: int| 0 <= k < i ==> entries[k].root@ != name
        },
    decreases entries.len(),
{
    if entries.len() > 0 && entries[0].root@ != name {
        lemma_root_config_index(entries.drop_first(), name);
        assert(forall|k: int|
            1 <= k < entries.len() ==> entries[k] == entries.drop_first()[k - 1]);
    }
}

impl Config {
    /// The first per-root override for `name`, if any.
    pub fn root_config(&self, name: &str) -> (r: Option<&RootConfig>)
        ensures
            ({
                let i = root_config_index(self.roots@, name@);
                match r {
                    Some(c) => i != -1 && *c == self.roots@[i].config,
                    None => i == -1,
                }
            }),
    {
        let mut k: usize = 0;
        while k < self.roots.len()
            invariant
                k <= self.roots@.len(),
                forall|j: int| 0 <= j < k ==> self.roots@[j].root@ != name@,
            decreases self.roots@.len() - k,
        {
            if crate::utils::text::str_eq(self.roots[k].root.as_str(), name) {
                proof {
                    lemma_root_config_index_at(self.roots@, name@, k as int);
                }
                return Some(&self.roots[k].config);
            }
            k = k + 1;
        }
        proof {
            lemma_root_config_index(self.roots@, name@);
            if root_config_index(self.roots@, name@) != -1 {
                assert(false);
            }
        }
        None
    }
}

/// A first match at `i` pins the index down.
pub proof fn lemma_root_config_index_at(entries: Seq<RootConfigEntry>, name: Seq<char>, i: int)
    requires
        0 <= i < entries.len(),
        entries[i].root@ == name,
        forall|k: int| 0 <= k < i ==> entries[k].root@ != name,
    ensures
        root_config_index(entries, name) == i,
    decreases i,
{
    if i > 0 {
        assert(entries[0].root@ != name);
        lemma_root_config_index_at(entries.drop_first(), name, i - 1);
    }
}

} // verus!
