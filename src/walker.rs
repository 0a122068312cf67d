//! The directory walker's per-directory decisions: what to skip, what is
//! protected, what to emit as a candidate and whether to descend. Reading
//! directories is left to the caller.

use vstd::prelude::*;
use crate::protection::{covers, covers_exec, ProtectionRegistry, ProtectionSource};
use crate::text::{contains_parent_ref, has_parent_ref};

verus! {

/// Walker settings.
#[derive(Debug, Clone, PartialEq, Eq)]
pub struct WalkerConfig {
    pub max_depth: u32,
    pub follow_symlinks: bool,
    pub cross_devices: bool,
    pub excluded_paths: Vec<String>,
}

/// What to do with one directory.
#[derive(Debug, Clone, Copy, PartialEq, Eq, Structural)]
pub enum WalkDecision {
    /// Not walked: a symlink not followed, another device, or a path with a
    /// `..` component (not resolved).
    Skip,
    /// Protected: the subtree is skipped and a protection event recorded.
    Protected { source: ProtectionSource },
    /// Under an excluded path: skipped.
    Excluded,
    /// A candidate; `descend` tells whether its children are walked too.
    Emit { descend: bool },
}

pub open spec fn is_excluded(excluded: Seq<String>, p: Seq<char>) -> bool {
    exists|i: int| 0 <= i < excluded.len() && covers(#[trigger] excluded[i]@, p)
}

impl WalkerConfig {
    pub open spec fn decide_spec(
        &self,
        p: Seq<char>,
        depth: u32,
        is_symlink: bool,
        same_device: bool,
        reg: ProtectionRegistry,
    ) -> WalkDecision {
        if is_symlink && !self.follow_symlinks {
            WalkDecision::Skip
        } else if !same_device && !self.cross_devices {
            WalkDecision::Skip
        } else if has_parent_ref(p) {
            WalkDecision::Skip
        } else if reg.protection_of(p) is Some {
            WalkDecision::Protected { source: reg.protection_of(p)->Some_0 }
        } else if is_excluded(self.excluded_paths@, p) {
            WalkDecision::Excluded
        } else {
            WalkDecision::Emit { descend: depth < self.max_depth }
        }
    }

    /// Decides for a directory at `depth` below its root.
    pub fn decide(
        &self,
        path: &str,
        depth: u32,
        is_symlink: bool,
        same_device: bool,
        reg: &ProtectionRegistry,
    ) -> (r: WalkDecision)
        ensures
            r == self.decide_spec(path@, depth, is_symlink, same_device, *reg),
    {
        if is_symlink && !self.follow_symlinks {
            return WalkDecision::Skip;
        }
        if !same_device && !self.cross_devices {
            return WalkDecision::Skip;
        }
        if contains_parent_ref(path) {
            return WalkDecision::Skip;
        }
        match reg.is_protected(path) {
            Some(source) => {
                return WalkDecision::Protected { source };
            },
            None => {},
        }
        let mut i: usize = 0;
        while i < self.excluded_paths.len()
            invariant
                i <= self.excluded_paths@.len(),
                !(is_symlink && !self.follow_symlinks),
                !(!same_device && !self.cross_devices),
                !has_parent_ref(path@),
                reg.protection_of(path@) is None,
                forall|k: int| 0 <= k < i ==> !covers(#[trigger] self.excluded_paths@[k]@, path@),
            decreases self.excluded_paths.len() - i,
        {
            if covers_exec(self.excluded_paths[i].as_str(), path) {
                proof {
                    assert(covers(self.excluded_paths@[i as int]@, path@));
                }
                return WalkDecision::Excluded;
            }
            i = i + 1;
        }
        WalkDecision::Emit { descend: depth < self.max_depth }
    }
}

/// A directory is open when some open file lies in its subtree.
pub open spec fn path_open(open_files: Seq<String>, p: Seq<char>) -> bool {
    exists|i: int| 0 <= i < open_files.len() && covers(p, (#[trigger] open_files[i])@)
}

/// Looks a directory up in a snapshot of open file paths.
pub fn is_path_open(open_files: &Vec<String>, path: &str) -> (r: bool)
    ensures
        r == path_open(open_files@, path@),
{
    let mut i: usize = 0;
    while i < open_files.len()
        invariant
            i <= open_files@.len(),
            forall|k: int| 0 <= k < i ==> !covers(path@, (#[trigger] open_files@[k])@),
        decreases open_files.len() - i,
    {
        if covers_exec(path, open_files[i].as_str()) {
            proof {
                assert(covers(path@, open_files@[i as int]@));
            }
            return true;
        }
        i = i + 1;
    }
    false
}

/// Protection wins in the walk: a protected directory is never emitted,
/// whatever its depth or exclusions.
pub proof fn lemma_protected_never_emitted(
    cfg: WalkerConfig,
    p: Seq<char>,
    depth: u32,
    is_symlink: bool,
    same_device: bool,
    reg: ProtectionRegistry,
)
    requires
        reg.protection_of(p) is Some,
    ensures
        !(cfg.decide_spec(p, depth, is_symlink, same_device, reg) is Emit),
{
}

} // verus!
