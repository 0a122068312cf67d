//! Protection registry: directories that hold a marker file, and configured
//! patterns. A protected path's whole subtree is protected; its ancestors
//! are not.
//!
//! Paths are compared as text: callers canonicalize them first, and the
//! scorer and the walker refuse paths with a `..` component.

use vstd::prelude::*;
use crate::text::{has_prefix, starts_with, str_eq};

verus! {

/// Where a protection comes from.
#[derive(Debug, Clone, Copy, PartialEq, Eq, Structural, Hash)]
pub enum ProtectionSource {
    MarkerFile,
    ConfigPattern,
}

/// `root` covers `p`: `p` is `root` itself or lies below it.
pub open spec fn covers(root: Seq<char>, p: Seq<char>) -> bool {
    p == root || has_prefix(p, root + seq!['/'])
}

/// A configured pattern matches `p`: a pattern ending in `*` matches every
/// path that starts with what precedes the `*`; any other pattern covers
/// its own subtree.
pub open spec fn pattern_matches(pat: Seq<char>, p: Seq<char>) -> bool {
    if pat.len() > 0 && pat.last() == '*' {
        has_prefix(p, pat.drop_last())
    } else {
        covers(pat, p)
    }
}

/// The registry: marker directories and configured patterns.
#[derive(Debug, Clone, PartialEq, Eq)]
pub struct ProtectionRegistry {
    pub markers: Vec<String>,
    pub patterns: Vec<String>,
}

impl ProtectionRegistry {
    pub open spec fn marker_protects(&self, p: Seq<char>) -> bool {
        exists|i: int| 0 <= i < self.markers@.len() && covers(#[trigger] self.markers@[i]@, p)
    }

    pub open spec fn pattern_protects(&self, p: Seq<char>) -> bool {
        exists|i: int| 0 <= i < self.patterns@.len() && pattern_matches(#[trigger] self.patterns@[i]@, p)
    }

    /// The protection that applies to `p`; markers take precedence.
    pub open spec fn protection_of(&self, p: Seq<char>) -> Option<ProtectionSource> {
        if self.marker_protects(p) {
            Some(ProtectionSource::MarkerFile)
        } else if self.pattern_protects(p) {
            Some(ProtectionSource::ConfigPattern)
        } else {
            None
        }
    }

    /// A registry with nothing protected.
    pub fn new() -> (r: Self)
        ensures
            r.markers@.len() == 0,
            r.patterns@.len() == 0,
    {
        ProtectionRegistry { markers: Vec::new(), patterns: Vec::new() }
    }

    /// Records a directory found to hold a marker file.
    pub fn add_marker(&mut self, dir: String)
        ensures
            final(self).markers@ == old(self).markers@.push(dir),
            final(self).patterns@ == old(self).patterns@,
    {
        self.markers.push(dir);
    }

    /// Adds a configured pattern.
    pub fn add_pattern(&mut self, pattern: String)
        ensures
            final(self).patterns@ == old(self).patterns@.push(pattern),
            final(self).markers@ == old(self).markers@,
    {
        self.patterns.push(pattern);
    }

    /// Whether `p` is protected, and by what.
    pub fn is_protected(&self, p: &str) -> (r: Option<ProtectionSource>)
        ensures
            r == self.protection_of(p@),
    {
        let mut i: usize = 0;
        while i < self.markers.len()
            invariant
                i <= self.markers@.len(),
                forall|k: int| 0 <= k < i ==> !covers(#[trigger] self.markers@[k]@, p@),
            decreases self.markers.len() - i,
        {
            if covers_exec(self.markers[i].as_str(), p) {
                return Some(ProtectionSource::MarkerFile);
            }
            i = i + 1;
        }
        let mut j: usize = 0;
        while j < self.patterns.len()
            invariant
                j <= self.patterns@.len(),
                !self.marker_protects(p@),
                forall|k: int| 0 <= k < j ==> !pattern_matches(#[trigger] self.patterns@[k]@, p@),
            decreases self.patterns.len() - j,
        {
            if pattern_matches_exec(self.patterns[j].as_str(), p) {
                return Some(ProtectionSource::ConfigPattern);
            }
            j = j + 1;
        }
        None
    }
}

pub fn covers_exec(root: &str, p: &str) -> (r: bool)
    ensures
        r == covers(root@, p@),
{
    if str_eq(root, p) {
        return true;
    }
    let n = root.unicode_len();
    let m = p.unicode_len();
    if m <= n {
        return false;
    }
    if !starts_with(p, root) {
        proof {
            if has_prefix(p@, root@ + seq!['/']) {
                assert(p@.subrange(0, n as int) =~= (root@ + seq!['/']).subrange(0, n as int));
                assert((root@ + seq!['/']).subrange(0, n as int) =~= root@);
            }
        }
        return false;
    }
    let c = p.get_char(n);
    proof {
        let q = root@ + seq!['/'];
        if c == '/' {
            assert(p@.subrange(0, n as int + 1) =~= q);
        } else if has_prefix(p@, q) {
            assert(p@.subrange(0, n as int + 1)[n as int] == q[n as int]);
        }
    }
    c == '/'
}

fn pattern_matches_exec(pat: &str, p: &str) -> (r: bool)
    ensures
        r == pattern_matches(pat@, p@),
{
    let n = pat.unicode_len();
    if n > 0 && pat.get_char(n - 1) == '*' {
        let stem = pat.substring_char(0, n - 1);
        proof {
            assert(stem@ =~= pat@.drop_last());
        }
        starts_with(p, stem)
    } else {
        covers_exec(pat, p)
    }
}

/// Descendants inherit protection: whatever covers a path covers every path
/// below it.
pub proof fn lemma_descendant_protected(reg: ProtectionRegistry, p: Seq<char>, rest: Seq<char>)
    requires
        reg.protection_of(p).is_some(),
    ensures
        reg.protection_of(p + seq!['/'] + rest).is_some(),
{
    let q = p + seq!['/'] + rest;
    if reg.marker_protects(p) {
        let i = choose|i: int| 0 <= i < reg.markers@.len() && covers(#[trigger] reg.markers@[i]@, p);
        lemma_covers_descendant(reg.markers@[i]@, p, rest);
    } else {
        let i = choose|i: int| 0 <= i < reg.patterns@.len() && pattern_matches(#[trigger] reg.patterns@[i]@, p);
        let pat = reg.patterns@[i]@;
        if pat.len() > 0 && pat.last() == '*' {
            let stem = pat.drop_last();
            assert(q.subrange(0, stem.len() as int) =~= p.subrange(0, stem.len() as int));
        } else {
            lemma_covers_descendant(pat, p, rest);
        }
    }
}

proof fn lemma_covers_descendant(root: Seq<char>, p: Seq<char>, rest: Seq<char>)
    requires
        covers(root, p),
    ensures
        covers(root, p + seq!['/'] + rest),
{
    let q = p + seq!['/'] + rest;
    let r = root + seq!['/'];
    if p == root {
        assert(q.subrange(0, r.len() as int) =~= r);
    } else {
        assert(q.subrange(0, r.len() as int) =~= p.subrange(0, r.len() as int));
    }
}

/// Ancestors are not protected automatically: a registry holding a single
/// marker directory does not protect that directory's parent.
pub proof fn lemma_ancestor_not_protected(reg: ProtectionRegistry, parent: Seq<char>, name: Seq<char>)
    requires
        reg.markers@.len() == 1,
        reg.markers@[0]@ == parent + seq!['/'] + name,
    ensures
        !reg.marker_protects(parent),
{
    let dir = reg.markers@[0];
    assert(!covers(dir@, parent)) by {
        assert(parent.len() < dir@.len());
        if parent == dir@ {
            assert(false);
        }
    }
}

} // verus!
