//! Pattern registry: classifies a directory by its name and structural
//! signals into an artifact category with confidence. First match wins.

use vstd::prelude::*;
use crate::scoring::{ArtifactCategory, ArtifactClassification, StructuralSignals};
use crate::text::{has_prefix, starts_with, str_eq};

verus! {

/// Last component of a path (empty when the path ends in a separator).
pub open spec fn base_name(p: Seq<char>) -> Seq<char>
    decreases p.len(),
{
    if p.len() == 0 || p.last() == '/' {
        Seq::empty()
    } else {
        base_name(p.drop_last()).push(p.last())
    }
}

proof fn lemma_base_name_split(p: Seq<char>, j: int)
    requires
        0 <= j <= p.len(),
        j == 0 || p[j - 1] == '/',
        forall|k: int| j <= k < p.len() ==> p[k] != '/',
    ensures
        base_name(p) == p.subrange(j, p.len() as int),
    decreases p.len(),
{
    if p.len() == j {
        if j > 0 {
            assert(p.last() == '/');
        }
        assert(p.subrange(j, p.len() as int) =~= Seq::<char>::empty());
    } else {
        let q = p.drop_last();
        assert forall|k: int| j <= k < q.len() implies q[k] != '/' by {
            assert(q[k] == p[k]);
        }
        if j > 0 {
            assert(q[j - 1] == p[j - 1]);
        }
        lemma_base_name_split(q, j);
        assert(p.subrange(j, p.len() as int) =~= q.subrange(j, q.len() as int).push(p.last()));
    }
}

/// Last path component.
pub fn file_name(p: &str) -> (r: &str)
    ensures
        r@ == base_name(p@),
{
    let n = p.unicode_len();
    let mut j: usize = n;
    while j > 0 && p.get_char(j - 1) != '/'
        invariant
            n == p@.len(),
            j <= n,
            forall|k: int| j <= k < n ==> p@[k] != '/',
        decreases j,
    {
        j = j - 1;
    }
    proof {
        lemma_base_name_split(p@, j as int);
    }
    p.substring_char(j, n)
}

/// One classification rule.
#[derive(Debug, Clone, PartialEq, Eq)]
pub struct ArtifactPattern {
    pub name: String,
    /// Text the last path component must equal (or start with, when `prefix`).
    pub stem: String,
    pub prefix: bool,
    pub category: ArtifactCategory,
    /// Signals that must all be present for full structural confidence.
    pub required: StructuralSignals,
    pub name_confidence: u32,
    pub structural_confidence: u32,
}

pub open spec fn name_matches(pat: ArtifactPattern, base: Seq<char>) -> bool {
    if pat.prefix { has_prefix(base, pat.stem@) } else { base == pat.stem@ }
}

/// Every signal the requirement names is present.
pub open spec fn signals_satisfy(req: StructuralSignals, s: StructuralSignals) -> bool {
    (req.has_incremental ==> s.has_incremental) && (req.has_deps ==> s.has_deps)
        && (req.has_build ==> s.has_build) && (req.has_fingerprint ==> s.has_fingerprint)
        && (req.has_git ==> s.has_git) && (req.has_cargo_toml ==> s.has_cargo_toml)
        && (req.mostly_object_files ==> s.mostly_object_files)
}

/// Classification by a matching pattern: structural confidence is full when
/// the required signals are present and a quarter otherwise; the combined
/// confidence weighs name 60% and structure 40%.
pub open spec fn classify_with(pat: ArtifactPattern, s: StructuralSignals) -> ArtifactClassification {
    let nc = if pat.name_confidence > 1000 { 1000 } else { pat.name_confidence as int };
    let sc0 = if pat.structural_confidence > 1000 { 1000 } else { pat.structural_confidence as int };
    let sc = if signals_satisfy(pat.required, s) { sc0 } else { sc0 / 4 };
    ArtifactClassification {
        pattern_name: pat.name,
        category: pat.category,
        name_confidence: nc as u32,
        structural_confidence: sc as u32,
        combined_confidence: ((6 * nc + 4 * sc) / 10) as u32,
    }
}

/// Index of the first pattern (from `i` on) whose name rule matches.
pub open spec fn first_match(pats: Seq<ArtifactPattern>, base: Seq<char>, i: int) -> Option<int>
    decreases pats.len() - i,
{
    if i < 0 || i >= pats.len() {
        None
    } else if name_matches(pats[i], base) {
        Some(i)
    } else {
        first_match(pats, base, i + 1)
    }
}

/// An ordered list of patterns.
#[derive(Debug, Clone, PartialEq, Eq)]
pub struct ArtifactPatternRegistry {
    pub patterns: Vec<ArtifactPattern>,
}

impl ArtifactPatternRegistry {
    /// The classification of a path: the first matching pattern's, else Unknown.
    pub open spec fn classify_spec(&self, path: Seq<char>, s: StructuralSignals) -> Option<ArtifactClassification> {
        match first_match(self.patterns@, base_name(path), 0) {
            Some(i) => Some(classify_with(self.patterns@[i], s)),
            None => None,
        }
    }

    /// Classifies a path; `None` stands for no match.
    fn classify_opt(&self, path: &str, s: &StructuralSignals) -> (r: Option<ArtifactClassification>)
        ensures
            r == self.classify_spec(path@, *s),
    {
        let base = file_name(path);
        let mut i: usize = 0;
        while i < self.patterns.len()
            invariant
                i <= self.patterns@.len(),
                base@ == base_name(path@),
                first_match(self.patterns@, base@, 0) == first_match(self.patterns@, base@, i as int),
            decreases self.patterns.len() - i,
        {
            let p = &self.patterns[i];
            let m = if p.prefix { starts_with(base, p.stem.as_str()) } else { str_eq(base, p.stem.as_str()) };
            if m {
                return Some(classify_pattern(p, s));
            }
            i = i + 1;
        }
        None
    }

    /// Classifies a path by its last component and structural signals.
    pub fn classify(&self, path: &str, s: &StructuralSignals) -> (r: ArtifactClassification)
        ensures
            self.classify_spec(path@, *s) matches Some(c) ==> r == c,
            self.classify_spec(path@, *s) is None ==> {
                &&& r.category == ArtifactCategory::Unknown
                &&& r.pattern_name@ == "unknown"@
                &&& r.name_confidence == 0 && r.structural_confidence == 0 && r.combined_confidence == 0
            },
    {
        match self.classify_opt(path, s) {
            Some(c) => c,
            None => ArtifactClassification {
                pattern_name: String::from_str("unknown"),
                category: ArtifactCategory::Unknown,
                name_confidence: 0,
                structural_confidence: 0,
                combined_confidence: 0,
            },
        }
    }

    /// Adds a pattern after the existing ones.
    pub fn push(&mut self, p: ArtifactPattern)
        ensures
            final(self).patterns@ == old(self).patterns@.push(p),
    {
        self.patterns.push(p);
    }
}

fn classify_pattern(p: &ArtifactPattern, s: &StructuralSignals) -> (r: ArtifactClassification)
    ensures
        r == classify_with(*p, *s),
{
    let nc: u32 = if p.name_confidence > 1000 { 1000 } else { p.name_confidence };
    let sc0: u32 = if p.structural_confidence > 1000 { 1000 } else { p.structural_confidence };
    let q = &p.required;
    let ok = (!q.has_incremental || s.has_incremental) && (!q.has_deps || s.has_deps)
        && (!q.has_build || s.has_build) && (!q.has_fingerprint || s.has_fingerprint)
        && (!q.has_git || s.has_git) && (!q.has_cargo_toml || s.has_cargo_toml)
        && (!q.mostly_object_files || s.mostly_object_files);
    let sc: u32 = if ok { sc0 } else { sc0 / 4 };
    ArtifactClassification {
        pattern_name: p.name.clone(),
        category: p.category,
        name_confidence: nc,
        structural_confidence: sc,
        combined_confidence: (6 * nc + 4 * sc) / 10,
    }
}

fn pattern(
    name: &str,
    stem: &str,
    prefix: bool,
    category: ArtifactCategory,
    required: StructuralSignals,
    name_confidence: u32,
    structural_confidence: u32,
) -> (r: ArtifactPattern)
    ensures
        r.name@ == name@,
        r.stem@ == stem@,
        r.prefix == prefix,
        r.category == category,
        r.required == required,
        r.name_confidence == name_confidence,
        r.structural_confidence == structural_confidence,
{
    ArtifactPattern {
        name: String::from_str(name),
        stem: String::from_str(stem),
        prefix,
        category,
        required,
        name_confidence,
        structural_confidence,
    }
}

fn no_signals() -> (r: StructuralSignals)
    ensures
        !r.has_incremental && !r.has_deps && !r.has_build && !r.has_fingerprint && !r.has_git
            && !r.has_cargo_toml && !r.mostly_object_files,
{
    StructuralSignals {
        has_incremental: false,
        has_deps: false,
        has_build: false,
        has_fingerprint: false,
        has_git: false,
        has_cargo_toml: false,
        mostly_object_files: false,
    }
}

impl ArtifactPatternRegistry {
    /// The built-in rules, in priority order: Rust `target` directories
    /// (named `target`, `.target*` or `cargo-target*`), `node_modules`,
    /// Python caches, build outputs, `.cache`, and temporary directories.
    pub fn default_registry() -> (r: Self)
        ensures
            r.patterns@.len() == 10,
            r.patterns@[0].stem@ == "target"@ && !r.patterns@[0].prefix
                && r.patterns@[0].category == ArtifactCategory::RustTarget,
            r.patterns@[3].stem@ == "node_modules"@ && r.patterns@[3].category == ArtifactCategory::NodeModules,
    {
        let mut rust = no_signals();
        rust.has_deps = true;
        let mut objs = no_signals();
        objs.mostly_object_files = true;
        let mut pats: Vec<ArtifactPattern> = Vec::new();
        pats.push(pattern("rust-target", "target", false, ArtifactCategory::RustTarget, rust, 800, 950));
        pats.push(pattern("rust-target", ".target", true, ArtifactCategory::RustTarget, rust, 900, 950));
        pats.push(pattern("rust-target", "cargo-target", true, ArtifactCategory::RustTarget, rust, 900, 950));
        pats.push(pattern("node-modules", "node_modules", false, ArtifactCategory::NodeModules, no_signals(), 950, 900));
        pats.push(pattern("python-cache", "__pycache__", false, ArtifactCategory::PythonCache, no_signals(), 950, 900));
        pats.push(pattern("python-cache", ".pytest_cache", false, ArtifactCategory::PythonCache, no_signals(), 900, 800));
        pats.push(pattern("build-output", "build", false, ArtifactCategory::BuildOutput, objs, 600, 700));
        pats.push(pattern("build-output", "dist", false, ArtifactCategory::BuildOutput, objs, 550, 700));
        pats.push(pattern("cache-dir", ".cache", false, ArtifactCategory::CacheDir, no_signals(), 700, 600));
        pats.push(pattern("temp-dir", "tmp", true, ArtifactCategory::TempDir, no_signals(), 600, 500));
        ArtifactPatternRegistry { patterns: pats }
    }
}

/// Some child is named `name`.
pub open spec fn has_child(children: Seq<String>, name: Seq<char>) -> bool {
    exists|i: int| 0 <= i < children.len() && (#[trigger] children[i])@ == name
}

fn has_child_exec(children: &Vec<String>, name: &str) -> (r: bool)
    ensures
        r == has_child(children@, name@),
{
    let mut i: usize = 0;
    while i < children.len()
        invariant
            i <= children@.len(),
            forall|k: int| 0 <= k < i ==> (#[trigger] children@[k])@ != name@,
        decreases children.len() - i,
    {
        if str_eq(children[i].as_str(), name) {
            return true;
        }
        i = i + 1;
    }
    false
}

/// Structural signals of a directory from its children's names (one level
/// down) and the share of object files among its files, in permille.
pub fn signals_from_children(children: &Vec<String>, object_file_permille: u32) -> (r: StructuralSignals)
    ensures
        r.has_incremental == has_child(children@, "incremental"@),
        r.has_deps == has_child(children@, "deps"@),
        r.has_build == has_child(children@, "build"@),
        r.has_fingerprint == has_child(children@, ".fingerprint"@),
        r.has_git == has_child(children@, ".git"@),
        r.has_cargo_toml == has_child(children@, "Cargo.toml"@),
        r.mostly_object_files == (object_file_permille > 500),
{
    StructuralSignals {
        has_incremental: has_child_exec(children, "incremental"),
        has_deps: has_child_exec(children, "deps"),
        has_build: has_child_exec(children, "build"),
        has_fingerprint: has_child_exec(children, ".fingerprint"),
        has_git: has_child_exec(children, ".git"),
        has_cargo_toml: has_child_exec(children, "Cargo.toml"),
        mostly_object_files: object_file_permille > 500,
    }
}

/// A compiled-object file name: ends in `.o`, `.rlib` or `.rmeta`.
pub open spec fn is_object_name(n: Seq<char>) -> bool {
    has_suffix(n, ".o"@) || has_suffix(n, ".rlib"@) || has_suffix(n, ".rmeta"@)
}

pub open spec fn has_suffix(s: Seq<char>, x: Seq<char>) -> bool {
    x.len() <= s.len() && s.subrange(s.len() - x.len(), s.len() as int) == x
}

fn ends_with(s: &str, x: &str) -> (r: bool)
    ensures
        r == has_suffix(s@, x@),
{
    let n = s.unicode_len();
    let m = x.unicode_len();
    if m > n {
        return false;
    }
    let tail = s.substring_char(n - m, n);
    str_eq(tail, x)
}

/// Number of object-file names among `names`.
pub open spec fn count_objects(names: Seq<String>) -> nat
    decreases names.len(),
{
    if names.len() == 0 {
        0
    } else {
        count_objects(names.drop_last()) + if is_object_name(names.last()@) { 1nat } else { 0nat }
    }
}

/// Share (permille) of object files among the files of a directory; 0 when
/// it has no files.
pub fn object_file_permille(file_names: &Vec<String>) -> (r: u32)
    ensures
        r as int == if file_names@.len() == 0 {
            0
        } else {
            (count_objects(file_names@) * 1000) as int / file_names@.len() as int
        },
        r <= 1000,
{
    let mut k: u64 = 0;
    let mut i: usize = 0;
    while i < file_names.len()
        invariant
            i <= file_names@.len(),
            k as nat == count_objects(file_names@.subrange(0, i as int)),
            k <= i,
        decreases file_names.len() - i,
    {
        proof {
            assert(file_names@.subrange(0, i as int + 1).drop_last() =~= file_names@.subrange(0, i as int));
        }
        let n = file_names[i].as_str();
        if ends_with(n, ".o") || ends_with(n, ".rlib") || ends_with(n, ".rmeta") {
            k = k + 1;
        }
        i = i + 1;
    }
    proof {
        assert(file_names@.subrange(0, file_names@.len() as int) =~= file_names@);
    }
    if file_names.len() == 0 {
        0
    } else {
        let len = file_names.len() as u64;
        proof {
            assert(k as int * 1000 <= len as int * 1000) by (nonlinear_arith) requires k <= len;
            vstd::arithmetic::div_mod::lemma_div_is_ordered(k as int * 1000, len as int * 1000, len as int);
            vstd::arithmetic::div_mod::lemma_div_multiples_vanish(1000, len as int);
            assert(1000 * len as int == len as int * 1000) by (nonlinear_arith);
        }
        ((k as u128 * 1000) / len as u128) as u32
    }
}

} // verus!
