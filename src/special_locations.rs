//! Registry of special locations (`/tmp`, `/dev/shm`, RAM-backed mounts and
//! custom paths) with their free-space buffers and scan cadence.

use vstd::prelude::*;
use crate::text::str_eq;

verus! {

/// Kind of special location.
#[derive(Debug, Clone, PartialEq, Eq)]
pub enum SpecialKind {
    Tmpfs,
    DevShm,
    Ramfs,
    UserTmp,
    Custom(String),
}

/// A watched location.
#[derive(Debug, Clone, PartialEq, Eq)]
pub struct SpecialLocation {
    pub path: String,
    pub kind: SpecialKind,
    /// Free space (percent) below which the location needs attention.
    pub buffer_pct: u8,
    pub scan_interval_secs: u64,
    pub priority: u8,
}

impl SpecialLocation {
    /// Below its buffer: free space (basis points) under `buffer_pct` percent.
    pub fn needs_attention(&self, free_bp: u32) -> (r: bool)
        ensures
            r == (free_bp < self.buffer_pct as int * 100),
    {
        free_bp < self.buffer_pct as u32 * 100
    }

    /// Never scanned, or the scan interval has passed since the last scan.
    pub fn scan_due(&self, last_scan: Option<u64>, now: u64) -> (r: bool)
        ensures
            r == match last_scan {
                None => true,
                Some(l) => (if now >= l { now - l } else { 0 }) >= self.scan_interval_secs,
            },
    {
        match last_scan {
            None => true,
            Some(l) => {
                let elapsed = if now >= l { now - l } else { 0 };
                elapsed >= self.scan_interval_secs
            },
        }
    }

    /// A verified copy.
    pub fn duplicate(&self) -> (r: Self)
        ensures
            r == *self,
    {
        SpecialLocation {
            path: self.path.clone(),
            kind: match &self.kind {
                SpecialKind::Tmpfs => SpecialKind::Tmpfs,
                SpecialKind::DevShm => SpecialKind::DevShm,
                SpecialKind::Ramfs => SpecialKind::Ramfs,
                SpecialKind::UserTmp => SpecialKind::UserTmp,
                SpecialKind::Custom(s) => SpecialKind::Custom(s.clone()),
            },
            buffer_pct: self.buffer_pct,
            scan_interval_secs: self.scan_interval_secs,
            priority: self.priority,
        }
    }
}

/// A mount as the platform reports it.
#[derive(Debug, Clone, PartialEq, Eq)]
pub struct MountPoint {
    pub path: String,
    pub fs_type: String,
    pub is_ram_backed: bool,
}

/// Locations ordered by descending priority, one per path.
#[derive(Debug, Clone, PartialEq, Eq)]
pub struct SpecialLocationRegistry {
    pub locations: Vec<SpecialLocation>,
}

pub open spec fn by_priority(s: Seq<SpecialLocation>) -> bool {
    forall|i: int, j: int| 0 <= i < j < s.len() ==> (#[trigger] s[i]).priority >= (#[trigger] s[j]).priority
}

pub open spec fn unique_paths(s: Seq<SpecialLocation>) -> bool {
    forall|i: int, j: int| 0 <= i < j < s.len() ==> (#[trigger] s[i]).path@ != (#[trigger] s[j]).path@
}

/// `x` is `s[m]`, the first location of `s` with its path.
pub open spec fn first_at(s: Seq<SpecialLocation>, m: int, x: SpecialLocation) -> bool {
    0 <= m < s.len() && s[m] == x && forall|j: int| 0 <= j < m ==> (#[trigger] s[j]).path@ != x.path@
}

/// Where `x` first stands in `s` (by its path).
pub open spec fn source_index(s: Seq<SpecialLocation>, x: SpecialLocation) -> int {
    choose|m: int| first_at(s, m, x)
}

proof fn lemma_first_at_unique(s: Seq<SpecialLocation>, m1: int, m2: int, x: SpecialLocation)
    requires
        first_at(s, m1, x),
        first_at(s, m2, x),
    ensures
        m1 == m2,
{
    if m1 < m2 {
        assert(s[m1].path@ == x.path@);
    } else if m2 < m1 {
        assert(s[m2].path@ == x.path@);
    }
}

pub open spec fn has_path(s: Seq<SpecialLocation>, p: Seq<char>) -> bool {
    exists|i: int| 0 <= i < s.len() && (#[trigger] s[i]).path@ == p
}

fn find_path(s: &Vec<SpecialLocation>, p: &str) -> (r: bool)
    ensures
        r == has_path(s@, p@),
{
    let mut i: usize = 0;
    while i < s.len()
        invariant
            i <= s@.len(),
            forall|k: int| 0 <= k < i ==> (#[trigger] s@[k]).path@ != p@,
        decreases s.len() - i,
    {
        if str_eq(s[i].path.as_str(), p) {
            return true;
        }
        i = i + 1;
    }
    false
}

impl SpecialLocationRegistry {
    /// Keeps the first location of each path and orders them by descending
    /// priority (equal priorities keep their input order).
    #[verifier::rlimit(100)]
    pub fn new(locations: Vec<SpecialLocation>) -> (r: Self)
        ensures
            by_priority(r.locations@),
            unique_paths(r.locations@),
            forall|i: int| 0 <= i < r.locations@.len() ==> locations@.contains(#[trigger] r.locations@[i]),
            forall|i: int| 0 <= i < locations@.len() ==> has_path(r.locations@, (#[trigger] locations@[i]).path@),
            forall|k: int| 0 <= k < r.locations@.len()
                ==> first_at(locations@, source_index(locations@, #[trigger] r.locations@[k]), r.locations@[k]),
            forall|a: int, b: int| 0 <= a < b < r.locations@.len() && (#[trigger] r.locations@[a]).priority
                == (#[trigger] r.locations@[b]).priority
                ==> source_index(locations@, r.locations@[a]) < source_index(locations@, r.locations@[b]),
    {
        let mut out: Vec<SpecialLocation> = Vec::new();
        let mut i: usize = 0;
        let ghost mut src: Seq<int> = Seq::empty();
        while i < locations.len()
            invariant
                i <= locations@.len(),
                by_priority(out@),
                unique_paths(out@),
                forall|k: int| 0 <= k < out@.len() ==> locations@.contains(#[trigger] out@[k]),
                forall|k: int| 0 <= k < i ==> has_path(out@, (#[trigger] locations@[k]).path@),
                src.len() == out@.len(),
                forall|k: int| 0 <= k < out@.len() ==> #[trigger] src[k] < i,
                forall|k: int| 0 <= k < out@.len() ==> first_at(locations@, src[k], #[trigger] out@[k]),
                forall|a: int, b: int| 0 <= a < b < out@.len() && (#[trigger] out@[a]).priority == (#[trigger] out@[b]).priority
                    ==> src[a] < src[b],
            decreases locations.len() - i,
        {
            let loc = &locations[i];
            if !find_path(&out, loc.path.as_str()) {
                let mut pos: usize = 0;
                while pos < out.len() && out[pos].priority >= loc.priority
                    invariant
                        pos <= out@.len(),
                        forall|k: int| 0 <= k < pos ==> (#[trigger] out@[k]).priority >= loc.priority,
                        src.len() == out@.len(),
                        forall|k: int| 0 <= k < out@.len() ==> #[trigger] src[k] < i,
                forall|k: int| 0 <= k < out@.len() ==> first_at(locations@, src[k], #[trigger] out@[k]),
                        forall|a: int, b: int| 0 <= a < b < out@.len() && (#[trigger] out@[a]).priority == (#[trigger] out@[b]).priority
                            ==> src[a] < src[b],
                    decreases out.len() - pos,
                {
                    pos = pos + 1;
                }
                let ghost before = out@;
                let ghost sbefore = src;
                let item = loc.duplicate();
                out.insert(pos, item);
                proof {
                    src = sbefore.insert(pos as int, i as int);
                    assert(first_at(locations@, i as int, *loc)) by {
                        assert forall|j: int| 0 <= j < i implies (#[trigger] locations@[j]).path@ != loc.path@ by {
                            assert(has_path(before, locations@[j].path@));
                        }
                    }
                    assert forall|k: int| 0 <= k < out@.len() implies src[k] < i + 1 && #[trigger] first_at(locations@, src[k], out@[k]) by {
                        if k == pos {
                            assert(out@[k] == *loc && src[k] == i);
                        } else if k < pos {
                            assert(out@[k] == before[k] && src[k] == sbefore[k]);
                            assert(sbefore[k] < i && first_at(locations@, sbefore[k], before[k]));
                        } else if k > pos {
                            assert(out@[k] == before[k - 1] && src[k] == sbefore[k - 1]);
                            assert(sbefore[k - 1] < i && first_at(locations@, sbefore[k - 1], before[k - 1]));
                        }
                    }
                    assert forall|a: int, b: int| 0 <= a < b < out@.len() && (#[trigger] out@[a]).priority == (#[trigger] out@[b]).priority
                        implies src[a] < src[b] by {
                        if a < pos && b == pos {
                            assert(src[a] == sbefore[a]);
                            assert(sbefore[a] < i && first_at(locations@, sbefore[a], before[a]));
                        } else if a == pos && b > pos {
                            assert(out@[b] == before[b - 1]);
                            assert(before[b - 1].priority < loc.priority) by {
                                if b - 1 > pos as int {
                                    assert(before[pos as int].priority >= before[b - 1].priority);
                                }
                            }
                        } else if a < pos && b > pos {
                            assert(out@[a] == before[a] && out@[b] == before[b - 1]);
                            assert(src[a] == sbefore[a] && src[b] == sbefore[b - 1]);
                            assert(before[a].priority == before[b - 1].priority);
                        } else if b < pos {
                            assert(out@[a] == before[a] && out@[b] == before[b]);
                            assert(src[a] == sbefore[a] && src[b] == sbefore[b]);
                            assert(before[a].priority == before[b].priority);
                        } else {
                            assert(out@[a] == before[a - 1] && out@[b] == before[b - 1]);
                            assert(src[a] == sbefore[a - 1] && src[b] == sbefore[b - 1]);
                            assert(before[a - 1].priority == before[b - 1].priority);
                        }
                    }
                    assert(locations@.contains(*loc)) by {
                        assert(locations@[i as int] == *loc);
                    }
                    assert forall|a: int, b: int| 0 <= a < b < out@.len() implies (#[trigger] out@[a]).priority >= (#[trigger] out@[b]).priority by {
                        if a < pos && b == pos {
                        } else if a == pos && b > pos {
                            assert(out@[b] == before[b - 1]);
                            if b - 1 == pos as int {
                            } else {
                                assert(before[pos as int].priority >= before[b - 1].priority);
                            }
                        } else if a < pos && b > pos {
                            assert(out@[a] == before[a] && out@[b] == before[b - 1]);
                        } else if b < pos {
                            assert(out@[a] == before[a] && out@[b] == before[b]);
                        } else {
                            assert(out@[a] == before[a - 1] && out@[b] == before[b - 1]);
                        }
                    }
                    assert forall|a: int, b: int| 0 <= a < b < out@.len() implies (#[trigger] out@[a]).path@ != (#[trigger] out@[b]).path@ by {
                        if a == pos as int {
                            assert(out@[b] == before[b - 1]);
                        } else if b == pos as int {
                            assert(out@[a] == before[a]);
                        } else {
                            let a0 = if a < pos { a } else { a - 1 };
                            let b0 = if b < pos { b } else { b - 1 };
                            assert(out@[a] == before[a0] && out@[b] == before[b0]);
                        }
                    }
                    assert forall|k: int| 0 <= k < out@.len() implies locations@.contains(#[trigger] out@[k]) by {
                        if k < pos {
                            assert(out@[k] == before[k]);
                        } else if k > pos {
                            assert(out@[k] == before[k - 1]);
                        }
                    }
                    assert forall|k: int| 0 <= k <= i implies has_path(out@, (#[trigger] locations@[k]).path@) by {
                        if k == i {
                            assert(out@[pos as int].path@ == loc.path@);
                        } else {
                            let t = choose|t: int| 0 <= t < before.len() && (#[trigger] before[t]).path@ == locations@[k].path@;
                            let t2 = if t < pos { t } else { t + 1 };
                            assert(out@[t2] == before[t]);
                        }
                    }
                }
            }
            i = i + 1;
        }
        proof {
            assert forall|k: int| 0 <= k < out@.len()
                implies first_at(locations@, source_index(locations@, #[trigger] out@[k]), out@[k]) by {
                assert(first_at(locations@, src[k], out@[k]));
                lemma_first_at_unique(locations@, src[k], source_index(locations@, out@[k]), out@[k]);
            }
            assert forall|a: int, b: int| 0 <= a < b < out@.len() && (#[trigger] out@[a]).priority
                == (#[trigger] out@[b]).priority
                implies source_index(locations@, out@[a]) < source_index(locations@, out@[b]) by {
                assert(first_at(locations@, src[a], out@[a]));
                assert(first_at(locations@, src[b], out@[b]));
                lemma_first_at_unique(locations@, src[a], source_index(locations@, out@[a]), out@[a]);
                lemma_first_at_unique(locations@, src[b], source_index(locations@, out@[b]), out@[b]);
            }
        }
        SpecialLocationRegistry { locations: out }
    }

    pub fn all(&self) -> (r: &Vec<SpecialLocation>)
        ensures
            r@ == self.locations@,
    {
        &self.locations
    }
}

fn location(path: String, kind: SpecialKind, buffer_pct: u8, scan_interval_secs: u64, priority: u8) -> (r: SpecialLocation)
    ensures
        r == (SpecialLocation { path, kind, buffer_pct, scan_interval_secs, priority }),
{
    SpecialLocation { path, kind, buffer_pct, scan_interval_secs, priority }
}

/// The location registered for a RAM-backed mount: `/dev/shm` 20% every
/// 3 s at priority 255; `/tmp` as tmpfs; ramfs 18% every 4 s at 220; any
/// other tmpfs 15% every 5 s at 200.
pub open spec fn mount_location_ok(m: MountPoint, l: SpecialLocation) -> bool {
    &&& l.path@ == m.path@
    &&& if m.path@ == "/dev/shm"@ {
        l.kind == SpecialKind::DevShm && l.buffer_pct == 20 && l.scan_interval_secs == 3 && l.priority == 255
    } else if m.path@ == "/tmp"@ || m.fs_type@ != "ramfs"@ {
        l.kind == SpecialKind::Tmpfs && l.buffer_pct == 15 && l.scan_interval_secs == 5 && l.priority == 200
    } else {
        l.kind == SpecialKind::Ramfs && l.buffer_pct == 18 && l.scan_interval_secs == 4 && l.priority == 220
    }
}

/// The location registered for a custom path: 15% every 5 s at priority 140.
pub open spec fn custom_location_ok(p: Seq<char>, l: SpecialLocation) -> bool {
    &&& l.path@ == p
    &&& l.kind matches SpecialKind::Custom(c) && c@ == p
    &&& l.buffer_pct == 15 && l.scan_interval_secs == 5 && l.priority == 140
}

/// The fallback `/tmp` location: user temp, 15% every 5 s at priority 160.
pub open spec fn user_tmp_ok(l: SpecialLocation) -> bool {
    l.path@ == "/tmp"@ && l.kind == SpecialKind::UserTmp && l.buffer_pct == 15 && l.scan_interval_secs == 5
        && l.priority == 160
}

/// A location discovery may register: one of a RAM-backed mount, one of a
/// custom path, or the fallback `/tmp`.
pub open spec fn discovered(mounts: Seq<MountPoint>, customs: Seq<String>, l: SpecialLocation) -> bool {
    (exists|i: int| 0 <= i < mounts.len() && mounts[i].is_ram_backed && #[trigger] mount_location_ok(mounts[i], l))
        || (exists|j: int| 0 <= j < customs.len() && #[trigger] custom_location_ok(customs[j]@, l))
        || user_tmp_ok(l)
}

impl SpecialLocationRegistry {
    /// Builds the registry from the platform's mounts and custom paths:
    /// RAM-backed mounts (`/dev/shm` 20% buffer every 3 s, ramfs 18% every
    /// 4 s, other tmpfs 15% every 5 s), custom paths (15%, 5 s), and `/tmp`
    /// as a user temp location when no mount covers it.
    pub fn discover(mounts: &Vec<MountPoint>, custom_paths: &Vec<String>) -> (r: Self)
        ensures
            by_priority(r.locations@),
            unique_paths(r.locations@),
            has_path(r.locations@, "/tmp"@),
            forall|i: int| 0 <= i < custom_paths@.len() ==> has_path(r.locations@, (#[trigger] custom_paths@[i])@),
            forall|i: int| 0 <= i < mounts@.len() && (#[trigger] mounts@[i]).is_ram_backed ==> has_path(r.locations@, mounts@[i].path@),
            forall|k: int| 0 <= k < r.locations@.len() ==> discovered(mounts@, custom_paths@, #[trigger] r.locations@[k]),
    {
        let mut locs: Vec<SpecialLocation> = Vec::new();
        let mut i: usize = 0;
        while i < mounts.len()
            invariant
                i <= mounts@.len(),
                forall|k: int| 0 <= k < i && (#[trigger] mounts@[k]).is_ram_backed ==> has_path(locs@, mounts@[k].path@),
                forall|k: int| 0 <= k < locs@.len() ==> discovered(mounts@, custom_paths@, #[trigger] locs@[k]),
            decreases mounts.len() - i,
        {
            let m = &mounts[i];
            if m.is_ram_backed {
                let loc = if str_eq(m.path.as_str(), "/dev/shm") {
                    location(m.path.clone(), SpecialKind::DevShm, 20, 3, 255)
                } else if str_eq(m.path.as_str(), "/tmp") {
                    location(m.path.clone(), SpecialKind::Tmpfs, 15, 5, 200)
                } else if str_eq(m.fs_type.as_str(), "ramfs") {
                    location(m.path.clone(), SpecialKind::Ramfs, 18, 4, 220)
                } else {
                    location(m.path.clone(), SpecialKind::Tmpfs, 15, 5, 200)
                };
                proof {
                    reveal_strlit("/dev/shm");
                    reveal_strlit("/tmp");
                    assert(mount_location_ok(mounts@[i as int], loc));
                }
                let ghost before = locs@;
                locs.push(loc);
                proof {
                    assert forall|k: int| 0 <= k < locs@.len() implies discovered(mounts@, custom_paths@, #[trigger] locs@[k]) by {
                        if k < before.len() {
                            assert(locs@[k] == before[k]);
                        } else {
                            assert(mounts@[i as int].is_ram_backed && mount_location_ok(mounts@[i as int], locs@[k]));
                        }
                    }
                    assert forall|k: int| 0 <= k <= i && (#[trigger] mounts@[k]).is_ram_backed implies has_path(locs@, mounts@[k].path@) by {
                        if k == i {
                            assert(locs@[before.len() as int].path@ == m.path@);
                        } else {
                            let t = choose|t: int| 0 <= t < before.len() && (#[trigger] before[t]).path@ == mounts@[k].path@;
                            assert(locs@[t] == before[t]);
                        }
                    }
                }
            }
            i = i + 1;
        }
        let mut j: usize = 0;
        while j < custom_paths.len()
            invariant
                j <= custom_paths@.len(),
                forall|k: int| 0 <= k < mounts@.len() && (#[trigger] mounts@[k]).is_ram_backed ==> has_path(locs@, mounts@[k].path@),
                forall|k: int| 0 <= k < j ==> has_path(locs@, (#[trigger] custom_paths@[k])@),
                forall|k: int| 0 <= k < locs@.len() ==> discovered(mounts@, custom_paths@, #[trigger] locs@[k]),
            decreases custom_paths.len() - j,
        {
            let p = &custom_paths[j];
            let ghost before = locs@;
            locs.push(location(p.clone(), SpecialKind::Custom(p.clone()), 15, 5, 140));
            proof {
                assert forall|k: int| 0 <= k < locs@.len() implies discovered(mounts@, custom_paths@, #[trigger] locs@[k]) by {
                    if k < before.len() {
                        assert(locs@[k] == before[k]);
                    } else {
                        assert(custom_location_ok(custom_paths@[j as int]@, locs@[k]));
                    }
                }
                assert forall|k: int| 0 <= k < mounts@.len() && (#[trigger] mounts@[k]).is_ram_backed implies has_path(locs@, mounts@[k].path@) by {
                    let t = choose|t: int| 0 <= t < before.len() && (#[trigger] before[t]).path@ == mounts@[k].path@;
                    assert(locs@[t] == before[t]);
                }
                assert forall|k: int| 0 <= k <= j implies has_path(locs@, (#[trigger] custom_paths@[k])@) by {
                    if k == j {
                        assert(locs@[before.len() as int].path@ == p@);
                    } else {
                        let t = choose|t: int| 0 <= t < before.len() && (#[trigger] before[t]).path@ == custom_paths@[k]@;
                        assert(locs@[t] == before[t]);
                    }
                }
            }
            j = j + 1;
        }
        if !find_path(&locs, "/tmp") {
            let ghost before = locs@;
            locs.push(location(String::from_str("/tmp"), SpecialKind::UserTmp, 15, 5, 160));
            proof {
                assert forall|k: int| 0 <= k < locs@.len() implies discovered(mounts@, custom_paths@, #[trigger] locs@[k]) by {
                    if k < before.len() {
                        assert(locs@[k] == before[k]);
                    }
                }
                assert(locs@[before.len() as int].path@ == "/tmp"@);
                assert forall|k: int| 0 <= k < mounts@.len() && (#[trigger] mounts@[k]).is_ram_backed implies has_path(locs@, mounts@[k].path@) by {
                    let t = choose|t: int| 0 <= t < before.len() && (#[trigger] before[t]).path@ == mounts@[k].path@;
                    assert(locs@[t] == before[t]);
                }
                assert forall|k: int| 0 <= k < custom_paths@.len() implies has_path(locs@, (#[trigger] custom_paths@[k])@) by {
                    let t = choose|t: int| 0 <= t < before.len() && (#[trigger] before[t]).path@ == custom_paths@[k]@;
                    assert(locs@[t] == before[t]);
                }
            }
        }
        let ghost all = locs@;
        let r = SpecialLocationRegistry::new(locs);
        proof {
            assert forall|k: int| 0 <= k < r.locations@.len() implies discovered(mounts@, custom_paths@, #[trigger] r.locations@[k]) by {
                assert(all.contains(r.locations@[k]));
                let t = choose|t: int| 0 <= t < all.len() && all[t] == r.locations@[k];
                assert(discovered(mounts@, custom_paths@, all[t]));
            }
            assert forall|p: Seq<char>| has_path(all, p) implies has_path(r.locations@, p) by {
                let t = choose|t: int| 0 <= t < all.len() && (#[trigger] all[t]).path@ == p;
                assert(has_path(r.locations@, all[t].path@));
            }
        }
        r
    }
}

/// RAM-backed storage: a tmpfs or ramfs filesystem, or `/dev/shm`.
pub fn is_ram_backed(fs_type: &str, mount_path: &str) -> (r: bool)
    ensures
        r == (fs_type@ == "tmpfs"@ || fs_type@ == "ramfs"@ || mount_path@ == "/dev/shm"@),
{
    str_eq(fs_type, "tmpfs") || str_eq(fs_type, "ramfs") || str_eq(mount_path, "/dev/shm")
}

} // verus!
