//! Ballast manager: the ledger of reserved files that can be released under
//! pressure and recreated later. Each file holds a deterministic byte
//! pattern (a generator stream seeded by the file id) and its checksum.
//!
//! The manager decides; writing, reading and unlinking files is left to the
//! caller, which reports back what it read.

use vstd::prelude::*;
use crate::rng::{lcg_iter, lcg_step_exec, wadd};

verus! {

/// Ballast settings.
#[derive(Debug, Clone, Copy, PartialEq, Eq, Structural)]
pub struct BallastConfig {
    pub file_count: u32,
    pub file_size_bytes: u64,
    pub replenish_cooldown_secs: u64,
}

/// `x`, saturated to what a `u64` holds.
pub open spec fn sat_u64(x: int) -> nat {
    if x > u64::MAX { u64::MAX as nat } else if x < 0 { 0 } else { x as nat }
}

fn mul_sat(a: u64, b: u64) -> (r: u64)
    ensures
        r as nat == sat_u64(a as int * b as int),
{
    proof {
        assert(a as int * b as int <= u64::MAX as int * u64::MAX as int) by (nonlinear_arith)
            requires a <= u64::MAX, b <= u64::MAX;
        assert(0 <= a as int * b as int) by (nonlinear_arith);
    }
    let p: u128 = a as u128 * b as u128;
    if p > u64::MAX as u128 { u64::MAX } else { p as u64 }
}

impl Default for BallastConfig {
    /// Ten files of 1 GiB, replenished at most every 30 minutes.
    fn default() -> (r: Self)
        ensures
            r == (BallastConfig { file_count: 10, file_size_bytes: 1_073_741_824, replenish_cooldown_secs: 1800 }),
    {
        BallastConfig { file_count: 10, file_size_bytes: 1_073_741_824, replenish_cooldown_secs: 1800 }
    }
}

/// Generator seed of a file's byte pattern.
pub open spec fn pattern_seed(id: u32) -> u64 {
    (id as u64 + 1) as u64
}

/// Wrapping sum of the first `n` pattern words of a stream.
pub open spec fn checksum_words(seed: u64, n: nat) -> u64
    decreases n,
{
    if n == 0 { 0 } else { wadd(checksum_words(seed, (n - 1) as nat), lcg_iter(seed, n)) }
}

/// Checksum of a ballast file's pattern: one word per 8 bytes.
pub open spec fn pattern_checksum(id: u32, size: u64) -> u64 {
    checksum_words(pattern_seed(id), (size / 8) as nat)
}

/// Seed of the byte pattern of file `id`.
pub fn ballast_seed(id: u32) -> (r: u64)
    ensures
        r == pattern_seed(id),
{
    id as u64 + 1
}

/// Checksum of the pattern of file `id` of `size` bytes.
pub fn ballast_checksum(id: u32, size: u64) -> (r: u64)
    ensures
        r == pattern_checksum(id, size),
{
    let seed = ballast_seed(id);
    let n = size / 8;
    let mut s: u64 = seed;
    let mut acc: u64 = 0;
    let mut k: u64 = 0;
    while k < n
        invariant
            k <= n,
            s == lcg_iter(seed, k as nat),
            acc == checksum_words(seed, k as nat),
        decreases n - k,
    {
        s = lcg_step_exec(s);
        acc = acc.wrapping_add(s);
        k = k + 1;
    }
    acc
}

/// Wrapping sum of a sequence of words.
pub open spec fn wrapping_sum(words: Seq<u64>) -> u64
    decreases words.len(),
{
    if words.len() == 0 { 0 } else { wadd(wrapping_sum(words.drop_last()), words.last()) }
}

/// The first `n` words of the pattern of file `id`, as written to disk
/// (each little-endian, 8 bytes).
pub fn pattern_words(id: u32, n: u64) -> (r: Vec<u64>)
    ensures
        r@.len() == n,
        forall|k: int| 0 <= k < n ==> r@[k] == lcg_iter(pattern_seed(id), (k + 1) as nat),
        wrapping_sum(r@) == checksum_words(pattern_seed(id), n as nat),
{
    let seed = ballast_seed(id);
    let mut s: u64 = seed;
    let mut out: Vec<u64> = Vec::new();
    while (out.len() as u64) < n
        invariant
            out@.len() <= n,
            s == lcg_iter(seed, out@.len() as nat),
            seed == pattern_seed(id),
            forall|k: int| 0 <= k < out@.len() ==> out@[k] == lcg_iter(seed, (k + 1) as nat),
            wrapping_sum(out@) == checksum_words(seed, out@.len() as nat),
        decreases n - out@.len(),
    {
        s = lcg_step_exec(s);
        let ghost before = out@;
        out.push(s);
        proof {
            assert(out@.drop_last() =~= before);
        }
    }
    out
}

/// Checksum of words read back from a ballast file.
pub fn words_checksum(words: &Vec<u64>) -> (r: u64)
    ensures
        r == wrapping_sum(words@),
{
    let mut acc: u64 = 0;
    let mut i: usize = 0;
    while i < words.len()
        invariant
            i <= words@.len(),
            acc == wrapping_sum(words@.subrange(0, i as int)),
        decreases words.len() - i,
    {
        proof {
            assert(words@.subrange(0, i as int + 1).drop_last() =~= words@.subrange(0, i as int));
        }
        acc = acc.wrapping_add(words[i]);
        i = i + 1;
    }
    proof {
        assert(words@.subrange(0, words@.len() as int) =~= words@);
    }
    acc
}

/// One reserved file.
#[derive(Debug, Clone, Copy, PartialEq, Eq, Structural)]
pub struct BallastFile {
    pub id: u32,
    pub size_bytes: u64,
    pub created_at: u64,
    pub released: bool,
    pub checksum: u64,
}

/// Outcome of an integrity check.
#[derive(Debug, Clone, Copy, PartialEq, Eq, Structural)]
pub struct VerifyReport {
    pub files_ok: u32,
    pub files_corrupted: u32,
    pub files_missing: u32,
}

/// Number of files not released.
pub open spec fn count_available(files: Seq<BallastFile>) -> nat
    decreases files.len(),
{
    if files.len() == 0 {
        0
    } else {
        count_available(files.drop_last()) + if files.last().released { 0nat } else { 1nat }
    }
}

proof fn lemma_count_available_le(files: Seq<BallastFile>)
    ensures
        count_available(files) <= files.len(),
    decreases files.len(),
{
    if files.len() > 0 {
        lemma_count_available_le(files.drop_last());
    }
}

proof fn lemma_count_all_unreleased(files: Seq<BallastFile>)
    requires
        forall|i: int| 0 <= i < files.len() ==> !(#[trigger] files[i]).released,
    ensures
        count_available(files) == files.len(),
    decreases files.len(),
{
    if files.len() > 0 {
        lemma_count_all_unreleased(files.drop_last());
    }
}

/// The ledger.
#[derive(Debug, Clone, PartialEq, Eq)]
pub struct BallastManager {
    pub config: BallastConfig,
    pub files: Vec<BallastFile>,
    pub last_replenish: Option<u64>,
}

impl BallastManager {
    /// File `i` has id `i`, the configured size, and the checksum of its pattern.
    pub open spec fn wf(&self) -> bool {
        &&& self.files@.len() <= u32::MAX
        &&& forall|i: int| 0 <= i < self.files@.len() ==> {
            &&& (#[trigger] self.files@[i]).id == i
            &&& self.files@[i].size_bytes == self.config.file_size_bytes
            &&& self.files@[i].checksum == pattern_checksum(i as u32, self.config.file_size_bytes)
        }
    }

    pub open spec fn available_spec(&self) -> nat {
        count_available(self.files@)
    }

    /// Replenishing is allowed: never done, or the cooldown has elapsed.
    pub open spec fn cooldown_over(&self, now: u64) -> bool {
        match self.last_replenish {
            None => true,
            Some(t) => now >= t + self.config.replenish_cooldown_secs,
        }
    }

    /// An empty ledger.
    pub fn new(config: BallastConfig) -> (r: Self)
        ensures
            r.wf(),
            r.config == config,
            r.files@.len() == 0,
            r.last_replenish is None,
    {
        BallastManager { config, files: Vec::new(), last_replenish: None }
    }

    /// Files not released.
    pub fn available_count(&self) -> (r: u32)
        requires
            self.wf(),
        ensures
            r as nat == self.available_spec(),
    {
        let mut i: usize = 0;
        let mut n: u32 = 0;
        while i < self.files.len()
            invariant
                self.wf(),
                i <= self.files@.len(),
                n as nat == count_available(self.files@.subrange(0, i as int)),
            decreases self.files.len() - i,
        {
            proof {
                let pre = self.files@.subrange(0, i as int + 1);
                assert(pre.drop_last() =~= self.files@.subrange(0, i as int));
                lemma_count_available_le(self.files@.subrange(0, i as int));
            }
            if !self.files[i].released {
                n = n + 1;
            }
            i = i + 1;
        }
        proof {
            assert(self.files@.subrange(0, self.files@.len() as int) =~= self.files@);
        }
        n
    }

    /// Bytes that releasing every available file would free (saturated at
    /// `u64::MAX`).
    pub fn releasable_bytes(&self) -> (r: u64)
        requires
            self.wf(),
        ensures
            r as nat == sat_u64(self.available_spec() * self.config.file_size_bytes),
    {
        let n = self.available_count();
        mul_sat(n as u64, self.config.file_size_bytes)
    }
}

/// What provisioning does: the ledger grows to `target` files (never
/// shrinks), the new ones available and created at `now`.
pub open spec fn provisioned(m0: BallastManager, target: nat, now: u64, m1: BallastManager) -> bool {
    &&& m1.config == m0.config
    &&& m1.last_replenish == m0.last_replenish
    &&& m1.files@.len() == if m0.files@.len() >= target { m0.files@.len() } else { target }
    &&& forall|i: int| 0 <= i < m0.files@.len() ==> (#[trigger] m1.files@[i]) == m0.files@[i]
    &&& forall|i: int| m0.files@.len() <= i < m1.files@.len() ==> !(#[trigger] m1.files@[i]).released
        && m1.files@[i].created_at == now
}

/// What releasing does: up to `n` available files are released (the most
/// recently numbered first) and their bytes returned (saturated at `u64::MAX`).
pub open spec fn released_rel(m0: BallastManager, n: nat, m1: BallastManager, bytes: nat) -> bool {
    let freed = if n <= m0.available_spec() { n } else { m0.available_spec() };
    &&& m1.config == m0.config
    &&& m1.last_replenish == m0.last_replenish
    &&& m1.files@.len() == m0.files@.len()
    &&& m1.available_spec() == m0.available_spec() - freed
    &&& bytes == sat_u64(freed * m0.config.file_size_bytes)
}

/// What replenishing does: after the cooldown, every released file is
/// recreated and missing ones up to the configured count are created;
/// during the cooldown nothing changes.
pub open spec fn replenished(m0: BallastManager, now: u64, m1: BallastManager) -> bool {
    &&& m1.config == m0.config
    &&& if m0.cooldown_over(now) {
        &&& m1.last_replenish == Some(now)
        &&& m1.files@.len() == if m0.files@.len() >= m0.config.file_count {
            m0.files@.len()
        } else {
            m0.config.file_count as nat
        }
        &&& forall|i: int| 0 <= i < m1.files@.len() ==> !(#[trigger] m1.files@[i]).released
    } else {
        m1 == m0
    }
}

impl BallastManager {
    fn new_file(&self, id: u32, now: u64) -> (r: BallastFile)
        ensures
            r.id == id,
            r.size_bytes == self.config.file_size_bytes,
            r.checksum == pattern_checksum(id, self.config.file_size_bytes),
            !r.released,
            r.created_at == now,
    {
        BallastFile {
            id,
            size_bytes: self.config.file_size_bytes,
            created_at: now,
            released: false,
            checksum: ballast_checksum(id, self.config.file_size_bytes),
        }
    }

    /// Adds files up to `count` (the configured count if none) and returns
    /// the ids of the files the caller must now write.
    pub fn provision(&mut self, count: Option<u32>, now: u64) -> (created: Vec<u32>)
        requires
            old(self).wf(),
        ensures
            final(self).wf(),
            provisioned(*old(self), match count { Some(c) => c as nat, None => old(self).config.file_count as nat }, now, *final(self)),
            created@.len() == final(self).files@.len() - old(self).files@.len(),
            forall|i: int| 0 <= i < created@.len() ==> created@[i] == old(self).files@.len() + i,
    {
        let target: u32 = match count {
            Some(c) => c,
            None => self.config.file_count,
        };
        let mut created: Vec<u32> = Vec::new();
        let ghost m0 = *self;
        while self.files.len() < target as usize
            invariant
                self.wf(),
                self.config == m0.config,
                self.last_replenish == m0.last_replenish,
                m0.files@.len() <= self.files@.len(),
                self.files@.len() <= if m0.files@.len() >= target { m0.files@.len() } else { target as nat },
                forall|i: int| 0 <= i < m0.files@.len() ==> (#[trigger] self.files@[i]) == m0.files@[i],
                forall|i: int| m0.files@.len() <= i < self.files@.len() ==> !(#[trigger] self.files@[i]).released
                    && self.files@[i].created_at == now,
                created@.len() == self.files@.len() - m0.files@.len(),
                forall|i: int| 0 <= i < created@.len() ==> created@[i] == m0.files@.len() + i,
            decreases target - self.files@.len(),
        {
            let id = self.files.len() as u32;
            let f = self.new_file(id, now);
            self.files.push(f);
            created.push(id);
        }
        created
    }

    /// Releases up to `n` available files, highest id first, and returns the
    /// bytes they held. The caller unlinks them.
    pub fn release(&mut self, n: u32) -> (bytes: u64)
        requires
            old(self).wf(),
        ensures
            final(self).wf(),
            released_rel(*old(self), n as nat, *final(self), bytes as nat),
    {
        let ghost m0 = *self;
        let size = self.config.file_size_bytes;
        let mut freed: u32 = 0;
        let mut i: usize = self.files.len();
        proof {
            assert(self.files@.subrange(0, i as int) =~= self.files@);
        }
        while i > 0 && freed < n
            invariant
                self.wf(),
                self.config == m0.config,
                self.last_replenish == m0.last_replenish,
                self.files@.len() == m0.files@.len(),
                i <= self.files@.len(),
                freed <= n,
                forall|k: int| 0 <= k < i ==> self.files@[k] == m0.files@[k],
                count_available(self.files@) + freed == count_available(m0.files@),
                forall|k: int| i <= k < self.files@.len() ==> (#[trigger] self.files@[k]).released
                    || freed == n,
            decreases i,
        {
            i = i - 1;
            if !self.files[i].released {
                let mut f = self.files[i];
                f.released = true;
                proof {
                    lemma_count_set_released(self.files@, i as int);
                }
                self.files.set(i, f);
                freed = freed + 1;
            }
        }
        proof {
            if freed < n {
                lemma_count_all_released(self.files@);
            }
            lemma_count_available_le(m0.files@);
        }
        mul_sat(freed as u64, size)
    }
}

/// Verdict on the first `n` files given what was read back for each
/// (`None`: the file is missing): counts of intact, corrupted and missing
/// files. Released files are not checked.
pub open spec fn verify_counts(files: Seq<BallastFile>, observed: Seq<Option<u64>>, n: nat) -> (nat, nat, nat)
    decreases n,
{
    if n == 0 || n > files.len() || n > observed.len() {
        (0, 0, 0)
    } else {
        let (ok, bad, missing) = verify_counts(files, observed, (n - 1) as nat);
        let f = files[n - 1];
        if f.released {
            (ok, bad, missing)
        } else {
            match observed[n - 1] {
                None => (ok, bad, missing + 1),
                Some(c) => if c == f.checksum { (ok + 1, bad, missing) } else { (ok, bad + 1, missing) },
            }
        }
    }
}

proof fn lemma_verify_counts_le(files: Seq<BallastFile>, observed: Seq<Option<u64>>, n: nat)
    ensures
        verify_counts(files, observed, n).0 + verify_counts(files, observed, n).1
            + verify_counts(files, observed, n).2 <= n,
    decreases n,
{
    if n > 0 {
        lemma_verify_counts_le(files, observed, (n - 1) as nat);
    }
}

impl BallastManager {
    /// After the cooldown, recreates every released file and creates the
    /// missing ones up to the configured count; returns the ids the caller
    /// must write. During the cooldown it does nothing and returns no id.
    pub fn replenish(&mut self, now: u64) -> (ids: Vec<u32>)
        requires
            old(self).wf(),
        ensures
            final(self).wf(),
            replenished(*old(self), now, *final(self)),
            !old(self).cooldown_over(now) ==> ids@.len() == 0,
    {
        let allowed = match self.last_replenish {
            None => true,
            Some(t) => t as u128 + self.config.replenish_cooldown_secs as u128 <= now as u128,
        };
        let mut ids: Vec<u32> = Vec::new();
        if !allowed {
            return ids;
        }
        let ghost m0 = *self;
        let mut i: usize = 0;
        while i < self.files.len()
            invariant
                self.wf(),
                self.config == m0.config,
                self.files@.len() == m0.files@.len(),
                i <= self.files@.len(),
                forall|k: int| 0 <= k < i ==> !(#[trigger] self.files@[k]).released,
            decreases self.files.len() - i,
        {
            if self.files[i].released {
                let mut f = self.files[i];
                f.released = false;
                f.created_at = now;
                self.files.set(i, f);
                ids.push(i as u32);
            }
            i = i + 1;
        }
        while self.files.len() < self.config.file_count as usize
            invariant
                self.wf(),
                self.config == m0.config,
                m0.files@.len() <= self.files@.len(),
                self.files@.len() <= if m0.files@.len() >= m0.config.file_count {
                    m0.files@.len()
                } else {
                    m0.config.file_count as nat
                },
                forall|k: int| 0 <= k < self.files@.len() ==> !(#[trigger] self.files@[k]).released,
            decreases self.config.file_count - self.files@.len(),
        {
            let id = self.files.len() as u32;
            let f = self.new_file(id, now);
            self.files.push(f);
            ids.push(id);
        }
        self.last_replenish = Some(now);
        ids
    }

    /// Compares what was read back from each file with its stored checksum.
    pub fn verify(&self, observed: &Vec<Option<u64>>) -> (r: VerifyReport)
        requires
            self.wf(),
            observed@.len() == self.files@.len(),
        ensures
            (r.files_ok as nat, r.files_corrupted as nat, r.files_missing as nat)
                == verify_counts(self.files@, observed@, self.files@.len()),
    {
        let mut ok: u32 = 0;
        let mut bad: u32 = 0;
        let mut missing: u32 = 0;
        let mut i: usize = 0;
        while i < self.files.len()
            invariant
                self.wf(),
                observed@.len() == self.files@.len(),
                i <= self.files@.len(),
                (ok as nat, bad as nat, missing as nat) == verify_counts(self.files@, observed@, i as nat),
            decreases self.files.len() - i,
        {
            proof {
                lemma_verify_counts_le(self.files@, observed@, i as nat);
            }
            let f = self.files[i];
            if !f.released {
                match observed[i] {
                    None => {
                        missing = missing + 1;
                    },
                    Some(c) => {
                        if c == f.checksum {
                            ok = ok + 1;
                        } else {
                            bad = bad + 1;
                        }
                    },
                }
            }
            i = i + 1;
        }
        VerifyReport { files_ok: ok, files_corrupted: bad, files_missing: missing }
    }
}

/// The checksums a ledger expects to read back.
pub open spec fn expected_readback(files: Seq<BallastFile>) -> Seq<Option<u64>> {
    files.map_values(|f: BallastFile| Some(f.checksum))
}

proof fn lemma_verify_intact(files: Seq<BallastFile>, n: nat)
    requires
        n <= files.len(),
    ensures
        verify_counts(files, expected_readback(files), n).1 == 0,
        verify_counts(files, expected_readback(files), n).2 == 0,
        verify_counts(files, expected_readback(files), n).0 == count_available(files.subrange(0, n as int)),
    decreases n,
{
    if n > 0 {
        lemma_verify_intact(files, (n - 1) as nat);
        assert(files.subrange(0, n as int).drop_last() =~= files.subrange(0, n as int - 1));
    }
}

/// Provisioned ballast verifies clean: when every file reads back as it was
/// written, verification counts every available file as intact and none as
/// corrupted or missing.
pub proof fn lemma_provision_verifies_clean(m0: BallastManager, target: nat, now: u64, m1: BallastManager)
    requires
        m1.wf(),
        provisioned(m0, target, now, m1),
    ensures
        verify_counts(m1.files@, expected_readback(m1.files@), m1.files@.len()).1 == 0,
        verify_counts(m1.files@, expected_readback(m1.files@), m1.files@.len()).2 == 0,
        verify_counts(m1.files@, expected_readback(m1.files@), m1.files@.len()).0 == m1.available_spec(),
{
    lemma_verify_intact(m1.files@, m1.files@.len());
    assert(m1.files@.subrange(0, m1.files@.len() as int) =~= m1.files@);
}

/// Release then replenish restores the target: provisioning the configured
/// number of files, releasing any number of them, then replenishing once the
/// cooldown has passed leaves `file_count` files available. (A ledger that
/// already held more than `file_count` files keeps them all.)
pub proof fn lemma_release_replenish_restores(
    m0: BallastManager,
    m1: BallastManager,
    m2: BallastManager,
    m3: BallastManager,
    now: u64,
    n: nat,
    bytes: nat,
    later: u64,
)
    requires
        m0.files@.len() <= m0.config.file_count,
        provisioned(m0, m0.config.file_count as nat, now, m1),
        released_rel(m1, n, m2, bytes),
        m2.cooldown_over(later),
        replenished(m2, later, m3),
    ensures
        m3.available_spec() == m0.config.file_count,
{
    lemma_count_all_unreleased(m3.files@);
}

proof fn lemma_count_all_released(files: Seq<BallastFile>)
    requires
        forall|i: int| 0 <= i < files.len() ==> (#[trigger] files[i]).released,
    ensures
        count_available(files) == 0,
    decreases files.len(),
{
    if files.len() > 0 {
        lemma_count_all_released(files.drop_last());
    }
}

proof fn lemma_count_set_released(files: Seq<BallastFile>, i: int)
    requires
        0 <= i < files.len(),
        !files[i].released,
    ensures
        count_available(files.update(i, BallastFile { released: true, ..files[i] })) + 1 == count_available(files),
    decreases files.len(),
{
    let g = files.update(i, BallastFile { released: true, ..files[i] });
    if i == files.len() - 1 {
        assert(g.drop_last() =~= files.drop_last());
    } else {
        lemma_count_set_released(files.drop_last(), i);
        assert(g.drop_last() =~= files.drop_last().update(i, BallastFile { released: true, ..files[i] }));
    }
}

} // verus!
