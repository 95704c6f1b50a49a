//! Copy jobs and their summaries.

use vstd::prelude::*;

verus! {

/// Delay before the first repetition of a request, in milliseconds.
pub const BACKOFF_BASE_MS: u64 = 100;

/// Longest delay before a repetition of a request, in milliseconds.
pub const BACKOFF_MAX_MS: u64 = 60_000;

/// What to copy, and how hard to try.
///
/// The region to copy is not part of the job: it is handed over beside it,
/// as the tile range of each zoom level.
#[derive(Clone, Copy, Debug)]
pub struct CopyJob {
    /// Min zoom (inclusive).
    pub minzoom: u8,
    /// Max zoom (inclusive).
    pub maxzoom: u8,
    /// Largest number of tiles in transfer at one time.
    pub concurrency: usize,
    /// Number of times a request is repeated after a fault that may pass.
    pub retry: u32,
    /// Window for a response in milliseconds, if there is one.
    pub timeout: Option<u64>,
    /// `(part, parts)`: copy only the tiles of one part out of `parts`.
    pub part: Option<(u32, u32)>,
    /// Abort once more tiles than this have failed, if set.
    pub max_failures: Option<u64>,
}

impl CopyJob {
    /// A job copies at least one zoom level, at least one tile at a time,
    /// and a part that exists.
    pub open spec fn wf(&self) -> bool {
        &&& self.minzoom <= self.maxzoom
        &&& self.concurrency >= 1
        &&& (self.part matches Some(p) ==> p.0 < p.1)
    }

    /// True if the job is well formed.
    pub fn is_valid(&self) -> (r: bool)
        ensures
            r == self.wf(),
    {
        let part_ok: bool = match self.part {
            Some(p) => p.0 < p.1,
            None => true,
        };
        self.minzoom <= self.maxzoom && self.concurrency >= 1 && part_ok
    }

    /// True if the job copies the tile that stands at `index` in the walk
    /// of the pyramid.
    pub fn takes(&self, index: u128) -> (r: bool)
        ensures
            r == in_part(self.part, index as int),
    {
        match self.part {
            Some(p) => p.1 > 0 && index % (p.1 as u128) == p.0 as u128,
            None => true,
        }
    }

    /// True if `failed` failures are more than the job bears.
    pub fn gives_up_at(&self, failed: u128) -> (r: bool)
        ensures
            r == over_threshold(self.max_failures, failed as nat),
    {
        match self.max_failures {
            Some(t) => failed > t as u128,
            None => false,
        }
    }
}

/// True if the tile at `index` of the walk belongs to the part: with
/// `(part, parts)`, the tiles whose index is `part` modulo `parts`; without
/// a part, every tile.
pub open spec fn in_part(part: Option<(u32, u32)>, index: int) -> bool {
    match part {
        Some(p) => p.1 > 0 && index % (p.1 as int) == p.0,
        None => true,
    }
}

/// How many of the first `n` tiles of the walk belong to the part.
pub open spec fn part_count(part: Option<(u32, u32)>, n: nat) -> nat
    decreases n,
{
    if n == 0 {
        0
    } else {
        part_count(part, (n - 1) as nat) + if in_part(part, n - 1) {
            1nat
        } else {
            0nat
        }
    }
}

/// The index of the first tile from `from` on that belongs to the part, or
/// `len` if there is none before `len`.
pub open spec fn next_in_part(part: Option<(u32, u32)>, from: nat, len: nat) -> nat
    decreases len - from,
{
    if from >= len {
        len
    } else if in_part(part, from as int) {
        from
    } else {
        next_in_part(part, from + 1, len)
    }
}

/// True if `failed` failures are more than the threshold allows.
pub open spec fn over_threshold(max_failures: Option<u64>, failed: nat) -> bool {
    match max_failures {
        Some(t) => failed > t,
        None => false,
    }
}

/// No more tiles belong to a part than there are tiles, and no fewer than
/// before when the walk goes on.
pub proof fn lemma_part_count_bounds(part: Option<(u32, u32)>, m: nat, n: nat)
    requires
        m <= n,
    ensures
        part_count(part, m) <= part_count(part, n),
        part_count(part, n) - part_count(part, m) <= n - m,
        part_count(part, n) <= n,
    decreases n,
{
    if n > 0 {
        if m < n {
            lemma_part_count_bounds(part, m, (n - 1) as nat);
        }
        lemma_part_count_bounds(part, 0, (n - 1) as nat);
    }
}

/// Without a part, every tile of the walk is copied.
pub proof fn lemma_part_count_whole(n: nat)
    ensures
        part_count(None, n) == n,
    decreases n,
{
    if n > 0 {
        lemma_part_count_whole((n - 1) as nat);
    }
}

/// Between a tile and the next one of the part, no tile belongs to the
/// part.
pub proof fn lemma_next_in_part(part: Option<(u32, u32)>, from: nat, len: nat)
    requires
        from <= len,
    ensures
        from <= next_in_part(part, from, len) <= len,
        next_in_part(part, from, len) < len ==> in_part(
            part,
            next_in_part(part, from, len) as int,
        ),
        part_count(part, next_in_part(part, from, len)) == part_count(part, from),
    decreases len - from,
{
    if from < len && !in_part(part, from as int) {
        lemma_next_in_part(part, from + 1, len);
    }
}

/// Splitting a walk into `parts` parts gives the tile at `index` to part
/// `index mod parts`, and to no other.
pub proof fn lemma_parts_disjoint(parts: u32, index: nat)
    requires
        parts > 0,
    ensures
        index % (parts as nat) < parts,
        in_part(Some(((index % (parts as nat)) as u32, parts)), index as int),
        forall|p: u32| p != index % (parts as nat) ==> !in_part(Some((p, parts)), index as int),
{
    assert(0 <= (index as int) % (parts as int) < parts) by (nonlinear_arith)
        requires
            parts > 0,
    ;
}

/// How many of the first `n` tiles of the walk the parts `0` to `upto - 1`
/// out of `parts` take together.
pub open spec fn parts_count(parts: u32, upto: nat, n: nat) -> nat
    decreases upto,
{
    if upto == 0 {
        0
    } else {
        parts_count(parts, (upto - 1) as nat, n) + part_count(
            Some(((upto - 1) as u32, parts)),
            n,
        )
    }
}

proof fn lemma_parts_count_step(parts: u32, upto: nat, n: nat)
    requires
        0 < parts,
        upto <= parts,
        n > 0,
    ensures
        parts_count(parts, upto, n) == parts_count(parts, upto, (n - 1) as nat) + if (n - 1)
            % (parts as int) < upto {
            1nat
        } else {
            0nat
        },
    decreases upto,
{
    if upto > 0 {
        lemma_parts_count_step(parts, (upto - 1) as nat, n);
    }
}

/// The parts of a walk share it out: together the parts `0` to `parts - 1`
/// take each tile once.
pub proof fn lemma_parts_cover(parts: u32, n: nat)
    requires
        parts > 0,
    ensures
        parts_count(parts, parts as nat, n) == n,
    decreases n,
{
    if n == 0 {
        lemma_parts_count_none(parts, parts as nat);
    } else {
        lemma_parts_cover(parts, (n - 1) as nat);
        lemma_parts_count_step(parts, parts as nat, n);
        assert((n - 1) % (parts as int) < parts) by (nonlinear_arith)
            requires
                parts > 0,
                n > 0,
        ;
    }
}

proof fn lemma_parts_count_none(parts: u32, upto: nat)
    ensures
        parts_count(parts, upto, 0) == 0,
    decreases upto,
{
    if upto > 0 {
        lemma_parts_count_none(parts, (upto - 1) as nat);
    }
}

/// The delay before repetition number `attempt` of a request, in
/// milliseconds: `BACKOFF_BASE_MS` before the first, doubled for each one
/// after it, and never above `BACKOFF_MAX_MS`.
pub open spec fn backoff_ms(attempt: nat) -> nat
    decreases attempt,
{
    if attempt <= 1 {
        BACKOFF_BASE_MS as nat
    } else if 2 * backoff_ms((attempt - 1) as nat) > BACKOFF_MAX_MS {
        BACKOFF_MAX_MS as nat
    } else {
        2 * backoff_ms((attempt - 1) as nat)
    }
}

/// The delay grows with the number of repetitions and stays within its
/// bounds.
pub proof fn lemma_backoff_monotonic(a: nat, b: nat)
    requires
        a <= b,
    ensures
        BACKOFF_BASE_MS <= backoff_ms(a) <= backoff_ms(b) <= BACKOFF_MAX_MS,
    decreases b,
{
    if b > 1 {
        if a < b {
            lemma_backoff_monotonic(a, (b - 1) as nat);
        }
        lemma_backoff_monotonic(0, (b - 1) as nat);
    } else {
        lemma_backoff_monotonic_base(a);
        lemma_backoff_monotonic_base(b);
    }
}

proof fn lemma_backoff_monotonic_base(a: nat)
    requires
        a <= 1,
    ensures
        backoff_ms(a) == BACKOFF_BASE_MS,
{
}

proof fn lemma_backoff_capped(a: nat, b: nat)
    requires
        1 <= a <= b,
        backoff_ms(a) == BACKOFF_MAX_MS,
    ensures
        backoff_ms(b) == BACKOFF_MAX_MS,
    decreases b,
{
    if a < b {
        lemma_backoff_capped(a, (b - 1) as nat);
    }
}

/// The delay before repetition number `attempt` of a request.
pub fn backoff_delay(attempt: u32) -> (ms: u64)
    ensures
        ms == backoff_ms(attempt as nat),
{
    if attempt <= 1 {
        return BACKOFF_BASE_MS;
    }
    let mut delay: u64 = BACKOFF_BASE_MS;
    let mut k: u32 = 1;
    while k < attempt && delay < BACKOFF_MAX_MS
        invariant
            1 <= k <= attempt,
            delay == backoff_ms(k as nat),
            delay <= BACKOFF_MAX_MS,
        decreases attempt - k,
    {
        k = k + 1;
        if delay > BACKOFF_MAX_MS / 2 {
            delay = BACKOFF_MAX_MS;
        } else {
            delay = 2 * delay;
        }
    }
    proof {
        if k < attempt {
            lemma_backoff_capped(k as nat, attempt as nat);
        }
    }
    delay
}

/// What a job did.
#[derive(PartialEq, Eq, Structural, Clone, Copy, Debug)]
pub struct JobSummary {
    /// Tiles read from the source and stored in the sink.
    pub copied: u128,
    /// Tiles that the source does not have.
    pub skipped_not_found: u128,
    /// Tiles given up after a fault.
    pub failed: u128,
    /// Requests repeated for the tiles that were copied, skipped or given
    /// up.
    pub retried: u128,
    /// Time the job took, in milliseconds.
    pub elapsed_ms: u128,
}

impl JobSummary {
    /// Number of tiles that the job has dealt with.
    pub open spec fn settled(&self) -> nat {
        (self.copied + self.skipped_not_found + self.failed) as nat
    }

    /// The status with which a process that ran the job should end: zero
    /// unless more tiles failed than `tolerance` allows. With a tolerance of
    /// zero any failure gives a status other than zero.
    pub fn exit_code(&self, tolerance: u128) -> (code: i32)
        ensures
            code == if self.failed > tolerance {
                1i32
            } else {
                0i32
            },
    {
        if self.failed > tolerance {
            1
        } else {
            0
        }
    }
}

} // verus!
