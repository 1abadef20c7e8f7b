//! Named rate-limit buckets.
//!
//! Each bucket is configured with a capacity and a refill interval. A `take`
//! on a key consumes one unit when fewer than `capacity` takes on that key
//! succeeded within the last `interval` seconds; otherwise it consumes
//! nothing and reports how long the caller has to wait. Counters are reset
//! only by time elapsing, never by administrative action.

use vstd::prelude::*;
use std::collections::HashMap;

verus! {

broadcast use vstd::std_specs::hash::group_hash_axioms;

/// The names of the configured buckets.
#[derive(Clone, Copy, Debug, PartialEq, Eq, Structural)]
pub enum BucketName {
    All,
    BgBigger,
    BgHint,
    BgSkip,
    BgStart,
    Snipe,
    Songs,
}

/// A bucket name's display text.
pub open spec fn bucket_name_text(name: BucketName) -> Seq<char> {
    match name {
        BucketName::All => "All"@,
        BucketName::BgBigger => "BgBigger"@,
        BucketName::BgHint => "BgHint"@,
        BucketName::BgSkip => "BgSkip"@,
        BucketName::BgStart => "BgStart"@,
        BucketName::Snipe => "Snipe"@,
        BucketName::Songs => "Songs"@,
    }
}

/// The bucket a command declares, read from its textual handle.
pub open spec fn spec_parse_bucket_name(s: Seq<char>) -> Option<BucketName> {
    if s == "all"@ {
        Some(BucketName::All)
    } else if s == "bg_bigger"@ {
        Some(BucketName::BgBigger)
    } else if s == "bg_hint"@ {
        Some(BucketName::BgHint)
    } else if s == "bg_skip"@ {
        Some(BucketName::BgSkip)
    } else if s == "bg_start"@ {
        Some(BucketName::BgStart)
    } else if s == "snipe"@ {
        Some(BucketName::Snipe)
    } else if s == "songs"@ {
        Some(BucketName::Songs)
    } else {
        None
    }
}

impl BucketName {
    /// Reads a bucket handle; an unknown handle is the caller's programming
    /// error to surface.
    pub fn parse(s: &str) -> (r: Option<BucketName>)
        ensures
            r == spec_parse_bucket_name(s@),
    {
        if crate::text::str_eq(s, "all") {
            Some(BucketName::All)
        } else if crate::text::str_eq(s, "bg_bigger") {
            Some(BucketName::BgBigger)
        } else if crate::text::str_eq(s, "bg_hint") {
            Some(BucketName::BgHint)
        } else if crate::text::str_eq(s, "bg_skip") {
            Some(BucketName::BgSkip)
        } else if crate::text::str_eq(s, "bg_start") {
            Some(BucketName::BgStart)
        } else if crate::text::str_eq(s, "snipe") {
            Some(BucketName::Snipe)
        } else if crate::text::str_eq(s, "songs") {
            Some(BucketName::Songs)
        } else {
            None
        }
    }

    /// The handle's display name, as the debug log prints it.
    pub fn as_str(&self) -> (r: &'static str)
        ensures
            r@ == bucket_name_text(*self),
    {
        match self {
            BucketName::All => "All",
            BucketName::BgBigger => "BgBigger",
            BucketName::BgHint => "BgHint",
            BucketName::BgSkip => "BgSkip",
            BucketName::BgStart => "BgStart",
            BucketName::Snipe => "Snipe",
            BucketName::Songs => "Songs",
        }
    }
}

/// Position of a bucket name in the registry's table.
pub open spec fn bucket_slot(name: BucketName) -> int {
    match name {
        BucketName::All => 0,
        BucketName::BgBigger => 1,
        BucketName::BgHint => 2,
        BucketName::BgSkip => 3,
        BucketName::BgStart => 4,
        BucketName::Snipe => 5,
        BucketName::Songs => 6,
    }
}

pub const BUCKET_COUNT: usize = 7;

/// A sequence is nondecreasing.
pub open spec fn nondecreasing(h: Seq<int>) -> bool {
    forall|i: int, j: int| 0 <= i <= j < h.len() ==> h[i] <= h[j]
}

/// Entries `c` apart lie at least `t` apart: the `c + 1`-th most recent
/// success had to wait out a full interval.
pub open spec fn spaced(h: Seq<int>, c: int, t: int) -> bool {
    forall|j: int| #![trigger h[j - c], h[j]] c <= j < h.len() ==> h[j - c] + t <= h[j]
}

/// How many entries of `h` are more recent than `cutoff`.
pub open spec fn recent_count(h: Seq<int>, cutoff: int) -> nat
    decreases h.len(),
{
    if h.len() == 0 {
        0
    } else {
        recent_count(h.drop_last(), cutoff) + if h.last() > cutoff { 1nat } else { 0nat }
    }
}

/// For a log split at `m` by the cutoff, the recent entries are exactly the
/// suffix from `m`.
pub proof fn lemma_recent_count_split(h: Seq<int>, cutoff: int, m: int)
    requires
        0 <= m <= h.len(),
        forall|i: int| 0 <= i < m ==> h[i] <= cutoff,
        forall|i: int| m <= i < h.len() ==> h[i] > cutoff,
    ensures
        recent_count(h, cutoff) == h.len() - m,
    decreases h.len(),
{
    if h.len() > 0 {
        if m == h.len() {
            lemma_recent_count_split(h.drop_last(), cutoff, m - 1);
        } else {
            lemma_recent_count_split(h.drop_last(), cutoff, m);
        }
    }
}

/// The consistency a bucket keeps per key: `h` is the full success history,
/// `w` the trimmed log held for the key, `c` the capacity, `t` the interval,
/// and `last` the latest time the bucket has seen.
pub open spec fn key_inv(h: Seq<int>, w: Seq<i64>, c: int, t: int, last: int) -> bool {
    &&& nondecreasing(h)
    &&& spaced(h, c, t)
    &&& forall|i: int| 0 <= i < h.len() ==> 0 <= #[trigger] h[i] <= last
    &&& w.len() <= c
    &&& w.len() <= h.len()
    &&& forall|i: int| 0 <= i < w.len() ==> #[trigger] w[i] as int == h[h.len() - w.len() + i]
    &&& forall|i: int| 0 <= i < h.len() - w.len() ==> #[trigger] h[i] <= last - t
}

proof fn lemma_key_inv_later(h: Seq<int>, w: Seq<i64>, c: int, t: int, last: int, later: int)
    requires
        key_inv(h, w, c, t, last),
        last <= later,
    ensures
        key_inv(h, w, c, t, later),
{
}

/// Trimming the log to the entries above the cutoff preserves the invariant
/// and leaves exactly the recent entries.
proof fn lemma_trim(h: Seq<int>, w: Seq<i64>, kept: Seq<i64>, c: int, t: int, last: int, now: int, start: int)
    requires
        key_inv(h, w, c, t, last),
        last <= now,
        0 <= start <= w.len(),
        kept =~= w.subrange(start, w.len() as int),
        forall|i: int| 0 <= i < start ==> #[trigger] w[i] <= now - t,
        start < w.len() ==> w[start] > now - t,
    ensures
        key_inv(h, kept, c, t, now),
        recent_count(h, now - t) == kept.len(),
{
    let m = h.len() - w.len() + start;
    assert forall|i: int| 0 <= i < m implies #[trigger] h[i] <= now - t by {
        if i < h.len() - w.len() {
            assert(h[i] <= last - t);
        } else {
            assert(w[i - (h.len() - w.len())] as int == h[i]);
        }
    }
    assert forall|i: int| m <= i < h.len() implies #[trigger] h[i] > now - t by {
        assert(w[start] as int == h[m]);
        assert(h[m] <= h[i]);
    }
    lemma_recent_count_split(h, now - t, m);
    assert forall|i: int| 0 <= i < kept.len() implies #[trigger] kept[i] as int == h[h.len()
        - kept.len() + i] by {
        assert(kept[i] == w[start + i]);
        assert(w[start + i] as int == h[h.len() - w.len() + start + i]);
    }
}

/// Appending a fresh success at `now` preserves the invariant when the
/// window is not yet full.
proof fn lemma_push(h: Seq<int>, kept: Seq<i64>, c: int, t: int, now: int)
    requires
        key_inv(h, kept, c, t, now),
        kept.len() < c,
        0 <= now <= i64::MAX,
    ensures
        key_inv(h.push(now), kept.push(now as i64), c, t, now),
    {
    let h2 = h.push(now as int);
    let w2 = kept.push(now as i64);
    assert(nondecreasing(h2));
    assert forall|j: int| c <= j < h2.len() implies h2[j - c] + t <= #[trigger] h2[j] by {
        if j < h.len() {
            assert(h[j - c] + t <= h[j]);
        } else {
            // The window held fewer than capacity entries, so the entry one
            // capacity back had already left the window.
            assert(h2[j - c] == h[j - c]);
            assert(j - c < h.len() - kept.len());
            assert(h[j - c] <= now - t);
        }
    }
    assert forall|i: int| 0 <= i < w2.len() implies #[trigger] w2[i] as int == h2[h2.len()
        - w2.len() + i] by {
        if i < kept.len() {
            assert(kept[i] as int == h[h.len() - kept.len() + i]);
        }
    }
    assert forall|i: int| 0 <= i < h2.len() - w2.len() implies #[trigger] h2[i] <= now - t by {
        assert(h2[i] == h[i]);
    }
}

/// One bucket: per-key success logs, trimmed to the active window.
pub struct Bucket {
    capacity: usize,
    interval: i64,
    last_now: i64,
    counters: HashMap<u64, Vec<i64>>,
    hist: Ghost<Map<u64, Seq<int>>>,
}

impl Bucket {
    /// Configured number of takes allowed per window.
    pub closed spec fn capacity(&self) -> int {
        self.capacity as int
    }

    /// Configured window length in seconds.
    pub closed spec fn interval(&self) -> int {
        self.interval as int
    }

    /// The latest time this bucket has seen.
    pub closed spec fn last_seen(&self) -> int {
        self.last_now as int
    }

    /// All successful takes recorded for `key`, in order.
    pub closed spec fn history(&self, key: u64) -> Seq<int> {
        if self.hist@.dom().contains(key) {
            self.hist@[key]
        } else {
            Seq::empty()
        }
    }

    /// Internal consistency between the trimmed logs and the full history.
    pub closed spec fn wf(&self) -> bool {
        &&& self.capacity >= 1
        &&& self.interval >= 1
        &&& self.last_now >= 0
        &&& self.counters@.dom() =~= self.hist@.dom()
        &&& forall|k: u64| #[trigger] self.hist@.dom().contains(k) ==> key_inv(
            self.hist@[k],
            self.counters@[k]@,
            self.capacity as int,
            self.interval as int,
            self.last_now as int,
        )
    }

    /// The history a bucket keeps is ordered and spaced: what the fairness
    /// law relies on.
    pub proof fn lemma_history_shape(&self, key: u64)
        requires
            self.wf(),
        ensures
            nondecreasing(self.history(key)),
            spaced(self.history(key), self.capacity(), self.interval()),
            self.capacity() >= 1,
            self.interval() >= 1,
    {
    }

    pub fn new(capacity: usize, interval: i64) -> (b: Bucket)
        requires
            capacity >= 1,
            interval >= 1,
        ensures
            b.wf(),
            b.capacity() == capacity,
            b.interval() == interval,
            b.last_seen() == 0,
            forall|k: u64| #[trigger] b.history(k) == Seq::<int>::empty(),
    {
        Bucket {
            capacity,
            interval,
            last_now: 0,
            counters: HashMap::new(),
            hist: Ghost(Map::empty()),
        }
    }

    /// Consumes one unit for `key` at time `now` when the window allows it,
    /// returning 0; otherwise consumes nothing and returns the seconds left
    /// until the oldest windowed take expires. The cooldown is never negative
    /// and never larger than the interval.
    #[verifier::rlimit(60)]
    pub fn take(&mut self, key: u64, now: i64) -> (cooldown: i64)
        requires
            old(self).wf(),
            now >= old(self).last_seen(),
            now + old(self).interval() <= i64::MAX,
        ensures
            final(self).wf(),
            final(self).capacity() == old(self).capacity(),
            final(self).interval() == old(self).interval(),
            final(self).last_seen() == now,
            forall|k: u64| k != key ==> final(self).history(k) == old(self).history(k),
            0 <= cooldown <= old(self).interval(),
            ({
                let h = old(self).history(key);
                let fresh = recent_count(h, now - old(self).interval());
                if fresh < old(self).capacity() {
                    &&& cooldown == 0
                    &&& final(self).history(key) == h.push(now as int)
                } else {
                    &&& cooldown > 0
                    &&& cooldown == h[h.len() - old(self).capacity()] + old(self).interval() - now
                    &&& final(self).history(key) == h
                }
            }),
    {
        let ghost old_hist = self.hist@;
        let ghost h = self.history(key);
        let ghost cap = self.capacity as int;
        let ghost t = self.interval as int;
        let cutoff = now - self.interval;
        let log = match self.counters.remove(&key) {
            Some(v) => v,
            None => Vec::new(),
        };
        proof {
            if old_hist.dom().contains(key) {
                assert(key_inv(h, log@, cap, t, old(self).last_seen()));
            } else {
                assert(h =~= Seq::<int>::empty());
                assert(log@ =~= Seq::<i64>::empty());
                assert(key_inv(h, log@, cap, t, old(self).last_seen()));
            }
        }

        // Drop the entries that have left the window.
        let mut start: usize = 0;
        while start < log.len() && log[start] <= cutoff
            invariant
                0 <= start <= log@.len(),
                forall|i: int| 0 <= i < start ==> #[trigger] log@[i] <= cutoff,
            decreases log@.len() - start,
        {
            start = start + 1;
        }
        let mut kept: Vec<i64> = Vec::new();
        let mut j: usize = start;
        while j < log.len()
            invariant
                start <= j <= log@.len(),
                kept@ =~= log@.subrange(start as int, j as int),
            decreases log@.len() - j,
        {
            let v = log[j];
            kept.push(v);
            j = j + 1;
        }

        proof {
            lemma_trim(h, log@, kept@, cap, t, old(self).last_seen(), now as int, start as int);
        }

        let cooldown: i64;
        if kept.len() < self.capacity {
            proof {
                lemma_push(h, kept@, cap, t, now as int);
            }
            kept.push(now);
            cooldown = 0;
            proof {
                self.hist@ = old_hist.insert(key, h.push(now as int));
            }
        } else {
            let oldest = kept[0];
            cooldown = oldest + self.interval - now;
            proof {
                self.hist@ = old_hist.insert(key, h);
                assert(kept@.len() == cap);
                assert(kept@[0] as int == h[h.len() - cap]);
                assert(kept@[0] > cutoff);
                assert(0 <= kept@[0] <= now);
            }
        }
        self.last_now = now;
        self.counters.insert(key, kept);
        proof {
            assert(self.hist@.dom() =~= self.counters@.dom());
            assert forall|k: u64| #[trigger] self.hist@.dom().contains(k) implies key_inv(
                self.hist@[k],
                self.counters@[k]@,
                cap,
                t,
                now as int,
            ) by {
                if k != key {
                    lemma_key_inv_later(
                        old_hist[k],
                        self.counters@[k]@,
                        cap,
                        t,
                        old(self).last_seen(),
                        now as int,
                    );
                }
            }
        }
        cooldown
    }
}

/// The named buckets the runtime was configured with. The configuration
/// table is immutable after startup; an unconfigured name is a programming
/// error, so `take` demands a configured bucket up front.
pub struct BucketRegistry {
    buckets: Vec<Option<Bucket>>,
}

impl BucketRegistry {
    pub closed spec fn wf(&self) -> bool {
        &&& self.buckets@.len() == BUCKET_COUNT
        &&& forall|i: int|
            0 <= i < self.buckets@.len() && self.buckets@[i] is Some
                ==> (#[trigger] self.buckets@[i])->Some_0.wf()
    }

    pub closed spec fn configured(&self, name: BucketName) -> bool {
        self.buckets@[bucket_slot(name)] is Some
    }

    /// The raw state of one slot, for framing what a call leaves untouched.
    pub closed spec fn slot_state(&self, name: BucketName) -> Option<Bucket> {
        self.buckets@[bucket_slot(name)]
    }

    /// The bucket behind a configured name.
    pub closed spec fn bucket(&self, name: BucketName) -> Bucket
        recommends
            self.configured(name),
    {
        self.buckets@[bucket_slot(name)]->Some_0
    }

    pub fn new() -> (r: BucketRegistry)
        ensures
            r.wf(),
            forall|n: BucketName| !(#[trigger] r.configured(n)),
    {
        let mut buckets: Vec<Option<Bucket>> = Vec::new();
        let mut i: usize = 0;
        while i < BUCKET_COUNT
            invariant
                buckets@.len() == i,
                i <= BUCKET_COUNT,
                forall|j: int| 0 <= j < i ==> #[trigger] buckets@[j] is None,
            decreases BUCKET_COUNT - i,
        {
            buckets.push(None);
            i = i + 1;
        }
        BucketRegistry { buckets }
    }

    /// Installs a bucket for `name`, replacing any earlier configuration.
    pub fn configure(&mut self, name: BucketName, capacity: usize, interval: i64)
        requires
            old(self).wf(),
            capacity >= 1,
            interval >= 1,
        ensures
            final(self).wf(),
            final(self).configured(name),
            final(self).bucket(name).capacity() == capacity,
            final(self).bucket(name).interval() == interval,
            final(self).bucket(name).last_seen() == 0,
            forall|k: u64| #[trigger] final(self).bucket(name).history(k) == Seq::<int>::empty(),
            forall|n: BucketName|
                bucket_slot(n) != bucket_slot(name) ==> #[trigger] final(self).slot_state(n) == old(
                    self,
                ).slot_state(n),
    {
        let slot = match name {
            BucketName::All => 0usize,
            BucketName::BgBigger => 1,
            BucketName::BgHint => 2,
            BucketName::BgSkip => 3,
            BucketName::BgStart => 4,
            BucketName::Snipe => 5,
            BucketName::Songs => 6,
        };
        let bucket = Bucket::new(capacity, interval);
        self.buckets[slot] = Some(bucket);
    }

    /// One take on the named bucket: see `Bucket::take`.
    pub fn take(&mut self, name: BucketName, key: u64, now: i64) -> (cooldown: i64)
        requires
            old(self).wf(),
            old(self).configured(name),
            now >= old(self).bucket(name).last_seen(),
            now + old(self).bucket(name).interval() <= i64::MAX,
        ensures
            final(self).wf(),
            final(self).configured(name),
            forall|n: BucketName|
                bucket_slot(n) != bucket_slot(name) ==> #[trigger] final(self).slot_state(n) == old(
                    self,
                ).slot_state(n),
            final(self).bucket(name).capacity() == old(self).bucket(name).capacity(),
            final(self).bucket(name).interval() == old(self).bucket(name).interval(),
            final(self).bucket(name).last_seen() == now,
            forall|k: u64|
                k != key ==> final(self).bucket(name).history(k) == old(self).bucket(
                    name,
                ).history(k),
            0 <= cooldown <= old(self).bucket(name).interval(),
            ({
                let b = old(self).bucket(name);
                let h = b.history(key);
                let fresh = recent_count(h, now - b.interval());
                if fresh < b.capacity() {
                    &&& cooldown == 0
                    &&& final(self).bucket(name).history(key) == h.push(now as int)
                } else {
                    &&& cooldown > 0
                    &&& cooldown == h[h.len() - b.capacity()] + b.interval() - now
                    &&& final(self).bucket(name).history(key) == h
                }
            }),
    {
        let slot = match name {
            BucketName::All => 0usize,
            BucketName::BgBigger => 1,
            BucketName::BgHint => 2,
            BucketName::BgSkip => 3,
            BucketName::BgStart => 4,
            BucketName::Snipe => 5,
            BucketName::Songs => 6,
        };
        let entry = &mut self.buckets[slot];
        match entry {
            Some(bucket) => bucket.take(key, now),
            None => {
                proof {
                    assert(false);
                }
                0
            },
        }
    }
}

/// Within any time window shorter than the interval, at most `capacity`
/// takes succeed: if two logged successes lie less than one interval apart,
/// fewer than `capacity` other successes can lie between them.
pub proof fn lemma_rate_limit_window(b: &Bucket, key: u64, i: int, j: int)
    requires
        b.wf(),
        0 <= i <= j < b.history(key).len(),
        b.history(key)[j] - b.history(key)[i] < b.interval(),
    ensures
        j - i + 1 <= b.capacity(),
{
    let h = b.history(key);
    b.lemma_history_shape(key);
    if j - i >= b.capacity() {
        assert(h[j - b.capacity()] + b.interval() <= h[j]);
        assert(h[i] <= h[j - b.capacity()]);
    }
}

} // verus!
