//! Partition maintenance for a time-partitioned table: each tick derives, from
//! the clock alone, the buckets that must exist (the current one and a horizon
//! of future ones) and the cut-off below which old buckets are pruned. Nothing
//! is carried over between ticks, which is what makes a tick idempotent.

use vstd::prelude::*;
use vstd::string::StrSliceExecFns;
use vstd::string::StringExecFns;
use vstd::arithmetic::mul::lemma_mul_inequality;
use vstd::arithmetic::mul::lemma_mul_is_distributive_add_other_way;
use vstd::arithmetic::div_mod::lemma_fundamental_div_mod;
use vstd::arithmetic::div_mod::lemma_mod_bound;

verus! {

/// The character standing for one decimal digit.
pub open spec fn digit_char(d: nat) -> char {
    if d == 0 {
        '0'
    } else if d == 1 {
        '1'
    } else if d == 2 {
        '2'
    } else if d == 3 {
        '3'
    } else if d == 4 {
        '4'
    } else if d == 5 {
        '5'
    } else if d == 6 {
        '6'
    } else if d == 7 {
        '7'
    } else if d == 8 {
        '8'
    } else {
        '9'
    }
}

/// The decimal spelling of `n`, most significant digit first, no leading
/// zeros (a single `'0'` for zero).
pub open spec fn spec_digits(n: nat) -> Seq<char>
    decreases n,
{
    if n < 10 {
        seq![digit_char(n)]
    } else {
        spec_digits(n / 10).push(digit_char(n % 10))
    }
}

fn dec_digit_str(d: u64) -> (s: &'static str)
    requires
        d < 10,
    ensures
        s@ == seq![digit_char(d as nat)],
{
    proof {
        reveal_strlit("0");
        reveal_strlit("1");
        reveal_strlit("2");
        reveal_strlit("3");
        reveal_strlit("4");
        reveal_strlit("5");
        reveal_strlit("6");
        reveal_strlit("7");
        reveal_strlit("8");
        reveal_strlit("9");
        assert("0"@ =~= seq![digit_char(0)]);
        assert("1"@ =~= seq![digit_char(1)]);
        assert("2"@ =~= seq![digit_char(2)]);
        assert("3"@ =~= seq![digit_char(3)]);
        assert("4"@ =~= seq![digit_char(4)]);
        assert("5"@ =~= seq![digit_char(5)]);
        assert("6"@ =~= seq![digit_char(6)]);
        assert("7"@ =~= seq![digit_char(7)]);
        assert("8"@ =~= seq![digit_char(8)]);
        assert("9"@ =~= seq![digit_char(9)]);
    }
    if d == 0 {
        "0"
    } else if d == 1 {
        "1"
    } else if d == 2 {
        "2"
    } else if d == 3 {
        "3"
    } else if d == 4 {
        "4"
    } else if d == 5 {
        "5"
    } else if d == 6 {
        "6"
    } else if d == 7 {
        "7"
    } else if d == 8 {
        "8"
    } else {
        "9"
    }
}

/// Render `n` in decimal.
pub fn u64_to_dec(n: u64) -> (s: String)
    ensures
        s@ == spec_digits(n as nat),
    decreases n,
{
    if n < 10 {
        dec_digit_str(n).to_owned()
    } else {
        let mut s = u64_to_dec(n / 10);
        let d = dec_digit_str(n % 10);
        s.append(d);
        proof {
            assert(s@ =~= spec_digits((n / 10) as nat).push(digit_char((n % 10) as nat)));
        }
        s
    }
}

/// The boundary name a bucket materializes under: the table's name, `_p`,
/// and the bucket's start timestamp in decimal.
pub open spec fn spec_partition_name(table: Seq<char>, start_ms: nat) -> Seq<char> {
    table + seq!['_', 'p'] + spec_digits(start_ms)
}

/// Render the boundary name for the bucket starting at `start_ms`.
pub fn partition_name(table: &String, start_ms: u64) -> (name: String)
    ensures
        name@ == spec_partition_name(table@, start_ms as nat),
{
    let mut name = table.clone();
    name.append("_p");
    let digits = u64_to_dec(start_ms);
    name.append(digits.as_str());
    proof {
        reveal_strlit("_p");
        assert(name@ =~= spec_partition_name(table@, start_ms as nat));
    }
    name
}

/// One time-bounded slice of the partitioned table: its key range
/// `[start_ms, end_ms)` and the boundary name it materializes under.
/// Descriptors are recomputed from the clock at every tick, never stored.
pub struct PartitionDescriptor {
    pub table: String,
    pub start_ms: u64,
    pub end_ms: u64,
    pub name: String,
}

/// Ticks are only planned for instants up to this bound (far beyond any real
/// clock), which keeps every bucket boundary inside `u64`.
pub const MAX_TICK_TIME_MS: u64 = 1_000_000_000_000_000_000;

/// Milliseconds in one calendar day, the default bucket size.
pub const MS_PER_DAY: u64 = 86_400_000;

/// Maintenance policy for one time-partitioned table. The connection pool the
/// statements run on lives with the caller; this type owns the planning
/// logic: which buckets must exist and which have expired.
pub struct PartitionManager {
    /// The partitioned table's name.
    pub table: String,
    /// Size of one bucket, e.g. one day.
    pub bucket_ms: u64,
    /// How many future buckets to keep materialized beyond the current one.
    pub horizon_buckets: u64,
    /// How many past buckets to retain before pruning.
    pub retention_buckets: u64,
    /// How often the periodic tick runs.
    pub interval_hours: u64,
}

impl PartitionManager {
    /// Configuration bounds: a positive bucket of at most ~three years, and
    /// modest horizon/retention counts.
    pub open spec fn wf(self) -> bool {
        &&& 1 <= self.bucket_ms <= 100_000_000_000
        &&& self.horizon_buckets <= 100_000
        &&& self.retention_buckets <= 100_000
        &&& 1 <= self.interval_hours <= 8760
    }

    /// The start of the bucket containing instant `t_ms`.
    pub open spec fn spec_bucket_start(self, t_ms: u64) -> int
        recommends
            self.wf(),
    {
        (t_ms as int / self.bucket_ms as int) * self.bucket_ms as int
    }

    /// The start of the `i`-th bucket the tick at `now_ms` must supply.
    pub open spec fn spec_tick_start(self, now_ms: u64, i: int) -> int
        recommends
            self.wf(),
    {
        self.spec_bucket_start(now_ms) + i * self.bucket_ms as int
    }

    /// Bind the policy to a table with daily buckets and default horizon and
    /// retention, checked every `interval_hours` hours.
    pub fn new(table: String, interval_hours: u64) -> (m: Self)
        requires
            1 <= interval_hours <= 8760,
        ensures
            m.wf(),
            m.table@ == table@,
            m.bucket_ms == MS_PER_DAY,
            m.horizon_buckets == 3,
            m.retention_buckets == 90,
            m.interval_hours == interval_hours,
    {
        PartitionManager {
            table,
            bucket_ms: MS_PER_DAY,
            horizon_buckets: 3,
            retention_buckets: 90,
            interval_hours,
        }
    }

    /// Bind the policy to a table with an explicit bucket size, horizon and
    /// retention.
    pub fn with_policy(
        table: String,
        bucket_ms: u64,
        horizon_buckets: u64,
        retention_buckets: u64,
        interval_hours: u64,
    ) -> (m: Self)
        requires
            1 <= bucket_ms <= 100_000_000_000,
            horizon_buckets <= 100_000,
            retention_buckets <= 100_000,
            1 <= interval_hours <= 8760,
        ensures
            m.wf(),
            m.table@ == table@,
            m.bucket_ms == bucket_ms,
            m.horizon_buckets == horizon_buckets,
            m.retention_buckets == retention_buckets,
            m.interval_hours == interval_hours,
    {
        PartitionManager { table, bucket_ms, horizon_buckets, retention_buckets, interval_hours }
    }

    /// Plan one maintenance tick at instant `now_ms`: the descriptors of the
    /// current bucket and the next `horizon_buckets` ones, in order. The plan
    /// is a function of the clock and the policy alone.
    pub fn plan_tick(&self, now_ms: u64) -> (plan: Vec<PartitionDescriptor>)
        requires
            self.wf(),
            now_ms <= MAX_TICK_TIME_MS,
        ensures
            plan@.len() == self.horizon_buckets + 1,
            forall|i: int|
                0 <= i < plan@.len() ==> {
                    &&& (#[trigger] plan@[i]).start_ms == self.spec_tick_start(now_ms, i)
                    &&& plan@[i].end_ms == self.spec_tick_start(now_ms, i) + self.bucket_ms
                    &&& plan@[i].table@ == self.table@
                    &&& plan@[i].name@ == spec_partition_name(
                        self.table@,
                        self.spec_tick_start(now_ms, i) as nat,
                    )
                },
    {
        proof {
            lemma_fundamental_div_mod(now_ms as int, self.bucket_ms as int);
            lemma_mod_bound(now_ms as int, self.bucket_ms as int);
            assert((now_ms as int / self.bucket_ms as int) * self.bucket_ms as int
                <= now_ms as int);
            lemma_mul_inequality(
                self.horizon_buckets as int + 1,
                100_001,
                self.bucket_ms as int,
            );
            lemma_mul_inequality(self.bucket_ms as int, 100_000_000_000, 100_001);
        }
        let base: u64 = (now_ms / self.bucket_ms) * self.bucket_ms;
        proof {
            assert(base + (self.horizon_buckets + 1) * self.bucket_ms <= u64::MAX);
        }
        let mut plan: Vec<PartitionDescriptor> = Vec::new();
        let mut i: u64 = 0;
        let mut start: u64 = base;
        while i <= self.horizon_buckets
            invariant
                self.wf(),
                base == self.spec_bucket_start(now_ms),
                i <= self.horizon_buckets + 1,
                start == base + i * self.bucket_ms,
                base + (self.horizon_buckets + 1) * self.bucket_ms <= u64::MAX,
                plan@.len() == i,
                forall|j: int|
                    0 <= j < plan@.len() ==> {
                        &&& (#[trigger] plan@[j]).start_ms == self.spec_tick_start(now_ms, j)
                        &&& plan@[j].end_ms == self.spec_tick_start(now_ms, j) + self.bucket_ms
                        &&& plan@[j].table@ == self.table@
                        &&& plan@[j].name@ == spec_partition_name(
                            self.table@,
                            self.spec_tick_start(now_ms, j) as nat,
                        )
                    },
            decreases self.horizon_buckets + 1 - i,
        {
            proof {
                lemma_mul_is_distributive_add_other_way(
                    self.bucket_ms as int,
                    i as int,
                    1,
                );
                lemma_mul_inequality(
                    i as int + 1,
                    self.horizon_buckets as int + 1,
                    self.bucket_ms as int,
                );
            }
            let end = start + self.bucket_ms;
            let name = partition_name(&self.table, start);
            let table = self.table.clone();
            plan.push(PartitionDescriptor { table, start_ms: start, end_ms: end, name });
            i = i + 1;
            start = end;
        }
        plan
    }

    /// The prune cut-off for a tick at `now_ms`: the start of the oldest
    /// bucket still retained. Buckets strictly below it have expired.
    pub open spec fn spec_prune_cutoff(self, now_ms: u64) -> int
        recommends
            self.wf(),
    {
        if self.spec_bucket_start(now_ms) >= self.retention_buckets * self.bucket_ms {
            self.spec_bucket_start(now_ms) - self.retention_buckets * self.bucket_ms
        } else {
            0
        }
    }

    /// Compute the prune cut-off for a tick at `now_ms`.
    pub fn prune_cutoff(&self, now_ms: u64) -> (cutoff: u64)
        requires
            self.wf(),
            now_ms <= MAX_TICK_TIME_MS,
        ensures
            cutoff == self.spec_prune_cutoff(now_ms),
    {
        proof {
            lemma_fundamental_div_mod(now_ms as int, self.bucket_ms as int);
            lemma_mod_bound(now_ms as int, self.bucket_ms as int);
            assert((now_ms as int / self.bucket_ms as int) * self.bucket_ms as int
                <= now_ms as int);
            lemma_mul_inequality(
                self.retention_buckets as int,
                100_000,
                self.bucket_ms as int,
            );
            lemma_mul_inequality(self.bucket_ms as int, 100_000_000_000, 100_000);
        }
        let base: u64 = (now_ms / self.bucket_ms) * self.bucket_ms;
        let span = self.retention_buckets * self.bucket_ms;
        if base >= span {
            base - span
        } else {
            0
        }
    }

    /// The bucket starts a tick at `now_ms` must supply.
    pub open spec fn spec_tick_targets(self, now_ms: u64) -> Set<u64>
        recommends
            self.wf(),
    {
        Set::new(
            |s: u64|
                exists|i: int|
                    0 <= i <= self.horizon_buckets && s == self.spec_tick_start(now_ms, i),
        )
    }

    /// Run one maintenance tick against the catalog: issue the idempotent
    /// "create if absent" for the current bucket and the `horizon_buckets`
    /// following it. Returns how many buckets were actually created; buckets
    /// already present are left exactly as they were, so a repeated tick for
    /// the same instant changes nothing and creates nothing.
    pub fn run_tick(&self, catalog: &mut PartitionCatalog, now_ms: u64) -> (created: usize)
        requires
            self.wf(),
            now_ms <= MAX_TICK_TIME_MS,
            old(catalog).wf(),
        ensures
            final(catalog).wf(),
            final(catalog).spec_set() == old(catalog).spec_set().union(
                self.spec_tick_targets(now_ms),
            ),
            created == 0 <==> self.spec_tick_targets(now_ms).subset_of(
                old(catalog).spec_set(),
            ),
            self.spec_tick_targets(now_ms).subset_of(old(catalog).spec_set())
                ==> *final(catalog) == *old(catalog),
    {
        let plan = self.plan_tick(now_ms);
        let ghost targets = self.spec_tick_targets(now_ms);
        let mut created: usize = 0;
        let mut k: usize = 0;
        while k < plan.len()
            invariant
                self.wf(),
                old(catalog).wf(),
                catalog.wf(),
                k <= plan@.len(),
                created <= k,
                plan@.len() == self.horizon_buckets + 1,
                forall|i: int|
                    0 <= i < plan@.len() ==> (#[trigger] plan@[i]).start_ms
                        == self.spec_tick_start(now_ms, i),
                catalog.spec_set() =~= old(catalog).spec_set().union(
                    Set::new(
                        |s: u64|
                            exists|i: int| 0 <= i < k && s == self.spec_tick_start(now_ms, i),
                    ),
                ),
                created == 0 <==> forall|i: int|
                    0 <= i < k ==> old(catalog).spec_set().contains(
                        #[trigger] plan@[i].start_ms,
                    ),
                (forall|i: int|
                    0 <= i < k ==> old(catalog).spec_set().contains(
                        #[trigger] plan@[i].start_ms,
                    )) ==> *catalog == *old(catalog),
            decreases plan@.len() - k,
        {
            let ghost pre = *catalog;
            let was_created = catalog.ensure(plan[k].start_ms);
            if was_created {
                created = created + 1;
            }
            proof {
                assert forall|i: int| 0 <= i < self.horizon_buckets + 1 implies
                    self.spec_tick_start(now_ms, i) >= 0 by {
                    lemma_mul_inequality(0, i, self.bucket_ms as int);
                    lemma_fundamental_div_mod(now_ms as int, self.bucket_ms as int);
                    lemma_mod_bound(now_ms as int, self.bucket_ms as int);
                }
                if !was_created {
                    assert(pre.spec_set().contains(plan@[k as int].start_ms));
                }
                assert(catalog.spec_set() =~= old(catalog).spec_set().union(
                    Set::new(
                        |s: u64|
                            exists|i: int|
                                0 <= i < k + 1 && s == self.spec_tick_start(now_ms, i),
                    ),
                ));
            }
            k = k + 1;
        }
        proof {
            assert(catalog.spec_set() =~= old(catalog).spec_set().union(targets));
            if created == 0 {
                assert forall|s: u64| targets.contains(s) implies old(catalog).spec_set()
                    .contains(s) by {
                    let i = choose|i: int|
                        0 <= i <= self.horizon_buckets && s == self.spec_tick_start(now_ms, i);
                    assert(plan@[i].start_ms == self.spec_tick_start(now_ms, i));
                }
            }
            if targets.subset_of(old(catalog).spec_set()) {
                assert forall|i: int|
                    0 <= i < plan@.len() implies old(catalog).spec_set().contains(
                        #[trigger] plan@[i].start_ms,
                    ) by {
                    assert(targets.contains(plan@[i].start_ms));
                }
            }
        }
        created
    }

    /// Prune expired buckets: every bucket whose start lies strictly below
    /// the retention cut-off for `now_ms` is dropped; everything else is
    /// kept. Running it a second time for the same instant drops nothing.
    pub fn prune_expired(&self, catalog: &mut PartitionCatalog, now_ms: u64) -> (dropped: usize)
        requires
            self.wf(),
            now_ms <= MAX_TICK_TIME_MS,
            old(catalog).wf(),
        ensures
            final(catalog).wf(),
            final(catalog).spec_set() == old(catalog).spec_set().filter(
                |s: u64| s >= self.spec_prune_cutoff(now_ms),
            ),
            dropped == 0 ==> *final(catalog) == *old(catalog),
    {
        let cutoff = self.prune_cutoff(now_ms);
        catalog.prune_before(cutoff)
    }
}

/// The set of buckets that exist for one partitioned table, identified by
/// their start instants. This is the state the maintenance statements act on:
/// `ensure` is "create if absent", `prune_before` drops expired buckets.
pub struct PartitionCatalog {
    /// The start of each existing bucket, without duplicates.
    pub present: Vec<u64>,
}

impl PartitionCatalog {
    /// No bucket is recorded twice.
    pub open spec fn wf(self) -> bool {
        forall|i: int, j: int|
            0 <= i < j < self.present@.len() ==> self.present@[i] != self.present@[j]
    }

    /// The buckets that exist, as a set.
    pub open spec fn spec_set(self) -> Set<u64> {
        self.present@.to_set()
    }

    /// Whether the bucket starting at `start_ms` exists.
    pub open spec fn spec_has(self, start_ms: u64) -> bool {
        self.spec_set().contains(start_ms)
    }

    /// An empty catalog.
    pub fn new() -> (c: Self)
        ensures
            c.wf(),
            c.spec_set() =~= Set::<u64>::empty(),
    {
        PartitionCatalog { present: Vec::new() }
    }

    /// Whether the bucket starting at `start_ms` exists.
    pub fn has(&self, start_ms: u64) -> (r: bool)
        ensures
            r == self.spec_has(start_ms),
    {
        let mut i: usize = 0;
        while i < self.present.len()
            invariant
                i <= self.present@.len(),
                forall|j: int| 0 <= j < i ==> self.present@[j] != start_ms,
            decreases self.present@.len() - i,
        {
            if self.present[i] == start_ms {
                return true;
            }
            i = i + 1;
        }
        false
    }

    /// How many buckets exist.
    pub fn len(&self) -> (n: usize)
        ensures
            n == self.present@.len(),
    {
        self.present.len()
    }

    /// Idempotent "create the bucket if it does not exist". A bucket already
    /// present leaves the catalog untouched, bit for bit.
    pub fn ensure(&mut self, start_ms: u64) -> (created: bool)
        requires
            old(self).wf(),
        ensures
            final(self).wf(),
            final(self).spec_set() == old(self).spec_set().insert(start_ms),
            created == !old(self).spec_has(start_ms),
            !created ==> *final(self) == *old(self),
    {
        if self.has(start_ms) {
            proof {
                assert(self.spec_set() =~= self.spec_set().insert(start_ms));
            }
            false
        } else {
            self.present.push(start_ms);
            proof {
                assert(self.present@ =~= old(self).present@ + seq![start_ms]);
                Seq::<u64>::lemma_to_set_insert_commutes(old(self).present@, start_ms);
            }
            true
        }
    }

    /// Drop every bucket that starts strictly before `cutoff_ms`; keep the
    /// rest. Returns how many buckets were dropped; when nothing is expired
    /// the catalog is left untouched, bit for bit.
    pub fn prune_before(&mut self, cutoff_ms: u64) -> (dropped: usize)
        requires
            old(self).wf(),
        ensures
            final(self).wf(),
            final(self).spec_set() == old(self).spec_set().filter(|s: u64| s >= cutoff_ms),
            dropped == 0 ==> *final(self) == *old(self),
    {
        let mut expired = false;
        let mut i: usize = 0;
        while i < self.present.len()
            invariant
                i <= self.present@.len(),
                expired <==> exists|j: int| 0 <= j < i && self.present@[j] < cutoff_ms,
            decreases self.present@.len() - i,
        {
            if self.present[i] < cutoff_ms {
                expired = true;
            }
            i = i + 1;
        }
        if !expired {
            proof {
                assert(self.spec_set() =~= self.spec_set().filter(|s: u64| s >= cutoff_ms));
            }
            return 0;
        }
        let mut kept: Vec<u64> = Vec::new();
        let mut dropped: usize = 0;
        let mut i: usize = 0;
        while i < self.present.len()
            invariant
                old(self).wf(),
                self == old(self),
                i <= self.present@.len(),
                dropped <= i,
                kept@.len() + dropped == i,
                forall|a: int|
                    0 <= a < kept@.len() ==> exists|j: int|
                        0 <= j < i && #[trigger] kept@[a] == old(self).present@[j],
                forall|a: int, b: int| 0 <= a < b < kept@.len() ==> kept@[a] != kept@[b],
                forall|a: int| 0 <= a < kept@.len() ==> #[trigger] kept@[a] >= cutoff_ms,
                forall|j: int|
                    0 <= j < i && #[trigger] old(self).present@[j] >= cutoff_ms
                        ==> kept@.contains(old(self).present@[j]),
                (exists|j: int| 0 <= j < i && #[trigger] old(self).present@[j] < cutoff_ms)
                    ==> dropped >= 1,
            decreases self.present@.len() - i,
        {
            let ghost pre_kept = kept@;
            let v = self.present[i];
            if v >= cutoff_ms {
                proof {
                    assert forall|a: int| 0 <= a < pre_kept.len() implies pre_kept[a] != v by {
                        let j = choose|j: int|
                            0 <= j < i && pre_kept[a] == old(self).present@[j];
                        assert(old(self).present@[j] != old(self).present@[i as int]);
                    }
                }
                kept.push(v);
                proof {
                    assert(kept@[kept@.len() - 1] == old(self).present@[i as int]);
                }
            } else {
                dropped = dropped + 1;
            }
            proof {
                assert forall|j: int|
                    0 <= j < i + 1 && #[trigger] old(self).present@[j] >= cutoff_ms
                        implies kept@.contains(old(self).present@[j]) by {
                    if j < i {
                        let a = choose|a: int|
                            0 <= a < pre_kept.len() && pre_kept[a] == old(self).present@[j];
                        assert(kept@[a] == old(self).present@[j]);
                    }
                }
            }
            i = i + 1;
        }
        proof {
            let ghost target = old(self).spec_set().filter(|s: u64| s >= cutoff_ms);
            assert forall|x: u64| kept@.to_set().contains(x) implies target.contains(x) by {
                let a = choose|a: int| 0 <= a < kept@.len() && kept@[a] == x;
                let j = choose|j: int|
                    0 <= j < self.present@.len() && kept@[a] == old(self).present@[j];
                assert(old(self).present@.contains(old(self).present@[j]));
            }
            assert forall|x: u64| target.contains(x) implies kept@.to_set().contains(x) by {
                let j = choose|j: int|
                    0 <= j < old(self).present@.len() && old(self).present@[j] == x;
                assert(kept@.contains(old(self).present@[j]));
            }
            assert(kept@.to_set() =~= target);
        }
        self.present = kept;
        dropped
    }
}

/// Law (idempotence of the tick): supplying the same tick's buckets a second
/// time changes nothing — once a catalog holds a tick's targets, applying
/// them again yields the very same catalog contents.
pub proof fn lemma_tick_idempotent(m: PartitionManager, before: Set<u64>, now_ms: u64)
    ensures
        before.union(m.spec_tick_targets(now_ms)).union(m.spec_tick_targets(now_ms))
            =~= before.union(m.spec_tick_targets(now_ms)),
{
}

/// Law (idempotence of pruning): pruning with the same cut-off a second time
/// drops nothing more.
pub proof fn lemma_prune_idempotent(s: Set<u64>, cutoff: int)
    ensures
        s.filter(|x: u64| x >= cutoff).filter(|x: u64| x >= cutoff) =~= s.filter(
            |x: u64| x >= cutoff,
        ),
{
}

} // verus!
