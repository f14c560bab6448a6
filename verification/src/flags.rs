//! Cached feature-flag store: an in-memory snapshot of the durable flag
//! table, replaced wholesale on refresh, read without touching the database,
//! and updated only after the durable write is known to have committed.

use vstd::prelude::*;

verus! {

/// One named, dynamically toggleable configuration value. The durable copy
/// lives in a table keyed by `name`; this is its cached image.
pub struct FeatureFlag {
    pub name: String,
    pub enabled: bool,
    pub updated_at_ms: u64,
}

/// Outcome of the durable write the caller performed against the flag table
/// before touching the cache.
#[derive(Clone, Copy, PartialEq, Eq, Structural, Debug)]
pub enum WriteOutcome {
    Committed,
    Failed,
}

/// Some flag in `flags` carries `name`.
pub open spec fn spec_has_flag(flags: Seq<FeatureFlag>, name: Seq<char>) -> bool {
    exists|i: int| 0 <= i < flags.len() && flags[i].name@ == name
}

/// The flag in `flags` carrying `name`; meaningful when names are unique.
pub open spec fn spec_flag_of(flags: Seq<FeatureFlag>, name: Seq<char>) -> FeatureFlag
    recommends
        spec_has_flag(flags, name),
{
    flags[choose|i: int| 0 <= i < flags.len() && flags[i].name@ == name]
}

/// The answer a read of `name` gets from the snapshot `flags`: the flag's
/// value, or the documented default — disabled — when the name is absent.
pub open spec fn spec_get(flags: Seq<FeatureFlag>, name: Seq<char>) -> bool {
    if spec_has_flag(flags, name) {
        spec_flag_of(flags, name).enabled
    } else {
        false
    }
}

/// No two flags carry the same name, as the durable table's key guarantees.
pub open spec fn spec_names_unique(flags: Seq<FeatureFlag>) -> bool {
    forall|i: int, j: int|
        0 <= i < j < flags.len() ==> (#[trigger] flags[i].name@) != (#[trigger] flags[j].name@)
}

/// With unique names, the flag at any index is exactly what a read of its
/// name observes.
pub proof fn lemma_get_from_witness(flags: Seq<FeatureFlag>, i: int)
    requires
        spec_names_unique(flags),
        0 <= i < flags.len(),
    ensures
        spec_has_flag(flags, flags[i].name@),
        spec_flag_of(flags, flags[i].name@) == flags[i],
        spec_get(flags, flags[i].name@) == flags[i].enabled,
{
    assert(spec_has_flag(flags, flags[i].name@));
    let j = choose|j: int| 0 <= j < flags.len() && flags[j].name@ == flags[i].name@;
    assert(j == i);
}

/// A name no flag carries reads as the default.
pub proof fn lemma_get_absent(flags: Seq<FeatureFlag>, name: Seq<char>)
    requires
        forall|i: int| 0 <= i < flags.len() ==> (#[trigger] flags[i].name@) != name,
    ensures
        !spec_has_flag(flags, name),
        spec_get(flags, name) == false,
{
}

/// The flag cache and its generation stamp. The cache is one complete
/// snapshot: refresh replaces it as a unit, reads never block on the store.
pub struct FeatureFlagService {
    /// The current snapshot, keyed by flag name.
    pub cache: Vec<FeatureFlag>,
    /// When the snapshot was last refreshed from the durable store.
    pub generation_ms: u64,
}

impl FeatureFlagService {
    /// The cache respects the durable table's key: names are unique.
    pub open spec fn wf(self) -> bool {
        spec_names_unique(self.cache@)
    }

    /// A service with an empty cache: every read gets the default until the
    /// first refresh.
    pub fn new() -> (s: Self)
        ensures
            s.wf(),
            s.cache@.len() == 0,
            s.generation_ms == 0,
    {
        FeatureFlagService { cache: Vec::new(), generation_ms: 0 }
    }

    /// Read a flag from the cache alone: its cached value, or disabled when
    /// the name is absent. Never touches the durable store.
    pub fn get(&self, name: &String) -> (enabled: bool)
        requires
            self.wf(),
        ensures
            enabled == spec_get(self.cache@, name@),
    {
        let n = self.cache.len();
        let mut i: usize = 0;
        while i < n
            invariant
                self.wf(),
                n == self.cache@.len(),
                i <= n,
                forall|j: int| 0 <= j < i ==> (#[trigger] self.cache@[j].name@) != name@,
            decreases n - i,
        {
            if self.cache[i].name == *name {
                proof {
                    lemma_get_from_witness(self.cache@, i as int);
                }
                return self.cache[i].enabled;
            }
            i = i + 1;
        }
        proof {
            lemma_get_absent(self.cache@, name@);
        }
        false
    }

    /// Replace the whole snapshot as one unit and stamp the generation.
    /// Readers of the new state observe exactly `flags`: nothing of the
    /// previous snapshot survives, and no mix of the two can be seen.
    pub fn install_snapshot(&mut self, flags: Vec<FeatureFlag>, now_ms: u64)
        requires
            spec_names_unique(flags@),
        ensures
            final(self).wf(),
            final(self).cache@ == flags@,
            final(self).generation_ms == now_ms,
    {
        self.cache = flags;
        self.generation_ms = now_ms;
    }

    /// Digest one refresh attempt. A successful load installs the fresh
    /// snapshot wholesale; a failed load keeps the last good snapshot
    /// serving reads — the cache is never cleared on failure.
    pub fn finish_refresh(&mut self, loaded: Option<Vec<FeatureFlag>>, now_ms: u64) -> (refreshed:
        bool)
        requires
            old(self).wf(),
            loaded matches Some(flags) ==> spec_names_unique(flags@),
        ensures
            final(self).wf(),
            loaded matches Some(flags) ==> refreshed && final(self).cache@ == flags@
                && final(self).generation_ms == now_ms,
            loaded is None ==> !refreshed && *final(self) == *old(self),
    {
        match loaded {
            Some(flags) => {
                self.install_snapshot(flags, now_ms);
                true
            },
            None => false,
        }
    }

    /// The administrative update path, entered only after the caller issued
    /// the durable write and learned its outcome. A committed write makes
    /// the new value visible to the very next read; a failed write leaves
    /// the cache untouched and reports the failure.
    pub fn update(&mut self, name: &String, enabled: bool, now_ms: u64, write: WriteOutcome) -> (ok:
        bool)
        requires
            old(self).wf(),
        ensures
            final(self).wf(),
            final(self).generation_ms == old(self).generation_ms,
            write == WriteOutcome::Failed ==> !ok && *final(self) == *old(self),
            write == WriteOutcome::Committed ==> ok && {
                &&& spec_has_flag(final(self).cache@, name@)
                &&& spec_flag_of(final(self).cache@, name@).enabled == enabled
                &&& spec_flag_of(final(self).cache@, name@).updated_at_ms == now_ms
                &&& spec_get(final(self).cache@, name@) == enabled
                &&& forall|other: Seq<char>|
                    other != name@ ==> spec_get(final(self).cache@, other) == spec_get(
                        old(self).cache@,
                        other,
                    )
            },
    {
        match write {
            WriteOutcome::Failed => false,
            WriteOutcome::Committed => {
                let n = self.cache.len();
                let mut i: usize = 0;
                while i < n
                    invariant
                        write == WriteOutcome::Committed,
                        self == old(self),
                        old(self).wf(),
                        n == self.cache@.len(),
                        i <= n,
                        forall|j: int|
                            0 <= j < i ==> (#[trigger] self.cache@[j].name@) != name@,
                    decreases n - i,
                {
                    if self.cache[i].name == *name {
                        let entry = FeatureFlag {
                            name: name.clone(),
                            enabled,
                            updated_at_ms: now_ms,
                        };
                        self.cache.set(i, entry);
                        proof {
                            let pre = old(self).cache@;
                            let post = self.cache@;
                            assert forall|a: int, b: int| 0 <= a < b < post.len() implies (
                            #[trigger] post[a].name@) != (#[trigger] post[b].name@) by {
                                assert(pre[a].name@ != pre[b].name@);
                            }
                            lemma_get_from_witness(post, i as int);
                            assert forall|other: Seq<char>| other != name@ implies spec_get(
                                post,
                                other,
                            ) == spec_get(pre, other) by {
                                lemma_update_preserves_other(pre, post, i as int, name@, other);
                            }
                        }
                        return true;
                    }
                    i = i + 1;
                }
                let entry = FeatureFlag { name: name.clone(), enabled, updated_at_ms: now_ms };
                self.cache.push(entry);
                proof {
                    let pre = old(self).cache@;
                    let post = self.cache@;
                    assert forall|a: int, b: int| 0 <= a < b < post.len() implies (
                    #[trigger] post[a].name@) != (#[trigger] post[b].name@) by {
                        if b < pre.len() {
                            assert(pre[a].name@ != pre[b].name@);
                        }
                    }
                    lemma_get_from_witness(post, pre.len() as int);
                    assert forall|other: Seq<char>| other != name@ implies spec_get(post, other)
                        == spec_get(pre, other) by {
                        lemma_push_preserves_other(pre, post, name@, other);
                    }
                }
                true
            },
        }
    }
}

/// Replacing the flag at `i` — whose name is `name` before and after —
/// leaves the answer for every other name unchanged.
proof fn lemma_update_preserves_other(
    pre: Seq<FeatureFlag>,
    post: Seq<FeatureFlag>,
    i: int,
    name: Seq<char>,
    other: Seq<char>,
)
    requires
        spec_names_unique(pre),
        spec_names_unique(post),
        pre.len() == post.len(),
        0 <= i < pre.len(),
        pre[i].name@ == name,
        post[i].name@ == name,
        forall|k: int| 0 <= k < pre.len() && k != i ==> post[k] == #[trigger] pre[k],
        other != name,
    ensures
        spec_get(post, other) == spec_get(pre, other),
{
    if spec_has_flag(post, other) {
        let k = choose|k: int| 0 <= k < post.len() && post[k].name@ == other;
        assert(k != i);
        assert(pre[k].name@ == other);
        lemma_get_from_witness(post, k);
        lemma_get_from_witness(pre, k);
    } else {
        if spec_has_flag(pre, other) {
            let k = choose|k: int| 0 <= k < pre.len() && pre[k].name@ == other;
            assert(k != i);
            assert(post[k].name@ == other);
        }
    }
}

/// Appending a flag named `name` leaves the answer for every other name
/// unchanged.
proof fn lemma_push_preserves_other(
    pre: Seq<FeatureFlag>,
    post: Seq<FeatureFlag>,
    name: Seq<char>,
    other: Seq<char>,
)
    requires
        spec_names_unique(pre),
        spec_names_unique(post),
        post.len() == pre.len() + 1,
        post[pre.len() as int].name@ == name,
        forall|k: int| 0 <= k < pre.len() ==> post[k] == #[trigger] pre[k],
        other != name,
    ensures
        spec_get(post, other) == spec_get(pre, other),
{
    if spec_has_flag(post, other) {
        let k = choose|k: int| 0 <= k < post.len() && post[k].name@ == other;
        assert(k != pre.len());
        assert(pre[k].name@ == other);
        lemma_get_from_witness(post, k);
        lemma_get_from_witness(pre, k);
    } else {
        if spec_has_flag(pre, other) {
            let k = choose|k: int| 0 <= k < pre.len() && pre[k].name@ == other;
            assert(post[k].name@ == other);
        }
    }
}

/// Check that a freshly loaded snapshot respects the durable key: no name
/// occurs twice.
pub fn names_unique(flags: &Vec<FeatureFlag>) -> (r: bool)
    ensures
        r == spec_names_unique(flags@),
{
    let n = flags.len();
    let mut i: usize = 0;
    while i < n
        invariant
            n == flags@.len(),
            i <= n,
            forall|a: int, b: int|
                0 <= a < b < n && a < i ==> (#[trigger] flags@[a].name@) != (
                #[trigger] flags@[b].name@),
        decreases n - i,
    {
        let mut j: usize = i + 1;
        while j < n
            invariant
                n == flags@.len(),
                i < n,
                i + 1 <= j <= n,
                forall|b: int|
                    i < b < j ==> (#[trigger] flags@[b].name@) != flags@[i as int].name@,
            decreases n - j,
        {
            if flags[i].name == flags[j].name {
                return false;
            }
            j = j + 1;
        }
        i = i + 1;
    }
    true
}

/// Law (snapshot atomicity, sequentially): a read is answered from one
/// complete snapshot alone. Whatever two states a service was in before,
/// once the same snapshot is installed — as `install_snapshot` ensures —
/// every read of every name agrees: no read can observe a mix of an old and
/// a new snapshot.
pub proof fn lemma_snapshot_determines_reads(
    snapshot: Seq<FeatureFlag>,
    s1: FeatureFlagService,
    s2: FeatureFlagService,
)
    requires
        s1.cache@ == snapshot,
        s2.cache@ == snapshot,
    ensures
        forall|name: Seq<char>| spec_get(s1.cache@, name) == spec_get(s2.cache@, name),
{
}

} // verus!
