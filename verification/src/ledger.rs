//! Counts of GPU uses per shared client buffer.

use std::collections::HashMap;
use vstd::prelude::*;

use crate::table::table_keys;

verus! {

broadcast use vstd::std_specs::hash::group_hash_axioms;

/// How often each client buffer is in use by the GPU.
pub struct AcquiredSources {
    uses: HashMap<u64, usize>,
}

/// A batch of uses that end together.
pub struct SourceRetirementPlan {
    /// Uses that end, per buffer.
    pub counts: HashMap<u64, usize>,
    /// Buffers whose last use ends with the batch.
    pub releases: Vec<u64>,
}

/// A batch that would end more uses of a buffer than there are.
#[derive(Clone, Copy, Debug, PartialEq, Eq, Structural)]
pub struct RetirementUnderflow {
    pub retiring: usize,
    pub acquired: usize,
}

/// How often `source` is in use.
pub open spec fn uses_of(uses: Map<u64, usize>, source: u64) -> nat {
    if uses.contains_key(source) {
        uses[source] as nat
    } else {
        0
    }
}

impl View for AcquiredSources {
    type V = Map<u64, usize>;

    closed spec fn view(&self) -> Map<u64, usize> {
        self.uses@
    }
}

/// Whether every listed buffer is in use.
pub open spec fn ledger_wf(uses: Map<u64, usize>) -> bool {
    forall|source: u64| #[trigger] uses.contains_key(source) ==> uses[source] > 0
}

/// Whether the batch ends no more uses than there are.
pub open spec fn batch_fits(uses: Map<u64, usize>, sources: Seq<u64>) -> bool {
    forall|source: u64|
        #![trigger sources.to_multiset().count(source)]
        sources.to_multiset().count(source) <= uses_of(uses, source)
}

/// The counts of a batch.
pub open spec fn batch_counts(counts: Map<u64, usize>, sources: Seq<u64>) -> bool {
    forall|source: u64|
        #![trigger counts.contains_key(source)]
        #![trigger sources.to_multiset().count(source)]
        uses_of(counts, source) == sources.to_multiset().count(source) && (counts.contains_key(
            source,
        ) <==> sources.to_multiset().count(source) > 0)
}

impl Default for AcquiredSources {
    fn default() -> (acquired: AcquiredSources)
        ensures
            acquired@ == Map::<u64, usize>::empty(),
            ledger_wf(acquired@),
    {
        AcquiredSources { uses: HashMap::new() }
    }
}

impl AcquiredSources {
    pub fn contains(&self, source: u64) -> (acquired: bool)
        ensures
            acquired == self@.contains_key(source),
    {
        self.uses.contains_key(&source)
    }

    /// Counts one more use of `source`.
    pub fn retain(&mut self, source: u64)
        requires
            uses_of(old(self)@, source) < usize::MAX,
        ensures
            final(self)@ == old(self)@.insert(
                source,
                (uses_of(old(self)@, source) + 1) as usize,
            ),
            ledger_wf(old(self)@) ==> ledger_wf(final(self)@),
    {
        let uses: usize = match self.uses.get(&source) {
            Some(uses) => *uses,
            None => 0,
        };
        self.uses.insert(source, uses + 1);
    }

    /// Plans the end of one use for each of `sources`.
    pub fn plan_retirements(&self, sources: &Vec<u64>) -> (plan: Result<
        SourceRetirementPlan,
        RetirementUnderflow,
    >)
        ensures
            plan is Ok <==> batch_fits(self@, sources@),
            match plan {
                Ok(plan) => {
                    &&& batch_counts(plan.counts@, sources@)
                    &&& plan.releases@.no_duplicates()
                    &&& forall|source: u64|
                        #![trigger plan.releases@.contains(source)]
                        plan.releases@.contains(source) <==> plan.counts@.contains_key(source)
                            && plan.counts@[source] == uses_of(self@, source)
                },
                Err(underflow) => exists|source: u64|
                    {
                        &&& #[trigger] sources@.to_multiset().count(source) == underflow.retiring
                        &&& uses_of(self@, source) == underflow.acquired
                        &&& underflow.retiring > underflow.acquired
                    },
            },
    {
        let counts = count_sources(sources);
        let listed = table_keys(&counts);
        let mut releases: Vec<u64> = Vec::new();
        let mut i: usize = 0;
        while i < listed.len()
            invariant
                i <= listed@.len(),
                listed@.no_duplicates(),
                forall|key: u64| #[trigger] listed@.contains(key) <==> counts@.contains_key(key),
                batch_counts(counts@, sources@),
                forall|k: int|
                    0 <= k < i ==> uses_of(counts@, #[trigger] listed@[k]) <= uses_of(
                        self@,
                        listed@[k],
                    ),
                releases@.no_duplicates(),
                forall|source: u64| #[trigger]
                    releases@.contains(source) <==> exists|k: int|
                        0 <= k < i && #[trigger] listed@[k] == source && counts@[source]
                            == uses_of(self@, source),
            decreases listed@.len() - i,
        {
            let source: u64 = listed[i];
            assert(listed@.contains(source));
            let retiring: usize = match counts.get(&source) {
                Some(retiring) => *retiring,
                None => 0,
            };
            let acquired: usize = match self.uses.get(&source) {
                Some(acquired) => *acquired,
                None => 0,
            };
            if retiring > acquired {
                assert(sources@.to_multiset().count(source) == retiring);
                return Err(RetirementUnderflow { retiring, acquired });
            }
            let ghost before = releases@;
            if retiring == acquired {
                assert(!releases@.contains(source));
                releases.push(source);
                assert(releases@.no_duplicates()) by {
                    assert forall|a: int, b: int|
                        0 <= a < b < releases@.len() implies releases@[a] != releases@[b] by {
                        if b == before.len() {
                            assert(before.contains(before[a]));
                        }
                    }
                }
                assert forall|other: u64| #[trigger]
                    releases@.contains(other) <==> before.contains(other) || other == source by {
                    if before.contains(other) {
                        let k = choose|k: int| 0 <= k < before.len() && before[k] == other;
                        assert(releases@[k] == other);
                    }
                    assert(releases@.last() == source);
                }
            }
            assert forall|other: u64| #[trigger]
                releases@.contains(other) <==> exists|k: int|
                    0 <= k < i + 1 && #[trigger] listed@[k] == other && counts@[other] == uses_of(
                        self@,
                        other,
                    ) by {
                if releases@.contains(other) && other != source {
                    assert(before.contains(other));
                }
                if exists|k: int|
                    0 <= k < i + 1 && #[trigger] listed@[k] == other && counts@[other] == uses_of(
                        self@,
                        other,
                    ) {
                    let k = choose|k: int|
                        0 <= k < i + 1 && #[trigger] listed@[k] == other && counts@[other]
                            == uses_of(self@, other);
                    if k < i {
                        assert(before.contains(other));
                    }
                }
            }
            i = i + 1;
        }
        assert forall|source: u64|
            #![trigger sources@.to_multiset().count(source)]
            sources@.to_multiset().count(source) <= uses_of(self@, source) by {
            if sources@.to_multiset().count(source) > 0 {
                assert(counts@.contains_key(source));
                assert(listed@.contains(source));
                let k = choose|k: int| 0 <= k < listed@.len() && listed@[k] == source;
                assert(uses_of(counts@, listed@[k]) <= uses_of(self@, listed@[k]));
            }
        }
        let plan = SourceRetirementPlan { counts, releases };
        assert forall|source: u64|
            #![trigger plan.releases@.contains(source)]
            plan.releases@.contains(source) <==> plan.counts@.contains_key(source) && plan.counts@[source]
                == uses_of(self@, source) by {
            if plan.counts@.contains_key(source) {
                assert(listed@.contains(source));
                let k = choose|k: int| 0 <= k < listed@.len() && listed@[k] == source;
                assert(listed@[k] == source);
            }
            if releases@.contains(source) {
                let k = choose|k: int|
                    0 <= k < listed@.len() && #[trigger] listed@[k] == source && counts@[source]
                        == uses_of(self@, source);
                assert(listed@.contains(source));
            }
        }
        Ok(plan)
    }

    /// Ends the uses of a planned batch.
    pub fn commit_retirements(&mut self, plan: &SourceRetirementPlan)
        requires
            forall|source: u64| #[trigger]
                old(self)@.contains_key(source) && plan.counts@.contains_key(source) ==> plan.counts@[source]
                    <= old(self)@[source],
        ensures
            final(self)@ == retired(old(self)@, plan.counts@),
            ledger_wf(old(self)@) ==> ledger_wf(final(self)@),
    {
        let ghost before = self.uses@;
        assert forall|source: u64| #[trigger]
            before.contains_key(source) && plan.counts@.contains_key(
                source,
            ) implies plan.counts@[source] <= before[source] by {
            assert(self@.contains_key(source) && plan.counts@.contains_key(source));
        }
        let listed = table_keys(&plan.counts);
        let mut i: usize = 0;
        while i < listed.len()
            invariant
                i <= listed@.len(),
                listed@.no_duplicates(),
                forall|key: u64| #[trigger]
                    listed@.contains(key) <==> plan.counts@.contains_key(key),
                forall|source: u64| #[trigger]
                    before.contains_key(source) && plan.counts@.contains_key(source)
                        ==> plan.counts@[source] <= before[source],
                self.uses@ =~= retired(
                    before,
                    plan.counts@.restrict(listed@.take(i as int).to_set()),
                ),
            decreases listed@.len() - i,
        {
            let source: u64 = listed[i];
            assert(listed@.contains(source));
            let ghost done = listed@.take(i as int).to_set();
            let ghost next = listed@.take(i + 1).to_set();
            assert(next =~= done.insert(source)) by {
                broadcast use vstd::seq_lib::group_seq_properties;

                assert(listed@.take(i + 1) =~= listed@.take(i as int).push(source));
            }
            assert(!done.contains(source)) by {
                if done.contains(source) {
                    let k = choose|k: int| 0 <= k < i && listed@.take(i as int)[k] == source;
                    assert(listed@[k] == listed@[i as int]);
                }
            }
            let ghost before_step = self.uses@;
            let retiring: usize = match plan.counts.get(&source) {
                Some(retiring) => *retiring,
                None => 0,
            };
            let acquired: Option<usize> = match self.uses.get(&source) {
                Some(acquired) => Some(*acquired),
                None => None,
            };
            match acquired {
                Some(acquired) => {
                    assert(before.contains_key(source));
                    let left: usize = acquired - retiring;
                    if left == 0 {
                        self.uses.remove(&source);
                    } else {
                        self.uses.insert(source, left);
                    }
                },
                None => {},
            }
            i = i + 1;
        }
        assert(listed@.take(i as int) =~= listed@);
        assert(plan.counts@.restrict(listed@.to_set()) =~= plan.counts@) by {
            assert forall|key: u64| #[trigger] plan.counts@.contains_key(key) implies listed@.to_set().contains(
                key,
            ) by {
                assert(listed@.contains(key));
            }
        }
    }

    /// Every buffer in use, each once, in no particular order.
    pub fn images(&self) -> (images: Vec<u64>)
        ensures
            images@.no_duplicates(),
            forall|source: u64| #[trigger] images@.contains(source) <==> self@.contains_key(source),
    {
        table_keys(&self.uses)
    }

    pub fn clear(&mut self)
        ensures
            final(self)@ == Map::<u64, usize>::empty(),
    {
        self.uses.clear();
    }
}

/// The uses left after a batch of `counts` ended; buffers without a use left
/// are dropped.
pub open spec fn retired(uses: Map<u64, usize>, counts: Map<u64, usize>) -> Map<u64, usize> {
    Map::new(
        |source: u64|
            uses.contains_key(source) && !(counts.contains_key(source) && counts[source]
                == uses[source]),
        |source: u64|
            if counts.contains_key(source) {
                (uses[source] - counts[source]) as usize
            } else {
                uses[source]
            },
    )
}

fn count_sources(sources: &Vec<u64>) -> (counts: HashMap<u64, usize>)
    ensures
        batch_counts(counts@, sources@),
{
    let mut counts: HashMap<u64, usize> = HashMap::new();
    let mut i: usize = 0;
    assert(batch_counts(counts@, sources@.take(0))) by {
        assert(sources@.take(0) =~= Seq::<u64>::empty());
        Seq::<u64>::empty().to_multiset_ensures();
    }
    while i < sources.len()
        invariant
            i <= sources@.len(),
            batch_counts(counts@, sources@.take(i as int)),
        decreases sources@.len() - i,
    {
        let source: u64 = sources[i];
        let ghost done = sources@.take(i as int);
        let ghost before = counts@;
        proof {
            assert(sources@.take(i + 1) =~= done.push(source));
            done.to_multiset_ensures();
            count_is_bounded(done, source);
            assert(uses_of(before, source) == done.to_multiset().count(source));
        }
        let count: usize = match counts.get(&source) {
            Some(count) => *count,
            None => 0,
        };
        counts.insert(source, count + 1);
        assert forall|other: u64|
            #![trigger counts@.contains_key(other)]
            #![trigger sources@.take(i + 1).to_multiset().count(other)]
            uses_of(counts@, other) == sources@.take(i + 1).to_multiset().count(other) && (
            counts@.contains_key(other) <==> sources@.take(i + 1).to_multiset().count(other) > 0) by {
            assert(uses_of(before, other) == done.to_multiset().count(other));
        }
        i = i + 1;
    }
    assert(sources@.take(i as int) =~= sources@);
    counts
}

proof fn count_is_bounded(sources: Seq<u64>, source: u64)
    ensures
        sources.to_multiset().count(source) <= sources.len(),
    decreases sources.len(),
{
    sources.to_multiset_ensures();
    if sources.len() > 0 {
        count_is_bounded(sources.drop_last(), source);
        sources.drop_last().to_multiset_ensures();
        assert(sources =~= sources.drop_last().push(sources.last()));
    }
}

/// A shared buffer stays in use until its last use ends: a batch releases it
/// exactly when no use is left.
pub proof fn buffers_are_released_with_their_last_use(
    uses: Map<u64, usize>,
    counts: Map<u64, usize>,
    source: u64,
)
    requires
        uses.contains_key(source),
        counts.contains_key(source),
        counts[source] <= uses[source],
    ensures
        retired(uses, counts).contains_key(source) <==> counts[source] < uses[source],
        uses_of(retired(uses, counts), source) == uses[source] - counts[source],
{
}

/// A batch leaves the buffers alone that it does not count, and ends as many uses
/// of the others as it counts.
pub proof fn batches_end_the_uses_they_count(
    uses: Map<u64, usize>,
    counts: Map<u64, usize>,
    source: u64,
)
    requires
        ledger_wf(uses),
        uses_of(counts, source) <= uses_of(uses, source),
    ensures
        uses_of(retired(uses, counts), source) == uses_of(uses, source) - uses_of(counts, source),
        !counts.contains_key(source) ==> (retired(uses, counts).contains_key(source)
            <==> uses.contains_key(source)),
{
}

/// A batch fits just if no buffer occurs in it more often than it is in use.
pub proof fn fitting_batches_end_no_unknown_use(
    uses: Map<u64, usize>,
    sources: Seq<u64>,
    i: int,
)
    requires
        batch_fits(uses, sources),
        0 <= i < sources.len(),
    ensures
        uses.contains_key(sources[i]) && uses[sources[i]] > 0,
{
    sources.to_multiset_ensures();
    assert(sources.contains(sources[i]));
    assert(sources.to_multiset().count(sources[i]) > 0);
}

/// A batch may end uses up to the last one: a batch that fits still does with one
/// more use of a buffer just if the batch leaves one, and the empty batch always
/// fits.
pub proof fn batches_fit_up_to_the_last_use(uses: Map<u64, usize>, sources: Seq<u64>, source: u64)
    requires
        batch_fits(uses, sources),
    ensures
        batch_fits(uses, Seq::<u64>::empty()),
        batch_fits(uses, sources.push(source)) <==> sources.to_multiset().count(source) < uses_of(
            uses,
            source,
        ),
{
    broadcast use vstd::multiset::group_multiset_axioms;

    Seq::<u64>::empty().to_multiset_ensures();
    sources.to_multiset_ensures();
    assert(sources.push(source).to_multiset() =~= sources.to_multiset().insert(source));
    assert forall|other: u64|
        #![trigger Seq::<u64>::empty().to_multiset().count(other)]
        Seq::<u64>::empty().to_multiset().count(other) <= uses_of(uses, other) by {
        if Seq::<u64>::empty().to_multiset().count(other) > 0 {
            assert(Seq::<u64>::empty().contains(other));
        }
    }
    let longer = sources.push(source);
    if sources.to_multiset().count(source) < uses_of(uses, source) {
        assert forall|other: u64|
            #![trigger longer.to_multiset().count(other)]
            longer.to_multiset().count(other) <= uses_of(uses, other) by {
            assert(sources.to_multiset().count(other) <= uses_of(uses, other));
        }
    } else {
        assert(longer.to_multiset().count(source) == sources.to_multiset().count(source) + 1);
    }
}

} // verus!
