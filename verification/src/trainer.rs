//! The training run plan: everything the mini-batch loop decides.
//!
//! A training run shuffles the sample indices each epoch, walks them in
//! batches, and for each sample builds a one-hot label, runs the model
//! and folds the sample's gradients into the batch accumulators; after a
//! batch it averages and applies them, and after an epoch it measures
//! accuracy on the held-out set.  The numeric passes run on
//! single-precision values outside this crate.  Every decision around
//! them — how many samples take part, how the batches tile the epoch,
//! the shuffled order, the one-hot labels, which class an output vector
//! predicts, and the evaluation denominator — is computed and proved
//! here.

use vstd::prelude::*;
use vstd::seq_lib::group_to_multiset_ensures;

verus! {

/// How many samples of an available set take part, under an optional
/// debug limit: the limit or the whole set, whichever is smaller.
pub open spec fn spec_limited(limit: Option<usize>, available: usize) -> usize {
    match limit {
        Some(l) => if l <= available {
            l
        } else {
            available
        },
        None => available,
    }
}

/// The batch width actually used: the configured one, clamped to at
/// least 1.
pub open spec fn spec_clamped_batch_size(batch_size: usize) -> usize {
    if batch_size >= 1 {
        batch_size
    } else {
        1
    }
}

/// How many batches an epoch of `num_samples` samples has at width
/// `batch_size`: the quotient, rounded up.
pub open spec fn spec_num_batches(num_samples: usize, batch_size: usize) -> usize
    recommends
        batch_size >= 1,
{
    ((num_samples + batch_size - 1) / batch_size as int) as usize
}

/// Where batch `batch_idx` starts in the shuffled index order.
pub open spec fn spec_batch_start(batch_idx: int, batch_size: int) -> int {
    batch_idx * batch_size
}

/// Where batch `batch_idx` ends: one batch width on, cut to the sample
/// count — only the last batch can be short.
pub open spec fn spec_batch_end(batch_idx: int, num_samples: int, batch_size: int) -> int {
    if batch_idx * batch_size + batch_size <= num_samples {
        batch_idx * batch_size + batch_size
    } else {
        num_samples
    }
}

/// The run configuration a trainer owns besides its model, optimizer,
/// loss and datasets: epoch count, batch width, verbosity, and optional
/// sample-count limits for cheap debug runs.
pub struct TrainPlan {
    /// How many epochs to run.
    pub epochs: usize,
    /// Requested batch width, as configured; clamped to at least 1 when
    /// used.
    pub batch_size: usize,
    /// Whether to report progress.
    pub verbose: bool,
    /// Cap on how many training samples an epoch uses, if set.
    pub train_limit: Option<usize>,
    /// Cap on how many held-out samples an evaluation uses, if set.
    pub eval_limit: Option<usize>,
}

impl TrainPlan {
    /// Builds the run configuration.  A debug run caps training at 100
    /// samples per epoch and evaluation at 1000 samples.
    pub fn new(epochs: usize, batch_size: usize, verbose: bool, debug: bool) -> (p: TrainPlan)
        ensures
            p.epochs == epochs,
            p.batch_size == batch_size,
            p.verbose == verbose,
            p.train_limit == (if debug {
                Some(100usize)
            } else {
                None::<usize>
            }),
            p.eval_limit == (if debug {
                Some(1000usize)
            } else {
                None::<usize>
            }),
    {
        let train_limit: Option<usize> = if debug {
            Some(100)
        } else {
            None
        };
        let eval_limit: Option<usize> = if debug {
            Some(1000)
        } else {
            None
        };
        TrainPlan { epochs, batch_size, verbose, train_limit, eval_limit }
    }

    /// How many training samples an epoch walks, out of `available`.
    pub fn effective_train_samples(&self, available: usize) -> (r: usize)
        ensures
            r == spec_limited(self.train_limit, available),
    {
        match self.train_limit {
            Some(l) => if l <= available {
                l
            } else {
                available
            },
            None => available,
        }
    }

    /// How many held-out samples an evaluation walks, out of `available`.
    pub fn effective_eval_samples(&self, available: usize) -> (r: usize)
        ensures
            r == spec_limited(self.eval_limit, available),
    {
        match self.eval_limit {
            Some(l) => if l <= available {
                l
            } else {
                available
            },
            None => available,
        }
    }

    /// The batch width the run uses: the configured one, clamped to at
    /// least 1.
    pub fn clamped_batch_size(&self) -> (r: usize)
        ensures
            r == spec_clamped_batch_size(self.batch_size),
            r >= 1,
    {
        if self.batch_size >= 1 {
            self.batch_size
        } else {
            1
        }
    }
}

/// How many batches an epoch has.
pub fn num_batches(num_samples: usize, batch_size: usize) -> (r: usize)
    requires
        batch_size >= 1,
        num_samples + batch_size - 1 <= usize::MAX,
    ensures
        r == spec_num_batches(num_samples, batch_size),
{
    if num_samples == 0 {
        proof {
            vstd::arithmetic::div_mod::lemma_basic_div(batch_size - 1, batch_size as int);
        }
        0
    } else {
        proof {
            vstd::arithmetic::div_mod::lemma_div_plus_one(
                num_samples - 1,
                batch_size as int,
            );
        }
        (num_samples - 1) / batch_size + 1
    }
}

/// The half-open index range batch `batch_idx` walks: full batches of
/// `batch_size` samples, except that the last batch stops at the sample
/// count.  Every batch is non-empty.
pub fn batch_range(batch_idx: usize, num_samples: usize, batch_size: usize) -> (r: (usize, usize))
    requires
        batch_size >= 1,
        num_samples + batch_size - 1 <= usize::MAX,
        batch_idx < spec_num_batches(num_samples, batch_size),
    ensures
        r.0 == spec_batch_start(batch_idx as int, batch_size as int),
        r.1 == spec_batch_end(batch_idx as int, num_samples as int, batch_size as int),
        r.0 < r.1 <= num_samples,
{
    proof {
        lemma_batch_layout(batch_idx as int, num_samples as int, batch_size as int);
    }
    let start: usize = batch_idx * batch_size;
    let end: usize = if num_samples - start >= batch_size {
        start + batch_size
    } else {
        num_samples
    };
    (start, end)
}

/// Rounding up to whole batches lands just past the samples: the batch
/// count is 0 exactly on an empty epoch, and otherwise the batches
/// reach the sample count without a whole spare batch.
pub proof fn lemma_num_batches_bounds(num_samples: int, batch_size: int)
    requires
        batch_size >= 1,
        num_samples >= 0,
    ensures
        ({
            let nb = (num_samples + batch_size - 1) / batch_size;
            &&& num_samples == 0 ==> nb == 0
            &&& num_samples > 0 ==> nb >= 1 && (nb - 1) * batch_size < num_samples <= nb
                * batch_size
        }),
{
    let nb: int = (num_samples + batch_size - 1) / batch_size;
    vstd::arithmetic::div_mod::lemma_fundamental_div_mod(
        num_samples + batch_size - 1,
        batch_size,
    );
    vstd::arithmetic::div_mod::lemma_mod_bound(num_samples + batch_size - 1, batch_size);
    if num_samples == 0 {
        vstd::arithmetic::div_mod::lemma_basic_div(batch_size - 1, batch_size);
    } else {
        assert(num_samples + batch_size - 1 == batch_size * nb + (num_samples + batch_size - 1)
            % batch_size);
        vstd::arithmetic::div_mod::lemma_div_non_zero(num_samples + batch_size - 1, batch_size);
        assert((nb - 1) * batch_size == nb * batch_size - batch_size) by (nonlinear_arith);
        assert(nb * batch_size == batch_size * nb) by (nonlinear_arith);
    }
}

/// Every batch before the last is full, batches tile the epoch without a
/// gap, and each batch index addresses a non-empty range.
pub proof fn lemma_batch_layout(batch_idx: int, num_samples: int, batch_size: int)
    requires
        batch_size >= 1,
        num_samples >= 0,
        0 <= batch_idx < spec_num_batches(num_samples as usize, batch_size as usize),
        num_samples + batch_size - 1 <= usize::MAX,
        batch_size <= usize::MAX,
    ensures
        0 <= spec_batch_start(batch_idx, batch_size),
        spec_batch_start(batch_idx, batch_size) < spec_batch_end(
            batch_idx,
            num_samples,
            batch_size,
        ) <= num_samples,
        spec_batch_end(batch_idx, num_samples, batch_size) - spec_batch_start(
            batch_idx,
            batch_size,
        ) <= batch_size,
        batch_idx < spec_num_batches(num_samples as usize, batch_size as usize) - 1
            ==> spec_batch_end(batch_idx, num_samples, batch_size) == spec_batch_start(
            batch_idx,
            batch_size,
        ) + batch_size,
        batch_idx == spec_num_batches(num_samples as usize, batch_size as usize) - 1
            ==> spec_batch_end(batch_idx, num_samples, batch_size) == num_samples,
        spec_batch_end(batch_idx, num_samples, batch_size) == spec_batch_start(
            batch_idx + 1,
            batch_size,
        ) || spec_batch_end(batch_idx, num_samples, batch_size) == num_samples,
{
    let nb = spec_num_batches(num_samples as usize, batch_size as usize) as int;
    lemma_num_batches_bounds(num_samples, batch_size);
    assert(batch_idx * batch_size <= (nb - 1) * batch_size) by (nonlinear_arith)
        requires batch_idx <= nb - 1, batch_size >= 1,
    ;
    assert(0 <= batch_idx * batch_size) by (nonlinear_arith)
        requires 0 <= batch_idx, batch_size >= 1,
    ;
    if batch_idx < nb - 1 {
        assert(batch_idx * batch_size + batch_size <= (nb - 1) * batch_size) by (nonlinear_arith)
            requires batch_idx + 1 <= nb - 1, batch_size >= 1,
        ;
    }
    assert((batch_idx + 1) * batch_size == batch_idx * batch_size + batch_size)
        by (nonlinear_arith);
}

/// The one-hot label vector for class `label` among `size` classes: a 1
/// at the class index and 0 everywhere else.
pub fn one_hot(label: usize, size: usize) -> (r: Vec<u8>)
    requires
        label < size,
    ensures
        r@.len() == size,
        forall|k: int| 0 <= k < size ==> r@[k] == (if k == label {
            1u8
        } else {
            0u8
        }),
{
    let mut r: Vec<u8> = Vec::new();
    let mut k: usize = 0;
    while k < size
        invariant
            k <= size,
            r@.len() == k,
            forall|j: int| 0 <= j < k ==> r@[j] == (if j == label {
                1u8
            } else {
                0u8
            }),
        decreases size - k,
    {
        if k == label {
            r.push(1);
        } else {
            r.push(0);
        }
        k += 1;
    }
    r
}

/// The index of the largest key, ties going to the last occurrence — the
/// class an output vector predicts, once each output value is mapped to
/// an order-preserving key.
pub fn arg_max(keys: &[u32]) -> (r: usize)
    requires
        keys@.len() >= 1,
    ensures
        r < keys@.len(),
        forall|k: int| 0 <= k < keys@.len() ==> keys@[k] <= keys@[r as int],
        forall|k: int| r < k < keys@.len() ==> keys@[k] < keys@[r as int],
{
    let mut best: usize = 0;
    let mut k: usize = 1;
    while k < keys.len()
        invariant
            keys@.len() >= 1,
            best < k <= keys@.len(),
            forall|j: int| 0 <= j < k ==> keys@[j] <= keys@[best as int],
            forall|j: int| best < j < k ==> keys@[j] < keys@[best as int],
        decreases keys@.len() - k,
    {
        if keys[k] >= keys[best] {
            best = k;
        }
        k += 1;
    }
    best
}

/// Draws one index below `bound`.
///
/// Relies on rand's `Rng::gen_range`, which samples the half-open range
/// it is given — here `0..bound` — and panics only when that range is
/// empty.  Nothing more is assumed of the draw: every caller must hold
/// for every outcome.
#[verifier::external_body]
fn rand_below(bound: usize) -> (r: usize)
    requires
        bound >= 1,
    ensures
        r < bound,
{
    rand::Rng::gen_range(&mut rand::thread_rng(), 0..bound)
}

/// The identity index order of an epoch over `n` samples: `0, 1, ..., n-1`.
pub open spec fn spec_index_sequence(n: nat) -> Seq<usize> {
    Seq::new(n, |i: int| i as usize)
}

/// The sample indices of an epoch, in their unshuffled order.
pub fn index_sequence(n: usize) -> (r: Vec<usize>)
    ensures
        r@ == spec_index_sequence(n as nat),
{
    let mut r: Vec<usize> = Vec::new();
    let mut i: usize = 0;
    while i < n
        invariant
            i <= n,
            r@.len() == i,
            forall|j: int| 0 <= j < i ==> r@[j] == j as usize,
        decreases n - i,
    {
        r.push(i);
        i += 1;
    }
    proof {
        assert(r@ =~= spec_index_sequence(n as nat));
    }
    r
}

/// Shuffles the index order in place.  Which order comes out is up to
/// the random source; what always holds is that the result is a
/// rearrangement: the same indices, each the same number of times.
pub fn shuffle_indices(v: &mut Vec<usize>)
    ensures
        final(v)@.len() == old(v)@.len(),
        final(v)@.to_multiset() == old(v)@.to_multiset(),
{
    let mut i: usize = v.len();
    while i > 1
        invariant
            i <= v@.len(),
            v@.len() == old(v)@.len(),
            v@.to_multiset() == old(v)@.to_multiset(),
        decreases i,
    {
        i -= 1;
        let j: usize = rand_below(i + 1);
        let a: usize = v[i];
        let b: usize = v[j];
        let ghost prev = v@;
        v.set(i, b);
        v.set(j, a);
        proof {
            lemma_swap_keeps_multiset(prev, i as int, j as int);
        }
    }
}

/// Swapping two positions of a sequence rearranges it: the multiset of
/// elements does not change.
proof fn lemma_swap_keeps_multiset(s: Seq<usize>, i: int, j: int)
    requires
        0 <= i < s.len(),
        0 <= j <= i,
    ensures
        s.update(i, s[j]).update(j, s[i]).to_multiset() == s.to_multiset(),
{
    broadcast use group_to_multiset_ensures;
    broadcast use vstd::seq_lib::to_multiset_update;
    broadcast use vstd::multiset::group_multiset_axioms;

    let a = s[i];
    let b = s[j];
    let s1 = s.update(i, b);
    assert(s1[j] == b);
    assert(s.contains(a) && s.contains(b));
    assert(s.to_multiset().count(a) >= 1 && s.to_multiset().count(b) >= 1);
    assert(s1.to_multiset() == s.to_multiset().insert(b).remove(a));
    assert(s1.update(j, a).to_multiset() == s1.to_multiset().insert(a).remove(b));
    assert(s1.update(j, a).to_multiset() =~= s.to_multiset());
}

/// What the multiset of an epoch's identity order holds: each index
/// below `n` exactly once, and nothing else.
proof fn lemma_index_sequence_multiset(n: nat)
    requires
        n <= usize::MAX,
    ensures
        forall|x: usize| #[trigger] spec_index_sequence(n).to_multiset().count(x) == (if (
        x as int) < n {
            1nat
        } else {
            0nat
        }),
    decreases n,
{
    broadcast use group_to_multiset_ensures;
    broadcast use vstd::multiset::group_multiset_axioms;

    if n == 0 {
        assert forall|x: usize| #[trigger] spec_index_sequence(0).to_multiset().count(x)
            == 0nat by {
            assert(!spec_index_sequence(0).contains(x));
        }
    } else {
        lemma_index_sequence_multiset((n - 1) as nat);
        let prev = spec_index_sequence((n - 1) as nat);
        assert(spec_index_sequence(n) =~= prev.push((n - 1) as usize));
        assert forall|x: usize| #[trigger] spec_index_sequence(n).to_multiset().count(x) == (if (
        x as int) < n {
            1nat
        } else {
            0nat
        }) by {
            assert(spec_index_sequence(n).to_multiset() =~= prev.to_multiset().insert(
                (n - 1) as usize,
            ));
            assert(prev.to_multiset().count(x) == (if (x as int) < n - 1 {
                1nat
            } else {
                0nat
            }));
        }
    }
}

/// A shuffled epoch walks each sample exactly once: any rearrangement of
/// the identity order over `n` samples has length `n`, no repeated
/// index, every index below `n`, and every such index present.
pub proof fn lemma_shuffled_epoch_is_permutation(s: Seq<usize>, n: nat)
    requires
        n <= usize::MAX,
        s.to_multiset() == spec_index_sequence(n).to_multiset(),
    ensures
        s.len() == n,
        s.no_duplicates(),
        forall|x: usize| (x as int) < n ==> s.contains(x),
        forall|k: int| 0 <= k < s.len() ==> (s[k] as int) < n,
{
    broadcast use group_to_multiset_ensures;
    broadcast use vstd::multiset::group_multiset_axioms;

    lemma_index_sequence_multiset(n);
    assert(spec_index_sequence(n).len() == n);
    assert(s.to_multiset().len() == s.len());
    assert(spec_index_sequence(n).to_multiset().len() == spec_index_sequence(n).len());
    assert(s.len() == n);
    s.lemma_multiset_has_no_duplicates_conv();
    assert forall|x: usize| (x as int) < n implies s.contains(x) by {
        assert(s.to_multiset().count(x) == 1);
    }
    assert forall|k: int| 0 <= k < s.len() implies (s[k] as int) < n by {
        assert(s.contains(s[k]));
        assert(s.to_multiset().count(s[k]) >= 1);
    }
}

/// The denominator an accuracy report divides by: the number of samples
/// evaluated, or 1 when none were, so an empty held-out set reports 0
/// rather than dividing by zero.
pub fn eval_denominator(eval_samples: usize) -> (r: usize)
    ensures
        r == (if eval_samples == 0 {
            1usize
        } else {
            eval_samples
        }),
{
    if eval_samples == 0 {
        1
    } else {
        eval_samples
    }
}

} // verus!
