//! Classification of the range `1..=n`, one item at a time or on a pool of workers.
use vstd::prelude::*;
use crate::primality::{Variant, prime_by, basic_is_prime, complex_is_prime};
use rayon::iter::IndexedParallelIterator;
use rayon::iter::IntoParallelRefMutIterator;
use rayon::iter::ParallelIterator;
use rayon::ThreadPool;
use rayon::ThreadPoolBuildError;
use rayon::ThreadPoolBuilder;

verus! {

#[verifier::external_type_specification]
#[verifier::external_body]
pub struct ExThreadPool(ThreadPool);

#[verifier::external_type_specification]
#[verifier::external_body]
pub struct ExThreadPoolBuildError(ThreadPoolBuildError);

/// The outcome of one primality test.
#[derive(Clone, Copy, Debug, PartialEq, Eq, Structural)]
pub enum Primality {
    Prime,
    Composite,
}

impl Primality {
    /// Whether this outcome is `Prime`.
    pub fn is_prime(&self) -> (r: bool)
        ensures
            r == (*self == Primality::Prime),
    {
        match self {
            Primality::Prime => true,
            Primality::Composite => false,
        }
    }
}

/// Why a pool of workers could not be had.
#[derive(Clone, Copy, Debug, PartialEq, Eq, Structural)]
pub enum PoolError {
    /// A pool needs at least one worker.
    NoWorkers,
    /// The pool's threads could not be started.
    BuildFailed,
}

/// The outcome for `n` under the chosen variant.
pub open spec fn verdict(n: int, v: Variant) -> Primality {
    if prime_by(n, v) {
        Primality::Prime
    } else {
        Primality::Composite
    }
}

/// The outcomes for `1..=n` appended one by one, in order.
pub open spec fn sequential_outcomes(n: nat, v: Variant) -> Seq<bool>
    decreases n,
{
    if n == 0 {
        Seq::empty()
    } else {
        sequential_outcomes((n - 1) as nat, v).push(prime_by(n as int, v))
    }
}

/// The outcomes for `1..=n`, each computed from its own index alone.
pub open spec fn indexed_outcomes(n: nat, v: Variant) -> Seq<bool> {
    Seq::new(n, |i: int| prime_by(i + 1, v))
}

/// Tests `num` for primality with the chosen variant.
pub fn is_prime_by(num: u32, variant: Variant) -> (r: bool)
    requires
        num >= 1,
    ensures
        r == prime_by(num as int, variant),
{
    match variant {
        Variant::Naive => basic_is_prime(num),
        Variant::Optimized => complex_is_prime(num),
    }
}

/// The outcome for the integer `index + 1`, the value that slot `index` stands for.
pub fn verdict_at(index: usize, variant: Variant) -> (r: Primality)
    requires
        index < u32::MAX,
    ensures
        r == verdict(index + 1, variant),
{
    if is_prime_by((index + 1) as u32, variant) {
        Primality::Prime
    } else {
        Primality::Composite
    }
}

/// Classifies `1..=num` in order on the calling thread.
pub fn single_thread_prime(num: u32, variant: Variant) -> (r: Vec<bool>)
    ensures
        r@ == sequential_outcomes(num as nat, variant),
{
    let mut outcomes: Vec<bool> = Vec::new();
    let mut n: u32 = 0;
    while n < num
        invariant
            n <= num,
            outcomes@ == sequential_outcomes(n as nat, variant),
        decreases num - n,
    {
        n = n + 1;
        let p = is_prime_by(n, variant);
        outcomes.push(p);
    }
    outcomes
}

/// Relies on rayon's `ThreadPoolBuilder::num_threads` and `build`: a pool of
/// `workers` threads, or the error that kept it from starting.
#[verifier::external_body]
fn build_pool(workers: usize) -> (r: Result<ThreadPool, ThreadPoolBuildError>) {
    ThreadPoolBuilder::new().num_threads(workers).build()
}

/// Relies on rayon's `ThreadPool::install`, which runs the closure on the pool and
/// returns when it is done, and on `par_iter_mut().enumerate().for_each`, which
/// calls the closure once with each index and a reference to its slot alone.
#[verifier::external_body]
fn fill_in_parallel(pool: &ThreadPool, slots: &mut Vec<Primality>, variant: Variant)
    requires
        old(slots)@.len() <= u32::MAX,
    ensures
        final(slots)@.len() == old(slots)@.len(),
        forall|i: int|
            0 <= i < final(slots)@.len() ==> #[trigger] final(slots)@[i] == verdict(i + 1, variant),
{
    pool.install(|| slots.par_iter_mut().enumerate().for_each(|(i, s)| *s = verdict_at(i, variant)))
}

/// A pool of `workers` threads; at least one is needed.
pub fn worker_pool(workers: usize) -> (r: Result<ThreadPool, PoolError>)
    ensures
        workers == 0 <==> r == Err::<ThreadPool, PoolError>(PoolError::NoWorkers),
        workers > 0 && r is Err ==> r->Err_0 == PoolError::BuildFailed,
{
    if workers == 0 {
        return Err(PoolError::NoWorkers);
    }
    match build_pool(workers) {
        Ok(pool) => Ok(pool),
        Err(_) => Err(PoolError::BuildFailed),
    }
}

/// Classifies `1..=num` on the pool: slot `i` of a pre-sized buffer receives the
/// outcome for `i + 1`, and each worker writes only the slots it was handed.
pub fn multi_thread_prime(num: u32, variant: Variant, pool: &ThreadPool) -> (r: Vec<Primality>)
    ensures
        r@ == Seq::new(num as nat, |i: int| verdict(i + 1, variant)),
{
    let mut slots: Vec<Primality> = Vec::new();
    let mut i: u32 = 0;
    while i < num
        invariant
            i <= num,
            slots@.len() == i,
        decreases num - i,
    {
        slots.push(Primality::Composite);
        i = i + 1;
    }
    fill_in_parallel(pool, &mut slots, variant);
    assert(slots@ =~= Seq::new(num as nat, |i: int| verdict(i + 1, variant)));
    slots
}

/// The boolean form of each outcome.
pub fn outcomes_as_bools(cells: &Vec<Primality>) -> (r: Vec<bool>)
    ensures
        r@ == Seq::new(cells@.len(), |i: int| cells@[i] == Primality::Prime),
{
    let mut out: Vec<bool> = Vec::new();
    let mut i: usize = 0;
    while i < cells.len()
        invariant
            i <= cells@.len(),
            out@ == Seq::new(i as nat, |k: int| cells@[k] == Primality::Prime),
        decreases cells@.len() - i,
    {
        let b = cells[i].is_prime();
        out.push(b);
        i = i + 1;
        assert(out@ =~= Seq::new(i as nat, |k: int| cells@[k] == Primality::Prime));
    }
    out
}

/// Classifies `1..=num` on the pool, as booleans.
pub fn parallel_outcomes(num: u32, variant: Variant, pool: &ThreadPool) -> (r: Vec<bool>)
    ensures
        r@ == indexed_outcomes(num as nat, variant),
{
    let cells = multi_thread_prime(num, variant, pool);
    let r = outcomes_as_bools(&cells);
    assert(r@ =~= indexed_outcomes(num as nat, variant));
    r
}

/// Appending the outcomes in order gives, slot for slot, the outcomes computed from
/// each index alone: the sequential and the parallel classification agree for every
/// `n` and every variant, whatever the number of workers.
pub proof fn sequential_matches_parallel(n: nat, v: Variant)
    ensures
        sequential_outcomes(n, v) == indexed_outcomes(n, v),
    decreases n,
{
    if n > 0 {
        sequential_matches_parallel((n - 1) as nat, v);
        assert(sequential_outcomes(n, v) =~= indexed_outcomes(n, v));
    } else {
        assert(sequential_outcomes(n, v) =~= indexed_outcomes(n, v));
    }
}

} // verus!
