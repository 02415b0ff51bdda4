//! The exact-out router: resolves the required input for a desired output by
//! walking hops backward, then executes the hops forward with the resolved
//! per-hop amounts, leaving the caller-supplied step order untouched.

use vstd::prelude::*;
use crate::math::{quote_exact_out, quote_in};
use crate::pool::{Pool, PoolBook};
use crate::sheet::{spec_credit, spec_debit, BalanceSheet};
use crate::swap::{hop_target, spec_hop_target};
use crate::types::{check_contiguous, path_contiguous, PathAmount, RouterError, SwapPath, SwapStep};

verus! {

/// The input one hop requires so that its pool can pay `desired` out. The
/// pool cannot pay out a full reserve, and a required input beyond `u64` is
/// an overflow.
pub open spec fn spec_quote_step_out(pools: Seq<Pool>, step: SwapStep, desired: u64) -> Result<
    u64,
    RouterError,
> {
    match spec_hop_target(pools, step) {
        Err(e) => Err(e),
        Ok((i, fee)) => {
            let p = pools[i];
            let r_in = p.spec_reserve_in(step.asset_in);
            let r_out = p.spec_reserve_out(step.asset_in);
            if desired >= r_out {
                Err(RouterError::AdapterFailure)
            } else if quote_in(r_in as int, r_out as int, desired as int, fee as int) > u64::MAX {
                Err(RouterError::AmountOverflow)
            } else {
                Ok(quote_in(r_in as int, r_out as int, desired as int, fee as int) as u64)
            }
        },
    }
}

/// Backward resolution: the amounts each hop must be fed, computed from the
/// desired final output back to the first hop, all quoted against the
/// registry as it stands before the path runs. Entry `i` of the result is
/// the input of step `i`.
pub open spec fn spec_resolve_out(pools: Seq<Pool>, steps: Seq<SwapStep>, desired: u64) -> Result<
    Seq<u64>,
    RouterError,
>
    decreases steps.len(),
{
    if steps.len() == 0 {
        Ok(Seq::<u64>::empty())
    } else {
        match spec_quote_step_out(pools, steps.last(), desired) {
            Err(e) => Err(e),
            Ok(in_last) => match spec_resolve_out(pools, steps.drop_last(), in_last) {
                Err(e) => Err(e),
                Ok(rest) => Ok(rest.push(in_last)),
            },
        }
    }
}

/// One forward transfer: the pool takes the resolved input and pays the
/// resolved output, checked against the reserves as they stand when the hop
/// runs.
pub open spec fn spec_apply_out_step(
    pools: Seq<Pool>,
    step: SwapStep,
    amount_in: u64,
    amount_out: u64,
) -> Result<Seq<Pool>, RouterError> {
    match spec_hop_target(pools, step) {
        Err(e) => Err(e),
        Ok((i, fee)) => {
            let p = pools[i];
            let r_in = p.spec_reserve_in(step.asset_in);
            let r_out = p.spec_reserve_out(step.asset_in);
            if amount_out >= r_out {
                Err(RouterError::AdapterFailure)
            } else if r_in + amount_in > u64::MAX {
                Err(RouterError::AmountOverflow)
            } else {
                Ok(pools.update(i, p.spec_apply(step.asset_in, amount_in, amount_out)))
            }
        },
    }
}

/// Forward execution of resolved hops: step `i` is fed `amounts[i]` and pays
/// `amounts[i + 1]`, the last step paying the desired final output.
pub open spec fn spec_forward_out(
    pools: Seq<Pool>,
    steps: Seq<SwapStep>,
    amounts: Seq<u64>,
    final_out: u64,
) -> Result<Seq<Pool>, RouterError>
    decreases steps.len(),
{
    if steps.len() == 0 {
        Ok(pools)
    } else {
        let out0 = if steps.len() == 1 {
            final_out
        } else {
            amounts[1]
        };
        match spec_apply_out_step(pools, steps[0], amounts[0], out0) {
            Err(e) => Err(e),
            Ok(p2) => spec_forward_out(p2, steps.drop_first(), amounts.drop_first(), final_out),
        }
    }
}

/// One exact-out path: the desired output must be a literal figure; the
/// required input is resolved backward, must not exceed the path's maximum,
/// is debited from the ledger; the hops then run forward and the desired
/// output is credited. The resolved input is the path's result.
pub open spec fn spec_path_exact_out(
    pools: Seq<Pool>,
    ledger: Map<u64, u64>,
    path: SwapPath,
) -> Result<(Seq<Pool>, Map<u64, u64>, u64), RouterError> {
    if path.steps@.len() == 0 || !path_contiguous(path.steps@) {
        Err(RouterError::HopContiguityViolation)
    } else {
        match path.amount {
            PathAmount::UseRemaining => Err(RouterError::UnsupportedOperation),
            PathAmount::Fixed(desired) => match spec_resolve_out(pools, path.steps@, desired) {
                Err(e) => Err(e),
                Ok(ins) => {
                    if ins[0] > path.limit {
                        Err(RouterError::SlippageExceeded)
                    } else {
                        match spec_debit(ledger, path.steps@[0].asset_in, ins[0]) {
                            Err(e) => Err(e),
                            Ok(l2) => match spec_forward_out(pools, path.steps@, ins, desired) {
                                Err(e) => Err(e),
                                Ok(p2) => match spec_credit(
                                    l2,
                                    path.steps@.last().asset_out,
                                    desired,
                                ) {
                                    Err(e) => Err(e),
                                    Ok(l3) => Ok((p2, l3, ins[0])),
                                },
                            },
                        }
                    }
                },
            },
        }
    }
}

/// Quotes the input one hop requires for a desired output.
fn quote_step_out(book: &PoolBook, step: &SwapStep, desired: u64) -> (r: Result<u64, RouterError>)
    requires
        book.wf(),
    ensures
        r == spec_quote_step_out(book@, *step, desired),
{
    let (i, fee) = match hop_target(book, step) {
        Err(e) => {
            return Err(e);
        },
        Ok(t) => t,
    };
    let p = book.get(i);
    let (r_in, r_out) = if p.asset_0 == step.asset_in {
        (p.reserve_0, p.reserve_1)
    } else {
        (p.reserve_1, p.reserve_0)
    };
    if desired >= r_out {
        return Err(RouterError::AdapterFailure);
    }
    quote_exact_out(r_in, r_out, desired, fee)
}

/// Resolves the inputs of the first `k` steps, `desired` being the output
/// step `k - 1` must pay.
fn resolve_hops_out(book: &PoolBook, steps: &Vec<SwapStep>, k: usize, desired: u64) -> (r: Result<
    Vec<u64>,
    RouterError,
>)
    requires
        book.wf(),
        k <= steps@.len(),
    ensures
        match r {
            Ok(v) => spec_resolve_out(book@, steps@.take(k as int), desired) == Ok::<
                Seq<u64>,
                RouterError,
            >(v@) && v@.len() == k,
            Err(e) => spec_resolve_out(book@, steps@.take(k as int), desired) == Err::<
                Seq<u64>,
                RouterError,
            >(e),
        },
    decreases k,
{
    if k == 0 {
        proof {
            assert(steps@.take(0) =~= Seq::<SwapStep>::empty());
        }
        Ok(Vec::new())
    } else {
        proof {
            assert(steps@.take(k as int).last() == steps@[k as int - 1]);
            assert(steps@.take(k as int).drop_last() =~= steps@.take(k as int - 1));
        }
        let in_k = match quote_step_out(book, &steps[k - 1], desired) {
            Err(e) => {
                return Err(e);
            },
            Ok(x) => x,
        };
        let mut v = match resolve_hops_out(book, steps, k - 1, in_k) {
            Err(e) => {
                return Err(e);
            },
            Ok(v) => v,
        };
        v.push(in_k);
        Ok(v)
    }
}

/// Performs one forward transfer against the registry.
fn apply_out_step(book: &mut PoolBook, step: &SwapStep, amount_in: u64, amount_out: u64) -> (r:
    Result<(), RouterError>)
    requires
        old(book).wf(),
    ensures
        final(book).wf(),
        match r {
            Ok(()) => spec_apply_out_step(old(book)@, *step, amount_in, amount_out) == Ok::<
                Seq<Pool>,
                RouterError,
            >(final(book)@),
            Err(e) => spec_apply_out_step(old(book)@, *step, amount_in, amount_out) == Err::<
                Seq<Pool>,
                RouterError,
            >(e) && final(book)@ == old(book)@,
        },
{
    let (i, _fee) = match hop_target(book, step) {
        Err(e) => {
            return Err(e);
        },
        Ok(t) => t,
    };
    let p = book.get(i);
    let (r_in, r_out) = if p.asset_0 == step.asset_in {
        (p.reserve_0, p.reserve_1)
    } else {
        (p.reserve_1, p.reserve_0)
    };
    if amount_out >= r_out {
        return Err(RouterError::AdapterFailure);
    }
    if amount_in > u64::MAX - r_in {
        return Err(RouterError::AmountOverflow);
    }
    let p2 = if p.asset_0 == step.asset_in {
        Pool { reserve_0: r_in + amount_in, reserve_1: r_out - amount_out, ..p }
    } else {
        Pool { reserve_0: r_out - amount_out, reserve_1: r_in + amount_in, ..p }
    };
    book.put(i, p2);
    proof {
        assert(p2 == p.spec_apply(step.asset_in, amount_in, amount_out));
        assert(p2.wf());
        assert forall|j: int| 0 <= j < final(book)@.len() implies (#[trigger] final(book)@[j]).wf() by {
            if j != i as int {
                assert(final(book)@[j] == old(book)@[j]);
            }
        }
    }
    Ok(())
}

/// Executes the resolved hops forward.
fn forward_hops_out(book: &mut PoolBook, steps: &Vec<SwapStep>, ins: &Vec<u64>, final_out: u64) -> (r:
    Result<(), RouterError>)
    requires
        old(book).wf(),
        ins@.len() == steps@.len(),
    ensures
        final(book).wf(),
        match r {
            Ok(()) => spec_forward_out(old(book)@, steps@, ins@, final_out) == Ok::<
                Seq<Pool>,
                RouterError,
            >(final(book)@),
            Err(e) => spec_forward_out(old(book)@, steps@, ins@, final_out) == Err::<
                Seq<Pool>,
                RouterError,
            >(e),
        },
{
    let ghost book0 = book@;
    let n = steps.len();
    let mut i: usize = 0;
    proof {
        assert(steps@.skip(0) =~= steps@);
        assert(ins@.skip(0) =~= ins@);
    }
    while i < n
        invariant
            i <= n,
            n == steps@.len(),
            n == ins@.len(),
            book0 == old(book)@,
            book.wf(),
            spec_forward_out(book0, steps@, ins@, final_out) == spec_forward_out(
                book@,
                steps@.skip(i as int),
                ins@.skip(i as int),
                final_out,
            ),
        decreases n - i,
    {
        let out_i = if i + 1 == n {
            final_out
        } else {
            ins[i + 1]
        };
        proof {
            assert(steps@.skip(i as int)[0] == steps@[i as int]);
            assert(steps@.skip(i as int).drop_first() =~= steps@.skip(i as int + 1));
            assert(ins@.skip(i as int).drop_first() =~= ins@.skip(i as int + 1));
            assert(ins@.skip(i as int)[0] == ins@[i as int]);
            if i + 1 < n {
                assert(ins@.skip(i as int)[1] == ins@[i as int + 1]);
            }
        }
        match apply_out_step(book, &steps[i], ins[i], out_i) {
            Ok(()) => {
            },
            Err(e) => {
                return Err(e);
            },
        }
        i = i + 1;
    }
    proof {
        assert(steps@.skip(n as int) =~= Seq::<SwapStep>::empty());
    }
    Ok(())
}

/// Executes one exact-out path against the registry and the ledger.
///
/// On success the returned amount is the resolved required input, already
/// debited from the ledger, with the desired output credited; the spec
/// interpreter names the resulting registry and ledger exactly. On failure
/// the interpreter names the same error; the caller owning the call's
/// atomicity discards the working state.
pub fn swap_path_exact_out(book: &mut PoolBook, ledger: &mut BalanceSheet, path: &SwapPath) -> (r:
    Result<u64, RouterError>)
    requires
        old(book).wf(),
    ensures
        final(book).wf(),
        match r {
            Ok(paid) => spec_path_exact_out(old(book)@, old(ledger)@, *path) == Ok::<
                (Seq<Pool>, Map<u64, u64>, u64),
                RouterError,
            >((final(book)@, final(ledger)@, paid)),
            Err(e) => spec_path_exact_out(old(book)@, old(ledger)@, *path) == Err::<
                (Seq<Pool>, Map<u64, u64>, u64),
                RouterError,
            >(e),
        },
{
    if path.steps.len() == 0 {
        return Err(RouterError::HopContiguityViolation);
    }
    if !check_contiguous(&path.steps) {
        return Err(RouterError::HopContiguityViolation);
    }
    let desired = match path.amount {
        PathAmount::Fixed(a) => a,
        PathAmount::UseRemaining => {
            return Err(RouterError::UnsupportedOperation);
        },
    };
    let n = path.steps.len();
    proof {
        assert(path.steps@.take(n as int) =~= path.steps@);
    }
    let ins = match resolve_hops_out(book, &path.steps, n, desired) {
        Err(e) => {
            return Err(e);
        },
        Ok(v) => v,
    };
    if ins[0] > path.limit {
        return Err(RouterError::SlippageExceeded);
    }
    match ledger.debit(path.steps[0].asset_in, ins[0]) {
        Err(e) => {
            return Err(e);
        },
        Ok(()) => {},
    }
    match forward_hops_out(book, &path.steps, &ins, desired) {
        Err(e) => {
            return Err(e);
        },
        Ok(()) => {},
    }
    let dst = path.steps[n - 1].asset_out;
    match ledger.credit(dst, desired) {
        Err(e) => {
            return Err(e);
        },
        Ok(()) => {},
    }
    Ok(ins[0])
}

} // verus!
