//! The exact-in router: resolves a path's output amount, walking hops in
//! list order and carrying the running amount forward.

use vstd::prelude::*;
use crate::math::{quote_exact_in, quote_out};
use crate::pool::{Pool, PoolBook};
use crate::sheet::{spec_credit, spec_debit, BalanceSheet};
use crate::swap::{hop_target, spec_hop_target};
use crate::types::{check_contiguous, path_contiguous, PathAmount, RouterError, SwapPath, SwapStep};

verus! {

/// One exact-in hop: the addressed pool takes the running amount in and pays
/// the quoted output, and the registry is updated in place.
pub open spec fn spec_step_exact_in(pools: Seq<Pool>, amount_in: u64, step: SwapStep) -> Result<
    (Seq<Pool>, u64),
    RouterError,
> {
    match spec_hop_target(pools, step) {
        Err(e) => Err(e),
        Ok((i, fee)) => {
            let p = pools[i];
            let r_in = p.spec_reserve_in(step.asset_in);
            let r_out = p.spec_reserve_out(step.asset_in);
            if r_in + amount_in > u64::MAX {
                Err(RouterError::AmountOverflow)
            } else {
                let out = quote_out(r_in as int, r_out as int, amount_in as int, fee as int) as u64;
                Ok((pools.update(i, p.spec_apply(step.asset_in, amount_in, out)), out))
            }
        },
    }
}

/// A run of exact-in hops is the single-hop rule applied sequentially, each
/// hop feeding its output to the next as the running amount.
pub open spec fn spec_hops_exact_in(pools: Seq<Pool>, amount_in: u64, steps: Seq<SwapStep>) -> Result<
    (Seq<Pool>, u64),
    RouterError,
>
    decreases steps.len(),
{
    if steps.len() == 0 {
        Ok((pools, amount_in))
    } else {
        match spec_step_exact_in(pools, amount_in, steps[0]) {
            Err(e) => Err(e),
            Ok((p2, a2)) => spec_hops_exact_in(p2, a2, steps.drop_first()),
        }
    }
}

/// One exact-in path: the starting amount is the literal figure or the
/// ledger's holding of the source asset, the ledger funds it, the hops run in
/// order, the final amount must reach the path's minimum, and the output is
/// credited to the ledger.
pub open spec fn spec_path_exact_in(
    pools: Seq<Pool>,
    ledger: Map<u64, u64>,
    path: SwapPath,
) -> Result<(Seq<Pool>, Map<u64, u64>, u64), RouterError> {
    if path.steps@.len() == 0 || !path_contiguous(path.steps@) {
        Err(RouterError::HopContiguityViolation)
    } else {
        let src = path.steps@[0].asset_in;
        let amt = match path.amount {
            PathAmount::Fixed(a) => a,
            PathAmount::UseRemaining => ledger[src],
        };
        match spec_debit(ledger, src, amt) {
            Err(e) => Err(e),
            Ok(l2) => match spec_hops_exact_in(pools, amt, path.steps@) {
                Err(e) => Err(e),
                Ok((p2, out)) => {
                    if out < path.limit {
                        Err(RouterError::SlippageExceeded)
                    } else {
                        match spec_credit(l2, path.steps@.last().asset_out, out) {
                            Err(e) => Err(e),
                            Ok(l3) => Ok((p2, l3, out)),
                        }
                    }
                },
            },
        }
    }
}

/// Executes one exact-in hop against the registry.
fn step_exact_in(book: &mut PoolBook, amount_in: u64, step: &SwapStep) -> (r: Result<
    u64,
    RouterError,
>)
    requires
        old(book).wf(),
    ensures
        final(book).wf(),
        match r {
            Ok(out) => spec_step_exact_in(old(book)@, amount_in, *step) == Ok::<
                (Seq<Pool>, u64),
                RouterError,
            >((final(book)@, out)),
            Err(e) => spec_step_exact_in(old(book)@, amount_in, *step) == Err::<
                (Seq<Pool>, u64),
                RouterError,
            >(e) && final(book)@ == old(book)@,
        },
{
    let (i, fee) = match hop_target(book, step) {
        Err(e) => {
            return Err(e);
        },
        Ok(t) => t,
    };
    let p = book.get(i);
    let (r_in, r_out) = if p.asset_0 == step.asset_in {
        (p.reserve_0, p.reserve_1)
    } else {
        (p.reserve_1, p.reserve_0)
    };
    if amount_in > u64::MAX - r_in {
        return Err(RouterError::AmountOverflow);
    }
    let out = quote_exact_in(r_in, r_out, amount_in, fee);
    let p2 = if p.asset_0 == step.asset_in {
        Pool { reserve_0: r_in + amount_in, reserve_1: r_out - out, ..p }
    } else {
        Pool { reserve_0: r_out - out, reserve_1: r_in + amount_in, ..p }
    };
    book.put(i, p2);
    proof {
        assert(p2 == p.spec_apply(step.asset_in, amount_in, out));
        assert(p2.wf());
        assert forall|j: int| 0 <= j < final(book)@.len() implies (#[trigger] final(book)@[j]).wf() by {
            if j != i as int {
                assert(final(book)@[j] == old(book)@[j]);
            }
        }
    }
    Ok(out)
}

/// Executes a run of exact-in hops, carrying the running amount forward.
fn hops_exact_in(book: &mut PoolBook, amount_in: u64, steps: &Vec<SwapStep>) -> (r: Result<
    u64,
    RouterError,
>)
    requires
        old(book).wf(),
    ensures
        final(book).wf(),
        match r {
            Ok(out) => spec_hops_exact_in(old(book)@, amount_in, steps@) == Ok::<
                (Seq<Pool>, u64),
                RouterError,
            >((final(book)@, out)),
            Err(e) => spec_hops_exact_in(old(book)@, amount_in, steps@) == Err::<
                (Seq<Pool>, u64),
                RouterError,
            >(e),
        },
{
    let ghost book0 = book@;
    let n = steps.len();
    let mut amt = amount_in;
    let mut i: usize = 0;
    proof {
        assert(steps@.skip(0) =~= steps@);
    }
    while i < n
        invariant
            i <= n,
            n == steps@.len(),
            book0 == old(book)@,
            book.wf(),
            spec_hops_exact_in(book0, amount_in, steps@) == spec_hops_exact_in(
                book@,
                amt,
                steps@.skip(i as int),
            ),
        decreases n - i,
    {
        proof {
            assert(steps@.skip(i as int)[0] == steps@[i as int]);
            assert(steps@.skip(i as int).drop_first() =~= steps@.skip(i as int + 1));
        }
        match step_exact_in(book, amt, &steps[i]) {
            Ok(out) => {
                amt = out;
            },
            Err(e) => {
                return Err(e);
            },
        }
        i = i + 1;
    }
    proof {
        assert(steps@.skip(n as int) =~= Seq::<SwapStep>::empty());
    }
    Ok(amt)
}

/// Executes one exact-in path against the registry and the ledger.
///
/// On success the returned amount is the path's final output, already
/// credited to the ledger; the spec interpreter names the resulting registry
/// and ledger exactly. On failure the interpreter names the same error; the
/// caller owning the call's atomicity discards the working state.
pub fn swap_path_exact_in(book: &mut PoolBook, ledger: &mut BalanceSheet, path: &SwapPath) -> (r:
    Result<u64, RouterError>)
    requires
        old(book).wf(),
    ensures
        final(book).wf(),
        match r {
            Ok(out) => spec_path_exact_in(old(book)@, old(ledger)@, *path) == Ok::<
                (Seq<Pool>, Map<u64, u64>, u64),
                RouterError,
            >((final(book)@, final(ledger)@, out)),
            Err(e) => spec_path_exact_in(old(book)@, old(ledger)@, *path) == Err::<
                (Seq<Pool>, Map<u64, u64>, u64),
                RouterError,
            >(e),
        },
{
    if path.steps.len() == 0 {
        return Err(RouterError::HopContiguityViolation);
    }
    if !check_contiguous(&path.steps) {
        return Err(RouterError::HopContiguityViolation);
    }
    let src = path.steps[0].asset_in;
    let amt = match path.amount {
        PathAmount::Fixed(a) => a,
        PathAmount::UseRemaining => ledger.balance_of(src),
    };
    match ledger.debit(src, amt) {
        Err(e) => {
            return Err(e);
        },
        Ok(()) => {},
    }
    let out = match hops_exact_in(book, amt, &path.steps) {
        Err(e) => {
            return Err(e);
        },
        Ok(o) => o,
    };
    if out < path.limit {
        return Err(RouterError::SlippageExceeded);
    }
    let dst = path.steps[path.steps.len() - 1].asset_out;
    match ledger.credit(dst, out) {
        Err(e) => {
            return Err(e);
        },
        Ok(()) => {},
    }
    Ok(out)
}

} // verus!
