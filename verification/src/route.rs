//! The multi-path aggregator and the batch entry points: a path list runs in
//! list order, each path enforcing its own slippage bound, and a whole call
//! commits only if every path succeeds. The deadline is checked once, before
//! any hop runs.

use vstd::prelude::*;
use crate::exact_in::{spec_path_exact_in, swap_path_exact_in};
use crate::exact_out::{spec_path_exact_out, swap_path_exact_out};
use crate::pool::{Pool, PoolBook};
use crate::sheet::BalanceSheet;
use crate::types::{BlockHeight, PathAmount, RouterError, SwapPath, SwapPathList};

verus! {

/// How many paths of a list carry the remaining-balance sentinel.
pub open spec fn count_sentinels(paths: Seq<SwapPath>) -> int
    decreases paths.len(),
{
    if paths.len() == 0 {
        0
    } else {
        (if paths[0].amount is UseRemaining {
            1int
        } else {
            0int
        }) + count_sentinels(paths.drop_first())
    }
}

/// Exact-in paths folded in list order over the same registry and ledger;
/// the result lists each path's output.
pub open spec fn spec_fold_exact_in(
    pools: Seq<Pool>,
    ledger: Map<u64, u64>,
    paths: Seq<SwapPath>,
) -> Result<(Seq<Pool>, Map<u64, u64>, Seq<u64>), RouterError>
    decreases paths.len(),
{
    if paths.len() == 0 {
        Ok((pools, ledger, Seq::<u64>::empty()))
    } else {
        match spec_path_exact_in(pools, ledger, paths[0]) {
            Err(e) => Err(e),
            Ok((p2, l2, out)) => match spec_fold_exact_in(p2, l2, paths.drop_first()) {
                Err(e) => Err(e),
                Ok((p3, l3, rest)) => Ok((p3, l3, seq![out] + rest)),
            },
        }
    }
}

/// Exact-out paths folded in list order; the result lists each path's
/// resolved required input.
pub open spec fn spec_fold_exact_out(
    pools: Seq<Pool>,
    ledger: Map<u64, u64>,
    paths: Seq<SwapPath>,
) -> Result<(Seq<Pool>, Map<u64, u64>, Seq<u64>), RouterError>
    decreases paths.len(),
{
    if paths.len() == 0 {
        Ok((pools, ledger, Seq::<u64>::empty()))
    } else {
        match spec_path_exact_out(pools, ledger, paths[0]) {
            Err(e) => Err(e),
            Ok((p2, l2, paid)) => match spec_fold_exact_out(p2, l2, paths.drop_first()) {
                Err(e) => Err(e),
                Ok((p3, l3, rest)) => Ok((p3, l3, seq![paid] + rest)),
            },
        }
    }
}

/// A path list under the exact-in router: at most one path may carry the
/// remaining-balance sentinel, and the paths then run in list order.
pub open spec fn spec_run_exact_in(
    pools: Seq<Pool>,
    ledger: Map<u64, u64>,
    paths: Seq<SwapPath>,
) -> Result<(Seq<Pool>, Map<u64, u64>, Seq<u64>), RouterError> {
    if count_sentinels(paths) > 1 {
        Err(RouterError::UnsupportedOperation)
    } else {
        spec_fold_exact_in(pools, ledger, paths)
    }
}

/// A path list under the exact-out router: the same sentinel rule, then the
/// paths in list order.
pub open spec fn spec_run_exact_out(
    pools: Seq<Pool>,
    ledger: Map<u64, u64>,
    paths: Seq<SwapPath>,
) -> Result<(Seq<Pool>, Map<u64, u64>, Seq<u64>), RouterError> {
    if count_sentinels(paths) > 1 {
        Err(RouterError::UnsupportedOperation)
    } else {
        spec_fold_exact_out(pools, ledger, paths)
    }
}

/// Counts the paths of a list that carry the remaining-balance sentinel.
fn sentinel_count(paths: &Vec<SwapPath>) -> (r: usize)
    ensures
        r == count_sentinels(paths@),
{
    let n = paths.len();
    let mut c: usize = 0;
    let mut i: usize = 0;
    proof {
        assert(paths@.skip(0) =~= paths@);
    }
    while i < n
        invariant
            i <= n,
            c <= i,
            n == paths@.len(),
            c == count_sentinels(paths@) - count_sentinels(paths@.skip(i as int)),
        decreases n - i,
    {
        proof {
            assert(paths@.skip(i as int)[0] == paths@[i as int]);
            assert(paths@.skip(i as int).drop_first() =~= paths@.skip(i as int + 1));
        }
        if matches!(paths[i].amount, PathAmount::UseRemaining) {
            c = c + 1;
        }
        i = i + 1;
    }
    proof {
        assert(paths@.skip(n as int) =~= Seq::<SwapPath>::empty());
    }
    c
}

/// A whole exact-in call: the deadline gate, then the path list.
pub open spec fn spec_batch_exact_in(
    pools: Seq<Pool>,
    ledger: Map<u64, u64>,
    paths: Seq<SwapPath>,
    height: BlockHeight,
    deadline: BlockHeight,
) -> Result<(Seq<Pool>, Map<u64, u64>, Seq<u64>), RouterError> {
    if height > deadline {
        Err(RouterError::DeadlineExpired)
    } else {
        spec_run_exact_in(pools, ledger, paths)
    }
}

/// A whole exact-out call: the deadline gate, then the path list.
pub open spec fn spec_batch_exact_out(
    pools: Seq<Pool>,
    ledger: Map<u64, u64>,
    paths: Seq<SwapPath>,
    height: BlockHeight,
    deadline: BlockHeight,
) -> Result<(Seq<Pool>, Map<u64, u64>, Seq<u64>), RouterError> {
    if height > deadline {
        Err(RouterError::DeadlineExpired)
    } else {
        spec_run_exact_out(pools, ledger, paths)
    }
}

/// Runs a path list under the exact-in router, mutating the given working
/// state in place.
pub(crate) fn run_list_exact_in(
    book: &mut PoolBook,
    ledger: &mut BalanceSheet,
    paths: &Vec<SwapPath>,
) -> (r: Result<Vec<u64>, RouterError>)
    requires
        old(book).wf(),
    ensures
        final(book).wf(),
        match r {
            Ok(outs) => spec_run_exact_in(old(book)@, old(ledger)@, paths@) == Ok::<
                (Seq<Pool>, Map<u64, u64>, Seq<u64>),
                RouterError,
            >((final(book)@, final(ledger)@, outs@)),
            Err(e) => spec_run_exact_in(old(book)@, old(ledger)@, paths@) == Err::<
                (Seq<Pool>, Map<u64, u64>, Seq<u64>),
                RouterError,
            >(e),
        },
{
    if sentinel_count(paths) > 1 {
        return Err(RouterError::UnsupportedOperation);
    }
    let ghost book0 = book@;
    let ghost ledger0 = ledger@;
    let n = paths.len();
    let mut outs: Vec<u64> = Vec::new();
    let mut i: usize = 0;
    proof {
        assert(paths@.skip(0) =~= paths@);
    }
    while i < n
        invariant
            i <= n,
            n == paths@.len(),
            count_sentinels(paths@) <= 1,
            book0 == old(book)@,
            ledger0 == old(ledger)@,
            book.wf(),
            outs@.len() == i,
            spec_fold_exact_in(book0, ledger0, paths@) == (match spec_fold_exact_in(
                book@,
                ledger@,
                paths@.skip(i as int),
            ) {
                Ok((p, l, rest)) => Ok::<(Seq<Pool>, Map<u64, u64>, Seq<u64>), RouterError>(
                    (p, l, outs@ + rest),
                ),
                Err(e) => Err::<(Seq<Pool>, Map<u64, u64>, Seq<u64>), RouterError>(e),
            }),
        decreases n - i,
    {
        proof {
            assert(paths@.skip(i as int)[0] == paths@[i as int]);
            assert(paths@.skip(i as int).drop_first() =~= paths@.skip(i as int + 1));
        }
        match swap_path_exact_in(book, ledger, &paths[i]) {
            Ok(out) => {
                proof {
                    assert forall|rest: Seq<u64>| outs@ + (seq![out] + rest) =~= (#[trigger] (
                    outs@.push(out) + rest)) by {}
                }
                outs.push(out);
            },
            Err(e) => {
                return Err(e);
            },
        }
        i = i + 1;
    }
    proof {
        assert(paths@.skip(n as int) =~= Seq::<SwapPath>::empty());
        assert(outs@ + Seq::<u64>::empty() =~= outs@);
    }
    Ok(outs)
}

/// Runs a path list under the exact-out router, mutating the given working
/// state in place.
pub(crate) fn run_list_exact_out(
    book: &mut PoolBook,
    ledger: &mut BalanceSheet,
    paths: &Vec<SwapPath>,
) -> (r: Result<Vec<u64>, RouterError>)
    requires
        old(book).wf(),
    ensures
        final(book).wf(),
        match r {
            Ok(paid) => spec_run_exact_out(old(book)@, old(ledger)@, paths@) == Ok::<
                (Seq<Pool>, Map<u64, u64>, Seq<u64>),
                RouterError,
            >((final(book)@, final(ledger)@, paid@)),
            Err(e) => spec_run_exact_out(old(book)@, old(ledger)@, paths@) == Err::<
                (Seq<Pool>, Map<u64, u64>, Seq<u64>),
                RouterError,
            >(e),
        },
{
    if sentinel_count(paths) > 1 {
        return Err(RouterError::UnsupportedOperation);
    }
    let ghost book0 = book@;
    let ghost ledger0 = ledger@;
    let n = paths.len();
    let mut outs: Vec<u64> = Vec::new();
    let mut i: usize = 0;
    proof {
        assert(paths@.skip(0) =~= paths@);
    }
    while i < n
        invariant
            i <= n,
            n == paths@.len(),
            count_sentinels(paths@) <= 1,
            book0 == old(book)@,
            ledger0 == old(ledger)@,
            book.wf(),
            outs@.len() == i,
            spec_fold_exact_out(book0, ledger0, paths@) == (match spec_fold_exact_out(
                book@,
                ledger@,
                paths@.skip(i as int),
            ) {
                Ok((p, l, rest)) => Ok::<(Seq<Pool>, Map<u64, u64>, Seq<u64>), RouterError>(
                    (p, l, outs@ + rest),
                ),
                Err(e) => Err::<(Seq<Pool>, Map<u64, u64>, Seq<u64>), RouterError>(e),
            }),
        decreases n - i,
    {
        proof {
            assert(paths@.skip(i as int)[0] == paths@[i as int]);
            assert(paths@.skip(i as int).drop_first() =~= paths@.skip(i as int + 1));
        }
        match swap_path_exact_out(book, ledger, &paths[i]) {
            Ok(paid) => {
                proof {
                    assert forall|rest: Seq<u64>| outs@ + (seq![paid] + rest) =~= (#[trigger] (
                    outs@.push(paid) + rest)) by {}
                }
                outs.push(paid);
            },
            Err(e) => {
                return Err(e);
            },
        }
        i = i + 1;
    }
    proof {
        assert(paths@.skip(n as int) =~= Seq::<SwapPath>::empty());
        assert(outs@ + Seq::<u64>::empty() =~= outs@);
    }
    Ok(outs)
}

/// The exact-in call entry point: fails with `DeadlineExpired` before any hop
/// if the height has passed the deadline, then runs the path list. The
/// registry and ledger change exactly when the whole list succeeds; any
/// failure leaves both as they were.
pub fn batch_swap_exact_in(
    book: &mut PoolBook,
    ledger: &mut BalanceSheet,
    list: &SwapPathList,
    height: BlockHeight,
    deadline: BlockHeight,
) -> (r: Result<Vec<u64>, RouterError>)
    requires
        old(book).wf(),
    ensures
        final(book).wf(),
        match r {
            Ok(outs) => spec_batch_exact_in(old(book)@, old(ledger)@, list.paths@, height, deadline)
                == Ok::<(Seq<Pool>, Map<u64, u64>, Seq<u64>), RouterError>(
                (final(book)@, final(ledger)@, outs@),
            ),
            Err(e) => spec_batch_exact_in(old(book)@, old(ledger)@, list.paths@, height, deadline)
                == Err::<(Seq<Pool>, Map<u64, u64>, Seq<u64>), RouterError>(e) && final(book)@
                == old(book)@ && final(ledger)@ == old(ledger)@,
        },
{
    if height > deadline {
        return Err(RouterError::DeadlineExpired);
    }
    let mut wbook = book.duplicate();
    let mut wledger = ledger.duplicate();
    match run_list_exact_in(&mut wbook, &mut wledger, &list.paths) {
        Ok(outs) => {
            *book = wbook;
            *ledger = wledger;
            Ok(outs)
        },
        Err(e) => Err(e),
    }
}

/// The exact-out call entry point: the deadline gate, then the path list,
/// committing only on whole-list success.
pub fn batch_swap_exact_out(
    book: &mut PoolBook,
    ledger: &mut BalanceSheet,
    list: &SwapPathList,
    height: BlockHeight,
    deadline: BlockHeight,
) -> (r: Result<Vec<u64>, RouterError>)
    requires
        old(book).wf(),
    ensures
        final(book).wf(),
        match r {
            Ok(paid) => spec_batch_exact_out(old(book)@, old(ledger)@, list.paths@, height, deadline)
                == Ok::<(Seq<Pool>, Map<u64, u64>, Seq<u64>), RouterError>(
                (final(book)@, final(ledger)@, paid@),
            ),
            Err(e) => spec_batch_exact_out(old(book)@, old(ledger)@, list.paths@, height, deadline)
                == Err::<(Seq<Pool>, Map<u64, u64>, Seq<u64>), RouterError>(e) && final(book)@
                == old(book)@ && final(ledger)@ == old(ledger)@,
        },
{
    if height > deadline {
        return Err(RouterError::DeadlineExpired);
    }
    let mut wbook = book.duplicate();
    let mut wledger = ledger.duplicate();
    match run_list_exact_out(&mut wbook, &mut wledger, &list.paths) {
        Ok(paid) => {
            *book = wbook;
            *ledger = wledger;
            Ok(paid)
        },
        Err(e) => Err(e),
    }
}

} // verus!
