//! The action composer: one call's program is an ordered action list run
//! over a shared ledger, strictly in list order, all-or-nothing. The call
//! moves from pending through each action in turn and either commits the
//! whole sequence or fails at the first failing action with every balance,
//! reserve and market book exactly as it was.

use vstd::prelude::*;
use crate::market::{spec_lender_apply, MarketBook, MarketView};
use crate::pool::{Pool, PoolBook};
use crate::route::{run_list_exact_in, spec_run_exact_in};
use crate::sheet::BalanceSheet;
use crate::types::{Action, BlockHeight, RouterError};

verus! {

/// One action: a swap action runs its path list under the exact-in router; a
/// lending action runs against its market. The action's figure is the amount
/// its destination leg produced: the last path's output for a swap (zero for
/// an empty list), the amount moved for a lending operation.
pub open spec fn spec_apply_action(
    pools: Seq<Pool>,
    markets: Seq<MarketView>,
    ledger: Map<u64, u64>,
    action: Action,
) -> Result<(Seq<Pool>, Seq<MarketView>, Map<u64, u64>, u64), RouterError> {
    match action {
        Action::Swap(list) => match spec_run_exact_in(pools, ledger, list.paths@) {
            Err(e) => Err(e),
            Ok((p2, l2, outs)) => Ok(
                (
                    p2,
                    markets,
                    l2,
                    if outs.len() == 0 {
                        0
                    } else {
                        outs.last()
                    },
                ),
            ),
        },
        Action::Lending(act) => match spec_lender_apply(markets, ledger, act) {
            Err(e) => Err(e),
            Ok((m2, l2, delta)) => Ok((pools, m2, l2, delta)),
        },
    }
}

/// An action list, run strictly in list order: each action sees the ledger,
/// reserves and market books its predecessors left behind.
pub open spec fn spec_compose_actions(
    pools: Seq<Pool>,
    markets: Seq<MarketView>,
    ledger: Map<u64, u64>,
    actions: Seq<Action>,
) -> Result<(Seq<Pool>, Seq<MarketView>, Map<u64, u64>, Seq<u64>), RouterError>
    decreases actions.len(),
{
    if actions.len() == 0 {
        Ok((pools, markets, ledger, Seq::<u64>::empty()))
    } else {
        match spec_apply_action(pools, markets, ledger, actions[0]) {
            Err(e) => Err(e),
            Ok((p2, m2, l2, figure)) => match spec_compose_actions(
                p2,
                m2,
                l2,
                actions.drop_first(),
            ) {
                Err(e) => Err(e),
                Ok((p3, m3, l3, rest)) => Ok((p3, m3, l3, seq![figure] + rest)),
            },
        }
    }
}

/// A whole composed call: the deadline gate, checked once at entry, then the
/// action list.
pub open spec fn spec_compose(
    pools: Seq<Pool>,
    markets: Seq<MarketView>,
    ledger: Map<u64, u64>,
    actions: Seq<Action>,
    height: BlockHeight,
    deadline: BlockHeight,
) -> Result<(Seq<Pool>, Seq<MarketView>, Map<u64, u64>, Seq<u64>), RouterError> {
    if height > deadline {
        Err(RouterError::DeadlineExpired)
    } else {
        spec_compose_actions(pools, markets, ledger, actions)
    }
}

/// Performs one action against the working state.
fn apply_action(
    book: &mut PoolBook,
    markets: &mut MarketBook,
    ledger: &mut BalanceSheet,
    action: &Action,
) -> (r: Result<u64, RouterError>)
    requires
        old(book).wf(),
    ensures
        final(book).wf(),
        match r {
            Ok(figure) => spec_apply_action(old(book)@, old(markets)@, old(ledger)@, *action)
                == Ok::<(Seq<Pool>, Seq<MarketView>, Map<u64, u64>, u64), RouterError>(
                (final(book)@, final(markets)@, final(ledger)@, figure),
            ),
            Err(e) => spec_apply_action(old(book)@, old(markets)@, old(ledger)@, *action) == Err::<
                (Seq<Pool>, Seq<MarketView>, Map<u64, u64>, u64),
                RouterError,
            >(e),
        },
{
    match action {
        Action::Swap(list) => {
            let outs = match run_list_exact_in(book, ledger, &list.paths) {
                Err(e) => {
                    return Err(e);
                },
                Ok(outs) => outs,
            };
            if outs.len() == 0 {
                Ok(0)
            } else {
                Ok(outs[outs.len() - 1])
            }
        },
        Action::Lending(act) => markets.apply(ledger, act),
    }
}

/// Runs a composed call: validates the deadline once, then performs the
/// actions strictly in list order over the shared ledger, so later actions
/// can consume what earlier ones produced. The registry, market books and
/// ledger change exactly when every action succeeds; the first failure
/// aborts the call with all three left exactly as they were, and names the
/// failing action's error. On success the result lists each action's figure.
pub fn compose(
    book: &mut PoolBook,
    markets: &mut MarketBook,
    ledger: &mut BalanceSheet,
    actions: &Vec<Action>,
    height: BlockHeight,
    deadline: BlockHeight,
) -> (r: Result<Vec<u64>, RouterError>)
    requires
        old(book).wf(),
    ensures
        final(book).wf(),
        match r {
            Ok(figures) => spec_compose(
                old(book)@,
                old(markets)@,
                old(ledger)@,
                actions@,
                height,
                deadline,
            ) == Ok::<(Seq<Pool>, Seq<MarketView>, Map<u64, u64>, Seq<u64>), RouterError>(
                (final(book)@, final(markets)@, final(ledger)@, figures@),
            ),
            Err(e) => spec_compose(
                old(book)@,
                old(markets)@,
                old(ledger)@,
                actions@,
                height,
                deadline,
            ) == Err::<(Seq<Pool>, Seq<MarketView>, Map<u64, u64>, Seq<u64>), RouterError>(e)
                && final(book)@ == old(book)@ && final(markets)@ == old(markets)@ && final(ledger)@
                == old(ledger)@,
        },
{
    if height > deadline {
        return Err(RouterError::DeadlineExpired);
    }
    let mut wbook = book.duplicate();
    let mut wmarkets = markets.duplicate();
    let mut wledger = ledger.duplicate();
    let ghost book0 = wbook@;
    let ghost markets0 = wmarkets@;
    let ghost ledger0 = wledger@;
    let n = actions.len();
    let mut figures: Vec<u64> = Vec::new();
    let mut i: usize = 0;
    proof {
        assert(actions@.skip(0) =~= actions@);
    }
    while i < n
        invariant
            i <= n,
            n == actions@.len(),
            height <= deadline,
            book0 == old(book)@,
            markets0 == old(markets)@,
            ledger0 == old(ledger)@,
            book@ == old(book)@,
            markets@ == old(markets)@,
            ledger@ == old(ledger)@,
            old(book).wf(),
            wbook.wf(),
            spec_compose_actions(book0, markets0, ledger0, actions@) == (match spec_compose_actions(
                wbook@,
                wmarkets@,
                wledger@,
                actions@.skip(i as int),
            ) {
                Ok((p, m, l, rest)) => Ok::<
                    (Seq<Pool>, Seq<MarketView>, Map<u64, u64>, Seq<u64>),
                    RouterError,
                >((p, m, l, figures@ + rest)),
                Err(e) => Err::<(Seq<Pool>, Seq<MarketView>, Map<u64, u64>, Seq<u64>), RouterError>(
                    e,
                ),
            }),
        decreases n - i,
    {
        proof {
            assert(actions@.skip(i as int)[0] == actions@[i as int]);
            assert(actions@.skip(i as int).drop_first() =~= actions@.skip(i as int + 1));
        }
        match apply_action(&mut wbook, &mut wmarkets, &mut wledger, &actions[i]) {
            Ok(figure) => {
                proof {
                    assert forall|rest: Seq<u64>| figures@ + (seq![figure] + rest) =~= (#[trigger] (
                    figures@.push(figure) + rest)) by {}
                }
                figures.push(figure);
            },
            Err(e) => {
                return Err(e);
            },
        }
        i = i + 1;
    }
    proof {
        assert(actions@.skip(n as int) =~= Seq::<Action>::empty());
        assert(figures@ + Seq::<u64>::empty() =~= figures@);
    }
    *book = wbook;
    *markets = wmarkets;
    *ledger = wledger;
    Ok(figures)
}

} // verus!
