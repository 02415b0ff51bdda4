//! General properties of the routing model, stated and proved once over the
//! spec-level interpreter.

use vstd::prelude::*;
use crate::compose::{spec_apply_action, spec_compose, spec_compose_actions};
use crate::exact_in::{spec_hops_exact_in, spec_step_exact_in};
use crate::exact_out::{spec_path_exact_out, spec_quote_step_out, spec_resolve_out};
use crate::market::MarketView;
use crate::pool::Pool;
use crate::route::{spec_batch_exact_in, spec_batch_exact_out};
use crate::types::{path_contiguous, Action, BlockHeight, PathAmount, RouterError, SwapPath, SwapStep};

verus! {

/// A run of one hop is the single-hop rule itself.
pub proof fn lemma_single_hop(pools: Seq<Pool>, amount_in: u64, step: SwapStep)
    ensures
        spec_hops_exact_in(pools, amount_in, seq![step]) == (match spec_step_exact_in(
            pools,
            amount_in,
            step,
        ) {
            Ok((p2, a2)) => Ok::<(Seq<Pool>, u64), RouterError>((p2, a2)),
            Err(e) => Err::<(Seq<Pool>, u64), RouterError>(e),
        }),
{
    let s = seq![step];
    assert(s.len() == 1);
    assert(s[0] == step);
    assert(s.drop_first() =~= Seq::<SwapStep>::empty());
    match spec_step_exact_in(pools, amount_in, step) {
        Ok((p2, a2)) => {
            assert(spec_hops_exact_in(p2, a2, s.drop_first()) == Ok::<(Seq<Pool>, u64), RouterError>(
                (p2, a2),
            ));
        },
        Err(_) => {
        },
    }
}

/// Multi-hop chaining equals sequential application of the single-hop rule:
/// routing through the steps of `s1` followed by the steps of `s2` is
/// routing through `s1`, then routing what came out through `s2` against the
/// reserves `s1` left behind.
pub proof fn lemma_hops_chain(
    pools: Seq<Pool>,
    amount_in: u64,
    s1: Seq<SwapStep>,
    s2: Seq<SwapStep>,
)
    ensures
        spec_hops_exact_in(pools, amount_in, s1 + s2) == (match spec_hops_exact_in(
            pools,
            amount_in,
            s1,
        ) {
            Ok((p2, a2)) => spec_hops_exact_in(p2, a2, s2),
            Err(e) => Err::<(Seq<Pool>, u64), RouterError>(e),
        }),
    decreases s1.len(),
{
    if s1.len() == 0 {
        assert(s1 + s2 =~= s2);
    } else {
        assert((s1 + s2)[0] == s1[0]);
        assert((s1 + s2).len() > 0);
        assert((s1 + s2).drop_first() =~= s1.drop_first() + s2);
        match spec_step_exact_in(pools, amount_in, s1[0]) {
            Ok((p2, a2)) => {
                lemma_hops_chain(p2, a2, s1.drop_first(), s2);
            },
            Err(_) => {
            },
        }
    }
}

/// Backward resolution answers with exactly one required input per hop.
pub proof fn lemma_resolve_len(pools: Seq<Pool>, steps: Seq<SwapStep>, desired: u64)
    requires
        spec_resolve_out(pools, steps, desired) is Ok,
    ensures
        spec_resolve_out(pools, steps, desired)->Ok_0.len() == steps.len(),
    decreases steps.len(),
{
    if steps.len() > 0 {
        let in_last = spec_quote_step_out(pools, steps.last(), desired)->Ok_0;
        lemma_resolve_len(pools, steps.drop_last(), in_last);
    }
}

/// An exact-out path whose resolved required input exceeds the path's
/// maximum fails with `SlippageExceeded`, whatever the ledger holds.
pub proof fn lemma_exact_out_limit(
    pools: Seq<Pool>,
    ledger: Map<u64, u64>,
    path: SwapPath,
    desired: u64,
)
    requires
        path.steps@.len() > 0,
        path_contiguous(path.steps@),
        path.amount == PathAmount::Fixed(desired),
        spec_resolve_out(pools, path.steps@, desired) is Ok,
        spec_resolve_out(pools, path.steps@, desired)->Ok_0[0] > path.limit,
    ensures
        spec_path_exact_out(pools, ledger, path) == Err::<
            (Seq<Pool>, Map<u64, u64>, u64),
            RouterError,
        >(RouterError::SlippageExceeded),
{
}

/// A call whose current height exceeds its deadline fails with
/// `DeadlineExpired`, whatever it asked for: both batch entry points and the
/// composer refuse it before touching anything.
pub proof fn lemma_deadline_gate(
    pools: Seq<Pool>,
    markets: Seq<MarketView>,
    ledger: Map<u64, u64>,
    paths: Seq<SwapPath>,
    actions: Seq<Action>,
    height: BlockHeight,
    deadline: BlockHeight,
)
    requires
        height > deadline,
    ensures
        spec_batch_exact_in(pools, ledger, paths, height, deadline) == Err::<
            (Seq<Pool>, Map<u64, u64>, Seq<u64>),
            RouterError,
        >(RouterError::DeadlineExpired),
        spec_batch_exact_out(pools, ledger, paths, height, deadline) == Err::<
            (Seq<Pool>, Map<u64, u64>, Seq<u64>),
            RouterError,
        >(RouterError::DeadlineExpired),
        spec_compose(pools, markets, ledger, actions, height, deadline) == Err::<
            (Seq<Pool>, Seq<MarketView>, Map<u64, u64>, Seq<u64>),
            RouterError,
        >(RouterError::DeadlineExpired),
{
}

/// Composition is fail-fast: the first failing action's error is the whole
/// call's error, whatever follows it in the list.
pub proof fn lemma_compose_first_failure(
    pools: Seq<Pool>,
    markets: Seq<MarketView>,
    ledger: Map<u64, u64>,
    actions: Seq<Action>,
    e: RouterError,
)
    requires
        actions.len() > 0,
        spec_apply_action(pools, markets, ledger, actions[0]) == Err::<
            (Seq<Pool>, Seq<MarketView>, Map<u64, u64>, u64),
            RouterError,
        >(e),
    ensures
        spec_compose_actions(pools, markets, ledger, actions) == Err::<
            (Seq<Pool>, Seq<MarketView>, Map<u64, u64>, Seq<u64>),
            RouterError,
        >(e),
{
}

} // verus!
