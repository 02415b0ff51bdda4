//! The money-market model the composer's lending actions run against: per
//! market a ledger of posted collateral and a base-asset position split into
//! supplied tokens and debt. Deposits and withdrawals move collateral;
//! borrows draw on supplied tokens first and book the rest as debt; repays
//! settle debt first and book the rest as supplied. The market refuses what
//! it cannot honour; its solvency rules beyond these books are not modelled.

use vstd::prelude::*;
use crate::sheet::{spec_credit, spec_debit, BalanceSheet};
use crate::types::{AmountMode, AssetId, LendOp, LenderAction, RouterError};

verus! {

/// A market's books, as contracts see them.
pub struct MarketView {
    pub market_id: u64,
    pub base_asset: u64,
    pub collateral: Map<u64, u64>,
    pub supplied: u64,
    pub debt: u64,
}

/// One money market.
pub struct Market {
    market_id: u64,
    base_asset: AssetId,
    collateral: BalanceSheet,
    supplied: u64,
    debt: u64,
}

impl View for Market {
    type V = MarketView;

    closed spec fn view(&self) -> MarketView {
        MarketView {
            market_id: self.market_id,
            base_asset: self.base_asset,
            collateral: self.collateral@,
            supplied: self.supplied,
            debt: self.debt,
        }
    }
}

/// The index of the first market carrying the identifier, if any.
pub open spec fn find_market(markets: Seq<MarketView>, market_id: u64) -> Option<int>
    decreases markets.len(),
{
    if markets.len() == 0 {
        None
    } else if markets[0].market_id == market_id {
        Some(0)
    } else {
        match find_market(markets.drop_first(), market_id) {
            Some(i) => Some(i + 1),
            None => None,
        }
    }
}

proof fn lemma_find_market_first(markets: Seq<MarketView>, market_id: u64, i: int)
    requires
        0 <= i < markets.len(),
        markets[i].market_id == market_id,
        forall|j: int| 0 <= j < i ==> (#[trigger] markets[j]).market_id != market_id,
    ensures
        find_market(markets, market_id) == Some(i),
    decreases i,
{
    if i > 0 {
        assert(markets[0].market_id != market_id);
        assert forall|j: int|
            0 <= j < i - 1 implies (#[trigger] markets.drop_first()[j]).market_id != market_id by {
            assert(markets.drop_first()[j] == markets[j + 1]);
        }
        assert(markets.drop_first()[i - 1] == markets[i]);
        lemma_find_market_first(markets.drop_first(), market_id, i - 1);
    }
}

proof fn lemma_find_market_none(markets: Seq<MarketView>, market_id: u64)
    requires
        forall|j: int| 0 <= j < markets.len() ==> (#[trigger] markets[j]).market_id != market_id,
    ensures
        find_market(markets, market_id) is None,
    decreases markets.len(),
{
    if markets.len() > 0 {
        assert forall|j: int|
            0 <= j < markets.drop_first().len() implies (#[trigger] markets.drop_first()[j]).market_id
            != market_id by {
            assert(markets.drop_first()[j] == markets[j + 1]);
        }
        lemma_find_market_none(markets.drop_first(), market_id);
    }
}

/// What `find_market` names is a market with the identifier, in range.
pub proof fn lemma_find_market_props(markets: Seq<MarketView>, market_id: u64)
    requires
        find_market(markets, market_id) is Some,
    ensures
        0 <= find_market(markets, market_id)->Some_0 < markets.len(),
        markets[find_market(markets, market_id)->Some_0].market_id == market_id,
    decreases markets.len(),
{
    if markets.len() > 0 && markets[0].market_id != market_id {
        lemma_find_market_props(markets.drop_first(), market_id);
        let i = find_market(markets.drop_first(), market_id)->Some_0;
        assert(markets.drop_first()[i] == markets[i + 1]);
    }
}

/// One lending operation, as a function on the market books and the ledger.
/// The `All` amount resolves to the ledger's current holding of the named
/// asset. The returned figure is the amount moved.
pub open spec fn spec_lender_apply(
    markets: Seq<MarketView>,
    ledger: Map<u64, u64>,
    act: LenderAction,
) -> Result<(Seq<MarketView>, Map<u64, u64>, u64), RouterError> {
    match find_market(markets, act.market_id) {
        None => Err(RouterError::AdapterFailure),
        Some(i) => {
            let m = markets[i];
            let amt = match act.amount {
                AmountMode::Exact(a) => a,
                AmountMode::All => ledger[act.asset],
            };
            match act.op {
                LendOp::Deposit => match spec_debit(ledger, act.asset, amt) {
                    Err(e) => Err(e),
                    Ok(l2) => {
                        if m.collateral[act.asset] + amt > u64::MAX {
                            Err(RouterError::AmountOverflow)
                        } else {
                            Ok(
                                (
                                    markets.update(
                                        i,
                                        (MarketView {
                                            collateral: m.collateral.insert(
                                                act.asset,
                                                (m.collateral[act.asset] + amt) as u64,
                                            ),
                                            ..m
                                        }),
                                    ),
                                    l2,
                                    amt,
                                ),
                            )
                        }
                    },
                },
                LendOp::Withdraw => {
                    if m.collateral[act.asset] < amt {
                        Err(RouterError::AdapterFailure)
                    } else {
                        match spec_credit(ledger, act.asset, amt) {
                            Err(e) => Err(e),
                            Ok(l2) => Ok(
                                (
                                    markets.update(
                                        i,
                                        (MarketView {
                                            collateral: m.collateral.insert(
                                                act.asset,
                                                (m.collateral[act.asset] - amt) as u64,
                                            ),
                                            ..m
                                        }),
                                    ),
                                    l2,
                                    amt,
                                ),
                            ),
                        }
                    }
                },
                LendOp::Borrow => {
                    if act.asset != m.base_asset {
                        Err(RouterError::AdapterFailure)
                    } else {
                        let from_supply = if m.supplied < amt {
                            m.supplied
                        } else {
                            amt
                        };
                        if m.debt + (amt - from_supply) > u64::MAX {
                            Err(RouterError::AmountOverflow)
                        } else {
                            match spec_credit(ledger, act.asset, amt) {
                                Err(e) => Err(e),
                                Ok(l2) => Ok(
                                    (
                                        markets.update(
                                            i,
                                            (MarketView {
                                                supplied: (m.supplied - from_supply) as u64,
                                                debt: (m.debt + (amt - from_supply)) as u64,
                                                ..m
                                            }),
                                        ),
                                        l2,
                                        amt,
                                    ),
                                ),
                            }
                        }
                    }
                },
                LendOp::Repay => {
                    if act.asset != m.base_asset {
                        Err(RouterError::AdapterFailure)
                    } else {
                        match spec_debit(ledger, act.asset, amt) {
                            Err(e) => Err(e),
                            Ok(l2) => {
                                let pay = if m.debt < amt {
                                    m.debt
                                } else {
                                    amt
                                };
                                if m.supplied + (amt - pay) > u64::MAX {
                                    Err(RouterError::AmountOverflow)
                                } else {
                                    Ok(
                                        (
                                            markets.update(
                                                i,
                                                (MarketView {
                                                    supplied: (m.supplied + (amt - pay)) as u64,
                                                    debt: (m.debt - pay) as u64,
                                                    ..m
                                                }),
                                            ),
                                            l2,
                                            amt,
                                        ),
                                    )
                                }
                            },
                        }
                    }
                },
            }
        },
    }
}

/// The registry of money markets.
pub struct MarketBook {
    markets: Vec<Market>,
}

impl View for MarketBook {
    type V = Seq<MarketView>;

    closed spec fn view(&self) -> Seq<MarketView> {
        self.markets@.map_values(|m: Market| m@)
    }
}

impl MarketBook {
    /// An empty registry.
    pub fn new() -> (r: MarketBook)
        ensures
            r@ == Seq::<MarketView>::empty(),
    {
        let r = MarketBook { markets: Vec::new() };
        proof {
            assert(r@ =~= Seq::<MarketView>::empty());
        }
        r
    }

    /// Registers a market with empty books. Fails, and changes nothing, when
    /// a market already carries the identifier.
    pub fn add_market(&mut self, market_id: u64, base_asset: AssetId) -> (r: Result<
        (),
        RouterError,
    >)
        ensures
            match r {
                Ok(()) => find_market(old(self)@, market_id) is None && final(self)@.len() == old(
                    self,
                )@.len() + 1 && final(self)@.subrange(0, old(self)@.len() as int) == old(self)@
                    && final(self)@.last().market_id == market_id && final(self)@.last().base_asset
                    == base_asset && final(self)@.last().supplied == 0 && final(self)@.last().debt
                    == 0 && (forall|a: u64| final(self)@.last().collateral[a] == 0),
                Err(e) => e == RouterError::AdapterFailure && find_market(old(self)@, market_id)
                    is Some && final(self)@ == old(self)@,
            },
    {
        if self.find(market_id).is_some() {
            return Err(RouterError::AdapterFailure);
        }
        let m = Market {
            market_id,
            base_asset,
            collateral: BalanceSheet::new(),
            supplied: 0,
            debt: 0,
        };
        self.markets.push(m);
        proof {
            assert(final(self)@ =~= old(self)@.push(m@));
            assert(final(self)@.subrange(0, old(self)@.len() as int) =~= old(self)@);
        }
        Ok(())
    }

    fn find(&self, market_id: u64) -> (r: Option<usize>)
        ensures
            match r {
                Some(i) => find_market(self@, market_id) == Some(i as int),
                None => find_market(self@, market_id) is None,
            },
    {
        let n = self.markets.len();
        let mut i: usize = 0;
        while i < n
            invariant
                i <= n,
                n == self@.len(),
                n == self.markets@.len(),
                forall|j: int| 0 <= j < i ==> (#[trigger] self@[j]).market_id != market_id,
            decreases n - i,
        {
            proof {
                assert(self@[i as int] == self.markets@[i as int]@);
            }
            if self.markets[i].market_id == market_id {
                proof {
                    lemma_find_market_first(self@, market_id, i as int);
                }
                return Some(i);
            }
            i = i + 1;
        }
        proof {
            lemma_find_market_none(self@, market_id);
        }
        None
    }

    /// The supplied and owed base amounts of the market carrying the
    /// identifier, if any.
    pub fn market_snapshot(&self, market_id: u64) -> (r: Option<(u64, u64)>)
        ensures
            match r {
                Some(t) => find_market(self@, market_id) is Some && t.0 == self@[find_market(
                    self@,
                    market_id,
                )->Some_0].supplied && t.1 == self@[find_market(self@, market_id)->Some_0].debt,
                None => find_market(self@, market_id) is None,
            },
    {
        match self.find(market_id) {
            Some(i) => {
                proof {
                    lemma_find_market_props(self@, market_id);
                    assert(self@[i as int] == self.markets@[i as int]@);
                }
                Some((self.markets[i].supplied, self.markets[i].debt))
            },
            None => None,
        }
    }

    /// The collateral the market holds for an asset, if the market exists.
    pub fn collateral_of(&self, market_id: u64, asset: AssetId) -> (r: Option<u64>)
        ensures
            match r {
                Some(v) => find_market(self@, market_id) is Some && v == self@[find_market(
                    self@,
                    market_id,
                )->Some_0].collateral[asset],
                None => find_market(self@, market_id) is None,
            },
    {
        match self.find(market_id) {
            Some(i) => {
                proof {
                    lemma_find_market_props(self@, market_id);
                    assert(self@[i as int] == self.markets@[i as int]@);
                }
                Some(self.markets[i].collateral.balance_of(asset))
            },
            None => None,
        }
    }

    /// Performs one lending operation against the registry and the ledger.
    pub fn apply(&mut self, ledger: &mut BalanceSheet, act: &LenderAction) -> (r: Result<
        u64,
        RouterError,
    >)
        ensures
            match r {
                Ok(delta) => spec_lender_apply(old(self)@, old(ledger)@, *act) == Ok::<
                    (Seq<MarketView>, Map<u64, u64>, u64),
                    RouterError,
                >((final(self)@, final(ledger)@, delta)),
                Err(e) => spec_lender_apply(old(self)@, old(ledger)@, *act) == Err::<
                    (Seq<MarketView>, Map<u64, u64>, u64),
                    RouterError,
                >(e),
            },
    {
        let i = match self.find(act.market_id) {
            None => {
                return Err(RouterError::AdapterFailure);
            },
            Some(i) => i,
        };
        proof {
            lemma_find_market_props(self@, act.market_id);
            assert(self@[i as int] == self.markets@[i as int]@);
        }
        let amt = match act.amount {
            AmountMode::Exact(a) => a,
            AmountMode::All => ledger.balance_of(act.asset),
        };
        let ghost m0 = self@[i as int];
        match act.op {
            LendOp::Deposit => {
                match ledger.debit(act.asset, amt) {
                    Err(e) => {
                        return Err(e);
                    },
                    Ok(()) => {},
                }
                let held = self.markets[i].collateral.balance_of(act.asset);
                if amt > u64::MAX - held {
                    return Err(RouterError::AmountOverflow);
                }
                let mkt = &mut self.markets[i];
                mkt.collateral.set_balance(act.asset, held + amt);
                proof {
                    assert(self.markets@ =~= old(self).markets@.update(i as int, self.markets@[i as int]));
                    assert(self@ =~= old(self)@.update(
                        i as int,
                        (MarketView {
                            collateral: m0.collateral.insert(
                                act.asset,
                                (m0.collateral[act.asset] + amt) as u64,
                            ),
                            ..m0
                        }),
                    ));
                }
                Ok(amt)
            },
            LendOp::Withdraw => {
                let held = self.markets[i].collateral.balance_of(act.asset);
                if held < amt {
                    return Err(RouterError::AdapterFailure);
                }
                match ledger.credit(act.asset, amt) {
                    Err(e) => {
                        return Err(e);
                    },
                    Ok(()) => {},
                }
                let mkt = &mut self.markets[i];
                mkt.collateral.set_balance(act.asset, held - amt);
                proof {
                    assert(self.markets@ =~= old(self).markets@.update(i as int, self.markets@[i as int]));
                    assert(self@ =~= old(self)@.update(
                        i as int,
                        (MarketView {
                            collateral: m0.collateral.insert(
                                act.asset,
                                (m0.collateral[act.asset] - amt) as u64,
                            ),
                            ..m0
                        }),
                    ));
                }
                Ok(amt)
            },
            LendOp::Borrow => {
                if act.asset != self.markets[i].base_asset {
                    return Err(RouterError::AdapterFailure);
                }
                let supplied = self.markets[i].supplied;
                let debt = self.markets[i].debt;
                let from_supply = if supplied < amt {
                    supplied
                } else {
                    amt
                };
                if amt - from_supply > u64::MAX - debt {
                    return Err(RouterError::AmountOverflow);
                }
                match ledger.credit(act.asset, amt) {
                    Err(e) => {
                        return Err(e);
                    },
                    Ok(()) => {},
                }
                let mkt = &mut self.markets[i];
                mkt.supplied = supplied - from_supply;
                mkt.debt = debt + (amt - from_supply);
                proof {
                    assert(self.markets@ =~= old(self).markets@.update(i as int, self.markets@[i as int]));
                    assert(self@ =~= old(self)@.update(
                        i as int,
                        (MarketView {
                            supplied: (m0.supplied - from_supply) as u64,
                            debt: (m0.debt + (amt - from_supply)) as u64,
                            ..m0
                        }),
                    ));
                }
                Ok(amt)
            },
            LendOp::Repay => {
                if act.asset != self.markets[i].base_asset {
                    return Err(RouterError::AdapterFailure);
                }
                match ledger.debit(act.asset, amt) {
                    Err(e) => {
                        return Err(e);
                    },
                    Ok(()) => {},
                }
                let supplied = self.markets[i].supplied;
                let debt = self.markets[i].debt;
                let pay = if debt < amt {
                    debt
                } else {
                    amt
                };
                if amt - pay > u64::MAX - supplied {
                    return Err(RouterError::AmountOverflow);
                }
                let mkt = &mut self.markets[i];
                mkt.supplied = supplied + (amt - pay);
                mkt.debt = debt - pay;
                proof {
                    assert(self.markets@ =~= old(self).markets@.update(i as int, self.markets@[i as int]));
                    assert(self@ =~= old(self)@.update(
                        i as int,
                        (MarketView {
                            supplied: (m0.supplied + (amt - pay)) as u64,
                            debt: (m0.debt - pay) as u64,
                            ..m0
                        }),
                    ));
                }
                Ok(amt)
            },
        }
    }

    /// An identical copy of the registry.
    pub fn duplicate(&self) -> (r: MarketBook)
        ensures
            r@ == self@,
    {
        let n = self.markets.len();
        let mut out: Vec<Market> = Vec::new();
        let mut i: usize = 0;
        while i < n
            invariant
                i <= n,
                n == self.markets@.len(),
                out@.len() == i,
                forall|j: int| 0 <= j < i ==> (#[trigger] out@[j])@ == self.markets@[j]@,
            decreases n - i,
        {
            let src = &self.markets[i];
            let m = Market {
                market_id: src.market_id,
                base_asset: src.base_asset,
                collateral: src.collateral.duplicate(),
                supplied: src.supplied,
                debt: src.debt,
            };
            out.push(m);
            i = i + 1;
        }
        let r = MarketBook { markets: out };
        proof {
            assert(r@ =~= self@);
        }
        r
    }
}

} // verus!
