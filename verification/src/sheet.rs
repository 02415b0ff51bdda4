//! The balance ledger: the call-scoped mapping from asset to the amount
//! available to the next step. Viewed as a total map from asset to amount,
//! every asset not listed holding zero.

use vstd::prelude::*;
use crate::types::{AssetId, RouterError};

verus! {

/// The amount the first entry for `a` holds, or zero if none does.
pub open spec fn find_amt(s: Seq<(u64, u64)>, a: u64) -> u64
    decreases s.len(),
{
    if s.len() == 0 {
        0
    } else if s[0].0 == a {
        s[0].1
    } else {
        find_amt(s.drop_first(), a)
    }
}

/// Crediting a ledger, as a map: fails only when the balance would leave the
/// representable range.
pub open spec fn spec_credit(m: Map<u64, u64>, a: u64, amt: u64) -> Result<
    Map<u64, u64>,
    RouterError,
> {
    if m[a] + amt > u64::MAX {
        Err(RouterError::AmountOverflow)
    } else {
        Ok(m.insert(a, (m[a] + amt) as u64))
    }
}

/// Debiting a ledger, as a map: fails only when the balance cannot fund the
/// requested amount.
pub open spec fn spec_debit(m: Map<u64, u64>, a: u64, amt: u64) -> Result<
    Map<u64, u64>,
    RouterError,
> {
    if m[a] < amt {
        Err(RouterError::InsufficientBalance)
    } else {
        Ok(m.insert(a, (m[a] - amt) as u64))
    }
}

/// The call-scoped ledger of available amounts per asset.
pub struct BalanceSheet {
    entries: Vec<(AssetId, u64)>,
}

impl View for BalanceSheet {
    type V = Map<u64, u64>;

    closed spec fn view(&self) -> Map<u64, u64> {
        Map::new(|a: u64| true, |a: u64| find_amt(self.entries@, a))
    }
}

proof fn lemma_find_first(s: Seq<(u64, u64)>, a: u64, i: int)
    requires
        0 <= i < s.len(),
        s[i].0 == a,
        forall|j: int| 0 <= j < i ==> (#[trigger] s[j]).0 != a,
    ensures
        find_amt(s, a) == s[i].1,
    decreases i,
{
    if i > 0 {
        assert(s[0].0 != a);
        assert forall|j: int| 0 <= j < i - 1 implies (#[trigger] s.drop_first()[j]).0 != a by {
            assert(s.drop_first()[j] == s[j + 1]);
        }
        lemma_find_first(s.drop_first(), a, i - 1);
        assert(s.drop_first()[i - 1] == s[i]);
    }
}

proof fn lemma_find_none(s: Seq<(u64, u64)>, a: u64)
    requires
        forall|j: int| 0 <= j < s.len() ==> (#[trigger] s[j]).0 != a,
    ensures
        find_amt(s, a) == 0,
    decreases s.len(),
{
    if s.len() > 0 {
        lemma_find_none(s.drop_first(), a);
    }
}

/// Updating the first entry for `a` rewrites `a`'s amount and nothing else.
proof fn lemma_find_update_first(s: Seq<(u64, u64)>, a: u64, i: int, v: u64, b: u64)
    requires
        0 <= i < s.len(),
        s[i].0 == a,
        forall|j: int| 0 <= j < i ==> (#[trigger] s[j]).0 != a,
    ensures
        find_amt(s.update(i, (a, v)), b) == if b == a {
            v
        } else {
            find_amt(s, b)
        },
    decreases i,
{
    let t = s.update(i, (a, v));
    if i == 0 {
        if b != a {
            assert(t.drop_first() =~= s.drop_first());
        }
    } else {
        assert(t[0] == s[0]);
        assert(s[0].0 != a);
        assert(t.drop_first() =~= s.drop_first().update(i - 1, (a, v)));
        assert(s.drop_first()[i - 1] == s[i]);
        assert forall|j: int| 0 <= j < i - 1 implies (#[trigger] s.drop_first()[j]).0 != a by {
            assert(s.drop_first()[j] == s[j + 1]);
        }
        lemma_find_update_first(s.drop_first(), a, i - 1, v, b);
    }
}

/// Appending an entry for an unlisted asset sets that asset's amount and
/// nothing else.
proof fn lemma_find_push_new(s: Seq<(u64, u64)>, a: u64, v: u64, b: u64)
    requires
        forall|j: int| 0 <= j < s.len() ==> (#[trigger] s[j]).0 != a,
    ensures
        find_amt(s.push((a, v)), b) == if b == a {
            v
        } else {
            find_amt(s, b)
        },
    decreases s.len(),
{
    let t = s.push((a, v));
    if s.len() == 0 {
        assert(t[0] == (a, v));
        assert(t.len() == 1);
        if b != a {
            assert(t.drop_first() =~= Seq::<(u64, u64)>::empty());
            assert(find_amt(t, b) == find_amt(t.drop_first(), b));
            assert(find_amt(t.drop_first(), b) == 0);
        } else {
            assert(find_amt(t, b) == v);
        }
    } else {
        assert(t[0] == s[0]);
        assert(s[0].0 != a);
        assert(t.drop_first() =~= s.drop_first().push((a, v)));
        assert forall|j: int| 0 <= j < s.drop_first().len() implies (#[trigger] s.drop_first()[j]).0
            != a by {
            assert(s.drop_first()[j] == s[j + 1]);
        }
        lemma_find_push_new(s.drop_first(), a, v, b);
    }
}

impl BalanceSheet {
    /// An empty ledger: every asset holds zero.
    pub fn new() -> (r: BalanceSheet)
        ensures
            forall|a: u64| r@[a] == 0,
    {
        let r = BalanceSheet { entries: Vec::new() };
        r
    }

    fn balance_from(&self, a: u64, i: usize) -> (r: u64)
        requires
            i <= self.entries.len(),
        ensures
            r == find_amt(self.entries@.skip(i as int), a),
        decreases self.entries.len() - i,
    {
        if i == self.entries.len() {
            proof {
                assert(self.entries@.skip(i as int) =~= Seq::<(u64, u64)>::empty());
            }
            0
        } else {
            let (k, v) = self.entries[i];
            proof {
                assert(self.entries@.skip(i as int)[0] == self.entries@[i as int]);
                assert(self.entries@.skip(i as int).drop_first() =~= self.entries@.skip(
                    i as int + 1,
                ));
            }
            if k == a {
                v
            } else {
                self.balance_from(a, i + 1)
            }
        }
    }

    /// The amount of `a` the ledger holds.
    pub fn balance_of(&self, a: u64) -> (r: u64)
        ensures
            r == self@[a],
    {
        proof {
            assert(self.entries@.skip(0) =~= self.entries@);
        }
        self.balance_from(a, 0)
    }

    fn find_index(&self, a: u64) -> (r: Option<usize>)
        ensures
            match r {
                Some(i) => i < self.entries@.len() && self.entries@[i as int].0 == a && forall|
                    j: int,
                |
                    0 <= j < i ==> (#[trigger] self.entries@[j]).0 != a,
                None => forall|j: int|
                    0 <= j < self.entries@.len() ==> (#[trigger] self.entries@[j]).0 != a,
            },
    {
        let n = self.entries.len();
        let mut i: usize = 0;
        while i < n
            invariant
                i <= n,
                n == self.entries@.len(),
                forall|j: int| 0 <= j < i ==> (#[trigger] self.entries@[j]).0 != a,
            decreases n - i,
        {
            if self.entries[i].0 == a {
                return Some(i);
            }
            i = i + 1;
        }
        None
    }

    /// Sets the amount of `a` to exactly `v`.
    pub fn set_balance(&mut self, a: u64, v: u64)
        ensures
            final(self)@ == old(self)@.insert(a, v),
    {
        match self.find_index(a) {
            Some(i) => {
                self.entries[i] = (a, v);
                proof {
                    assert forall|b: u64| #[trigger]
                        find_amt(self.entries@, b) == if b == a {
                            v
                        } else {
                            find_amt(old(self).entries@, b)
                        } by {
                        lemma_find_update_first(old(self).entries@, a, i as int, v, b);
                    }
                    assert(self@ =~= old(self)@.insert(a, v));
                }
            },
            None => {
                self.entries.push((a, v));
                proof {
                    assert forall|b: u64| #[trigger]
                        find_amt(self.entries@, b) == if b == a {
                            v
                        } else {
                            find_amt(old(self).entries@, b)
                        } by {
                        lemma_find_push_new(old(self).entries@, a, v, b);
                    }
                    assert(self@ =~= old(self)@.insert(a, v));
                }
            },
        }
    }

    /// Adds `amt` to the amount of `a`, or reports the overflow and leaves
    /// the ledger unchanged.
    pub fn credit(&mut self, a: u64, amt: u64) -> (r: Result<(), RouterError>)
        ensures
            spec_credit(old(self)@, a, amt) == match r {
                Ok(()) => Ok::<Map<u64, u64>, RouterError>(final(self)@),
                Err(e) => Err::<Map<u64, u64>, RouterError>(e),
            },
            r is Err ==> final(self)@ == old(self)@,
    {
        let cur = self.balance_of(a);
        if amt > u64::MAX - cur {
            Err(RouterError::AmountOverflow)
        } else {
            self.set_balance(a, cur + amt);
            Ok(())
        }
    }

    /// Removes `amt` from the amount of `a`, or reports the shortfall and
    /// leaves the ledger unchanged.
    pub fn debit(&mut self, a: u64, amt: u64) -> (r: Result<(), RouterError>)
        ensures
            spec_debit(old(self)@, a, amt) == match r {
                Ok(()) => Ok::<Map<u64, u64>, RouterError>(final(self)@),
                Err(e) => Err::<Map<u64, u64>, RouterError>(e),
            },
            r is Err ==> final(self)@ == old(self)@,
    {
        let cur = self.balance_of(a);
        if cur < amt {
            Err(RouterError::InsufficientBalance)
        } else {
            self.set_balance(a, cur - amt);
            Ok(())
        }
    }

    /// An identical copy of the ledger.
    pub fn duplicate(&self) -> (r: BalanceSheet)
        ensures
            r@ == self@,
    {
        let n = self.entries.len();
        let mut out: Vec<(AssetId, u64)> = Vec::new();
        let mut i: usize = 0;
        while i < n
            invariant
                i <= n,
                n == self.entries@.len(),
                out@ =~= self.entries@.take(i as int),
            decreases n - i,
        {
            out.push(self.entries[i]);
            i = i + 1;
        }
        proof {
            assert(out@ =~= self.entries@);
        }
        let r = BalanceSheet { entries: out };
        proof {
            assert(r@ =~= self@);
        }
        r
    }
}

} // verus!
