//! The constant-product venue model: pools with two reserves, registered per
//! unordered asset pair and stability flag, addressed by the routers one hop
//! at a time.

use vstd::prelude::*;
use crate::types::{AssetId, RouterError};

verus! {

/// One liquidity pool. A pool trades its pair in both directions.
#[derive(Clone, Copy, Debug, PartialEq, Eq, Structural)]
pub struct Pool {
    pub asset_0: AssetId,
    pub asset_1: AssetId,
    pub stable: bool,
    pub reserve_0: u64,
    pub reserve_1: u64,
}

impl Pool {
    /// A pool is well formed when its pair is a real pair and both reserves
    /// hold at least one token.
    pub open spec fn wf(self) -> bool {
        self.asset_0 != self.asset_1 && 1 <= self.reserve_0 && 1 <= self.reserve_1
    }

    /// Whether this pool trades `a_in` against `a_out`, in either direction,
    /// at the given stability.
    pub open spec fn matches_key(self, a_in: AssetId, a_out: AssetId, stable: bool) -> bool {
        self.stable == stable && ((self.asset_0 == a_in && self.asset_1 == a_out) || (self.asset_1
            == a_in && self.asset_0 == a_out))
    }

    /// The reserve on the side tokens flow in.
    pub open spec fn spec_reserve_in(self, a_in: AssetId) -> u64 {
        if self.asset_0 == a_in {
            self.reserve_0
        } else {
            self.reserve_1
        }
    }

    /// The reserve on the side tokens flow out.
    pub open spec fn spec_reserve_out(self, a_in: AssetId) -> u64 {
        if self.asset_0 == a_in {
            self.reserve_1
        } else {
            self.reserve_0
        }
    }

    /// The pool after receiving `amount_in` on the input side and paying
    /// `amount_out` on the output side.
    pub open spec fn spec_apply(self, a_in: AssetId, amount_in: u64, amount_out: u64) -> Pool {
        if self.asset_0 == a_in {
            (Pool {
                reserve_0: (self.reserve_0 + amount_in) as u64,
                reserve_1: (self.reserve_1 - amount_out) as u64,
                ..self
            })
        } else {
            (Pool {
                reserve_0: (self.reserve_0 - amount_out) as u64,
                reserve_1: (self.reserve_1 + amount_in) as u64,
                ..self
            })
        }
    }
}

/// The index of the first pool trading the pair, if any.
pub open spec fn find_pool(pools: Seq<Pool>, a_in: AssetId, a_out: AssetId, stable: bool) -> Option<
    int,
>
    decreases pools.len(),
{
    if pools.len() == 0 {
        None
    } else if pools[0].matches_key(a_in, a_out, stable) {
        Some(0)
    } else {
        match find_pool(pools.drop_first(), a_in, a_out, stable) {
            Some(i) => Some(i + 1),
            None => None,
        }
    }
}

/// The first matching index is what `find_pool` names.
proof fn lemma_find_pool_first(pools: Seq<Pool>, a_in: AssetId, a_out: AssetId, stable: bool, i: int)
    requires
        0 <= i < pools.len(),
        pools[i].matches_key(a_in, a_out, stable),
        forall|j: int| 0 <= j < i ==> !(#[trigger] pools[j]).matches_key(a_in, a_out, stable),
    ensures
        find_pool(pools, a_in, a_out, stable) == Some(i),
    decreases i,
{
    if i > 0 {
        assert(!pools[0].matches_key(a_in, a_out, stable));
        assert forall|j: int| 0 <= j < i - 1 implies !(#[trigger] pools.drop_first()[j]).matches_key(
            a_in,
            a_out,
            stable,
        ) by {
            assert(pools.drop_first()[j] == pools[j + 1]);
        }
        assert(pools.drop_first()[i - 1] == pools[i]);
        lemma_find_pool_first(pools.drop_first(), a_in, a_out, stable, i - 1);
    }
}

/// With no matching pool, `find_pool` names none.
proof fn lemma_find_pool_none(pools: Seq<Pool>, a_in: AssetId, a_out: AssetId, stable: bool)
    requires
        forall|j: int|
            0 <= j < pools.len() ==> !(#[trigger] pools[j]).matches_key(a_in, a_out, stable),
    ensures
        find_pool(pools, a_in, a_out, stable) is None,
    decreases pools.len(),
{
    if pools.len() > 0 {
        assert forall|j: int|
            0 <= j < pools.drop_first().len() implies !(#[trigger] pools.drop_first()[j]).matches_key(
            a_in,
            a_out,
            stable,
        ) by {
            assert(pools.drop_first()[j] == pools[j + 1]);
        }
        lemma_find_pool_none(pools.drop_first(), a_in, a_out, stable);
    }
}

/// What `find_pool` names is a matching pool at an index in range.
pub proof fn lemma_find_pool_props(pools: Seq<Pool>, a_in: AssetId, a_out: AssetId, stable: bool)
    requires
        find_pool(pools, a_in, a_out, stable) is Some,
    ensures
        0 <= find_pool(pools, a_in, a_out, stable)->Some_0 < pools.len(),
        pools[find_pool(pools, a_in, a_out, stable)->Some_0].matches_key(a_in, a_out, stable),
    decreases pools.len(),
{
    if pools.len() > 0 && !pools[0].matches_key(a_in, a_out, stable) {
        lemma_find_pool_props(pools.drop_first(), a_in, a_out, stable);
        let i = find_pool(pools.drop_first(), a_in, a_out, stable)->Some_0;
        assert(pools.drop_first()[i] == pools[i + 1]);
    }
}

/// Registering a pool, as a function on the registry sequence: the pair must
/// be a real pair, both initial reserves must be funded, and the keyed pool
/// must not exist yet; anything else is the venue's refusal.
pub open spec fn spec_create_pool(
    pools: Seq<Pool>,
    asset_a: AssetId,
    asset_b: AssetId,
    stable: bool,
    reserve_a: u64,
    reserve_b: u64,
) -> Result<Seq<Pool>, RouterError> {
    if asset_a == asset_b || reserve_a < 1 || reserve_b < 1 {
        Err(RouterError::AdapterFailure)
    } else if find_pool(pools, asset_a, asset_b, stable) is Some {
        Err(RouterError::AdapterFailure)
    } else {
        Ok(
            pools.push(
                (Pool {
                    asset_0: asset_a,
                    asset_1: asset_b,
                    stable,
                    reserve_0: reserve_a,
                    reserve_1: reserve_b,
                }),
            ),
        )
    }
}

/// The registry of pools the routers can address.
pub struct PoolBook {
    pools: Vec<Pool>,
}

impl View for PoolBook {
    type V = Seq<Pool>;

    closed spec fn view(&self) -> Seq<Pool> {
        self.pools@
    }
}

impl PoolBook {
    /// Every registered pool is well formed.
    pub open spec fn wf(self) -> bool {
        forall|i: int| 0 <= i < self@.len() ==> (#[trigger] self@[i]).wf()
    }

    /// An empty registry.
    pub fn new() -> (r: PoolBook)
        ensures
            r@ == Seq::<Pool>::empty(),
            r.wf(),
    {
        let r = PoolBook { pools: Vec::new() };
        proof {
            assert(r@ =~= Seq::<Pool>::empty());
        }
        r
    }

    /// The number of registered pools.
    pub fn len(&self) -> (r: usize)
        ensures
            r == self@.len(),
    {
        self.pools.len()
    }

    /// The index of the first pool trading the pair, if any.
    pub(crate) fn find(&self, a_in: AssetId, a_out: AssetId, stable: bool) -> (r: Option<usize>)
        ensures
            match r {
                Some(i) => find_pool(self@, a_in, a_out, stable) == Some(i as int),
                None => find_pool(self@, a_in, a_out, stable) is None,
            },
    {
        let n = self.pools.len();
        let mut i: usize = 0;
        while i < n
            invariant
                i <= n,
                n == self@.len(),
                forall|j: int| 0 <= j < i ==> !(#[trigger] self@[j]).matches_key(a_in, a_out, stable),
            decreases n - i,
        {
            let p = self.pools[i];
            if p.stable == stable && ((p.asset_0 == a_in && p.asset_1 == a_out) || (p.asset_1
                == a_in && p.asset_0 == a_out)) {
                proof {
                    lemma_find_pool_first(self@, a_in, a_out, stable, i as int);
                }
                return Some(i);
            }
            i = i + 1;
        }
        proof {
            lemma_find_pool_none(self@, a_in, a_out, stable);
        }
        None
    }

    /// The pool registered at an index.
    pub(crate) fn get(&self, i: usize) -> (r: Pool)
        requires
            i < self@.len(),
        ensures
            r == self@[i as int],
    {
        self.pools[i]
    }

    /// Replaces the pool at an index.
    pub(crate) fn put(&mut self, i: usize, p: Pool)
        requires
            i < old(self)@.len(),
        ensures
            final(self)@ == old(self)@.update(i as int, p),
    {
        self.pools[i] = p;
    }

    /// Reserves and stability of the first pool trading the pair, if any.
    pub fn pool_metadata(&self, asset_a: AssetId, asset_b: AssetId, stable: bool) -> (r: Option<
        Pool,
    >)
        ensures
            match r {
                Some(p) => find_pool(self@, asset_a, asset_b, stable) is Some && p
                    == self@[find_pool(self@, asset_a, asset_b, stable)->Some_0],
                None => find_pool(self@, asset_a, asset_b, stable) is None,
            },
    {
        match self.find(asset_a, asset_b, stable) {
            Some(i) => {
                proof {
                    lemma_find_pool_props(self@, asset_a, asset_b, stable);
                }
                Some(self.pools[i])
            },
            None => None,
        }
    }

    /// Registers a pool with its initial reserves. Fails, and changes
    /// nothing, exactly when the registration is one the venue refuses: a
    /// degenerate pair, an unfunded reserve, or a pool that already exists.
    pub fn create_pool(
        &mut self,
        asset_a: AssetId,
        asset_b: AssetId,
        stable: bool,
        reserve_a: u64,
        reserve_b: u64,
    ) -> (r: Result<(), RouterError>)
        requires
            old(self).wf(),
        ensures
            final(self).wf(),
            spec_create_pool(old(self)@, asset_a, asset_b, stable, reserve_a, reserve_b) == match r {
                Ok(()) => Ok::<Seq<Pool>, RouterError>(final(self)@),
                Err(e) => Err::<Seq<Pool>, RouterError>(e),
            },
            r is Err ==> final(self)@ == old(self)@,
    {
        if asset_a == asset_b || reserve_a < 1 || reserve_b < 1 {
            return Err(RouterError::AdapterFailure);
        }
        if self.find(asset_a, asset_b, stable).is_some() {
            return Err(RouterError::AdapterFailure);
        }
        let p = Pool {
            asset_0: asset_a,
            asset_1: asset_b,
            stable,
            reserve_0: reserve_a,
            reserve_1: reserve_b,
        };
        self.pools.push(p);
        proof {
            assert(forall|i: int|
                0 <= i < old(self)@.len() ==> final(self)@[i] == (#[trigger] old(self)@[i]));
            assert(final(self)@.last() == p);
        }
        Ok(())
    }

    /// An identical copy of the registry.
    pub fn duplicate(&self) -> (r: PoolBook)
        ensures
            r@ == self@,
    {
        let n = self.pools.len();
        let mut out: Vec<Pool> = Vec::new();
        let mut i: usize = 0;
        while i < n
            invariant
                i <= n,
                n == self@.len(),
                out@ =~= self@.take(i as int),
            decreases n - i,
        {
            out.push(self.pools[i]);
            i = i + 1;
        }
        proof {
            assert(out@ =~= self@);
        }
        PoolBook { pools: out }
    }
}

} // verus!
