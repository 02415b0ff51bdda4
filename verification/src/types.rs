//! The data model: assets, swap steps and paths, lending actions, and the
//! error kinds shared by every component.

use vstd::prelude::*;

verus! {

/// Opaque token identifier. The router compares assets for equality only and
/// assumes no ordering between them.
pub type AssetId = u64;

/// A deadline and the current chain position are both block heights.
pub type BlockHeight = u32;

/// Every failure a call can report. Any error aborts the entire call
/// fail-fast: no partial commit is ever surfaced.
#[derive(Clone, Copy, Debug, PartialEq, Eq, Structural)]
pub enum RouterError {
    /// The current block height exceeds the deadline supplied with the call.
    DeadlineExpired,
    /// An exact-in path produced less than its minimum output, or an
    /// exact-out path required more than its maximum input.
    SlippageExceeded,
    /// A path is empty, or two consecutive steps do not agree on the asset
    /// flowing between them.
    HopContiguityViolation,
    /// The balance ledger cannot fund a requested step.
    InsufficientBalance,
    /// An unknown dex identifier, or an operation a component does not offer:
    /// a remaining-balance amount on an exact-out path, or more than one
    /// remaining-balance path in one list.
    UnsupportedOperation,
    /// The pool or lending venue rejected the call: no such pool or market,
    /// an undecodable or invalid parameter blob, an output that would drain a
    /// reserve, a withdrawal above the posted collateral, or a borrow of an
    /// asset the market does not lend.
    AdapterFailure,
    /// A running amount left the representable `u64` range.
    AmountOverflow,
}

/// The amount a path starts from: a literal figure, or the reserved sentinel
/// that resolves to whatever balance of the source asset the ledger holds
/// when the path runs.
#[derive(Clone, Copy, Debug, PartialEq, Eq, Structural)]
pub enum PathAmount {
    Fixed(u64),
    UseRemaining,
}

/// One pool-level hop. The parameter blob is dex-specific: the router never
/// reads it; only the venue model keyed by `dex_id` decodes it.
#[derive(Clone, Debug)]
pub struct SwapStep {
    pub dex_id: u64,
    pub asset_in: AssetId,
    pub asset_out: AssetId,
    /// Identity the hop's output is paid to, forwarded verbatim to the venue.
    pub receiver: u64,
    pub params: Vec<u8>,
}

/// An ordered run of hops converting one asset into another.
///
/// `limit` is the slippage bound: minimum acceptable output for exact-in,
/// maximum acceptable input for exact-out. `transfer_in` records whether the
/// path's funding arrives with the call or was produced by an earlier path;
/// the ledger holds both kinds, so the flag is forwarded, not interpreted.
#[derive(Clone, Debug)]
pub struct SwapPath {
    pub amount: PathAmount,
    pub limit: u64,
    pub transfer_in: bool,
    pub steps: Vec<SwapStep>,
}

/// Paths executed together as one logical multi-path route, in list order.
#[derive(Clone, Debug)]
pub struct SwapPathList {
    pub paths: Vec<SwapPath>,
}

/// The four money-market operations.
#[derive(Clone, Copy, Debug, PartialEq, Eq, Structural)]
pub enum LendOp {
    Deposit,
    Withdraw,
    Borrow,
    Repay,
}

/// A lending amount: a literal figure, or everything the ledger currently
/// holds of the named asset.
#[derive(Clone, Copy, Debug, PartialEq, Eq, Structural)]
pub enum AmountMode {
    Exact(u64),
    All,
}

/// One operation against a money market.
#[derive(Clone, Debug)]
pub struct LenderAction {
    /// Which market the operation addresses.
    pub market_id: u64,
    pub op: LendOp,
    pub asset: AssetId,
    pub amount: AmountMode,
    /// Identity the operation's proceeds are paid to, forwarded verbatim.
    pub receiver: u64,
    /// Optional oracle price-update payload, forwarded opaque and unread so
    /// the market's checks can use current prices.
    pub price_update: Option<Vec<u8>>,
}

/// One element of a composed call's program.
#[derive(Clone, Debug)]
pub enum Action {
    Swap(SwapPathList),
    Lending(LenderAction),
}

/// Hop contiguity: each step hands its output asset to the next step's input.
pub open spec fn path_contiguous(steps: Seq<SwapStep>) -> bool {
    forall|i: int|
        0 <= i && i + 1 < steps.len() ==> (#[trigger] steps[i + 1]).asset_in == steps[i].asset_out
}

/// Checks hop contiguity of a step list.
pub fn check_contiguous(steps: &Vec<SwapStep>) -> (r: bool)
    ensures
        r == path_contiguous(steps@),
{
    let n = steps.len();
    let mut i: usize = 1;
    while i < n
        invariant
            1 <= i,
            i <= n || n == 0,
            n == steps@.len(),
            forall|j: int| 0 <= j && j + 1 < i ==> (#[trigger] steps@[j + 1]).asset_in == steps@[j].asset_out,
        decreases n - i,
    {
        if steps[i].asset_in != steps[i - 1].asset_out {
            proof {
                let j = i - 1;
                assert(!((steps@[j + 1]).asset_in == steps@[j].asset_out));
            }
            return false;
        }
        i = i + 1;
    }
    true
}

} // verus!
