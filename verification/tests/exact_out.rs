use batch_router::params::encode_mira_params;
use batch_router::pool::PoolBook;
use batch_router::route::batch_swap_exact_out;
use batch_router::sheet::BalanceSheet;
use batch_router::types::{PathAmount, RouterError, SwapPath, SwapPathList, SwapStep};

const RESERVE: u64 = 1_000_000 - 1_000;
const FEE: u64 = 30;
const DEADLINE: u32 = 10;
const HEIGHT: u32 = 1;

fn step(asset_in: u64, asset_out: u64) -> SwapStep {
    SwapStep {
        dex_id: 0,
        asset_in,
        asset_out,
        receiver: 7,
        params: encode_mira_params(FEE, false),
    }
}

fn pool_book(pairs: &[(u64, u64)]) -> PoolBook {
    let mut book = PoolBook::new();
    for &(a, b) in pairs {
        book.create_pool(a, b, false, RESERVE, RESERVE).unwrap();
    }
    book
}

fn funded(asset: u64, amount: u64) -> BalanceSheet {
    let mut sheet = BalanceSheet::new();
    sheet.credit(asset, amount).unwrap();
    sheet
}

#[test]
fn exact_out_swap_between_two_volatile_tokens() {
    let mut book = pool_book(&[(0, 1)]);
    let mut sheet = funded(0, 1_030);
    let list = SwapPathList {
        paths: vec![SwapPath {
            amount: PathAmount::Fixed(1_000),
            limit: 1_030,
            transfer_in: true,
            steps: vec![step(0, 1)],
        }],
    };
    let paid = batch_swap_exact_out(&mut book, &mut sheet, &list, HEIGHT, DEADLINE).unwrap();
    assert_eq!(paid, vec![1_006]);
    assert_eq!(sheet.balance_of(0), 1_030 - 1_006);
    assert_eq!(sheet.balance_of(1), 1_000);
    let p = book.pool_metadata(0, 1, false).unwrap();
    assert_eq!(p.reserve_0, RESERVE + 1_006);
    assert_eq!(p.reserve_1, RESERVE - 1_000);
}

#[test]
fn exact_out_swap_between_three_volatile_tokens() {
    let mut book = pool_book(&[(0, 1), (1, 2)]);
    let mut sheet = funded(0, 1_030);
    let list = SwapPathList {
        paths: vec![SwapPath {
            amount: PathAmount::Fixed(1_000),
            limit: 1_030,
            transfer_in: true,
            steps: vec![step(0, 1), step(1, 2)],
        }],
    };
    let paid = batch_swap_exact_out(&mut book, &mut sheet, &list, HEIGHT, DEADLINE).unwrap();
    assert_eq!(paid, vec![1_012]);
    assert_eq!(sheet.balance_of(0), 1_030 - 1_012);
    assert_eq!(sheet.balance_of(2), 1_000);
    let p01 = book.pool_metadata(0, 1, false).unwrap();
    assert_eq!(p01.reserve_0, RESERVE + 1_012);
    assert_eq!(p01.reserve_1, RESERVE - 1_006);
    let p12 = book.pool_metadata(1, 2, false).unwrap();
    assert_eq!(p12.reserve_0, RESERVE + 1_006);
    assert_eq!(p12.reserve_1, RESERVE - 1_000);
}

#[test]
fn exact_out_swap_split_routes() {
    let mut book = pool_book(&[(0, 1), (1, 2), (0, 2)]);
    let mut sheet = funded(0, 1_020);
    let list = SwapPathList {
        paths: vec![
            SwapPath {
                amount: PathAmount::Fixed(250),
                limit: 1_020 / 4,
                transfer_in: true,
                steps: vec![step(0, 1), step(1, 2)],
            },
            SwapPath {
                amount: PathAmount::Fixed(750),
                limit: 1_020 * 3 / 4,
                transfer_in: true,
                steps: vec![step(0, 2)],
            },
        ],
    };
    let paid = batch_swap_exact_out(&mut book, &mut sheet, &list, HEIGHT, DEADLINE).unwrap();
    assert_eq!(paid.iter().sum::<u64>(), 1_008);
    assert_eq!(sheet.balance_of(0), 1_020 - 1_008);
    assert_eq!(sheet.balance_of(2), 1_000);
}

#[test]
fn exact_out_max_input_exceeded_fails() {
    let mut book = pool_book(&[(0, 1)]);
    let mut sheet = funded(0, 1_030);
    let list = SwapPathList {
        paths: vec![SwapPath {
            amount: PathAmount::Fixed(1_000),
            limit: 1_005,
            transfer_in: true,
            steps: vec![step(0, 1)],
        }],
    };
    let r = batch_swap_exact_out(&mut book, &mut sheet, &list, HEIGHT, DEADLINE);
    assert_eq!(r.unwrap_err(), RouterError::SlippageExceeded);
    assert_eq!(sheet.balance_of(0), 1_030);
    let p = book.pool_metadata(0, 1, false).unwrap();
    assert_eq!(p.reserve_0, RESERVE);
    assert_eq!(p.reserve_1, RESERVE);
}

#[test]
fn exact_out_remaining_balance_amount_rejected() {
    let mut book = pool_book(&[(0, 1)]);
    let mut sheet = funded(0, 1_030);
    let list = SwapPathList {
        paths: vec![SwapPath {
            amount: PathAmount::UseRemaining,
            limit: 1_030,
            transfer_in: true,
            steps: vec![step(0, 1)],
        }],
    };
    let r = batch_swap_exact_out(&mut book, &mut sheet, &list, HEIGHT, DEADLINE);
    assert_eq!(r.unwrap_err(), RouterError::UnsupportedOperation);
}

#[test]
fn exact_out_output_above_reserve_fails() {
    let mut book = pool_book(&[(0, 1)]);
    let mut sheet = funded(0, u64::MAX);
    let list = SwapPathList {
        paths: vec![SwapPath {
            amount: PathAmount::Fixed(RESERVE),
            limit: u64::MAX,
            transfer_in: true,
            steps: vec![step(0, 1)],
        }],
    };
    let r = batch_swap_exact_out(&mut book, &mut sheet, &list, HEIGHT, DEADLINE);
    assert_eq!(r.unwrap_err(), RouterError::AdapterFailure);
}

#[test]
fn exact_out_deadline_expired_changes_nothing() {
    let mut book = pool_book(&[(0, 1)]);
    let mut sheet = funded(0, 1_030);
    let list = SwapPathList {
        paths: vec![SwapPath {
            amount: PathAmount::Fixed(1_000),
            limit: 1_030,
            transfer_in: true,
            steps: vec![step(0, 1)],
        }],
    };
    let r = batch_swap_exact_out(&mut book, &mut sheet, &list, 11, DEADLINE);
    assert_eq!(r.unwrap_err(), RouterError::DeadlineExpired);
    assert_eq!(sheet.balance_of(0), 1_030);
    let p = book.pool_metadata(0, 1, false).unwrap();
    assert_eq!(p.reserve_0, RESERVE);
}
