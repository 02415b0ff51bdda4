use batch_router::params::{encode_mira_params, encode_mira_params_with_dex_address};
use batch_router::pool::PoolBook;
use batch_router::route::batch_swap_exact_in;
use batch_router::sheet::BalanceSheet;
use batch_router::types::{PathAmount, RouterError, SwapPath, SwapPathList, SwapStep};

const RESERVE: u64 = 1_000_000 - 1_000;
const FEE: u64 = 30;
const DEADLINE: u32 = 10;
const HEIGHT: u32 = 1;

fn step(asset_in: u64, asset_out: u64) -> SwapStep {
    SwapStep {
        dex_id: 0,
        asset_in,
        asset_out,
        receiver: 7,
        params: encode_mira_params(FEE, false),
    }
}

fn pool_book(pairs: &[(u64, u64)]) -> PoolBook {
    let mut book = PoolBook::new();
    for &(a, b) in pairs {
        book.create_pool(a, b, false, RESERVE, RESERVE).unwrap();
    }
    book
}

fn funded(asset: u64, amount: u64) -> BalanceSheet {
    let mut sheet = BalanceSheet::new();
    sheet.credit(asset, amount).unwrap();
    sheet
}

#[test]
fn exact_in_swap_between_two_volatile_tokens() {
    let mut book = pool_book(&[(0, 1)]);
    let mut sheet = funded(0, 1_000);
    let list = SwapPathList {
        paths: vec![SwapPath {
            amount: PathAmount::Fixed(1_000),
            limit: 0,
            transfer_in: true,
            steps: vec![step(0, 1)],
        }],
    };
    let outs = batch_swap_exact_in(&mut book, &mut sheet, &list, HEIGHT, DEADLINE).unwrap();
    assert_eq!(outs, vec![996]);
    assert_eq!(sheet.balance_of(0), 0);
    assert_eq!(sheet.balance_of(1), 996);
    let p = book.pool_metadata(0, 1, false).unwrap();
    assert_eq!(p.reserve_0, RESERVE + 1_000);
    assert_eq!(p.reserve_1, RESERVE - 996);
}

#[test]
fn exact_in_swap_between_three_volatile_tokens() {
    let mut book = pool_book(&[(0, 1), (1, 2)]);
    let mut sheet = funded(0, 1_000);
    let list = SwapPathList {
        paths: vec![SwapPath {
            amount: PathAmount::Fixed(1_000),
            limit: 0,
            transfer_in: true,
            steps: vec![step(0, 1), step(1, 2)],
        }],
    };
    let outs = batch_swap_exact_in(&mut book, &mut sheet, &list, HEIGHT, DEADLINE).unwrap();
    assert_eq!(outs, vec![992]);
    assert_eq!(sheet.balance_of(0), 0);
    assert_eq!(sheet.balance_of(1), 0);
    assert_eq!(sheet.balance_of(2), 992);
    let p01 = book.pool_metadata(0, 1, false).unwrap();
    assert_eq!(p01.reserve_0, RESERVE + 1_000);
    assert_eq!(p01.reserve_1, RESERVE - 996);
    let p12 = book.pool_metadata(1, 2, false).unwrap();
    assert_eq!(p12.reserve_0, RESERVE + 996);
    assert_eq!(p12.reserve_1, RESERVE - 992);
}

#[test]
fn exact_in_swap_split_routes() {
    let mut book = pool_book(&[(0, 1), (1, 2), (0, 2)]);
    let mut sheet = funded(0, 1_000);
    let list = SwapPathList {
        paths: vec![
            SwapPath {
                amount: PathAmount::Fixed(250),
                limit: 0,
                transfer_in: true,
                steps: vec![step(0, 1), step(1, 2)],
            },
            SwapPath {
                amount: PathAmount::Fixed(750),
                limit: 0,
                transfer_in: true,
                steps: vec![step(0, 2)],
            },
        ],
    };
    let outs = batch_swap_exact_in(&mut book, &mut sheet, &list, HEIGHT, DEADLINE).unwrap();
    assert_eq!(outs.iter().sum::<u64>(), 992);
    assert_eq!(sheet.balance_of(0), 0);
    assert_eq!(sheet.balance_of(2), 992);
}

#[test]
fn exact_in_swap_split_segment() {
    let mut book = pool_book(&[(0, 2), (0, 1), (1, 2), (2, 3)]);
    let mut sheet = funded(0, 1_000);
    let list = SwapPathList {
        paths: vec![
            SwapPath {
                amount: PathAmount::Fixed(250),
                limit: 0,
                transfer_in: true,
                steps: vec![step(0, 2)],
            },
            SwapPath {
                amount: PathAmount::Fixed(750),
                limit: 0,
                transfer_in: true,
                steps: vec![step(0, 1), step(1, 2)],
            },
            SwapPath {
                amount: PathAmount::UseRemaining,
                limit: 0,
                transfer_in: false,
                steps: vec![step(2, 3)],
            },
        ],
    };
    let outs = batch_swap_exact_in(&mut book, &mut sheet, &list, HEIGHT, DEADLINE).unwrap();
    assert_eq!(outs.last().copied().unwrap(), 986);
    assert_eq!(sheet.balance_of(0), 0);
    assert_eq!(sheet.balance_of(2), 0);
    assert_eq!(sheet.balance_of(3), 986);
}

#[test]
fn exact_in_min_output_not_met_fails() {
    let mut book = pool_book(&[(0, 1)]);
    let mut sheet = funded(0, 1_000);
    let list = SwapPathList {
        paths: vec![SwapPath {
            amount: PathAmount::Fixed(1_000),
            limit: 997,
            transfer_in: true,
            steps: vec![step(0, 1)],
        }],
    };
    let r = batch_swap_exact_in(&mut book, &mut sheet, &list, HEIGHT, DEADLINE);
    assert_eq!(r.unwrap_err(), RouterError::SlippageExceeded);
    assert_eq!(sheet.balance_of(0), 1_000);
    assert_eq!(sheet.balance_of(1), 0);
    let p = book.pool_metadata(0, 1, false).unwrap();
    assert_eq!(p.reserve_0, RESERVE);
    assert_eq!(p.reserve_1, RESERVE);
}

#[test]
fn exact_in_insufficient_funding_fails() {
    let mut book = pool_book(&[(0, 1)]);
    let mut sheet = funded(0, 500);
    let list = SwapPathList {
        paths: vec![SwapPath {
            amount: PathAmount::Fixed(1_000),
            limit: 0,
            transfer_in: true,
            steps: vec![step(0, 1)],
        }],
    };
    let r = batch_swap_exact_in(&mut book, &mut sheet, &list, HEIGHT, DEADLINE);
    assert_eq!(r.unwrap_err(), RouterError::InsufficientBalance);
    assert_eq!(sheet.balance_of(0), 500);
}

#[test]
fn exact_in_hop_mismatch_fails() {
    let mut book = pool_book(&[(0, 1), (2, 3)]);
    let mut sheet = funded(0, 1_000);
    let list = SwapPathList {
        paths: vec![SwapPath {
            amount: PathAmount::Fixed(1_000),
            limit: 0,
            transfer_in: true,
            steps: vec![step(0, 1), step(2, 3)],
        }],
    };
    let r = batch_swap_exact_in(&mut book, &mut sheet, &list, HEIGHT, DEADLINE);
    assert_eq!(r.unwrap_err(), RouterError::HopContiguityViolation);
}

#[test]
fn exact_in_empty_path_fails() {
    let mut book = pool_book(&[(0, 1)]);
    let mut sheet = funded(0, 1_000);
    let list = SwapPathList {
        paths: vec![SwapPath {
            amount: PathAmount::Fixed(1_000),
            limit: 0,
            transfer_in: true,
            steps: vec![],
        }],
    };
    let r = batch_swap_exact_in(&mut book, &mut sheet, &list, HEIGHT, DEADLINE);
    assert_eq!(r.unwrap_err(), RouterError::HopContiguityViolation);
}

#[test]
fn exact_in_unknown_dex_fails() {
    let mut book = pool_book(&[(0, 1)]);
    let mut sheet = funded(0, 1_000);
    let mut s = step(0, 1);
    s.dex_id = 5;
    let list = SwapPathList {
        paths: vec![SwapPath {
            amount: PathAmount::Fixed(1_000),
            limit: 0,
            transfer_in: true,
            steps: vec![s],
        }],
    };
    let r = batch_swap_exact_in(&mut book, &mut sheet, &list, HEIGHT, DEADLINE);
    assert_eq!(r.unwrap_err(), RouterError::UnsupportedOperation);
}

#[test]
fn exact_in_missing_pool_fails() {
    let mut book = pool_book(&[(0, 1)]);
    let mut sheet = funded(2, 1_000);
    let list = SwapPathList {
        paths: vec![SwapPath {
            amount: PathAmount::Fixed(1_000),
            limit: 0,
            transfer_in: true,
            steps: vec![step(2, 3)],
        }],
    };
    let r = batch_swap_exact_in(&mut book, &mut sheet, &list, HEIGHT, DEADLINE);
    assert_eq!(r.unwrap_err(), RouterError::AdapterFailure);
}

#[test]
fn exact_in_undecodable_params_fails() {
    let mut book = pool_book(&[(0, 1)]);
    let mut sheet = funded(0, 1_000);
    let mut s = step(0, 1);
    s.params = vec![0, 30];
    let list = SwapPathList {
        paths: vec![SwapPath {
            amount: PathAmount::Fixed(1_000),
            limit: 0,
            transfer_in: true,
            steps: vec![s],
        }],
    };
    let r = batch_swap_exact_in(&mut book, &mut sheet, &list, HEIGHT, DEADLINE);
    assert_eq!(r.unwrap_err(), RouterError::AdapterFailure);
}

#[test]
fn exact_in_deadline_expired_changes_nothing() {
    let mut book = pool_book(&[(0, 1)]);
    let mut sheet = funded(0, 1_000);
    let list = SwapPathList {
        paths: vec![SwapPath {
            amount: PathAmount::Fixed(1_000),
            limit: 0,
            transfer_in: true,
            steps: vec![step(0, 1)],
        }],
    };
    let r = batch_swap_exact_in(&mut book, &mut sheet, &list, 11, DEADLINE);
    assert_eq!(r.unwrap_err(), RouterError::DeadlineExpired);
    assert_eq!(sheet.balance_of(0), 1_000);
    let p = book.pool_metadata(0, 1, false).unwrap();
    assert_eq!(p.reserve_0, RESERVE);
    assert_eq!(p.reserve_1, RESERVE);
}

#[test]
fn exact_in_nine_byte_params_variant() {
    let mut book = pool_book(&[(0, 1)]);
    let mut sheet = funded(0, 1_000);
    let mut s = step(0, 1);
    s.params = vec![30, 0, 0, 0, 0, 0, 0, 0, 0];
    let list = SwapPathList {
        paths: vec![SwapPath {
            amount: PathAmount::Fixed(1_000),
            limit: 0,
            transfer_in: true,
            steps: vec![s],
        }],
    };
    let outs = batch_swap_exact_in(&mut book, &mut sheet, &list, HEIGHT, DEADLINE).unwrap();
    assert_eq!(outs, vec![996]);
}

#[test]
fn exact_in_address_override_params_variant() {
    let mut book = pool_book(&[(0, 1)]);
    let mut sheet = funded(0, 1_000);
    let mut s = step(0, 1);
    s.params = encode_mira_params_with_dex_address(30, false, &[0x11; 32]);
    let list = SwapPathList {
        paths: vec![SwapPath {
            amount: PathAmount::Fixed(1_000),
            limit: 0,
            transfer_in: true,
            steps: vec![s],
        }],
    };
    let outs = batch_swap_exact_in(&mut book, &mut sheet, &list, HEIGHT, DEADLINE).unwrap();
    assert_eq!(outs, vec![996]);
}

#[test]
fn exact_in_routes_by_stability_flag() {
    let mut book = PoolBook::new();
    book.create_pool(0, 1, false, RESERVE, RESERVE).unwrap();
    book.create_pool(0, 1, true, 10 * RESERVE, 10 * RESERVE).unwrap();
    let mut sheet = funded(0, 1_000);
    let mut s = step(0, 1);
    s.params = encode_mira_params(FEE, true);
    let list = SwapPathList {
        paths: vec![SwapPath {
            amount: PathAmount::Fixed(1_000),
            limit: 0,
            transfer_in: true,
            steps: vec![s],
        }],
    };
    batch_swap_exact_in(&mut book, &mut sheet, &list, HEIGHT, DEADLINE).unwrap();
    let volatile = book.pool_metadata(0, 1, false).unwrap();
    assert_eq!(volatile.reserve_0, RESERVE);
    let stable = book.pool_metadata(0, 1, true).unwrap();
    assert_eq!(stable.reserve_0, 10 * RESERVE + 1_000);
}

#[test]
fn exact_in_fee_at_denominator_fails() {
    let mut book = pool_book(&[(0, 1)]);
    let mut sheet = funded(0, 1_000);
    let mut s = step(0, 1);
    s.params = encode_mira_params(10_000, false);
    let list = SwapPathList {
        paths: vec![SwapPath {
            amount: PathAmount::Fixed(1_000),
            limit: 0,
            transfer_in: true,
            steps: vec![s],
        }],
    };
    let r = batch_swap_exact_in(&mut book, &mut sheet, &list, HEIGHT, DEADLINE);
    assert_eq!(r.unwrap_err(), RouterError::AdapterFailure);
}

#[test]
fn exact_in_second_sentinel_rejected() {
    let mut book = pool_book(&[(0, 1), (1, 2)]);
    let mut sheet = funded(0, 1_000);
    let list = SwapPathList {
        paths: vec![
            SwapPath {
                amount: PathAmount::UseRemaining,
                limit: 0,
                transfer_in: true,
                steps: vec![step(0, 1)],
            },
            SwapPath {
                amount: PathAmount::UseRemaining,
                limit: 0,
                transfer_in: false,
                steps: vec![step(1, 2)],
            },
        ],
    };
    let r = batch_swap_exact_in(&mut book, &mut sheet, &list, HEIGHT, DEADLINE);
    assert_eq!(r.unwrap_err(), RouterError::UnsupportedOperation);
    assert_eq!(sheet.balance_of(0), 1_000);
}

#[test]
fn exact_in_reserve_overflow_fails() {
    let mut book = PoolBook::new();
    book.create_pool(0, 1, false, u64::MAX - 10, RESERVE).unwrap();
    let mut sheet = funded(0, 100);
    let list = SwapPathList {
        paths: vec![SwapPath {
            amount: PathAmount::Fixed(100),
            limit: 0,
            transfer_in: true,
            steps: vec![step(0, 1)],
        }],
    };
    let r = batch_swap_exact_in(&mut book, &mut sheet, &list, HEIGHT, DEADLINE);
    assert_eq!(r.unwrap_err(), RouterError::AmountOverflow);
}
