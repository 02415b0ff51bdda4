use batch_router::market::MarketBook;
use batch_router::math::{quote_exact_in, quote_exact_out};
use batch_router::pool::PoolBook;
use batch_router::sheet::BalanceSheet;
use batch_router::types::RouterError;

const RESERVE: u64 = 1_000_000 - 1_000;

#[test]
fn single_hop_quote_matches_fee_formula() {
    // floor(R_out * in * (1 - 0.003) / (R_in + in * (1 - 0.003)))
    assert_eq!(quote_exact_in(RESERVE, RESERVE, 1_000, 30), 996);
    assert_eq!(quote_exact_in(RESERVE, RESERVE, 996, 30), 992);
    assert_eq!(quote_exact_in(RESERVE, RESERVE, 250, 30), 248);
    assert_eq!(quote_exact_in(RESERVE, RESERVE, 0, 30), 0);
}

#[test]
fn exact_out_quote_rounds_against_the_caller() {
    assert_eq!(quote_exact_out(RESERVE, RESERVE, 1_000, 30), Ok(1_006));
    assert_eq!(quote_exact_out(RESERVE, RESERVE, 1_006, 30), Ok(1_012));
}

#[test]
fn exact_out_quote_reports_unpayable_requirement() {
    let r = quote_exact_out(u64::MAX, 1_000, 999, 30);
    assert_eq!(r, Err(RouterError::AmountOverflow));
}

#[test]
fn create_pool_rejects_bad_registrations() {
    let mut book = PoolBook::new();
    assert_eq!(book.create_pool(0, 0, false, 1, 1), Err(RouterError::AdapterFailure));
    assert_eq!(book.create_pool(0, 1, false, 0, 1), Err(RouterError::AdapterFailure));
    book.create_pool(0, 1, false, RESERVE, RESERVE).unwrap();
    assert_eq!(
        book.create_pool(1, 0, false, RESERVE, RESERVE),
        Err(RouterError::AdapterFailure)
    );
    book.create_pool(0, 1, true, RESERVE, RESERVE).unwrap();
    assert_eq!(book.len(), 2);
}

#[test]
fn pool_metadata_reads_both_orientations() {
    let mut book = PoolBook::new();
    book.create_pool(4, 9, false, 11, 22).unwrap();
    let p = book.pool_metadata(4, 9, false).unwrap();
    assert_eq!((p.asset_0, p.asset_1, p.reserve_0, p.reserve_1), (4, 9, 11, 22));
    let q = book.pool_metadata(9, 4, false).unwrap();
    assert_eq!((q.reserve_0, q.reserve_1), (11, 22));
    assert!(book.pool_metadata(4, 9, true).is_none());
    assert!(book.pool_metadata(4, 5, false).is_none());
}

#[test]
fn balance_sheet_tracks_amounts() {
    let mut sheet = BalanceSheet::new();
    assert_eq!(sheet.balance_of(3), 0);
    sheet.credit(3, 100).unwrap();
    sheet.credit(3, 50).unwrap();
    sheet.credit(8, 7).unwrap();
    assert_eq!(sheet.balance_of(3), 150);
    assert_eq!(sheet.balance_of(8), 7);
    sheet.debit(3, 120).unwrap();
    assert_eq!(sheet.balance_of(3), 30);
    assert_eq!(sheet.debit(3, 31), Err(RouterError::InsufficientBalance));
    assert_eq!(sheet.balance_of(3), 30);
}

#[test]
fn balance_sheet_reports_overflow() {
    let mut sheet = BalanceSheet::new();
    sheet.credit(1, u64::MAX).unwrap();
    assert_eq!(sheet.credit(1, 1), Err(RouterError::AmountOverflow));
    assert_eq!(sheet.balance_of(1), u64::MAX);
}

#[test]
fn market_book_rejects_duplicate_identifier() {
    let mut markets = MarketBook::new();
    markets.add_market(0, 5).unwrap();
    assert_eq!(markets.add_market(0, 6), Err(RouterError::AdapterFailure));
    markets.add_market(1, 5).unwrap();
    assert_eq!(markets.market_snapshot(0).unwrap(), (0, 0));
    assert_eq!(markets.collateral_of(1, 5).unwrap(), 0);
    assert!(markets.market_snapshot(9).is_none());
}
