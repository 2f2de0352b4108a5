use token_sale_vesting::error::Errors;
use token_sale_vesting::ledger::LedgerEntry;
use token_sale_vesting::model::SaleConfig;
use token_sale_vesting::sale::TokenSaleWithTokenizedVesting;
use token_sale_vesting::types::{Account, PurchaserRecord, Uint256};
use token_sale_vesting::vesting::unlocked_amount;

fn acct(n: u128) -> Account {
    Account { high: 0, low: n }
}

const OWNER: u128 = 1;
const TOKEN: u128 = 2;
const CURRENCY: u128 = 3;
const NFT: u128 = 4;
const ALICE: u128 = 10;
const BOB: u128 = 11;

fn sale(price: u128, total: u128, vesting: u64) -> TokenSaleWithTokenizedVesting {
    let mut s = TokenSaleWithTokenizedVesting::new();
    s.init(acct(OWNER), acct(TOKEN), acct(CURRENCY), price, total, vesting, acct(NFT))
        .unwrap();
    s
}

fn id(n: u128) -> Uint256 {
    Uint256 { high: 0, low: n }
}

#[test]
fn scenario_half_then_full_unlock() {
    let mut s = sale(10, 1000, 100_000);
    let a = acct(ALICE);
    let cost = s.purchase_tokens(a, 0, 50).unwrap();
    assert_eq!(cost, Uint256 { high: 0, low: 500 });
    assert_eq!(s.record(a).units_purchased, 50);
    assert_eq!(s.claim_tokens(a, 50_000), Ok(25));
    assert_eq!(s.record(a).units_claimed, 25);
    assert_eq!(s.claim_tokens(a, 100_000), Ok(25));
    assert_eq!(s.record(a).units_claimed, 50);
    assert_eq!(s.record(a).last_claim_timestamp, 100_000);
    assert_eq!(s.claim_tokens(a, 100_001), Err(Errors::AllTokensClaimed));
    assert_eq!(s.claim_tokens(a, 9_000_000), Err(Errors::AllTokensClaimed));
}

#[test]
fn init_sets_owner_and_parameters() {
    let s = sale(7, 500, 86_400);
    assert_eq!(s.owner(), acct(OWNER));
    assert!(s.config.initialized);
    assert_eq!(s.config.price_per_token, 7);
    assert_eq!(s.config.total_tokens_available, 500);
    assert_eq!(s.config.total_vesting_length_in_seconds, 86_400);
    assert_eq!(s.config.nft_claim, acct(NFT));
}

#[test]
fn init_twice_fails() {
    let mut s = sale(10, 1000, 0);
    let r = s.init(acct(5), acct(TOKEN), acct(CURRENCY), 1, 1, 0, acct(NFT));
    assert_eq!(r, Err(Errors::AlreadyInitialized));
    assert_eq!(s.owner(), acct(OWNER));
}

#[test]
fn init_rejects_zero_values() {
    let mut s = TokenSaleWithTokenizedVesting::new();
    let o = acct(OWNER);
    assert_eq!(s.init(o, acct(TOKEN), acct(CURRENCY), 0, 10, 0, acct(NFT)), Err(Errors::ZeroValueArgumentInjected));
    assert_eq!(s.init(o, Account::zero(), acct(CURRENCY), 1, 10, 0, acct(NFT)), Err(Errors::ZeroValueArgumentInjected));
    assert_eq!(s.init(o, acct(TOKEN), Account::zero(), 1, 10, 0, acct(NFT)), Err(Errors::ZeroValueArgumentInjected));
    assert_eq!(s.init(o, acct(TOKEN), acct(CURRENCY), 1, 0, 0, acct(NFT)), Err(Errors::ZeroValueArgumentInjected));
    assert_eq!(s.init(o, acct(TOKEN), acct(CURRENCY), 1, 10, 0, Account::zero()), Err(Errors::ZeroValueArgumentInjected));
    assert!(!s.config.initialized);
}

#[test]
fn init_rejects_vesting_out_of_range() {
    let mut s = TokenSaleWithTokenizedVesting::new();
    let o = acct(OWNER);
    assert_eq!(s.init(o, acct(TOKEN), acct(CURRENCY), 1, 10, 86_399, acct(NFT)), Err(Errors::VestingLengthTooShort));
    assert_eq!(s.init(o, acct(TOKEN), acct(CURRENCY), 1, 10, 31_536_001, acct(NFT)), Err(Errors::VestingLengthTooLong));
    assert_eq!(s.init(o, acct(TOKEN), acct(CURRENCY), 1, 10, 31_536_000, acct(NFT)), Ok(()));
}

#[test]
fn vesting_length_bounds() {
    let s = TokenSaleWithTokenizedVesting::new();
    assert_eq!(s.validate_vesting_length(0), Ok(()));
    assert_eq!(s.validate_vesting_length(1), Err(Errors::VestingLengthTooShort));
    assert_eq!(s.validate_vesting_length(86_400), Ok(()));
    assert_eq!(s.validate_vesting_length(31_536_000), Ok(()));
    assert_eq!(s.validate_vesting_length(u64::MAX), Err(Errors::VestingLengthTooLong));
}

#[test]
fn purchase_before_init_fails() {
    let mut s = TokenSaleWithTokenizedVesting::new();
    assert_eq!(s.purchase_tokens(acct(ALICE), 0, 1), Err(Errors::NotInitialized));
}

#[test]
fn second_purchase_fails_whatever_the_amount() {
    let mut s = sale(10, 1000, 0);
    let a = acct(ALICE);
    s.purchase_tokens(a, 5, 10).unwrap();
    assert_eq!(s.purchase_tokens(a, 6, 1), Err(Errors::OnlyOnePurchase));
    assert_eq!(s.purchase_tokens(a, 6, 0), Err(Errors::OnlyOnePurchase));
    assert_eq!(s.purchase_tokens(a, 6, 5000), Err(Errors::OnlyOnePurchase));
    assert_eq!(s.record(a).units_purchased, 10);
    assert_eq!(s.total_tokens_purchased, 10);
}

#[test]
fn purchase_beyond_offer_is_sold_out() {
    let mut s = sale(1, 100, 0);
    s.purchase_tokens(acct(ALICE), 0, 60).unwrap();
    assert_eq!(s.purchase_tokens(acct(BOB), 0, 41), Err(Errors::SoldOut));
    assert_eq!(s.purchase_tokens(acct(BOB), 0, 40), Ok(Uint256 { high: 0, low: 40 }));
    assert_eq!(s.total_tokens_purchased, 100);
    assert_eq!(s.purchase_tokens(acct(12), 0, 1), Err(Errors::SoldOut));
}

#[test]
fn purchase_cost_does_not_overflow() {
    let mut s = sale(u128::MAX, u128::MAX, 0);
    let cost = s.purchase_tokens(acct(ALICE), 0, u128::MAX).unwrap();
    assert_eq!(cost, Uint256 { high: u128::MAX - 1, low: 1 });
}

#[test]
fn wide_product() {
    assert_eq!(Uint256::mul_u128(3, 4), Uint256 { high: 0, low: 12 });
    assert_eq!(Uint256::mul_u128(1 << 64, 1 << 64), Uint256 { high: 1, low: 0 });
    assert_eq!(Uint256::mul_u128(u128::MAX, 2), Uint256 { high: 1, low: u128::MAX - 1 });
    assert_eq!(Uint256::mul_u128(0, u128::MAX), Uint256 { high: 0, low: 0 });
}

#[test]
fn unlocked_amount_values() {
    assert_eq!(unlocked_amount(50_000, 50, 100_000), 25);
    assert_eq!(unlocked_amount(0, 50, 100_000), 0);
    assert_eq!(unlocked_amount(100_000, 50, 100_000), 50);
    // rate 1000 / 259200 per second, scaled by 10^12 and truncated
    assert_eq!(unlocked_amount(1000, 1000, 259_200), 3);
    // the truncated rate loses one unit over the whole schedule
    assert_eq!(unlocked_amount(86_400, u128::MAX, 86_400), u128::MAX - 1);
    assert_eq!(unlocked_amount(1, 1, 86_400), 0);
}

#[test]
fn claim_grows_with_time() {
    let mut s = sale(1, 10_000, 100_000);
    let a = acct(ALICE);
    s.purchase_tokens(a, 1_000, 10_000).unwrap();
    let mut last = 0;
    for t in [1_000u64, 2_000, 30_000, 99_999, 101_000, 500_000] {
        let mut copy = s.duplicate();
        let r = copy.claim_tokens(a, t).unwrap();
        assert!(r >= last);
        last = r;
    }
    assert_eq!(last, 10_000);
}

#[test]
fn claim_after_full_unlock_releases_rest_once() {
    let mut s = sale(1, 1000, 86_400);
    let a = acct(ALICE);
    s.purchase_tokens(a, 100, 999).unwrap();
    assert_eq!(s.claim_tokens(a, 43_300), Ok(499));
    assert_eq!(s.claim_tokens(a, 1_000_000), Ok(500));
    assert_eq!(s.record(a).last_claim_timestamp, 86_500);
    assert_eq!(s.claim_tokens(a, 1_000_001), Err(Errors::AllTokensClaimed));
}

#[test]
fn split_claim_matches_single_claim_within_one() {
    let a = acct(ALICE);
    let mut s = sale(1, 1_000_000, 259_200);
    s.purchase_tokens(a, 0, 1000).unwrap();
    let mut single = s.duplicate();
    single.claim_tokens(a, 2001).unwrap();
    let mut split = s.duplicate();
    split.claim_tokens(a, 1000).unwrap();
    split.claim_tokens(a, 2001).unwrap();
    let one = single.record(a).units_claimed;
    let two = split.record(a).units_claimed;
    assert!(two <= one && one <= two + 1);
    assert_eq!(one, 7);
    assert_eq!(two, 6);
}

#[test]
fn delegation_is_one_time() {
    let mut s = sale(1, 1000, 100_000);
    let a = acct(ALICE);
    s.purchase_tokens(a, 0, 100).unwrap();
    assert_eq!(s.enable_tokenized_vesting(a, id(7)), Ok(()));
    assert_eq!(s.record(a).claim_token_id, id(7));
    assert_eq!(s.enable_tokenized_vesting(a, id(8)), Err(Errors::AlreadyTokenized));
    assert_eq!(s.enable_tokenized_vesting(a, id(7)), Err(Errors::AlreadyTokenized));
    assert_eq!(s.record(a).claim_token_id, id(7));
}

#[test]
fn enable_delegation_errors() {
    let mut s = sale(1, 1000, 0);
    assert_eq!(s.enable_tokenized_vesting(acct(ALICE), id(1)), Err(Errors::VestingNotEnabled));
    let mut s = sale(1, 1000, 100_000);
    let a = acct(ALICE);
    assert_eq!(s.enable_tokenized_vesting(a, id(1)), Err(Errors::NoTokensVested));
    s.purchase_tokens(a, 0, 100).unwrap();
    assert_eq!(s.enable_tokenized_vesting(a, Uint256::zero()), Err(Errors::ZeroValueArgumentInjected));
    s.claim_tokens(a, 200_000).unwrap();
    assert_eq!(s.enable_tokenized_vesting(a, id(1)), Err(Errors::AllTokensClaimed));
}

#[test]
fn delegated_claims_go_to_the_token_holder() {
    let mut s = sale(1, 1000, 100_000);
    let a = acct(ALICE);
    let b = acct(BOB);
    s.purchase_tokens(a, 0, 100).unwrap();
    s.enable_tokenized_vesting(a, id(9)).unwrap();
    assert_eq!(s.claim_tokens(a, 50_000), Err(Errors::AlreadyTokenized));
    assert_eq!(s.claim_tokens_by_nft(a, a, Some(b), 50_000), Err(Errors::OnlyOwner));
    assert_eq!(s.claim_tokens_by_nft(b, a, None, 50_000), Err(Errors::OnlyOwner));
    assert_eq!(s.claim_tokens_by_nft(b, a, Some(b), 50_000), Ok(50));
    assert_eq!(s.record(a).units_claimed, 50);
    assert_eq!(s.claim_tokens_by_nft(a, a, Some(a), 100_000), Ok(50));
    assert_eq!(s.claim_tokens_by_nft(a, a, Some(a), 100_001), Err(Errors::AllTokensClaimed));
}

#[test]
fn nft_claim_without_delegation_fails() {
    let mut s = sale(1, 1000, 100_000);
    let a = acct(ALICE);
    let b = acct(BOB);
    s.purchase_tokens(a, 0, 100).unwrap();
    assert_eq!(s.claim_tokens_by_nft(b, a, Some(b), 50_000), Err(Errors::OnlyOwner));
    assert_eq!(s.record(a).units_claimed, 0);
}

#[test]
fn vested_claim_errors() {
    let mut s = TokenSaleWithTokenizedVesting::new();
    assert_eq!(s.claim_tokens(acct(ALICE), 0), Err(Errors::NotInitialized));
    let mut s = sale(1, 1000, 0);
    s.purchase_tokens(acct(ALICE), 0, 5).unwrap();
    assert_eq!(s.claim_tokens(acct(ALICE), 10), Err(Errors::VestingNotEnabled));
    let mut s = sale(1, 1000, 100_000);
    assert_eq!(s.claim_tokens(acct(ALICE), 10), Err(Errors::NoTokensVested));
}

#[test]
fn unlocked_claim_releases_all_once() {
    let mut s = sale(1, 1000, 0);
    let a = acct(ALICE);
    assert_eq!(s.claim_unlocked_tokens(a, 5), Err(Errors::NoTokensPurchased));
    s.purchase_tokens(a, 3, 40).unwrap();
    assert_eq!(s.claim_unlocked_tokens(a, 5), Ok(40));
    assert_eq!(s.record(a).units_claimed, 40);
    assert_eq!(s.record(a).last_claim_timestamp, 5);
    assert_eq!(s.claim_unlocked_tokens(a, 6), Err(Errors::AllTokensClaimed));
}

#[test]
fn unlocked_claim_on_vested_sale_fails() {
    let mut s = sale(1, 1000, 100_000);
    s.purchase_tokens(acct(ALICE), 0, 40).unwrap();
    assert_eq!(s.claim_unlocked_tokens(acct(ALICE), 5), Err(Errors::TokensAreVested));
}

#[test]
fn failed_transfer_rolls_back() {
    let mut s = sale(2, 1000, 0);
    let a = acct(ALICE);
    let before = s.duplicate();
    s.purchase_tokens(a, 0, 10).unwrap();
    assert_eq!(s.conclude_transfer(before, false), Err(Errors::TransferFailed));
    assert_eq!(s.record(a).units_purchased, 0);
    assert_eq!(s.total_tokens_purchased, 0);
    let before = s.duplicate();
    s.purchase_tokens(a, 0, 10).unwrap();
    assert_eq!(s.conclude_transfer(before, true), Ok(()));
    assert_eq!(s.record(a).units_purchased, 10);
}

#[test]
fn price_update_by_owner_only() {
    let mut s = sale(2, 1000, 0);
    assert_eq!(s.update_price(acct(ALICE), 5), Err(Errors::OnlyOwner));
    assert_eq!(s.update_price(acct(OWNER), 0), Err(Errors::ZeroValueArgumentInjected));
    assert_eq!(s.update_price(acct(OWNER), 5), Ok(()));
    assert_eq!(s.purchase_tokens(acct(ALICE), 0, 3), Ok(Uint256 { high: 0, low: 15 }));
    let mut fresh = TokenSaleWithTokenizedVesting::new();
    assert_eq!(fresh.update_price(Account::zero(), 5), Err(Errors::NotInitialized));
}

fn stored_config() -> SaleConfig {
    sale(1, 1000, 100_000).config
}

fn rec(purchased: u128, at: u64, claimed: u128, claimed_at: u64) -> PurchaserRecord {
    PurchaserRecord {
        units_purchased: purchased,
        purchase_timestamp: at,
        units_claimed: claimed,
        last_claim_timestamp: claimed_at,
        claim_token_id: Uint256::zero(),
    }
}

#[test]
fn sale_rebuilt_from_stored_parts() {
    let entries = vec![
        LedgerEntry { account: acct(ALICE), record: rec(100, 0, 25, 50_000) },
        LedgerEntry { account: acct(BOB), record: rec(10, 0, 0, 0) },
    ];
    let mut s = TokenSaleWithTokenizedVesting::from_parts(stored_config(), 110, &entries).unwrap();
    assert_eq!(s.record(acct(ALICE)).units_claimed, 25);
    assert_eq!(s.record(acct(12)), PurchaserRecord::empty());
    assert_eq!(s.claim_tokens(acct(ALICE), 75_000), Ok(25));
}

#[test]
fn unsound_stored_parts_are_refused() {
    let dup = vec![
        LedgerEntry { account: acct(ALICE), record: rec(100, 0, 0, 0) },
        LedgerEntry { account: acct(ALICE), record: rec(10, 0, 0, 0) },
    ];
    assert!(TokenSaleWithTokenizedVesting::from_parts(stored_config(), 110, &dup).is_none());
    let over_claimed = vec![LedgerEntry { account: acct(ALICE), record: rec(100, 0, 60, 50_000) }];
    assert!(TokenSaleWithTokenizedVesting::from_parts(stored_config(), 100, &over_claimed).is_none());
    let over_sold = vec![];
    assert!(TokenSaleWithTokenizedVesting::from_parts(stored_config(), 1001, &over_sold).is_none());
}

#[test]
fn claims_never_exceed_purchases() {
    let mut s = sale(1, 300, 90_000);
    let buyers = [acct(ALICE), acct(BOB), acct(12)];
    for (k, b) in buyers.iter().enumerate() {
        s.purchase_tokens(*b, k as u64 * 10, 100).unwrap();
    }
    assert_eq!(s.purchase_tokens(acct(13), 40, 1), Err(Errors::SoldOut));
    assert!(s.total_tokens_purchased <= s.config.total_tokens_available);
    for t in [20u64, 1_000, 44_999, 45_000, 89_999, 90_009, 90_020, 200_000] {
        for b in buyers.iter() {
            let _ = s.claim_tokens(*b, t);
            let r = s.record(*b);
            assert!(r.units_claimed <= r.units_purchased);
        }
    }
    for b in buyers.iter() {
        assert_eq!(s.record(*b).units_claimed, 100);
    }
}
