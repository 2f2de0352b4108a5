use vstd::prelude::*;
use crate::error::Errors;
use crate::ledger::record_in;
use crate::types::{Account, PurchaserRecord, Uint256};
use crate::vesting::{
    lemma_unlocked_at_most_purchased,
    lemma_unlocked_split_time,
    unlocked_amount,
    unlocked_over,
};

verus! {

/// Shortest vesting schedule accepted: one day, in seconds.
pub const MIN_VESTING_LENGTH: u64 = 86_400;

/// Longest vesting schedule accepted: 365 days, in seconds.
pub const MAX_VESTING_LENGTH: u64 = 31_536_000;

/// The sale's parameters, set once by `init`.
#[derive(Clone, Copy, PartialEq, Eq, Structural, Debug)]
pub struct SaleConfig {
    pub initialized: bool,
    /// The account that initialized the sale and receives the payments.
    pub owner: Account,
    /// The token being sold.
    pub token: Account,
    /// The token that purchases are paid in.
    pub currency: Account,
    pub price_per_token: u128,
    pub total_tokens_available: u128,
    /// Zero when purchases unlock at once.
    pub total_vesting_length_in_seconds: u64,
    /// The NFT contract whose tokens can hold a purchaser's right to claim.
    pub nft_claim: Account,
}

/// The whole state of the sale, with the ledger seen as a map.
pub struct SaleView {
    pub config: SaleConfig,
    pub total_tokens_purchased: u128,
    pub records: Map<Account, PurchaserRecord>,
}

/// The error for a vesting length, if any: zero turns vesting off, anything
/// else must lie between one day and 365 days.
pub open spec fn vesting_length_error(len: u64) -> Option<Errors> {
    if len != 0 && len < MIN_VESTING_LENGTH {
        Some(Errors::VestingLengthTooShort)
    } else if len != 0 && len > MAX_VESTING_LENGTH {
        Some(Errors::VestingLengthTooLong)
    } else {
        None
    }
}

/// A record that a sale with a schedule of `vesting` seconds can hold.
pub open spec fn record_ok(r: PurchaserRecord, vesting: nat) -> bool {
    &&& r.units_claimed <= r.units_purchased
    &&& r.units_purchased == 0 ==> r.units_claimed == 0 && r.claim_token_id.value() == 0
    &&& r.claim_token_id.value() != 0 ==> vesting > 0
    &&& vesting > 0 && 0 < r.units_claimed < r.units_purchased ==> {
        &&& r.purchase_timestamp <= r.last_claim_timestamp
        &&& r.last_claim_timestamp < r.purchase_timestamp + vesting
        &&& r.units_claimed <= unlocked_over(
            (r.last_claim_timestamp - r.purchase_timestamp) as nat,
            r.units_purchased as nat,
            vesting,
        )
    }
}

/// Whether `r` is a record that a sale with a schedule of `vesting` seconds
/// can hold.
pub fn is_record_ok(r: &PurchaserRecord, vesting: u64) -> (ok: bool)
    ensures
        ok == record_ok(*r, vesting as nat),
{
    if r.units_claimed > r.units_purchased {
        return false;
    }
    if r.units_purchased == 0 && (r.units_claimed != 0 || !r.claim_token_id.is_zero()) {
        return false;
    }
    if !r.claim_token_id.is_zero() && vesting == 0 {
        return false;
    }
    if vesting > 0 && 0 < r.units_claimed && r.units_claimed < r.units_purchased {
        if r.purchase_timestamp > r.last_claim_timestamp {
            return false;
        }
        let since = r.last_claim_timestamp - r.purchase_timestamp;
        if since >= vesting {
            return false;
        }
        if r.units_claimed > unlocked_amount(since, r.units_purchased, vesting) {
            return false;
        }
    }
    true
}


/// The timestamp from which unlocked time is counted at the next claim.
pub open spec fn claim_baseline(r: PurchaserRecord) -> u64 {
    if r.units_claimed == 0 {
        r.purchase_timestamp
    } else {
        r.last_claim_timestamp
    }
}

/// The moment at which all of a purchase has unlocked.
pub open spec fn full_unlock_time(r: PurchaserRecord, vesting: nat) -> int {
    r.purchase_timestamp + vesting
}

/// What a claim at `now` releases of the record `r`.
pub open spec fn release_of(r: PurchaserRecord, vesting: nat, now: u64) -> nat {
    if now >= full_unlock_time(r, vesting) {
        (r.units_purchased - r.units_claimed) as nat
    } else {
        unlocked_over((now - claim_baseline(r)) as nat, r.units_purchased as nat, vesting)
    }
}

/// The record `r` after a claim at `now`.
pub open spec fn record_after_claim(r: PurchaserRecord, vesting: nat, now: u64) -> PurchaserRecord {
    if now >= full_unlock_time(r, vesting) {
        PurchaserRecord {
            units_claimed: r.units_purchased,
            last_claim_timestamp: full_unlock_time(r, vesting) as u64,
            ..r
        }
    } else {
        PurchaserRecord {
            units_claimed: (r.units_claimed + release_of(r, vesting, now)) as u128,
            last_claim_timestamp: now,
            ..r
        }
    }
}

/// A claim on a record that can claim keeps the record sound, and releases no
/// more than what is left; before the end of the schedule, everything claimed
/// so far stays within what has unlocked since the purchase.
pub proof fn lemma_claim_keeps_record(r: PurchaserRecord, vesting: nat, now: u64)
    requires
        record_ok(r, vesting),
        vesting > 0,
        r.units_claimed < r.units_purchased,
        r.purchase_timestamp <= now,
        r.last_claim_timestamp <= now,
    ensures
        r.units_claimed + release_of(r, vesting, now) <= r.units_purchased,
        claim_baseline(r) <= now,
        now < full_unlock_time(r, vesting) ==> {
            &&& now - claim_baseline(r) < vesting
            &&& r.units_claimed + release_of(r, vesting, now) <= unlocked_over(
                (now - r.purchase_timestamp) as nat,
                r.units_purchased as nat,
                vesting,
            )
            &&& r.units_claimed + release_of(r, vesting, now) < r.units_purchased
        },
        record_ok(record_after_claim(r, vesting, now), vesting),
{
    let p = r.units_purchased as nat;
    let pt = r.purchase_timestamp as nat;
    if now < full_unlock_time(r, vesting) {
        let since_purchase = (now - pt) as nat;
        lemma_unlocked_at_most_purchased(since_purchase, p, vesting);
        if r.units_claimed > 0 {
            let before = (r.last_claim_timestamp - pt) as nat;
            let after = (now - r.last_claim_timestamp) as nat;
            lemma_unlocked_split_time(before, after, p, vesting);
            assert(before + after == since_purchase);
        }
    }
}


impl SaleView {
    pub open spec fn record(self, a: Account) -> PurchaserRecord {
        record_in(self.records, a)
    }

    pub open spec fn vesting(self) -> nat {
        self.config.total_vesting_length_in_seconds as nat
    }

    pub open spec fn with_record(self, a: Account, r: PurchaserRecord) -> SaleView {
        SaleView { records: self.records.insert(a, r), ..self }
    }

    /// The configuration that `init` accepts, once the sale is initialized.
    pub open spec fn config_ok(self) -> bool {
        let c = self.config;
        c.initialized ==> {
            &&& c.price_per_token > 0
            &&& c.total_tokens_available > 0
            &&& !c.token.is_zero_spec()
            &&& !c.currency.is_zero_spec()
            &&& !c.nft_claim.is_zero_spec()
            &&& vesting_length_error(c.total_vesting_length_in_seconds) is None
        }
    }

    /// What holds of the sale after every operation.
    pub open spec fn wf(self) -> bool {
        &&& self.config_ok()
        &&& self.total_tokens_purchased <= self.config.total_tokens_available
        &&& !self.config.initialized ==> {
            &&& self.config.total_vesting_length_in_seconds == 0
            &&& self.total_tokens_purchased == 0
            &&& forall|a: Account| (#[trigger] self.record(a)).units_purchased == 0
        }
        &&& forall|a: Account| record_ok(#[trigger] self.record(a), self.vesting())
    }

    /// `now` is not before anything recorded for `a`: the clock does not go back.
    pub open spec fn clock_ok(self, a: Account, now: u64) -> bool {
        self.record(a).purchase_timestamp <= now && self.record(a).last_claim_timestamp <= now
    }

    pub open spec fn init_error(
        self,
        token: Account,
        currency: Account,
        price_per_token: u128,
        total_tokens_available: u128,
        total_vesting_length_in_seconds: u64,
        nft_claim: Account,
    ) -> Option<Errors> {
        if self.config.initialized {
            Some(Errors::AlreadyInitialized)
        } else if price_per_token == 0 || token.is_zero_spec() || currency.is_zero_spec()
            || total_tokens_available == 0 {
            Some(Errors::ZeroValueArgumentInjected)
        } else if vesting_length_error(total_vesting_length_in_seconds) is Some {
            vesting_length_error(total_vesting_length_in_seconds)
        } else if nft_claim.is_zero_spec() {
            Some(Errors::ZeroValueArgumentInjected)
        } else {
            None
        }
    }

    pub open spec fn after_init(
        self,
        sender: Account,
        token: Account,
        currency: Account,
        price_per_token: u128,
        total_tokens_available: u128,
        total_vesting_length_in_seconds: u64,
        nft_claim: Account,
    ) -> SaleView {
        SaleView {
            config: SaleConfig {
                initialized: true,
                owner: sender,
                token,
                currency,
                price_per_token,
                total_tokens_available,
                total_vesting_length_in_seconds,
                nft_claim,
            },
            ..self
        }
    }

    pub open spec fn purchase_error(self, sender: Account, amount: u128) -> Option<Errors> {
        if !self.config.initialized {
            Some(Errors::NotInitialized)
        } else if self.record(sender).units_purchased > 0 {
            Some(Errors::OnlyOnePurchase)
        } else if self.total_tokens_purchased + amount > self.config.total_tokens_available {
            Some(Errors::SoldOut)
        } else {
            None
        }
    }

    pub open spec fn after_purchase(self, sender: Account, now: u64, amount: u128) -> SaleView {
        SaleView {
            total_tokens_purchased: (self.total_tokens_purchased + amount) as u128,
            ..self.with_record(
                sender,
                PurchaserRecord {
                    units_purchased: amount,
                    purchase_timestamp: now,
                    ..self.record(sender)
                },
            )
        }
    }

    /// What a purchase of `amount` costs.
    pub open spec fn purchase_cost(self, amount: u128) -> nat {
        (amount * self.config.price_per_token) as nat
    }

    pub open spec fn enable_error(self, sender: Account, token_id: Uint256) -> Option<Errors> {
        let r = self.record(sender);
        if self.config.total_vesting_length_in_seconds == 0 {
            Some(Errors::VestingNotEnabled)
        } else if r.units_purchased == 0 {
            Some(Errors::NoTokensVested)
        } else if r.claim_token_id.value() != 0 {
            Some(Errors::AlreadyTokenized)
        } else if token_id.value() == 0 {
            Some(Errors::ZeroValueArgumentInjected)
        } else if r.units_claimed == r.units_purchased {
            Some(Errors::AllTokensClaimed)
        } else {
            None
        }
    }

    pub open spec fn after_enable(self, sender: Account, token_id: Uint256) -> SaleView {
        self.with_record(sender, PurchaserRecord { claim_token_id: token_id, ..self.record(sender) })
    }

    /// The error of a claim on `user`'s vested tokens, whoever makes it.
    pub open spec fn vested_claim_error(self, user: Account) -> Option<Errors> {
        let r = self.record(user);
        if !self.config.initialized {
            Some(Errors::NotInitialized)
        } else if self.config.total_vesting_length_in_seconds == 0 {
            Some(Errors::VestingNotEnabled)
        } else if r.units_purchased == 0 {
            Some(Errors::NoTokensVested)
        } else if r.units_claimed >= r.units_purchased {
            Some(Errors::AllTokensClaimed)
        } else {
            None
        }
    }

    /// What a claim on `user`'s vested tokens at `now` releases.
    pub open spec fn vested_release(self, user: Account, now: u64) -> nat {
        release_of(self.record(user), self.vesting(), now)
    }

    pub open spec fn after_vested_claim(self, user: Account, now: u64) -> SaleView {
        self.with_record(user, record_after_claim(self.record(user), self.vesting(), now))
    }

    /// The error of a claim by a purchaser on their own tokens.
    pub open spec fn direct_claim_error(self, sender: Account) -> Option<Errors> {
        if self.record(sender).claim_token_id.value() != 0 {
            Some(Errors::AlreadyTokenized)
        } else {
            self.vested_claim_error(sender)
        }
    }

    /// The error of a claim by `sender` on `user`'s tokens, where `holder` is
    /// the holder of `user`'s claim token as the NFT contract reports it.
    pub open spec fn nft_claim_error(self, sender: Account, user: Account, holder: Option<Account>) -> Option<Errors> {
        if self.record(user).claim_token_id.value() == 0 || holder != Some(sender) {
            Some(Errors::OnlyOwner)
        } else {
            self.vested_claim_error(user)
        }
    }

    pub open spec fn unlocked_claim_error(self, sender: Account) -> Option<Errors> {
        let r = self.record(sender);
        if self.config.total_vesting_length_in_seconds != 0 {
            Some(Errors::TokensAreVested)
        } else if r.units_claimed != 0 {
            Some(Errors::AllTokensClaimed)
        } else if r.units_purchased == 0 {
            Some(Errors::NoTokensPurchased)
        } else {
            None
        }
    }

    pub open spec fn after_unlocked_claim(self, sender: Account, now: u64) -> SaleView {
        let r = self.record(sender);
        self.with_record(
            sender,
            PurchaserRecord { units_claimed: r.units_purchased, last_claim_timestamp: now, ..r },
        )
    }

    pub open spec fn update_price_error(self, sender: Account, price_per_token: u128) -> Option<Errors> {
        if !self.config.initialized {
            Some(Errors::NotInitialized)
        } else if sender != self.config.owner {
            Some(Errors::OnlyOwner)
        } else if price_per_token == 0 {
            Some(Errors::ZeroValueArgumentInjected)
        } else {
            None
        }
    }

    pub open spec fn after_update_price(self, price_per_token: u128) -> SaleView {
        SaleView { config: SaleConfig { price_per_token, ..self.config }, ..self }
    }
}

} // verus!
