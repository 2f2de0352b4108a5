use vstd::prelude::*;
use crate::error::Errors;
use crate::ledger::{Ledger, LedgerEntry};
use crate::model::{
    is_record_ok,
    lemma_claim_keeps_record,
    record_ok,
    SaleConfig,
    SaleView,
    MAX_VESTING_LENGTH,
    MIN_VESTING_LENGTH,
};
use crate::types::{Account, PurchaserRecord, Uint256};
use crate::vesting::unlocked_amount;

verus! {

/// A fixed-price token sale: its parameters, the units sold so far and a
/// record per purchaser.
pub struct TokenSaleWithTokenizedVesting {
    pub config: SaleConfig,
    pub total_tokens_purchased: u128,
    pub ledger: Ledger,
}

impl View for TokenSaleWithTokenizedVesting {
    type V = SaleView;

    open spec fn view(&self) -> SaleView {
        SaleView {
            config: self.config,
            total_tokens_purchased: self.total_tokens_purchased,
            records: self.ledger@,
        }
    }
}

/// Replacing one record by a sound one keeps an initialized sale sound.
proof fn lemma_with_record_wf(s: SaleView, a: Account, r: PurchaserRecord)
    requires
        s.wf(),
        s.config.initialized,
        record_ok(r, s.vesting()),
    ensures
        s.with_record(a, r).wf(),
{
    let t = s.with_record(a, r);
    assert forall|b: Account| record_ok(#[trigger] t.record(b), t.vesting()) by {
        if b != a {
            assert(t.record(b) == s.record(b));
        }
    }
}

/// Parts that make a sound sale: the parameters and the total are sound on
/// their own, each record is sound, nothing is bought before the sale is
/// initialized, and no account has two records.
pub open spec fn parts_ok(config: SaleConfig, total_tokens_purchased: u128, entries: Seq<LedgerEntry>) -> bool {
    &&& (SaleView { config, total_tokens_purchased, records: Map::empty() }).wf()
    &&& forall|i: int| #![trigger entries[i]] 0 <= i < entries.len() ==> {
        &&& record_ok(entries[i].record, config.total_vesting_length_in_seconds as nat)
        &&& !config.initialized ==> entries[i].record.units_purchased == 0
    }
    &&& forall|i: int, j: int| 0 <= i < j < entries.len() ==> entries[i].account != entries[j].account
}

proof fn lemma_parts_entry(config: SaleConfig, total_tokens_purchased: u128, entries: Seq<LedgerEntry>, j: int)
    requires
        parts_ok(config, total_tokens_purchased, entries),
        0 <= j < entries.len(),
    ensures
        record_ok(entries[j].record, config.total_vesting_length_in_seconds as nat),
        !config.initialized ==> entries[j].record.units_purchased == 0,
{
}

impl TokenSaleWithTokenizedVesting {
    pub open spec fn wf(&self) -> bool {
        self.ledger.wf() && self@.wf()
    }

    /// A sale that is not initialized yet, with no purchases.
    pub fn new() -> (r: TokenSaleWithTokenizedVesting)
        ensures
            r.wf(),
            !r.config.initialized,
            r@.records == Map::<Account, PurchaserRecord>::empty(),
    {
        TokenSaleWithTokenizedVesting {
            config: SaleConfig {
                initialized: false,
                owner: Account::zero(),
                token: Account::zero(),
                currency: Account::zero(),
                price_per_token: 0,
                total_tokens_available: 0,
                total_vesting_length_in_seconds: 0,
                nft_claim: Account::zero(),
            },
            total_tokens_purchased: 0,
            ledger: Ledger::new(),
        }
    }

    /// The sale made of stored parts, where they make a sound one: its
    /// parameters, the units sold so far and the records of some accounts
    /// (the others have done nothing).
    pub fn from_parts(config: SaleConfig, total_tokens_purchased: u128, entries: &Vec<LedgerEntry>) -> (r: Option<TokenSaleWithTokenizedVesting>)
        ensures
            r is Some <==> parts_ok(config, total_tokens_purchased, entries@),
            r matches Some(s) ==> {
                &&& s.wf()
                &&& s.config == config
                &&& s.total_tokens_purchased == total_tokens_purchased
                &&& forall|i: int| 0 <= i < entries@.len()
                    ==> s@.record(#[trigger] entries@[i].account) == entries@[i].record
                &&& forall|a: Account| s@.records.contains_key(a)
                    ==> exists|i: int| 0 <= i < entries@.len() && entries@[i].account == a
            },
    {
        let c = config;
        let vesting = c.total_vesting_length_in_seconds;
        let vesting_ok = vesting == 0 || (MIN_VESTING_LENGTH <= vesting && vesting <= MAX_VESTING_LENGTH);
        let settings_ok = c.price_per_token > 0 && c.total_tokens_available > 0 && !c.token.is_zero()
            && !c.currency.is_zero() && !c.nft_claim.is_zero() && vesting_ok;
        let fresh_ok = vesting == 0 && total_tokens_purchased == 0;
        let config_ok = total_tokens_purchased <= c.total_tokens_available
            && ((c.initialized && settings_ok) || (!c.initialized && fresh_ok));
        proof {
            let base = SaleView { config, total_tokens_purchased, records: Map::empty() };
            assert forall|a: Account| #[trigger] base.record(a) == PurchaserRecord::empty_spec() by {}
            assert(0 * crate::types::two_pow_128() == 0) by (nonlinear_arith);
            assert(config_ok <==> base.wf());
        }
        if !config_ok {
            return None;
        }
        let mut ledger = Ledger::new();
        let mut i: usize = 0;
        while i < entries.len()
            invariant
                c == config,
                vesting == config.total_vesting_length_in_seconds,
                i <= entries@.len(),
                ledger.wf(),
                forall|k: int| 0 <= k < i ==> {
                    &&& record_ok(#[trigger] entries@[k].record, vesting as nat)
                    &&& !c.initialized ==> entries@[k].record.units_purchased == 0
                    &&& ledger@.contains_key(entries@[k].account)
                    &&& ledger@[entries@[k].account] == entries@[k].record
                },
                forall|k: int, l: int| 0 <= k < l < i ==> entries@[k].account != entries@[l].account,
                forall|a: Account| ledger@.contains_key(a)
                    ==> exists|k: int| 0 <= k < i && entries@[k].account == a,
            decreases entries@.len() - i,
        {
            let e = entries[i];
            if !is_record_ok(&e.record, vesting) {
                proof {
                    assert(!parts_ok(config, total_tokens_purchased, entries@)) by {
                        if parts_ok(config, total_tokens_purchased, entries@) {
                            lemma_parts_entry(config, total_tokens_purchased, entries@, i as int);
                        }
                    }
                }
                return None;
            }
            if !c.initialized && e.record.units_purchased != 0 {
                proof {
                    assert(!parts_ok(config, total_tokens_purchased, entries@)) by {
                        if parts_ok(config, total_tokens_purchased, entries@) {
                            lemma_parts_entry(config, total_tokens_purchased, entries@, i as int);
                        }
                    }
                }
                return None;
            }
            if ledger.contains(e.account) {
                proof {
                    let k = choose|k: int| 0 <= k < i && entries@[k].account == e.account;
                    assert(!parts_ok(config, total_tokens_purchased, entries@)) by {
                        assert(entries@[k].account == entries@[i as int].account);
                    }
                }
                return None;
            }
            let ghost old_ledger = ledger@;
            ledger.set(e.account, e.record);
            proof {
                assert forall|a: Account| ledger@.contains_key(a)
                    implies exists|k: int| 0 <= k < i + 1 && entries@[k].account == a by {
                    if a == e.account {
                        assert(entries@[i as int].account == a);
                    }
                }
                assert forall|k: int, l: int| 0 <= k < l < i + 1 implies entries@[k].account != entries@[l].account by {
                    if l == i {
                        assert(record_ok(entries@[k].record, vesting as nat));
                        assert(old_ledger.contains_key(entries@[k].account));
                    }
                }
            }
            i = i + 1;
        }
        let s = TokenSaleWithTokenizedVesting { config, total_tokens_purchased, ledger };
        proof {
            assert forall|a: Account| record_ok(#[trigger] s@.record(a), s@.vesting()) by {
                if s@.records.contains_key(a) {
                    let k = choose|k: int| 0 <= k < entries@.len() && entries@[k].account == a;
                    assert(record_ok(entries@[k].record, vesting as nat));
                    assert(s@.record(a) == entries@[k].record);
                }
            }
            assert forall|a: Account| !config.initialized implies (#[trigger] s@.record(a)).units_purchased == 0 by {
                if s@.records.contains_key(a) {
                    let k = choose|k: int| 0 <= k < entries@.len() && entries@[k].account == a;
                    assert(record_ok(entries@[k].record, vesting as nat));
                    assert(entries@[k].record.units_purchased == 0);
                }
            }
            assert(parts_ok(config, total_tokens_purchased, entries@)) by {
                assert forall|i: int| #![trigger entries@[i]] 0 <= i < entries@.len() implies {
                    &&& record_ok(entries@[i].record, config.total_vesting_length_in_seconds as nat)
                    &&& !config.initialized ==> entries@[i].record.units_purchased == 0
                } by {
                    assert(record_ok(entries@[i].record, vesting as nat));
                }
            }
        }
        Some(s)
    }

    /// A copy of the sale, to return to if an operation has to be undone.
    pub fn duplicate(&self) -> (r: TokenSaleWithTokenizedVesting)
        requires
            self.wf(),
        ensures
            r.wf(),
            r@ == self@,
    {
        TokenSaleWithTokenizedVesting {
            config: self.config,
            total_tokens_purchased: self.total_tokens_purchased,
            ledger: self.ledger.duplicate(),
        }
    }

    /// Ends an operation whose tokens had to move: keeps its effect if the
    /// transfer succeeded, and otherwise returns to `before`, the sale as it
    /// was before the operation, with `TransferFailed`.
    pub fn conclude_transfer(&mut self, before: TokenSaleWithTokenizedVesting, transfer_succeeded: bool) -> (r: Result<(), Errors>)
        requires
            old(self).wf(),
            before.wf(),
        ensures
            final(self).wf(),
            transfer_succeeded ==> r == Ok::<(), Errors>(()) && *final(self) == *old(self),
            !transfer_succeeded ==> r == Err::<(), Errors>(Errors::TransferFailed) && *final(self) == before,
    {
        if transfer_succeeded {
            Ok(())
        } else {
            *self = before;
            Err(Errors::TransferFailed)
        }
    }

    /// The record of `a`.
    pub fn record(&self, a: Account) -> (r: PurchaserRecord)
        requires
            self.wf(),
        ensures
            r == self@.record(a),
    {
        self.ledger.get(a)
    }

    /// The account that administers the sale and receives payments.
    pub fn owner(&self) -> (r: Account)
        ensures
            r == self.config.owner,
    {
        self.config.owner
    }

    /// Whether `now` is not before anything recorded for `a`.
    pub fn clock_ok(&self, a: Account, now: u64) -> (r: bool)
        requires
            self.wf(),
        ensures
            r == self@.clock_ok(a, now),
    {
        let rec = self.ledger.get(a);
        rec.purchase_timestamp <= now && rec.last_claim_timestamp <= now
    }

    pub fn validate_is_initialized(&self) -> (r: Result<(), Errors>)
        ensures
            r == if self.config.initialized {
                Ok::<(), Errors>(())
            } else {
                Err(Errors::NotInitialized)
            },
    {
        if !self.config.initialized {
            return Err(Errors::NotInitialized);
        }
        Ok(())
    }

    pub fn validate_initialization(&self) -> (r: Result<(), Errors>)
        ensures
            r == if self.config.initialized {
                Err(Errors::AlreadyInitialized)
            } else {
                Ok::<(), Errors>(())
            },
    {
        if self.config.initialized {
            return Err(Errors::AlreadyInitialized);
        }
        Ok(())
    }

    pub fn validate_sender_is_owner(&self, sender: Account) -> (r: Result<(), Errors>)
        ensures
            r == if sender == self.config.owner {
                Ok::<(), Errors>(())
            } else {
                Err(Errors::OnlyOwner)
            },
    {
        if sender != self.config.owner {
            return Err(Errors::OnlyOwner);
        }
        Ok(())
    }

    pub fn validate_price_per_token(&self, price_per_token: u128) -> (r: Result<(), Errors>)
        ensures
            r == if price_per_token == 0 {
                Err(Errors::ZeroValueArgumentInjected)
            } else {
                Ok::<(), Errors>(())
            },
    {
        if price_per_token == 0 {
            return Err(Errors::ZeroValueArgumentInjected);
        }
        Ok(())
    }

    pub fn validate_address(&self, value: Account) -> (r: Result<(), Errors>)
        ensures
            r == if value.is_zero_spec() {
                Err(Errors::ZeroValueArgumentInjected)
            } else {
                Ok::<(), Errors>(())
            },
    {
        if value.is_zero() {
            return Err(Errors::ZeroValueArgumentInjected);
        }
        Ok(())
    }

    pub fn validate_total_tokens_for_sale(&self, total_tokens: u128) -> (r: Result<(), Errors>)
        ensures
            r == if total_tokens == 0 {
                Err(Errors::ZeroValueArgumentInjected)
            } else {
                Ok::<(), Errors>(())
            },
    {
        if total_tokens == 0 {
            return Err(Errors::ZeroValueArgumentInjected);
        }
        Ok(())
    }

    /// Zero turns vesting off; any other length must lie between one day and
    /// 365 days.
    pub fn validate_vesting_length(&self, vesting_length: u64) -> (r: Result<(), Errors>)
        ensures
            r == match crate::model::vesting_length_error(vesting_length) {
                Some(e) => Err(e),
                None => Ok::<(), Errors>(()),
            },
    {
        if vesting_length != 0 {
            if vesting_length < MIN_VESTING_LENGTH {
                return Err(Errors::VestingLengthTooShort);
            }
            if vesting_length > MAX_VESTING_LENGTH {
                return Err(Errors::VestingLengthTooLong);
            }
        }
        Ok(())
    }

    /// The vesting length, if vesting is on.
    pub fn validate_vesting_enabled(&self) -> (r: Result<u64, Errors>)
        ensures
            r == if self.config.total_vesting_length_in_seconds == 0 {
                Err(Errors::VestingNotEnabled)
            } else {
                Ok::<u64, Errors>(self.config.total_vesting_length_in_seconds)
            },
    {
        let total_vesting_length_in_seconds = self.config.total_vesting_length_in_seconds;
        if total_vesting_length_in_seconds == 0 {
            return Err(Errors::VestingNotEnabled);
        }
        Ok(total_vesting_length_in_seconds)
    }

    /// Whether `sender` holds the claim token `token_id`, given `holder`, the
    /// holder of that token as the NFT contract reports it (`None` where it
    /// reports none). The zero token stands for no token and nobody holds it.
    pub fn validate_sender_owns_nft(&self, sender: Account, token_id: Uint256, holder: Option<Account>) -> (r: Result<(), Errors>)
        ensures
            r == if token_id.value() != 0 && holder == Some(sender) {
                Ok::<(), Errors>(())
            } else {
                Err(Errors::OnlyOwner)
            },
    {
        if token_id.is_zero() {
            return Err(Errors::OnlyOwner);
        }
        match holder {
            Some(h) => {
                if h != sender {
                    return Err(Errors::OnlyOwner);
                }
            },
            None => {
                return Err(Errors::OnlyOwner);
            },
        }
        Ok(())
    }
    /// Releases to whoever claims what `user`'s purchase has unlocked since
    /// the last claim, and returns that amount. From the end of the schedule
    /// on, everything left is released and the claim time is pinned to that
    /// end; before it, the time since the last claim (or since the purchase,
    /// when nothing was claimed yet) is paid at the scaled rate.
    pub fn claim_tokens_from_user(&mut self, user: Account, now: u64) -> (r: Result<u128, Errors>)
        requires
            old(self).wf(),
            old(self)@.clock_ok(user, now),
        ensures
            final(self).wf(),
            match r {
                Ok(amount) => {
                    &&& old(self)@.vested_claim_error(user) is None
                    &&& amount == old(self)@.vested_release(user, now)
                    &&& final(self)@ == old(self)@.after_vested_claim(user, now)
                },
                Err(e) => old(self)@.vested_claim_error(user) == Some(e) && *final(self) == *old(self),
            },
    {
        if let Err(e) = self.validate_is_initialized() {
            return Err(e);
        }
        let vesting = match self.validate_vesting_enabled() {
            Ok(v) => v,
            Err(e) => return Err(e),
        };
        let rec = self.ledger.get(user);
        if rec.units_purchased == 0 {
            return Err(Errors::NoTokensVested);
        }
        if rec.units_claimed >= rec.units_purchased {
            return Err(Errors::AllTokensClaimed);
        }
        proof {
            lemma_claim_keeps_record(rec, vesting as nat, now);
        }
        let baseline = if rec.units_claimed == 0 {
            rec.purchase_timestamp
        } else {
            rec.last_claim_timestamp
        };
        let full_unlock = rec.purchase_timestamp as u128 + vesting as u128;
        let amount;
        let updated;
        if now as u128 >= full_unlock {
            amount = rec.units_purchased - rec.units_claimed;
            updated = PurchaserRecord {
                units_claimed: rec.units_purchased,
                last_claim_timestamp: full_unlock as u64,
                ..rec
            };
        } else {
            amount = unlocked_amount(now - baseline, rec.units_purchased, vesting);
            updated = PurchaserRecord {
                units_claimed: rec.units_claimed + amount,
                last_claim_timestamp: now,
                ..rec
            };
        }
        proof {
            lemma_with_record_wf(self@, user, updated);
        }
        self.ledger.set(user, updated);
        Ok(amount)
    }
    /// Sets the sale up, once: `sender` becomes its owner.
    pub fn init(
        &mut self,
        sender: Account,
        token: Account,
        currency: Account,
        price_per_token: u128,
        total_tokens_available: u128,
        total_vesting_length_in_seconds: u64,
        nft_claim: Account,
    ) -> (r: Result<(), Errors>)
        requires
            old(self).wf(),
        ensures
            final(self).wf(),
            match r {
                Ok(()) => {
                    &&& old(self)@.init_error(token, currency, price_per_token, total_tokens_available,
                        total_vesting_length_in_seconds, nft_claim) is None
                    &&& final(self)@ == old(self)@.after_init(sender, token, currency, price_per_token,
                        total_tokens_available, total_vesting_length_in_seconds, nft_claim)
                },
                Err(e) => {
                    &&& old(self)@.init_error(token, currency, price_per_token, total_tokens_available,
                        total_vesting_length_in_seconds, nft_claim) == Some(e)
                    &&& *final(self) == *old(self)
                },
            },
    {
        if let Err(e) = self.validate_initialization() {
            return Err(e);
        }
        if let Err(e) = self.validate_price_per_token(price_per_token) {
            return Err(e);
        }
        if let Err(e) = self.validate_address(token) {
            return Err(e);
        }
        if let Err(e) = self.validate_address(currency) {
            return Err(e);
        }
        if let Err(e) = self.validate_total_tokens_for_sale(total_tokens_available) {
            return Err(e);
        }
        if let Err(e) = self.validate_vesting_length(total_vesting_length_in_seconds) {
            return Err(e);
        }
        if let Err(e) = self.validate_address(nft_claim) {
            return Err(e);
        }
        let ghost before = self@;
        self.config = SaleConfig {
            initialized: true,
            owner: sender,
            token,
            currency,
            price_per_token,
            total_tokens_available,
            total_vesting_length_in_seconds,
            nft_claim,
        };
        proof {
            assert forall|a: Account| record_ok(#[trigger] self@.record(a), self@.vesting()) by {
                assert(self@.record(a) == before.record(a));
                assert(before.record(a).units_purchased == 0);
            }
        }
        Ok(())
    }

    /// Records that `sender` buys `amount` units at `now`, once per account
    /// and within the units on offer, and returns what they owe the owner.
    pub fn purchase_tokens(&mut self, sender: Account, now: u64, amount: u128) -> (r: Result<Uint256, Errors>)
        requires
            old(self).wf(),
        ensures
            final(self).wf(),
            match r {
                Ok(cost) => {
                    &&& old(self)@.purchase_error(sender, amount) is None
                    &&& cost.value() == old(self)@.purchase_cost(amount)
                    &&& final(self)@ == old(self)@.after_purchase(sender, now, amount)
                },
                Err(e) => old(self)@.purchase_error(sender, amount) == Some(e) && *final(self) == *old(self),
            },
    {
        if let Err(e) = self.validate_is_initialized() {
            return Err(e);
        }
        let rec = self.ledger.get(sender);
        if rec.units_purchased > 0 {
            return Err(Errors::OnlyOnePurchase);
        }
        let total_tokens_purchased = self.total_tokens_purchased;
        if amount > self.config.total_tokens_available - total_tokens_purchased {
            return Err(Errors::SoldOut);
        }
        let updated = PurchaserRecord { units_purchased: amount, purchase_timestamp: now, ..rec };
        proof {
            lemma_with_record_wf(self@, sender, updated);
        }
        self.ledger.set(sender, updated);
        let ghost with_rec = self@;
        self.total_tokens_purchased = total_tokens_purchased + amount;
        proof {
            assert forall|a: Account| record_ok(#[trigger] self@.record(a), self@.vesting()) by {
                assert(self@.record(a) == with_rec.record(a));
            }
        }
        Ok(Uint256::mul_u128(amount, self.config.price_per_token))
    }

    /// Hands the right to claim `sender`'s remaining units, for good, to
    /// whoever holds the claim token `token_id`.
    pub fn enable_tokenized_vesting(&mut self, sender: Account, token_id: Uint256) -> (r: Result<(), Errors>)
        requires
            old(self).wf(),
        ensures
            final(self).wf(),
            match r {
                Ok(()) => {
                    &&& old(self)@.enable_error(sender, token_id) is None
                    &&& final(self)@ == old(self)@.after_enable(sender, token_id)
                },
                Err(e) => old(self)@.enable_error(sender, token_id) == Some(e) && *final(self) == *old(self),
            },
    {
        if let Err(e) = self.validate_vesting_enabled() {
            return Err(e);
        }
        let rec = self.ledger.get(sender);
        if rec.units_purchased == 0 {
            return Err(Errors::NoTokensVested);
        }
        if !rec.claim_token_id.is_zero() {
            return Err(Errors::AlreadyTokenized);
        }
        if token_id.is_zero() {
            return Err(Errors::ZeroValueArgumentInjected);
        }
        if rec.units_claimed == rec.units_purchased {
            return Err(Errors::AllTokensClaimed);
        }
        let updated = PurchaserRecord { claim_token_id: token_id, ..rec };
        proof {
            lemma_with_record_wf(self@, sender, updated);
        }
        self.ledger.set(sender, updated);
        Ok(())
    }

    /// A purchaser claims their own unlocked units; once they have handed
    /// the right to claim to a claim token, they cannot.
    pub fn claim_tokens(&mut self, sender: Account, now: u64) -> (r: Result<u128, Errors>)
        requires
            old(self).wf(),
            old(self)@.clock_ok(sender, now),
        ensures
            final(self).wf(),
            match r {
                Ok(amount) => {
                    &&& old(self)@.direct_claim_error(sender) is None
                    &&& amount == old(self)@.vested_release(sender, now)
                    &&& final(self)@ == old(self)@.after_vested_claim(sender, now)
                },
                Err(e) => old(self)@.direct_claim_error(sender) == Some(e) && *final(self) == *old(self),
            },
    {
        let rec = self.ledger.get(sender);
        if !rec.claim_token_id.is_zero() {
            return Err(Errors::AlreadyTokenized);
        }
        self.claim_tokens_from_user(sender, now)
    }

    /// The holder of `user`'s claim token claims `user`'s unlocked units for
    /// themselves. `holder` is the holder of that token as the NFT contract
    /// reports it, `None` where it reports none.
    pub fn claim_tokens_by_nft(&mut self, sender: Account, user: Account, holder: Option<Account>, now: u64) -> (r: Result<u128, Errors>)
        requires
            old(self).wf(),
            old(self)@.clock_ok(user, now),
        ensures
            final(self).wf(),
            match r {
                Ok(amount) => {
                    &&& old(self)@.nft_claim_error(sender, user, holder) is None
                    &&& amount == old(self)@.vested_release(user, now)
                    &&& final(self)@ == old(self)@.after_vested_claim(user, now)
                },
                Err(e) => old(self)@.nft_claim_error(sender, user, holder) == Some(e) && *final(self) == *old(self),
            },
    {
        let rec = self.ledger.get(user);
        if let Err(e) = self.validate_sender_owns_nft(sender, rec.claim_token_id, holder) {
            return Err(e);
        }
        self.claim_tokens_from_user(user, now)
    }

    /// Without vesting, a purchaser takes all their units at once, a single
    /// time; returns that amount.
    pub fn claim_unlocked_tokens(&mut self, sender: Account, now: u64) -> (r: Result<u128, Errors>)
        requires
            old(self).wf(),
        ensures
            final(self).wf(),
            match r {
                Ok(amount) => {
                    &&& old(self)@.unlocked_claim_error(sender) is None
                    &&& amount == old(self)@.record(sender).units_purchased
                    &&& final(self)@ == old(self)@.after_unlocked_claim(sender, now)
                },
                Err(e) => old(self)@.unlocked_claim_error(sender) == Some(e) && *final(self) == *old(self),
            },
    {
        if self.config.total_vesting_length_in_seconds != 0 {
            return Err(Errors::TokensAreVested);
        }
        let rec = self.ledger.get(sender);
        if rec.units_claimed != 0 {
            return Err(Errors::AllTokensClaimed);
        }
        if rec.units_purchased == 0 {
            return Err(Errors::NoTokensPurchased);
        }
        let updated = PurchaserRecord {
            units_claimed: rec.units_purchased,
            last_claim_timestamp: now,
            ..rec
        };
        proof {
            assert(self.config.initialized);
            lemma_with_record_wf(self@, sender, updated);
        }
        self.ledger.set(sender, updated);
        Ok(rec.units_purchased)
    }

    /// The owner sets a new, non-zero price.
    pub fn update_price(&mut self, sender: Account, price_per_token: u128) -> (r: Result<(), Errors>)
        requires
            old(self).wf(),
        ensures
            final(self).wf(),
            match r {
                Ok(()) => {
                    &&& old(self)@.update_price_error(sender, price_per_token) is None
                    &&& final(self)@ == old(self)@.after_update_price(price_per_token)
                },
                Err(e) => {
                    &&& old(self)@.update_price_error(sender, price_per_token) == Some(e)
                    &&& *final(self) == *old(self)
                },
            },
    {
        if let Err(e) = self.validate_is_initialized() {
            return Err(e);
        }
        if let Err(e) = self.validate_sender_is_owner(sender) {
            return Err(e);
        }
        if let Err(e) = self.validate_price_per_token(price_per_token) {
            return Err(e);
        }
        let ghost before = self@;
        self.config.price_per_token = price_per_token;
        proof {
            assert forall|a: Account| record_ok(#[trigger] self@.record(a), self@.vesting()) by {
                assert(self@.record(a) == before.record(a));
            }
        }
        Ok(())
    }
}

} // verus!
