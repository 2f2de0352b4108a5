use vstd::prelude::*;
use crate::error::Errors;
use crate::model::{lemma_claim_keeps_record, full_unlock_time, SaleView};
use crate::types::{Account, Uint256};
use crate::vesting::{lemma_unlocked_monotone, lemma_unlocked_split_time};

verus! {

/// In every sound state, no purchaser has claimed more than they bought and
/// no more units are sold than are on offer. Every operation keeps the state
/// sound.
pub proof fn lemma_claims_within_purchases(s: SaleView, a: Account)
    requires
        s.wf(),
    ensures
        s.record(a).units_claimed <= s.record(a).units_purchased,
        s.total_tokens_purchased <= s.config.total_tokens_available,
{
}

/// An account that has bought units cannot buy again, whatever the amount;
/// in particular a second purchase after a successful one fails.
pub proof fn lemma_one_purchase_per_account(s: SaleView, a: Account, now: u64, first: u128, second: u128)
    requires
        s.wf(),
    ensures
        s.record(a).units_purchased > 0 ==> s.purchase_error(a, second) == Some(Errors::OnlyOnePurchase),
        s.purchase_error(a, first) is None && first > 0 ==> s.after_purchase(a, now, first).purchase_error(a, second)
            == Some(Errors::OnlyOnePurchase),
{
    if s.record(a).units_purchased > 0 {
        assert(s.config.initialized);
    }
}

/// The longer one waits, the more a claim releases; and claiming never lowers
/// what an account has claimed in total.
pub proof fn lemma_release_grows_with_time(s: SaleView, a: Account, t1: u64, t2: u64)
    requires
        s.wf(),
        s.vested_claim_error(a) is None,
        s.clock_ok(a, t1),
        t1 <= t2,
    ensures
        s.vested_release(a, t1) <= s.vested_release(a, t2),
        s.after_vested_claim(a, t1).record(a).units_claimed >= s.record(a).units_claimed,
{
    let r = s.record(a);
    let v = s.vesting();
    lemma_claim_keeps_record(r, v, t1);
    lemma_claim_keeps_record(r, v, t2);
    if t2 < full_unlock_time(r, v) {
        lemma_unlocked_monotone(
            (t1 - crate::model::claim_baseline(r)) as nat,
            (t2 - crate::model::claim_baseline(r)) as nat,
            r.units_purchased as nat,
            v,
        );
    }
}

/// Once the schedule has ended, the next claim releases everything that is
/// left, and every claim after it fails with `AllTokensClaimed`.
pub proof fn lemma_claim_after_full_unlock(s: SaleView, a: Account, now: u64)
    requires
        s.wf(),
        s.vested_claim_error(a) is None,
        s.clock_ok(a, now),
        now >= full_unlock_time(s.record(a), s.vesting()),
    ensures
        s.vested_release(a, now) == s.record(a).units_purchased - s.record(a).units_claimed,
        s.after_vested_claim(a, now).record(a).units_claimed == s.record(a).units_purchased,
        s.after_vested_claim(a, now).wf(),
        s.after_vested_claim(a, now).vested_claim_error(a) == Some(Errors::AllTokensClaimed),
        s.record(a).claim_token_id.value() == 0 ==> s.after_vested_claim(a, now).direct_claim_error(a)
            == Some(Errors::AllTokensClaimed),
{
    let t = s.after_vested_claim(a, now);
    lemma_claim_keeps_record(s.record(a), s.vesting(), now);
    assert forall|b: Account| crate::model::record_ok(#[trigger] t.record(b), t.vesting()) by {
        if b != a {
            assert(t.record(b) == s.record(b));
        }
    }
}

/// Two claims at `t1` and then `t2`, both before the end of the schedule,
/// leave the account with the same total claimed as one claim at `t2`, or
/// one unit less through truncation, never more.
pub proof fn lemma_split_claim(s: SaleView, a: Account, t1: u64, t2: u64)
    requires
        s.wf(),
        s.vested_claim_error(a) is None,
        s.clock_ok(a, t1),
        t1 < t2,
        t2 < full_unlock_time(s.record(a), s.vesting()),
    ensures
        s.after_vested_claim(a, t1).vested_claim_error(a) is None,
        s.after_vested_claim(a, t1).clock_ok(a, t2),
        s.after_vested_claim(a, t1).after_vested_claim(a, t2).record(a).units_claimed
            <= s.after_vested_claim(a, t2).record(a).units_claimed,
        s.after_vested_claim(a, t2).record(a).units_claimed
            <= s.after_vested_claim(a, t1).after_vested_claim(a, t2).record(a).units_claimed + 1,
{
    let r = s.record(a);
    let v = s.vesting();
    let s1 = s.after_vested_claim(a, t1);
    let r1 = s1.record(a);
    lemma_claim_keeps_record(r, v, t1);
    lemma_claim_keeps_record(r, v, t2);
    assert(s1.vesting() == v);
    assert(full_unlock_time(r1, v) == full_unlock_time(r, v));
    lemma_claim_keeps_record(r1, v, t2);
    let b = crate::model::claim_baseline(r);
    if r1.units_claimed > 0 {
        lemma_unlocked_split_time((t1 - b) as nat, (t2 - t1) as nat, r.units_purchased as nat, v);
        assert((t1 - b) + (t2 - t1) == t2 - b);
    }
}

/// Delegation happens once: after a successful `enable_tokenized_vesting`,
/// any further one on the same account fails with `AlreadyTokenized`.
pub proof fn lemma_delegation_once(s: SaleView, a: Account, first: Uint256, second: Uint256)
    requires
        s.wf(),
        s.enable_error(a, first) is None,
    ensures
        s.after_enable(a, first).enable_error(a, second) == Some(Errors::AlreadyTokenized),
{
}

/// After delegation, the purchaser can no longer claim directly, and a claim
/// through the claim token goes past the ownership check only for its
/// current holder.
pub proof fn lemma_delegated_claims(
    s: SaleView,
    a: Account,
    token_id: Uint256,
    sender: Account,
    holder: Option<Account>,
)
    requires
        s.wf(),
        s.enable_error(a, token_id) is None,
    ensures
        s.after_enable(a, token_id).direct_claim_error(a) == Some(Errors::AlreadyTokenized),
        holder != Some(sender) ==> s.after_enable(a, token_id).nft_claim_error(sender, a, holder)
            == Some(Errors::OnlyOwner),
        holder == Some(sender) ==> s.after_enable(a, token_id).nft_claim_error(sender, a, holder)
            == s.after_enable(a, token_id).vested_claim_error(a),
        s.after_enable(a, token_id).nft_claim_error(sender, a, holder) is None ==> holder == Some(sender),
{
}

} // verus!
