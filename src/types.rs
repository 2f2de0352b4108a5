use vstd::prelude::*;

verus! {

/// A 160-bit account address: its top 32 bits and its low 128 bits.
#[derive(Clone, Copy, PartialEq, Eq, Structural, Debug)]
pub struct Account {
    pub high: u32,
    pub low: u128,
}

impl Account {
    /// The zero address, which stands for "no account".
    pub fn zero() -> (r: Account)
        ensures
            r.is_zero_spec(),
    {
        Account { high: 0, low: 0 }
    }

    pub open spec fn is_zero_spec(self) -> bool {
        self.high == 0 && self.low == 0
    }

    pub fn is_zero(&self) -> (r: bool)
        ensures
            r == self.is_zero_spec(),
    {
        self.high == 0 && self.low == 0
    }
}

/// An unsigned 256-bit integer held as two 128-bit halves.
#[derive(Clone, Copy, PartialEq, Eq, Structural, Debug)]
pub struct Uint256 {
    pub high: u128,
    pub low: u128,
}

/// 2 to the power 128, the weight of a `Uint256`'s high half.
pub open spec fn two_pow_128() -> int {
    (0x1_0000_0000_0000_0000 * 0x1_0000_0000_0000_0000) as int
}

impl Uint256 {
    /// The integer that the two halves stand for.
    pub open spec fn value(self) -> nat {
        (self.high * two_pow_128() + self.low) as nat
    }

    pub fn zero() -> (r: Uint256)
        ensures
            r.value() == 0,
            r.high == 0,
            r.low == 0,
    {
        Uint256 { high: 0, low: 0 }
    }

    pub fn is_zero(&self) -> (r: bool)
        ensures
            r == (self.value() == 0),
    {
        proof {
            assert(self.value() == 0 <==> (self.high == 0 && self.low == 0)) by (nonlinear_arith)
                requires
                    self.value() == self.high * two_pow_128() + self.low,
                    two_pow_128() > self.low,
                    self.high >= 0,
                    self.low >= 0;
        }
        self.high == 0 && self.low == 0
    }

    /// The full product of two 128-bit integers.
    pub fn mul_u128(a: u128, b: u128) -> (r: Uint256)
        ensures
            r.value() == a * b,
    {
        let base: u128 = 0x1_0000_0000_0000_0000;
        let a1 = a / base;
        let a0 = a % base;
        let b1 = b / base;
        let b0 = b % base;
        proof {
            assert(a1 < base && b1 < base) by (nonlinear_arith)
                requires a1 == a / base, b1 == b / base, base == 0x1_0000_0000_0000_0000u128,
                    a <= 0xffff_ffff_ffff_ffff_ffff_ffff_ffff_ffff, b <= 0xffff_ffff_ffff_ffff_ffff_ffff_ffff_ffff;
            assert(a0 < base && b0 < base) by (nonlinear_arith)
                requires a0 == a % base, b0 == b % base, base > 0;
            assert(a1 * b1 < base * base) by (nonlinear_arith) requires a1 < base, b1 < base;
            assert(a0 * b0 < base * base) by (nonlinear_arith) requires a0 < base, b0 < base;
            assert(a0 * b1 < base * base) by (nonlinear_arith) requires a0 < base, b1 < base;
            assert(a1 * b0 < base * base) by (nonlinear_arith) requires a1 < base, b0 < base;
        }
        let ll = a0 * b0;
        let lh = a0 * b1;
        let hl = a1 * b0;
        let hh = a1 * b1;
        let mid = ll / base + lh % base + hl % base;
        let low = (mid % base) * base + ll % base;
        proof {
            assert(hh <= (base - 1) * (base - 1)) by (nonlinear_arith)
                requires hh == a1 * b1, a1 < base, b1 < base, a1 >= 0, b1 >= 0;
            assert(mid / base < 3) by (nonlinear_arith)
                requires mid == ll / base + lh % base + hl % base, ll < base * base, lh % base < base,
                    hl % base < base, base > 0, ll >= 0;
            assert(lh / base < base && hl / base < base) by (nonlinear_arith)
                requires lh < base * base, hl < base * base, base > 0;
            assert(a * b == hh * (base * base) + (lh + hl) * base + ll) by (nonlinear_arith)
                requires a == a1 * base + a0, b == b1 * base + b0, ll == a0 * b0, lh == a0 * b1,
                    hl == a1 * b0, hh == a1 * b1;
            assert(lh == (lh / base) * base + lh % base) by (nonlinear_arith) requires base > 0;
            assert(hl == (hl / base) * base + hl % base) by (nonlinear_arith) requires base > 0;
            assert(ll == (ll / base) * base + ll % base) by (nonlinear_arith) requires base > 0;
            assert(mid == (mid / base) * base + mid % base) by (nonlinear_arith) requires base > 0;
            assert(a == a1 * base + a0) by (nonlinear_arith)
                requires a1 == a / base, a0 == a % base, base > 0;
            assert(b == b1 * base + b0) by (nonlinear_arith)
                requires b1 == b / base, b0 == b % base, base > 0;
        }
        let ghost big = base * base;
        let ghost top: int = hh + lh / base + hl / base + mid / base;
        proof {
            assert(big == two_pow_128());
            assert((lh + hl) * base == (lh / base + hl / base) * big + (lh % base + hl % base) * base)
                by (nonlinear_arith)
                requires
                    lh == (lh / base) * base + lh % base,
                    hl == (hl / base) * base + hl % base,
                    big == base * base;
            assert(mid * base == (mid / base) * big + (mid % base) * base) by (nonlinear_arith)
                requires mid == (mid / base) * base + mid % base, big == base * base;
            assert(a * b == top * big + low);
            assert(top < big) by (nonlinear_arith)
                requires
                    a * b == top * big + low,
                    low >= 0,
                    a < big,
                    b < big,
                    a >= 0,
                    b >= 0,
                    big > 0;
        }
        let high = hh + lh / base + hl / base + mid / base;
        Uint256 { high, low }
    }
}

/// What the sale knows of one purchaser.
#[derive(Clone, Copy, PartialEq, Eq, Structural, Debug)]
pub struct PurchaserRecord {
    pub units_purchased: u128,
    pub purchase_timestamp: u64,
    pub units_claimed: u128,
    pub last_claim_timestamp: u64,
    /// The NFT whose holder may claim for this purchaser; zero when none.
    pub claim_token_id: Uint256,
}

impl PurchaserRecord {
    /// The record of an account that has done nothing yet.
    pub open spec fn empty_spec() -> PurchaserRecord {
        PurchaserRecord {
            units_purchased: 0,
            purchase_timestamp: 0,
            units_claimed: 0,
            last_claim_timestamp: 0,
            claim_token_id: Uint256 { high: 0, low: 0 },
        }
    }

    pub fn empty() -> (r: PurchaserRecord)
        ensures
            r == PurchaserRecord::empty_spec(),
    {
        PurchaserRecord {
            units_purchased: 0,
            purchase_timestamp: 0,
            units_claimed: 0,
            last_claim_timestamp: 0,
            claim_token_id: Uint256::zero(),
        }
    }
}

} // verus!
