//! Oracle observations and the rule by which one counts as the price of a
//! bank's asset.
//!
//! The ledger never reads a feed. It is handed observations, each already
//! parsed into a price, a confidence interval and a time, and it uses an
//! observation only if it is the single one for the bank's oracle, fresh
//! enough and narrow enough.
use crate::bank::BankConfig;
use crate::fixed_point::{lemma_floor_quotient_is_greatest, Rounding, I80F48, SCALE};
use crate::pubkey::Pubkey;
use vstd::prelude::*;

verus! {

/// One observation of an oracle.
#[derive(Clone, Copy, Debug, PartialEq, Eq, Structural)]
pub struct PriceObservation {
    /// The oracle observed.
    pub oracle: Pubkey,
    /// Value of one unit of the asset.
    pub price: I80F48,
    /// Half-width of the interval in which the oracle holds the price to lie.
    pub confidence: I80F48,
    /// When the observation was made, in seconds.
    pub published_at: i64,
}

impl PriceObservation {
    /// Whether the observation may price an asset at time `now`: the price is
    /// positive, the observation is no older than `oracle_max_age` seconds,
    /// and the confidence interval is not negative and at most
    /// `oracle_max_confidence` times the price.
    pub open spec fn spec_is_usable(&self, config: BankConfig, now: i64) -> bool {
        &&& self.price.bits > 0
        &&& self.confidence.bits >= 0
        &&& now - self.published_at <= config.oracle_max_age
        &&& self.confidence.bits * SCALE <= self.price.bits * config.oracle_max_confidence.bits
    }

    /// Whether the observation may price an asset at time `now`.
    pub fn is_usable(&self, config: &BankConfig, now: i64) -> (r: bool)
        ensures
            r == self.spec_is_usable(*config, now),
    {
        if self.price.bits <= 0 || self.confidence.bits < 0 {
            return false;
        }
        let age: i128 = now as i128 - self.published_at as i128;
        if age > config.oracle_max_age as i128 {
            return false;
        }
        let bound = config.oracle_max_confidence.bits;
        proof {
            let exact = self.price.bits * bound;
            lemma_floor_quotient_is_greatest(exact, SCALE as int, self.confidence.bits as int);
            lemma_floor_quotient_is_greatest(exact, SCALE as int, i128::MIN as int);
            if bound < 0 {
                assert(exact < 0) by (nonlinear_arith)
                    requires
                        exact == self.price.bits * bound,
                        self.price.bits > 0,
                        bound < 0,
                ;
                assert(self.confidence.bits * SCALE >= 0) by (nonlinear_arith)
                    requires
                        self.confidence.bits >= 0,
                ;
            } else {
                assert(exact >= 0) by (nonlinear_arith)
                    requires
                        exact == self.price.bits * bound,
                        self.price.bits > 0,
                        bound >= 0,
                ;
                assert(i128::MIN * SCALE <= 0);
            }
        }
        if bound < 0 {
            return false;
        }
        match self.price.mul_round(config.oracle_max_confidence, Rounding::Down) {
            Some(widest) => self.confidence.bits <= widest.bits,
            None => true,
        }
    }
}

/// How many of the first `n` observations are of the given oracle.
pub open spec fn spec_count(prices: Seq<PriceObservation>, oracle: Pubkey, n: int) -> nat
    decreases n,
{
    if n <= 0 {
        0
    } else {
        spec_count(prices, oracle, n - 1) + (if prices[n - 1].oracle == oracle {
            1nat
        } else {
            0nat
        })
    }
}

/// The last of the first `n` observations that is of the given oracle.
pub open spec fn spec_last(prices: Seq<PriceObservation>, oracle: Pubkey, n: int) -> Option<
    PriceObservation,
>
    decreases n,
{
    if n <= 0 {
        None
    } else if prices[n - 1].oracle == oracle {
        Some(prices[n - 1])
    } else {
        spec_last(prices, oracle, n - 1)
    }
}

/// The price of the asset of a bank with the given configuration: that of
/// the one observation of the bank's oracle, provided that there is exactly
/// one and that it is usable.
pub open spec fn spec_price(prices: Seq<PriceObservation>, config: BankConfig, now: i64) -> Option<
    I80F48,
> {
    if spec_count(prices, config.oracle, prices.len() as int) == 1 {
        let observation = spec_last(prices, config.oracle, prices.len() as int);
        if observation is Some && observation->0.spec_is_usable(config, now) {
            Some(observation->0.price)
        } else {
            None
        }
    } else {
        None
    }
}

/// The price of the asset of a bank with the given configuration, or `None`
/// where the bank's oracle was not observed, was observed more than once, or
/// its observation is not usable.
pub fn price(prices: &Vec<PriceObservation>, config: &BankConfig, now: i64) -> (r: Option<I80F48>)
    ensures
        r == spec_price(prices@, *config, now),
        r matches Some(p) ==> p.bits > 0,
{
    let mut count: usize = 0;
    let mut found: Option<PriceObservation> = None;
    let mut i: usize = 0;
    while i < prices.len()
        invariant
            i <= prices.len(),
            count <= i,
            count == spec_count(prices@, config.oracle, i as int),
            found == spec_last(prices@, config.oracle, i as int),
        decreases prices.len() - i,
    {
        let observation = prices[i];
        if observation.oracle == config.oracle {
            count = count + 1;
            found = Some(observation);
        }
        i = i + 1;
    }
    if count != 1 {
        return None;
    }
    match found {
        Some(observation) => if observation.is_usable(config, now) {
            Some(observation.price)
        } else {
            None
        },
        None => None,
    }
}

} // verus!
