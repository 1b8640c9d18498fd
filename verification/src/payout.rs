use vstd::prelude::*;
use crate::errors::BitcoinWalletError;
use vstd::arithmetic::div_mod::{
    lemma_div_is_ordered, lemma_div_pos_is_pos, lemma_fundamental_div_mod,
    lemma_fundamental_div_mod_converse_div, lemma_multiply_divide_le,
};
use vstd::arithmetic::mul::{lemma_mul_inequality, lemma_mul_is_distributive_add};

verus! {

/// Proportional weights are expressed in basis points; a full allocation is
/// this many.
pub const BASIS_POINTS: u64 = 10_000;

/// Outputs below this satoshi value are uneconomical and refused.
pub const DUST_THRESHOLD: u64 = 546;

/// Fallback fee rate in milli-satoshi per virtual byte, used when the fee
/// oracle reports no percentiles.
pub const FALLBACK_FEE_MSAT_PER_VBYTE: u64 = 15_000;

/// A beneficiary: a Bitcoin address and a proportional weight in basis points.
pub struct HeirRecord {
    pub address: String,
    pub weight_bps: u64,
}

/// The sum of the heirs' weights.
pub open spec fn weight_sum(heirs: Seq<HeirRecord>) -> int
    decreases heirs.len(),
{
    if heirs.len() == 0 {
        0
    } else {
        weight_sum(heirs.drop_last()) + heirs.last().weight_bps
    }
}

/// A beneficiary list is valid when it is non-empty and its weights sum to
/// exactly one full allocation.
pub open spec fn valid_heirs(heirs: Seq<HeirRecord>) -> bool {
    heirs.len() > 0 && weight_sum(heirs) == BASIS_POINTS
}

proof fn lemma_weight_sum_take_succ(heirs: Seq<HeirRecord>, i: int)
    requires
        0 <= i < heirs.len(),
    ensures
        weight_sum(heirs.take(i + 1)) == weight_sum(heirs.take(i)) + heirs[i].weight_bps,
{
    assert(heirs.take(i + 1).drop_last() =~= heirs.take(i));
    assert(heirs.take(i + 1).last() == heirs[i]);
}

proof fn lemma_weight_sum_nonneg(heirs: Seq<HeirRecord>)
    ensures
        weight_sum(heirs) >= 0,
    decreases heirs.len(),
{
    if heirs.len() > 0 {
        lemma_weight_sum_nonneg(heirs.drop_last());
    }
}

proof fn lemma_weight_sum_prefix_le(heirs: Seq<HeirRecord>, i: int)
    requires
        0 <= i <= heirs.len(),
    ensures
        weight_sum(heirs.take(i)) <= weight_sum(heirs),
    decreases heirs.len() - i,
{
    if i == heirs.len() {
        assert(heirs.take(i) =~= heirs);
    } else {
        lemma_weight_sum_take_succ(heirs, i);
        lemma_weight_sum_prefix_le(heirs, i + 1);
    }
}

/// Checks the beneficiary list shape before any other work: non-empty, with
/// weights summing to exactly one full allocation.
pub fn ensure_valid_heirs(heirs: &Vec<HeirRecord>) -> (r: Result<(), BitcoinWalletError>)
    ensures
        r is Ok <==> valid_heirs(heirs@),
        r is Err ==> r == Err::<(), BitcoinWalletError>(BitcoinWalletError::InvalidHeirs),
{
    if heirs.len() == 0 {
        return Err(BitcoinWalletError::InvalidHeirs);
    }
    let mut total: u64 = 0;
    let mut i: usize = 0;
    while i < heirs.len()
        invariant
            i <= heirs@.len(),
            total <= BASIS_POINTS,
            total as int == weight_sum(heirs@.take(i as int)),
        decreases heirs@.len() - i,
    {
        let w = heirs[i].weight_bps;
        proof {
            lemma_weight_sum_take_succ(heirs@, i as int);
        }
        if w > BASIS_POINTS - total {
            proof {
                lemma_weight_sum_prefix_le(heirs@, i as int + 1);
            }
            return Err(BitcoinWalletError::InvalidHeirs);
        }
        total = total + w;
        i = i + 1;
    }
    proof {
        assert(heirs@.take(heirs@.len() as int) =~= heirs@);
    }
    if total != BASIS_POINTS {
        Err(BitcoinWalletError::InvalidHeirs)
    } else {
        Ok(())
    }
}

/// The floor share of heir `i`: `total * weight / BASIS_POINTS`, rounded down.
pub open spec fn floor_share(total: u64, heirs: Seq<HeirRecord>, i: int) -> int {
    (total as int * heirs[i].weight_bps as int) / (BASIS_POINTS as int)
}

/// The sum of the floor shares of the first `k` heirs.
pub open spec fn floor_share_sum(total: u64, heirs: Seq<HeirRecord>, k: int) -> int
    decreases k,
{
    if k <= 0 {
        0
    } else {
        floor_share_sum(total, heirs, k - 1) + floor_share(total, heirs, k - 1)
    }
}

/// The payout owed to heir `i`: its floor share, except that the last heir
/// absorbs the rounding remainder so the amounts sum exactly to `total`.
pub open spec fn payout_amount(total: u64, heirs: Seq<HeirRecord>, i: int) -> int {
    if i == heirs.len() - 1 {
        total - floor_share_sum(total, heirs, i)
    } else {
        floor_share(total, heirs, i)
    }
}

/// The share multiplication for heir `i` overflows 64-bit arithmetic.
pub open spec fn alloc_overflows(total: u64, heirs: Seq<HeirRecord>, i: int) -> bool {
    i < heirs.len() - 1 && total as int * heirs[i].weight_bps as int > u64::MAX as int
}

/// Heir `i`'s amount is computable but falls below the dust floor.
pub open spec fn alloc_dusts_at(total: u64, heirs: Seq<HeirRecord>, i: int) -> bool {
    !alloc_overflows(total, heirs, i) && payout_amount(total, heirs, i) < DUST_THRESHOLD
}

/// Allocation stops at heir `i`.
pub open spec fn alloc_fails_at(total: u64, heirs: Seq<HeirRecord>, i: int) -> bool {
    alloc_overflows(total, heirs, i) || alloc_dusts_at(total, heirs, i)
}

/// Every heir of a valid list receives a computable amount at or above the
/// dust floor.
pub open spec fn alloc_ok(total: u64, heirs: Seq<HeirRecord>) -> bool {
    valid_heirs(heirs) && forall|i: int|
        0 <= i < heirs.len() ==> !alloc_fails_at(total, heirs, i)
}

/// The sum of a sequence of amounts.
pub open spec fn amount_sum(s: Seq<u64>) -> int
    decreases s.len(),
{
    if s.len() == 0 {
        0
    } else {
        amount_sum(s.drop_last()) + s.last()
    }
}

proof fn lemma_amount_sum_push(s: Seq<u64>, x: u64)
    ensures
        amount_sum(s.push(x)) == amount_sum(s) + x,
{
    assert(s.push(x).drop_last() =~= s);
}

/// Floor division distributes subadditively over a sum of numerators.
proof fn lemma_div_subadd(a: int, b: int, d: int)
    requires
        a >= 0,
        b >= 0,
        d > 0,
    ensures
        a / d + b / d <= (a + b) / d,
{
    lemma_fundamental_div_mod(a, d);
    lemma_fundamental_div_mod(b, d);
    lemma_fundamental_div_mod(a + b, d);
    let qa = a / d;
    let qb = b / d;
    let q = (a + b) / d;
    assert(d * q - (a % d + b % d - (a + b) % d) == d * qa + d * qb) by {
        vstd::arithmetic::div_mod::lemma_dividing_sums(a, b, d, a % d + b % d - (a + b) % d);
    }
    assert(d * (q - qa - qb) == a % d + b % d - (a + b) % d) by {
        lemma_mul_is_distributive_add(d, qa, qb);
        vstd::arithmetic::mul::lemma_mul_is_distributive_sub(d, q, qa + qb);
    }
    assert(d * (q - qa - qb) > -d);
    assert(q - qa - qb >= 0) by (nonlinear_arith)
        requires
            d > 0,
            d * (q - qa - qb) > -d,
    ;
}

/// The floor shares of a prefix of a valid list never exceed the total.
proof fn lemma_floor_share_sum_bound(total: u64, heirs: Seq<HeirRecord>, k: int)
    requires
        0 <= k <= heirs.len(),
        weight_sum(heirs) == BASIS_POINTS,
    ensures
        0 <= floor_share_sum(total, heirs, k),
        floor_share_sum(total, heirs, k) <= total as int * weight_sum(heirs.take(k)) / (
        BASIS_POINTS as int),
        floor_share_sum(total, heirs, k) <= total,
    decreases k,
{
    let bp = BASIS_POINTS as int;
    let t = total as int;
    if k == 0 {
        assert(t * weight_sum(heirs.take(0)) == 0);
        assert(0int / bp == 0) by {
            lemma_div_pos_is_pos(0, bp);
            lemma_div_is_ordered(0, 0, bp);
            vstd::arithmetic::div_mod::lemma_basic_div(0, bp);
        }
    } else {
        lemma_floor_share_sum_bound(total, heirs, k - 1);
        lemma_weight_sum_take_succ(heirs, k - 1);
        let w = heirs[k - 1].weight_bps as int;
        let s_prev = weight_sum(heirs.take(k - 1));
        lemma_weight_sum_nonneg(heirs.take(k - 1));
        assert(t * s_prev >= 0) by (nonlinear_arith)
            requires
                t >= 0,
                s_prev >= 0,
        ;
        assert(t * w >= 0) by (nonlinear_arith)
            requires
                t >= 0,
                w >= 0,
        ;
        lemma_div_subadd(t * s_prev, t * w, bp);
        assert(t * s_prev + t * w == t * (s_prev + w)) by {
            lemma_mul_is_distributive_add(t, s_prev, w);
        }
        // floor_share_sum(k) <= t*s_prev/bp + t*w/bp <= t*(s_prev+w)/bp
        assert(floor_share(total, heirs, k - 1) <= t * w / bp) by {
            lemma_div_is_ordered(t * w, t * w, bp);
        }
        // and t * weight_sum(take k) / bp <= total since weight_sum(take k) <= bp
        lemma_weight_sum_prefix_le(heirs, k);
        lemma_weight_sum_nonneg(heirs.take(k));
        let s_k = weight_sum(heirs.take(k));
        assert(t * s_k <= bp * t) by (nonlinear_arith)
            requires
                0 <= s_k <= bp,
                t >= 0,
        ;
        lemma_multiply_divide_le(t * s_k, bp, t);
        lemma_div_pos_is_pos(t * s_k, bp);
    }
}

/// Splits `total` into one amount per heir: each heir but the last receives
/// the floor of its proportional share; the last heir absorbs the rounding
/// remainder so the amounts sum exactly to `total`. The whole allocation
/// fails if the list is invalid or any single amount falls below the dust
/// floor; no partial result is ever produced.
pub fn allocate_payouts(total: u64, heirs: &Vec<HeirRecord>) -> (r: Result<
    Vec<u64>,
    BitcoinWalletError,
>)
    ensures
        r is Ok <==> alloc_ok(total, heirs@),
        r is Ok ==> {
            let v = r.unwrap()@;
            &&& v.len() == heirs@.len()
            &&& forall|i: int|
                0 <= i < v.len() ==> v[i] as int == payout_amount(total, heirs@, i)
            &&& forall|i: int| 0 <= i < v.len() ==> v[i] >= DUST_THRESHOLD
            &&& amount_sum(v) == total
        },
        !valid_heirs(heirs@) ==> r == Err::<Vec<u64>, BitcoinWalletError>(
            BitcoinWalletError::InvalidHeirs,
        ),
        r == Err::<Vec<u64>, BitcoinWalletError>(BitcoinWalletError::Crypto) ==> valid_heirs(
            heirs@,
        ) && exists|i: int| 0 <= i < heirs@.len() && #[trigger] alloc_overflows(total, heirs@, i),
        r == Err::<Vec<u64>, BitcoinWalletError>(BitcoinWalletError::InvalidHeirs) ==> (
        !valid_heirs(heirs@) || exists|i: int|
            0 <= i < heirs@.len() && #[trigger] alloc_dusts_at(total, heirs@, i)),
        valid_heirs(heirs@) && (forall|i: int|
            0 <= i < heirs@.len() ==> !alloc_overflows(total, heirs@, i)) && !alloc_ok(
            total,
            heirs@,
        ) ==> r == Err::<Vec<u64>, BitcoinWalletError>(BitcoinWalletError::InvalidHeirs),
        r is Err ==> r == Err::<Vec<u64>, BitcoinWalletError>(BitcoinWalletError::InvalidHeirs)
            || r == Err::<Vec<u64>, BitcoinWalletError>(BitcoinWalletError::Crypto),
{
    if let Err(e) = ensure_valid_heirs(heirs) {
        return Err(e);
    }
    let ghost hs = heirs@;
    let n = heirs.len();
    let mut allocations: Vec<u64> = Vec::new();
    let mut assigned: u64 = 0;
    let mut index: usize = 0;
    while index < n - 1
        invariant
            n == hs.len(),
            hs == heirs@,
            n >= 1,
            valid_heirs(hs),
            index <= n - 1,
            allocations@.len() == index,
            assigned as int == floor_share_sum(total, hs, index as int),
            assigned <= total,
            forall|j: int| 0 <= j < index ==> allocations@[j] as int == floor_share(total, hs, j),
            forall|j: int| 0 <= j < index ==> !alloc_fails_at(total, hs, j),
            forall|j: int| 0 <= j < index ==> allocations@[j] >= DUST_THRESHOLD,
            amount_sum(allocations@) == assigned,
        decreases n - 1 - index,
    {
        let w = heirs[index].weight_bps;
        let amount: u64;
        match total.checked_mul(w) {
            Some(product) => {
                amount = product / BASIS_POINTS;
                assert(amount as int == floor_share(total, hs, index as int));
                assert(!alloc_overflows(total, hs, index as int));
            },
            None => {
                assert(alloc_overflows(total, hs, index as int));
                assert(alloc_fails_at(total, hs, index as int));
                return Err(BitcoinWalletError::Crypto);
            },
        }
        if amount < DUST_THRESHOLD {
            assert(alloc_dusts_at(total, hs, index as int));
            assert(alloc_fails_at(total, hs, index as int));
            return Err(BitcoinWalletError::InvalidHeirs);
        }
        proof {
            lemma_amount_sum_push(allocations@, amount);
            lemma_floor_share_sum_bound(total, hs, index as int + 1);
        }
        assert(!alloc_fails_at(total, hs, index as int));
        allocations.push(amount);
        assigned = assigned + amount;
        index = index + 1;
    }
    // the last heir absorbs the rounding remainder
    let last_amount = total - assigned;
    assert(last_amount as int == payout_amount(total, hs, n - 1 as int));
    if last_amount < DUST_THRESHOLD {
        assert(alloc_dusts_at(total, hs, n - 1 as int));
        assert(alloc_fails_at(total, hs, n - 1 as int));
        return Err(BitcoinWalletError::InvalidHeirs);
    }
    proof {
        lemma_amount_sum_push(allocations@, last_amount);
    }
    allocations.push(last_amount);
    assert(!alloc_fails_at(total, hs, n - 1 as int));
    assert forall|i: int| 0 <= i < n implies !alloc_fails_at(total, hs, i) by {}
    assert forall|i: int| 0 <= i < n implies allocations@[i] as int == payout_amount(
        total,
        hs,
        i,
    ) by {}
    assert(amount_sum(allocations@) == total);
    Ok(allocations)
}

/// The fixed virtual-size approximation of a single-key segwit spend with
/// the given input and output counts.
pub open spec fn fee_vbytes(inputs: int, outputs: int) -> int {
    10 + 68 * inputs + 31 * outputs
}

/// Multiplies the fee rate by the approximate transaction virtual size;
/// `None` exactly when the product overflows 64-bit arithmetic.
pub fn estimate_fee_sat(rate: u64, inputs: usize, outputs: usize) -> (r: Option<u64>)
    ensures
        r is Some <==> rate as int * fee_vbytes(inputs as int, outputs as int) <= u64::MAX as int,
        r is Some ==> r.unwrap() as int == rate as int * fee_vbytes(inputs as int, outputs as int),
{
    let ghost v_spec = fee_vbytes(inputs as int, outputs as int);
    let v: u128 = 10u128 + 68u128 * (inputs as u128) + 31u128 * (outputs as u128);
    assert(v as int == v_spec);
    if v > u64::MAX as u128 {
        if rate == 0 {
            assert(0int * v_spec == 0);
            Some(0)
        } else {
            assert(rate as int * v_spec > u64::MAX as int) by (nonlinear_arith)
                requires
                    rate >= 1,
                    v_spec > u64::MAX as int,
            ;
            None
        }
    } else {
        let r = rate.checked_mul(v as u64);
        r
    }
}

/// With a positive rate the estimated fee never shrinks as inputs or outputs
/// are added, and strictly grows when either count does; a fee that exists
/// for the larger transaction also exists for the smaller one.
pub proof fn lemma_estimate_fee_monotone(rate: u64, i1: usize, o1: usize, i2: usize, o2: usize)
    requires
        rate >= 1,
        i1 <= i2,
        o1 <= o2,
    ensures
        rate as int * fee_vbytes(i1 as int, o1 as int) <= rate as int * fee_vbytes(
            i2 as int,
            o2 as int,
        ),
        i1 < i2 || o1 < o2 ==> rate as int * fee_vbytes(i1 as int, o1 as int) < rate as int
            * fee_vbytes(i2 as int, o2 as int),
        rate as int * fee_vbytes(i2 as int, o2 as int) <= u64::MAX as int ==> rate as int
            * fee_vbytes(i1 as int, o1 as int) <= u64::MAX as int,
{
    let v1 = fee_vbytes(i1 as int, o1 as int);
    let v2 = fee_vbytes(i2 as int, o2 as int);
    lemma_mul_inequality(v1, v2, rate as int);
    assert(v1 * rate as int == rate as int * v1);
    assert(v2 * rate as int == rate as int * v2);
    if i1 < i2 || o1 < o2 {
        assert(v1 + 1 <= v2);
        lemma_mul_inequality(v1 + 1, v2, rate as int);
        assert((v1 + 1) * rate as int == v1 * rate as int + rate as int) by {
            lemma_mul_is_distributive_add(rate as int, v1, 1);
        }
    }
}

/// The fee rate chosen from the oracle's percentile list: the median entry,
/// rounded up from milli-satoshi to whole satoshi per virtual byte and
/// floored at one; a fixed fallback when the list is empty.
pub open spec fn spec_fee_rate(percentiles: Seq<u64>) -> int {
    if percentiles.len() == 0 {
        (FALLBACK_FEE_MSAT_PER_VBYTE / 1000) as int
    } else {
        let m = percentiles[percentiles.len() as int / 2] as int;
        let ceil = (m + 999) / 1000;
        if ceil < 1 {
            1
        } else {
            ceil
        }
    }
}

/// Picks the fee rate from the oracle's percentile list.
pub fn fee_rate_from_percentiles(percentiles: &Vec<u64>) -> (r: u64)
    ensures
        r as int == spec_fee_rate(percentiles@),
        r >= 1,
{
    if percentiles.len() == 0 {
        return FALLBACK_FEE_MSAT_PER_VBYTE / 1000;
    }
    let m = percentiles[percentiles.len() / 2];
    let q = m / 1000;
    let s = m % 1000;
    proof {
        lemma_fundamental_div_mod(m as int, 1000);
        if s == 0 {
            lemma_fundamental_div_mod_converse_div(m as int + 999, 1000, q as int, 999);
        } else {
            lemma_fundamental_div_mod_converse_div(m as int + 999, 1000, q as int + 1, s as int - 1);
        }
    }
    let sat = if s > 0 {
        q + 1
    } else {
        q
    };
    if sat < 1 {
        1
    } else {
        sat
    }
}

/// Among the heirs that receive a floor share (all but the last), a larger
/// weight never yields a smaller payout.
pub proof fn lemma_payout_weight_order(total: u64, heirs: Seq<HeirRecord>, i: int, j: int)
    requires
        0 <= i < heirs.len() - 1,
        0 <= j < heirs.len() - 1,
        heirs[i].weight_bps <= heirs[j].weight_bps,
    ensures
        payout_amount(total, heirs, i) <= payout_amount(total, heirs, j),
{
    let t = total as int;
    let wi = heirs[i].weight_bps as int;
    let wj = heirs[j].weight_bps as int;
    lemma_mul_inequality(wi, wj, t);
    assert(wi * t == t * wi);
    assert(wj * t == t * wj);
    lemma_div_is_ordered(t * wi, t * wj, BASIS_POINTS as int);
}

} // verus!
