use estate_vault::errors::BitcoinWalletError;
use estate_vault::payout::{
    allocate_payouts, ensure_valid_heirs, estimate_fee_sat, fee_rate_from_percentiles, HeirRecord,
};

fn heir(address: &str, weight_bps: u64) -> HeirRecord {
    HeirRecord { address: address.to_string(), weight_bps }
}

#[test]
fn allocate_payouts_distributes_full_amount() {
    let heirs = vec![
        heir("tb1qtest000000000000000000000000000000000", 6000),
        heir("tb1qtest111111111111111111111111111111111", 4000),
    ];
    let payouts = allocate_payouts(100_000, &heirs).expect("payouts");
    assert_eq!(payouts.into_iter().sum::<u64>(), 100_000);
}

#[test]
fn estimate_fee_scales_with_inputs_outputs() {
    let low = estimate_fee_sat(5, 1, 2).unwrap();
    let high = estimate_fee_sat(5, 4, 4).unwrap();
    assert!(high > low);
}

#[test]
fn allocate_payouts_exact_proportions() {
    // two heirs at 60/40 over 100000: floor shares with the last absorbing
    let heirs = vec![heir("a", 6000), heir("b", 4000)];
    let payouts = allocate_payouts(100_000, &heirs).expect("payouts");
    assert_eq!(payouts, vec![60_000, 40_000]);
}

#[test]
fn allocate_payouts_last_heir_absorbs_rounding() {
    let heirs = vec![heir("a", 3333), heir("b", 3333), heir("c", 3334)];
    let payouts = allocate_payouts(10_001, &heirs).expect("payouts");
    assert_eq!(payouts[0], 10_001 * 3333 / 10_000);
    assert_eq!(payouts[1], 10_001 * 3333 / 10_000);
    assert_eq!(payouts.iter().sum::<u64>(), 10_001);
}

#[test]
fn allocate_payouts_rejects_dust_for_whole_list() {
    // distributable 540 with a single full-weight heir: 540 < 546 fails whole
    let heirs = vec![heir("sole", 10_000)];
    let total: u64 = 550;
    let fee: u64 = 10;
    let distributable = total - fee;
    assert_eq!(distributable, 540);
    let r = allocate_payouts(distributable, &heirs);
    assert!(matches!(r, Err(BitcoinWalletError::InvalidHeirs)));
}

#[test]
fn allocate_payouts_rejects_dust_even_when_others_are_large() {
    // the small heir poisons the whole allocation, not just its own entry
    let heirs = vec![heir("big", 9_999), heir("small", 1)];
    let r = allocate_payouts(1_000_000, &heirs);
    assert!(matches!(r, Err(BitcoinWalletError::InvalidHeirs)));
}

#[test]
fn ensure_valid_heirs_requires_exact_weight_sum() {
    assert!(ensure_valid_heirs(&vec![heir("a", 5000), heir("b", 5000)]).is_ok());
    assert!(ensure_valid_heirs(&vec![heir("a", 5000), heir("b", 4999)]).is_err());
    assert!(ensure_valid_heirs(&vec![heir("a", 5000), heir("b", 5001)]).is_err());
    assert!(ensure_valid_heirs(&Vec::new()).is_err());
}

#[test]
fn estimate_fee_exact_formula() {
    // 10 + 68 * 1 + 31 * 2 = 140 virtual bytes at 5 sat each
    assert_eq!(estimate_fee_sat(5, 1, 2), Some(700));
    assert_eq!(estimate_fee_sat(0, 1, 1), Some(0));
    assert_eq!(estimate_fee_sat(u64::MAX, 2, 2), None);
}

#[test]
fn fee_rate_falls_back_and_rounds_up() {
    assert_eq!(fee_rate_from_percentiles(&Vec::new()), 15);
    assert_eq!(fee_rate_from_percentiles(&vec![1000, 2000, 3000]), 2);
    assert_eq!(fee_rate_from_percentiles(&vec![1001]), 2);
    assert_eq!(fee_rate_from_percentiles(&vec![0]), 1);
    assert_eq!(fee_rate_from_percentiles(&vec![999]), 1);
}
