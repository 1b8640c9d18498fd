use estate_vault::bytes::u64_be_bytes;
use estate_vault::custody::{
    encrypt_share_for_guardian, guardian_context, guardian_input, rng_seed_from_random,
    transport_public_key_for_guardian, transport_seed,
};
use estate_vault::errors::{BitcoinWalletError, GuardianError};
use estate_vault::guardian::{GuardianEntry, GuardianStatus};
use estate_vault::payout::HeirRecord;
use estate_vault::tx::{
    build_unsigned_transaction, finalize_transaction, normalize_utxos, plan_inheritance,
    serialize_signed_transaction, sighash_for_input, total_utxo_value, transaction_for_plan,
    transaction_id_hex, witness_for_signature, ManagedUtxo, UtxoInput,
};
use estate_vault::wallet::{register_vault_wallet, wallet_for_inheritance, wallet_view, VaultWalletState};

/// The secp256k1 generator point, compressed: a valid 33-byte public key.
fn generator_pubkey() -> Vec<u8> {
    vec![
        0x02, 0x79, 0xBE, 0x66, 0x7E, 0xF9, 0xDC, 0xBB, 0xAC, 0x55, 0xA0, 0x62, 0x95, 0xCE, 0x87,
        0x0B, 0x07, 0x02, 0x9B, 0xFC, 0xDB, 0x2D, 0xCE, 0x28, 0xD9, 0x59, 0xF2, 0x81, 0x5B, 0x16,
        0xF8, 0x17, 0x98,
    ]
}

fn heir(address: &str, weight_bps: u64) -> HeirRecord {
    HeirRecord { address: address.to_string(), weight_bps }
}

fn utxo(byte: u8, value: u64) -> UtxoInput {
    UtxoInput { txid: vec![byte; 32], vout: 0, value }
}

// A valid testnet pay-to-witness-public-key-hash address and its script.
const ADDR_A: &str = "tb1qw508d6qejxtdg4y5r3zarvary0c5xw7kxpjzsx";
// A valid testnet pay-to-witness-script-hash address.
const ADDR_B: &str = "tb1qrp33g0q5c5txsp9arysrx4k6zdkfs4nce4xj0gdcccefvpysxf3q0sl5k7";

#[test]
fn u64_be_bytes_is_big_endian() {
    assert_eq!(u64_be_bytes(0x0102030405060708), vec![1, 2, 3, 4, 5, 6, 7, 8]);
    assert_eq!(u64_be_bytes(1), vec![0, 0, 0, 0, 0, 0, 0, 1]);
}

#[test]
fn generate_address_is_idempotent_and_checks_and_sets() {
    let mut state = VaultWalletState::new();
    assert!(wallet_view(&state, 1).is_none());

    let first = register_vault_wallet(&mut state, 1, "key_1".to_string(), generator_pubkey())
        .expect("derive");
    assert!(first.address.starts_with("tb1"));
    assert_eq!(first.key_id, "key_1");

    // the cached record is byte-identical, no further derivation needed
    let cached = wallet_view(&state, 1).expect("cached");
    assert_eq!(cached.address, first.address);
    assert_eq!(cached.key_id, first.key_id);
    let cached_again = wallet_view(&state, 1).expect("cached again");
    assert_eq!(cached_again.address, first.address);

    // a second writer for the same vault loses the race
    let r = register_vault_wallet(&mut state, 1, "key_2".to_string(), generator_pubkey());
    assert!(matches!(r, Err(BitcoinWalletError::VaultAlreadyExists(1))));
    assert_eq!(wallet_view(&state, 1).expect("still cached").key_id, "key_1");
}

#[test]
fn register_vault_wallet_rejects_bad_public_key() {
    let mut state = VaultWalletState::new();
    let r = register_vault_wallet(&mut state, 1, "key_1".to_string(), vec![0u8; 32]);
    assert!(matches!(r, Err(BitcoinWalletError::Crypto)));
    assert!(wallet_view(&state, 1).is_none());
}

#[test]
fn wallet_for_inheritance_checks_key_reference() {
    let mut state = VaultWalletState::new();
    assert!(matches!(
        wallet_for_inheritance(&state, 1, "key_1"),
        Err(BitcoinWalletError::VaultNotFound(1))
    ));
    register_vault_wallet(&mut state, 1, "key_1".to_string(), generator_pubkey()).expect("derive");
    assert_eq!(wallet_for_inheritance(&state, 1, "key_1").expect("match"), 0);
    assert!(matches!(
        wallet_for_inheritance(&state, 1, "key_2"),
        Err(BitcoinWalletError::Crypto)
    ));
}

#[test]
fn normalize_utxos_requires_32_byte_txids() {
    let good = vec![utxo(0x11, 500), utxo(0x22, 700)];
    let normalized = normalize_utxos(&good).expect("normalized");
    assert_eq!(normalized.len(), 2);
    assert_eq!(normalized[0].value, 500);
    let bad = vec![UtxoInput { txid: vec![0x11; 31], vout: 0, value: 500 }];
    assert!(matches!(normalize_utxos(&bad), Err(BitcoinWalletError::Crypto)));
}

#[test]
fn total_utxo_value_checks_overflow() {
    assert_eq!(total_utxo_value(&vec![utxo(1, 500), utxo(2, 700)]), Some(1200));
    assert_eq!(total_utxo_value(&vec![utxo(1, u64::MAX), utxo(2, 1)]), None);
}

#[test]
fn plan_inheritance_allocates_after_fees() {
    let heirs = vec![heir(ADDR_A, 6000), heir(ADDR_B, 4000)];
    let utxos = vec![utxo(0x11, 100_000)];
    let plan = plan_inheritance(9, &utxos, &Vec::new(), &heirs).expect("plan");
    // fallback rate 15 sat/vbyte over 10 + 68 + 2*31 = 140 vbytes
    assert_eq!(plan.fee_rate, 15);
    assert_eq!(plan.fee, 2100);
    assert_eq!(plan.total, 100_000);
    assert_eq!(plan.distributable, 97_900);
    assert_eq!(plan.payouts, vec![58_740, 39_160]);
    assert_eq!(plan.payouts.iter().sum::<u64>(), 97_900);
    assert_eq!(plan.tx.version, 2);
    assert_eq!(plan.tx.lock_time, 0);
    assert_eq!(plan.tx.inputs.len(), 1);
    assert_eq!(plan.tx.inputs[0].sequence, u32::MAX);
    assert!(plan.tx.inputs[0].witness.is_empty());
    assert_eq!(plan.tx.outputs.len(), 2);
    assert_eq!(plan.tx.outputs[0].value, 58_740);
    // the first output script is the known witness program of that address
    let mut expected_script: Vec<u8> = vec![0x00, 0x14];
    expected_script.extend_from_slice(&[
        0x75, 0x1e, 0x76, 0xe8, 0x19, 0x91, 0x96, 0xd4, 0x54, 0x94, 0x1c, 0x45, 0xd1, 0xb3, 0xa3,
        0x23, 0xf1, 0x43, 0x3b, 0xd6,
    ]);
    assert_eq!(plan.tx.outputs[0].script_pub_key, expected_script);
}

#[test]
fn plan_inheritance_reports_each_failure() {
    let heirs = vec![heir(ADDR_A, 10_000)];
    assert!(matches!(
        plan_inheritance(5, &Vec::new(), &Vec::new(), &heirs),
        Err(BitcoinWalletError::NoUtxos(5))
    ));
    let bad_txid = vec![UtxoInput { txid: vec![1; 8], vout: 0, value: 10_000 }];
    assert!(matches!(
        plan_inheritance(5, &bad_txid, &Vec::new(), &heirs),
        Err(BitcoinWalletError::Crypto)
    ));
    // a fee rate so large the size-fee product overflows
    let many_utxos: Vec<UtxoInput> = (0..15).map(|i| utxo(i as u8, 10_000)).collect();
    let huge_rate = vec![u64::MAX - 900];
    assert!(matches!(
        plan_inheritance(5, &many_utxos, &huge_rate, &heirs),
        Err(BitcoinWalletError::FeeEstimationUnavailable)
    ));
    // the balance does not exceed the fee
    let dust_utxo = vec![utxo(0x11, 1_000)];
    assert!(matches!(
        plan_inheritance(5, &dust_utxo, &Vec::new(), &heirs),
        Err(BitcoinWalletError::InsufficientFunds)
    ));
    // distributable lands below the dust floor
    let small = vec![utxo(0x11, 600)];
    assert!(matches!(
        plan_inheritance(5, &small, &vec![1000u64], &heirs),
        Err(BitcoinWalletError::InvalidHeirs)
    ));
    // a malformed beneficiary address
    let bad_addr = vec![heir("tb1qtest000000000000000000000000000000000", 10_000)];
    let funded = vec![utxo(0x11, 100_000)];
    assert!(matches!(
        plan_inheritance(5, &funded, &Vec::new(), &bad_addr),
        Err(BitcoinWalletError::Crypto)
    ));
}

#[test]
fn witness_encodes_der_signature_with_sighash_byte() {
    // the compact signature (r, s) = (1, 1) DER-encodes to eight bytes
    let mut compact = vec![0u8; 64];
    compact[31] = 1;
    compact[63] = 1;
    let pubkey = generator_pubkey();
    let witness = witness_for_signature(&compact, &pubkey).expect("witness");
    assert_eq!(witness.len(), 2);
    assert_eq!(witness[0], vec![0x30, 0x06, 0x02, 0x01, 0x01, 0x02, 0x01, 0x01, 0x01]);
    assert_eq!(witness[1], pubkey);
    // a signature whose values overflow the group order is rejected
    let overflowing = vec![0xFFu8; 64];
    assert!(matches!(
        witness_for_signature(&overflowing, &pubkey),
        Err(BitcoinWalletError::Crypto)
    ));
}

#[test]
fn signed_transaction_serializes_and_has_txid() {
    let utxos = vec![ManagedUtxo { txid: vec![0x11; 32], vout: 0, value: 50_000 }];
    let heirs = vec![heir(ADDR_A, 10_000)];
    let payouts = vec![40_000u64];
    let outputs = estate_vault::tx::build_outputs(&heirs, &payouts).expect("outputs");
    let plan = build_unsigned_transaction(&utxos, outputs);

    let unsigned = transaction_for_plan(&plan).expect("unsigned transaction");
    let script = plan.outputs[0].script_pub_key.clone();
    let digest = sighash_for_input(&unsigned, 0, &script, 50_000).expect("sighash");
    assert_eq!(digest.len(), 32);

    let mut compact = vec![0u8; 64];
    compact[31] = 1;
    compact[63] = 1;
    let signed_plan =
        finalize_transaction(plan, &vec![compact], &generator_pubkey()).expect("finalize");
    assert_eq!(signed_plan.inputs[0].witness.len(), 2);

    let signed = transaction_for_plan(&signed_plan).expect("signed transaction");
    let bytes = serialize_signed_transaction(&signed).expect("serialized");
    assert_eq!(&bytes[0..4], &[2, 0, 0, 0]);
    let txid = transaction_id_hex(&signed);
    assert_eq!(txid.len(), 64);
    assert!(txid.chars().all(|c| c.is_ascii_hexdigit()));
}

fn invited_guardian() -> GuardianEntry {
    GuardianEntry {
        email_hash: vec![0x42; 32],
        alias: "Alpha".to_string(),
        status: GuardianStatus::Accepted,
        principal_id: Some(vec![0xAA, 0xBB]),
        encrypted_share: None,
        submitted_at: None,
        updated_at: 10,
    }
}

#[test]
fn guardian_context_is_prefix_and_vault_id() {
    let ctx = guardian_context(0x0102);
    assert_eq!(&ctx[..32], b"thresholdvault.guardian-share.v1".as_slice());
    assert_eq!(&ctx[32..], &[0, 0, 0, 0, 0, 0, 0x01, 0x02]);
}

#[test]
fn guardian_inputs_differ_per_vault_and_guardian() {
    let g = invited_guardian();
    let mut other = invited_guardian();
    other.email_hash = vec![0x43; 32];
    let i1 = guardian_input(1, &g);
    let i2 = guardian_input(2, &g);
    let i3 = guardian_input(1, &other);
    assert_eq!(i1.len(), 32);
    assert_ne!(i1, i2);
    assert_ne!(i1, i3);
    assert_eq!(i1, guardian_input(1, &g));
    assert_eq!(transport_seed(1, &g).len(), 32);
    assert_ne!(transport_seed(1, &g), transport_seed(2, &g));
}

#[test]
fn transport_public_key_is_deterministic() {
    let g = invited_guardian();
    let pk1 = transport_public_key_for_guardian(1, &g);
    let pk2 = transport_public_key_for_guardian(1, &g);
    assert_eq!(pk1.len(), 48);
    assert_eq!(pk1, pk2);
    assert_ne!(pk1, transport_public_key_for_guardian(2, &g));
}

#[test]
fn rng_seed_expansion_handles_short_randomness() {
    assert!(matches!(
        rng_seed_from_random(&Vec::new()),
        Err(GuardianError::RandomnessUnavailable)
    ));
    let long: Vec<u8> = (0u8..40).collect();
    assert_eq!(rng_seed_from_random(&long).expect("long"), (0u8..32).collect::<Vec<u8>>());
    let short = vec![7u8; 4];
    let expanded = rng_seed_from_random(&short).expect("short");
    assert_eq!(expanded.len(), 32);
    assert_ne!(expanded, vec![7u8; 32]);
}

#[test]
fn encrypt_share_rejects_bad_oracle_material() {
    let g = invited_guardian();
    let share = vec![1u8, 2, 3];
    let random = vec![9u8; 32];
    // an empty randomness reply is refused before any cryptographic work
    let r = encrypt_share_for_guardian(1, &g, &share, &vec![0u8; 192], &vec![0u8; 96], &Vec::new());
    assert!(matches!(r, Err(GuardianError::RandomnessUnavailable)));
    // a malformed encrypted-key blob is refused
    let r = encrypt_share_for_guardian(1, &g, &share, &vec![0u8; 10], &vec![0u8; 96], &random);
    assert!(matches!(r, Err(GuardianError::CryptoError)));
    // a malformed derived public key is refused
    let r = encrypt_share_for_guardian(1, &g, &share, &vec![0u8; 192], &vec![0u8; 10], &random);
    assert!(matches!(r, Err(GuardianError::CryptoError)));
}
