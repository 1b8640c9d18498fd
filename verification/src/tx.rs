use vstd::prelude::*;
use crate::btc::{
    addr_decodes_testnet, addr_script_of, address_script_testnet, assemble_transaction,
    compact_sig_ok, der_sig_of, der_signature, encode_transaction, make_txin, make_txout,
    p2wpkh_sighash, transaction_txid_hex,
};
use crate::bytes::clone_bytes;
use crate::errors::BitcoinWalletError;
use crate::payout::{
    alloc_ok, allocate_payouts, amount_sum, estimate_fee_sat, fee_rate_from_percentiles,
    fee_vbytes, payout_amount, spec_fee_rate, valid_heirs, HeirRecord,
};

verus! {

/// The transaction version this engine emits.
pub const TX_VERSION: i32 = 2;

/// The lock time this engine emits: none.
pub const TX_LOCK_TIME: u32 = 0;

/// The sequence number this engine emits: maximal, signaling no relative
/// timelock.
pub const TX_SEQUENCE_MAX: u32 = 0xFFFF_FFFF;

/// The sighash-type byte appended to each signature: all inputs, all
/// outputs.
pub const SIGHASH_ALL_BYTE: u8 = 1;

/// A request to pay a vault's balance out to its beneficiaries.
pub struct ExecuteInheritanceArgs {
    pub vault_id: u64,
    pub key_id: String,
    pub heirs: Vec<HeirRecord>,
    pub guardian_submissions: u64,
}

/// The identifying hash of the broadcast transaction.
pub struct ExecuteInheritanceResponse {
    pub tx_id: String,
}

/// An unspent output as the network oracle reports it.
pub struct UtxoInput {
    pub txid: Vec<u8>,
    pub vout: u32,
    pub value: u64,
}

/// A validated unspent output: its transaction id is exactly 32 bytes.
pub struct ManagedUtxo {
    pub txid: Vec<u8>,
    pub vout: u32,
    pub value: u64,
}

/// One planned transaction input.
pub struct TxInPlan {
    pub txid: Vec<u8>,
    pub vout: u32,
    pub sequence: u32,
    pub witness: Vec<Vec<u8>>,
}

/// One planned transaction output.
pub struct TxOutPlan {
    pub script_pub_key: Vec<u8>,
    pub value: u64,
}

/// A transaction held as plain values: what the engine decides, before the
/// Bitcoin library serializes it.
pub struct TxPlan {
    pub version: i32,
    pub lock_time: u32,
    pub inputs: Vec<TxInPlan>,
    pub outputs: Vec<TxOutPlan>,
}

/// Every reported unspent output carries a 32-byte transaction id.
pub open spec fn utxo_txids_ok(u: Seq<UtxoInput>) -> bool {
    forall|i: int| 0 <= i < u.len() ==> (#[trigger] u[i]).txid@.len() == 32
}

/// The sum of the reported output values.
pub open spec fn raw_utxo_sum(u: Seq<UtxoInput>) -> int
    decreases u.len(),
{
    if u.len() == 0 {
        0
    } else {
        raw_utxo_sum(u.drop_last()) + u.last().value
    }
}

proof fn lemma_raw_utxo_sum_take_succ(u: Seq<UtxoInput>, i: int)
    requires
        0 <= i < u.len(),
    ensures
        raw_utxo_sum(u.take(i + 1)) == raw_utxo_sum(u.take(i)) + u[i].value,
{
    assert(u.take(i + 1).drop_last() =~= u.take(i));
    assert(u.take(i + 1).last() == u[i]);
}

/// Validates the oracle's unspent outputs: each transaction id must be
/// exactly 32 bytes, the length the Bitcoin library accepts; a single
/// malformed outpoint fails the whole set.
pub fn normalize_utxos(utxos: &Vec<UtxoInput>) -> (r: Result<Vec<ManagedUtxo>, BitcoinWalletError>)
    ensures
        r is Ok <==> utxo_txids_ok(utxos@),
        r is Err ==> r == Err::<Vec<ManagedUtxo>, BitcoinWalletError>(BitcoinWalletError::Crypto),
        r is Ok ==> {
            let v = r.unwrap()@;
            &&& v.len() == utxos@.len()
            &&& forall|i: int|
                0 <= i < v.len() ==> (#[trigger] v[i]).txid@ == utxos@[i].txid@ && v[i].vout
                    == utxos@[i].vout && v[i].value == utxos@[i].value
        },
{
    let mut managed: Vec<ManagedUtxo> = Vec::new();
    let mut i: usize = 0;
    while i < utxos.len()
        invariant
            i <= utxos@.len(),
            managed@.len() == i,
            forall|k: int| 0 <= k < i ==> (#[trigger] utxos@[k]).txid@.len() == 32,
            forall|k: int|
                0 <= k < i ==> (#[trigger] managed@[k]).txid@ == utxos@[k].txid@ && managed@[k].vout
                    == utxos@[k].vout && managed@[k].value == utxos@[k].value,
        decreases utxos@.len() - i,
    {
        let u = &utxos[i];
        if u.txid.len() != 32 {
            return Err(BitcoinWalletError::Crypto);
        }
        managed.push(ManagedUtxo { txid: clone_bytes(&u.txid), vout: u.vout, value: u.value });
        i = i + 1;
    }
    Ok(managed)
}

/// Sums the validated outputs' values; `None` exactly when the sum overflows
/// 64-bit arithmetic.
pub fn total_utxo_value(utxos: &Vec<UtxoInput>) -> (r: Option<u64>)
    ensures
        r is Some <==> raw_utxo_sum(utxos@) <= u64::MAX as int,
        r is Some ==> r.unwrap() as int == raw_utxo_sum(utxos@),
{
    let mut total: u64 = 0;
    let mut i: usize = 0;
    while i < utxos.len()
        invariant
            i <= utxos@.len(),
            total as int == raw_utxo_sum(utxos@.take(i as int)),
        decreases utxos@.len() - i,
    {
        proof {
            lemma_raw_utxo_sum_take_succ(utxos@, i as int);
        }
        total = match total.checked_add(utxos[i].value) {
            Some(t) => t,
            None => {
                proof {
                    lemma_raw_utxo_sum_prefix_le(utxos@, i as int + 1);
                }
                return None;
            },
        };
        i = i + 1;
    }
    proof {
        assert(utxos@.take(utxos@.len() as int) =~= utxos@);
    }
    Some(total)
}

proof fn lemma_raw_utxo_sum_prefix_le(u: Seq<UtxoInput>, i: int)
    requires
        0 <= i <= u.len(),
    ensures
        raw_utxo_sum(u.take(i)) <= raw_utxo_sum(u),
    decreases u.len() - i,
{
    if i == u.len() {
        assert(u.take(i) =~= u);
    } else {
        lemma_raw_utxo_sum_take_succ(u, i);
        lemma_raw_utxo_sum_prefix_le(u, i + 1);
    }
}

/// Every heir's address decodes as a testnet address.
pub open spec fn heirs_addresses_ok(heirs: Seq<HeirRecord>) -> bool {
    forall|i: int|
        0 <= i < heirs.len() ==> addr_decodes_testnet((#[trigger] heirs[i]).address@)
}

/// Builds one transaction output per heir at its allocated amount, after
/// re-parsing and network-validating the address string; a single bad
/// address fails the whole set.
pub fn build_outputs(heirs: &Vec<HeirRecord>, payouts: &Vec<u64>) -> (r: Result<
    Vec<TxOutPlan>,
    BitcoinWalletError,
>)
    requires
        heirs@.len() == payouts@.len(),
    ensures
        r is Ok <==> heirs_addresses_ok(heirs@),
        r is Err ==> r == Err::<Vec<TxOutPlan>, BitcoinWalletError>(BitcoinWalletError::Crypto),
        r is Ok ==> {
            let v = r.unwrap()@;
            &&& v.len() == heirs@.len()
            &&& forall|i: int|
                0 <= i < v.len() ==> (#[trigger] v[i]).script_pub_key@ == addr_script_of(
                    heirs@[i].address@,
                ) && v[i].value == payouts@[i]
        },
{
    let mut outputs: Vec<TxOutPlan> = Vec::new();
    let mut i: usize = 0;
    while i < heirs.len()
        invariant
            i <= heirs@.len(),
            heirs@.len() == payouts@.len(),
            outputs@.len() == i,
            forall|k: int| 0 <= k < i ==> addr_decodes_testnet((#[trigger] heirs@[k]).address@),
            forall|k: int|
                0 <= k < i ==> (#[trigger] outputs@[k]).script_pub_key@ == addr_script_of(
                    heirs@[k].address@,
                ) && outputs@[k].value == payouts@[k],
        decreases heirs@.len() - i,
    {
        let script = match address_script_testnet(heirs[i].address.as_str()) {
            Ok(s) => s,
            Err(_) => {
                return Err(BitcoinWalletError::Crypto);
            },
        };
        outputs.push(TxOutPlan { script_pub_key: script, value: payouts[i] });
        i = i + 1;
    }
    Ok(outputs)
}

/// The planned inputs mirror the unspent outputs, in iteration order, with a
/// maximal sequence number and no witness yet.
pub open spec fn inputs_match_utxos(inputs: Seq<TxInPlan>, utxos: Seq<ManagedUtxo>) -> bool {
    &&& inputs.len() == utxos.len()
    &&& forall|i: int|
        0 <= i < inputs.len() ==> {
            let txin = #[trigger] inputs[i];
            &&& txin.txid@ == utxos[i].txid@
            &&& txin.vout == utxos[i].vout
            &&& txin.sequence == TX_SEQUENCE_MAX
            &&& txin.witness@.len() == 0
        }
}

/// Assembles the unsigned transaction plan: version two, no lock time, one
/// input per unspent output in iteration order with an empty unlocking
/// script, and the given outputs. No coin selection: every available output
/// is spent.
pub fn build_unsigned_transaction(utxos: &Vec<ManagedUtxo>, outputs: Vec<TxOutPlan>) -> (r: TxPlan)
    ensures
        r.version == TX_VERSION,
        r.lock_time == TX_LOCK_TIME,
        inputs_match_utxos(r.inputs@, utxos@),
        r.outputs == outputs,
{
    let mut inputs: Vec<TxInPlan> = Vec::new();
    let mut i: usize = 0;
    while i < utxos.len()
        invariant
            i <= utxos@.len(),
            inputs@.len() == i,
            forall|k: int|
                0 <= k < i ==> {
                    let txin = #[trigger] inputs@[k];
                    &&& txin.txid@ == utxos@[k].txid@
                    &&& txin.vout == utxos@[k].vout
                    &&& txin.sequence == TX_SEQUENCE_MAX
                    &&& txin.witness@.len() == 0
                },
        decreases utxos@.len() - i,
    {
        inputs.push(TxInPlan {
            txid: clone_bytes(&utxos[i].txid),
            vout: utxos[i].vout,
            sequence: TX_SEQUENCE_MAX,
            witness: Vec::new(),
        });
        i = i + 1;
    }
    TxPlan { version: TX_VERSION, lock_time: TX_LOCK_TIME, inputs, outputs }
}

/// Every planned input carries a 32-byte transaction id.
pub open spec fn tx_plan_wf(plan: TxPlan) -> bool {
    forall|i: int|
        0 <= i < plan.inputs@.len() ==> (#[trigger] plan.inputs@[i]).txid@.len() == 32
}

/// Realizes a plan as a Bitcoin library transaction, input by input and
/// output by output.
pub fn transaction_for_plan(plan: &TxPlan) -> (r: Result<
    bitcoin::Transaction,
    BitcoinWalletError,
>)
    ensures
        tx_plan_wf(*plan) ==> r is Ok,
        r is Err ==> r == Err::<bitcoin::Transaction, BitcoinWalletError>(
            BitcoinWalletError::Crypto,
        ),
{
    let mut txins: Vec<bitcoin::TxIn> = Vec::new();
    let mut i: usize = 0;
    while i < plan.inputs.len()
        invariant
            i <= plan.inputs@.len(),
            forall|k: int| 0 <= k < i ==> (#[trigger] plan.inputs@[k]).txid@.len() == 32,
        decreases plan.inputs@.len() - i,
    {
        let txin = &plan.inputs[i];
        match make_txin(&txin.txid, txin.vout, txin.sequence, &txin.witness) {
            Ok(t) => txins.push(t),
            Err(_) => {
                return Err(BitcoinWalletError::Crypto);
            },
        }
        i = i + 1;
    }
    let mut txouts: Vec<bitcoin::TxOut> = Vec::new();
    let mut j: usize = 0;
    while j < plan.outputs.len()
        invariant
            j <= plan.outputs@.len(),
        decreases plan.outputs@.len() - j,
    {
        let txout = &plan.outputs[j];
        txouts.push(make_txout(&txout.script_pub_key, txout.value));
        j = j + 1;
    }
    Ok(assemble_transaction(plan.version, plan.lock_time, txins, txouts))
}

/// The BIP143 digest to sign for one input; the caller supplies the wallet's
/// own output script and the input's previous value.
pub fn sighash_for_input(
    tx: &bitcoin::Transaction,
    index: usize,
    script_pub_key: &Vec<u8>,
    value: u64,
) -> (r: Result<Vec<u8>, BitcoinWalletError>)
    ensures
        r is Ok ==> r.unwrap()@.len() == 32,
        r is Err ==> r == Err::<Vec<u8>, BitcoinWalletError>(BitcoinWalletError::Crypto),
{
    match p2wpkh_sighash(tx, index, script_pub_key, value) {
        Ok(d) => Ok(d),
        Err(_) => Err(BitcoinWalletError::Crypto),
    }
}

/// The two-element witness that spends a single-key segwit input: the DER
/// signature with the all-inputs-all-outputs sighash byte appended, then the
/// raw public key.
pub fn witness_for_signature(compact_sig: &Vec<u8>, public_key: &Vec<u8>) -> (r: Result<
    Vec<Vec<u8>>,
    BitcoinWalletError,
>)
    ensures
        r is Ok <==> compact_sig_ok(compact_sig@),
        r is Err ==> r == Err::<Vec<Vec<u8>>, BitcoinWalletError>(BitcoinWalletError::Crypto),
        r is Ok ==> {
            let w = r.unwrap()@;
            &&& w.len() == 2
            &&& w[0]@ == der_sig_of(compact_sig@).push(SIGHASH_ALL_BYTE)
            &&& w[1]@ == public_key@
        },
{
    let mut der = match der_signature(compact_sig) {
        Ok(d) => d,
        Err(_) => {
            return Err(BitcoinWalletError::Crypto);
        },
    };
    der.push(SIGHASH_ALL_BYTE);
    let mut witness: Vec<Vec<u8>> = Vec::new();
    witness.push(der);
    witness.push(clone_bytes(public_key));
    Ok(witness)
}

/// Attaches one witness per input, in index order, from the oracle's compact
/// signatures; a failure on any input aborts the whole signing.
pub fn finalize_transaction(plan: TxPlan, signatures: &Vec<Vec<u8>>, public_key: &Vec<u8>) -> (r:
    Result<TxPlan, BitcoinWalletError>)
    requires
        signatures@.len() == plan.inputs@.len(),
    ensures
        r is Ok <==> (forall|i: int|
            0 <= i < signatures@.len() ==> compact_sig_ok((#[trigger] signatures@[i])@)),
        r is Err ==> r == Err::<TxPlan, BitcoinWalletError>(BitcoinWalletError::Crypto),
        r is Ok ==> {
            let t = r.unwrap();
            &&& t.version == plan.version
            &&& t.lock_time == plan.lock_time
            &&& t.outputs == plan.outputs
            &&& t.inputs@.len() == plan.inputs@.len()
            &&& forall|i: int|
                0 <= i < t.inputs@.len() ==> {
                    let txin = #[trigger] t.inputs@[i];
                    &&& txin.txid@ == plan.inputs@[i].txid@
                    &&& txin.vout == plan.inputs@[i].vout
                    &&& txin.sequence == plan.inputs@[i].sequence
                    &&& txin.witness@.len() == 2
                    &&& txin.witness@[0]@ == der_sig_of(signatures@[i]@).push(SIGHASH_ALL_BYTE)
                    &&& txin.witness@[1]@ == public_key@
                }
        },
{
    let ghost inputs0 = plan.inputs@;
    let mut signed: Vec<TxInPlan> = Vec::new();
    let mut i: usize = 0;
    while i < plan.inputs.len()
        invariant
            i <= inputs0.len(),
            plan.inputs@ == inputs0,
            signatures@.len() == inputs0.len(),
            signed@.len() == i,
            forall|k: int| 0 <= k < i ==> compact_sig_ok((#[trigger] signatures@[k])@),
            forall|k: int|
                0 <= k < i ==> {
                    let txin = #[trigger] signed@[k];
                    &&& txin.txid@ == inputs0[k].txid@
                    &&& txin.vout == inputs0[k].vout
                    &&& txin.sequence == inputs0[k].sequence
                    &&& txin.witness@.len() == 2
                    &&& txin.witness@[0]@ == der_sig_of(signatures@[k]@).push(SIGHASH_ALL_BYTE)
                    &&& txin.witness@[1]@ == public_key@
                },
        decreases inputs0.len() - i,
    {
        let witness = match witness_for_signature(&signatures[i], public_key) {
            Ok(w) => w,
            Err(_) => {
                return Err(BitcoinWalletError::Crypto);
            },
        };
        let src = &plan.inputs[i];
        signed.push(TxInPlan {
            txid: clone_bytes(&src.txid),
            vout: src.vout,
            sequence: src.sequence,
            witness,
        });
        i = i + 1;
    }
    Ok(TxPlan {
        version: plan.version,
        lock_time: plan.lock_time,
        inputs: signed,
        outputs: plan.outputs,
    })
}

/// Serializes a signed transaction for broadcast.
pub fn serialize_signed_transaction(tx: &bitcoin::Transaction) -> (r: Result<
    Vec<u8>,
    BitcoinWalletError,
>)
    ensures
        r is Ok,
        r is Ok ==> r.unwrap()@.len() >= 10,
{
    match encode_transaction(tx) {
        Ok(b) => Ok(b),
        Err(_) => Err(BitcoinWalletError::Crypto),
    }
}

/// The transaction's identifying hash, as sixty-four hexadecimal characters.
pub fn transaction_id_hex(tx: &bitcoin::Transaction) -> (r: String)
    ensures
        r@.len() == 64,
{
    transaction_txid_hex(tx)
}

/// Everything the engine decides for one inheritance payout.
pub struct InheritancePlan {
    pub utxos: Vec<ManagedUtxo>,
    pub total: u64,
    pub fee_rate: u64,
    pub fee: u64,
    pub distributable: u64,
    pub payouts: Vec<u64>,
    pub tx: TxPlan,
}

/// The fee owed for spending `n_inputs` to `n_outputs` at the rate the
/// percentile list yields.
pub open spec fn plan_fee(n_inputs: int, percentiles: Seq<u64>, n_outputs: int) -> int {
    spec_fee_rate(percentiles) * fee_vbytes(n_inputs, n_outputs)
}

/// Decides a whole inheritance payout from the oracle-reported unspent
/// outputs and fee percentiles: validates the outpoints, sums the balance,
/// estimates the fee, allocates the remainder among the heirs, and lays out
/// the unsigned transaction. Performs no oracle call itself and leaves no
/// state behind; any failure is reported before anything is signed.
pub fn plan_inheritance(
    vault_id: u64,
    raw_utxos: &Vec<UtxoInput>,
    fee_percentiles: &Vec<u64>,
    heirs: &Vec<HeirRecord>,
) -> (r: Result<InheritancePlan, BitcoinWalletError>)
    requires
        valid_heirs(heirs@),
    ensures
        ({
            let u = raw_utxos@;
            let sum = raw_utxo_sum(u);
            let fee = plan_fee(u.len() as int, fee_percentiles@, heirs@.len() as int);
            &&& (u.len() == 0 ==> r == Err::<InheritancePlan, BitcoinWalletError>(
                BitcoinWalletError::NoUtxos(vault_id),
            ))
            &&& (u.len() > 0 && !utxo_txids_ok(u) ==> r == Err::<
                InheritancePlan,
                BitcoinWalletError,
            >(BitcoinWalletError::Crypto))
            &&& (u.len() > 0 && utxo_txids_ok(u) && sum > u64::MAX as int ==> r == Err::<
                InheritancePlan,
                BitcoinWalletError,
            >(BitcoinWalletError::Crypto))
            &&& (u.len() > 0 && utxo_txids_ok(u) && sum <= u64::MAX as int && fee > u64::MAX as int
                ==> r == Err::<InheritancePlan, BitcoinWalletError>(
                BitcoinWalletError::FeeEstimationUnavailable,
            ))
            &&& (u.len() > 0 && utxo_txids_ok(u) && sum <= u64::MAX as int && fee
                <= u64::MAX as int && sum <= fee ==> r == Err::<
                InheritancePlan,
                BitcoinWalletError,
            >(BitcoinWalletError::InsufficientFunds))
            &&& (u.len() > 0 && utxo_txids_ok(u) && sum <= u64::MAX as int && fee
                <= u64::MAX as int && sum > fee ==> {
                let dist = (sum - fee) as u64;
                &&& (r is Ok <==> alloc_ok(dist, heirs@) && heirs_addresses_ok(heirs@))
                &&& (!alloc_ok(dist, heirs@) && (forall|i: int|
                    0 <= i < heirs@.len() ==> !crate::payout::alloc_overflows(
                        dist,
                        heirs@,
                        i,
                    )) ==> r == Err::<InheritancePlan, BitcoinWalletError>(
                    BitcoinWalletError::InvalidHeirs,
                ))
                &&& (match r {
                    Ok(plan) => {
                        &&& plan.total as int == sum
                        &&& plan.fee as int == fee
                        &&& plan.fee_rate as int == spec_fee_rate(fee_percentiles@)
                        &&& plan.distributable == dist
                        &&& plan.utxos@.len() == u.len()
                        &&& forall|i: int|
                            0 <= i < u.len() ==> (#[trigger] plan.utxos@[i]).txid@ == u[i].txid@
                                && plan.utxos@[i].vout == u[i].vout && plan.utxos@[i].value
                                == u[i].value
                        &&& plan.payouts@.len() == heirs@.len()
                        &&& forall|i: int|
                            0 <= i < heirs@.len() ==> #[trigger] plan.payouts@[i] as int
                                == payout_amount(dist, heirs@, i)
                        &&& amount_sum(plan.payouts@) == dist
                        &&& plan.tx.version == TX_VERSION
                        &&& plan.tx.lock_time == TX_LOCK_TIME
                        &&& inputs_match_utxos(plan.tx.inputs@, plan.utxos@)
                        &&& plan.tx.outputs@.len() == heirs@.len()
                        &&& forall|i: int|
                            0 <= i < heirs@.len() ==> (#[trigger] plan.tx.outputs@[i]).script_pub_key@
                                == addr_script_of(heirs@[i].address@) && plan.tx.outputs@[i].value
                                == plan.payouts@[i]
                        &&& tx_plan_wf(plan.tx)
                    },
                    Err(e) => e == BitcoinWalletError::InvalidHeirs || e
                        == BitcoinWalletError::Crypto,
                })
            })
        }),
{
    if raw_utxos.len() == 0 {
        return Err(BitcoinWalletError::NoUtxos(vault_id));
    }
    let managed = match normalize_utxos(raw_utxos) {
        Ok(m) => m,
        Err(e) => {
            return Err(e);
        },
    };
    let total = match total_utxo_value(raw_utxos) {
        Some(t) => t,
        None => {
            return Err(BitcoinWalletError::Crypto);
        },
    };
    let fee_rate = fee_rate_from_percentiles(fee_percentiles);
    let fee = match estimate_fee_sat(fee_rate, managed.len(), heirs.len()) {
        Some(f) => f,
        None => {
            return Err(BitcoinWalletError::FeeEstimationUnavailable);
        },
    };
    if total <= fee {
        return Err(BitcoinWalletError::InsufficientFunds);
    }
    let distributable = total - fee;
    let payouts = match allocate_payouts(distributable, heirs) {
        Ok(p) => p,
        Err(e) => {
            return Err(e);
        },
    };
    let outputs = match build_outputs(heirs, &payouts) {
        Ok(o) => o,
        Err(e) => {
            return Err(e);
        },
    };
    let tx = build_unsigned_transaction(&managed, outputs);
    Ok(InheritancePlan {
        utxos: managed,
        total,
        fee_rate,
        fee,
        distributable,
        payouts,
        tx,
    })
}

} // verus!
