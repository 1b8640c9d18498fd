use vstd::prelude::*;
use std::str::FromStr;

verus! {

#[verifier::external_type_specification]
#[verifier::external_body]
pub struct ExTransaction(bitcoin::Transaction);

#[verifier::external_type_specification]
#[verifier::external_body]
pub struct ExTxIn(bitcoin::TxIn);

#[verifier::external_type_specification]
#[verifier::external_body]
pub struct ExTxOut(bitcoin::TxOut);

/// The given bytes parse as a compressed public key usable for a
/// pay-to-witness-public-key-hash address.
pub uninterp spec fn pubkey_p2wpkh_ok(pk: Seq<u8>) -> bool;

/// The testnet pay-to-witness-public-key-hash address string of a public key.
pub uninterp spec fn p2wpkh_addr_of(pk: Seq<u8>) -> Seq<char>;

/// The output script of a public key's pay-to-witness-public-key-hash
/// address.
pub uninterp spec fn p2wpkh_script_of(pk: Seq<u8>) -> Seq<u8>;

/// Relies on bitcoin's `PublicKey::from_slice`, `Address::p2wpkh`,
/// `Address::to_string` and `Address::script_pubkey`, on the testnet
/// network: the chain succeeds exactly for a valid compressed (33-byte) key,
/// and the address string and output script are functions of the key bytes
/// alone.
#[verifier::external_body]
pub(crate) fn p2wpkh_testnet(pubkey: &Vec<u8>) -> (r: Result<(String, Vec<u8>), ()>)
    ensures
        r is Ok <==> pubkey_p2wpkh_ok(pubkey@),
        r is Ok ==> pubkey@.len() == 33,
        r is Ok ==> r.unwrap().0@ == p2wpkh_addr_of(pubkey@),
        r is Ok ==> r.unwrap().1@ == p2wpkh_script_of(pubkey@),
{
    let pk = bitcoin::PublicKey::from_slice(pubkey.as_slice()).map_err(|_| ())?;
    let addr = bitcoin::Address::p2wpkh(&pk, bitcoin::Network::Testnet).map_err(|_| ())?;
    let script = addr.script_pubkey().to_bytes();
    Ok((addr.to_string(), script))
}

/// The given string decodes as a Bitcoin address valid on testnet.
pub uninterp spec fn addr_decodes_testnet(a: Seq<char>) -> bool;

/// The output script a decoded address pays to.
pub uninterp spec fn addr_script_of(a: Seq<char>) -> Seq<u8>;

/// Relies on bitcoin's `Address::from_str`, `Address::require_network` (with
/// the testnet network) and `Address::script_pubkey`: decoding succeeds
/// exactly for a well-formed address valid on testnet, and the output script
/// is a function of the address string alone.
#[verifier::external_body]
pub(crate) fn address_script_testnet(addr: &str) -> (r: Result<Vec<u8>, ()>)
    ensures
        r is Ok <==> addr_decodes_testnet(addr@),
        r is Ok ==> r.unwrap()@ == addr_script_of(addr@),
{
    let parsed = bitcoin::Address::from_str(addr).map_err(|_| ())?;
    let checked = parsed.require_network(bitcoin::Network::Testnet).map_err(|_| ())?;
    Ok(checked.script_pubkey().to_bytes())
}

/// Relies on bitcoin's `Txid::from_slice` (exactly 32 bytes accepted),
/// `OutPoint::new` and `Witness::from_slice`; the unlocking script is left
/// empty, as a segwit spend requires.
#[verifier::external_body]
pub(crate) fn make_txin(txid: &Vec<u8>, vout: u32, sequence: u32, witness: &Vec<Vec<u8>>) -> (r:
    Result<bitcoin::TxIn, ()>)
    ensures
        r is Ok <==> txid@.len() == 32,
{
    let id = <bitcoin::Txid as bitcoin::hashes::Hash>::from_slice(txid.as_slice()).map_err(|_| ())?;
    Ok(bitcoin::TxIn {
        previous_output: bitcoin::OutPoint::new(id, vout),
        script_sig: bitcoin::ScriptBuf::new(),
        sequence: bitcoin::Sequence(sequence),
        witness: bitcoin::Witness::from_slice(witness.as_slice()),
    })
}

/// Relies on bitcoin's `ScriptBuf::from_bytes` and `Amount::from_sat` to
/// build one transaction output.
#[verifier::external_body]
pub(crate) fn make_txout(script_pub_key: &Vec<u8>, value: u64) -> (r: bitcoin::TxOut) {
    bitcoin::TxOut {
        value: bitcoin::Amount::from_sat(value),
        script_pubkey: bitcoin::ScriptBuf::from_bytes(script_pub_key.clone()),
    }
}

/// Relies on bitcoin's `Transaction` type, `transaction::Version` and
/// `absolute::LockTime::from_consensus` to assemble a transaction from
/// already-built inputs and outputs.
#[verifier::external_body]
pub(crate) fn assemble_transaction(
    version: i32,
    lock_time: u32,
    inputs: Vec<bitcoin::TxIn>,
    outputs: Vec<bitcoin::TxOut>,
) -> (r: bitcoin::Transaction) {
    bitcoin::Transaction {
        version: bitcoin::transaction::Version(version),
        lock_time: bitcoin::absolute::LockTime::from_consensus(lock_time),
        input: inputs,
        output: outputs,
    }
}

/// Relies on bitcoin's `consensus::Encodable::consensus_encode`: writing
/// into a byte vector cannot fail, and the serialized form holds at least
/// the four version bytes, two count bytes and four lock-time bytes.
#[verifier::external_body]
pub(crate) fn encode_transaction(tx: &bitcoin::Transaction) -> (r: Result<Vec<u8>, ()>)
    ensures
        r is Ok,
        r is Ok ==> r.unwrap()@.len() >= 10,
{
    let mut bytes: Vec<u8> = Vec::new();
    bitcoin::consensus::Encodable::consensus_encode(tx, &mut bytes).map_err(|_| ())?;
    Ok(bytes)
}

/// Relies on bitcoin's `Transaction::txid` and the hex display of `Txid`: a
/// 32-byte hash shown as 64 hexadecimal characters.
#[verifier::external_body]
pub(crate) fn transaction_txid_hex(tx: &bitcoin::Transaction) -> (r: String)
    ensures
        r@.len() == 64,
{
    tx.txid().to_string()
}

/// Relies on bitcoin's `SighashCache::p2wpkh_signature_hash` (the BIP143
/// all-inputs-all-outputs digest over the input's previous value and output
/// script) and `Script::from_bytes`: a 32-byte digest on success.
#[verifier::external_body]
pub(crate) fn p2wpkh_sighash(
    tx: &bitcoin::Transaction,
    index: usize,
    script_pub_key: &Vec<u8>,
    value: u64,
) -> (r: Result<Vec<u8>, ()>)
    ensures
        r is Ok ==> r.unwrap()@.len() == 32,
{
    let mut cache = bitcoin::sighash::SighashCache::new(tx);
    let sighash = cache.p2wpkh_signature_hash(
        index,
        bitcoin::Script::from_bytes(script_pub_key.as_slice()),
        bitcoin::Amount::from_sat(value),
        bitcoin::sighash::EcdsaSighashType::All,
    ).map_err(|_| ())?;
    Ok(bitcoin::hashes::Hash::to_byte_array(sighash).to_vec())
}

/// The given 64 bytes are a well-formed compact ECDSA signature.
pub uninterp spec fn compact_sig_ok(s: Seq<u8>) -> bool;

/// The DER encoding of a compact ECDSA signature.
pub uninterp spec fn der_sig_of(s: Seq<u8>) -> Seq<u8>;

/// Relies on secp256k1's `Signature::from_compact` (exactly 64 bytes
/// accepted) and `Signature::serialize_der` (at most 72 bytes, a function of
/// the signature alone).
#[verifier::external_body]
pub(crate) fn der_signature(compact: &Vec<u8>) -> (r: Result<Vec<u8>, ()>)
    ensures
        r is Ok <==> compact_sig_ok(compact@),
        r is Ok ==> compact@.len() == 64,
        r is Ok ==> r.unwrap()@ == der_sig_of(compact@) && der_sig_of(compact@).len() <= 72,
{
    let sig = bitcoin::secp256k1::ecdsa::Signature::from_compact(compact.as_slice()).map_err(
        |_| (),
    )?;
    Ok(sig.serialize_der().to_vec())
}

} // verus!
