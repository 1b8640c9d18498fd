use vstd::prelude::*;
use crate::btc::{p2wpkh_addr_of, p2wpkh_script_of, p2wpkh_testnet, pubkey_p2wpkh_ok};
use crate::bytes::{be_bytes, str_eq, u64_be_bytes};
use crate::errors::BitcoinWalletError;
use crate::lookup::{find_key, has_key, index_of_key, keyed_matches, lemma_keyed_match_is_index, lemma_push_fresh_key};

verus! {

/// The Bitcoin network a wallet lives on; this engine deploys on testnet.
#[derive(Debug, Clone, Copy, PartialEq, Eq, Structural)]
pub enum BtcNetwork {
    Mainnet,
    Testnet,
    Regtest,
}

/// One vault's derived wallet: key reference, derivation path, address and
/// scripts. Created once on the first address request, immutable thereafter.
pub struct VaultWallet {
    pub key_id: String,
    pub derivation_path: Vec<Vec<u8>>,
    pub address: String,
    pub script_pub_key: Vec<u8>,
    pub public_key: Vec<u8>,
    pub network: BtcNetwork,
}

/// The wallet registry: at most one wallet per vault.
pub struct VaultWalletState {
    pub wallets: Vec<(u64, VaultWallet)>,
}

/// A request for a vault's deposit address.
pub struct GenerateVaultAddressArgs {
    pub vault_id: u64,
    pub key_id: String,
}

/// A vault's deposit address and the key reference it was derived under.
pub struct BitcoinAddressResponse {
    pub address: String,
    pub key_id: String,
}

impl VaultWalletState {
    /// An empty registry.
    pub fn new() -> (s: Self)
        ensures
            s.wallets@.len() == 0,
    {
        VaultWalletState { wallets: Vec::new() }
    }
}

/// The derivation path for a vault: one component, the vault identifier in
/// big-endian bytes.
pub fn derivation_path_for_vault(vault_id: u64) -> (r: Vec<Vec<u8>>)
    ensures
        r@.len() == 1,
        r@[0]@ == be_bytes(vault_id),
{
    let mut path: Vec<Vec<u8>> = Vec::new();
    path.push(u64_be_bytes(vault_id));
    path
}

/// The cached address response for a vault, when its wallet exists. A
/// side-effect-free read; also the first step of address generation, whose
/// cached result makes a second derivation unnecessary.
pub fn wallet_view(state: &VaultWalletState, vault_id: u64) -> (r: Option<BitcoinAddressResponse>)
    ensures
        r is Some <==> has_key(state.wallets@, vault_id),
        r is Some ==> {
            let w = state.wallets@[index_of_key(state.wallets@, vault_id)].1;
            &&& r.unwrap().address@ == w.address@
            &&& r.unwrap().key_id@ == w.key_id@
        },
{
    match find_key(&state.wallets, vault_id) {
        Some(i) => {
            proof {
                lemma_keyed_match_is_index(state.wallets@, vault_id, i as int);
            }
            let w = &state.wallets[i].1;
            Some(BitcoinAddressResponse { address: w.address.clone(), key_id: w.key_id.clone() })
        },
        None => None,
    }
}

/// Derives and commits a vault's wallet from the oracle-returned public key:
/// a check-and-set insert that rejects a vault whose wallet already exists,
/// so at most one wallet record ever survives a creation race.
pub fn register_vault_wallet(
    state: &mut VaultWalletState,
    vault_id: u64,
    key_id: String,
    public_key: Vec<u8>,
) -> (r: Result<BitcoinAddressResponse, BitcoinWalletError>)
    ensures
        r is Ok <==> !has_key(old(state).wallets@, vault_id) && pubkey_p2wpkh_ok(public_key@),
        r == Err::<BitcoinAddressResponse, BitcoinWalletError>(
            BitcoinWalletError::VaultAlreadyExists(vault_id),
        ) <==> has_key(old(state).wallets@, vault_id),
        r == Err::<BitcoinAddressResponse, BitcoinWalletError>(BitcoinWalletError::Crypto) <==> (
        !has_key(old(state).wallets@, vault_id) && !pubkey_p2wpkh_ok(public_key@)),
        r is Err ==> *final(state) == *old(state),
        r is Ok ==> {
            let w = final(state).wallets@.last().1;
            &&& final(state).wallets@ == old(state).wallets@.push(final(state).wallets@.last())
            &&& keyed_matches(final(state).wallets@, vault_id, old(state).wallets@.len() as int)
            &&& final(state).wallets@.last().0 == vault_id
            &&& w.key_id@ == key_id@
            &&& w.derivation_path@.len() == 1
            &&& w.derivation_path@[0]@ == be_bytes(vault_id)
            &&& w.address@ == p2wpkh_addr_of(public_key@)
            &&& w.script_pub_key@ == p2wpkh_script_of(public_key@)
            &&& w.public_key@ == public_key@
            &&& w.network == BtcNetwork::Testnet
            &&& r.unwrap().address@ == w.address@
            &&& r.unwrap().key_id@ == key_id@
        },
{
    if find_key(&state.wallets, vault_id).is_some() {
        return Err(BitcoinWalletError::VaultAlreadyExists(vault_id));
    }
    let derived = match p2wpkh_testnet(&public_key) {
        Ok(d) => d,
        Err(_) => {
            return Err(BitcoinWalletError::Crypto);
        },
    };
    let (address, script_pub_key) = derived;
    let response = BitcoinAddressResponse { address: address.clone(), key_id: key_id.clone() };
    let wallet = VaultWallet {
        key_id,
        derivation_path: derivation_path_for_vault(vault_id),
        address,
        script_pub_key,
        public_key,
        network: BtcNetwork::Testnet,
    };
    proof {
        lemma_push_fresh_key(state.wallets@, vault_id, wallet);
    }
    state.wallets.push((vault_id, wallet));
    Ok(response)
}

/// Once a vault's wallet is committed, a later lookup finds exactly that
/// wallet: the second address request for the same vault returns the cached
/// record unchanged, and no second derivation is needed.
pub proof fn lemma_generate_address_idempotent(
    wallets0: Seq<(u64, VaultWallet)>,
    vault_id: u64,
    w: VaultWallet,
)
    requires
        !has_key(wallets0, vault_id),
    ensures
        has_key(wallets0.push((vault_id, w)), vault_id),
        index_of_key(wallets0.push((vault_id, w)), vault_id) == wallets0.len() as int,
        wallets0.push((vault_id, w))[index_of_key(wallets0.push((vault_id, w)), vault_id)].1 == w,
{
    lemma_push_fresh_key(wallets0, vault_id, w);
    lemma_keyed_match_is_index(wallets0.push((vault_id, w)), vault_id, wallets0.len() as int);
}

/// Loads the wallet an inheritance must spend from: the vault must have a
/// wallet, and the request's key reference must match the recorded one,
/// defending against cross-key replay.
pub fn wallet_for_inheritance(state: &VaultWalletState, vault_id: u64, key_id: &str) -> (r: Result<
    usize,
    BitcoinWalletError,
>)
    ensures
        ({
            let ws = state.wallets@;
            &&& (r is Ok <==> has_key(ws, vault_id) && ws[index_of_key(ws, vault_id)].1.key_id@
                == key_id@)
            &&& (match r {
                Ok(i) => i as int == index_of_key(ws, vault_id),
                Err(e) => {
                    &&& (e == BitcoinWalletError::VaultNotFound(vault_id) <==> !has_key(
                        ws,
                        vault_id,
                    ))
                    &&& (e == BitcoinWalletError::Crypto <==> has_key(ws, vault_id) && ws[
                        index_of_key(ws, vault_id)].1.key_id@ != key_id@)
                },
            })
        }),
{
    let vi = match find_key(&state.wallets, vault_id) {
        Some(i) => i,
        None => {
            return Err(BitcoinWalletError::VaultNotFound(vault_id));
        },
    };
    proof {
        lemma_keyed_match_is_index(state.wallets@, vault_id, vi as int);
    }
    if !str_eq(state.wallets[vi].1.key_id.as_str(), key_id) {
        return Err(BitcoinWalletError::Crypto);
    }
    Ok(vi)
}

} // verus!
