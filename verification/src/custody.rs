use vstd::prelude::*;
use crate::bytes::{be_bytes, push_all, u64_be_bytes};
use crate::digest::{sha256_digest, sha256_of};
use crate::errors::GuardianError;
use crate::guardian::{GuardianEntry, MAX_SHARE_BYTES};
use vstd::utf8::encode_utf8;

verus! {

/// The domain-separation prefix scoping derived keys to this protocol.
pub open spec fn vetkey_context_prefix() -> Seq<u8> {
    encode_utf8("thresholdvault.guardian-share.v1"@)
}

/// The domain-separation tag for the deterministic transport key seed.
pub open spec fn vetkey_transport_domain() -> Seq<u8> {
    encode_utf8("thresholdvault.transport.seed"@)
}

/// The domain-separation tag for expanding short randomness.
pub open spec fn rng_domain() -> Seq<u8> {
    encode_utf8("thresholdvault.guardian.rng"@)
}

/// The label under which shares are authenticate-encrypted.
pub const SHARE_ENCRYPTION_DOMAIN: &'static str = "thresholdvault.share";

/// The context handed to the key-derivation oracle: the fixed protocol
/// prefix followed by the vault identifier in big-endian bytes, scoping the
/// derived key family to this protocol and this vault.
pub fn guardian_context(vault_id: u64) -> (r: Vec<u8>)
    ensures
        r@ == vetkey_context_prefix() + be_bytes(vault_id),
{
    let mut ctx: Vec<u8> = Vec::new();
    push_all(&mut ctx, &slice_to_bytes("thresholdvault.guardian-share.v1".as_bytes()));
    let id = u64_be_bytes(vault_id);
    push_all(&mut ctx, &id);
    ctx
}

/// An owned copy of a byte slice.
fn slice_to_bytes(src: &[u8]) -> (r: Vec<u8>)
    ensures
        r@ == src@,
{
    let mut out: Vec<u8> = Vec::new();
    let mut i: usize = 0;
    while i < src.len()
        invariant
            i <= src@.len(),
            out@ == src@.take(i as int),
        decreases src@.len() - i,
    {
        out.push(src[i]);
        proof {
            assert(out@ =~= src@.take(i + 1 as int));
        }
        i = i + 1;
    }
    proof {
        assert(src@.take(src@.len() as int) =~= src@);
    }
    out
}

/// The preimage of the per-guardian derivation input: vault identifier,
/// email hash, and the bound identity when one is set.
pub open spec fn guardian_input_preimage(vault_id: u64, g: GuardianEntry) -> Seq<u8> {
    be_bytes(vault_id) + g.email_hash@ + match g.principal_id {
        Some(p) => p@,
        None => Seq::<u8>::empty(),
    }
}

/// The derivation input binding a derived key to one (vault, guardian) pair:
/// a digest over the vault identifier, the guardian's email hash, and its
/// bound identity. Two different guardians of one vault, or one guardian
/// across two vaults, never share it.
pub fn guardian_input(vault_id: u64, guardian: &GuardianEntry) -> (r: Vec<u8>)
    ensures
        r@ == sha256_of(guardian_input_preimage(vault_id, *guardian)),
        r@.len() == 32,
{
    let mut preimage = u64_be_bytes(vault_id);
    push_all(&mut preimage, &guardian.email_hash);
    match &guardian.principal_id {
        Some(p) => {
            push_all(&mut preimage, p);
        },
        None => {},
    }
    proof {
        if guardian.principal_id is None {
            assert(preimage@ =~= guardian_input_preimage(vault_id, *guardian));
        }
    }
    sha256_digest(preimage.as_slice())
}

/// The preimage of the deterministic transport key seed: domain tag, email
/// hash, vault identifier, and the bound identity when one is set.
pub open spec fn transport_seed_preimage(vault_id: u64, g: GuardianEntry) -> Seq<u8> {
    vetkey_transport_domain() + g.email_hash@ + be_bytes(vault_id) + match g.principal_id {
        Some(p) => p@,
        None => Seq::<u8>::empty(),
    }
}

/// The 32-byte seed of the one-time transport key pair for one (vault,
/// guardian) pair. The transport key only satisfies the oracle's requirement
/// of never sending the derived key in the clear; its secrecy is not
/// load-bearing.
pub fn transport_seed(vault_id: u64, guardian: &GuardianEntry) -> (r: Vec<u8>)
    ensures
        r@ == sha256_of(transport_seed_preimage(vault_id, *guardian)),
        r@.len() == 32,
{
    let mut material: Vec<u8> = Vec::new();
    push_all(&mut material, &slice_to_bytes("thresholdvault.transport.seed".as_bytes()));
    push_all(&mut material, &guardian.email_hash);
    let id = u64_be_bytes(vault_id);
    push_all(&mut material, &id);
    match &guardian.principal_id {
        Some(p) => {
            push_all(&mut material, p);
        },
        None => {},
    }
    proof {
        if guardian.principal_id is None {
            assert(material@ =~= transport_seed_preimage(vault_id, *guardian));
        }
    }
    sha256_digest(material.as_slice())
}

/// The stream-cipher seed drawn from the randomness oracle's reply: the
/// first 32 bytes when enough came back, else a domain-separated digest over
/// the tag and the raw bytes; an empty reply is refused.
pub fn rng_seed_from_random(random: &Vec<u8>) -> (r: Result<Vec<u8>, GuardianError>)
    ensures
        r is Err <==> random@.len() == 0,
        r is Err ==> r == Err::<Vec<u8>, GuardianError>(GuardianError::RandomnessUnavailable),
        r is Ok ==> r.unwrap()@.len() == 32,
        random@.len() >= 32 ==> r is Ok && r.unwrap()@ == random@.take(32),
        0 < random@.len() < 32 ==> r is Ok && r.unwrap()@ == sha256_of(rng_domain() + random@),
{
    if random.len() == 0 {
        return Err(GuardianError::RandomnessUnavailable);
    }
    if random.len() >= 32 {
        let mut seed: Vec<u8> = Vec::new();
        let mut i: usize = 0;
        while i < 32
            invariant
                i <= 32,
                random@.len() >= 32,
                seed@ == random@.take(i as int),
            decreases 32 - i,
        {
            seed.push(random[i]);
            proof {
                assert(seed@ =~= random@.take(i + 1 as int));
            }
            i = i + 1;
        }
        Ok(seed)
    } else {
        let mut material: Vec<u8> = Vec::new();
        push_all(&mut material, &slice_to_bytes("thresholdvault.guardian.rng".as_bytes()));
        push_all(&mut material, random);
        Ok(sha256_digest(material.as_slice()))
    }
}

#[verifier::external_type_specification]
#[verifier::external_body]
pub struct ExVetKey(ic_vetkeys::VetKey);

#[verifier::external_type_specification]
#[verifier::external_body]
pub struct ExDerivedKeyMaterial(ic_vetkeys::DerivedKeyMaterial);

#[verifier::external_type_specification]
#[verifier::external_body]
pub struct ExChaCha20Rng(rand_chacha::ChaCha20Rng);

/// The public half of the transport key pair grown from a 32-byte seed.
pub uninterp spec fn transport_pk_of(seed: Seq<u8>) -> Seq<u8>;

/// Relies on ic-vetkeys' `TransportSecretKey::from_seed` (any 32-byte seed
/// is accepted and determines the key) and `TransportSecretKey::public_key`
/// (the compressed 48-byte group element): the public key is a function of
/// the seed alone.
#[verifier::external_body]
fn transport_public_key_from_seed(seed: &Vec<u8>) -> (r: Vec<u8>)
    requires
        seed@.len() == 32,
    ensures
        r@ == transport_pk_of(seed@),
        r@.len() == 48,
{
    let key = ic_vetkeys::TransportSecretKey::from_seed(seed.clone()).expect("seed is 32 bytes");
    key.public_key()
}

/// The oracle's encrypted-key blob is well-formed, the derived public key is
/// well-formed, and the blob decrypts under the transport key grown from
/// `seed` into a key that verifies against them and `input`.
pub uninterp spec fn vetkey_unwraps(
    encrypted_key: Seq<u8>,
    derived_public_key: Seq<u8>,
    seed: Seq<u8>,
    input: Seq<u8>,
) -> bool;

/// Relies on ic-vetkeys' `TransportSecretKey::from_seed` (total on a 32-byte
/// seed), `EncryptedVetKey::deserialize` (exactly a 192-byte well-formed
/// blob), `DerivedPublicKey::deserialize` (exactly a 96-byte well-formed
/// key) and `EncryptedVetKey::decrypt_and_verify`: the whole chain is a
/// deterministic function of the four byte arguments, and yields the
/// verified key exactly when the blobs are well-formed and consistent.
#[verifier::external_body]
fn decrypt_and_verify_vetkey(
    seed: &Vec<u8>,
    encrypted_key: &Vec<u8>,
    derived_public_key: &Vec<u8>,
    input: &Vec<u8>,
) -> (r: Result<ic_vetkeys::VetKey, ()>)
    requires
        seed@.len() == 32,
    ensures
        r is Ok <==> vetkey_unwraps(encrypted_key@, derived_public_key@, seed@, input@),
{
    let transport = ic_vetkeys::TransportSecretKey::from_seed(seed.clone()).map_err(|_| ())?;
    let encrypted = ic_vetkeys::EncryptedVetKey::deserialize(encrypted_key.as_slice()).map_err(
        |_| (),
    )?;
    let derived = ic_vetkeys::DerivedPublicKey::deserialize(derived_public_key.as_slice()).map_err(
        |_| (),
    )?;
    encrypted.decrypt_and_verify(&transport, &derived, input.as_slice()).map_err(|_| ())
}

/// Relies on ic-vetkeys' `VetKey::as_derived_key_material`: symmetric key
/// material bound to the derived key.
#[verifier::external_body]
fn vetkey_key_material(key: &ic_vetkeys::VetKey) -> (r: ic_vetkeys::DerivedKeyMaterial) {
    key.as_derived_key_material()
}

/// Relies on rand_chacha's `ChaCha20Rng::from_seed`: a deterministic stream
/// cipher seeded by 32 bytes.
#[verifier::external_body]
fn chacha20_from_seed(seed: &Vec<u8>) -> (r: rand_chacha::ChaCha20Rng)
    requires
        seed@.len() == 32,
{
    let mut array = [0u8; 32];
    array.copy_from_slice(seed.as_slice());
    <rand_chacha::ChaCha20Rng as rand_chacha::rand_core::SeedableRng>::from_seed(array)
}

/// Relies on ic-vetkeys' `DerivedKeyMaterial::encrypt_message`: an
/// authenticated ciphertext of an 8-byte header, a 12-byte nonce, the
/// message, and a 16-byte tag; per its source, only a message beyond the
/// cipher's 64-gigabyte limit is refused.
#[verifier::external_body]
fn encrypt_message_with(
    material: &ic_vetkeys::DerivedKeyMaterial,
    message: &Vec<u8>,
    domain: &str,
    rng: &mut rand_chacha::ChaCha20Rng,
) -> (r: Result<Vec<u8>, ()>)
    ensures
        r is Ok ==> r.unwrap()@.len() == message@.len() + 36,
        message@.len() <= 0x100000 ==> r is Ok,
{
    material.encrypt_message(message.as_slice(), domain, &[], rng).map_err(|_| ())
}

/// Derives the one-time transport key pair for one (vault, guardian) pair
/// and returns its public half, which the key-derivation oracle needs.
pub fn transport_public_key_for_guardian(vault_id: u64, guardian: &GuardianEntry) -> (r: Vec<u8>)
    ensures
        r@ == transport_pk_of(sha256_of(transport_seed_preimage(vault_id, *guardian))),
        r@.len() == 48,
{
    let seed = transport_seed(vault_id, guardian);
    transport_public_key_from_seed(&seed)
}

/// Authenticate-encrypts a guardian's share under the key material the
/// oracle round trip produced: rebuilds the deterministic transport key,
/// decrypts and verifies the encrypted derived key against the derived
/// public key and the (vault, guardian) input, expands the oracle's
/// randomness into a stream-cipher seed, and encrypts under the fixed share
/// label. Any failure leaves the caller's state untouched.
pub fn encrypt_share_for_guardian(
    vault_id: u64,
    guardian: &GuardianEntry,
    share: &Vec<u8>,
    encrypted_key: &Vec<u8>,
    derived_public_key: &Vec<u8>,
    random: &Vec<u8>,
) -> (r: Result<Vec<u8>, GuardianError>)
    requires
        share@.len() <= MAX_SHARE_BYTES,
    ensures
        r is Ok <==> (random@.len() > 0 && vetkey_unwraps(
            encrypted_key@,
            derived_public_key@,
            sha256_of(transport_seed_preimage(vault_id, *guardian)),
            sha256_of(guardian_input_preimage(vault_id, *guardian)),
        )),
        r == Err::<Vec<u8>, GuardianError>(GuardianError::RandomnessUnavailable) <==> random@.len()
            == 0,
        r == Err::<Vec<u8>, GuardianError>(GuardianError::CryptoError) <==> (random@.len() > 0
            && !vetkey_unwraps(
            encrypted_key@,
            derived_public_key@,
            sha256_of(transport_seed_preimage(vault_id, *guardian)),
            sha256_of(guardian_input_preimage(vault_id, *guardian)),
        )),
        r is Ok ==> r.unwrap()@.len() == share@.len() + 36,
{
    let rng_seed = match rng_seed_from_random(random) {
        Ok(s) => s,
        Err(e) => {
            return Err(e);
        },
    };
    let seed = transport_seed(vault_id, guardian);
    let input = guardian_input(vault_id, guardian);
    let vetkey = match decrypt_and_verify_vetkey(&seed, encrypted_key, derived_public_key, &input) {
        Ok(v) => v,
        Err(_) => {
            return Err(GuardianError::CryptoError);
        },
    };
    let material = vetkey_key_material(&vetkey);
    let mut rng = chacha20_from_seed(&rng_seed);
    match encrypt_message_with(&material, share, SHARE_ENCRYPTION_DOMAIN, &mut rng) {
        Ok(ciphertext) => Ok(ciphertext),
        Err(_) => Err(GuardianError::CryptoError),
    }
}

} // verus!
