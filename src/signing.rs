//! Signing a transaction's input the way the default lock expects: the witness is a
//! `WitnessArgs` whose lock holds a recoverable secp256k1 signature over the hash of
//! the transaction hash, the placeholder witness's length and the placeholder itself.
use ckb_crypto::secp::Privkey;
use ckb_types::prelude::{Builder, Entity, Pack};
use vstd::prelude::*;

verus! {

/// The length of a recoverable signature: r, s and the recovery id.
pub const SIGNATURE_LEN: usize = 65;

/// The length of a lock argument: the first bytes of the hash of a public key.
pub const LOCK_ARG_LEN: usize = 20;

/// The CKB default hash (blake2b-256, personalised) of some bytes.
pub uninterp spec fn ckb_hash_of(data: Seq<u8>) -> Seq<u8>;

/// The recoverable signature that a secret key makes of a 32-byte message.
pub uninterp spec fn signature_of(key: Seq<u8>, message: Seq<u8>) -> Seq<u8>;

/// The compressed public key of a secret key.
pub uninterp spec fn pubkey_of(key: Seq<u8>) -> Seq<u8>;

/// The serialized `WitnessArgs` whose lock is the given bytes, with no input or output
/// type: a molecule table of three fields, that is its total size, the offsets of the
/// three fields (the two absent ones empty, at the end), then the lock as a length and
/// its bytes, every number a little-endian `u32`.
pub open spec fn witness_args_of(lock: Seq<u8>) -> Seq<u8> {
    let total = lock.len() + 20;
    le_bytes(total, 4) + le_bytes(16, 4) + le_bytes(total, 4) + le_bytes(total, 4) + le_bytes(
        lock.len(),
        4,
    ) + lock
}

/// The value of bytes read as a big-endian number.
pub open spec fn be_value(s: Seq<u8>) -> nat
    decreases s.len(),
{
    if s.len() == 0 {
        0
    } else {
        be_value(s.drop_last()) * 256 + s.last() as nat
    }
}

/// The order of the secp256k1 group.
pub open spec fn secp256k1_order() -> nat {
    0xFFFF_FFFF_FFFF_FFFF_FFFF_FFFF_FFFF_FFFE_BAAE_DCE6_AF48_A03B_BFD2_5E8C_D036_4141nat
}

/// A secret key that secp256k1 accepts: read big-endian, at least one and below the
/// group order.
pub open spec fn valid_secret_key(key: Seq<u8>) -> bool {
    0 < be_value(key) < secp256k1_order()
}

/// Relies on ckb_hash::blake2b_256: the digest depends on the bytes alone.
#[verifier::external_body]
fn ckb_hash(data: &Vec<u8>) -> (r: [u8; 32])
    ensures
        r@ == ckb_hash_of(data@),
{
    ckb_hash::blake2b_256(data.as_slice())
}

/// Relies on ckb_crypto's Privkey::sign_recoverable (RFC 6979 nonces, so the result
/// depends on the key and message alone) and Signature::serialize (65 bytes). It fails
/// exactly where secp256k1's SecretKey::from_slice refuses the key; any 32 bytes make a
/// message.
#[verifier::external_body]
fn sign_recoverable(key: &[u8; 32], message: &[u8; 32]) -> (r: Option<Vec<u8>>)
    ensures
        r is Some <==> valid_secret_key(key@),
        r is Some ==> r->Some_0@ == signature_of(key@, message@) && r->Some_0@.len()
            == SIGNATURE_LEN,
{
    let privkey = Privkey::from_slice(&key[..]);
    let message = ckb_types::H256(*message);
    match privkey.sign_recoverable(&message) {
        Ok(signature) => Some(signature.serialize()),
        Err(_) => None,
    }
}

/// Relies on ckb_crypto's Privkey::pubkey and Pubkey::serialize: the compressed key, 33
/// bytes. It fails exactly where secp256k1's SecretKey::from_slice refuses the key.
#[verifier::external_body]
fn compressed_pubkey(key: &[u8; 32]) -> (r: Option<Vec<u8>>)
    ensures
        r is Some <==> valid_secret_key(key@),
        r is Some ==> r->Some_0@ == pubkey_of(key@) && r->Some_0@.len() == 33,
{
    match Privkey::from_slice(&key[..]).pubkey() {
        Ok(pubkey) => Some(pubkey.serialize()),
        Err(_) => None,
    }
}

/// Relies on ckb_types' WitnessArgs builder and its molecule serialization; lengths are
/// written as `u32`, so the lock must leave room for the header.
#[verifier::external_body]
fn witness_args(lock: &Vec<u8>) -> (r: Vec<u8>)
    requires
        lock@.len() + 20 <= u32::MAX,
    ensures
        r@ == witness_args_of(lock@),
{
    let lock = Some(ckb_types::bytes::Bytes::from(lock.clone())).pack();
    ckb_types::packed::WitnessArgs::new_builder().lock(lock).build().as_bytes().to_vec()
}

/// The little-endian bytes of `n`, `k` of them.
pub open spec fn le_bytes(n: nat, k: nat) -> Seq<u8>
    decreases k,
{
    if k == 0 {
        Seq::empty()
    } else {
        seq![(n % 256) as u8] + le_bytes(n / 256, (k - 1) as nat)
    }
}

proof fn lemma_le_bytes_len(n: nat, k: nat)
    ensures
        le_bytes(n, k).len() == k,
    decreases k,
{
    if k > 0 {
        lemma_le_bytes_len(n / 256, (k - 1) as nat);
    }
}

/// What the default lock hashes for its signature: the transaction hash, the length of
/// the placeholder witness as eight little-endian bytes, and the placeholder.
pub open spec fn sighash_preimage(tx_hash: Seq<u8>, witness: Seq<u8>) -> Seq<u8> {
    tx_hash + le_bytes(witness.len(), 8) + witness
}

/// The placeholder witness: a `WitnessArgs` whose lock is all zeros.
pub open spec fn placeholder_witness() -> Seq<u8> {
    witness_args_of(Seq::new(SIGNATURE_LEN as nat, |i: int| 0u8))
}

/// The witness that signs a transaction with hash `tx_hash` using `key`.
pub open spec fn signed_witness(key: Seq<u8>, tx_hash: Seq<u8>) -> Seq<u8> {
    witness_args_of(
        signature_of(key, ckb_hash_of(sighash_preimage(tx_hash, placeholder_witness()))),
    )
}

/// Appends `n` as eight little-endian bytes.
fn push_le_u64(out: &mut Vec<u8>, n: u64)
    ensures
        final(out)@ == old(out)@ + le_bytes(n as nat, 8),
{
    let ghost start = out@;
    let mut v: u64 = n;
    let mut k: usize = 0;
    while k < 8
        invariant
            k <= 8,
            out@ + le_bytes(v as nat, (8 - k) as nat) == start + le_bytes(n as nat, 8),
        decreases 8 - k,
    {
        let ghost before = out@;
        out.push((v % 256) as u8);
        proof {
            assert(before + (seq![(v % 256) as u8] + le_bytes((v / 256) as nat, (8 - k - 1) as nat))
                =~= out@ + le_bytes((v / 256) as nat, (8 - k - 1) as nat));
        }
        v = v / 256;
        k = k + 1;
    }
    proof {
        assert(out@ + le_bytes(v as nat, 0) =~= out@);
    }
}

/// Lays out the bytes that the default lock hashes for its signature.
pub fn sighash_message(tx_hash: &[u8; 32], witness: &Vec<u8>) -> (r: Vec<u8>)
    ensures
        r@ == sighash_preimage(tx_hash@, witness@),
{
    let mut r: Vec<u8> = Vec::new();
    let mut i: usize = 0;
    while i < 32
        invariant
            i <= 32,
            r@ =~= tx_hash@.subrange(0, i as int),
        decreases 32 - i,
    {
        r.push(tx_hash[i]);
        i = i + 1;
    }
    proof {
        assert(r@ =~= tx_hash@);
    }
    push_le_u64(&mut r, witness.len() as u64);
    let mut j: usize = 0;
    let ghost head = r@;
    while j < witness.len()
        invariant
            j <= witness@.len(),
            head == tx_hash@ + le_bytes(witness@.len(), 8),
            r@ =~= head + witness@.subrange(0, j as int),
        decreases witness@.len() - j,
    {
        r.push(witness[j]);
        j = j + 1;
    }
    assert(r@ =~= head + witness@);
    r
}

/// Makes the witness that signs the transaction with hash `tx_hash` for an input locked
/// by `key`. Gives nothing exactly where the key is not a valid secret key.
pub fn sign_witness(key: &[u8; 32], tx_hash: &[u8; 32]) -> (r: Option<Vec<u8>>)
    ensures
        r is Some <==> valid_secret_key(key@),
        r is Some ==> r->Some_0@.len() == 85,
        r is Some ==> r->Some_0@ == signed_witness(key@, tx_hash@),
{
    let zeros: Vec<u8> = vec![0u8; SIGNATURE_LEN];
    assert(zeros@ =~= Seq::new(SIGNATURE_LEN as nat, |i: int| 0u8));
    let placeholder = witness_args(&zeros);
    let preimage = sighash_message(tx_hash, &placeholder);
    let message = ckb_hash(&preimage);
    match sign_recoverable(key, &message) {
        Some(signature) => {
            proof {
                lemma_le_bytes_len(85, 4);
                lemma_le_bytes_len(16, 4);
                lemma_le_bytes_len(65, 4);
            }
            Some(witness_args(&signature))
        },
        None => None,
    }
}

/// The lock argument of a public key: the first twenty bytes of its hash.
pub open spec fn lock_arg_of_pubkey(pubkey: Seq<u8>) -> Seq<u8> {
    ckb_hash_of(pubkey).subrange(0, LOCK_ARG_LEN as int)
}

/// Computes the lock argument of a public key.
pub fn lock_arg(pubkey: &Vec<u8>) -> (r: Vec<u8>)
    ensures
        r@ == lock_arg_of_pubkey(pubkey@),
{
    let h = ckb_hash(pubkey);
    let mut r: Vec<u8> = Vec::new();
    let mut i: usize = 0;
    while i < LOCK_ARG_LEN
        invariant
            i <= LOCK_ARG_LEN,
            h@.len() == 32,
            r@ =~= h@.subrange(0, i as int),
        decreases LOCK_ARG_LEN - i,
    {
        r.push(h[i]);
        i = i + 1;
    }
    r
}

/// Computes the lock argument of the account that a secret key controls. Gives nothing
/// exactly where the key is not a valid secret key.
pub fn account_lock_arg(key: &[u8; 32]) -> (r: Option<Vec<u8>>)
    ensures
        r is Some <==> valid_secret_key(key@),
        r is Some ==> r->Some_0@ == lock_arg_of_pubkey(pubkey_of(key@)),
{
    match compressed_pubkey(key) {
        Some(p) => Some(lock_arg(&p)),
        None => None,
    }
}

/// The secret key of the `index`-th worker: the hash of the root key followed by the
/// index as eight little-endian bytes.
pub open spec fn worker_key_of(root: Seq<u8>, index: nat) -> Seq<u8> {
    ckb_hash_of(root + le_bytes(index, 8))
}

/// Derives the secret key of the `index`-th worker account from the root account's.
pub fn derive_worker_key(root: &[u8; 32], index: u64) -> (r: [u8; 32])
    ensures
        r@ == worker_key_of(root@, index as nat),
{
    let mut data: Vec<u8> = Vec::new();
    let mut i: usize = 0;
    while i < 32
        invariant
            i <= 32,
            data@ =~= root@.subrange(0, i as int),
        decreases 32 - i,
    {
        data.push(root[i]);
        i = i + 1;
    }
    proof {
        assert(data@ =~= root@);
    }
    push_le_u64(&mut data, index);
    ckb_hash(&data)
}

} // verus!
