use ckb_bench::signing::{account_lock_arg, derive_worker_key, lock_arg, sighash_message, sign_witness};
use ckb_crypto::secp::{Privkey, Signature};
use ckb_types::packed::WitnessArgs;
use ckb_types::prelude::{Builder, Entity, Pack};

fn key() -> [u8; 32] {
    let mut k = [0u8; 32];
    k[31] = 7;
    k
}

#[test]
fn sighash_layout() {
    let m = sighash_message(&[1u8; 32], &vec![9, 9]);
    let mut expected = vec![1u8; 32];
    expected.extend_from_slice(&[2, 0, 0, 0, 0, 0, 0, 0]);
    expected.extend_from_slice(&[9, 9]);
    assert_eq!(m, expected);
    let long = sighash_message(&[0u8; 32], &vec![0u8; 300]);
    assert_eq!(&long[32..40], &[44, 1, 0, 0, 0, 0, 0, 0]);
}

#[test]
fn lock_arg_of_empty_key_is_prefix_of_blank_hash() {
    assert_eq!(lock_arg(&vec![]), ckb_hash::BLANK_HASH[..20].to_vec());
}

#[test]
fn account_lock_arg_matches_pubkey_hash() {
    let k = key();
    let pubkey = Privkey::from_slice(&k).pubkey().unwrap().serialize();
    assert_eq!(pubkey.len(), 33);
    let arg = account_lock_arg(&k).unwrap();
    assert_eq!(arg, ckb_hash::blake2b_256(&pubkey)[..20].to_vec());
    assert!(account_lock_arg(&[0u8; 32]).is_none());
}

#[test]
fn witness_carries_a_signature_that_recovers_the_key() {
    let k = key();
    let tx_hash = [5u8; 32];
    let witness = sign_witness(&k, &tx_hash).unwrap();
    assert_eq!(witness.len(), 85);
    assert_eq!(&witness[0..4], &[85, 0, 0, 0]);
    let args = WitnessArgs::from_slice(&witness).unwrap();
    let lock = args.lock().to_opt().unwrap().raw_data();
    assert_eq!(lock.len(), 65);
    let placeholder = WitnessArgs::new_builder()
        .lock(Some(ckb_types::bytes::Bytes::from(vec![0u8; 65])).pack())
        .build()
        .as_bytes()
        .to_vec();
    let message = ckb_hash::blake2b_256(sighash_message(&tx_hash, &placeholder));
    let signature = Signature::from_slice(&lock).unwrap();
    let recovered = signature.recover(&ckb_types::H256(message)).unwrap();
    assert_eq!(recovered, Privkey::from_slice(&k).pubkey().unwrap());
    assert!(sign_witness(&[0u8; 32], &tx_hash).is_none());
}

#[test]
fn worker_keys_hash_root_and_index() {
    let root = [3u8; 32];
    let mut data = root.to_vec();
    data.extend_from_slice(&[1, 0, 0, 0, 0, 0, 0, 0]);
    assert_eq!(derive_worker_key(&root, 1), ckb_hash::blake2b_256(&data));
    assert_ne!(derive_worker_key(&root, 0), derive_worker_key(&root, 1));
}

const ORDER: [u8; 32] = [
    0xff, 0xff, 0xff, 0xff, 0xff, 0xff, 0xff, 0xff, 0xff, 0xff, 0xff, 0xff, 0xff, 0xff, 0xff, 0xfe,
    0xba, 0xae, 0xdc, 0xe6, 0xaf, 0x48, 0xa0, 0x3b, 0xbf, 0xd2, 0x5e, 0x8c, 0xd0, 0x36, 0x41, 0x41,
];

#[test]
fn keys_valid_below_the_group_order() {
    let mut below = ORDER;
    below[31] = 0x40;
    assert!(sign_witness(&below, &[1u8; 32]).is_some());
    assert!(account_lock_arg(&below).is_some());
    assert!(sign_witness(&ORDER, &[1u8; 32]).is_none());
    assert!(account_lock_arg(&ORDER).is_none());
    assert!(account_lock_arg(&[0xffu8; 32]).is_none());
}

#[test]
fn witness_layout() {
    let w = sign_witness(&key(), &[2u8; 32]).unwrap();
    assert_eq!(&w[..20], &[85, 0, 0, 0, 16, 0, 0, 0, 85, 0, 0, 0, 85, 0, 0, 0, 65, 0, 0, 0]);
}
