use stratum_proxy::payload::{Transaction, TxOut};
use stratum_proxy::pool::PoolShare;
use stratum_proxy::sample_pool::{
    check_share, client_coinbase_postfix, coinbase_pays_pool, double_sha256, le64_to_array,
    merkle_root, share_block_hash, share_client_id, share_target, slice_to_le64, ShareVerdict,
};

fn unhex(s: &str) -> Vec<u8> {
    let digits: Vec<u8> = s.bytes().map(|c| (c as char).to_digit(16).unwrap() as u8).collect();
    digits.chunks(2).map(|pair| pair[0] * 16 + pair[1]).collect()
}

fn hash32(s: &str) -> [u8; 32] {
    let mut out = [0u8; 32];
    out.copy_from_slice(&unhex(s));
    out
}

fn genesis_share() -> PoolShare {
    let mut raw: Vec<u8> = vec![1, 0, 0, 0, 1];
    raw.extend_from_slice(&[0u8; 32]);
    raw.extend_from_slice(&[0xff, 0xff, 0xff, 0xff, 0]);
    raw.extend_from_slice(&[0xff, 0xff, 0xff, 0xff, 1]);
    raw.extend_from_slice(&[0u8; 8]);
    raw.extend_from_slice(&[0, 0, 0, 0, 0]);
    PoolShare {
        header_version: 1,
        header_prevblock: [0; 32],
        header_time: 1_231_006_505,
        header_nbits: 0x1d00_ffff,
        header_nonce: 2_083_236_893,
        merkle_rhss: vec![],
        coinbase_tx: Transaction::from_raw(raw).unwrap(),
    }
}

fn genesis_txid() -> [u8; 32] {
    hash32("3ba3edfd7a7b12b27ac72c3e67768f617fc81bc3888a51323a9fb8aa4b1e5e4a")
}

#[test]
fn the_share_target_is_difficulty_65536() {
    let target = share_target();
    let mut expected = [0u8; 32];
    expected[24] = 0xff;
    expected[25] = 0xff;
    assert_eq!(target, expected);
}

#[test]
fn le64_to_array_inverts_slice_to_le64() {
    assert_eq!(le64_to_array(0x0102_0304_0506_0708), [8, 7, 6, 5, 4, 3, 2, 1]);
    assert_eq!(slice_to_le64(&le64_to_array(u64::MAX - 3)), u64::MAX - 3);
    assert_eq!(slice_to_le64(&[1, 0, 0, 0, 0, 0, 0, 0x80, 0xff]), 0x8000_0000_0000_0001);
}

#[test]
fn the_postfix_is_client_id_then_server_id() {
    assert_eq!(
        client_coinbase_postfix(0x0201, b"srv"),
        vec![1, 2, 0, 0, 0, 0, 0, 0, b's', b'r', b'v']
    );
    assert_eq!(client_coinbase_postfix(7, b""), vec![7, 0, 0, 0, 0, 0, 0, 0]);
}

#[test]
fn the_client_is_read_from_the_end_of_the_coinbase() {
    let mut coinbase: Vec<u8> = vec![3, 0xaa, 0xbb, 0xcc];
    coinbase.extend_from_slice(&client_coinbase_postfix(0xdead_beef, b"pool-1"));
    assert_eq!(share_client_id(&coinbase, b"pool-1"), Some(0xdead_beef));
    assert_eq!(share_client_id(&coinbase, b"pool-2"), None);
    assert_eq!(share_client_id(&coinbase[..coinbase.len() - 1], b"pool-1"), None);
    assert_eq!(share_client_id(&coinbase[4..], b"pool-1"), Some(0xdead_beef));
    assert_eq!(share_client_id(&coinbase[5..], b"pool-1"), None);
    assert_eq!(share_client_id(&[1, 2, 3, 4, 5, 6, 7], b""), None);
    assert_eq!(share_client_id(&[9, 1, 0, 0, 0, 0, 0, 0, 0], b""), Some(1));
}

#[test]
fn a_coinbase_pays_the_pool_first_and_nobody_else() {
    let pool = vec![0x51u8];
    let pays = |value: u64, script: u8| TxOut { value, script_pubkey: vec![script] };
    assert!(coinbase_pays_pool(&vec![pays(50, 0x51)], &pool));
    assert!(coinbase_pays_pool(&vec![pays(50, 0x51), pays(0, 0x6a), pays(0, 0x52)], &pool));
    assert!(!coinbase_pays_pool(&vec![], &pool));
    assert!(!coinbase_pays_pool(&vec![pays(50, 0x52)], &pool));
    assert!(!coinbase_pays_pool(&vec![pays(50, 0x51), pays(0, 0x6a), pays(1, 0x51)], &pool));
}

#[test]
fn double_sha256_is_sha256_twice() {
    assert_eq!(
        double_sha256(&[]).to_vec(),
        unhex("5df6e0e2761359d30a8275058e299fcc0381534545f55cf43e41983f5d4c9456")
    );
}

#[test]
fn a_merkle_path_is_hashed_left_to_right() {
    let leaf = [1u8; 32];
    assert_eq!(merkle_root(leaf, &vec![]), leaf);
    let rhs = [2u8; 32];
    let mut both = leaf.to_vec();
    both.extend_from_slice(&rhs);
    let one = double_sha256(&both);
    assert_eq!(merkle_root(leaf, &vec![rhs]), one);
    let mut next = one.to_vec();
    next.extend_from_slice(&[3u8; 32]);
    assert_eq!(merkle_root(leaf, &vec![rhs, [3u8; 32]]), double_sha256(&next));
}

#[test]
fn the_genesis_header_hashes_to_the_genesis_block_hash() {
    let hash = share_block_hash(&genesis_share(), genesis_txid());
    assert_eq!(
        hash.to_vec(),
        unhex("6fe28c0ab6f1b372c1a6a246ae63f74f931e8365e15a089c68d6190000000000")
    );
}

#[test]
fn a_share_is_judged_by_coinbase_payout_and_hash() {
    let share = genesis_share();
    let pool_script = vec![0x51u8];
    let outputs = vec![TxOut { value: 5_000_000_000, script_pubkey: pool_script.clone() }];
    let mut script: Vec<u8> = vec![4, 0xff, 0xff, 0, 0x1d];
    script.extend_from_slice(&client_coinbase_postfix(42, b"id"));
    let verdict = |inputs: usize, script: &[u8], outputs: &Vec<TxOut>, target: &[u8; 32]| {
        check_share(&share, genesis_txid(), inputs, script, outputs, b"id", &pool_script, target)
    };
    let mut target = [0u8; 32];
    target[26] = 0xff;
    target[27] = 0xff;
    assert_eq!(verdict(1, &script, &outputs, &target), ShareVerdict::Valid { client_id: 42 });
    assert_eq!(verdict(2, &script, &outputs, &target), ShareVerdict::BadCoinbase);
    assert_eq!(verdict(1, &script, &vec![], &target), ShareVerdict::BadCoinbase);
    assert_eq!(verdict(1, &script[..9], &outputs, &target), ShareVerdict::MissingPostfix);
    let elsewhere = vec![TxOut { value: 1, script_pubkey: vec![0x52] }];
    assert_eq!(verdict(1, &script, &elsewhere, &target), ShareVerdict::WrongPayout);
    assert_eq!(
        verdict(1, &script, &outputs, &share_target()),
        ShareVerdict::MissedTarget { client_id: 42 }
    );
}
