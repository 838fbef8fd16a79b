use gpg_bridge::AgentMeta;
use gpg_bridge::BridgeError;
use gpg_bridge::TokenPool;

#[test]
fn pool_hands_out_four_distinct_masks() {
    let mut pool = TokenPool::new();
    let m1 = pool.find_available_token();
    let m2 = pool.find_available_token();
    let m3 = pool.find_available_token();
    let m4 = pool.find_available_token();
    let mut masks = vec![m1, m2, m3, m4];
    masks.sort();
    assert_eq!(masks, vec![1, 2, 4, 8]);
    assert_eq!(pool.bits, 0x0F);
}

#[test]
fn released_mask_has_its_bit_cleared_and_is_reused() {
    let mut pool = TokenPool::new();
    let m1 = pool.find_available_token();
    let m2 = pool.find_available_token();
    assert_eq!((m1, m2), (1, 2));
    pool.release_token(m1);
    assert_eq!(pool.bits & m1, 0);
    assert_eq!(pool.bits, 2);
    let m3 = pool.find_available_token();
    assert_eq!(m3, 1);
}

#[test]
fn pool_allocates_lowest_free_bit() {
    let mut pool = TokenPool::new();
    for _ in 0..4 {
        pool.find_available_token();
    }
    pool.release_token(4);
    assert_eq!(pool.bits, 0x0B);
    assert_eq!(pool.find_available_token(), 4);
    assert_eq!(pool.bits, 0x0F);
}

fn assuan_file(prefix: &[u8], nonce: &[u8]) -> Vec<u8> {
    let mut v = prefix.to_vec();
    v.extend_from_slice(nonce);
    v
}

#[test]
fn cache_reloads_after_invalidation() {
    // A failed connection drops the cached endpoint; the next load sees
    // whatever the file holds by then.
    let file_a = assuan_file(b"1000\n", &[1; 16]);
    let file_b = assuan_file(b"2000\n", &[2; 16]);
    let mut meta = AgentMeta::new(None);
    assert!(meta.needs_load());
    meta.load_endpoint(&file_a).unwrap();
    assert!(!meta.needs_load());
    assert_eq!(meta.endpoint().unwrap().port, 1000);
    meta.invalidate();
    assert!(meta.needs_load());
    meta.load_endpoint(&file_b).unwrap();
    let ep = meta.endpoint().unwrap();
    assert_eq!(ep.port, 2000);
    assert_eq!(ep.nonce, vec![2; 16]);
}

#[test]
fn cache_holds_nothing_after_failed_load() {
    let good = assuan_file(b"4170\n", &[7; 16]);
    let mut meta = AgentMeta::new(None);
    meta.load_endpoint(&good).unwrap();
    let bad = b"not a rendezvous file".to_vec();
    let e = meta.load_endpoint(&bad).unwrap_err();
    assert!(matches!(e, BridgeError::InvalidData(_)));
    assert!(meta.needs_load());
    assert!(meta.endpoint().is_none());
}

#[test]
fn cache_keeps_preset_path() {
    let mut meta = AgentMeta::new(Some("C:\\gnupg\\S.gpg-agent.extra".to_string()));
    assert!(meta.has_path());
    meta.invalidate();
    assert!(meta.has_path());
    let mut other = AgentMeta::new(None);
    assert!(!other.has_path());
    other.set_path("C:\\gnupg\\S.gpg-agent.ssh".to_string());
    assert!(other.has_path());
}
