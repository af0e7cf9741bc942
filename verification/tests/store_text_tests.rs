use signer_core::store::ChunkStore;
use signer_core::text::{render_dec, render_hex};
use signer_core::dispatch::{get_address_prompting_and_example_apdu, Device, ParsersState};
use signer_core::interface::Reply;
use sha2::Digest;

#[test]
fn store_round_trip() {
    let mut st = ChunkStore::new();
    let data = b"a chunk worth stashing".to_vec();
    let h = st.put(data.clone());
    assert_eq!(st.get(&h), Some(data.clone()));

    // The handle is the content hash.
    let expect: [u8; 32] = sha2::Sha256::digest(&data).into();
    assert_eq!(h, expect.to_vec());
}

#[test]
fn store_round_trip_empty_and_large() {
    let mut st = ChunkStore::new();
    let h = st.put(Vec::new());
    assert_eq!(st.get(&h), Some(Vec::new()));
    let big = vec![0xabu8; 4096];
    let h = st.put(big.clone());
    assert_eq!(st.get(&h), Some(big));
}

#[test]
fn store_misses_on_wrong_handle() {
    let mut st = ChunkStore::new();
    assert_eq!(st.get(&vec![0u8; 32]), None);
    let h = st.put(b"abc".to_vec());
    let mut wrong = h.clone();
    wrong[0] ^= 1;
    assert_eq!(st.get(&wrong), None);
}

#[test]
fn store_holds_one_entry_at_a_time() {
    let mut st = ChunkStore::new();
    let h1 = st.put(b"first".to_vec());
    let h2 = st.put(b"second".to_vec());
    assert_eq!(st.get(&h1), None);
    assert_eq!(st.get(&h2), Some(b"second".to_vec()));
    st.clear();
    assert_eq!(st.get(&h2), None);
}

#[test]
fn reveal_example_replays_the_stashed_reply() {
    let mut dev = Device::new(vec![0x42u8; 32]);
    let mut path = vec![1u8];
    path.extend_from_slice(&0x8000002Cu32.to_le_bytes());

    let mut state = ParsersState::NoState;
    std::mem::swap(&mut state, &mut dev.state);
    let r = get_address_prompting_and_example_apdu(&mut state, &mut dev.store, &dev.seed, &path);
    match r {
        Reply::Replied { writes } => {
            assert_eq!(writes.len(), 2);
            assert_eq!(writes[0].len(), 131);
            assert!(writes[1].is_empty());
            // The stash now answers to the reply's content hash.
            let h: [u8; 32] = sha2::Sha256::digest(&writes[0]).into();
            assert_eq!(dev.store.get(&h.to_vec()), Some(writes[0].clone()));
        },
        _ => panic!("expected a replayed reply"),
    }
}

#[test]
fn decimal_rendering_exact() {
    assert_eq!(render_dec(0), b"0".to_vec());
    assert_eq!(render_dec(7), b"7".to_vec());
    assert_eq!(render_dec(10), b"10".to_vec());
    assert_eq!(render_dec(1234567890), b"1234567890".to_vec());
    assert_eq!(render_dec(u64::MAX), b"18446744073709551615".to_vec());
}

#[test]
fn hex_rendering_exact() {
    assert_eq!(render_hex(&Vec::new()), Vec::<u8>::new());
    assert_eq!(render_hex(&vec![0x00, 0x0f, 0xa5, 0xff]), b"000fa5ff".to_vec());
}
