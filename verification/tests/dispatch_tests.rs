use signer_core::dispatch::{handle_apdu_async, reset_parsers_state, Device};
use signer_core::interface::{status_word, AppError, Command, Ins, Reply};
use sha2::Digest;

fn seed() -> Vec<u8> {
    vec![0x42u8; 32]
}

fn cmd(ins: u8, p1: u8, data: Option<Vec<u8>>) -> Command {
    Command { ins, p1, params: data.into_iter().collect() }
}

fn path_bytes() -> Vec<u8> {
    let mut p = vec![2u8];
    p.extend_from_slice(&0x8000002Cu32.to_le_bytes());
    p.extend_from_slice(&0x80000000u32.to_le_bytes());
    p
}

#[test]
fn instruction_decoding() {
    assert!(matches!(Ins::try_from(0x00), Ok(Ins::GetVersion)));
    assert!(matches!(Ins::try_from(0x02), Ok(Ins::GetPubkey)));
    assert!(matches!(Ins::try_from(0x03), Ok(Ins::Sign)));
    assert!(matches!(Ins::try_from(0xfe), Ok(Ins::GetVersionStr)));
    assert!(matches!(Ins::try_from(0xff), Ok(Ins::Exit)));
    assert!(Ins::try_from(0x01).is_err());
    assert!(Ins::try_from(0x05).is_err());
}

#[test]
fn status_words() {
    assert_eq!(status_word(AppError::TransportEmpty), 0x6982);
    assert_eq!(status_word(AppError::Malformed), 0x6d00);
    assert_eq!(status_word(AppError::UntrustedTemplate), 0x6d00);
    assert_eq!(status_word(AppError::UserRejected), 0x6d00);
    assert_eq!(status_word(AppError::UnknownInstruction), 0x6d00);
}

#[test]
fn unknown_instruction_fails() {
    let mut dev = Device::new(seed());
    let r = handle_apdu_async(&mut dev, &cmd(0x05, 0, None));
    assert!(matches!(r, Reply::Failed { err: AppError::UnknownInstruction }));
}

#[test]
fn get_version_replies_triple() {
    let mut dev = Device::new(seed());
    match handle_apdu_async(&mut dev, &cmd(0x00, 0, None)) {
        Reply::Replied { writes } => assert_eq!(writes, vec![vec![0u8, 1, 0]]),
        _ => panic!("expected version reply"),
    }
    match handle_apdu_async(&mut dev, &cmd(0xfe, 0, None)) {
        Reply::Replied { writes } => assert_eq!(writes, vec![b"0.1.0".to_vec()]),
        _ => panic!("expected version string reply"),
    }
}

#[test]
fn exit_requests_app_exit() {
    let mut dev = Device::new(seed());
    assert!(matches!(handle_apdu_async(&mut dev, &cmd(0xff, 0, None)), Reply::AppExit));
}

#[test]
fn empty_payload_yields_nothing_received() {
    let mut dev = Device::new(seed());
    let r = handle_apdu_async(&mut dev, &cmd(0x02, 0, None));
    assert!(matches!(r, Reply::Failed { err: AppError::TransportEmpty }));
    let r = handle_apdu_async(&mut dev, &cmd(0x02, 0, Some(Vec::new())));
    assert!(matches!(r, Reply::Failed { err: AppError::TransportEmpty }));
    let r = handle_apdu_async(&mut dev, &cmd(0x03, 0, None));
    assert!(matches!(r, Reply::Failed { err: AppError::TransportEmpty }));
}

fn get_pubkey_reply(dev: &mut Device) -> Vec<u8> {
    match handle_apdu_async(dev, &cmd(0x02, 0, Some(path_bytes()))) {
        Reply::Replied { mut writes } => writes.pop().unwrap(),
        r => panic!("expected a reply, got {:?}", std::mem::discriminant(&r)),
    }
}

#[test]
fn get_pubkey_reply_layout_matches_direct_derivation() {
    let mut dev = Device::new(seed());
    let rv = get_pubkey_reply(&mut dev);
    assert_eq!(rv.len(), 1 + 65 + 1 + 64);
    assert_eq!(rv[0], 65);
    let pk = &rv[1..66];
    assert_eq!(rv[66], 64);
    let addr = &rv[67..131];

    // Direct derivation with the crates the library wraps.
    let mut dp = bip32::DerivationPath::default();
    dp.extend([bip32::ChildNumber(0x8000002C), bip32::ChildNumber(0x80000000)]);
    let xprv = bip32::XPrv::derive_from_path(seed(), &dp).unwrap();
    let sk = k256::ecdsa::SigningKey::from_slice(&xprv.to_bytes()).unwrap();
    let expected_pk = sk.verifying_key().to_encoded_point(false);
    assert_eq!(pk, expected_pk.as_bytes());

    let h: [u8; 32] = sha2::Sha256::digest(pk).into();
    let hex: String = h.iter().map(|b| format!("{b:02x}")).collect();
    assert_eq!(addr, hex.as_bytes());
}

#[test]
fn get_pubkey_twice_is_byte_identical() {
    let mut dev = Device::new(seed());
    let a = get_pubkey_reply(&mut dev);
    let b = get_pubkey_reply(&mut dev);
    assert_eq!(a, b);
}

#[test]
fn get_pubkey_differs_for_other_path() {
    let mut dev = Device::new(seed());
    let a = get_pubkey_reply(&mut dev);
    let mut other = vec![1u8];
    other.extend_from_slice(&0x80000001u32.to_le_bytes());
    let b = match handle_apdu_async(&mut dev, &cmd(0x02, 0, Some(other))) {
        Reply::Replied { mut writes } => writes.pop().unwrap(),
        _ => panic!("expected a reply"),
    };
    assert_ne!(a, b);
}

#[test]
fn get_pubkey_chunked_equals_one_shot() {
    let data = path_bytes();
    let mut dev = Device::new(seed());
    let whole = get_pubkey_reply(&mut dev);

    for cut in 1..data.len() - 1 {
        let mut dev = Device::new(seed());
        let (a, b) = data.split_at(cut);
        let r = handle_apdu_async(&mut dev, &cmd(0x02, 0, Some(a.to_vec())));
        assert!(matches!(r, Reply::MoreNeeded), "cut {cut}");
        match handle_apdu_async(&mut dev, &cmd(0x02, 0, Some(b.to_vec()))) {
            Reply::Replied { mut writes } => assert_eq!(writes.pop().unwrap(), whole),
            _ => panic!("expected completion at cut {cut}"),
        }
    }
}

#[test]
fn trailing_bytes_after_path_are_malformed() {
    let mut data = path_bytes();
    data.push(0);
    let mut dev = Device::new(seed());
    let r = handle_apdu_async(&mut dev, &cmd(0x02, 0, Some(data)));
    assert!(matches!(r, Reply::Failed { err: AppError::Malformed }));
}

#[test]
fn mismatched_instruction_discards_progress() {
    let data = path_bytes();
    let mut dev = Device::new(seed());
    // Start a chunked pubkey request, then switch to a sign command: the
    // paused path parse is silently discarded.
    let r = handle_apdu_async(&mut dev, &cmd(0x02, 0, Some(data[..3].to_vec())));
    assert!(matches!(r, Reply::MoreNeeded));
    let r = handle_apdu_async(&mut dev, &cmd(0x03, 1, None));
    assert!(matches!(r, Reply::MoreNeeded));
    // And the pubkey request can start over cleanly after a cancel.
    reset_parsers_state(&mut dev.state);
    let rv = get_pubkey_reply(&mut dev);
    assert_eq!(rv.len(), 131);
}

#[test]
fn bad_seed_length_is_rejected_cleanly() {
    // BIP32 accepts only 16-, 32- or 64-byte seeds; derivation fails and
    // the dispatcher reports the failure instead of replying.
    let mut dev = Device::new(vec![0u8; 7]);
    let r = handle_apdu_async(&mut dev, &cmd(0x02, 0, Some(path_bytes())));
    assert!(matches!(r, Reply::Failed { err: AppError::Malformed }));
}
