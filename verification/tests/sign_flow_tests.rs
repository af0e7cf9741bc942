use signer_core::dispatch::{handle_apdu_async, provide_decision, reset_parsers_state, Device};
use signer_core::interface::{AppError, Command, Reply};
use signer_core::section::{build_literal_text, build_substitution, build_user_message};
use sha2::Digest;

// The template checksum of the demo template: user message "Transfer",
// literal text "Send tokens", then an eight-byte "Amount" substitution.
// The fixed trusted commitment in the library is the hash of exactly this
// one-entry allow-list.
const DEMO_CHECKSUM: [u8; 32] = [
    0x7f, 0x83, 0x70, 0xa6, 0xa5, 0xb4, 0xd3, 0xae, 0x3c, 0x62, 0xe2, 0x99, 0x3c, 0xcb, 0x7c,
    0x08, 0xb9, 0x30, 0x7c, 0xd3, 0xbb, 0x55, 0xbd, 0xab, 0x09, 0xbd, 0x08, 0x6e, 0xe5, 0xda,
    0xb4, 0x2c,
];

fn seed() -> Vec<u8> {
    vec![0x42u8; 32]
}

fn path_bytes() -> Vec<u8> {
    let mut p = vec![2u8];
    p.extend_from_slice(&0x8000002Cu32.to_le_bytes());
    p.extend_from_slice(&0x80000000u32.to_le_bytes());
    p
}

fn demo_sections(amount: [u8; 8]) -> Vec<Vec<u8>> {
    vec![
        build_user_message(&b"Transfer".to_vec()),
        build_literal_text(&b"Send tokens".to_vec()),
        build_substitution(&b"Amount".to_vec(), &amount.to_vec()),
    ]
}

fn sign_cmd(p1: u8, data: Option<Vec<u8>>) -> Command {
    Command { ins: 0x03, p1, params: data.into_iter().collect() }
}

fn run_flow(dev: &mut Device, amount: [u8; 8], cands: &[Vec<u8>]) -> Reply {
    for s in demo_sections(amount) {
        match handle_apdu_async(dev, &sign_cmd(0, Some(s))) {
            Reply::MoreNeeded => (),
            r => return r,
        }
    }
    match handle_apdu_async(dev, &sign_cmd(1, None)) {
        Reply::MoreNeeded => (),
        r => return r,
    }
    for c in cands {
        match handle_apdu_async(dev, &sign_cmd(0, Some(c.clone()))) {
            Reply::MoreNeeded => (),
            r => return r,
        }
    }
    match handle_apdu_async(dev, &sign_cmd(1, None)) {
        Reply::MoreNeeded => (),
        r => return r,
    }
    handle_apdu_async(dev, &sign_cmd(0, Some(path_bytes())))
}

fn expected_signed_hash(amount: [u8; 8]) -> [u8; 32] {
    let mut stream = Vec::new();
    stream.extend_from_slice(b"Send tokens");
    stream.extend_from_slice(&amount);
    sha2::Sha256::digest(&stream).into()
}

#[test]
fn accepted_template_reaches_signature() {
    let amount = [1, 2, 3, 4, 5, 6, 7, 8];
    let mut dev = Device::new(seed());
    let r = run_flow(&mut dev, amount, &[DEMO_CHECKSUM.to_vec()]);
    let prompts = match r {
        Reply::NeedsConfirmation { prompts } => prompts,
        _ => panic!("expected confirmation request"),
    };
    assert_eq!(prompts.len(), 2);

    // The first prompt shows the signed-content hash in hex.
    let h = expected_signed_hash(amount);
    let hex: String = h.iter().map(|b| format!("{b:02x}")).collect();
    assert_eq!(prompts[0].body, hex.into_bytes());

    let r = provide_decision(&mut dev.state, true);
    let sig = match r {
        Reply::Replied { writes } => writes.into_iter().last().unwrap(),
        _ => panic!("expected a signature reply"),
    };
    assert_eq!(sig.len(), 64);

    // Cross-check against a direct derivation and signing with the same
    // crates the library wraps.
    let mut dp = bip32::DerivationPath::default();
    dp.extend([bip32::ChildNumber(0x8000002C), bip32::ChildNumber(0x80000000)]);
    let xprv = bip32::XPrv::derive_from_path(seed(), &dp).unwrap();
    let sk = k256::ecdsa::SigningKey::from_slice(&xprv.to_bytes()).unwrap();
    let expected: k256::ecdsa::Signature = k256::ecdsa::signature::Signer::sign(&sk, &h);
    assert_eq!(sig, expected.to_vec());
}

#[test]
fn signature_is_deterministic() {
    let amount = [9, 9, 9, 9, 9, 9, 9, 9];
    let mut sigs = Vec::new();
    for _ in 0..2 {
        let mut dev = Device::new(seed());
        let r = run_flow(&mut dev, amount, &[DEMO_CHECKSUM.to_vec()]);
        assert!(matches!(r, Reply::NeedsConfirmation { .. }));
        match provide_decision(&mut dev.state, true) {
            Reply::Replied { writes } => sigs.push(writes.into_iter().last().unwrap()),
            _ => panic!("expected a signature reply"),
        }
    }
    assert_eq!(sigs[0], sigs[1]);
}

#[test]
fn unknown_checksum_is_untrusted() {
    let mut dev = Device::new(seed());
    let r = run_flow(&mut dev, [0; 8], &[vec![0xaau8; 32]]);
    assert!(matches!(r, Reply::Failed { err: AppError::UntrustedTemplate }));
}

#[test]
fn extra_candidate_breaks_the_meta_hash() {
    // The allow-list contains the right checksum but also one more entry,
    // so the commitment no longer matches.
    let mut dev = Device::new(seed());
    let r = run_flow(&mut dev, [0; 8], &[DEMO_CHECKSUM.to_vec(), vec![0xbbu8; 32]]);
    assert!(matches!(r, Reply::Failed { err: AppError::UntrustedTemplate }));
}

#[test]
fn empty_allowlist_is_untrusted() {
    let mut dev = Device::new(seed());
    let r = run_flow(&mut dev, [0; 8], &[]);
    assert!(matches!(r, Reply::Failed { err: AppError::UntrustedTemplate }));
}

#[test]
fn user_rejection_resets_without_signing() {
    let mut dev = Device::new(seed());
    let r = run_flow(&mut dev, [1; 8], &[DEMO_CHECKSUM.to_vec()]);
    assert!(matches!(r, Reply::NeedsConfirmation { .. }));
    let r = provide_decision(&mut dev.state, false);
    assert!(matches!(r, Reply::Failed { err: AppError::UserRejected }));
    // The next session starts from scratch and succeeds.
    let r = run_flow(&mut dev, [1; 8], &[DEMO_CHECKSUM.to_vec()]);
    assert!(matches!(r, Reply::NeedsConfirmation { .. }));
}

#[test]
fn malformed_section_rejects_and_resets() {
    let mut dev = Device::new(seed());
    let mut bad = build_user_message(&b"x".to_vec());
    bad[0] = 3;
    let r = handle_apdu_async(&mut dev, &sign_cmd(0, Some(bad)));
    assert!(matches!(r, Reply::Failed { err: AppError::Malformed }));
    // The slot is reset: a full fresh session still works.
    let r = run_flow(&mut dev, [0; 8], &[DEMO_CHECKSUM.to_vec()]);
    assert!(matches!(r, Reply::NeedsConfirmation { .. }));
}

#[test]
fn substitution_length_200_is_malformed() {
    let mut dev = Device::new(seed());
    let mut bad = build_substitution(&b"Amount".to_vec(), &vec![0u8; 8]);
    bad[1] = 200;
    let r = handle_apdu_async(&mut dev, &sign_cmd(0, Some(bad)));
    assert!(matches!(r, Reply::Failed { err: AppError::Malformed }));
}

#[test]
fn truncated_section_is_malformed() {
    let mut dev = Device::new(seed());
    let r = handle_apdu_async(&mut dev, &sign_cmd(0, Some(vec![0u8; 100])));
    assert!(matches!(r, Reply::Failed { err: AppError::Malformed }));
}

#[test]
fn substitution_changes_signature_but_not_acceptance() {
    // Two sessions over the same template with different substituted
    // amounts: both pass validation against the same allow-list, but they
    // sign different hashes.
    let mut h1 = None;
    let mut h2 = None;
    for (amount, out) in [([1u8; 8], &mut h1), ([2u8; 8], &mut h2)] {
        let mut dev = Device::new(seed());
        let r = run_flow(&mut dev, amount, &[DEMO_CHECKSUM.to_vec()]);
        match r {
            Reply::NeedsConfirmation { prompts } => *out = Some(prompts[0].body.clone()),
            _ => panic!("expected confirmation"),
        }
    }
    assert_ne!(h1.unwrap(), h2.unwrap());
}

#[test]
fn cancel_mid_session_leaves_no_residue() {
    let mut dev = Device::new(seed());
    for s in demo_sections([7; 8]) {
        let r = handle_apdu_async(&mut dev, &sign_cmd(0, Some(s)));
        assert!(matches!(r, Reply::MoreNeeded));
    }
    // Explicit cancel in mid-flight.
    reset_parsers_state(&mut dev.state);
    // A fresh run behaves exactly as on a fresh device.
    let r = run_flow(&mut dev, [7; 8], &[DEMO_CHECKSUM.to_vec()]);
    assert!(matches!(r, Reply::NeedsConfirmation { .. }));
}
