use signer_core::dispatch::{handle_apdu_async, Device};
use signer_core::engine::{init, resume, Resumed, Value};
use signer_core::interface::{bip32_path_schema, AppError, Command, Reply};
use signer_core::section::{build_literal_text, build_substitution, build_user_message,
    section_valid};

fn seed() -> Vec<u8> {
    vec![0x42u8; 32]
}

fn sign_cmd(p1: u8, data: Option<Vec<u8>>) -> Command {
    Command { ins: 0x03, p1, params: data.into_iter().collect() }
}

// Zero sections are legal: the terminal body command hashes the empty
// input and moves on to validation instead of failing.
#[test]
fn zero_sections_is_legal() {
    let mut dev = Device::new(seed());
    let r = handle_apdu_async(&mut dev, &sign_cmd(1, None));
    assert!(matches!(r, Reply::MoreNeeded));
    // The empty template is not in the approved list, so the terminal
    // validation step refuses it.
    let r = handle_apdu_async(&mut dev, &sign_cmd(1, None));
    assert!(matches!(r, Reply::Failed { err: AppError::UntrustedTemplate }));
}

#[test]
fn maximal_field_sizes_are_valid() {
    let text = vec![0x61u8; 199];
    assert!(section_valid(&build_user_message(&text)));
    assert!(section_valid(&build_literal_text(&text)));
    let title = vec![0x62u8; 15];
    let sub = vec![0x63u8; 182];
    assert!(section_valid(&build_substitution(&title, &sub)));
}

#[test]
fn maximal_sections_feed_into_a_session() {
    let mut dev = Device::new(seed());
    let text = vec![0x61u8; 199];
    let r = handle_apdu_async(&mut dev, &sign_cmd(0, Some(build_literal_text(&text))));
    assert!(matches!(r, Reply::MoreNeeded));
    let sub = vec![0x63u8; 182];
    let r = handle_apdu_async(
        &mut dev,
        &sign_cmd(0, Some(build_substitution(&vec![0x62u8; 15], &sub))),
    );
    assert!(matches!(r, Reply::MoreNeeded));
}

#[test]
fn longest_path_parses() {
    let mut data = vec![10u8];
    for i in 0..10u32 {
        data.extend_from_slice(&(0x80000000 + i).to_le_bytes());
    }
    let out = resume(init(bip32_path_schema()), &data);
    match out.next {
        Resumed::Complete(Value::Ints(l), used) => {
            assert_eq!(used, 41);
            assert_eq!(l.len(), 10);
            assert_eq!(l[9], 0x80000009);
        },
        _ => panic!("expected completion"),
    }
}

#[test]
fn empty_path_parses_to_no_entries() {
    let out = resume(init(bip32_path_schema()), &vec![0u8]);
    match out.next {
        Resumed::Complete(Value::Ints(l), used) => {
            assert_eq!(used, 1);
            assert!(l.is_empty());
        },
        _ => panic!("expected completion"),
    }
}

// An empty derivation path is wire-legal; BIP32 then signs with the master
// key, so the device still answers deterministically.
#[test]
fn empty_path_get_pubkey_replies() {
    let mut dev = Device::new(seed());
    let cmd = Command { ins: 0x02, p1: 0, params: vec![vec![0u8]] };
    let a = match handle_apdu_async(&mut dev, &cmd) {
        Reply::Replied { mut writes } => writes.pop().unwrap(),
        _ => panic!("expected a reply"),
    };
    let b = match handle_apdu_async(&mut dev, &cmd) {
        Reply::Replied { mut writes } => writes.pop().unwrap(),
        _ => panic!("expected a reply"),
    };
    assert_eq!(a, b);
    assert_eq!(a.len(), 131);
}
