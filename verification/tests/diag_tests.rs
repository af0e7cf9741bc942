use signer_core::dispatch::{provide_decision, test_parsers, test_parsers2, ParsersState};
use signer_core::engine::PromptTitle;
use signer_core::interface::{AppError, Reply};

fn diag_input() -> Vec<u8> {
    let mut d = Vec::new();
    d.push(5u8); // a byte
    d.extend_from_slice(&[0xAA; 32]); // a 32-byte array
    d.extend_from_slice(&[0x01, 0x02]); // u16 big endian: 258
    d.extend_from_slice(&[0x03, 0x04]); // u16 little endian: 1027
    d.extend_from_slice(&[0, 0, 0, 0, 0, 0, 1, 0]); // u64 big endian: 256
    d.extend_from_slice(&[2, 0, 0, 0, 0, 0, 0, 0]); // u64 little endian: 2
    d.push(3); // first bounded sequence: three bytes
    d.extend_from_slice(&[10, 20, 30]);
    d.push(1); // second bounded sequence: one element
    d.extend_from_slice(&[0, 0, 0, 1]); // u32 big endian: 1
    d.extend_from_slice(&[2, 0, 0, 0]); // u32 little endian: 2
    d
}

fn titles(prompts: &[signer_core::engine::Prompt]) -> Vec<PromptTitle> {
    prompts.iter().map(|p| p.title).collect()
}

#[test]
fn diagnostic_run_queues_expected_prompts() {
    let mut state = ParsersState::NoState;
    let r = test_parsers(&mut state, &diag_input());
    let prompts = match r {
        Reply::NeedsConfirmation { prompts } => prompts,
        _ => panic!("expected confirmation"),
    };
    assert_eq!(prompts.len(), 6);
    assert!(matches!(
        titles(&prompts)[..],
        [
            PromptTitle::GotBytes,
            PromptTitle::GotInts,
            PromptTitle::GotInts,
            PromptTitle::GotInts,
            PromptTitle::GotList,
            PromptTitle::ParseDone,
        ]
    ));

    // The byte-and-array prompt renders the byte in decimal and the array
    // in hex, comma-joined.
    let mut expect = b"5, ".to_vec();
    expect.extend(std::iter::repeat(b"aa").take(32).flatten());
    assert_eq!(prompts[0].body, expect);
    // The first integer pair.
    assert_eq!(prompts[1].body, b"258, 1027".to_vec());
    assert_eq!(prompts[2].body, b"256, 2".to_vec());
    // The element of the second sequence.
    assert_eq!(prompts[3].body, b"1, 2".to_vec());
    // The list prompt: collected bytes in decimal, and the second
    // sequence's own value is empty.
    assert_eq!(prompts[4].body, b"10 20 30, ".to_vec());

    // Accepting completes with an empty terminal write.
    match provide_decision(&mut state, true) {
        Reply::Replied { writes } => assert_eq!(writes, vec![Vec::<u8>::new()]),
        _ => panic!("expected completion"),
    }
    assert!(matches!(state, ParsersState::NoState));
}

#[test]
fn diagnostic_prompts_are_chunk_invariant() {
    let data = diag_input();
    let whole = {
        let mut state = ParsersState::NoState;
        match test_parsers(&mut state, &data) {
            Reply::NeedsConfirmation { prompts } => prompts,
            _ => panic!("expected confirmation"),
        }
    };

    for cut in [1usize, 16, 33, 37, 53, 57, 60] {
        let mut state = ParsersState::NoState;
        let (a, b) = data.split_at(cut);
        let mut collected = Vec::new();
        match test_parsers(&mut state, &a.to_vec()) {
            Reply::MoreNeeded => (),
            _ => panic!("expected suspension at cut {cut}"),
        }
        match test_parsers2(&mut state, &b.to_vec()) {
            Reply::NeedsConfirmation { prompts } => collected.extend(prompts),
            _ => panic!("expected completion at cut {cut}"),
        }
        assert_eq!(collected.len(), whole.len(), "cut {cut}");
        for (x, y) in collected.iter().zip(whole.iter()) {
            assert_eq!(x.body, y.body, "cut {cut}");
        }
    }
}

#[test]
fn diagnostic_rejection_resets() {
    let mut state = ParsersState::NoState;
    let r = test_parsers(&mut state, &diag_input());
    assert!(matches!(r, Reply::NeedsConfirmation { .. }));
    let r = provide_decision(&mut state, false);
    assert!(matches!(r, Reply::Failed { err: AppError::UserRejected }));
    assert!(matches!(state, ParsersState::NoState));
}

#[test]
fn diagnostic_bad_count_fails() {
    // The second bounded sequence admits at most four elements.
    let mut d = diag_input();
    let n = d.len();
    d[n - 9] = 5;
    let mut state = ParsersState::NoState;
    let r = test_parsers(&mut state, &d);
    assert!(matches!(r, Reply::Failed { err: AppError::Malformed }));
}
