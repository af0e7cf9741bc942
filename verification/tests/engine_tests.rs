use signer_core::engine::{
    init, resume, Action, Endian, PromptTitle, Resumed, Schema, Value, Width,
};
use signer_core::interface::bip32_path_schema;

fn run_all(schema: Schema, bytes: &[u8]) -> (Option<(Value, usize)>, bool) {
    let st = init(schema);
    let out = resume(st, &bytes.to_vec());
    match out.next {
        Resumed::Complete(v, used) => (Some((v, used)), false),
        Resumed::Suspended(_) => (None, false),
        Resumed::Failed => (None, true),
    }
}

#[test]
fn u16_big_endian_value() {
    let (done, _) = run_all(Schema::UInt(Width::W2, Endian::Big), &[0x12, 0x34]);
    let (v, used) = done.unwrap();
    assert_eq!(used, 2);
    assert!(matches!(v, Value::Int(0x1234)));
}

#[test]
fn u16_little_endian_value() {
    let (done, _) = run_all(Schema::UInt(Width::W2, Endian::Little), &[0x12, 0x34]);
    let (v, _) = done.unwrap();
    assert!(matches!(v, Value::Int(0x3412)));
}

#[test]
fn u64_both_orders() {
    let bytes = [0x01, 0x02, 0x03, 0x04, 0x05, 0x06, 0x07, 0x08];
    let (done, _) = run_all(Schema::UInt(Width::W8, Endian::Big), &bytes);
    assert!(matches!(done.unwrap().0, Value::Int(0x0102030405060708)));
    let (done, _) = run_all(Schema::UInt(Width::W8, Endian::Little), &bytes);
    assert!(matches!(done.unwrap().0, Value::Int(0x0807060504030201)));
}

#[test]
fn fixed_bytes_collects_exactly() {
    let (done, _) = run_all(Schema::Bytes(3), &[9, 8, 7, 6]);
    let (v, used) = done.unwrap();
    assert_eq!(used, 3);
    match v {
        Value::Bytes(b) => assert_eq!(b, vec![9, 8, 7]),
        _ => panic!("expected bytes"),
    }
}

#[test]
fn truncated_input_suspends() {
    let st = init(Schema::UInt(Width::W4, Endian::Big));
    let out = resume(st, &vec![1, 2]);
    assert!(matches!(out.next, Resumed::Suspended(_)));
}

#[test]
fn darray_over_bound_fails() {
    // Length prefix 11 exceeds the path schema's bound of 10.
    let mut data = vec![11u8];
    data.extend_from_slice(&[0u8; 44]);
    let st = init(bip32_path_schema());
    let out = resume(st, &data);
    assert!(matches!(out.next, Resumed::Failed));
}

#[test]
fn path_parse_collects_ints() {
    let mut data = vec![2u8];
    data.extend_from_slice(&0x8000002Cu32.to_le_bytes());
    data.extend_from_slice(&0x80000000u32.to_le_bytes());
    let (done, _) = run_all(bip32_path_schema(), &data);
    let (v, used) = done.unwrap();
    assert_eq!(used, 9);
    match v {
        Value::Ints(l) => assert_eq!(l, vec![0x8000002C, 0x80000000]),
        _ => panic!("expected ints"),
    }
}

// Chunk invariance: any split of the input gives the same final value as
// feeding it whole.
#[test]
fn chunk_invariance_every_split() {
    let mut data = vec![3u8];
    data.extend_from_slice(&1u32.to_le_bytes());
    data.extend_from_slice(&0x7fffffffu32.to_le_bytes());
    data.extend_from_slice(&0xdeadbeefu32.to_le_bytes());

    let whole = {
        let out = resume(init(bip32_path_schema()), &data);
        match out.next {
            Resumed::Complete(Value::Ints(l), used) => (l, used),
            _ => panic!("expected completion"),
        }
    };
    assert_eq!(whole.0, vec![1, 0x7fffffff, 0xdeadbeef]);

    for cut in 0..data.len() {
        let (a, b) = data.split_at(cut);
        let st = init(bip32_path_schema());
        let out1 = resume(st, &a.to_vec());
        let st2 = match out1.next {
            Resumed::Suspended(s) => s,
            _ => panic!("first chunk should suspend at cut {cut}"),
        };
        let out2 = resume(st2, &b.to_vec());
        match out2.next {
            Resumed::Complete(Value::Ints(l), used) => {
                assert_eq!(l, whole.0, "split at {cut}");
                assert_eq!(cut + used, data.len());
            },
            _ => panic!("second chunk should complete at cut {cut}"),
        }
    }
}

#[test]
fn action_prompt_carries_rendering() {
    let schema = Schema::Act(
        Box::new(Schema::UInt(Width::W2, Endian::Big)),
        Action::Prompt(PromptTitle::GotInts),
    );
    let out = resume(init(schema), &vec![0x04, 0xd2]);
    match out.next {
        Resumed::Complete(_, _) => (),
        _ => panic!("expected completion"),
    }
    assert_eq!(out.prompts.len(), 1);
    assert!(matches!(out.prompts[0].title, PromptTitle::GotInts));
    assert_eq!(out.prompts[0].body, b"1234".to_vec());
}
