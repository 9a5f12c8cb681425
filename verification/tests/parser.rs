use riscv_mutator::parser::{parse_instructions, ParseError};
use riscv_mutator::riscv::riscv_g;
use riscv_mutator::rng::{RandomSource, Rng};

#[test]
fn parse_random_bytes() {
    let table = riscv_g();
    for i in 0..10000 {
        let mut rng = Rng::with_seed(i);

        let mut input = Vec::<u8>::new();
        for _ in 0..rng.below(100) {
            input.push((rng.below(256)) as u8);
        }

        let parsed = parse_instructions(&input, &table);
        if parsed.is_err() {
            continue;
        }
        assert_eq!(parsed.unwrap().len() * 4, input.len());
    }
}

#[test]
fn parse_rejects_trailing_garbage() {
    let table = riscv_g();
    // an `add` word plus one stray byte
    let input: Vec<u8> = vec![0xb3, 0x00, 0x41, 0x00, 0x13];
    assert_eq!(
        parse_instructions(&input, &table),
        Err(ParseError::TrailingGarbage)
    );
    assert_eq!(
        parse_instructions(&vec![1, 2, 3], &table),
        Err(ParseError::TrailingGarbage)
    );
}

#[test]
fn parse_rejects_unknown_encoding() {
    let table = riscv_g();
    // all-ones is no RV64-G encoding (no opcode 0b1111111 in the table)
    let input: Vec<u8> = vec![0xff, 0xff, 0xff, 0xff];
    assert_eq!(
        parse_instructions(&input, &table),
        Err(ParseError::UnknownEncoding(0xffffffff))
    );
}

#[test]
fn parse_empty_buffer() {
    let table = riscv_g();
    let parsed = parse_instructions(&Vec::new(), &table).unwrap();
    assert_eq!(parsed.len(), 0);
}
