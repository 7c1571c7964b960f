use fsk_vco::intobits::{IntoBitsIterator, RepeatCursor, RepeatNWrapper, TypeIntoBitIteratorWrapper};

#[test]
fn byte_0x55_expands_msb_first() {
    let bits = TypeIntoBitIteratorWrapper::<u8>::new(0x55).into_iter().to_vec();
    assert_eq!(bits, vec![0, 1, 0, 1, 0, 1, 0, 1]);
}

#[test]
fn every_byte_expands_to_its_binary_digits() {
    for v in 0..=255u8 {
        let bits = IntoBitsIterator::new(v).to_vec();
        assert_eq!(bits.len(), 8);
        for (i, b) in bits.iter().enumerate() {
            assert_eq!(*b, (v >> (7 - i)) & 1);
        }
    }
}

#[test]
fn byte_edge_values() {
    assert_eq!(IntoBitsIterator::new(0u8).to_vec(), vec![0; 8]);
    assert_eq!(IntoBitsIterator::new(0xffu8).to_vec(), vec![1; 8]);
    assert_eq!(IntoBitsIterator::new(0x80u8).to_vec(), vec![1, 0, 0, 0, 0, 0, 0, 0]);
    assert_eq!(IntoBitsIterator::new(0x01u8).to_vec(), vec![0, 0, 0, 0, 0, 0, 0, 1]);
}

#[test]
fn wider_words_expand_to_their_width() {
    let b16 = IntoBitsIterator::new(0x8001u16).to_vec();
    let mut expected16 = vec![0u8; 16];
    expected16[0] = 1;
    expected16[15] = 1;
    assert_eq!(b16, expected16);

    let b32 = IntoBitsIterator::new(0xA000_0003u32).to_vec();
    assert_eq!(b32.len(), 32);
    assert_eq!(&b32[..4], &[1, 0, 1, 0]);
    assert_eq!(&b32[30..], &[1, 1]);

    let b64 = IntoBitsIterator::new(u64::MAX - 1).to_vec();
    assert_eq!(b64.len(), 64);
    assert!(b64[..63].iter().all(|b| *b == 1));
    assert_eq!(b64[63], 0);
}

#[test]
fn bit_cursor_stops_after_width() {
    let mut it = IntoBitsIterator::new(0xC3u8);
    let mut got = Vec::new();
    for _ in 0..8 {
        got.push(it.next().unwrap());
    }
    assert_eq!(got, vec![1, 1, 0, 0, 0, 0, 1, 1]);
    assert_eq!(it.remaining(), 0);
    assert_eq!(it.next(), None);
    assert_eq!(it.next(), None);
}

#[test]
fn repeat_gives_exactly_n_copies() {
    let run = RepeatNWrapper::<u8>::new(7, 5).into_iter().to_vec();
    assert_eq!(run, vec![7, 7, 7, 7, 7]);
}

#[test]
fn repeat_zero_is_empty() {
    let mut it = RepeatNWrapper::<u8>::new(1, 0).into_iter();
    assert_eq!(it.remaining(), 0);
    assert_eq!(it.next(), None);
    assert!(RepeatCursor::new(9u32, 0).to_vec().is_empty());
}

#[test]
fn repeat_cursor_counts_down() {
    let mut it = RepeatCursor::new(3u8, 2);
    assert_eq!(it.remaining(), 2);
    assert_eq!(it.next(), Some(3));
    assert_eq!(it.remaining(), 1);
    assert_eq!(it.next(), Some(3));
    assert_eq!(it.next(), None);
}

#[test]
fn expand_then_repeat_payload() {
    let payload = vec![0x55u8; 6];
    let mut symbols = Vec::new();
    for b in &payload {
        for bit in TypeIntoBitIteratorWrapper::<u8>::new(*b).into_iter().to_vec() {
            symbols.extend(RepeatNWrapper::<u8>::new(bit, 556).into_iter().to_vec());
        }
    }
    assert_eq!(symbols.len(), 26_688);
    assert!(symbols.iter().all(|s| *s == 0 || *s == 1));
    for (i, s) in symbols.iter().enumerate() {
        let bit_index = (i / 556) % 8;
        let expected = if bit_index % 2 == 0 { 0 } else { 1 };
        assert_eq!(*s, expected, "symbol {}", i);
    }
}
