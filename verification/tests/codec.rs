use actias::codec::{
    decode_bare, decode_padded, encode_bare, encode_padded, pack, unpack, MAX_BLOCK_LEN,
};

#[test]
fn packing_is_undone_by_unpacking() {
    let raw: Vec<u8> = b"return function() return 1 end".to_vec();
    let block = pack(&raw).expect("short content packs");
    assert_ne!(block, raw);
    assert_eq!(unpack(&block), Some(raw));
}

#[test]
fn packing_puts_the_length_in_front() {
    let raw: Vec<u8> = vec![7u8; 300];
    let block = pack(&raw).expect("short content packs");
    assert_eq!(&block[..4], &[44u8, 1, 0, 0]);
    assert!(block.len() < raw.len());
    assert_eq!(unpack(&block), Some(raw));
}

#[test]
fn empty_content_packs_and_unpacks() {
    let raw: Vec<u8> = Vec::new();
    let block = pack(&raw).expect("empty content packs");
    assert_eq!(unpack(&block), Some(Vec::new()));
}

#[test]
fn binary_content_comes_back_byte_for_byte() {
    let raw: Vec<u8> = (0..=255u8).cycle().take(5000).collect();
    let block = pack(&raw).expect("content packs");
    assert_eq!(unpack(&block), Some(raw));
}

#[test]
fn unpacking_refuses_what_was_not_packed() {
    assert_eq!(unpack(&vec![1u8, 2, 3]), None);
    assert_eq!(unpack(&vec![200u8, 0, 0, 0, 0xf0, 1]), None);
}

#[test]
fn unpacking_refuses_blocks_that_are_too_long() {
    let block: Vec<u8> = vec![0u8; MAX_BLOCK_LEN + 1];
    assert_eq!(unpack(&block), None);
}

#[test]
fn padded_base64_of_known_bytes() {
    assert_eq!(encode_padded(&b"hello".to_vec()), "aGVsbG8=");
    assert_eq!(encode_padded(&b"hi".to_vec()), "aGk=");
    assert_eq!(encode_padded(&Vec::new()), "");
    assert_eq!(decode_padded("aGVsbG8="), Some(b"hello".to_vec()));
}

#[test]
fn bare_base64_of_known_bytes() {
    assert_eq!(encode_bare(&b"hello".to_vec()), "aGVsbG8");
    assert_eq!(encode_bare(&b"hi".to_vec()), "aGk");
    assert_eq!(decode_bare("aGVsbG8"), Some(b"hello".to_vec()));
}

#[test]
fn each_form_of_base64_refuses_the_other() {
    assert_eq!(decode_padded("aGVsbG8"), None);
    assert_eq!(decode_bare("aGVsbG8="), None);
}

#[test]
fn base64_refuses_what_is_not_in_the_alphabet() {
    assert_eq!(decode_padded("a$b="), None);
    assert_eq!(decode_bare("a b"), None);
}

#[test]
fn base64_gives_back_what_was_written() {
    let samples: Vec<Vec<u8>> = vec![vec![], vec![0], vec![255, 254], vec![1, 2, 3], vec![9; 100]];
    for bytes in samples {
        assert_eq!(decode_padded(&encode_padded(&bytes)), Some(bytes.clone()));
        assert_eq!(decode_bare(&encode_bare(&bytes)), Some(bytes));
    }
}
