use gpu_ecmult::interpret::validity_cross_check;
use gpu_ecmult::validity::is_valid_secret_key;
use gpu_ecmult::validity::lt_bytes;
use gpu_ecmult::validity::order_bytes;

const ORDER: [u8; 32] = [
    0xff, 0xff, 0xff, 0xff, 0xff, 0xff, 0xff, 0xff, 0xff, 0xff, 0xff, 0xff, 0xff, 0xff, 0xff,
    0xfe, 0xba, 0xae, 0xdc, 0xe6, 0xaf, 0x48, 0xa0, 0x3b, 0xbf, 0xd2, 0x5e, 0x8c, 0xd0, 0x36,
    0x41, 0x41,
];

fn with_last_byte(mut bytes: [u8; 32], last: u8) -> Vec<u8> {
    bytes[31] = last;
    bytes.to_vec()
}

#[test]
fn boundary_vectors_follow_the_order() {
    // order - 1 (order ends in 0x41): valid.
    assert!(is_valid_secret_key(&with_last_byte(ORDER, 0x40)));
    // order itself: invalid.
    assert!(!is_valid_secret_key(&ORDER.to_vec()));
    // order + 1: invalid.
    assert!(!is_valid_secret_key(&with_last_byte(ORDER, 0x42)));
    // all-zero: invalid.
    assert!(!is_valid_secret_key(&vec![0u8; 32]));
    // all-0xFF (the largest 256-bit value): invalid.
    assert!(!is_valid_secret_key(&vec![0xffu8; 32]));
    // a generic value below the order: valid.
    let mut generic = vec![0u8; 32];
    generic[31] = 0x01;
    assert!(is_valid_secret_key(&generic));
}

#[test]
fn boundary_vectors_match_native_decisions() {
    let vectors: [(Vec<u8>, bool); 6] = [
        (ORDER.to_vec(), false),
        (vec![0xffu8; 32], false),
        (vec![0u8; 32], false),
        (with_last_byte([0u8; 32], 0x01), true),
        (with_last_byte(ORDER, 0x42), false),
        (with_last_byte(ORDER, 0x40), true),
    ];
    for (bytes, expected) in vectors {
        let (ours, native) = validity_cross_check(&bytes);
        assert_eq!(ours, expected, "our decision for {:?}", bytes);
        assert_eq!(native, expected, "native decision for {:?}", bytes);
        // The same decision once more, straight from the native library.
        let array: [u8; 32] = bytes.as_slice().try_into().unwrap();
        assert_eq!(
            secp256k1::SecretKey::from_secret_bytes(array).is_ok(),
            expected
        );
    }
}

#[test]
fn boundary_vector_set_is_the_expected_batch() {
    let batch = gpu_ecmult::validity::boundary_vectors();
    assert_eq!(batch.len(), 192);
    assert_eq!(&batch[0..32], &ORDER);
    assert!(batch[32..64].iter().all(|&b| b == 0xff));
    assert!(batch[64..96].iter().all(|&b| b == 0x00));
    assert!(batch[96..127].iter().all(|&b| b == 0x00));
    assert_eq!(batch[127], 0x01);
    assert_eq!(&batch[128..159], &ORDER[0..31]);
    assert_eq!(batch[159], 0x42);
    assert_eq!(&batch[160..191], &ORDER[0..31]);
    assert_eq!(batch[191], 0x40);

    let expected = [false, false, false, true, false, true];
    for (k, &want) in expected.iter().enumerate() {
        let candidate = batch[k * 32..(k + 1) * 32].to_vec();
        assert_eq!(is_valid_secret_key(&candidate), want, "vector {}", k);
        let (ours, native) = validity_cross_check(&candidate);
        assert_eq!(ours, want);
        assert_eq!(native, want);
    }
}

#[test]
fn wrong_length_is_invalid() {
    assert!(!is_valid_secret_key(&vec![0x01u8; 31]));
    assert!(!is_valid_secret_key(&vec![0x01u8; 33]));
    assert!(!is_valid_secret_key(&Vec::new()));
}

#[test]
fn order_bytes_are_the_known_constant() {
    assert_eq!(order_bytes(), ORDER.to_vec());
}

#[test]
fn byte_comparison_is_numeric() {
    let small = with_last_byte([0u8; 32], 0x01);
    let order = ORDER.to_vec();
    assert!(lt_bytes(&small, &order));
    assert!(!lt_bytes(&order, &small));
    assert!(!lt_bytes(&order, &order));
    assert!(lt_bytes(&with_last_byte(ORDER, 0x40), &order));
    assert!(!lt_bytes(&with_last_byte(ORDER, 0x42), &order));
}
